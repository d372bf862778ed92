use inverter::commissioning::trial::{Action, Event, Sight, Trial};
use inverter::commissioning::{
    charge_range, check_level, check_reading, parse, read_charge_range, usage, Failure,
};
use inverter::modbus::ModbusBus;
use inverter::{Applied, Capabilities, Command, Decimal, Error, Expiry, Inverter, Mode, Telemetry};
use std::sync::atomic::{AtomicBool, Ordering};
use std::time::{Duration, Instant, SystemTime};

fn quantity(x: f64) -> Decimal {
    if x.is_nan() {
        return Decimal::Nan;
    }
    let text = format!("{}", x.abs());
    let (whole, fraction) = text.split_once('.').unwrap_or((&text, ""));
    match format!("{whole}{fraction:0<15}").parse::<i128>() {
        Ok(parts) if x < 0.0 => Decimal::parts(-parts),
        Ok(parts) => Decimal::parts(parts),
        Err(_) if x < 0.0 => Decimal::NegInfinity,
        Err(_) => Decimal::PosInfinity,
    }
}

fn args(values: &[&str]) -> Vec<String> {
    values.iter().map(|v| (*v).to_owned()).collect()
}

fn parse_args(args: &[String]) -> Result<(String, Command), String> {
    let power = match args.get(2) {
        Some(power) => power
            .parse::<f64>()
            .map(quantity)
            .map_err(|e| e.to_string()),
        None => Err(String::new()),
    };
    parse(args, power)
}

#[test]
fn rejects_unbounded_invalid_and_ambiguous_commands() {
    for values in [
        vec![],
        vec!["port", "charge"],
        vec!["port", "charge", "5", "0"],
        vec!["port", "charge", "5", "301"],
        vec!["port", "charge", "NaN", "60"],
        vec!["port", "charge", "inf", "60"],
        vec!["port", "charge", "-1", "60"],
        vec!["port", "charge", "5.1", "60"],
        vec!["port", "discharge", "5", "60"],
        vec!["port", "passive", "extra"],
        vec!["", "passive"],
    ] {
        assert!(parse_args(&args(&values)).is_err(), "{values:?}");
    }
    assert_eq!(
        parse_args(&args(&["port", "charge", "5", "60"])).unwrap().1,
        Command::charge(quantity(5.0), Duration::from_secs(60))
    );
    assert_eq!(
        parse_args(&args(&["port", "export", "1", "30"])).unwrap().1,
        Command::export(quantity(1.0), Duration::from_secs(30))
    );
}

#[test]
fn a_refused_command_line_says_why() {
    assert_eq!(parse_args(&args(&["port"])).unwrap_err(), usage());
    assert_eq!(
        parse_args(&args(&["port", "charge", "x", "60"])).unwrap_err(),
        "invalid float literal"
    );
    for seconds in ["", "x", "-1", "1.5", " 1", "+", "18446744073709551616"] {
        assert_eq!(
            parse_args(&args(&["port", "charge", "1", seconds])).unwrap_err(),
            seconds.parse::<u64>().unwrap_err().to_string()
        );
    }
    assert_eq!(
        parse_args(&args(&["", "export", "1", "30"])).unwrap_err(),
        "serial port must not be empty"
    );
    let (port, command) = parse_args(&args(&["/dev/x", "passive"])).unwrap();
    assert_eq!((port.as_str(), command), ("/dev/x", Command::passive()));
    assert_eq!(
        parse_args(&args(&["p", "charge", "0.25", "+007"])).unwrap().1,
        Command::charge(quantity(0.25), Duration::from_secs(7))
    );
}

struct Fake {
    commands: Vec<Command>,
    reads: usize,
    soc: f64,
    fail_apply: bool,
    fail_reads: bool,
    fail_passive: bool,
    unbounded: bool,
}
impl Inverter for Fake {
    fn capabilities(&self) -> Capabilities {
        unreachable!()
    }
    fn read_telemetry(&mut self) -> Result<Telemetry, Error> {
        self.reads += 1;
        if self.fail_reads && self.reads > 1 {
            return Err(Error::Comm("lost telemetry".into()));
        }
        Ok(Telemetry {
            soc_pct: quantity(self.soc),
            battery_kw: quantity(0.0),
            grid_kw: quantity(0.0),
            load_kw: quantity(0.0),
            solar_kw: quantity(0.0),
            at: SystemTime::now(),
            read_at: Instant::now(),
        })
    }
    fn apply(&mut self, command: Command) -> Result<Applied, Error> {
        self.commands.push(command);
        if self.fail_apply && command.mode != Mode::Passive {
            return Err(Error::Comm("write reply lost".into()));
        }
        if self.fail_passive && command.mode == Mode::Passive {
            return Err(Error::Comm("no answer".into()));
        }
        Ok(Applied {
            power_kw: command.power_kw,
            expiry: match command.ttl() {
                Some(ttl) if !self.unbounded => Expiry::InverterTimeout(ttl),
                _ => Expiry::UntilChanged,
            },
        })
    }
    fn mode(&mut self) -> Result<Mode, Error> {
        unreachable!()
    }
}
fn fake(soc: f64) -> Fake {
    Fake {
        commands: vec![],
        reads: 0,
        soc,
        fail_apply: false,
        fail_reads: true,
        fail_passive: false,
        unbounded: false,
    }
}

fn run(
    inv: &mut Fake,
    command: Command,
    min_soc: f64,
    max_soc: f64,
    stop: &AtomicBool,
) -> Result<(), Failure> {
    let mut started = Instant::now();
    let mut trial = Trial::new(command, quantity(min_soc), quantity(max_soc));
    let mut event = Event::Begin;
    loop {
        let (next, action) = trial.next(event);
        trial = next;
        event = match action {
            Action::Apply(command) => {
                if command.mode != Mode::Passive {
                    started = Instant::now();
                }
                Event::Answer(inv.apply(command))
            }
            Action::Read => Event::Reading(inv.read_telemetry().map(|t| Sight {
                soc_pct: t.soc_pct,
                age: t.age(),
                elapsed: started.elapsed(),
                stopped: stop.load(Ordering::Relaxed),
            })),
            Action::Wait(pause) => {
                let from = Instant::now();
                while from.elapsed() < pause {}
                Event::Tick {
                    elapsed: started.elapsed(),
                    stopped: stop.load(Ordering::Relaxed),
                }
            }
            Action::Finish(result) => return result,
        };
    }
}

#[test]
fn soc_limits_prevent_writes() {
    for (soc, command) in [
        (
            95.0,
            Command::charge(quantity(5.0), Duration::from_secs(60)),
        ),
        (
            15.0,
            Command::export(quantity(1.0), Duration::from_secs(60)),
        ),
        (
            f64::NAN,
            Command::charge(quantity(1.0), Duration::from_secs(60)),
        ),
    ] {
        let mut inv = fake(soc);
        assert!(run(&mut inv, command, 15.0, 95.0, &AtomicBool::new(false)).is_err());
        assert!(inv.commands.is_empty());
    }
}

#[test]
fn lost_telemetry_or_write_reply_triggers_passive_cleanup() {
    for fail_apply in [false, true] {
        let mut inv = fake(50.0);
        inv.fail_apply = fail_apply;
        let command = Command::charge(quantity(5.0), Duration::from_secs(60));
        assert!(run(&mut inv, command, 15.0, 95.0, &AtomicBool::new(false)).is_err());
        assert_eq!(inv.commands, vec![command, Command::passive()]);
    }
}

#[test]
fn passive_does_not_require_working_telemetry() {
    let mut inv = fake(f64::NAN);
    run(
        &mut inv,
        Command::passive(),
        15.0,
        95.0,
        &AtomicBool::new(false),
    )
    .unwrap();
    assert_eq!(inv.reads, 0);
    assert_eq!(inv.commands, vec![Command::passive()]);
}

#[test]
fn successful_test_sends_one_override_then_returns_to_passive() {
    let mut inv = fake(50.0);
    inv.fail_reads = false;
    let command = Command::charge(quantity(5.0), Duration::from_secs(1));
    run(&mut inv, command, 15.0, 95.0, &AtomicBool::new(false)).unwrap();
    assert_eq!(inv.commands, vec![command, Command::passive()]);
    assert!(inv.reads >= 3);
}

#[test]
fn a_failed_test_says_how_it_ended() {
    let command = Command::charge(quantity(5.0), Duration::from_secs(60));
    let go = AtomicBool::new(false);
    let mut inv = fake(50.0);
    assert_eq!(
        run(&mut inv, command, 15.0, 95.0, &go).unwrap_err().text(),
        "communication error: lost telemetry; passive/self-use acknowledged"
    );
    let mut inv = fake(50.0);
    inv.fail_passive = true;
    assert_eq!(
        run(&mut inv, command, 15.0, 95.0, &go).unwrap_err().text(),
        "test result: Err(Comm(\"lost telemetry\")); FAILED to restore passive: communication error: no answer; check inverter locally"
    );
    let mut inv = fake(50.0);
    inv.unbounded = true;
    assert_eq!(
        run(&mut inv, command, 15.0, 95.0, &go).unwrap_err().text(),
        "driver did not report a bounded hardware timeout; passive/self-use acknowledged"
    );
    assert_eq!(inv.commands, vec![command, Command::passive()]);
    let mut inv = fake(50.0);
    inv.unbounded = true;
    inv.fail_passive = true;
    assert_eq!(
        run(&mut inv, command, 15.0, 95.0, &go).unwrap_err().text(),
        "test result: Err(\"driver did not report a bounded hardware timeout\"); FAILED to restore passive: communication error: no answer; check inverter locally"
    );
    let mut inv = fake(50.0);
    inv.fail_passive = true;
    assert_eq!(
        run(&mut inv, Command::passive(), 15.0, 95.0, &go)
            .unwrap_err()
            .text(),
        "communication error: no answer"
    );
}

#[test]
fn a_stop_before_the_command_sends_nothing() {
    let command = Command::charge(quantity(5.0), Duration::from_secs(60));
    let mut inv = fake(50.0);
    assert_eq!(
        run(&mut inv, command, 15.0, 95.0, &AtomicBool::new(true))
            .unwrap_err()
            .text(),
        "interrupted before command"
    );
    assert!(inv.commands.is_empty());
}

#[test]
fn a_stop_during_the_command_ends_it() {
    let command = Command::charge(quantity(5.0), Duration::from_secs(60));
    let trial = Trial::new(command, quantity(15.0), quantity(95.0));
    let sight = |stopped: bool| {
        Event::Reading(Ok(Sight {
            soc_pct: quantity(50.0),
            age: Duration::ZERO,
            elapsed: Duration::from_secs(1),
            stopped,
        }))
    };
    let (trial, _) = trial.next(Event::Begin);
    let (trial, action) = trial.next(sight(false));
    assert!(matches!(action, Action::Apply(c) if c == command));
    let (trial, action) = trial.next(Event::Answer(Ok(Applied {
        power_kw: quantity(5.0),
        expiry: Expiry::InverterTimeout(Duration::from_secs(60)),
    })));
    assert!(matches!(action, Action::Wait(pause) if pause.is_zero()));
    let (trial, action) = trial.next(Event::Tick {
        elapsed: Duration::ZERO,
        stopped: false,
    });
    assert!(matches!(action, Action::Read));
    let (trial, action) = trial.next(sight(true));
    assert!(matches!(action, Action::Wait(pause) if pause == Duration::from_secs(2)));
    let (trial, action) = trial.next(Event::Tick {
        elapsed: Duration::from_secs(3),
        stopped: true,
    });
    assert!(matches!(action, Action::Apply(c) if c == Command::passive()));
    let (trial, action) = trial.next(Event::Answer(Ok(Applied {
        power_kw: quantity(0.0),
        expiry: Expiry::UntilChanged,
    })));
    assert!(matches!(action, Action::Read));
    let (_, action) = trial.next(sight(true));
    assert!(matches!(action, Action::Finish(Ok(()))));
}

#[test]
fn the_last_wait_ends_with_the_command() {
    let command = Command::export(quantity(1.0), Duration::from_millis(1_500));
    let mut trial = Trial::new(command, quantity(15.0), quantity(95.0));
    trial = trial.next(Event::Begin).0;
    let sight = |elapsed: u64| {
        Event::Reading(Ok(Sight {
            soc_pct: quantity(50.0),
            age: Duration::ZERO,
            elapsed: Duration::from_millis(elapsed),
            stopped: false,
        }))
    };
    trial = trial.next(sight(0)).0;
    trial = trial
        .next(Event::Answer(Ok(Applied {
            power_kw: quantity(1.0),
            expiry: Expiry::InverterTimeout(Duration::from_secs(1)),
        })))
        .0;
    trial = trial
        .next(Event::Tick {
            elapsed: Duration::ZERO,
            stopped: false,
        })
        .0;
    let (_, action) = trial.next(sight(400));
    assert!(matches!(action, Action::Wait(pause) if pause == Duration::from_millis(1_100)));
}

#[test]
fn readings_are_judged_by_level_and_age() {
    let charge = Command::charge(quantity(1.0), Duration::from_secs(60));
    let export = Command::export(quantity(1.0), Duration::from_secs(60));
    let (low, high) = (quantity(15.0), quantity(95.0));
    let judge = |soc: f64, age: Duration, command: Command| {
        check_level(quantity(soc), age, command, low, high)
    };
    let now = Duration::ZERO;
    assert!(judge(94.9, now, charge).is_ok());
    assert_eq!(
        judge(95.0, now, charge).unwrap_err(),
        "charge level 95% has reached the 95% test ceiling"
    );
    assert!(judge(95.0, now, export).is_ok());
    assert_eq!(
        judge(14.5, now, export).unwrap_err(),
        "charge level 14.5% has reached the 15% test floor"
    );
    assert!(judge(14.5, now, charge).is_ok());
    assert!(judge(50.0, Duration::from_secs(5), charge).is_ok());
    for (soc, age) in [
        (50.0, Duration::from_millis(5_001)),
        (-0.1, now),
        (100.1, now),
        (f64::NAN, now),
        (f64::INFINITY, now),
    ] {
        assert_eq!(
            judge(soc, age, charge).unwrap_err(),
            "invalid or stale battery charge reading"
        );
    }
    let t = fake(20.0).read_telemetry().unwrap();
    assert!(check_reading(&t, charge, low, high).is_ok());
    assert!(check_reading(&t, charge, low, quantity(20.0)).is_err());
}

struct Limits {
    min: u16,
    max: u16,
    reads: Vec<u16>,
}

impl ModbusBus for Limits {
    fn read_input(&mut self, _address: u16, _words: u8) -> Result<Vec<u16>, Error> {
        unreachable!()
    }
    fn read_holding(&mut self, address: u16, words: u8) -> Result<Vec<u16>, Error> {
        assert_eq!(words, 1);
        self.reads.push(address);
        match address {
            41009 => Ok(vec![self.min]),
            41010 => Ok(vec![self.max]),
            _ => Err(Error::Comm("no such register".into())),
        }
    }
    fn write_holding(&mut self, _address: u16, _value: u16) -> Result<(), Error> {
        unreachable!()
    }
    fn pause(&mut self, _pause: Duration) {}
}

#[test]
fn the_charge_range_is_the_intersection_of_both_limits() {
    let range = |min: u16, max: u16| charge_range(min, max).map_err(|e| e.text());
    assert_eq!(range(10, 100), Ok((quantity(15.0), quantity(95.0))));
    assert_eq!(range(20, 90), Ok((quantity(20.0), quantity(90.0))));
    for (min, max) in [(50, 50), (60, 50), (10, 101), (101, 102)] {
        assert_eq!(
            range(min, max),
            Err("invalid inverter charge limits; no write attempted".to_string())
        );
    }
    for (min, max) in [(5, 15), (95, 100)] {
        assert_eq!(
            range(min, max),
            Err("inverter limits leave no commissioning charge range".to_string())
        );
    }
}

#[test]
fn the_inverter_is_asked_for_its_limits_unless_the_command_is_passive() {
    let mut bus = Limits {
        min: 10,
        max: 80,
        reads: vec![],
    };
    assert_eq!(
        read_charge_range(&mut bus, &Command::passive()).unwrap(),
        (quantity(15.0), quantity(95.0))
    );
    assert!(bus.reads.is_empty());
    let command = Command::charge(quantity(1.0), Duration::from_secs(60));
    assert_eq!(
        read_charge_range(&mut bus, &command).unwrap(),
        (quantity(15.0), quantity(80.0))
    );
    assert_eq!(bus.reads, [41009, 41010]);
}

use inverter::foxess::registers::{self, remote_control};
use inverter::foxess::{command_values, FoxEss, RegisterMap, MAX_TIMEOUT_SECS};
use inverter::modbus::ModbusBus;
use inverter::register::{RegKind, RegisterDef};
use inverter::{Command, Decimal, Error, Expiry, Inverter, InverterExt, Mode};
use std::collections::HashMap;
use std::sync::{Arc, Mutex};
use std::time::{Duration, Instant, SystemTime};

const MODES: [Mode; 4] = [
    Mode::Passive,
    Mode::Hold,
    Mode::ForceCharge,
    Mode::ForceDischarge,
];

const MAX_TIMEOUT: Duration = Duration::from_secs(u16::MAX as u64);

fn quantity(x: f64) -> Decimal {
    if x.is_nan() {
        return Decimal::Nan;
    }
    let text = format!("{}", x.abs());
    let (whole, fraction) = text.split_once('.').unwrap_or((&text, ""));
    match format!("{whole}{fraction:0<15}").parse::<i128>() {
        Ok(parts) if x < 0.0 => Decimal::parts(-parts),
        Ok(parts) => Decimal::parts(parts),
        Err(_) if x < 0.0 => Decimal::NegInfinity,
        Err(_) => Decimal::PosInfinity,
    }
}

/// What a [`FakeBus`] was asked to write, and how long it was told to pause.
#[derive(Default)]
struct Seen {
    writes: Vec<(u16, u16)>,
    pauses: Vec<Duration>,
    reads: usize,
}

/// A bus that replays reads, records function-6 writes and keeps what is
/// written to the timeout register readable.
struct FakeBus {
    input: HashMap<u16, Vec<u16>>,
    holding: HashMap<u16, Vec<u16>>,
    failures: usize,
    first_read: Arc<Mutex<Option<Instant>>>,
    seen: Arc<Mutex<Seen>>,
}

impl FakeBus {
    fn with_input(pairs: &[(u16, u16)]) -> Self {
        Self {
            input: pairs.iter().map(|&(a, v)| (a, vec![v])).collect(),
            holding: HashMap::new(),
            failures: 0,
            first_read: Arc::default(),
            seen: Arc::default(),
        }
    }

    fn with_holding(pairs: &[(u16, u16)]) -> Self {
        Self {
            input: HashMap::new(),
            holding: pairs.iter().map(|&(a, v)| (a, vec![v])).collect(),
            failures: 0,
            first_read: Arc::default(),
            seen: Arc::default(),
        }
    }
}

impl ModbusBus for FakeBus {
    fn read_input(&mut self, address: u16, _words: u8) -> Result<Vec<u16>, Error> {
        self.seen.lock().unwrap().reads += 1;
        if self.failures > 0 {
            self.failures -= 1;
            return Err(Error::Comm("dropped frame".to_string()));
        }
        self.input
            .get(&address)
            .cloned()
            .ok_or_else(|| Error::Comm(format!("no fixture for input {address}")))
    }
    fn read_holding(&mut self, address: u16, _words: u8) -> Result<Vec<u16>, Error> {
        self.first_read
            .lock()
            .unwrap()
            .get_or_insert_with(Instant::now);
        self.seen.lock().unwrap().reads += 1;
        self.holding
            .get(&address)
            .cloned()
            .ok_or_else(|| Error::Comm(format!("no fixture for holding {address}")))
    }
    fn write_holding(&mut self, address: u16, value: u16) -> Result<(), Error> {
        self.seen.lock().unwrap().writes.push((address, value));
        if address == remote_control::timeout_set().address {
            self.holding.insert(address, vec![value]);
        }
        Ok(())
    }
    fn pause(&mut self, pause: Duration) {
        self.seen.lock().unwrap().pauses.push(pause);
    }
}

/// A G1 charging from the grid: raw battery negative, raw grid negative.
fn g1_fixture() -> FakeBus {
    let map = registers::h1_g1();
    FakeBus::with_input(&[
        (map.battery_soc.address, 64),
        // Raw -1500: charging, in FoxESS's discharge-positive convention.
        (map.battery_power.address, (-1500i16) as u16),
        // Raw -2000: importing, in FoxESS's export-positive convention.
        (map.grid_power.address, (-2000i16) as u16),
        (map.load_power.address, 500),
        (map.pv_powers[0].address, 0),
        (map.pv_powers[1].address, 0),
    ])
}

/// A G2 discharging to cover load and exporting the rest, with some sun.
fn g2_fixture() -> FakeBus {
    let map = registers::h1_g2();
    FakeBus::with_holding(&[
        (map.battery_soc.address, 55),
        // Raw +400: discharging.
        (map.battery_power.address, 400),
        // Raw +250: exporting.
        (map.grid_power.address, 250),
        (map.load_power.address, 750),
        (map.pv_powers[0].address, 300),
        (map.pv_powers[1].address, 300),
    ])
}

#[test]
fn g1_normalises_foxess_signs_and_watts_to_crate_conventions() {
    let mut inv = FoxEss::new(g1_fixture(), registers::h1_g1());
    let t = inv.read_telemetry().unwrap();
    assert_eq!(t.soc_pct, quantity(64.0));
    assert_eq!(
        t.battery_kw,
        quantity(1.5),
        "raw negative watts mean charging"
    );
    assert_eq!(
        t.grid_kw,
        quantity(2.0),
        "raw negative watts mean importing"
    );
    assert_eq!(t.load_kw, quantity(0.5));
    assert_eq!(t.solar_kw, quantity(0.0));
    assert_eq!(
        t.export_kw(),
        quantity(0.0),
        "importing, so nothing is exported"
    );
}

#[test]
fn g2_reads_holding_registers_and_sums_pv_strings() {
    let mut inv = FoxEss::new(g2_fixture(), registers::h1_g2());
    let t = inv.read_telemetry().unwrap();
    assert_eq!(t.soc_pct, quantity(55.0));
    assert_eq!(
        t.battery_kw,
        quantity(-0.4),
        "raw positive means discharging"
    );
    assert_eq!(t.grid_kw, quantity(-0.25), "raw positive means exporting");
    assert_eq!(t.export_kw(), quantity(0.25));
    assert_eq!(t.load_kw, quantity(0.75));
    assert_eq!(t.solar_kw, quantity(0.6), "both PV strings summed");
}

#[test]
fn a_slightly_negative_load_reading_clamps_to_zero() {
    let mut bus = g2_fixture();
    bus.holding.insert(
        registers::h1_g2().load_power.address,
        vec![(-5i16) as u16],
    );
    let mut inv = FoxEss::new(bus, registers::h1_g2());
    assert_eq!(inv.read_telemetry().unwrap().load_kw, quantity(0.0));
}

#[test]
fn reports_native_timeout_write_capability() {
    for map in [registers::h1_g1(), registers::h1_g2()] {
        let inv = FoxEss::new(FakeBus::with_input(&[]), map);
        let caps = inv.capabilities();
        assert!(caps.can_write);
        assert_eq!(caps.write_blocked_reason, None);
        assert_eq!(caps.expiry, Expiry::InverterTimeout(MAX_TIMEOUT));
        assert!(caps.expiry.is_dead_controller_safe());
        assert!(caps.reports_solar);
        assert!(!caps.reports_mode, "mode read-back varies by connection");
        for mode in MODES {
            assert!(caps.supports(mode), "{mode:?} must be advertised");
        }
    }
}

#[test]
fn the_capabilities_name_the_map() {
    let inv = FoxEss::new(FakeBus::with_input(&[]), registers::h1_g1());
    assert_eq!(
        inv.capabilities().model,
        "FoxESS H1 G1 (RS485, community map, unverified)"
    );
    let inv = FoxEss::new(FakeBus::with_input(&[]), registers::h1_g2());
    assert_eq!(
        inv.capabilities().model,
        "FoxESS H1 G2 (RS485, community map, unverified)"
    );
}

#[test]
fn mode_read_back_is_honestly_unsupported() {
    let mut inv = FoxEss::new(g2_fixture(), registers::h1_g2());
    assert!(matches!(inv.mode(), Err(Error::Unsupported(_))));
}

#[test]
fn a_charge_uses_the_native_watchdog_and_foxess_power_sign() {
    let bus = g2_fixture();
    let seen = bus.seen.clone();
    let mut inv = FoxEss::new(bus, registers::h1_g2());
    let ttl = Duration::from_secs(60);

    let applied = inv.apply(Command::charge(quantity(2.0), ttl)).unwrap();

    assert_eq!(applied.expiry, Expiry::InverterTimeout(ttl));
    assert_eq!(applied.power_kw, quantity(2.0));
    assert_eq!(
        seen.lock().unwrap().writes,
        [
            (remote_control::remote_enable().address, 0),
            (remote_control::work_mode().address, 0),
            (remote_control::active_power().address, 0),
            (remote_control::remote_enable().address, 1),
            (remote_control::timeout_set().address, 60),
            (
                remote_control::active_power().address,
                (-2000i16) as u16
            ),
        ]
    );
}

#[test]
fn a_new_command_cancels_and_replaces_the_native_watchdog() {
    let bus = g2_fixture();
    let seen = bus.seen.clone();
    let mut inv = FoxEss::new(bus, registers::h1_g2());
    inv.apply(Command::charge(quantity(2.0), Duration::from_secs(60)))
        .unwrap();
    seen.lock().unwrap().writes.clear();

    let applied = inv
        .apply(Command::export(quantity(3.0), Duration::from_secs(15)))
        .unwrap();

    assert_eq!(
        applied.expiry,
        Expiry::InverterTimeout(Duration::from_secs(15))
    );
    assert_eq!(
        seen.lock().unwrap().writes,
        [
            (remote_control::remote_enable().address, 0),
            (remote_control::work_mode().address, 0),
            (remote_control::active_power().address, 0),
            (remote_control::remote_enable().address, 1),
            (remote_control::timeout_set().address, 15),
            (remote_control::active_power().address, 3000),
        ]
    );
}

#[test]
fn hold_uses_zero_active_power_with_the_native_watchdog() {
    let bus = g2_fixture();
    let seen = bus.seen.clone();
    let mut inv = FoxEss::new(bus, registers::h1_g2());
    let ttl = Duration::from_secs(90);

    let applied = inv.apply(Command::hold(ttl)).unwrap();

    assert_eq!(applied.expiry, Expiry::InverterTimeout(ttl));
    assert_eq!(applied.power_kw, quantity(0.0));
    assert_eq!(
        seen.lock().unwrap().writes,
        [
            (remote_control::remote_enable().address, 0),
            (remote_control::work_mode().address, 0),
            (remote_control::active_power().address, 0),
            (remote_control::remote_enable().address, 1),
            (remote_control::timeout_set().address, 90),
            (remote_control::active_power().address, 0),
        ]
    );
}

#[test]
fn passive_disables_remote_control_without_arming_another_timeout() {
    let bus = g2_fixture();
    let seen = bus.seen.clone();
    let mut inv = FoxEss::new(bus, registers::h1_g2());

    let applied = inv.apply(Command::passive()).unwrap();

    assert_eq!(applied.expiry, Expiry::UntilChanged);
    assert_eq!(applied.power_kw, quantity(0.0));
    assert_eq!(
        seen.lock().unwrap().writes,
        [
            (remote_control::remote_enable().address, 0),
            (remote_control::work_mode().address, 0),
        ]
    );
}

#[test]
fn invalid_commands_are_rejected_before_modbus_is_touched() {
    let commands = [
        Command::charge(quantity(2.0), Duration::from_millis(999)),
        Command::charge(quantity(2.0), MAX_TIMEOUT + Duration::from_secs(1)),
        Command::charge(quantity(0.0), Duration::from_secs(60)),
        Command::discharge(quantity(2.0), Duration::from_secs(60)),
    ];

    for command in commands {
        let bus = g2_fixture();
        let seen = bus.seen.clone();
        let mut inv = FoxEss::new(bus, registers::h1_g2());
        assert!(inv.apply(command).is_err());
        assert!(seen.lock().unwrap().writes.is_empty());
        assert_eq!(seen.lock().unwrap().reads, 0);
    }
}

#[test]
fn fractional_ttls_round_down_so_the_hardware_never_outlives_the_command() {
    let bus = g2_fixture();
    let seen = bus.seen.clone();
    let mut inv = FoxEss::new(bus, registers::h1_g2());
    let applied = inv
        .apply(Command::export(quantity(1.0), Duration::from_millis(1_999)))
        .unwrap();

    assert_eq!(
        applied.expiry,
        Expiry::InverterTimeout(Duration::from_secs(1))
    );
    assert_eq!(
        seen.lock().unwrap().writes[4],
        (remote_control::timeout_set().address, 1)
    );
}

#[test]
fn a_missing_register_is_an_error_not_a_plausible_zero() {
    let mut inv = FoxEss::new(
        FakeBus::with_input(&[(registers::h1_g1().battery_soc.address, 50)]),
        registers::h1_g1(),
    );
    assert!(inv.read_telemetry().is_err());
}

#[test]
fn a_g2_wired_up_with_the_g1_map_fails_rather_than_lying() {
    // The maps live in different register tables, so the mismatch is an
    // error instead of plausible zeroes.
    let mut inv = FoxEss::new(g2_fixture(), registers::h1_g1());
    assert!(inv.read_telemetry().is_err());
}

#[test]
fn the_maps_pin_the_community_documented_addresses() {
    let g1 = registers::h1_g1();
    assert_eq!(g1.battery_soc.address, 11036);
    assert_eq!(g1.battery_power.address, 11008);
    assert_eq!(g1.grid_power.address, 11021);
    assert_eq!(g1.load_power.address, 11023);
    assert!(g1.pv_powers.iter().all(|reg| reg.kind == RegKind::Input));

    let g2 = registers::h1_g2();
    assert_eq!(g2.battery_soc.address, 31024);
    assert_eq!(g2.battery_power.address, 31022);
    assert_eq!(g2.grid_power.address, 31014);
    assert_eq!(g2.load_power.address, 31016);
    assert!(g2.pv_powers.iter().all(|reg| reg.kind == RegKind::Holding));

    for map in [g1, g2] {
        assert_eq!(
            map.battery_power.scale, -1_000_000_000_000,
            "raw battery watts are discharge-positive; scaled to charge-positive kW"
        );
        assert_eq!(
            map.grid_power.scale, -1_000_000_000_000,
            "raw grid watts are export-positive; scaled to import-positive kW"
        );
        assert_eq!(map.load_power.scale, 1_000_000_000_000);
        for pv in map.pv_powers {
            assert_eq!(pv.scale, 1_000_000_000_000);
        }
        assert!(map.battery_power.signed && map.grid_power.signed && map.load_power.signed);
    }
}

#[test]
fn a_missing_pv_register_is_an_error_like_any_other() {
    let mut bus = g2_fixture();
    bus.holding.remove(&registers::h1_g2().pv_powers[1].address);
    let mut inv = FoxEss::new(bus, registers::h1_g2());
    assert!(inv.read_telemetry().is_err());
}

#[test]
fn remote_control_registers_pin_the_h1_function_6_addresses() {
    assert_eq!(remote_control::timeout_set().address, 44001);
    assert_eq!(remote_control::remote_enable().address, 44000);
    assert_eq!(remote_control::active_power().address, 44002);
}

#[test]
fn the_remaining_remote_control_registers_keep_their_addresses() {
    assert_eq!(remote_control::work_mode().address, 41000);
    assert_eq!(remote_control::min_soc().address, 41009);
    assert_eq!(remote_control::max_soc().address, 41010);
    assert_eq!(remote_control::active_power().scale, 1_000_000_000_000);
    assert!(remote_control::active_power().signed);
}

#[test]
fn every_write_is_followed_by_a_pause() {
    let bus = g2_fixture();
    let seen = bus.seen.clone();
    let mut inv = FoxEss::new(bus, registers::h1_g2());
    inv.export(quantity(1.0), Duration::from_secs(30)).unwrap();
    let seen = seen.lock().unwrap();
    assert_eq!(seen.pauses, vec![Duration::from_millis(30); 6]);
}

#[test]
fn a_dropped_frame_is_retried_with_growing_pauses() {
    let mut bus = g1_fixture();
    bus.failures = 2;
    let seen = bus.seen.clone();
    let mut inv = FoxEss::new(bus, registers::h1_g1());
    assert_eq!(inv.get_soc_pct().unwrap(), quantity(64.0));
    let seen = seen.lock().unwrap();
    assert_eq!(
        seen.pauses,
        [Duration::from_millis(500), Duration::from_millis(1000)]
    );
    assert_eq!(seen.reads, 8);
}

#[test]
fn a_reading_is_stamped_before_its_registers_are_read() {
    let mut inv = FoxEss::new(g2_fixture(), registers::h1_g2());
    let (at, read_at) = (SystemTime::now(), Instant::now());
    let t = inv.read_telemetry_at(at, read_at).unwrap();
    assert_eq!((t.at, t.read_at), (at, read_at));
    assert_eq!(t.soc_pct, quantity(55.0));

    let bus = g2_fixture();
    let first = bus.first_read.clone();
    let mut inv = FoxEss::new(bus, registers::h1_g2());
    let t = inv.read_telemetry().unwrap();
    assert!(t.read_at <= first.lock().unwrap().unwrap());
}

#[test]
fn a_third_failure_is_reported() {
    let mut bus = g1_fixture();
    bus.failures = 3;
    let seen = bus.seen.clone();
    let mut inv = FoxEss::new(bus, registers::h1_g1());
    assert_eq!(
        inv.read_telemetry().unwrap_err().text(),
        "communication error: dropped frame"
    );
    assert_eq!(seen.lock().unwrap().reads, 3);
}

#[test]
fn a_short_reply_is_an_error() {
    let mut bus = g2_fixture();
    bus.holding
        .insert(registers::h1_g2().grid_power.address, vec![]);
    let mut inv = FoxEss::new(bus, registers::h1_g2());
    assert_eq!(
        inv.read_telemetry().unwrap_err().text(),
        "communication error: short modbus reply for grid_ct: got 0 words, expected 1"
    );
}

#[test]
fn command_values_hold_the_timeout_the_power_word_and_the_power() {
    let ttl = Duration::from_millis(2_700);
    let (timeout, raw, kw) = command_values(Command::charge(quantity(1.2344), ttl)).unwrap();
    assert_eq!((timeout, raw, kw), (2, (-1234i16) as u16, quantity(1.234)));
    let (timeout, raw, kw) = command_values(Command::export(quantity(32.767), ttl)).unwrap();
    assert_eq!((timeout, raw, kw), (2, 32_767, quantity(32.767)));
    assert_eq!(MAX_TIMEOUT_SECS, u16::MAX);
    let (timeout, _, _) = command_values(Command::hold(MAX_TIMEOUT)).unwrap();
    assert_eq!(timeout, u16::MAX);
}

#[test]
fn refused_commands_say_why() {
    let ttl = Duration::from_secs(60);
    let fault = |command: Command| command_values(command).unwrap_err().text();
    assert_eq!(
        fault(Command::passive()),
        "value out of range: passive requires a non-zero TTL"
    );
    assert_eq!(
        fault(Command::hold(Duration::from_millis(1))),
        "value out of range: FoxESS command TTL must be 1..=65535 seconds, got 1ms"
    );
    assert_eq!(
        fault(Command::charge(quantity(-1.5), ttl)),
        "value out of range: command power must be positive, got -1.5 kW"
    );
    assert_eq!(
        fault(Command::discharge(quantity(1.0), ttl)),
        "unsupported: FoxESS active-power control cannot guarantee house-only discharge; use export() when grid export is intended"
    );
    assert_eq!(
        fault(Command::charge(quantity(40.0), ttl)),
        "value out of range: value -40 out of range for signed register active_power (raw -40000, valid -32768..=32767)"
    );
    assert_eq!(
        fault(Command::export(Decimal::Nan, ttl)),
        "value out of range: value NaN is not finite for register active_power"
    );
}

#[test]
fn the_maps_can_be_decoded_and_a_four_word_signed_register_cannot() {
    assert!(registers::h1_g1().can_decode());
    assert!(registers::h1_g2().can_decode());
    assert!(!RegisterDef::input("wide", 1).words(4).signed().can_decode());
    assert!(!RegisterDef::input("none", 1).words(0).signed().can_decode());
    assert!(RegisterDef::input("wide", 1).words(4).can_decode());
}

#[test]
fn a_map_without_pv_reports_no_solar() {
    let map: &'static RegisterMap = Box::leak(Box::new(RegisterMap {
        model: "no pv",
        pv_powers: &[],
        battery_soc: registers::h1_g1().battery_soc,
        battery_power: registers::h1_g1().battery_power,
        grid_power: registers::h1_g1().grid_power,
        load_power: registers::h1_g1().load_power,
    }));
    let mut inv = FoxEss::new(g1_fixture(), map);
    assert!(!inv.capabilities().reports_solar);
    assert_eq!(inv.get_solar_kw().unwrap(), quantity(0.0));
    assert_eq!(inv.get_grid_kw().unwrap(), quantity(2.0));
}

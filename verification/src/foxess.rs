//! FoxESS H1-series driver.
//!
//! The register maps here are compiled from community documentation,
//! principally the
//! [`nathanmarlor/foxess_modbus`](https://github.com/nathanmarlor/foxess_modbus)
//! Home Assistant integration (MIT). Telemetry and the H1 remote-control block
//! have been exercised by that project across H1-family hardware, but remain
//! model- and firmware-sensitive; check them on the installed unit before
//! enabling a real installation.
//!
//! # Which map?
//!
//! The H1 generations differ over the same RS485 wire: a G1 serves telemetry
//! as *input* registers in the 11000 range, while a G2 (H1-\*-G2, AC1-G2, P1)
//! serves *holding* registers in the 31000 range. Pick [`registers::h1_g1`]
//! or [`registers::h1_g2`] to match the unit. An H1 connected through its own
//! LAN module speaks a third, reduced map that this driver does not cover.
//!
//! # Native command timeout
//!
//! The H1's remote-control block (see [`registers::remote_control`]) carries
//! a genuine watchdog: a timeout register the inverter counts down on its own
//! and, on expiry, reverts to its programmed work mode. This driver programs
//! self-use as that fallback, replaces the timeout before every command, and
//! disables remote control for passive. The countdown lives in the inverter,
//! so a dead controller still leaves the command expiring by itself. See
//! [`program`] for the order of the writes and [`guarantees`] for what that
//! order ensures.
pub mod commands;
pub mod exchange;
pub mod guarantees;
pub mod program;
pub mod readings;
pub mod registers;

pub use self::registers::RegisterMap;

use self::exchange::{added, asked, read_as, read_register, since, Ask};
use self::program::{command_steps, passive_steps, performed, program_command, return_to_passive};
use self::registers::remote_control::{active_power, power_register};
use crate::capabilities::Capabilities;
use crate::command::{Applied, Command, Expiry};
use crate::decimal::Decimal;
use crate::driver::Inverter;
use crate::error::Error;
use crate::modbus::ModbusBus;
use crate::mode::{lemma_every_mode_is_listed, DischargeTarget, Mode};
use crate::record::{BusCall, RecordedBus};
use crate::register::{decode, decoded, encode, encode_fault, encoded, RegisterDef};
use crate::telemetry::Telemetry;
use crate::time::{debug_duration, duration_debug_text, duration_nanos, from_secs, NANOS_PER_SEC};
use std::time::{Duration, Instant, SystemTime};
use vstd::prelude::*;

verus! {

/// The longest timeout the inverter can be armed with, in seconds.
pub const MAX_TIMEOUT_SECS: u16 = 65535;

/// A FoxESS H1-series inverter on any Modbus transport.
pub struct FoxEss<B: ModbusBus> {
    bus: RecordedBus<B>,
    map: &'static RegisterMap,
}

/// The power asked of the inverter for a command, in the inverter's own sign:
/// positive exports, negative imports.
pub open spec fn remote_power(command: Command) -> Decimal {
    match command.mode {
        Mode::ForceCharge => command.power_kw.opposite(),
        Mode::ForceDischarge => command.power_kw,
        _ => Decimal::Finite(0),
    }
}

/// The time to live fits the timeout register: one second or more, and no
/// longer than the register can count.
pub open spec fn ttl_fits(ttl: Duration) -> bool {
    NANOS_PER_SEC <= duration_nanos(ttl) <= MAX_TIMEOUT_SECS * NANOS_PER_SEC
}

/// `r` is what an override is programmed with: whole seconds of timeout, the
/// raw power word, and the power which that word stands for; or why the
/// override is refused.
pub open spec fn valued(command: Command, r: Result<(u16, u16, Decimal), Error>) -> bool {
    match command.ttl {
        None => r matches Err(Error::Range(fault)) && fault@ == command.mode.name()
            + " requires a non-zero TTL"@,
        Some(ttl) => if !ttl_fits(ttl) {
            r matches Err(Error::Range(fault)) && fault@
                == "FoxESS command TTL must be 1..=65535 seconds, got "@ + duration_debug_text(
                duration_nanos(ttl),
            )
        } else if command.mode == Mode::Passive {
            r matches Err(Error::Range(fault)) && fault@ == "passive has no command values"@
        } else if command.mode == Mode::ForceDischarge && command.target
            == DischargeTarget::HouseOnly {
            r matches Err(Error::Unsupported(fault)) && fault@
                == "FoxESS active-power control cannot guarantee house-only discharge; use export() when grid export is intended"@
        } else if command.mode != Mode::Hold && command.power_kw.le(Decimal::Finite(0)) {
            r matches Err(Error::Range(fault)) && fault@ == "command power must be positive, got "@
                + command.power_kw.shown() + " kW"@
        } else {
            match encoded(power_register(), remote_power(command)) {
                None => r matches Err(Error::Range(fault)) && fault@ == encode_fault(
                    power_register(),
                    remote_power(command),
                ),
                Some(word) => r matches Ok((timeout, raw, kw)) && timeout == duration_nanos(ttl)
                    / NANOS_PER_SEC as nat && raw == word && kw == decoded(
                    power_register(),
                    seq![word],
                ).size(),
            }
        },
    }
}

/// What to program for an override, or why it is refused.
///
/// Every value is checked here, before the bus is touched. Fractions of a
/// second are dropped, so the hardware never outlives the command.
pub fn command_values(command: Command) -> (r: Result<(u16, u16, Decimal), Error>)
    ensures
        valued(command, r),
{
    let ttl: Duration = match command.ttl {
        Some(ttl) => ttl,
        None => {
            return Err(
                Error::Range(command.mode.as_str().to_owned().concat(" requires a non-zero TTL")),
            );
        },
    };
    let nanos: u128 = ttl.as_nanos();
    if nanos < NANOS_PER_SEC || nanos > MAX_TIMEOUT_SECS as u128 * NANOS_PER_SEC {
        return Err(
            Error::Range(
                "FoxESS command TTL must be 1..=65535 seconds, got ".to_owned().concat(
                    debug_duration(ttl).as_str(),
                ),
            ),
        );
    }
    let remote_power_kw: Decimal = match (command.mode, command.target) {
        (Mode::Hold, _) => Decimal::Finite(0),
        (Mode::ForceCharge, _) => command.power_kw.negated(),
        (Mode::ForceDischarge, DischargeTarget::GridExport) => command.power_kw,
        (Mode::ForceDischarge, DischargeTarget::HouseOnly) => {
            return Err(
                Error::Unsupported(
                    "FoxESS active-power control cannot guarantee house-only discharge; use export() when grid export is intended".to_owned(),
                ),
            );
        },
        (Mode::Passive, _) => {
            return Err(Error::Range("passive has no command values".to_owned()));
        },
    };
    if command.mode != Mode::Hold && command.power_kw.at_most(Decimal::Finite(0)) {
        return Err(
            Error::Range(
                "command power must be positive, got ".to_owned().concat(
                    command.power_kw.text().as_str(),
                ).concat(" kW"),
            ),
        );
    }
    let register: RegisterDef = active_power();
    let raw_power: u16 = match encode(&register, remote_power_kw) {
        Ok(raw_power) => raw_power,
        Err(e) => {
            return Err(e);
        },
    };
    let words: [u16; 1] = [raw_power];
    assert(words@ == seq![raw_power]);
    let applied_power_kw: Decimal = decode(&register, &words).abs();
    Ok(((nanos / NANOS_PER_SEC) as u16, raw_power, applied_power_kw))
}

/// `r` is the accepted override.
pub open spec fn armed(timeout: u16, kw: Decimal, r: Result<Applied, Error>) -> bool {
    r matches Ok(applied) && applied.expiry.times_out_after((timeout * NANOS_PER_SEC) as nat)
        && applied.power_kw == kw
}

/// `r` is what is returned for an override whose programming failed with
/// `error`, after an attempt to return to passive that ended with `cleanup`.
pub open spec fn disabled_after(
    error: Error,
    cleanup: Result<(), Error>,
    r: Result<Applied, Error>,
) -> bool {
    match cleanup {
        Ok(_) => r == Err::<Applied, Error>(error),
        Err(also) => r matches Err(Error::Comm(fault)) && fault@ == "command failed ("@
            + error.shown() + "); also failed to return FoxESS to passive ("@ + also.shown() + ")"@,
    }
}

/// Programming an override may make `calls` and return `r`: when programming
/// fails, an attempt to return to passive follows.
pub open spec fn overridden(
    timeout: u16,
    power: u16,
    kw: Decimal,
    calls: Seq<BusCall>,
    r: Result<Applied, Error>,
) -> bool {
    ||| performed(command_steps(timeout, power), calls, Ok(())) && armed(timeout, kw, r)
    ||| exists|cut: int, error: Error, cleanup: Result<(), Error>|
        {
            &&& 0 <= cut <= calls.len()
            &&& #[trigger] performed(
                command_steps(timeout, power),
                calls.take(cut),
                Err::<(), Error>(error),
            )
            &&& #[trigger] performed(passive_steps(), calls.skip(cut), cleanup)
            &&& disabled_after(error, cleanup, r)
        }
}

/// Returning to passive may make `calls` and return `r`.
pub open spec fn pacified(calls: Seq<BusCall>, r: Result<Applied, Error>) -> bool {
    exists|done: Result<(), Error>| #[trigger]
        performed(passive_steps(), calls, done) && match done {
            Ok(_) => r matches Ok(applied) && applied.expiry == Expiry::UntilChanged
                && applied.power_kw == Decimal::Finite(0),
            Err(e) => r == Err::<Applied, Error>(e),
        }
}

/// Applying `command` may make `calls` and return `r`. A refused command makes
/// no calls.
pub open spec fn applied_as(command: Command, calls: Seq<BusCall>, r: Result<Applied, Error>) -> bool {
    if command.mode == Mode::Passive {
        pacified(calls, r)
    } else {
        exists|values: Result<(u16, u16, Decimal), Error>| #[trigger]
            valued(command, values) && match values {
                Ok((timeout, power, kw)) => overridden(timeout, power, kw, calls, r),
                Err(e) => calls.len() == 0 && r == Err::<Applied, Error>(e),
            }
    }
}

/// Reading `regs` in order may make `calls` and return `r`: the first failure
/// ends it.
pub open spec fn surveyed(
    regs: Seq<RegisterDef>,
    calls: Seq<BusCall>,
    r: Result<Seq<Decimal>, Error>,
) -> bool
    decreases regs.len(),
{
    if regs.len() == 0 {
        calls.len() == 0 && r == Ok::<Seq<Decimal>, Error>(seq![])
    } else {
        ||| r is Err && surveyed(regs.drop_last(), calls, r)
        ||| exists|cut: int, values: Seq<Decimal>, reading: Result<Decimal, Error>|
            {
                &&& 0 <= cut <= calls.len()
                &&& surveyed(regs.drop_last(), calls.take(cut), Ok(values))
                &&& #[trigger] asked(Ask::Read(regs.last()), calls.skip(cut))
                &&& read_as(regs.last(), calls.skip(cut).last(), reading)
                &&& r == #[trigger] extended(values, reading)
            }
    }
}

/// `values` with one more reading at the end, or why there is none.
pub open spec fn extended(values: Seq<Decimal>, reading: Result<Decimal, Error>) -> Result<
    Seq<Decimal>,
    Error,
> {
    match reading {
        Ok(value) => Ok(values.push(value)),
        Err(e) => Err(e),
    }
}

/// The sum of `values`.
pub open spec fn total(values: Seq<Decimal>) -> Decimal
    decreases values.len(),
{
    if values.len() == 0 {
        Decimal::Finite(0)
    } else {
        total(values.drop_last()).sum(values.last())
    }
}

/// `t` reports `values`, which were read in the order of
/// [`RegisterMap::in_order`]: a load that dips below zero from metering noise
/// counts as none, and the PV strings are summed.
pub open spec fn reported(values: Seq<Decimal>, t: Telemetry) -> bool {
    &&& t.soc_pct == values[0]
    &&& t.battery_kw == values[1]
    &&& t.grid_kw == values[2]
    &&& t.load_kw == values[3].floored(0)
    &&& t.solar_kw == total(values.skip(4))
}

/// A telemetry read may make `calls` and return `r`.
pub open spec fn telemetry_read(
    map: RegisterMap,
    calls: Seq<BusCall>,
    r: Result<Telemetry, Error>,
) -> bool {
    exists|values: Result<Seq<Decimal>, Error>| #[trigger]
        surveyed(map.in_order(), calls, values) && match values {
            Ok(values) => {
                &&& values.len() == map.in_order().len()
                &&& r matches Ok(t)
                &&& reported(values, t)
            },
            Err(e) => r == Err::<Telemetry, Error>(e),
        }
}

/// A telemetry read that times itself may make `calls` and return `r`: the
/// clocks are read before the first register, and the reading carries what they
/// read, so that everything the read takes counts towards its age.
pub open spec fn stamped_read(
    map: RegisterMap,
    calls: Seq<BusCall>,
    r: Result<Telemetry, Error>,
) -> bool {
    &&& calls.len() > 0
    &&& calls[0] matches BusCall::Clock { at, now }
    &&& telemetry_read(map, calls.skip(1), r)
    &&& r matches Ok(t) ==> t.at == at && t.read_at == now
}

/// Readings that fail early fail with any more registers after them.
proof fn lemma_failure_stands(
    regs: Seq<RegisterDef>,
    more: Seq<RegisterDef>,
    calls: Seq<BusCall>,
    r: Result<Seq<Decimal>, Error>,
)
    requires
        surveyed(regs, calls, r),
        r is Err,
    ensures
        surveyed(regs + more, calls, r),
    decreases more.len(),
{
    if more.len() == 0 {
        assert(regs + more == regs);
    } else {
        lemma_failure_stands(regs, more.drop_last(), calls, r);
        assert((regs + more).drop_last() == regs + more.drop_last());
    }
}

/// One more reading extends a survey.
proof fn lemma_survey_goes_on(
    regs: Seq<RegisterDef>,
    reg: RegisterDef,
    before: Seq<BusCall>,
    values: Seq<Decimal>,
    calls: Seq<BusCall>,
    reading: Result<Decimal, Error>,
)
    requires
        surveyed(regs, before, Ok(values)),
        asked(Ask::Read(reg), calls),
        read_as(reg, calls.last(), reading),
    ensures
        surveyed(regs.push(reg), before + calls, extended(values, reading)),
{
    let cut = before.len() as int;
    let all = before + calls;
    let longer = regs.push(reg);
    assert(all.take(cut) == before);
    assert(all.skip(cut) == calls);
    assert(longer.drop_last() == regs);
    assert(longer.last() == reg);
    assert(asked(Ask::Read(longer.last()), all.skip(cut)));
}

/// Read registers in order, until one fails.
fn survey<B: ModbusBus>(bus: &mut RecordedBus<B>, regs: &Vec<RegisterDef>) -> (r: Result<
    Vec<Decimal>,
    Error,
>)
    requires
        forall|i: int| 0 <= i < regs@.len() ==> (#[trigger] regs@[i]).decodable(),
    ensures
        added(*old(bus), since(*old(bus), *final(bus)), *final(bus)),
        match r {
            Ok(values) => surveyed(regs@, since(*old(bus), *final(bus)), Ok(values@))
                && values@.len() == regs@.len(),
            Err(e) => surveyed(
                regs@,
                since(*old(bus), *final(bus)),
                Err::<Seq<Decimal>, Error>(e),
            ),
        },
{
    let ghost pre: RecordedBus<B> = *bus;
    let mut values: Vec<Decimal> = Vec::new();
    let mut i: usize = 0;
    assert(regs@.take(0) == Seq::<RegisterDef>::empty());
    assert(since(pre, *bus) == Seq::<BusCall>::empty());
    assert(values@ == Seq::<Decimal>::empty());
    while i < regs.len()
        invariant
            i <= regs.len(),
            pre == *old(bus),
            forall|j: int| 0 <= j < regs@.len() ==> (#[trigger] regs@[j]).decodable(),
            added(pre, since(pre, *bus), *bus),
            values@.len() == i,
            surveyed(regs@.take(i as int), since(pre, *bus), Ok(values@)),
        decreases regs.len() - i,
    {
        let ghost mid: RecordedBus<B> = *bus;
        let ghost before = values@;
        let reading: Result<Decimal, Error> = read_register(bus, &regs[i]);
        proof {
            let calls = since(pre, *bus);
            let done = regs@.take(i + 1);
            lemma_survey_goes_on(
                regs@.take(i as int),
                regs@[i as int],
                since(pre, mid),
                before,
                since(mid, *bus),
                reading,
            );
            assert(calls == since(pre, mid) + since(mid, *bus));
            assert(done == regs@.take(i as int).push(regs@[i as int]));
            assert(bus.log() == pre.log() + calls);
            if reading is Err {
                lemma_failure_stands(done, regs@.skip(i + 1), calls, extended(before, reading));
                assert(done + regs@.skip(i + 1) == regs@);
            }
        }
        match reading {
            Ok(value) => {
                values.push(value);
            },
            Err(e) => {
                return Err(e);
            },
        }
        i += 1;
    }
    assert(regs@.take(regs@.len() as int) == regs@);
    Ok(values)
}

/// Sum the values from `from` on.
fn sum_from(values: &Vec<Decimal>, from: usize) -> (r: Decimal)
    requires
        from <= values@.len(),
    ensures
        r == total(values@.skip(from as int)),
{
    let mut sum: Decimal = Decimal::Finite(0);
    let mut i: usize = from;
    assert(values@.subrange(from as int, from as int) == Seq::<Decimal>::empty());
    while i < values.len()
        invariant
            from <= i <= values.len(),
            sum == total(values@.subrange(from as int, i as int)),
        decreases values.len() - i,
    {
        assert(values@.subrange(from as int, i + 1).drop_last() == values@.subrange(
            from as int,
            i as int,
        ));
        sum = sum.plus(values[i]);
        i += 1;
    }
    assert(values@.subrange(from as int, values@.len() as int) == values@.skip(from as int));
    sum
}

impl<B: ModbusBus> FoxEss<B> {
    /// The bus and its record.
    pub closed spec fn recorder(self) -> RecordedBus<B> {
        self.bus
    }

    /// The register map.
    pub closed spec fn map(self) -> RegisterMap {
        *self.map
    }

    /// The calls made on the bus between `self` and `post`.
    pub open spec fn calls_until(self, post: Self) -> Seq<BusCall> {
        since(self.recorder(), post.recorder())
    }

    /// `post` is the same driver, some calls later.
    pub open spec fn continues(self, post: Self) -> bool {
        &&& post.map() == self.map()
        &&& added(self.recorder(), self.calls_until(post), post.recorder())
    }

    /// Wrap an already-open bus, reading and commanding via `map`.
    pub fn new(bus: B, map: &'static RegisterMap) -> (r: Self)
        requires
            map.decodable(),
        ensures
            r.valid(),
            r.map() == *map,
            r.recorder().bus() == bus,
            r.recorder().log() == Seq::<BusCall>::empty(),
    {
        FoxEss { bus: RecordedBus::new(bus), map }
    }

    /// Read the current state of the system, as of clock readings that were
    /// taken before it: the reading carries them, so the time that the
    /// registers and their retries take counts towards its age.
    pub fn read_telemetry_at(&mut self, at: SystemTime, read_at: Instant) -> (r: Result<
        Telemetry,
        Error,
    >)
        requires
            old(self).valid(),
        ensures
            final(self).valid(),
            old(self).continues(*final(self)),
            telemetry_read(old(self).map(), old(self).calls_until(*final(self)), r),
            r matches Ok(t) ==> t.at == at && t.read_at == read_at,
    {
        let mut regs: Vec<RegisterDef> = Vec::new();
        regs.push(self.map.battery_soc);
        regs.push(self.map.battery_power);
        regs.push(self.map.grid_power);
        regs.push(self.map.load_power);
        regs.extend_from_slice(self.map.pv_powers);
        proof {
            assert(regs@ == self.map().in_order());
            assert forall|i: int| 0 <= i < regs@.len() implies (#[trigger] regs@[i]).decodable() by {
                if i >= 4 {
                    assert(regs@[i] == self.map().pv_powers@[i - 4]);
                }
            }
        }
        let values: Vec<Decimal> = match survey(&mut self.bus, &regs) {
            Ok(values) => values,
            Err(e) => {
                return Err(e);
            },
        };
        assert(values@.len() >= 4);
        Ok(
            Telemetry {
                soc_pct: values[0],
                battery_kw: values[1],
                grid_kw: values[2],
                load_kw: values[3].non_negative(),
                solar_kw: sum_from(&values, 4),
                at,
                read_at,
            },
        )
    }

    /// Return to passive after a failure, best-effort, and report both.
    fn disable_after_error(&mut self, error: Error) -> (r: Error)
        ensures
            old(self).continues(*final(self)),
            exists|cleanup: Result<(), Error>| #[trigger]
                performed(passive_steps(), old(self).calls_until(*final(self)), cleanup)
                    && disabled_after(error, cleanup, Err::<Applied, Error>(r)),
    {
        let cleanup: Result<(), Error> = return_to_passive(&mut self.bus);
        assert(performed(passive_steps(), old(self).calls_until(*self), cleanup));
        match cleanup {
            Ok(()) => error,
            Err(disable_error) => Error::Comm(
                "command failed (".to_owned().concat(error.text().as_str()).concat(
                    "); also failed to return FoxESS to passive (",
                ).concat(disable_error.text().as_str()).concat(")"),
            ),
        }
    }
}

impl<B: ModbusBus> Inverter for FoxEss<B> {
    open spec fn valid(&self) -> bool {
        &&& self.map().decodable()
        &&& self.recorder().faithful()
    }

    open spec fn advertises(&self, caps: Capabilities) -> bool {
        &&& caps.model == self.map().model
        &&& caps.can_write
        &&& caps.modes@ == seq![Mode::Passive, Mode::Hold, Mode::ForceCharge, Mode::ForceDischarge]
        &&& caps.expiry.times_out_after((MAX_TIMEOUT_SECS * NANOS_PER_SEC) as nat)
        &&& caps.reports_solar == (self.map().pv_powers@.len() > 0)
        &&& !caps.reports_mode
        &&& caps.write_blocked_reason is None
    }

    open spec fn reads(&self, post: &Self, r: Result<Telemetry, Error>) -> bool {
        &&& self.continues(*post)
        &&& stamped_read(self.map(), self.calls_until(*post), r)
    }

    open spec fn applies(&self, post: &Self, command: Command, r: Result<Applied, Error>) -> bool {
        &&& self.continues(*post)
        &&& applied_as(command, self.calls_until(*post), r)
    }

    open spec fn reports(&self, post: &Self, r: Result<Mode, Error>) -> bool {
        &&& *post == *self
        &&& r matches Err(Error::Unsupported(fault))
        &&& fault@ == "FoxESS mode read-back is not reliable across supported connection routes"@
    }

    fn capabilities(&self) -> (r: Capabilities) {
        let modes: &'static [Mode] = &[
            Mode::Passive,
            Mode::Hold,
            Mode::ForceCharge,
            Mode::ForceDischarge,
        ];
        assert(modes@[0] == Mode::Passive);
        let mut caps: Capabilities = Capabilities::writable(
            self.map.model,
            modes,
            Expiry::InverterTimeout(from_secs(MAX_TIMEOUT_SECS as u64)),
        );
        caps.reports_solar = self.map.pv_powers.len() > 0;
        caps
    }

    fn read_telemetry(&mut self) -> (r: Result<Telemetry, Error>) {
        // The clocks are read first, so that retries count towards the age of
        // the reading.
        let (at, read_at) = self.bus.read_clocks();
        let ghost started: Self = *self;
        let r: Result<Telemetry, Error> = self.read_telemetry_at(at, read_at);
        proof {
            let calls = old(self).calls_until(*self);
            assert(calls[0] == BusCall::Clock { at, now: read_at });
            assert(calls.skip(1) == started.calls_until(*self));
            assert(self.recorder().log() == old(self).recorder().log() + calls);
        }
        r
    }

    fn apply(&mut self, command: Command) -> (r: Result<Applied, Error>) {
        // The driver advertises every mode, so it owes no refusal.
        let _caps: Capabilities = self.capabilities();
        assert(_caps.can_command(command.mode)) by {
            lemma_every_mode_is_listed(command.mode);
        }
        if command.mode == Mode::Passive {
            let done: Result<(), Error> = return_to_passive(&mut self.bus);
            assert(performed(passive_steps(), old(self).calls_until(*self), done));
            return match done {
                Ok(()) => Ok(
                    Applied { expiry: Expiry::UntilChanged, power_kw: Decimal::Finite(0) },
                ),
                Err(e) => Err(e),
            };
        }
        // Every value is checked before the bus is touched. Once programming
        // starts, any failure is followed by a best-effort return to passive.

        let values: Result<(u16, u16, Decimal), Error> = command_values(command);
        assert(valued(command, values));
        let (timeout, raw_power, applied_power_kw) = match values {
            Ok(values) => values,
            Err(e) => {
                assert(old(self).calls_until(*self) == Seq::<BusCall>::empty());
                return Err(e);
            },
        };
        match program_command(&mut self.bus, timeout, raw_power) {
            Ok(done) => {
                let r: Result<Applied, Error> = Ok(
                    Applied {
                        expiry: Expiry::InverterTimeout(from_secs(timeout as u64)),
                        power_kw: applied_power_kw,
                    },
                );
                proof {
                    let calls = old(self).calls_until(*self);
                    assert(done == ());
                    assert(armed(timeout, applied_power_kw, r));
                    assert(overridden(timeout, raw_power, applied_power_kw, calls, r));
                }
                r
            },
            Err(error) => {
                let ghost mid: Self = *self;
                let r: Error = self.disable_after_error(error);
                proof {
                    let calls = old(self).calls_until(*self);
                    let cut = old(self).calls_until(mid).len() as int;
                    assert(calls.take(cut) == old(self).calls_until(mid));
                    assert(calls.skip(cut) == mid.calls_until(*self));
                    let cleanup = choose|cleanup: Result<(), Error>| #[trigger]
                        performed(passive_steps(), mid.calls_until(*self), cleanup)
                            && disabled_after(error, cleanup, Err::<Applied, Error>(r));
                    assert(performed(
                        command_steps(timeout, raw_power),
                        calls.take(cut),
                        Err::<(), Error>(error),
                    ));
                    assert(performed(passive_steps(), calls.skip(cut), cleanup));
                    assert(overridden(timeout, raw_power, applied_power_kw, calls, Err(r)));
                    assert(self.recorder().log() == old(self).recorder().log() + calls);
                }
                Err(r)
            },
        }
    }

    fn mode(&mut self) -> (r: Result<Mode, Error>) {
        // Remote-enable and active-power read-back varies by connection route;
        // repeating the last command would hide an expiry or app-driven change.
        Err(
            Error::Unsupported(
                "FoxESS mode read-back is not reliable across supported connection routes".to_owned(),
            ),
        )
    }
}

} // verus!

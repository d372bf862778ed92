//! A simulated inverter.
//!
//! Useful for tests and for running a controller with no hardware attached.
//! It deliberately models the *well-behaved* case: commands carry a real
//! one-shot timeout and the inverter reverts to passive on its own when that
//! elapses. Code that works against the mock and breaks against a real
//! inverter has usually assumed a fail-safe the hardware does not provide;
//! check [`Capabilities::expiry`] rather than trusting the mock's guarantee.
pub mod guarantees;
pub mod line;
pub mod relay;
pub mod simulation;

pub use self::relay::RelayMockInverter;

use self::simulation::{
    least, lesser, limit, limited, powered, sensible, timed, Simulation, FULL_SOC, MIN_CAPACITY,
};
use crate::capabilities::Capabilities;
use crate::command::{Applied, Command, Expiry};
use crate::decimal::Decimal;
use crate::driver::Inverter;
use crate::error::Error;
use crate::mode::{lemma_every_mode_is_listed, Mode};
use crate::telemetry::Telemetry;
use crate::time::{duration_nanos, from_nanos, nanos_between, MAX_DURATION_NANOS};
use std::time::{Duration, Instant, SystemTime};
use vstd::prelude::*;

verus! {

/// A simulated battery and inverter.
///
/// The simulation runs on one clock: real time flows into it on every
/// interaction, and [`MockInverter::advance`] adds simulated time on top.
/// A command's time to live elapses on that same clock, so a test can watch
/// the one-shot timeout revert without sleeping.
///
/// Builder inputs are clamped to physically meaningful values rather than
/// poisoning the arithmetic: a non-positive capacity becomes 1 Wh, negative
/// powers become zero, and not-a-number falls to the lower bound. A boundless
/// capacity, of which no charge would be a share, falls to the largest
/// countable one.
pub struct MockInverter {
    sim: Simulation,
    /// Real-time watermark; everything before it is already in the simulation.
    last_sync: Instant,
}

/// A 10 kWh battery on a 5 kW inverter at 50%, with a 0.4 kW household load,
/// in passive.
pub open spec fn initial() -> Simulation {
    Simulation {
        capacity: 10_000_000_000_000_000,
        max_power: Decimal::Finite(5_000_000_000_000_000),
        stored: 5_000_000_000_000_000,
        spare: 0,
        load: Decimal::Finite(400_000_000_000_000),
        solar: Decimal::Finite(0),
        command: Command::self_use(),
        since: 0,
    }
}

/// Why the mock refuses a command, if it does.
pub open spec fn refused(command: Command, r: Result<Applied, Error>) -> bool {
    if !sensible(command) {
        r matches Err(Error::Range(fault)) && fault@
            == "power must be finite and non-negative, got "@ + command.power_kw.shown()
    } else {
        &&& !timed(command)
        &&& r matches Err(Error::Range(fault))
        &&& fault@ == command.mode.name() + " requires a non-zero TTL"@
    }
}

/// What the mock answers to a command that it takes on: the power it will run
/// at, which is none for passive and hold, and how the command ends.
pub open spec fn accepted(sim: Simulation, command: Command, applied: Applied) -> bool {
    &&& applied.power_kw == if powered(command) {
        lesser(command.power_kw, sim.max_power)
    } else {
        Decimal::Finite(0)
    }
    &&& if command.mode == Mode::Passive {
        applied.expiry == Expiry::UntilChanged
    } else {
        applied.expiry == Expiry::InverterTimeout(command.ttl->Some_0)
    }
}

impl Default for MockInverter {
    fn default() -> (r: Self)
        ensures
            r.valid(),
            r.sim() == initial(),
    {
        Self::new()
    }
}

impl MockInverter {
    /// The simulation as of the last interaction.
    pub closed spec fn sim(self) -> Simulation {
        self.sim
    }

    /// The real-time watermark: the clock reading up to which real time is
    /// already in the simulation.
    pub closed spec fn synced_at(self) -> Instant {
        self.last_sync
    }

    /// `post` has taken in the real time that passed since `self`, up to its
    /// own watermark, and is otherwise the same.
    pub open spec fn synced(self, post: Self) -> bool {
        post.sim() == self.sim().stepped(nanos_between(post.synced_at(), self.synced_at()))
    }

    /// `post` has taken in the real time that passed since `self`, up to its
    /// own watermark, and then so many nanoseconds of simulated time.
    pub open spec fn advanced(self, post: Self, elapsed: nat) -> bool {
        post.sim() == self.sim().stepped(
            nanos_between(post.synced_at(), self.synced_at()),
        ).stepped(elapsed)
    }

    /// `command` is in force at some reading of the clock.
    pub open spec fn in_force(self, command: Command) -> bool {
        exists|now: Instant|
            command == self.sim().command_after(#[trigger] nanos_between(now, self.synced_at()))
    }

    /// A 10 kWh battery on a 5 kW inverter at 50%, with a 0.4 kW household load.
    pub fn new() -> (r: Self)
        ensures
            r.valid(),
            r.sim() == initial(),
    {
        MockInverter {
            sim: Simulation {
                capacity: 10_000_000_000_000_000,
                max_power: Decimal::Finite(5_000_000_000_000_000),
                stored: 5_000_000_000_000_000,
                spare: 0,
                load: Decimal::Finite(400_000_000_000_000),
                solar: Decimal::Finite(0),
                command: Command::passive(),
                since: 0,
            },
            last_sync: Instant::now(),
        }
    }

    /// Set the usable capacity in kilowatt-hours and keep the state of charge.
    /// Clamped to at least 1 Wh.
    #[must_use]
    pub fn with_capacity_kwh(self, capacity_kwh: Decimal) -> (r: Self)
        requires
            self.valid(),
        ensures
            r.valid(),
            r.sim() == self.sim().resized(
                limited(capacity_kwh, MIN_CAPACITY as int, i128::MAX as int) as i128,
            ),
            r.sim().soc() == self.sim().soc(),
            r.synced_at() == self.synced_at(),
    {
        let mut sim: Simulation = self.sim;
        sim.set_capacity(limit(capacity_kwh, MIN_CAPACITY, i128::MAX));
        MockInverter { sim, last_sync: self.last_sync }
    }

    /// Set the inverter's power limit in kilowatts. Clamped to at least zero.
    #[must_use]
    pub fn with_max_power_kw(self, max_power_kw: Decimal) -> (r: Self)
        requires
            self.valid(),
        ensures
            r.valid(),
            r.sim() == (Simulation { max_power: max_power_kw.floored(0), ..self.sim() }),
            r.synced_at() == self.synced_at(),
    {
        let mut sim: Simulation = self.sim;
        sim.max_power = max_power_kw.non_negative();
        MockInverter { sim, last_sync: self.last_sync }
    }

    /// Set the starting state of charge. Clamped to 0–100; not-a-number
    /// becomes 0.
    #[must_use]
    pub fn with_soc_pct(self, soc_pct: Decimal) -> (r: Self)
        requires
            self.valid(),
        ensures
            r.valid(),
            r.sim().soc() == limited(soc_pct, 0, FULL_SOC as int),
            r.sim() == self.sim().at_soc(limited(soc_pct, 0, FULL_SOC as int)),
            r.synced_at() == self.synced_at(),
    {
        let mut sim: Simulation = self.sim;
        sim.set_soc(limit(soc_pct, 0, FULL_SOC));
        MockInverter { sim, last_sync: self.last_sync }
    }

    /// Set the simulated household load in kilowatts. Clamped to at least zero.
    #[must_use]
    pub fn with_load_kw(self, load_kw: Decimal) -> (r: Self)
        requires
            self.valid(),
        ensures
            r.valid(),
            r.sim() == (Simulation { load: load_kw.floored(0), ..self.sim() }),
            r.synced_at() == self.synced_at(),
    {
        let mut sim: Simulation = self.sim;
        sim.load = load_kw.non_negative();
        MockInverter { sim, last_sync: self.last_sync }
    }

    /// Set simulated PV generation in kilowatts. Clamped to at least zero.
    #[must_use]
    pub fn with_solar_kw(self, solar_kw: Decimal) -> (r: Self)
        requires
            self.valid(),
        ensures
            r.valid(),
            r.sim() == (Simulation { solar: solar_kw.floored(0), ..self.sim() }),
            r.synced_at() == self.synced_at(),
    {
        let mut sim: Simulation = self.sim;
        sim.solar = solar_kw.non_negative();
        MockInverter { sim, last_sync: self.last_sync }
    }

    /// Advance the simulation by `elapsed` without waiting for real time.
    ///
    /// The command's time to live elapses in simulated time too: advancing
    /// past it integrates the battery up to the expiry boundary, reverts to
    /// passive, and runs the remainder passively, exactly what the real
    /// hardware the mock stands in for would have done. Tests should drive the
    /// model with this rather than sleeping.
    ///
    /// The real time since the watermark goes in first; see
    /// [`MockInverter::sync_at`] and [`Simulation::step`] for what each of the
    /// two does.
    pub fn advance(&mut self, elapsed: Duration)
        requires
            old(self).valid(),
        ensures
            final(self).valid(),
            old(self).advanced(*final(self), duration_nanos(elapsed)),
    {
        self.sync();
        self.sim.step(elapsed);
    }

    /// The command currently in force, accounting for an elapsed timeout.
    ///
    /// What the clock reads is the clock's alone; see
    /// [`Simulation::active_after`] for what the time since the watermark
    /// decides.
    #[must_use]
    pub fn active_command(&self) -> (r: Command)
        requires
            self.valid(),
        ensures
            self.in_force(r),
            !self.sim().overriding() ==> r == self.sim().command,
    {
        let now: Instant = Instant::now();
        let r: Command = self.sim.active_after(now.duration_since(self.last_sync));
        assert(r == self.sim().command_after(nanos_between(now, self.synced_at())));
        r
    }

    /// Fold the real time up to the clock reading `now` into the simulation.
    pub fn sync_at(&mut self, now: Instant)
        requires
            old(self).valid(),
        ensures
            final(self).valid(),
            final(self).sim() == old(self).sim().stepped(nanos_between(now, old(self).synced_at())),
            final(self).synced_at() == now,
    {
        let elapsed: Duration = now.duration_since(self.last_sync);
        self.last_sync = now;
        self.sim.step(elapsed);
    }

    /// Fold real elapsed time into the simulation.
    fn sync(&mut self)
        requires
            old(self).valid(),
        ensures
            final(self).valid(),
            old(self).synced(*final(self)),
    {
        self.sync_at(Instant::now());
    }
}

impl Inverter for MockInverter {
    open spec fn valid(&self) -> bool {
        self.sim().wf()
    }

    open spec fn advertises(&self, caps: Capabilities) -> bool {
        &&& caps.model@ == "mock"@
        &&& caps.can_write
        &&& caps.modes@ == seq![Mode::Passive, Mode::Hold, Mode::ForceCharge, Mode::ForceDischarge]
        &&& caps.expiry.times_out_after(MAX_DURATION_NANOS as nat)
        &&& caps.reports_solar
        &&& caps.reports_mode
        &&& caps.write_blocked_reason is None
    }

    open spec fn reads(&self, post: &Self, r: Result<Telemetry, Error>) -> bool {
        &&& self.synced(*post)
        &&& r matches Ok(t)
        &&& post.sim().shows(t)
        &&& t.read_at == post.synced_at()
    }

    open spec fn applies(&self, post: &Self, command: Command, r: Result<Applied, Error>) -> bool {
        if sensible(command) && timed(command) {
            &&& post.sim() == self.sim().stepped(
                nanos_between(post.synced_at(), self.synced_at()),
            ).commanded(command)
            &&& r matches Ok(applied)
            &&& accepted(post.sim(), command, applied)
        } else {
            &&& *post == *self
            &&& refused(command, r)
        }
    }

    open spec fn reports(&self, post: &Self, r: Result<Mode, Error>) -> bool {
        &&& self.synced(*post)
        &&& r == Ok::<Mode, Error>(post.sim().command.mode)
    }

    fn capabilities(&self) -> (r: Capabilities) {
        let modes: &'static [Mode] = &[
            Mode::Passive,
            Mode::Hold,
            Mode::ForceCharge,
            Mode::ForceDischarge,
        ];
        assert(modes@[0] == Mode::Passive);
        let mut caps: Capabilities = Capabilities::writable(
            "mock",
            modes,
            Expiry::InverterTimeout(from_nanos(MAX_DURATION_NANOS)),
        );
        caps.reports_solar = true;
        caps.reports_mode = true;
        caps
    }

    fn read_telemetry(&mut self) -> (r: Result<Telemetry, Error>) {
        self.sync();
        Ok(self.sim.telemetry(SystemTime::now(), self.last_sync))
    }

    fn apply(&mut self, command: Command) -> (r: Result<Applied, Error>) {
        proof {
            lemma_every_mode_is_listed(command.mode);
        }
        if !self.capabilities().supports(command.mode) {
            return Err(
                Error::Unsupported(
                    "mock does not support ".to_owned().concat(command.mode.as_str()),
                ),
            );
        }
        let powered: bool = match command.mode {
            Mode::ForceCharge | Mode::ForceDischarge => true,
            Mode::Passive | Mode::Hold => false,
        };
        if powered && (!command.power_kw.is_finite() || command.power_kw.less_than(
            Decimal::Finite(0),
        )) {
            return Err(
                Error::Range(
                    "power must be finite and non-negative, got ".to_owned().concat(
                        command.power_kw.text().as_str(),
                    ),
                ),
            );
        }
        let expiry: Option<Expiry> = match (command.mode, command.ttl) {
            (Mode::Passive, _) => Some(Expiry::UntilChanged),
            (_, Some(ttl)) => if ttl.as_nanos() > 0 {
                Some(Expiry::InverterTimeout(ttl))
            } else {
                None
            },
            (_, None) => None,
        };
        let expiry: Expiry = match expiry {
            Some(expiry) => expiry,
            None => {
                return Err(
                    Error::Range(
                        command.mode.as_str().to_owned().concat(" requires a non-zero TTL"),
                    ),
                );
            },
        };
        self.sync();
        self.sim.command = command;
        self.sim.since = 0;
        Ok(
            Applied {
                expiry,
                power_kw: if powered {
                    least(command.power_kw, self.sim.max_power)
                } else {
                    Decimal::Finite(0)
                },
            },
        )
    }

    // The mock genuinely knows its mode: it is the hardware, timeout included.
    fn mode(&mut self) -> (r: Result<Mode, Error>) {
        // The mock advertises that it reports its mode, so it owes no refusal.
        let _caps: Capabilities = self.capabilities();
        assert(_caps.reports_mode);
        self.sync();
        Ok(self.sim.command.mode)
    }
}

} // verus!

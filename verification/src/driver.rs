//! The interface every driver implements.
use crate::capabilities::Capabilities;
use crate::command::{Applied, Command, Expiry};
use crate::decimal::Decimal;
use crate::error::Error;
use crate::mode::{DischargeTarget, Mode};
use crate::telemetry::Telemetry;
use crate::time::duration_nanos;
use std::time::Duration;
use vstd::prelude::*;

verus! {

/// Inverter driver. Implementations must use the crate's sign conventions
/// and return errors for failed reads and writes.
///
/// The specification functions are the driver's own account of itself: what
/// its state must satisfy, and how each method takes one state to the next. A
/// driver that gives no account promises only what the methods say outright.
/// They exist only in proofs.
pub trait Inverter: Send + Sized {
    /// The driver's invariant.
    open spec fn valid(&self) -> bool {
        true
    }

    /// The driver advertises `caps`.
    open spec fn advertises(&self, caps: Capabilities) -> bool {
        true
    }

    /// Reading telemetry may take the driver to `post` and return `r`.
    open spec fn reads(&self, post: &Self, r: Result<Telemetry, Error>) -> bool {
        true
    }

    /// Applying `command` may take the driver to `post` and return `r`.
    open spec fn applies(&self, post: &Self, command: Command, r: Result<Applied, Error>) -> bool {
        true
    }

    /// Asking for the mode may take the driver to `post` and return `r`.
    open spec fn reports(&self, post: &Self, r: Result<Mode, Error>) -> bool {
        true
    }

    /// What this driver can do with the connected hardware.
    ///
    /// Cheap and side-effect free; callers may call it on every tick.
    fn capabilities(&self) -> (r: Capabilities)
        requires
            self.valid(),
        ensures
            self.advertises(r),
            r.can_write ==> r.can_command(Mode::Passive),
    ;

    /// Read the current state of the system.
    fn read_telemetry(&mut self) -> (r: Result<Telemetry, Error>)
        requires
            old(self).valid(),
        ensures
            final(self).valid(),
            old(self).reads(final(self), r),
    ;

    /// Command the inverter.
    ///
    /// Returns [`Error::Unsupported`] when [`Capabilities`] says the mode is
    /// unavailable. Implementors should verify writes by reading them back.
    /// A non-passive command must replace any previous inverter-side watchdog
    /// with a one-shot timeout no longer than [`Command::ttl`]; passive must
    /// cancel that watchdog. A driver that cannot do this must refuse the
    /// non-passive command without changing inverter state.
    fn apply(&mut self, command: Command) -> (r: Result<Applied, Error>)
        requires
            old(self).valid(),
        ensures
            final(self).valid(),
            old(self).applies(final(self), command, r),
            r matches Ok(applied) ==> applied.honours(command),
            (forall|caps: Capabilities| #[trigger]
                old(self).advertises(caps) ==> !caps.can_command(command.mode)) ==> (
            r matches Err(Error::Unsupported(_))),
    ;

    /// Read the current mode. Returns [`Error::Unsupported`] when the driver
    /// cannot read it back; see [`Capabilities::reports_mode`].
    fn mode(&mut self) -> (r: Result<Mode, Error>)
        requires
            old(self).valid(),
        ensures
            final(self).valid(),
            old(self).reports(final(self), r),
            (forall|caps: Capabilities| #[trigger]
                old(self).advertises(caps) ==> !caps.reports_mode) ==> (
            r matches Err(Error::Unsupported(_))),
    ;

    /// Release the transport. Called once, on shutdown.
    fn close(&mut self)
        requires
            old(self).valid(),
        ensures
            final(self).valid(),
        default_ensures
            *final(self) == *old(self),
    {
    }
}

/// Nothing that `inverter` advertises lists `mode`.
pub open spec fn never_commands<I: Inverter>(inverter: I, mode: Mode) -> bool {
    forall|caps: Capabilities| #[trigger] inverter.advertises(caps) ==> !caps.can_command(mode)
}

/// Nothing that `inverter` advertises can report its mode.
pub open spec fn never_reports<I: Inverter>(inverter: I) -> bool {
    forall|caps: Capabilities| #[trigger] inverter.advertises(caps) ==> !caps.reports_mode
}

/// A full telemetry read may take `pre` to `post`, and `r` is its state of charge.
pub open spec fn soc_read<I: Inverter>(pre: I, post: I, r: Result<Decimal, Error>) -> bool {
    exists|reading: Result<Telemetry, Error>| #[trigger]
        pre.reads(&post, reading) && r == (match reading {
            Ok(t) => Ok(t.soc_pct),
            Err(e) => Err(e),
        })
}

/// A full telemetry read may take `pre` to `post`, and `r` is its battery power.
pub open spec fn battery_read<I: Inverter>(pre: I, post: I, r: Result<Decimal, Error>) -> bool {
    exists|reading: Result<Telemetry, Error>| #[trigger]
        pre.reads(&post, reading) && r == (match reading {
            Ok(t) => Ok(t.battery_kw),
            Err(e) => Err(e),
        })
}

/// A full telemetry read may take `pre` to `post`, and `r` is its grid power.
pub open spec fn grid_read<I: Inverter>(pre: I, post: I, r: Result<Decimal, Error>) -> bool {
    exists|reading: Result<Telemetry, Error>| #[trigger]
        pre.reads(&post, reading) && r == (match reading {
            Ok(t) => Ok(t.grid_kw),
            Err(e) => Err(e),
        })
}

/// A full telemetry read may take `pre` to `post`, and `r` is its load.
pub open spec fn load_read<I: Inverter>(pre: I, post: I, r: Result<Decimal, Error>) -> bool {
    exists|reading: Result<Telemetry, Error>| #[trigger]
        pre.reads(&post, reading) && r == (match reading {
            Ok(t) => Ok(t.load_kw),
            Err(e) => Err(e),
        })
}

/// A full telemetry read may take `pre` to `post`, and `r` is its PV generation.
pub open spec fn solar_read<I: Inverter>(pre: I, post: I, r: Result<Decimal, Error>) -> bool {
    exists|reading: Result<Telemetry, Error>| #[trigger]
        pre.reads(&post, reading) && r == (match reading {
            Ok(t) => Ok(t.solar_kw),
            Err(e) => Err(e),
        })
}

/// A full telemetry read may take `pre` to `post`, and `r` is its export.
pub open spec fn export_read<I: Inverter>(pre: I, post: I, r: Result<Decimal, Error>) -> bool {
    exists|reading: Result<Telemetry, Error>| #[trigger]
        pre.reads(&post, reading) && r == (match reading {
            Ok(t) => Ok(t.exported()),
            Err(e) => Err(e),
        })
}

/// A charge may take `pre` to `post` and return `r`.
pub open spec fn charges<I: Inverter>(
    pre: I,
    post: I,
    power_kw: Decimal,
    ttl: Duration,
    r: Result<Applied, Error>,
) -> bool {
    let command = Command::made(
        Mode::ForceCharge,
        power_kw,
        DischargeTarget::HouseOnly,
        Some(ttl),
    );
    &&& pre.applies(&post, command, r)
    &&& r matches Ok(applied) ==> applied.honours(command)
}

/// A discharge into the house may take `pre` to `post` and return `r`.
pub open spec fn discharges<I: Inverter>(
    pre: I,
    post: I,
    power_kw: Decimal,
    ttl: Duration,
    r: Result<Applied, Error>,
) -> bool {
    let command = Command::made(
        Mode::ForceDischarge,
        power_kw,
        DischargeTarget::HouseOnly,
        Some(ttl),
    );
    &&& pre.applies(&post, command, r)
    &&& r matches Ok(applied) ==> applied.honours(command)
}

/// An export may take `pre` to `post` and return `r`.
pub open spec fn exports<I: Inverter>(
    pre: I,
    post: I,
    power_kw: Decimal,
    ttl: Duration,
    r: Result<Applied, Error>,
) -> bool {
    let command = Command::made(
        Mode::ForceDischarge,
        power_kw,
        DischargeTarget::GridExport,
        Some(ttl),
    );
    &&& pre.applies(&post, command, r)
    &&& r matches Ok(applied) ==> applied.honours(command)
}

/// A hold may take `pre` to `post` and return `r`.
pub open spec fn holds<I: Inverter>(
    pre: I,
    post: I,
    ttl: Duration,
    r: Result<Applied, Error>,
) -> bool {
    let command = Command::made(
        Mode::Hold,
        Decimal::Finite(0),
        DischargeTarget::HouseOnly,
        Some(ttl),
    );
    &&& pre.applies(&post, command, r)
    &&& r matches Ok(applied) ==> applied.honours(command)
}

/// A return to passive may take `pre` to `post` and return `r`.
pub open spec fn pacifies<I: Inverter>(pre: I, post: I, r: Result<Applied, Error>) -> bool {
    &&& pre.applies(&post, Command::self_use(), r)
    &&& r matches Ok(applied) ==> applied.honours(Command::self_use())
}

/// Command and single-value read methods for every [`Inverter`].
///
/// Command methods call [`Inverter::apply`]. Each telemetry getter performs
/// a full [`Inverter::read_telemetry`]; read once when several values are needed.
/// [`InverterExt::get_mode`] calls [`Inverter::mode`].
pub trait InverterExt: Inverter {
    /// Return to the inverter's own self-use behaviour ([`Mode::Passive`]).
    fn passive(&mut self) -> (r: Result<Applied, Error>)
        requires
            old(self).valid(),
        ensures
            final(self).valid(),
            pacifies(*old(self), *final(self), r),
            never_commands(*old(self), Mode::Passive) ==> (r matches Err(Error::Unsupported(_))),
    {
        self.apply(Command::passive())
    }

    /// Keep battery power at zero for at most `ttl`, then return to passive.
    fn hold(&mut self, ttl: Duration) -> (r: Result<Applied, Error>)
        requires
            old(self).valid(),
        ensures
            final(self).valid(),
            holds(*old(self), *final(self), ttl, r),
            never_commands(*old(self), Mode::Hold) ==> (r matches Err(Error::Unsupported(_))),
    {
        self.apply(Command::hold(ttl))
    }

    /// Charge at `power_kw`, importing if necessary, for at most `ttl`.
    fn charge(&mut self, power_kw: Decimal, ttl: Duration) -> (r: Result<Applied, Error>)
        requires
            old(self).valid(),
        ensures
            final(self).valid(),
            charges(*old(self), *final(self), power_kw, ttl, r),
            never_commands(*old(self), Mode::ForceCharge) ==> (r matches Err(Error::Unsupported(_))),
    {
        self.apply(Command::charge(power_kw, ttl))
    }

    /// Discharge at `power_kw` to cover household load for at most `ttl`,
    /// without exporting.
    fn discharge(&mut self, power_kw: Decimal, ttl: Duration) -> (r: Result<Applied, Error>)
        requires
            old(self).valid(),
        ensures
            final(self).valid(),
            discharges(*old(self), *final(self), power_kw, ttl, r),
            never_commands(*old(self), Mode::ForceDischarge) ==> (r matches Err(Error::Unsupported(_))),
    {
        self.apply(Command::discharge(power_kw, ttl))
    }

    /// Discharge at `power_kw` for at most `ttl`, deliberately exporting to
    /// the grid.
    fn export(&mut self, power_kw: Decimal, ttl: Duration) -> (r: Result<Applied, Error>)
        requires
            old(self).valid(),
        ensures
            final(self).valid(),
            exports(*old(self), *final(self), power_kw, ttl, r),
            never_commands(*old(self), Mode::ForceDischarge) ==> (r matches Err(Error::Unsupported(_))),
    {
        self.apply(Command::export(power_kw, ttl))
    }

    /// Battery state of charge, percent. Performs a full telemetry read.
    fn get_soc_pct(&mut self) -> (r: Result<Decimal, Error>)
        requires
            old(self).valid(),
        ensures
            final(self).valid(),
            soc_read(*old(self), *final(self), r),
    {
        match self.read_telemetry() {
            Ok(t) => Ok(t.soc_pct),
            Err(e) => Err(e),
        }
    }

    /// Battery power, kilowatts; positive means charging. Performs a full
    /// telemetry read.
    fn get_battery_kw(&mut self) -> (r: Result<Decimal, Error>)
        requires
            old(self).valid(),
        ensures
            final(self).valid(),
            battery_read(*old(self), *final(self), r),
    {
        match self.read_telemetry() {
            Ok(t) => Ok(t.battery_kw),
            Err(e) => Err(e),
        }
    }

    /// Grid power, kilowatts; positive means importing. Performs a full
    /// telemetry read.
    fn get_grid_kw(&mut self) -> (r: Result<Decimal, Error>)
        requires
            old(self).valid(),
        ensures
            final(self).valid(),
            grid_read(*old(self), *final(self), r),
    {
        match self.read_telemetry() {
            Ok(t) => Ok(t.grid_kw),
            Err(e) => Err(e),
        }
    }

    /// Household consumption, kilowatts. Performs a full telemetry read.
    fn get_load_kw(&mut self) -> (r: Result<Decimal, Error>)
        requires
            old(self).valid(),
        ensures
            final(self).valid(),
            load_read(*old(self), *final(self), r),
    {
        match self.read_telemetry() {
            Ok(t) => Ok(t.load_kw),
            Err(e) => Err(e),
        }
    }

    /// PV generation, kilowatts. Performs a full telemetry read.
    fn get_solar_kw(&mut self) -> (r: Result<Decimal, Error>)
        requires
            old(self).valid(),
        ensures
            final(self).valid(),
            solar_read(*old(self), *final(self), r),
    {
        match self.read_telemetry() {
            Ok(t) => Ok(t.solar_kw),
            Err(e) => Err(e),
        }
    }

    /// Grid export, kilowatts; zero while importing. Performs a full
    /// telemetry read.
    fn get_export_kw(&mut self) -> (r: Result<Decimal, Error>)
        requires
            old(self).valid(),
        ensures
            final(self).valid(),
            export_read(*old(self), *final(self), r),
    {
        match self.read_telemetry() {
            Ok(t) => Ok(t.export_kw()),
            Err(e) => Err(e),
        }
    }

    /// Read the current mode; see [`Inverter::mode`].
    fn get_mode(&mut self) -> (r: Result<Mode, Error>)
        requires
            old(self).valid(),
        ensures
            final(self).valid(),
            old(self).reports(final(self), r),
            never_reports(*old(self)) ==> (r matches Err(Error::Unsupported(_))),
    {
        self.mode()
    }
}

impl<I: Inverter> InverterExt for I {

}

/// `command` is an override of `mode` with these parts.
pub open spec fn is_override(
    command: Command,
    mode: Mode,
    power_kw: Decimal,
    target: DischargeTarget,
    ttl: Duration,
) -> bool {
    &&& command.mode == mode
    &&& command.power_kw == power_kw
    &&& command.target == target
    &&& command.ttl == Some(ttl)
}

/// Each command method applies the command that its name and arguments say, and
/// nothing else.
pub proof fn law_command_methods_apply_their_command<I: Inverter>(
    pre: I,
    post: I,
    power_kw: Decimal,
    ttl: Duration,
    r: Result<Applied, Error>,
)
    ensures
        charges(pre, post, power_kw, ttl, r) ==> exists|command: Command| #[trigger]
            pre.applies(&post, command, r) && is_override(
                command,
                Mode::ForceCharge,
                power_kw,
                DischargeTarget::HouseOnly,
                ttl,
            ),
        discharges(pre, post, power_kw, ttl, r) ==> exists|command: Command| #[trigger]
            pre.applies(&post, command, r) && is_override(
                command,
                Mode::ForceDischarge,
                power_kw,
                DischargeTarget::HouseOnly,
                ttl,
            ),
        exports(pre, post, power_kw, ttl, r) ==> exists|command: Command| #[trigger]
            pre.applies(&post, command, r) && is_override(
                command,
                Mode::ForceDischarge,
                power_kw,
                DischargeTarget::GridExport,
                ttl,
            ),
        holds(pre, post, ttl, r) ==> exists|command: Command| #[trigger]
            pre.applies(&post, command, r) && is_override(
                command,
                Mode::Hold,
                Decimal::Finite(0),
                DischargeTarget::HouseOnly,
                ttl,
            ),
        pacifies(pre, post, r) ==> exists|command: Command| #[trigger]
            pre.applies(&post, command, r) && command.mode == Mode::Passive && command.ttl is None,
{
    assert(Command::self_use().mode == Mode::Passive);
}

/// A command method whose override is accepted has it armed with an inverter
/// timeout that is neither zero nor longer than the time to live.
pub proof fn law_command_methods_end_in_time<I: Inverter>(
    pre: I,
    post: I,
    power_kw: Decimal,
    ttl: Duration,
    applied: Applied,
)
    requires
        charges(pre, post, power_kw, ttl, Ok(applied)) || discharges(
            pre,
            post,
            power_kw,
            ttl,
            Ok(applied),
        ) || exports(pre, post, power_kw, ttl, Ok(applied)) || holds(pre, post, ttl, Ok(applied)),
    ensures
        applied.expiry matches Expiry::InverterTimeout(timeout) && 0 < duration_nanos(timeout)
            <= duration_nanos(ttl),
{
}

/// Each telemetry getter gives its own value of one full reading, as it is, and
/// fails as the reading fails.
pub proof fn law_getters_give_their_value<I: Inverter>(pre: I, post: I, r: Result<Decimal, Error>)
    ensures
        soc_read(pre, post, r) ==> exists|reading: Result<Telemetry, Error>| #[trigger]
            pre.reads(&post, reading) && match reading {
                Ok(t) => r matches Ok(value) && value == t.soc_pct,
                Err(e) => r matches Err(error) && error == e,
            },
        battery_read(pre, post, r) ==> exists|reading: Result<Telemetry, Error>| #[trigger]
            pre.reads(&post, reading) && match reading {
                Ok(t) => r matches Ok(value) && value == t.battery_kw,
                Err(e) => r matches Err(error) && error == e,
            },
        grid_read(pre, post, r) ==> exists|reading: Result<Telemetry, Error>| #[trigger]
            pre.reads(&post, reading) && match reading {
                Ok(t) => r matches Ok(value) && value == t.grid_kw,
                Err(e) => r matches Err(error) && error == e,
            },
        load_read(pre, post, r) ==> exists|reading: Result<Telemetry, Error>| #[trigger]
            pre.reads(&post, reading) && match reading {
                Ok(t) => r matches Ok(value) && value == t.load_kw,
                Err(e) => r matches Err(error) && error == e,
            },
        solar_read(pre, post, r) ==> exists|reading: Result<Telemetry, Error>| #[trigger]
            pre.reads(&post, reading) && match reading {
                Ok(t) => r matches Ok(value) && value == t.solar_kw,
                Err(e) => r matches Err(error) && error == e,
            },
        export_read(pre, post, r) ==> exists|reading: Result<Telemetry, Error>| #[trigger]
            pre.reads(&post, reading) && match reading {
                Ok(t) => r matches Ok(value) && value == t.exported(),
                Err(e) => r matches Err(error) && error == e,
            },
{
}

} // verus!

//! Commands and what comes of them.
use crate::decimal::Decimal;
use crate::mode::{DischargeTarget, Mode};
use crate::time::duration_nanos;
use std::time::Duration;
use vstd::prelude::*;

verus! {

/// A single instruction to the inverter.
#[derive(Clone, Copy, PartialEq, Debug)]
pub struct Command {
    /// What the inverter should do.
    pub mode: Mode,
    /// Requested power in kilowatts. Ignored for [`Mode::Passive`] and
    /// [`Mode::Hold`].
    pub power_kw: Decimal,
    /// Where discharged energy should go. Ignored unless discharging.
    pub target: DischargeTarget,
    /// Time to live of an override: `None` for passive, and always `Some` from
    /// the constructors of overrides. Drivers refuse an override without one.
    pub ttl: Option<Duration>,
}

impl Command {
    /// The command with these four parts.
    pub open spec fn made(
        mode: Mode,
        power_kw: Decimal,
        target: DischargeTarget,
        ttl: Option<Duration>,
    ) -> Command {
        Command { mode, power_kw, target, ttl }
    }

    /// [`Command::passive`] as a value.
    pub open spec fn self_use() -> Command {
        Command::made(Mode::Passive, Decimal::Finite(0), DischargeTarget::HouseOnly, None)
    }

    /// Return to the inverter's own self-use behaviour ([`Mode::Passive`]).
    #[must_use]
    pub fn passive() -> (r: Self)
        ensures
            r == Command::self_use(),
    {
        Command {
            mode: Mode::Passive,
            power_kw: Decimal::Finite(0),
            target: DischargeTarget::HouseOnly,
            ttl: None,
        }
    }

    /// Keep battery power at zero for at most `ttl`, then return to passive.
    #[must_use]
    pub fn hold(ttl: Duration) -> (r: Self)
        ensures
            r == Command::made(
                Mode::Hold,
                Decimal::Finite(0),
                DischargeTarget::HouseOnly,
                Some(ttl),
            ),
    {
        Command {
            mode: Mode::Hold,
            power_kw: Decimal::Finite(0),
            target: DischargeTarget::HouseOnly,
            ttl: Some(ttl),
        }
    }

    /// Charge at `power_kw`, importing if necessary, for at most `ttl`.
    #[must_use]
    pub fn charge(power_kw: Decimal, ttl: Duration) -> (r: Self)
        ensures
            r == Command::made(
                Mode::ForceCharge,
                power_kw,
                DischargeTarget::HouseOnly,
                Some(ttl),
            ),
    {
        Command {
            mode: Mode::ForceCharge,
            power_kw,
            target: DischargeTarget::HouseOnly,
            ttl: Some(ttl),
        }
    }

    /// Discharge at `power_kw` to cover household load for at most `ttl`,
    /// without exporting.
    #[must_use]
    pub fn discharge(power_kw: Decimal, ttl: Duration) -> (r: Self)
        ensures
            r == Command::made(
                Mode::ForceDischarge,
                power_kw,
                DischargeTarget::HouseOnly,
                Some(ttl),
            ),
    {
        Command {
            mode: Mode::ForceDischarge,
            power_kw,
            target: DischargeTarget::HouseOnly,
            ttl: Some(ttl),
        }
    }

    /// Discharge at `power_kw` for at most `ttl`, deliberately exporting to
    /// the grid.
    #[must_use]
    pub fn export(power_kw: Decimal, ttl: Duration) -> (r: Self)
        ensures
            r == Command::made(
                Mode::ForceDischarge,
                power_kw,
                DischargeTarget::GridExport,
                Some(ttl),
            ),
    {
        Command {
            mode: Mode::ForceDischarge,
            power_kw,
            target: DischargeTarget::GridExport,
            ttl: Some(ttl),
        }
    }

    /// The override's time to live, or `None` for [`Mode::Passive`].
    #[must_use]
    pub fn ttl(&self) -> (r: Option<Duration>)
        ensures
            r == self.ttl,
    {
        self.ttl
    }

    /// The log-friendly form: `passive`, `force_charge@2kW`,
    /// `force_discharge@3kW(grid-export)`.
    pub open spec fn shown(self) -> Seq<char> {
        match (self.mode, self.target) {
            (Mode::Passive, _) => "passive"@,
            (Mode::Hold, _) => "hold"@,
            (Mode::ForceDischarge, DischargeTarget::GridExport) => "force_discharge@"@
                + self.power_kw.shown() + "kW(grid-export)"@,
            _ => self.mode.name() + "@"@ + self.power_kw.shown() + "kW"@,
        }
    }

    /// The log-friendly form of the command.
    pub fn text(&self) -> (r: String)
        ensures
            r@ == self.shown(),
    {
        let power: String = self.power_kw.text();
        match (self.mode, self.target) {
            (Mode::Passive, _) => "passive".to_owned(),
            (Mode::Hold, _) => "hold".to_owned(),
            (Mode::ForceDischarge, DischargeTarget::GridExport) => "force_discharge@".to_owned().concat(
                power.as_str(),
            ).concat("kW(grid-export)"),
            _ => self.mode.as_str().to_owned().concat("@").concat(power.as_str()).concat("kW"),
        }
    }
}

/// How a command ends.
#[derive(Clone, Copy, PartialEq, Eq, Debug, Hash)]
pub enum Expiry {
    /// One-shot inverter timeout. Returns to passive without controller action.
    InverterTimeout(Duration),
    /// Reverts on an inverter condition, such as target SoC; not time-bounded.
    InverterCondition(&'static str),
    /// Repeating schedule that remains active without a controller.
    RecurringWindow,
    /// Remains active until overwritten.
    UntilChanged,
}

impl Expiry {
    /// A one-shot inverter timeout of so many nanoseconds.
    pub open spec fn times_out_after(self, nanos: nat) -> bool {
        self matches Expiry::InverterTimeout(timeout) && duration_nanos(timeout) == nanos
    }

    /// The command ends without any help from the controller, and not at once.
    pub open spec fn ends_alone(self) -> bool {
        exists|nanos: nat| nanos > 0 && #[trigger] self.times_out_after(nanos)
    }

    /// Whether this is a non-zero, one-shot inverter timeout.
    #[must_use]
    pub fn is_dead_controller_safe(&self) -> (r: bool)
        ensures
            r <==> self.ends_alone(),
    {
        match self {
            Expiry::InverterTimeout(timeout) => {
                assert(self.times_out_after(duration_nanos(*timeout)));
                timeout.as_nanos() != 0
            },
            _ => false,
        }
    }
}

/// Accepted power setpoint and expiry.
#[derive(Clone, Copy, PartialEq, Debug)]
pub struct Applied {
    /// How this command will actually end.
    ///
    /// For a non-passive command this must be a non-zero
    /// [`Expiry::InverterTimeout`] no longer than [`Command::ttl`]. A driver
    /// that cannot provide that guarantee must refuse the command.
    pub expiry: Expiry,
    /// Power the driver actually commanded, kilowatts, after any
    /// model-specific clamping.
    pub power_kw: Decimal,
}

impl Applied {
    /// What every driver owes for a command it accepts: an override is armed
    /// with a one-shot inverter timeout that is neither zero nor longer than
    /// the command's time to live, and passive stays until changed.
    pub open spec fn honours(self, command: Command) -> bool {
        if command.mode == Mode::Passive {
            self.expiry == Expiry::UntilChanged
        } else {
            &&& self.expiry matches Expiry::InverterTimeout(timeout)
            &&& command.ttl matches Some(ttl)
            &&& 0 < duration_nanos(timeout) <= duration_nanos(ttl)
        }
    }
}

/// A command is made of the parts it is made from, and passive asks for
/// nothing and does not end.
pub proof fn law_a_command_has_its_parts(
    mode: Mode,
    power_kw: Decimal,
    target: DischargeTarget,
    ttl: Option<Duration>,
)
    ensures
        ({
            let command = Command::made(mode, power_kw, target, ttl);
            &&& command.mode == mode
            &&& command.power_kw == power_kw
            &&& command.target == target
            &&& command.ttl == ttl
        }),
        Command::self_use().mode == Mode::Passive,
        Command::self_use().power_kw == Decimal::Finite(0),
        Command::self_use().ttl is None,
{
}

/// What every accepted command ends with: passive stays until changed, and an
/// override has an inverter timeout that is neither zero nor longer than its
/// time to live.
pub proof fn law_an_accepted_command_ends(applied: Applied, command: Command)
    requires
        applied.honours(command),
    ensures
        command.mode == Mode::Passive ==> applied.expiry is UntilChanged,
        command.mode != Mode::Passive ==> (applied.expiry matches Expiry::InverterTimeout(timeout)
            && (command.ttl matches Some(ttl) && 0 < duration_nanos(timeout) <= duration_nanos(
            ttl,
        ))),
{
}

/// A command reads as its mode, and one that has a use for its power as its
/// power too; only an export says where it goes.
pub proof fn law_a_command_reads_as_its_parts(command: Command)
    ensures
        command.mode == Mode::Passive ==> command.shown() == "passive"@,
        command.mode == Mode::Hold ==> command.shown() == "hold"@,
        command.mode == Mode::ForceCharge ==> command.shown() == "force_charge"@ + "@"@
            + command.power_kw.shown() + "kW"@,
        command.mode == Mode::ForceDischarge && command.target == DischargeTarget::HouseOnly
            ==> command.shown() == "force_discharge"@ + "@"@ + command.power_kw.shown() + "kW"@,
        command.mode == Mode::ForceDischarge && command.target == DischargeTarget::GridExport
            ==> command.shown() == "force_discharge@"@ + command.power_kw.shown()
            + "kW(grid-export)"@,
{
}

/// Only an inverter timeout that is not zero ends a command without the
/// controller.
pub proof fn law_only_a_timeout_ends_a_command_alone(expiry: Expiry, nanos: nat)
    ensures
        expiry.ends_alone() <==> (expiry matches Expiry::InverterTimeout(timeout)
            && duration_nanos(timeout) > 0),
        expiry.times_out_after(nanos) <==> (expiry matches Expiry::InverterTimeout(timeout)
            && duration_nanos(timeout) == nanos),
{
    if let Expiry::InverterTimeout(timeout) = expiry {
        assert(expiry.times_out_after(duration_nanos(timeout)));
    }
}

} // verus!

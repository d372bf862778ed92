//! What a driver can do.
use crate::command::Expiry;
use crate::mode::Mode;
use vstd::prelude::*;

verus! {

/// Driver support for the connected model and transport.
///
/// Construct with [`Capabilities::read_only`] or [`Capabilities::writable`],
/// then set the public reporting fields.
#[derive(Clone, Copy, PartialEq, Eq, Debug)]
#[non_exhaustive]
pub struct Capabilities {
    /// Human-readable model or map identifier, for logs and diagnostics.
    pub model: &'static str,
    /// Whether this driver writes to the inverter at all.
    pub can_write: bool,
    /// Modes this driver can command. Always contains [`Mode::Passive`] when
    /// `can_write` is true.
    pub modes: &'static [Mode],
    /// How commands issued by this driver end.
    ///
    /// For [`Expiry::InverterTimeout`], the duration is the largest timeout
    /// the driver can accept. [`crate::Applied::expiry`] reports the exact
    /// timeout armed for an individual command.
    pub expiry: Expiry,
    /// Whether the driver can report PV generation.
    pub reports_solar: bool,
    /// Whether [`crate::Inverter::mode`] can answer, rather than returning
    /// [`crate::Error::Unsupported`].
    pub reports_mode: bool,
    /// Why writes are unavailable, when `can_write` is false.
    pub write_blocked_reason: Option<&'static str>,
}

impl Capabilities {
    /// A driver that reports telemetry but refuses every command.
    ///
    /// Reporting flags default to `false`. Set them to match the driver.
    #[must_use]
    pub fn read_only(model: &'static str, reason: &'static str) -> (r: Self)
        ensures
            r.model == model,
            !r.can_write,
            r.modes@.len() == 0,
            r.expiry == Expiry::UntilChanged,
            !r.reports_solar,
            !r.reports_mode,
            r.write_blocked_reason == Some(reason),
    {
        Capabilities {
            model,
            can_write: false,
            modes: &[],
            // Nothing can be commanded, so nothing this driver does expires.
            expiry: Expiry::UntilChanged,
            reports_solar: false,
            reports_mode: false,
            write_blocked_reason: Some(reason),
        }
    }

    /// A driver that can command `modes`, each ending the way `expiry` says.
    ///
    /// The reporting flags start `false`; set the public fields for whatever
    /// the driver can do. A writable driver must support [`Mode::Passive`].
    #[must_use]
    pub fn writable(model: &'static str, modes: &'static [Mode], expiry: Expiry) -> (r: Self)
        requires
            modes@.contains(Mode::Passive),
        ensures
            r.model == model,
            r.can_write,
            r.modes@ == modes@,
            r.expiry == expiry,
            !r.reports_solar,
            !r.reports_mode,
            r.write_blocked_reason is None,
    {
        Capabilities {
            model,
            can_write: true,
            modes,
            expiry,
            reports_solar: false,
            reports_mode: false,
            write_blocked_reason: None,
        }
    }

    /// `mode` can be commanded: the driver writes, and lists the mode.
    pub open spec fn can_command(self, mode: Mode) -> bool {
        self.can_write && self.modes@.contains(mode)
    }

    /// Whether `mode` can be commanded.
    #[must_use]
    pub fn supports(&self, mode: Mode) -> (r: bool)
        ensures
            r == self.can_command(mode),
    {
        if !self.can_write {
            return false;
        }
        let mut i: usize = 0;
        while i < self.modes.len()
            invariant
                self.can_write,
                i <= self.modes.len(),
                forall|j: int| 0 <= j < i ==> self.modes@[j] != mode,
            decreases self.modes.len() - i,
        {
            if self.modes[i] == mode {
                return true;
            }
            i += 1;
        }
        false
    }
}

/// A mode can be commanded exactly when the driver writes and lists the mode.
pub proof fn law_a_listed_mode_can_be_commanded(caps: Capabilities, mode: Mode)
    ensures
        caps.can_command(mode) <==> caps.can_write && exists|i: int|
            0 <= i < caps.modes@.len() && #[trigger] caps.modes@[i] == mode,
{
    if caps.can_command(mode) {
        let i = choose|i: int| 0 <= i < caps.modes@.len() && #[trigger] caps.modes@[i] == mode;
        assert(caps.modes@[i] == mode);
    }
}

} // verus!

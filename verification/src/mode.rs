//! Operating modes and discharge targets.
use crate::text::{debug_str, same_text, str_debug_text};
use vstd::prelude::*;

verus! {

/// Inverter operating mode. Overrides require a timeout and return to passive.
#[derive(Clone, Copy, PartialEq, Eq, Debug, Hash, Structural)]
pub enum Mode {
    /// Self-use: solar supplies the house, surplus charges the battery, and
    /// the battery covers demand down to its configured minimum SoC.
    Passive,
    /// Keep battery power at zero until the command expires.
    Hold,
    /// Charge the battery, importing from the grid as needed.
    ForceCharge,
    /// Discharge towards the command's [`DischargeTarget`].
    ForceDischarge,
}

/// Discharge target. Support depends on the driver.
#[derive(Clone, Copy, PartialEq, Eq, Debug, Hash, Structural)]
pub enum DischargeTarget {
    /// Cover household load only; do not push power out to the grid.
    HouseOnly,
    /// Allow discharge to export to the grid.
    GridExport,
}

/// The error from parsing a string that names no [`Mode`].
#[derive(Debug, Clone, PartialEq, Eq)]
pub struct ParseModeError(String);

impl Mode {
    /// The mode's identifier.
    pub open spec fn name(self) -> Seq<char> {
        match self {
            Mode::Passive => "passive"@,
            Mode::Hold => "hold"@,
            Mode::ForceCharge => "force_charge"@,
            Mode::ForceDischarge => "force_discharge"@,
        }
    }

    /// Stable lowercase identifier, for logs and configuration; parse it back
    /// with [`Mode::parse`] or [`str::parse`].
    #[must_use]
    pub fn as_str(&self) -> (r: &'static str)
        ensures
            r@ == self.name(),
    {
        match self {
            Mode::Passive => "passive",
            Mode::Hold => "hold",
            Mode::ForceCharge => "force_charge",
            Mode::ForceDischarge => "force_discharge",
        }
    }

    /// Parse the identifier produced by [`Mode::as_str`].
    pub fn parse(s: &str) -> (r: Result<Mode, ParseModeError>)
        ensures
            forall|mode: Mode| (r matches Ok(m) && m == mode) <==> s@ == #[trigger] mode.name(),
            r matches Err(e) ==> e.given() == s@,
    {
        proof {
            assert forall|a: Mode, b: Mode| #[trigger] a.name() == #[trigger] b.name() implies a
                == b by {
                law_mode_names_differ(a, b);
            }
        }
        if same_text(s, "passive") {
            assert(s@ == Mode::Passive.name());
            Ok(Mode::Passive)
        } else if same_text(s, "hold") {
            assert(s@ == Mode::Hold.name());
            Ok(Mode::Hold)
        } else if same_text(s, "force_charge") {
            assert(s@ == Mode::ForceCharge.name());
            Ok(Mode::ForceCharge)
        } else if same_text(s, "force_discharge") {
            assert(s@ == Mode::ForceDischarge.name());
            Ok(Mode::ForceDischarge)
        } else {
            Err(ParseModeError(s.to_owned()))
        }
    }
}

/// No two modes share an identifier, so an identifier parses back to the mode
/// it came from and to no other.
pub proof fn law_mode_names_differ(a: Mode, b: Mode)
    ensures
        a.name() == b.name() ==> a == b,
{
    reveal_strlit("passive");
    reveal_strlit("hold");
    reveal_strlit("force_charge");
    reveal_strlit("force_discharge");
    assert("passive"@.len() == 7);
    assert("hold"@.len() == 4);
    assert("force_charge"@.len() == 12);
    assert("force_discharge"@.len() == 15);
}

impl ParseModeError {
    /// The string that names no mode.
    pub closed spec fn given(self) -> Seq<char> {
        self.0@
    }

    /// The text a person is shown.
    pub fn text(&self) -> (r: String)
        ensures
            r@ == "unrecognised mode "@ + str_debug_text(self.given())
                + ": expected \"passive\", \"hold\", \"force_charge\" or \"force_discharge\""@,
    {
        let shown: String = "unrecognised mode ".to_owned().concat(
            debug_str(self.0.as_str()).as_str(),
        );
        shown.concat(
            ": expected \"passive\", \"hold\", \"force_charge\" or \"force_discharge\"",
        )
    }
}

impl std::str::FromStr for Mode {
    type Err = ParseModeError;

    /// Parse the identifier produced by [`Mode::as_str`]; see [`Mode::parse`].
    fn from_str(s: &str) -> (r: Result<Self, Self::Err>)
        ensures
            forall|mode: Mode| (r matches Ok(m) && m == mode) <==> s@ == #[trigger] mode.name(),
            r matches Err(e) ==> e.given() == s@,
    {
        Mode::parse(s)
    }
}

/// The list of all modes leaves none out.
pub proof fn lemma_every_mode_is_listed(mode: Mode)
    ensures
        seq![Mode::Passive, Mode::Hold, Mode::ForceCharge, Mode::ForceDischarge].contains(mode),
{
    let all = seq![Mode::Passive, Mode::Hold, Mode::ForceCharge, Mode::ForceDischarge];
    match mode {
        Mode::Passive => assert(all[0] == mode),
        Mode::Hold => assert(all[1] == mode),
        Mode::ForceCharge => assert(all[2] == mode),
        Mode::ForceDischarge => assert(all[3] == mode),
    }
}

/// Every mode has the identifier that configuration uses for it.
pub proof fn law_every_mode_has_its_name(mode: Mode)
    ensures
        mode == Mode::Passive ==> mode.name() == "passive"@,
        mode == Mode::Hold ==> mode.name() == "hold"@,
        mode == Mode::ForceCharge ==> mode.name() == "force_charge"@,
        mode == Mode::ForceDischarge ==> mode.name() == "force_discharge"@,
{
}

} // verus!

//! Errors shared by every driver.
use vstd::prelude::*;

verus! {

/// Inverter communication, validation and capability errors.
#[derive(Debug)]
#[non_exhaustive]
pub enum Error {
    /// The transport failed, or the inverter's reply was unusable.
    Comm(String),
    /// A write succeeded but reading the register back returned another value.
    Readback(String),
    /// A value could not be represented in the target register.
    Range(String),
    /// The driver does not implement this operation for this model.
    Unsupported(String),
}

impl Error {
    /// The error as shown to a person: its kind, then its detail.
    pub open spec fn shown(self) -> Seq<char> {
        match self {
            Error::Comm(detail) => "communication error: "@ + detail@,
            Error::Readback(detail) => "read-back mismatch: "@ + detail@,
            Error::Range(detail) => "value out of range: "@ + detail@,
            Error::Unsupported(detail) => "unsupported: "@ + detail@,
        }
    }

    /// The text a person is shown.
    pub fn text(&self) -> (r: String)
        ensures
            r@ == self.shown(),
    {
        match self {
            Error::Comm(detail) => "communication error: ".to_owned().concat(detail.as_str()),
            Error::Readback(detail) => "read-back mismatch: ".to_owned().concat(detail.as_str()),
            Error::Range(detail) => "value out of range: ".to_owned().concat(detail.as_str()),
            Error::Unsupported(detail) => "unsupported: ".to_owned().concat(detail.as_str()),
        }
    }
}

/// An error names its kind and gives its detail in full.
pub proof fn law_an_error_names_its_kind(e: Error)
    ensures
        e matches Error::Comm(detail) ==> e.shown() == "communication error: "@ + detail@,
        e matches Error::Readback(detail) ==> e.shown() == "read-back mismatch: "@ + detail@,
        e matches Error::Range(detail) ==> e.shown() == "value out of range: "@ + detail@,
        e matches Error::Unsupported(detail) ==> e.shown() == "unsupported: "@ + detail@,
{
}

} // verus!

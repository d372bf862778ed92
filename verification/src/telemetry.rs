//! Readings from an inverter.
use crate::decimal::Decimal;
use crate::time::{duration_nanos, nanos_between};
use std::time::{Duration, Instant, SystemTime};
use vstd::prelude::*;

verus! {

/// A reading from the inverter.
///
/// See the [crate] docs for sign conventions.
#[derive(Clone, Copy, Debug)]
pub struct Telemetry {
    /// Battery state of charge, percent.
    pub soc_pct: Decimal,
    /// Battery power, kilowatts. Positive means charging.
    pub battery_kw: Decimal,
    /// Grid power, kilowatts. Positive means importing.
    pub grid_kw: Decimal,
    /// Household consumption, kilowatts.
    pub load_kw: Decimal,
    /// PV generation, kilowatts. Zero when the model cannot report it.
    pub solar_kw: Decimal,
    /// Wall-clock time of the reading, for display and storage.
    pub at: SystemTime,
    /// Monotonic start time of the reading, used for staleness checks.
    pub read_at: Instant,
}

impl Telemetry {
    /// Power flowing out to the grid: the positive part of the negated grid
    /// flow.
    pub open spec fn exported(self) -> Decimal {
        self.grid_kw.opposite().floored(0)
    }

    /// Power flowing out to the grid, kilowatts. Zero while importing.
    #[must_use]
    pub fn export_kw(&self) -> (r: Decimal)
        ensures
            r == self.exported(),
    {
        self.grid_kw.negated().non_negative()
    }

    /// The age of this reading at the clock reading `now`, in nanoseconds.
    pub open spec fn age_nanos(self, now: Instant) -> nat {
        nanos_between(now, self.read_at)
    }

    /// How old this reading is at the clock reading `now`.
    #[must_use]
    pub fn age_at(&self, now: Instant) -> (r: Duration)
        ensures
            duration_nanos(r) == self.age_nanos(now),
    {
        now.duration_since(self.read_at)
    }

    /// How long ago this reading was taken, by the monotonic clock.
    ///
    /// What the clock reads is the clock's alone; see [`Telemetry::age_at`] for
    /// the age at each reading of it.
    #[must_use]
    pub fn age(&self) -> (r: Duration)
        ensures
            exists|now: Instant| duration_nanos(r) == #[trigger] self.age_nanos(now),
    {
        let now: Instant = Instant::now();
        let r: Duration = self.age_at(now);
        assert(duration_nanos(r) == self.age_nanos(now));
        r
    }
}

/// Exported power is never negative, and is zero while importing.
pub proof fn law_export_is_the_positive_part(t: Telemetry)
    ensures
        !t.exported().lt(Decimal::Finite(0)),
        t.exported() != Decimal::Nan,
        Decimal::Finite(0).le(t.grid_kw) ==> t.exported() == Decimal::Finite(0),
        t.grid_kw matches Decimal::Finite(n) ==> (i128::MIN < n <= 0 ==> t.exported()
            == Decimal::Finite((-n) as i128)),
        t.grid_kw matches Decimal::Finite(n) ==> (n >= 0 ==> t.exported() == Decimal::Finite(0)),
        t.grid_kw is NegInfinity ==> t.exported() is PosInfinity,
        t.grid_kw is PosInfinity || t.grid_kw is Nan ==> t.exported() == Decimal::Finite(0),
{
}

/// A reading ages from the moment that it carries, and two readings that carry
/// the same moment are always equally old.
pub proof fn law_age_counts_from_the_reading(t: Telemetry, u: Telemetry, now: Instant)
    ensures
        t.age_nanos(now) == nanos_between(now, t.read_at),
        t.read_at == u.read_at ==> t.age_nanos(now) == u.age_nanos(now),
{
}

} // verus!

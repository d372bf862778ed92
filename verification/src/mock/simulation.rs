//! The simulated battery, without a clock: time is an argument.
//!
//! Capacity and powers are counted in parts of a kilowatt-hour and a kilowatt
//! (see [`crate::decimal::UNIT`]), and stored energy in ticks, of which a part
//! of a kilowatt-hour has enough that a nanosecond of any power and a part of a
//! percent of any capacity are whole numbers of them. Stepping the simulation
//! loses nothing to rounding, however finely time is cut.
use crate::command::Command;
use crate::decimal::Decimal;
use crate::mode::{DischargeTarget, Mode};
use crate::telemetry::Telemetry;
use crate::text::magnitude;
use crate::time::{duration_nanos, MAX_DURATION_NANOS};
use std::time::{Duration, Instant, SystemTime};
use vstd::arithmetic::div_mod::{
    lemma_div_denominator, lemma_fundamental_div_mod, lemma_fundamental_div_mod_converse,
};
use vstd::prelude::*;

verus! {

/// The smallest capacity, in parts of a kilowatt-hour: 1 Wh.
pub const MIN_CAPACITY: i128 = 1_000_000_000_000;

/// Ticks in a part of a kilowatt-hour.
pub const TICKS: u128 = 3_600_000_000_000_000_000;

/// Ticks that a part of a kilowatt gives in a nanosecond.
pub const TICKS_PER_NANO: u128 = 1_000_000;

/// Ticks in a part of a percent of a part of a kilowatt-hour.
pub const TICKS_PER_SOC: u128 = 36;

/// A full battery, in parts of a percent.
pub const FULL_SOC: i128 = 100_000_000_000_000_000;

/// A simulated battery and inverter at one moment.
#[derive(Clone, Copy)]
pub struct Simulation {
    /// Usable capacity, in parts of a kilowatt-hour.
    pub capacity: i128,
    /// Power limit, kilowatts.
    pub max_power: Decimal,
    /// Stored energy, in whole parts of a kilowatt-hour.
    pub stored: u128,
    /// The ticks of stored energy beyond those whole parts.
    pub spare: u128,
    /// Household load, kilowatts.
    pub load: Decimal,
    /// PV generation, kilowatts.
    pub solar: Decimal,
    /// The command in force.
    pub command: Command,
    /// Nanoseconds since the command was applied.
    pub since: u128,
}

/// `n`, or the nearest bound when it lies outside `low..=high`.
pub open spec fn clamped(n: int, low: int, high: int) -> int {
    if n < low {
        low
    } else if n > high {
        high
    } else {
        n
    }
}

/// The parts in `d`, clamped; what is no number falls to the lower bound.
pub open spec fn limited(d: Decimal, low: int, high: int) -> int {
    match d {
        Decimal::Finite(n) => clamped(n as int, low, high),
        Decimal::PosInfinity => high,
        Decimal::NegInfinity | Decimal::Nan => low,
    }
}

/// The parts in `d`, clamped to `low..=high`.
pub fn limit(d: Decimal, low: i128, high: i128) -> (r: i128)
    requires
        low <= high,
    ensures
        r == limited(d, low as int, high as int),
        low <= r <= high,
{
    match d {
        Decimal::Finite(n) => if n < low {
            low
        } else if n > high {
            high
        } else {
            n
        },
        Decimal::PosInfinity => high,
        Decimal::NegInfinity | Decimal::Nan => low,
    }
}

/// The lesser of two quantities.
pub open spec fn lesser(a: Decimal, b: Decimal) -> Decimal {
    if b.lt(a) {
        b
    } else {
        a
    }
}

/// The lesser of two quantities.
pub fn least(a: Decimal, b: Decimal) -> (r: Decimal)
    ensures
        r == lesser(a, b),
{
    if b.less_than(a) {
        b
    } else {
        a
    }
}

/// The command is passive, or an override with a non-zero time to live.
pub open spec fn timed(command: Command) -> bool {
    command.mode == Mode::Passive || (command.ttl matches Some(ttl) && duration_nanos(ttl) > 0)
}

/// The command has a use for its power.
pub open spec fn powered(command: Command) -> bool {
    command.mode == Mode::ForceCharge || command.mode == Mode::ForceDischarge
}

/// The power that the command asks for, if it has a use for it, is a quantity
/// and not negative.
pub open spec fn sensible(command: Command) -> bool {
    powered(command) ==> (command.power_kw matches Decimal::Finite(p) && p >= 0)
}

impl Simulation {
    /// The simulation's invariant.
    pub open spec fn wf(self) -> bool {
        &&& MIN_CAPACITY <= self.capacity
        &&& self.max_power.floored(0) == self.max_power
        &&& self.load.floored(0) == self.load
        &&& self.solar.floored(0) == self.solar
        &&& self.spare < TICKS
        &&& self.energy() <= self.full()
        &&& self.since <= MAX_DURATION_NANOS
        &&& timed(self.command)
        &&& self.overriding() ==> duration_nanos(self.command.ttl->Some_0) <= MAX_DURATION_NANOS
        &&& sensible(self.command)
    }

    /// The stored energy, in ticks.
    pub open spec fn energy(self) -> int {
        self.stored * TICKS + self.spare
    }

    /// The energy in a full battery, in ticks.
    pub open spec fn full(self) -> int {
        self.capacity * TICKS
    }

    /// State of charge, in parts of a percent, rounded down.
    pub open spec fn soc(self) -> int {
        self.energy() / (self.capacity * TICKS_PER_SOC)
    }

    /// The simulation with so many ticks of energy stored.
    pub open spec fn holding(self, energy: int) -> Simulation {
        Simulation {
            stored: (energy / TICKS as int) as u128,
            spare: (energy % TICKS as int) as u128,
            ..self
        }
    }

    /// The simulation at a state of charge of so many parts of a percent.
    pub open spec fn at_soc(self, soc: int) -> Simulation {
        self.holding(self.capacity * TICKS_PER_SOC * soc)
    }

    /// The simulation with another capacity, at the state of charge that it
    /// reads.
    pub open spec fn resized(self, capacity: i128) -> Simulation {
        (Simulation { capacity, ..self }).at_soc(self.soc())
    }

    /// The power that the command asks for, as far as the inverter can give it.
    pub open spec fn requested(self) -> Decimal {
        lesser(self.command.power_kw, self.max_power)
    }

    /// PV generation beyond the load.
    pub open spec fn surplus(self) -> Decimal {
        self.solar.sum(self.load.opposite())
    }

    /// Battery power; positive means charging. In passive the battery soaks
    /// surplus PV and otherwise covers the load, within the power limit.
    pub open spec fn flow(self) -> Decimal {
        match self.command.mode {
            Mode::Passive => if self.surplus().lt(self.max_power.opposite()) {
                self.max_power.opposite()
            } else {
                lesser(self.surplus(), self.max_power)
            },
            Mode::Hold => Decimal::Finite(0),
            Mode::ForceCharge => self.requested(),
            Mode::ForceDischarge => self.requested().opposite(),
        }
    }

    /// Grid power; positive means importing. What the house and battery need
    /// beyond PV comes from the grid. Without an export path, discharge cannot
    /// push past the load.
    pub open spec fn grid(self) -> Decimal {
        let balance = self.load.sum(self.solar.opposite()).sum(self.flow());
        if self.command.mode == Mode::ForceDischarge && self.command.target
            == DischargeTarget::HouseOnly {
            balance.floored(0)
        } else {
            balance
        }
    }

    /// The energy after the present flow has run for `nanos`, within empty and
    /// full. A boundless flow fills or empties the battery at once, and one
    /// that is not a number leaves it as it is.
    pub open spec fn energy_after(self, nanos: nat) -> int {
        match self.flow() {
            Decimal::Finite(f) => clamped(
                self.energy() + f * nanos * TICKS_PER_NANO,
                0,
                self.full(),
            ),
            Decimal::PosInfinity if nanos > 0 => self.full(),
            Decimal::NegInfinity if nanos > 0 => 0,
            _ => self.energy(),
        }
    }

    /// The battery after its present flow has run for `nanos`.
    pub open spec fn charged(self, nanos: nat) -> Simulation {
        self.holding(self.energy_after(nanos))
    }

    /// The simulation after `nanos` in which nothing expires.
    pub open spec fn ran(self, nanos: nat) -> Simulation {
        Simulation {
            since: clamped(self.since + nanos, 0, MAX_DURATION_NANOS as int) as u128,
            ..self.charged(nanos)
        }
    }

    /// An override is in force.
    pub open spec fn overriding(self) -> bool {
        self.command.mode != Mode::Passive
    }

    /// Nanoseconds until the override expires.
    pub open spec fn remaining(self) -> nat {
        let ttl = duration_nanos(self.command.ttl->Some_0);
        if ttl > self.since {
            (ttl - self.since) as nat
        } else {
            0
        }
    }

    /// The simulation with `command` newly in force.
    pub open spec fn commanded(self, command: Command) -> Simulation {
        Simulation { command, since: 0, ..self }
    }

    /// The simulation `nanos` later. When the override's time to live runs out
    /// on the way, the battery runs up to that moment, the inverter reverts to
    /// passive by itself, and the rest of the time runs passive.
    pub open spec fn stepped(self, nanos: nat) -> Simulation {
        if self.overriding() && nanos >= self.remaining() {
            self.charged(self.remaining()).commanded(Command::self_use()).ran(
                (nanos - self.remaining()) as nat,
            )
        } else {
            self.ran(nanos)
        }
    }

    /// The command in force `nanos` later.
    pub open spec fn command_after(self, nanos: nat) -> Command {
        if self.overriding() && nanos >= self.remaining() {
            Command::self_use()
        } else {
            self.command
        }
    }

    /// `t` shows the simulation as it is.
    pub open spec fn shows(self, t: Telemetry) -> bool {
        &&& t.soc_pct == Decimal::Finite(self.soc() as i128)
        &&& t.battery_kw == self.flow()
        &&& t.grid_kw == self.grid()
        &&& t.load_kw == self.load
        &&& t.solar_kw == self.solar
    }

    /// Battery power, kilowatts.
    pub fn battery_flow(&self) -> (r: Decimal)
        requires
            self.wf(),
        ensures
            r == self.flow(),
    {
        let requested: Decimal = least(self.command.power_kw, self.max_power);
        match self.command.mode {
            Mode::Passive => {
                // Self-use: soak surplus PV, otherwise cover the load.
                let surplus: Decimal = self.solar.plus(self.load.negated());
                let floor: Decimal = self.max_power.negated();
                if surplus.less_than(floor) {
                    floor
                } else {
                    least(surplus, self.max_power)
                }
            },
            Mode::Hold => Decimal::Finite(0),
            Mode::ForceCharge => requested,
            Mode::ForceDischarge => requested.negated(),
        }
    }

    /// Fill the battery.
    fn fill(&mut self)
        requires
            old(self).wf(),
        ensures
            *final(self) == old(self).holding(old(self).full()),
            final(self).energy() == final(self).full(),
            final(self).wf(),
    {
        self.stored = self.capacity as u128;
        self.spare = 0;
    }

    /// Empty the battery.
    fn drain(&mut self)
        requires
            old(self).wf(),
        ensures
            *final(self) == old(self).holding(0),
            final(self).wf(),
    {
        self.stored = 0;
        self.spare = 0;
    }

    /// Store `whole` parts and `ticks` more, up to full.
    fn put(&mut self, whole: u128, ticks: u128)
        requires
            old(self).wf(),
            ticks < TICKS,
        ensures
            *final(self) == old(self).holding(
                clamped(old(self).energy() + whole * TICKS + ticks, 0, old(self).full()),
            ),
            final(self).wf(),
    {
        let capacity: u128 = self.capacity as u128;
        if whole > capacity - self.stored {
            self.fill();
            return;
        }
        let sum: u128 = self.spare + ticks;
        let (carried, spare): (u128, u128) = if sum >= TICKS {
            (1, sum - TICKS)
        } else {
            (0, sum)
        };
        let stored: u128 = self.stored + whole + carried;
        if stored >= capacity {
            self.fill();
        } else {
            self.stored = stored;
            self.spare = spare;
        }
    }

    /// Take out `whole` parts and `ticks` more, down to empty.
    fn take(&mut self, whole: u128, ticks: u128)
        requires
            old(self).wf(),
            ticks < TICKS,
        ensures
            *final(self) == old(self).holding(
                clamped(old(self).energy() - (whole * TICKS + ticks), 0, old(self).full()),
            ),
            final(self).wf(),
    {
        if whole > self.stored || (whole == self.stored && ticks >= self.spare) {
            self.drain();
        } else if ticks <= self.spare {
            self.stored = self.stored - whole;
            self.spare = self.spare - ticks;
        } else {
            self.stored = self.stored - whole - 1;
            self.spare = self.spare + TICKS - ticks;
        }
    }

    /// Let the present flow run for `nanos`.
    fn integrate(&mut self, nanos: u128)
        requires
            old(self).wf(),
            nanos <= MAX_DURATION_NANOS,
        ensures
            *final(self) == old(self).charged(nanos as nat),
            final(self).wf(),
    {
        match self.battery_flow() {
            Decimal::Finite(flow) => {
                let size: u128 = magnitude(flow);
                proof {
                    let (f, z, n) = (flow as int, size as int, nanos as int);
                    assert(f * n * 1_000_000 == if f < 0 {
                        -(z * n * 1_000_000)
                    } else {
                        z * n * 1_000_000
                    } && z * n * 1_000_000 >= 0) by (nonlinear_arith)
                        requires
                            z == if f < 0 {
                                -f
                            } else {
                                f
                            },
                            n >= 0,
                    ;
                }
                match energy_of(size, nanos) {
                    Some((whole, ticks)) => if flow < 0 {
                        self.take(whole, ticks);
                    } else {
                        self.put(whole, ticks);
                    },
                    None => if flow < 0 {
                        self.drain();
                    } else {
                        self.fill();
                    },
                }
            },
            Decimal::PosInfinity => if nanos > 0 {
                self.fill();
            },
            Decimal::NegInfinity => if nanos > 0 {
                self.drain();
            },
            Decimal::Nan => {},
        }
    }

    /// Run `nanos` in which nothing expires.
    fn run(&mut self, nanos: u128)
        requires
            old(self).wf(),
            nanos <= MAX_DURATION_NANOS,
        ensures
            *final(self) == old(self).ran(nanos as nat),
            final(self).wf(),
    {
        self.integrate(nanos);
        self.since = if nanos > MAX_DURATION_NANOS - self.since {
            MAX_DURATION_NANOS
        } else {
            self.since + nanos
        };
    }

    /// Nanoseconds until the override expires.
    fn until_expiry(&self) -> (r: u128)
        requires
            self.wf(),
            self.overriding(),
        ensures
            r == self.remaining(),
            r <= MAX_DURATION_NANOS,
    {
        match self.command.ttl {
            Some(ttl) => {
                let nanos: u128 = ttl.as_nanos();
                if nanos > self.since {
                    nanos - self.since
                } else {
                    0
                }
            },
            None => 0,
        }
    }

    /// Run `elapsed` of simulated time, honouring the one-shot timeout: if
    /// the time to live runs out mid-step, integration splits at that boundary
    /// and the rest of the step runs passive.
    pub fn step(&mut self, elapsed: Duration)
        requires
            old(self).wf(),
        ensures
            *final(self) == old(self).stepped(duration_nanos(elapsed)),
            final(self).wf(),
    {
        let mut remaining: u128 = elapsed.as_nanos();
        if self.command.mode != Mode::Passive {
            let until_expiry: u128 = self.until_expiry();
            if remaining >= until_expiry {
                self.integrate(until_expiry);
                remaining = remaining - until_expiry;
                // A real one-shot timeout: the inverter reverts by itself.
                self.command = Command::passive();
                self.since = 0;
            }
        }
        self.run(remaining);
    }

    /// The command in force once `elapsed` more has passed.
    pub fn active_after(&self, elapsed: Duration) -> (r: Command)
        requires
            self.wf(),
        ensures
            r == self.command_after(duration_nanos(elapsed)),
    {
        if self.command.mode != Mode::Passive && elapsed.as_nanos() >= self.until_expiry() {
            Command::passive()
        } else {
            self.command
        }
    }

    /// State of charge, in parts of a percent.
    pub fn soc_parts(&self) -> (r: i128)
        requires
            self.wf(),
        ensures
            r == self.soc(),
            0 <= r <= FULL_SOC,
    {
        let capacity: u128 = self.capacity as u128;
        let (quotient, rest): (u128, u128) = multiply_then_divide(
            self.stored,
            FULL_SOC as u128,
            capacity,
        );
        proof {
            lemma_soc_is_bounded(*self);
            let (c, e) = (capacity as int, self.energy());
            let (q, r, x) = (quotient as int, rest as int, self.spare as int / 36);
            let whole = self.stored * 100_000_000_000_000_000 + x;
            assert(e / 36 == whole);
            lemma_div_denominator(e, 36, c);
            assert(36 * c == c * 36);
            lemma_fundamental_div_mod(r + x, c);
            let (k, m) = ((r + x) / c, (r + x) % c);
            assert(whole == (q + k) * c + m) by (nonlinear_arith)
                requires
                    whole == q * c + r + x,
                    r + x == c * k + m,
            ;
            lemma_fundamental_div_mod_converse(whole, c, q + k, m);
        }
        (quotient + (rest + self.spare / TICKS_PER_SOC) / capacity) as i128
    }

    /// What a reading taken now shows.
    pub fn telemetry(&self, at: SystemTime, read_at: Instant) -> (t: Telemetry)
        requires
            self.wf(),
        ensures
            self.shows(t),
            t.at == at,
            t.read_at == read_at,
    {
        let battery_kw: Decimal = self.battery_flow();
        // AC balance: what the house and battery need beyond PV comes from the grid.
        let balance: Decimal = self.load.plus(self.solar.negated()).plus(battery_kw);
        let house_only: bool = self.command.mode == Mode::ForceDischarge && self.command.target
            == DischargeTarget::HouseOnly;
        // Without an export path, discharge cannot push past the load.
        let grid_kw: Decimal = if house_only {
            balance.non_negative()
        } else {
            balance
        };
        Telemetry {
            soc_pct: Decimal::parts(self.soc_parts()),
            battery_kw,
            grid_kw,
            load_kw: self.load,
            solar_kw: self.solar,
            at,
            read_at,
        }
    }

    /// Change the capacity and keep the state of charge as it reads.
    pub fn set_capacity(&mut self, capacity: i128)
        requires
            old(self).wf(),
            MIN_CAPACITY <= capacity,
        ensures
            final(self).wf(),
            *final(self) == old(self).resized(capacity),
            final(self).soc() == old(self).soc(),
    {
        let soc: i128 = self.soc_parts();
        self.drain();
        self.capacity = capacity;
        self.set_soc(soc);
    }

    /// Set the state of charge, in parts of a percent.
    pub fn set_soc(&mut self, soc: i128)
        requires
            old(self).wf(),
            0 <= soc <= FULL_SOC,
        ensures
            final(self).wf(),
            *final(self) == old(self).at_soc(soc as int),
            final(self).soc() == soc,
    {
        let unit: u128 = FULL_SOC as u128;
        let s: u128 = soc as u128;
        let (a, b): (u128, u128) = (self.capacity as u128 / unit, self.capacity as u128 % unit);
        proof {
            let (c, ai, bi, si) = (self.capacity as int, a as int, b as int, soc as int);
            assert(0 <= ai * si <= ai * 100_000_000_000_000_000 && 0 <= bi * si
                <= 100_000_000_000_000_000 * 100_000_000_000_000_000) by (nonlinear_arith)
                requires
                    0 <= ai,
                    0 <= bi <= 100_000_000_000_000_000,
                    0 <= si <= 100_000_000_000_000_000,
            ;
            let (q, m) = (bi * si / 100_000_000_000_000_000, bi * si % 100_000_000_000_000_000);
            assert(c * 36 * si == (ai * si + q) * 3_600_000_000_000_000_000 + m * 36)
                by (nonlinear_arith)
                requires
                    c == ai * 100_000_000_000_000_000 + bi,
                    bi * si == q * 100_000_000_000_000_000 + m,
            ;
            assert(c * 36 * si <= c * 3_600_000_000_000_000_000) by (nonlinear_arith)
                requires
                    0 <= c,
                    si <= 100_000_000_000_000_000,
            ;
            lemma_fundamental_div_mod_converse(
                c * 36 * si,
                3_600_000_000_000_000_000,
                ai * si + q,
                m * 36,
            );
            assert(ai * 100_000_000_000_000_000 <= c);
            assert(0 <= q <= 100_000_000_000_000_000 && 0 <= m < 100_000_000_000_000_000);
            assert(c * 36 * si == si * (c * 36)) by (nonlinear_arith);
            lemma_fundamental_div_mod_converse(si * (c * 36), c * 36, si, 0);
        }
        self.stored = a * s + (b * s) / unit;
        self.spare = ((b * s) % unit) * TICKS_PER_SOC;
    }
}

/// The energy, in whole parts of a kilowatt-hour and ticks, that a power of
/// `size` parts of a kilowatt gives in `nanos`; none when the parts are too
/// many to count.
fn energy_of(size: u128, nanos: u128) -> (r: Option<(u128, u128)>)
    requires
        size <= 0x8000_0000_0000_0000_0000_0000_0000_0000,
        nanos <= MAX_DURATION_NANOS,
    ensures
        match r {
            Some((whole, ticks)) => ticks < TICKS && whole * TICKS + ticks == size * nanos
                * TICKS_PER_NANO,
            None => size * nanos * TICKS_PER_NANO > u128::MAX * TICKS,
        },
{
    let time: u128 = nanos * TICKS_PER_NANO;
    let (h, n): (u128, u128) = (time / TICKS, time % TICKS);
    let (a, b): (u128, u128) = (size / TICKS, size % TICKS);
    proof {
        let (ai, bi, ni) = (a as int, b as int, n as int);
        assert(0 <= ai * ni <= 50_000_000_000_000_000_000 * 3_600_000_000_000_000_000 && 0 <= bi * ni
            <= 3_600_000_000_000_000_000 * 3_600_000_000_000_000_000) by (nonlinear_arith)
            requires
                0 <= ai <= 50_000_000_000_000_000_000,
                0 <= bi <= 3_600_000_000_000_000_000,
                0 <= ni <= 3_600_000_000_000_000_000,
        ;
    }
    let product: u128 = b * n;
    let low: u128 = a * n + product / TICKS;
    proof {
        let (z, t, hi, ni) = (size as int, time as int, h as int, n as int);
        let (ai, bi) = (a as int, b as int);
        let (q, m) = (product as int / 3_600_000_000_000_000_000, product as int
            % 3_600_000_000_000_000_000);
        assert(z * nanos * 1_000_000 == (z * hi + (ai * ni + q)) * 3_600_000_000_000_000_000 + m)
            by (nonlinear_arith)
            requires
                nanos * 1_000_000 == hi * 3_600_000_000_000_000_000 + ni,
                z == ai * 3_600_000_000_000_000_000 + bi,
                bi * ni == q * 3_600_000_000_000_000_000 + m,
        ;
    }
    match size.checked_mul(h) {
        Some(high) => match high.checked_add(low) {
            Some(whole) => Some((whole, product % TICKS)),
            None => None,
        },
        None => None,
    }
}

/// `w * k` divided by `c`: the quotient and the rest.
fn multiply_then_divide(w: u128, k: u128, c: u128) -> (r: (u128, u128))
    requires
        0 < c <= 0x8000_0000_0000_0000_0000_0000_0000_0000,
        w <= c,
        k <= 0x8000_0000_0000_0000_0000_0000_0000_0000,
    ensures
        w * k == r.0 * c + r.1,
        r.1 < c,
        r.0 <= k,
    decreases k,
{
    if k == 0 {
        return (0, 0);
    }
    let (half, rest): (u128, u128) = multiply_then_divide(w, k / 2, c);
    let ghost before = (half as int, rest as int);
    let (mut quotient, mut rest): (u128, u128) = if rest >= c - rest {
        (2 * half + 1, rest - (c - rest))
    } else {
        (2 * half, 2 * rest)
    };
    if k % 2 == 1 {
        if rest >= c - w {
            quotient = quotient + 1;
            rest = rest - (c - w);
        } else {
            rest = rest + w;
        }
    }
    proof {
        let (wi, ki, ci, h) = (w as int, k as int, c as int, k as int / 2);
        let (q, r) = (quotient as int, rest as int);
        let odd = ki % 2;
        let gained = q - 2 * before.0;
        assert(gained * ci == if gained == 0 {
            0
        } else if gained == 1 {
            ci
        } else {
            2 * ci
        }) by (nonlinear_arith)
            requires
                0 <= gained <= 2,
        ;
        assert(wi * ki == q * ci + r) by (nonlinear_arith)
            requires
                wi * h == before.0 * ci + before.1,
                ki == 2 * h + odd,
                odd == 0 || odd == 1,
                r == 2 * before.1 + (if odd == 1 {
                    wi
                } else {
                    0
                }) - gained * ci,
                gained == q - 2 * before.0,
        ;
        assert(q <= ki) by (nonlinear_arith)
            requires
                wi * ki == q * ci + r,
                0 <= r,
                0 <= wi <= ci,
                0 < ci,
                0 <= ki,
        ;
    }
    (quotient, rest)
}

/// The state of charge lies between empty and full.
pub(super) proof fn lemma_soc_is_bounded(s: Simulation)
    requires
        s.wf(),
    ensures
        0 <= s.soc() <= FULL_SOC,
{
    let (e, u) = (s.energy(), s.capacity * TICKS_PER_SOC);
    lemma_fundamental_div_mod(e, u);
    let q = e / u;
    assert(0 <= q <= 100_000_000_000_000_000) by (nonlinear_arith)
        requires
            e == u * q + e % u,
            0 <= e % u < u,
            0 <= e <= u * 100_000_000_000_000_000,
    ;
}

/// What is stored reads back.
pub(super) proof fn lemma_holding_reads_back(s: Simulation, energy: int)
    requires
        s.wf(),
        0 <= energy <= s.full(),
    ensures
        s.holding(energy).energy() == energy,
        s.holding(energy).wf(),
        s.holding(energy).flow() == s.flow(),
        s.holding(s.energy()) == s,
{
    assert(energy / 3_600_000_000_000_000_000 <= s.capacity);
}

/// Running for a while and then for a while longer is the same as running for
/// both at once.
pub(super) proof fn lemma_charging_adds_up(s: Simulation, a: nat, b: nat)
    requires
        s.wf(),
    ensures
        s.charged(a).charged(b) == s.charged(a + b),
        s.charged(a).wf(),
        s.charged(a).flow() == s.flow(),
{
    if let Decimal::Finite(f) = s.flow() {
        assert(f * (a + b) * 1_000_000 == f * a * 1_000_000 + f * b * 1_000_000 && (f >= 0 ==> f * a
            >= 0 && f * b >= 0) && (f <= 0 ==> f * a <= 0 && f * b <= 0)) by (nonlinear_arith);
    }
    lemma_holding_reads_back(s, s.energy_after(a));
    assert(s.charged(a).full() == s.full());
}

/// Running adds up in its clock too.
proof fn lemma_running_adds_up(s: Simulation, a: nat, b: nat)
    requires
        s.wf(),
    ensures
        s.ran(a).ran(b) == s.ran(a + b),
        s.ran(a).wf(),
{
    lemma_charging_adds_up(s, a, b);
    let (ran, charged) = (s.ran(a), s.charged(a));
    assert(ran.flow() == charged.flow());
    assert(ran.energy_after(b) == charged.energy_after(b));
}

/// Once an override has expired, the rest of the time runs passive.
proof fn lemma_expired_steps_add_up(s: Simulation, a: nat, b: nat)
    requires
        s.wf(),
        s.overriding(),
        a >= s.remaining(),
    ensures
        s.stepped(a).stepped(b) == s.stepped(a + b),
        s.stepped(a).wf(),
{
    let left = s.remaining();
    let reverted = s.charged(left).commanded(Command::self_use());
    lemma_charging_adds_up(s, left, 0);
    assert(reverted.wf());
    lemma_running_adds_up(reverted, (a - left) as nat, b);
    assert(s.stepped(a) == reverted.ran((a - left) as nat));
    assert(!s.stepped(a).overriding());
    assert(s.stepped(a + b) == reverted.ran((a + b - left) as nat));
}

/// An override that expires in the second step runs until then in both.
proof fn lemma_expiring_steps_add_up(s: Simulation, a: nat, b: nat)
    requires
        s.wf(),
        s.overriding(),
        a < s.remaining() <= a + b,
    ensures
        s.stepped(a).stepped(b) == s.stepped(a + b),
        s.stepped(a).wf(),
{
    let left = s.remaining();
    let rest = (left - a) as nat;
    let after = s.ran(a);
    lemma_running_adds_up(s, a, 0);
    assert(s.stepped(a) == after);
    assert(after.remaining() == rest);
    lemma_charging_adds_up(s, a, rest);
    assert(after.flow() == s.charged(a).flow());
    assert(after.energy_after(rest) == s.charged(a).energy_after(rest));
    let reverted = after.charged(rest).commanded(Command::self_use());
    assert(reverted == s.charged(left).commanded(Command::self_use()));
    assert(after.stepped(b) == reverted.ran((b - rest) as nat));
    assert(s.stepped(a + b) == reverted.ran((a + b - left) as nat));
}

/// The simulation does not depend on how often it is looked at: stepping twice
/// is the same as stepping once by the sum, also across an expiry.
pub proof fn law_stepping_adds_up(s: Simulation, a: nat, b: nat)
    requires
        s.wf(),
    ensures
        s.stepped(a).stepped(b) == s.stepped(a + b),
        s.stepped(a).wf(),
{
    if s.overriding() && a >= s.remaining() {
        lemma_expired_steps_add_up(s, a, b);
    } else if s.overriding() && a + b >= s.remaining() {
        lemma_expiring_steps_add_up(s, a, b);
    } else {
        lemma_running_adds_up(s, a, b);
        assert(s.stepped(a) == s.ran(a));
        assert(s.stepped(a + b) == s.ran(a + b));
        assert(s.ran(a).stepped(b) == s.ran(a).ran(b));
    }
}

/// An override stays in force until its time to live has run out, and from
/// then on the command in force is passive, without any help from the
/// controller.
pub proof fn law_an_override_expires_by_itself(s: Simulation, nanos: nat)
    requires
        s.wf(),
    ensures
        s.stepped(nanos).command == s.command_after(nanos),
        s.overriding() && nanos >= duration_nanos(s.command.ttl->Some_0) ==> s.stepped(
            nanos,
        ).command == Command::self_use(),
        s.overriding() && s.since + nanos < duration_nanos(s.command.ttl->Some_0) ==> s.stepped(
            nanos,
        ).command == s.command,
{
}

/// House-only discharge never exports, and apart from what that holds back
/// every reading balances: grid and PV supply the load and the battery. Only a
/// boundless or uncountable export, and one that is not a number, does not
/// balance.
pub proof fn law_readings_balance(s: Simulation, t: Telemetry)
    requires
        s.wf(),
        s.shows(t),
    ensures
        s.command.mode == Mode::ForceDischarge && s.command.target == DischargeTarget::HouseOnly
            ==> t.exported() == Decimal::Finite(0),
        (s.command.mode != Mode::ForceDischarge || s.command.target == DischargeTarget::GridExport)
            && !(t.grid_kw is NegInfinity) && !(t.grid_kw is Nan) ==> t.grid_kw.sum(t.solar_kw)
            == t.load_kw.sum(t.battery_kw),
{
}

/// A reading stays within physical bounds: the state of charge between zero
/// and a hundred percent, the battery within the power limit, and load and PV
/// not negative. The battery's power is a number unless load and PV are both
/// boundless.
pub proof fn law_readings_are_physical(s: Simulation, t: Telemetry)
    requires
        s.wf(),
        s.shows(t),
    ensures
        Decimal::Finite(0).le(t.soc_pct) && t.soc_pct.le(Decimal::Finite(FULL_SOC)),
        t.battery_kw.size().le(s.max_power) || (t.load_kw is PosInfinity
            && t.solar_kw is PosInfinity),
        Decimal::Finite(0).le(t.load_kw),
        Decimal::Finite(0).le(t.solar_kw),
{
    lemma_soc_is_bounded(s);
}

/// Holding leaves the battery as it is.
pub proof fn law_hold_keeps_the_charge(s: Simulation, nanos: nat)
    requires
        s.wf(),
        s.command.mode == Mode::Hold,
        nanos < s.remaining(),
    ensures
        s.stepped(nanos).energy() == s.energy(),
        s.stepped(nanos).flow() == Decimal::Finite(0),
{
    assert(0 * nanos * 1_000_000 == 0) by (nonlinear_arith);
    lemma_holding_reads_back(s, s.energy());
}

} // verus!

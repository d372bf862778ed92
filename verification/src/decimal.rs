//! Decimal quantities: powers, percentages and energies.
use crate::text::{
    append_decimal, append_padded, decimal_text, is_decimal, law_a_decimal_number_reads_back,
    law_a_padded_number_reads_back, magnitude, padded_text, spelled,
};
use vstd::arithmetic::power::pow;
use vstd::prelude::*;
use vstd::std_specs::cmp::PartialEqSpec;

verus! {

/// Parts in one unit: a part is 10^-15.
pub const UNIT: i128 = 1_000_000_000_000_000;

/// A quantity counted in parts of its unit (kilowatts, percent,
/// kilowatt-hours), or a value that is no quantity at all.
///
/// Arithmetic on finite quantities is exact. A result too large to count is
/// infinite, and the infinities and [`Decimal::Nan`] behave as they do in
/// floating point, so a nonsensical reading or request can be carried as far
/// as the check that refuses it.
#[derive(Clone, Copy, Debug)]
pub enum Decimal {
    /// So many parts.
    Finite(i128),
    /// Larger than every finite quantity.
    PosInfinity,
    /// Smaller than every finite quantity.
    NegInfinity,
    /// Not a number. Neither equal to, less than nor greater than anything,
    /// itself included.
    Nan,
}

/// The quantity of `n` parts, infinite when it is too large to count.
pub open spec fn counted(n: int) -> Decimal {
    if n > i128::MAX {
        Decimal::PosInfinity
    } else if n < i128::MIN {
        Decimal::NegInfinity
    } else {
        Decimal::Finite(n as i128)
    }
}

/// The `width` decimals of `n` without trailing zeroes, and the point
/// before them; nothing when there are none.
pub open spec fn fraction_text(n: nat, width: nat) -> Seq<char>
    decreases width,
{
    if n == 0 || width == 0 {
        seq![]
    } else if n % 10 == 0 {
        fraction_text(n / 10, (width - 1) as nat)
    } else {
        seq!['.'] + padded_text(n, width)
    }
}

impl PartialEq for Decimal {
    /// Whether two quantities are the same; never so when either is not a
    /// number.
    fn eq(&self, other: &Self) -> (r: bool) {
        match (*self, *other) {
            (Decimal::Finite(a), Decimal::Finite(b)) => a == b,
            (Decimal::PosInfinity, Decimal::PosInfinity) => true,
            (Decimal::NegInfinity, Decimal::NegInfinity) => true,
            _ => false,
        }
    }
}

impl vstd::std_specs::cmp::PartialEqSpecImpl for Decimal {
    open spec fn obeys_eq_spec() -> bool {
        true
    }

    open spec fn eq_spec(&self, other: &Self) -> bool {
        *self == *other && *self != Decimal::Nan
    }
}

impl Decimal {
    /// `n` whole units.
    pub fn whole(n: i64) -> (r: Decimal)
        ensures
            r == Decimal::Finite((n * UNIT) as i128),
    {
        Decimal::Finite(n as i128 * UNIT)
    }

    /// `n` parts of a unit.
    pub fn parts(n: i128) -> (r: Decimal)
        ensures
            r == Decimal::Finite(n),
    {
        Decimal::Finite(n)
    }

    /// Whether this is a quantity.
    pub fn is_finite(self) -> (r: bool)
        ensures
            r == (self is Finite),
    {
        match self {
            Decimal::Finite(_) => true,
            _ => false,
        }
    }

    /// `self` is less than `other`; never so when either is not a number.
    pub open spec fn lt(self, other: Decimal) -> bool {
        match (self, other) {
            (Decimal::Nan, _) => false,
            (_, Decimal::Nan) => false,
            (Decimal::Finite(a), Decimal::Finite(b)) => a < b,
            (Decimal::NegInfinity, _) => other != Decimal::NegInfinity,
            (_, Decimal::PosInfinity) => self != Decimal::PosInfinity,
            _ => false,
        }
    }

    /// `self` is at most `other`; never so when either is not a number.
    pub open spec fn le(self, other: Decimal) -> bool {
        self.lt(other) || (self == other && self != Decimal::Nan)
    }

    /// Whether `self < other`; false when either is not a number.
    pub fn less_than(self, other: Decimal) -> (r: bool)
        ensures
            r == self.lt(other),
    {
        match (self, other) {
            (Decimal::Nan, _) => false,
            (_, Decimal::Nan) => false,
            (Decimal::Finite(a), Decimal::Finite(b)) => a < b,
            (Decimal::NegInfinity, Decimal::NegInfinity) => false,
            (Decimal::NegInfinity, _) => true,
            (Decimal::PosInfinity, Decimal::PosInfinity) => false,
            (_, Decimal::PosInfinity) => true,
            _ => false,
        }
    }

    /// Whether `self <= other`; false when either is not a number.
    pub fn at_most(self, other: Decimal) -> (r: bool)
        ensures
            r == self.le(other),
    {
        self.less_than(other) || self == other
    }

    /// The larger of `self` and `floor`; `floor` when `self` is not a number.
    pub open spec fn floored(self, floor: i128) -> Decimal {
        if self.lt(Decimal::Finite(floor)) || self == Decimal::Nan {
            Decimal::Finite(floor)
        } else {
            self
        }
    }

    /// The larger of `self` and zero; zero when `self` is not a number.
    pub fn non_negative(self) -> (r: Decimal)
        ensures
            r == self.floored(0),
    {
        match self {
            Decimal::Finite(n) => if n < 0 {
                Decimal::Finite(0)
            } else {
                self
            },
            Decimal::PosInfinity => self,
            Decimal::NegInfinity | Decimal::Nan => Decimal::Finite(0),
        }
    }

    /// `self + other`.
    pub open spec fn sum(self, other: Decimal) -> Decimal {
        match (self, other) {
            (Decimal::Nan, _) => Decimal::Nan,
            (_, Decimal::Nan) => Decimal::Nan,
            (Decimal::Finite(a), Decimal::Finite(b)) => counted(a + b),
            (Decimal::Finite(_), _) => other,
            (_, Decimal::Finite(_)) => self,
            _ => if self == other {
                self
            } else {
                Decimal::Nan
            },
        }
    }

    /// `self + other`; infinite when the sum is too large to count, and not a
    /// number when it adds opposite infinities.
    pub fn plus(self, other: Decimal) -> (r: Decimal)
        ensures
            r == self.sum(other),
    {
        match (self, other) {
            (Decimal::Nan, _) => Decimal::Nan,
            (_, Decimal::Nan) => Decimal::Nan,
            (Decimal::Finite(a), Decimal::Finite(b)) => match a.checked_add(b) {
                Some(n) => Decimal::Finite(n),
                None => if a > 0 {
                    Decimal::PosInfinity
                } else {
                    Decimal::NegInfinity
                },
            },
            (Decimal::Finite(_), _) => other,
            (_, Decimal::Finite(_)) => self,
            (Decimal::PosInfinity, Decimal::PosInfinity) => self,
            (Decimal::NegInfinity, Decimal::NegInfinity) => self,
            _ => Decimal::Nan,
        }
    }

    /// `-self`.
    pub open spec fn opposite(self) -> Decimal {
        match self {
            Decimal::Finite(n) => counted(-n),
            Decimal::PosInfinity => Decimal::NegInfinity,
            Decimal::NegInfinity => Decimal::PosInfinity,
            Decimal::Nan => Decimal::Nan,
        }
    }

    /// `-self`.
    pub fn negated(self) -> (r: Decimal)
        ensures
            r == self.opposite(),
    {
        match self {
            Decimal::Finite(n) => if n == i128::MIN {
                Decimal::PosInfinity
            } else {
                Decimal::Finite(-n)
            },
            Decimal::PosInfinity => Decimal::NegInfinity,
            Decimal::NegInfinity => Decimal::PosInfinity,
            Decimal::Nan => Decimal::Nan,
        }
    }

    /// The size of `self`, whatever its sign.
    pub open spec fn size(self) -> Decimal {
        match self {
            Decimal::Finite(n) => if n < 0 {
                counted(-n)
            } else {
                self
            },
            Decimal::NegInfinity => Decimal::PosInfinity,
            _ => self,
        }
    }

    /// The size of `self`, whatever its sign.
    pub fn abs(self) -> (r: Decimal)
        ensures
            r == self.size(),
    {
        match self {
            Decimal::Finite(n) => if n < 0 {
                self.negated()
            } else {
                self
            },
            Decimal::NegInfinity => Decimal::PosInfinity,
            _ => self,
        }
    }

    /// The quantity in decimal: `2`, `1.5`, `-0.25`, `inf`, `NaN`.
    pub open spec fn shown(self) -> Seq<char> {
        match self {
            Decimal::Finite(n) => {
                let m: nat = if n < 0 {
                    (-n) as nat
                } else {
                    n as nat
                };
                (if n < 0 {
                    "-"@
                } else {
                    seq![]
                }) + decimal_text(m / 1_000_000_000_000_000) + fraction_text(
                    m % 1_000_000_000_000_000,
                    15,
                )
            },
            Decimal::PosInfinity => "inf"@,
            Decimal::NegInfinity => "-inf"@,
            Decimal::Nan => "NaN"@,
        }
    }

    /// The quantity in decimal.
    pub fn text(self) -> (r: String)
        ensures
            r@ == self.shown(),
    {
        match self {
            Decimal::Finite(n) => {
                let mut out: String = String::new();
                if n < 0 {
                    out.append("-");
                }
                let m: u128 = magnitude(n);
                append_decimal(&mut out, m / 1_000_000_000_000_000);
                append_fraction(&mut out, m % 1_000_000_000_000_000, 15);
                out
            },
            Decimal::PosInfinity => "inf".to_owned(),
            Decimal::NegInfinity => "-inf".to_owned(),
            Decimal::Nan => "NaN".to_owned(),
        }
    }
}

/// Append the decimals of `n`; see [`fraction_text`].
fn append_fraction(out: &mut String, n: u128, width: u8)
    ensures
        final(out)@ == old(out)@ + fraction_text(n as nat, width as nat),
    decreases width,
{
    if n == 0 || width == 0 {
    } else if n % 10 == 0 {
        append_fraction(out, n / 10, width - 1);
    } else {
        proof {
            reveal_strlit(".");
            assert("."@ == seq!['.']);
        }
        out.append(".");
        append_padded(out, n, width);
    }
}

/// A count within range is a quantity, and one beyond it is infinite.
pub proof fn law_counts_are_exact(n: int)
    ensures
        i128::MIN <= n <= i128::MAX ==> (counted(n) matches Decimal::Finite(m) && m == n),
        n > i128::MAX ==> counted(n) is PosInfinity,
        n < i128::MIN ==> counted(n) is NegInfinity,
{
}

/// Arithmetic on quantities is integer arithmetic on their parts, and comparing
/// them is comparing their parts.
pub proof fn law_quantities_are_their_parts(a: i128, b: i128)
    ensures
        i128::MIN <= a + b <= i128::MAX ==> (Decimal::Finite(a).sum(
            Decimal::Finite(b),
        ) matches Decimal::Finite(n) && n == a + b),
        a + b > i128::MAX ==> Decimal::Finite(a).sum(Decimal::Finite(b)) is PosInfinity,
        a + b < i128::MIN ==> Decimal::Finite(a).sum(Decimal::Finite(b)) is NegInfinity,
        a > i128::MIN ==> (Decimal::Finite(a).opposite() matches Decimal::Finite(n) && n == -a),
        a > i128::MIN ==> (Decimal::Finite(a).size() matches Decimal::Finite(n) && n >= 0 && (n == a
            || n == -a)),
        Decimal::Finite(a).lt(Decimal::Finite(b)) <==> a < b,
        Decimal::Finite(a).le(Decimal::Finite(b)) <==> a <= b,
        Decimal::Finite(a).floored(b) matches Decimal::Finite(n) && n >= a && n >= b && (n == a || n
            == b),
        Decimal::Finite(a).eq_spec(&Decimal::Finite(b)) <==> a == b,
{
}

/// Of two numbers exactly one is less, or they are equal; and what is not a
/// number is neither less than, at most nor equal to anything.
pub proof fn law_numbers_are_ordered(a: Decimal, b: Decimal)
    ensures
        a is Nan || b is Nan ==> !a.lt(b) && !a.le(b) && !a.eq_spec(&b),
        !(a is Nan) && !(b is Nan) ==> {
            &&& a.le(b) <==> !b.lt(a)
            &&& a.lt(b) ==> !b.lt(a) && a != b
            &&& a.lt(b) || b.lt(a) || a == b
            &&& a.eq_spec(&b) <==> a.le(b) && b.le(a)
        },
{
}

/// The order is transitive, and the infinities lie at its ends.
pub proof fn law_the_infinities_lie_at_the_ends(a: Decimal, b: Decimal, c: Decimal)
    ensures
        a.lt(b) && b.lt(c) ==> a.lt(c),
        a is Finite ==> Decimal::NegInfinity.lt(a) && a.lt(Decimal::PosInfinity),
        Decimal::NegInfinity.lt(Decimal::PosInfinity),
{
}

/// Adding is commutative, adding nothing changes nothing, an infinity swallows
/// every quantity, and opposite infinities make what is not a number.
pub proof fn law_sums_are_commutative(a: Decimal, b: Decimal)
    ensures
        a.sum(b) == b.sum(a),
        a.sum(Decimal::Finite(0)) == a,
        a is Finite && !(b is Finite) ==> a.sum(b) == b,
        a is Nan ==> a.sum(b) is Nan,
        Decimal::PosInfinity.sum(Decimal::PosInfinity) is PosInfinity,
        Decimal::NegInfinity.sum(Decimal::NegInfinity) is NegInfinity,
        Decimal::PosInfinity.sum(Decimal::NegInfinity) is Nan,
{
}

/// Turning a number round turns the order round, and its size does not depend
/// on its sign.
pub proof fn law_signs_are_opposite(a: Decimal, b: Decimal)
    ensures
        a is PosInfinity <==> a.opposite() is NegInfinity && !(a is Finite),
        a is NegInfinity ==> a.opposite() is PosInfinity,
        a is Nan <==> a.opposite() is Nan,
        a is Nan <==> a.size() is Nan,
        a != Decimal::Finite(i128::MIN) ==> a.opposite().opposite() == a,
        a != Decimal::Finite(i128::MIN) && b != Decimal::Finite(i128::MIN) ==> (a.lt(b)
            <==> b.opposite().lt(a.opposite())),
        a != Decimal::Finite(i128::MIN) ==> a.size() == a.opposite().size(),
        Decimal::Finite(0).le(a) ==> a.size() == a,
{
}

/// What is floored is the number itself when that is at least the floor, and
/// the floor otherwise, also when it is not a number.
pub proof fn law_floors_hold(a: Decimal, floor: i128)
    ensures
        Decimal::Finite(floor).le(a) ==> a.floored(floor) == a,
        !Decimal::Finite(floor).le(a) ==> a.floored(floor) == Decimal::Finite(floor),
{
}

/// What [`fraction_text`] puts after the point.
proof fn lemma_fraction_reads_back(n: nat, width: nat) -> (digits: Seq<char>)
    requires
        n < pow(10, width),
    ensures
        fraction_text(n, width) == if digits.len() == 0 {
            Seq::<char>::empty()
        } else {
            seq!['.'] + digits
        },
        digits.len() <= width,
        is_decimal(digits),
        digits.len() > 0 ==> digits.last() != '0',
        spelled(digits, 10) * pow(10, (width - digits.len()) as nat) == n,
    decreases width,
{
    reveal(pow);
    if n == 0 || width == 0 {
        let none = Seq::<char>::empty();
        assert(fraction_text(n, width) =~= none);
        assert(0 * pow(10, width) == 0) by (nonlinear_arith);
        none
    } else if n % 10 == 0 {
        let less = (width - 1) as nat;
        assert(pow(10, width) == 10 * pow(10, less));
        let digits = lemma_fraction_reads_back(n / 10, less);
        let (s, k) = (spelled(digits, 10), (less - digits.len()) as nat);
        assert(pow(10, k + 1) == 10 * pow(10, k));
        assert(s * pow(10, k + 1) == 10 * (s * pow(10, k))) by (nonlinear_arith)
            requires
                pow(10, k + 1) == 10 * pow(10, k),
        ;
        assert(k + 1 == width - digits.len());
        digits
    } else {
        law_a_padded_number_reads_back(n, width);
        let digits = padded_text(n, width);
        assert(pow(10, 0) == 1);
        digits
    }
}

/// A quantity is shown as its sign, its whole part and its decimals, and reads
/// back as the quantity: nothing is rounded, and nothing shown that is not
/// there.
pub proof fn law_a_quantity_reads_back(n: i128) -> (digits: (Seq<char>, Seq<char>))
    ensures
        ({
            let (whole, decimals) = digits;
            let size: int = if n < 0 {
                -n
            } else {
                n as int
            };
            &&& Decimal::Finite(n).shown() == (if n < 0 {
                seq!['-']
            } else {
                seq![]
            }) + whole + (if decimals.len() == 0 {
                Seq::<char>::empty()
            } else {
                seq!['.'] + decimals
            })
            &&& is_decimal(whole) && is_decimal(decimals)
            &&& whole.len() > 0 && decimals.len() <= 15
            &&& whole.len() > 1 ==> whole[0] != '0'
            &&& decimals.len() > 0 ==> decimals.last() != '0'
            &&& spelled(whole, 10) * 1_000_000_000_000_000 + spelled(decimals, 10) * pow(
                10,
                (15 - decimals.len()) as nat,
            ) == size
        }),
{
    let m: nat = if n < 0 {
        (-n) as nat
    } else {
        n as nat
    };
    assert(pow(10, 15) == 1_000_000_000_000_000) by {
        reveal_with_fuel(pow, 16);
    }
    law_a_decimal_number_reads_back(m / 1_000_000_000_000_000);
    let decimals = lemma_fraction_reads_back(m % 1_000_000_000_000_000, 15);
    reveal_strlit("-");
    assert("-"@ =~= seq!['-']);
    (decimal_text(m / 1_000_000_000_000_000), decimals)
}

/// What is no quantity is shown as such.
pub proof fn law_other_values_are_named()
    ensures
        Decimal::PosInfinity.shown() == "inf"@,
        Decimal::NegInfinity.shown() == "-inf"@,
        Decimal::Nan.shown() == "NaN"@,
{
}

} // verus!

//! Modbus register definitions and value coding.
//!
//! Addresses are data, not logic. Each vendor module keeps its map in one
//! place so a map can be checked against hardware without reading driver code.
use crate::decimal::{counted, Decimal, UNIT};
use crate::error::Error;
use crate::text::{append_decimal, decimal_text, lemma_mentions, magnitude, mentions, signed_text};
use vstd::arithmetic::div_mod::{lemma_fundamental_div_mod, lemma_fundamental_div_mod_converse};
use vstd::prelude::*;

verus! {

/// Which Modbus table a register lives in.
#[derive(Debug, Clone, Copy, PartialEq, Eq, Structural)]
pub enum RegKind {
    /// Read-only input registers (function 4).
    Input,
    /// Read/write holding registers (function 3/6).
    Holding,
}

/// One register, described well enough to read, decode and write it.
#[derive(Debug, Clone, Copy)]
pub struct RegisterDef {
    /// Name used in logs and error messages.
    pub name: &'static str,
    /// Modbus address.
    pub address: u16,
    /// Which table it lives in.
    pub kind: RegKind,
    /// Number of consecutive 16-bit registers occupied.
    pub words: u8,
    /// Raw-to-engineering-unit multiplier, in parts; see [`crate::decimal::UNIT`].
    pub scale: i128,
    /// Whether the raw value is two's-complement signed.
    pub signed: bool,
}

impl RegisterDef {
    /// A signed register must be one to three words wide to be decoded.
    pub open spec fn decodable(self) -> bool {
        self.signed ==> 1 <= self.words <= 3
    }

    /// Whether the register can be decoded.
    pub fn can_decode(&self) -> (r: bool)
        ensures
            r == self.decodable(),
    {
        !self.signed || (1 <= self.words && self.words <= 3)
    }

    /// A single-word unsigned input register.
    pub fn input(name: &'static str, address: u16) -> (r: Self)
        ensures
            r == (RegisterDef {
                name,
                address,
                kind: RegKind::Input,
                words: 1,
                scale: UNIT,
                signed: false,
            }),
    {
        Self { name, address, kind: RegKind::Input, words: 1, scale: UNIT, signed: false }
    }

    /// A single-word unsigned holding register.
    pub fn holding(name: &'static str, address: u16) -> (r: Self)
        ensures
            r == (RegisterDef {
                name,
                address,
                kind: RegKind::Holding,
                words: 1,
                scale: UNIT,
                signed: false,
            }),
    {
        Self { name, address, kind: RegKind::Holding, words: 1, scale: UNIT, signed: false }
    }

    /// Occupy `n` consecutive registers, most significant word first.
    pub fn words(self, n: u8) -> (r: Self)
        ensures
            r == (RegisterDef { words: n, ..self }),
    {
        Self { words: n, ..self }
    }

    /// Apply a raw-to-engineering-unit multiplier of so many parts.
    pub fn scale(self, parts: i128) -> (r: Self)
        ensures
            r == (RegisterDef { scale: parts, ..self }),
    {
        Self { scale: parts, ..self }
    }

    /// Interpret the raw value as two's-complement signed.
    pub fn signed(self) -> (r: Self)
        ensures
            r == (RegisterDef { signed: true, ..self }),
    {
        Self { signed: true, ..self }
    }
}

/// The number that `words` spell, most significant word first.
pub open spec fn big_endian(words: Seq<u16>) -> nat
    decreases words.len(),
{
    if words.len() == 0 {
        0
    } else {
        big_endian(words.drop_last()) * 0x1_0000 + words.last() as nat
    }
}

/// The low sixty-four bits of `n`, read as two's complement.
pub open spec fn low64(n: nat) -> int {
    let low: int = n as int % 0x1_0000_0000_0000_0000;
    if low >= 0x8000_0000_0000_0000 {
        low - 0x1_0000_0000_0000_0000
    } else {
        low
    }
}

/// The first number that is negative in two's complement over `words` words.
pub open spec fn sign_bit(words: u8) -> int {
    match words {
        1 => 0x8000,
        2 => 0x8000_0000,
        _ => 0x8000_0000_0000,
    }
}

/// The raw count that `words` hold for a register: the number they spell,
/// taken as two's complement over the register's width when it is signed.
pub open spec fn raw_count(reg: RegisterDef, words: Seq<u16>) -> int {
    let raw = low64(big_endian(words));
    if reg.signed && raw >= sign_bit(reg.words) {
        raw - 2 * sign_bit(reg.words)
    } else {
        raw
    }
}

/// The engineering value of `words`: the raw count times the scale, exactly,
/// and infinite when that is too large to count.
pub open spec fn decoded(reg: RegisterDef, words: Seq<u16>) -> Decimal {
    counted(raw_count(reg, words) * reg.scale)
}

/// Decode raw words into engineering units, most significant word first.
pub fn decode(reg: &RegisterDef, words: &[u16]) -> (r: Decimal)
    requires
        reg.decodable(),
    ensures
        r == decoded(*reg, words@),
{
    let mut low: u64 = 0;
    let mut i: usize = 0;
    while i < words.len()
        invariant
            i <= words.len(),
            low == big_endian(words@.take(i as int)) as int % 0x1_0000_0000_0000_0000,
        decreases words.len() - i,
    {
        proof {
            assert(words@.take(i + 1).drop_last() == words@.take(i as int));
            let b = big_endian(words@.take(i as int)) as int;
            let w = words@[i as int] as int;
            let q = b / 0x1_0000_0000_0000_0000;
            let p = low as int / 0x1_0000_0000_0000;
            let c = low as int % 0x1_0000_0000_0000;
            assert(b * 0x1_0000 + w == (q * 0x1_0000 + p) * 0x1_0000_0000_0000_0000 + (c * 0x1_0000
                + w));
            lemma_fundamental_div_mod_converse(
                b * 0x1_0000 + w,
                0x1_0000_0000_0000_0000,
                q * 0x1_0000 + p,
                c * 0x1_0000 + w,
            );
        }
        low = (low % 0x1_0000_0000_0000) * 0x1_0000 + words[i] as u64;
        i += 1;
    }
    assert(words@.take(words.len() as int) == words@);
    let raw: i128 = if low >= 0x8000_0000_0000_0000 {
        low as i128 - 0x1_0000_0000_0000_0000
    } else {
        low as i128
    };
    let half: i128 = match reg.words {
        1 => 0x8000,
        2 => 0x8000_0000,
        _ => 0x8000_0000_0000,
    };
    let count: i128 = if reg.signed && raw >= half {
        raw - 2 * half
    } else {
        raw
    };
    match count.checked_mul(reg.scale) {
        Some(parts) => Decimal::Finite(parts),
        None => {
            proof {
                let (c, s) = (count as int, reg.scale as int);
                assert((c > 0) == (s > 0) ==> c * s >= 0) by (nonlinear_arith);
                assert((c > 0) != (s > 0) ==> c * s <= 0) by (nonlinear_arith);
            }
            if (count > 0) == (reg.scale > 0) {
                Decimal::PosInfinity
            } else {
                Decimal::NegInfinity
            }
        },
    }
}

/// The integer nearest to `value / scale`, halves away from zero.
pub open spec fn nearest(value: int, scale: int) -> int
    recommends
        scale != 0,
{
    let a = if value < 0 {
        -value
    } else {
        value
    };
    let b = if scale < 0 {
        -scale
    } else {
        scale
    };
    let q = (2 * a + b) / (2 * b);
    if (value < 0) != (scale < 0) {
        -q
    } else {
        q
    }
}

/// The word that holds `raw`, in two's complement when it is negative.
pub open spec fn word_of(raw: int) -> u16 {
    (if raw < 0 {
        raw + 0x1_0000
    } else {
        raw
    }) as u16
}

/// The word to write for `value`, if the register can hold it: the register
/// is one word, the value is finite, and the nearest raw count is in range.
pub open spec fn encoded(reg: RegisterDef, value: Decimal) -> Option<u16> {
    match value {
        Decimal::Finite(v) => {
            let raw = nearest(v as int, reg.scale as int);
            if reg.words != 1 || reg.scale == 0 {
                None
            } else if reg.signed && -0x8000 <= raw <= 0x7fff {
                Some(word_of(raw))
            } else if !reg.signed && 0 <= raw <= 0xffff {
                Some(word_of(raw))
            } else {
                None
            }
        },
        _ => None,
    }
}

/// Why a register cannot hold a value.
pub open spec fn encode_fault(reg: RegisterDef, value: Decimal) -> Seq<char> {
    if reg.words != 1 {
        reg.name@ + " spans "@ + decimal_text(reg.words as nat)
            + " words; multi-word writes are not supported"@
    } else if reg.scale == 0 || !(value is Finite) {
        "value "@ + value.shown() + " is not finite for register "@ + reg.name@
    } else {
        "value "@ + value.shown() + (if reg.signed {
            " out of range for signed register "@
        } else {
            " out of range for register "@
        }) + reg.name@ + " (raw "@ + signed_text(nearest(value->Finite_0 as int, reg.scale as int))
            + (if reg.signed {
            ", valid -32768..=32767)"@
        } else {
            ", valid 0..=65535)"@
        })
    }
}

/// The nearest integer to a quotient, halves up.
fn divide_to_nearest(a: u128, b: u128) -> (q: u128)
    requires
        0 < b,
        a <= 0x8000_0000_0000_0000_0000_0000_0000_0000,
        b <= 0x8000_0000_0000_0000_0000_0000_0000_0000,
    ensures
        q == (2 * a + b) / (2 * b),
        q <= a + 1,
{
    let quotient: u128 = a / b;
    let rest: u128 = a % b;
    proof {
        let (x, y) = (a as int, b as int);
        lemma_fundamental_div_mod(x, y);
        let (q, r) = (x / y, x % y);
        assert(q <= x) by (nonlinear_arith)
            requires
                x == y * q + r,
                0 <= r,
                0 < y,
                0 <= x,
        ;
        if r >= y - r {
            assert(2 * x + y == (q + 1) * (2 * y) + (2 * r - y)) by (nonlinear_arith)
                requires
                    x == y * q + r,
            ;
            lemma_fundamental_div_mod_converse(2 * x + y, 2 * y, q + 1, 2 * r - y);
        } else {
            assert(2 * x + y == q * (2 * y) + (2 * r + y)) by (nonlinear_arith)
                requires
                    x == y * q + r,
            ;
            lemma_fundamental_div_mod_converse(2 * x + y, 2 * y, q, 2 * r + y);
        }
    }
    if rest >= b - rest {
        quotient + 1
    } else {
        quotient
    }
}

/// Encode an engineering value into a single raw word.
///
/// Rejects anything that would silently wrap: values that are not finite, and
/// values outside the register's representable range. Writing a wrapped power
/// setpoint to an inverter is exactly the class of bug this prevents.
pub fn encode(reg: &RegisterDef, value: Decimal) -> (r: Result<u16, Error>)
    ensures
        match encoded(*reg, value) {
            Some(word) => r == Ok::<u16, Error>(word),
            None => r matches Err(Error::Range(fault)) && fault@ == encode_fault(*reg, value),
        },
{
    if reg.words != 1 {
        let mut fault: String = reg.name.to_owned().concat(" spans ");
        append_decimal(&mut fault, reg.words as u128);
        fault.append(" words; multi-word writes are not supported");
        return Err(Error::Range(fault));
    }
    let finite: Option<i128> = match value {
        Decimal::Finite(v) if reg.scale != 0 => Some(v),
        _ => None,
    };
    let v: i128 = match finite {
        Some(v) => v,
        None => {
            let mut fault: String = "value ".to_owned();
            fault.append(value.text().as_str());
            fault.append(" is not finite for register ");
            fault.append(reg.name);
            return Err(Error::Range(fault));
        },
    };
    let size: u128 = divide_to_nearest(magnitude(v), magnitude(reg.scale));
    let raw_is_negative: bool = (v < 0) != (reg.scale < 0);
    let ghost raw: int = nearest(v as int, reg.scale as int);
    assert(raw == if raw_is_negative {
        -(size as int)
    } else {
        size as int
    });
    if reg.signed {
        if raw_is_negative && size <= 0x8000 {
            if size == 0 {
                return Ok(0);
            }
            return Ok((0x1_0000 - size) as u16);
        }
        if !raw_is_negative && size <= 0x7fff {
            return Ok(size as u16);
        }
    } else {
        if size == 0 || (!raw_is_negative && size <= 0xffff) {
            return Ok(size as u16);
        }
    }
    let mut fault: String = "value ".to_owned();
    fault.append(value.text().as_str());
    fault.append(
        if reg.signed {
            " out of range for signed register "
        } else {
            " out of range for register "
        },
    );
    fault.append(reg.name);
    fault.append(" (raw ");
    if raw_is_negative {
        proof {
            reveal_strlit("-");
            assert("-"@ == seq!['-']);
        }
        fault.append("-");
    }
    append_decimal(&mut fault, size);
    fault.append(
        if reg.signed {
            ", valid -32768..=32767)"
        } else {
            ", valid 0..=65535)"
        },
    );
    Err(Error::Range(fault))
}

/// The nearest count differs from the value by at most half of the scale.
pub proof fn lemma_nearest_is_near(value: int, scale: int)
    requires
        scale != 0,
    ensures
        -(if scale < 0 {
            -scale
        } else {
            scale
        }) <= 2 * (nearest(value, scale) * scale - value) <= (if scale < 0 {
            -scale
        } else {
            scale
        }),
{
    let a = if value < 0 {
        -value
    } else {
        value
    };
    let b = if scale < 0 {
        -scale
    } else {
        scale
    };
    let q = (2 * a + b) / (2 * b);
    lemma_fundamental_div_mod(2 * a + b, 2 * b);
    assert(-b <= 2 * (q * b - a) <= b) by (nonlinear_arith)
        requires
            2 * a + b == (2 * b) * q + (2 * a + b) % (2 * b),
            0 <= (2 * a + b) % (2 * b) < 2 * b,
    ;
    let n = nearest(value, scale);
    assert(n * scale == if value < 0 {
        -(q * b)
    } else {
        q * b
    }) by (nonlinear_arith)
        requires
            n == if (value < 0) != (scale < 0) {
                -q
            } else {
                q
            },
            b == if scale < 0 {
                -scale
            } else {
                scale
            },
    ;
}

/// Encoding is accurate to half a raw unit: what the written word decodes to
/// differs from the value asked for by at most half of the register's scale.
pub proof fn law_encoding_is_within_half_a_unit(reg: RegisterDef, value: i128, word: u16)
    requires
        encoded(reg, Decimal::Finite(value)) == Some(word),
    ensures
        decoded(reg, seq![word]) == counted(raw_count(reg, seq![word]) * reg.scale),
        ({
            let unit = if reg.scale < 0 {
                -reg.scale
            } else {
                reg.scale as int
            };
            -unit <= 2 * (raw_count(reg, seq![word]) * reg.scale - value) <= unit
        }),
{
    let words = seq![word];
    let n = nearest(value as int, reg.scale as int);
    assert(words.drop_last() =~= seq![]);
    assert(big_endian(seq![]) == 0);
    assert(big_endian(words) == word as nat);
    assert(raw_count(reg, words) == n);
    lemma_nearest_is_near(value as int, reg.scale as int);
}

/// Reading a one-word register and writing the value back writes the same
/// word, as long as the value can be counted.
pub proof fn law_decode_then_encode_round_trips(reg: RegisterDef, word: u16)
    requires
        reg.words == 1,
        reg.scale != 0,
        decoded(reg, seq![word]) is Finite,
    ensures
        encoded(reg, decoded(reg, seq![word])) == Some(word),
{
    let words = seq![word];
    assert(words.drop_last() =~= seq![]);
    assert(big_endian(seq![]) == 0);
    assert(big_endian(words) == word as nat);
    let raw = raw_count(reg, words);
    let s = reg.scale as int;
    let b = if s < 0 {
        -s
    } else {
        s
    };
    let m = if raw < 0 {
        -raw
    } else {
        raw
    };
    let v = raw * s;
    let a = if v < 0 {
        -v
    } else {
        v
    };
    assert(a == m * b && (v < 0 ==> ((raw < 0) != (s < 0))) && (v >= 0 ==> (raw == 0 || (raw < 0)
        == (s < 0)))) by (nonlinear_arith)
        requires
            v == raw * s,
            a == if v < 0 {
                -v
            } else {
                v
            },
            m == if raw < 0 {
                -raw
            } else {
                raw
            },
            b == if s < 0 {
                -s
            } else {
                s
            },
            s != 0,
    ;
    assert(2 * a + b == m * (2 * b) + b) by (nonlinear_arith)
        requires
            a == m * b,
    ;
    lemma_fundamental_div_mod_converse(2 * a + b, 2 * b, m, b);
    assert(nearest(v, s) == raw);
}

/// What one word stands for: its own number, or that number less 65536 when
/// the register is signed and the top bit is set.
pub open spec fn word_count(signed: bool, word: u16) -> int {
    if signed && word >= 0x8000 {
        word - 0x1_0000
    } else {
        word as int
    }
}

/// A one-word register decodes to its count times the scale: an unsigned word
/// is its own number, and a signed one with the top bit set is that number less
/// 65536.
pub proof fn law_one_word_decodes_to_its_count(reg: RegisterDef, word: u16)
    requires
        reg.words == 1,
    ensures
        !reg.signed || word < 0x8000 ==> decoded(reg, seq![word]) == counted(word * reg.scale),
        reg.signed && word >= 0x8000 ==> decoded(reg, seq![word]) == counted(
            (word - 65536) * reg.scale,
        ),
{
    let words = seq![word];
    assert(words.drop_last() =~= seq![]);
    assert(big_endian(seq![]) == 0);
    assert(big_endian(words) == word as nat);
}

/// Two words decode with the first as the more significant, in two's complement
/// when the register is signed.
pub proof fn law_two_words_decode_to_their_count(reg: RegisterDef, high: u16, low: u16)
    requires
        reg.words == 2,
    ensures
        !reg.signed || high < 0x8000 ==> decoded(reg, seq![high, low]) == counted(
            (high * 65536 + low) * reg.scale,
        ),
        reg.signed && high >= 0x8000 ==> decoded(reg, seq![high, low]) == counted(
            (high * 65536 + low - 4294967296) * reg.scale,
        ),
{
    let words = seq![high, low];
    assert(words.drop_last() =~= seq![high]);
    assert(seq![high].drop_last() =~= seq![]);
    assert(big_endian(seq![]) == 0);
    assert(big_endian(seq![high]) == high as nat);
    assert(big_endian(words) == high * 65536 + low);
}

/// Three words decode likewise.
pub proof fn law_three_words_decode_to_their_count(reg: RegisterDef, high: u16, mid: u16, low: u16)
    requires
        reg.words == 3,
    ensures
        !reg.signed || high < 0x8000 ==> decoded(reg, seq![high, mid, low]) == counted(
            ((high * 65536 + mid) * 65536 + low) * reg.scale,
        ),
        reg.signed && high >= 0x8000 ==> decoded(reg, seq![high, mid, low]) == counted(
            ((high * 65536 + mid) * 65536 + low - 281474976710656) * reg.scale,
        ),
{
    let words = seq![high, mid, low];
    assert(words.drop_last() =~= seq![high, mid]);
    assert(seq![high, mid].drop_last() =~= seq![high]);
    assert(seq![high].drop_last() =~= seq![]);
    assert(big_endian(seq![]) == 0);
    assert(big_endian(seq![high]) == high as nat);
    assert(big_endian(seq![high, mid]) == high * 65536 + mid);
    assert(big_endian(words) == (high * 65536 + mid) * 65536 + low);
}

/// Four words decode likewise, as sixty-four bits in two's complement.
pub proof fn law_four_words_decode_to_their_count(
    reg: RegisterDef,
    first: u16,
    second: u16,
    third: u16,
    fourth: u16,
)
    requires
        reg.words == 4,
        !reg.signed,
    ensures
        ({
            let n = ((first * 65536 + second) * 65536 + third) * 65536 + fourth;
            decoded(reg, seq![first, second, third, fourth]) == counted(
                (if first < 0x8000 {
                    n
                } else {
                    n - 18446744073709551616
                }) * reg.scale,
            )
        }),
{
    let words = seq![first, second, third, fourth];
    assert(words.drop_last() =~= seq![first, second, third]);
    assert(seq![first, second, third].drop_last() =~= seq![first, second]);
    assert(seq![first, second].drop_last() =~= seq![first]);
    assert(seq![first].drop_last() =~= seq![]);
    assert(big_endian(seq![]) == 0);
    assert(big_endian(seq![first]) == first as nat);
    assert(big_endian(seq![first, second]) == first * 65536 + second);
    assert(big_endian(seq![first, second, third]) == (first * 65536 + second) * 65536 + third);
}

/// The first of more than four words counts for nothing below the sixty-fourth
/// bit.
proof fn lemma_leading_word_falls_out(words: Seq<u16>) -> (k: int)
    requires
        words.len() > 4,
    ensures
        big_endian(words) == k * 0x1_0000_0000_0000_0000 + big_endian(words.skip(1)),
    decreases words.len(),
{
    let front = words.drop_last();
    let rest = words.skip(1);
    assert(rest.drop_last() =~= front.skip(1));
    assert(rest.last() == words.last());
    if words.len() == 5 {
        assert(front.drop_last().drop_last().drop_last().drop_last() =~= seq![]);
        let tail = front.skip(1);
        assert(tail.drop_last().drop_last().drop_last() =~= seq![]);
        assert(tail.last() == front.last());
        assert(tail.drop_last().last() == front.drop_last().last());
        assert(tail.drop_last().drop_last().last() == front.drop_last().drop_last().last());
        reveal_with_fuel(big_endian, 5);
        words[0] as int
    } else {
        let k = lemma_leading_word_falls_out(front);
        k * 0x1_0000
    }
}

/// Of more words than four, only the last four count.
pub proof fn law_only_the_last_four_words_count(reg: RegisterDef, words: Seq<u16>)
    requires
        words.len() > 4,
    ensures
        decoded(reg, words) == decoded(reg, words.skip(1)),
{
    let k = lemma_leading_word_falls_out(words);
    let (b, c) = (big_endian(words) as int, big_endian(words.skip(1)) as int);
    let m = 0x1_0000_0000_0000_0000int;
    assert(b % m == c % m) by {
        vstd::arithmetic::div_mod::lemma_mod_multiples_vanish(k, c, m);
        assert(k * m + c == m * k + c);
    }
}

/// `count` times `scale` is nearest to `value`: within half of the scale, and
/// the further from zero of two that are equally near.
pub open spec fn is_nearest(count: int, scale: int, value: int) -> bool {
    let unit = if scale < 0 {
        -scale
    } else {
        scale
    };
    let off = 2 * (count * scale - value);
    ||| -unit < off < unit
    ||| off == unit && value > 0
    ||| off == -unit && value < 0
}

/// A nearest count is the count that [`nearest`] gives.
proof fn lemma_nearest_is_unique(count: int, scale: int, value: int)
    requires
        scale != 0,
        is_nearest(count, scale, value),
    ensures
        nearest(value, scale) == count,
{
    let b = if scale < 0 {
        -scale
    } else {
        scale
    };
    let a = if value < 0 {
        -value
    } else {
        value
    };
    // The count as it goes with the sizes.
    let c = if (value < 0) != (scale < 0) {
        -count
    } else {
        count
    };
    let off = 2 * (c * b - a);
    assert(off == if value < 0 {
        -(2 * (count * scale - value))
    } else {
        2 * (count * scale - value)
    }) by (nonlinear_arith)
        requires
            off == 2 * (c * b - a),
            c == if (value < 0) != (scale < 0) {
                -count
            } else {
                count
            },
            b == if scale < 0 {
                -scale
            } else {
                scale
            },
            a == if value < 0 {
                -value
            } else {
                value
            },
    ;
    assert(-b < off <= b);
    let rest = 2 * a + b - c * (2 * b);
    assert(rest == b - off) by (nonlinear_arith)
        requires
            rest == 2 * a + b - c * (2 * b),
            off == 2 * (c * b - a),
    ;
    assert(0 <= rest < 2 * b);
    lemma_fundamental_div_mod_converse(2 * a + b, 2 * b, c, rest);
}

/// What [`nearest`] gives is nearest.
proof fn lemma_nearest_is_nearest(scale: int, value: int)
    requires
        scale != 0,
    ensures
        is_nearest(nearest(value, scale), scale, value),
{
    let b = if scale < 0 {
        -scale
    } else {
        scale
    };
    let a = if value < 0 {
        -value
    } else {
        value
    };
    let q = (2 * a + b) / (2 * b);
    let m = (2 * a + b) % (2 * b);
    lemma_fundamental_div_mod(2 * a + b, 2 * b);
    let n = nearest(value, scale);
    let off = 2 * (n * scale - value);
    assert(off == if value < 0 {
        -(b - m)
    } else {
        b - m
    }) by (nonlinear_arith)
        requires
            2 * a + b == (2 * b) * q + m,
            off == 2 * (n * scale - value),
            n == if (value < 0) != (scale < 0) {
                -q
            } else {
                q
            },
            b == if scale < 0 {
                -scale
            } else {
                scale
            },
            a == if value < 0 {
                -value
            } else {
                value
            },
    ;
    assert(0 <= m < 2 * b);
    if value == 0 {
        assert(a == 0);
        assert(q == 0 && m == b) by {
            lemma_fundamental_div_mod_converse(b, 2 * b, 0, b);
        }
    }
}

/// A value is encoded exactly when the count nearest to it fits the register:
/// sixteen bits, with a sign or without. The word then stands for that count.
pub proof fn law_a_value_is_encoded_as_its_nearest_count(
    reg: RegisterDef,
    value: i128,
    count: int,
)
    requires
        reg.words == 1,
        reg.scale != 0,
        is_nearest(count, reg.scale as int, value as int),
    ensures
        reg.signed && -32768 <= count <= 32767 || !reg.signed && 0 <= count <= 65535 ==> (encoded(
            reg,
            Decimal::Finite(value),
        ) matches Some(word) && word_count(reg.signed, word) == count),
        reg.signed && !(-32768 <= count <= 32767) || !reg.signed && !(0 <= count <= 65535)
            ==> encoded(reg, Decimal::Finite(value)) is None,
{
    lemma_nearest_is_unique(count, reg.scale as int, value as int);
}

/// An encoded word stands for the count nearest to the value.
pub proof fn law_an_encoded_word_is_nearest(reg: RegisterDef, value: Decimal, word: u16)
    requires
        encoded(reg, value) == Some(word),
    ensures
        reg.words == 1,
        reg.scale != 0,
        value matches Decimal::Finite(v) && is_nearest(
            word_count(reg.signed, word),
            reg.scale as int,
            v as int,
        ),
{
    lemma_nearest_is_nearest(reg.scale as int, value->Finite_0 as int);
}

/// A refusal to encode names the register, and the value that it cannot hold.
pub proof fn law_a_refused_value_is_named(reg: RegisterDef, value: Decimal)
    ensures
        mentions(encode_fault(reg, value), reg.name@),
        reg.words == 1 ==> mentions(encode_fault(reg, value), value.shown()),
{
    let text = encode_fault(reg, value);
    let none = Seq::<char>::empty();
    if reg.words != 1 {
        let rest = " spans "@ + decimal_text(reg.words as nat)
            + " words; multi-word writes are not supported"@;
        assert(text =~= none + reg.name@ + rest);
        lemma_mentions(text, none, reg.name@, rest);
    } else if reg.scale == 0 || !(value is Finite) {
        let middle = " is not finite for register "@;
        assert(text =~= ("value "@ + value.shown() + middle) + reg.name@ + none);
        lemma_mentions(text, "value "@ + value.shown() + middle, reg.name@, none);
        assert(text =~= "value "@ + value.shown() + (middle + reg.name@));
        lemma_mentions(text, "value "@, value.shown(), middle + reg.name@);
    } else {
        let middle = if reg.signed {
            " out of range for signed register "@
        } else {
            " out of range for register "@
        };
        let rest = " (raw "@ + signed_text(nearest(value->Finite_0 as int, reg.scale as int)) + (
        if reg.signed {
            ", valid -32768..=32767)"@
        } else {
            ", valid 0..=65535)"@
        });
        assert(text =~= ("value "@ + value.shown() + middle) + reg.name@ + rest);
        lemma_mentions(text, "value "@ + value.shown() + middle, reg.name@, rest);
        assert(text =~= "value "@ + value.shown() + (middle + reg.name@ + rest));
        lemma_mentions(text, "value "@, value.shown(), middle + reg.name@ + rest);
    }
}

} // verus!

//! Building the crate's messages.
//!
//! Every message is specified character by character: the specification
//! functions here say what a number looks like in decimal and hexadecimal, and
//! the executable functions append exactly that to a `String`.
use vstd::arithmetic::power::pow;
use vstd::prelude::*;

verus! {

/// The digit `d` of a number written in base sixteen or less, in lower case.
pub open spec fn digit_char(d: nat) -> char
    recommends
        d < 16,
{
    if d < 10 {
        ('0' as u8 + d) as char
    } else {
        ('a' as u8 + (d - 10)) as char
    }
}

/// `n` in decimal, without leading zeroes.
pub open spec fn decimal_text(n: nat) -> Seq<char>
    decreases n,
{
    if n < 10 {
        seq![digit_char(n)]
    } else {
        decimal_text(n / 10).push(digit_char(n % 10))
    }
}

/// `n` in decimal, with a leading `-` when it is negative.
pub open spec fn signed_text(n: int) -> Seq<char> {
    if n < 0 {
        seq!['-'] + decimal_text((-n) as nat)
    } else {
        decimal_text(n as nat)
    }
}

/// `n` in lower-case hexadecimal, padded with zeroes to at least `width` digits.
pub open spec fn hex_text(n: nat, width: nat) -> Seq<char>
    decreases n, width,
{
    if n < 16 && width <= 1 {
        seq![digit_char(n)]
    } else if width == 0 {
        hex_text(n / 16, 0).push(digit_char(n % 16))
    } else {
        hex_text(n / 16, (width - 1) as nat).push(digit_char(n % 16))
    }
}

/// `n` in decimal, padded with zeroes to exactly `width` digits.
pub open spec fn padded_text(n: nat, width: nat) -> Seq<char>
    decreases width,
{
    if width == 0 {
        seq![]
    } else {
        padded_text(n / 10, (width - 1) as nat).push(digit_char(n % 10))
    }
}

/// Bytes as a bracketed, comma-separated list of two-digit hexadecimal numbers.
pub open spec fn byte_list_text(bytes: Seq<u8>) -> Seq<char> {
    seq!['['] + byte_items_text(bytes) + seq![']']
}

/// The items of [`byte_list_text`], without the brackets.
pub open spec fn byte_items_text(bytes: Seq<u8>) -> Seq<char>
    decreases bytes.len(),
{
    if bytes.len() == 0 {
        seq![]
    } else if bytes.len() == 1 {
        hex_text(bytes[0] as nat, 2)
    } else {
        byte_items_text(bytes.drop_last()) + seq![',', ' '] + hex_text(bytes.last() as nat, 2)
    }
}

/// Append one digit.
fn append_digit(out: &mut String, digit: u8)
    requires
        digit < 16,
    ensures
        final(out)@ == old(out)@.push(digit_char(digit as nat)),
{
    let text: &'static str = match digit {
        0 => "0",
        1 => "1",
        2 => "2",
        3 => "3",
        4 => "4",
        5 => "5",
        6 => "6",
        7 => "7",
        8 => "8",
        9 => "9",
        10 => "a",
        11 => "b",
        12 => "c",
        13 => "d",
        14 => "e",
        _ => "f",
    };
    proof {
        reveal_strlit("0");
        reveal_strlit("1");
        reveal_strlit("2");
        reveal_strlit("3");
        reveal_strlit("4");
        reveal_strlit("5");
        reveal_strlit("6");
        reveal_strlit("7");
        reveal_strlit("8");
        reveal_strlit("9");
        reveal_strlit("a");
        reveal_strlit("b");
        reveal_strlit("c");
        reveal_strlit("d");
        reveal_strlit("e");
        reveal_strlit("f");
    }
    assert(text@ == seq![digit_char(digit as nat)]);
    out.append(text);
}

/// Append `n` in decimal.
pub fn append_decimal(out: &mut String, n: u128)
    ensures
        final(out)@ == old(out)@ + decimal_text(n as nat),
    decreases n,
{
    if n >= 10 {
        append_decimal(out, n / 10);
    }
    append_digit(out, (n % 10) as u8);
}

/// The absolute value of `n`.
pub fn magnitude(n: i128) -> (m: u128)
    ensures
        m == (if n < 0 {
            -n
        } else {
            n as int
        }),
{
    if n == i128::MIN {
        0x8000_0000_0000_0000_0000_0000_0000_0000u128
    } else if n < 0 {
        (-n) as u128
    } else {
        n as u128
    }
}

/// Append `n` in hexadecimal, padded to `width` digits.
pub fn append_hex(out: &mut String, n: u16, width: u8)
    ensures
        final(out)@ == old(out)@ + hex_text(n as nat, width as nat),
    decreases n, width,
{
    if n >= 16 || width > 1 {
        append_hex(
            out,
            n / 16,
            if width == 0 {
                0
            } else {
                width - 1
            },
        );
    }
    append_digit(out, (n % 16) as u8);
}

/// Append `n` in decimal, padded to exactly `width` digits.
pub fn append_padded(out: &mut String, n: u128, width: u8)
    ensures
        final(out)@ == old(out)@ + padded_text(n as nat, width as nat),
    decreases width,
{
    if width > 0 {
        append_padded(out, n / 10, width - 1);
        append_digit(out, (n % 10) as u8);
    }
}

/// Append bytes as a list of hexadecimal numbers.
pub fn append_byte_list(out: &mut String, bytes: &[u8])
    ensures
        final(out)@ == old(out)@ + byte_list_text(bytes@),
{
    proof {
        reveal_strlit("[");
        reveal_strlit(", ");
        reveal_strlit("]");
        assert("["@ == seq!['[']);
        assert(", "@ == seq![',', ' ']);
        assert("]"@ == seq![']']);
    }
    let ghost before = out@;
    out.append("[");
    let mut i: usize = 0;
    while i < bytes.len()
        invariant
            i <= bytes.len(),
            out@ == before + seq!['['] + byte_items_text(bytes@.take(i as int)),
            ", "@ == seq![',', ' '],
        decreases bytes.len() - i,
    {
        if i > 0 {
            out.append(", ");
        }
        append_hex(out, bytes[i] as u16, 2);
        proof {
            assert(bytes@.take(i + 1).drop_last() == bytes@.take(i as int));
            assert(bytes@.take(0) == Seq::<u8>::empty());
        }
        i += 1;
    }
    assert(bytes@.take(bytes.len() as int) == bytes@);
    out.append("]");
}

/// Whether two strings hold the same characters.
pub fn same_text(a: &str, b: &str) -> (r: bool)
    ensures
        r == (a@ == b@),
{
    a.to_owned() == b.to_owned()
}

/// What the standard library prints for a string under `{:?}`: the string in
/// double quotes, with quotes, control characters and the like escaped.
pub uninterp spec fn str_debug_text(s: Seq<char>) -> Seq<char>;

/// The string's `Debug` form, from `<str as std::fmt::Debug>::fmt`.
///
/// The contract gives the text a name, [`str_debug_text`], and says only that
/// it depends on nothing but the characters of `s`; which characters are
/// escaped, and how, is left to the standard library.
#[verifier::external_body]
pub(crate) fn debug_str(s: &str) -> (r: String)
    ensures
        r@ == str_debug_text(s@),
{
    format!("{s:?}")
}

/// The number that a hexadecimal digit stands for.
pub open spec fn hex_digit_value(c: char) -> int {
    if '0' <= c <= '9' {
        c as int - '0' as int
    } else {
        c as int - 'a' as int + 10
    }
}

/// The number that digits spell in a base.
pub open spec fn spelled(digits: Seq<char>, base: int) -> int
    decreases digits.len(),
{
    if digits.len() == 0 {
        0
    } else {
        spelled(digits.drop_last(), base) * base + hex_digit_value(digits.last())
    }
}

/// `s` is decimal digits.
pub open spec fn is_decimal(s: Seq<char>) -> bool {
    forall|i: int| 0 <= i < s.len() ==> '0' <= #[trigger] s[i] <= '9'
}

/// A digit stands for its number.
proof fn lemma_digit(d: nat)
    requires
        d < 16,
    ensures
        hex_digit_value(digit_char(d)) == d,
        d < 10 ==> '0' <= digit_char(d) <= '9',
        d >= 10 ==> 'a' <= digit_char(d) <= 'f',
        d > 0 ==> digit_char(d) != '0',
{
}

/// A number in decimal reads back as the number, and has no leading zero.
pub proof fn law_a_decimal_number_reads_back(n: nat)
    ensures
        spelled(decimal_text(n), 10) == n,
        is_decimal(decimal_text(n)),
        decimal_text(n).len() > 0,
        n > 0 ==> decimal_text(n)[0] != '0',
        n == 0 ==> decimal_text(n).len() == 1,
    decreases n,
{
    let text = decimal_text(n);
    if n < 10 {
        lemma_digit(n);
        assert(text.drop_last() =~= Seq::<char>::empty());
        assert(spelled(text.drop_last(), 10) == 0);
    } else {
        law_a_decimal_number_reads_back(n / 10);
        lemma_digit(n % 10);
        assert(text.drop_last() =~= decimal_text(n / 10));
        assert forall|i: int| 0 <= i < text.len() implies '0' <= #[trigger] text[i] <= '9' by {
            if i < text.len() - 1 {
                assert(text[i] == decimal_text(n / 10)[i]);
            }
        }
    }
}

/// A signed number in decimal is the number without its sign, after a minus when
/// it is negative.
pub proof fn law_a_signed_number_shows_its_sign(n: int)
    ensures
        n >= 0 ==> signed_text(n) == decimal_text(n as nat),
        n < 0 ==> signed_text(n) == seq!['-'] + decimal_text((-n) as nat),
{
}

/// A number in hexadecimal reads back as the number, has at least the digits
/// asked for, and no leading zero beyond those.
pub proof fn law_a_hexadecimal_number_reads_back(n: nat, width: nat)
    ensures
        spelled(hex_text(n, width), 16) == n,
        hex_text(n, width).len() >= width,
        hex_text(n, width).len() > 0,
        hex_text(n, width).len() > width && n > 0 ==> hex_text(n, width)[0] != '0',
    decreases n, width,
{
    let text = hex_text(n, width);
    if n < 16 && width <= 1 {
        lemma_digit(n);
        assert(text.drop_last() =~= Seq::<char>::empty());
        assert(spelled(text.drop_last(), 16) == 0);
    } else {
        let rest = if width == 0 {
            0nat
        } else {
            (width - 1) as nat
        };
        law_a_hexadecimal_number_reads_back(n / 16, rest);
        lemma_digit(n % 16);
        assert(text.drop_last() =~= hex_text(n / 16, rest));
        assert(text[0] == hex_text(n / 16, rest)[0]);
        if n / 16 == 0 {
            lemma_zeroes_are_as_many_as_asked_for(rest);
        }
    }
}

/// Zero in hexadecimal has as many digits as asked for, and one at least.
proof fn lemma_zeroes_are_as_many_as_asked_for(width: nat)
    ensures
        hex_text(0, width).len() == (if width == 0 {
            1
        } else {
            width
        }),
    decreases width,
{
    if width > 1 {
        lemma_zeroes_are_as_many_as_asked_for((width - 1) as nat);
    }
}

/// A padded number has as many digits as asked for, and reads back as the number
/// when that has no more.
pub proof fn law_a_padded_number_reads_back(n: nat, width: nat)
    requires
        n < pow(10, width),
    ensures
        spelled(padded_text(n, width), 10) == n,
        padded_text(n, width).len() == width,
        is_decimal(padded_text(n, width)),
        width > 0 ==> (padded_text(n, width).last() == '0' <==> n % 10 == 0),
    decreases width,
{
    let text = padded_text(n, width);
    reveal(pow);
    if width > 0 {
        assert(pow(10, width) == 10 * pow(10, (width - 1) as nat));
        law_a_padded_number_reads_back(n / 10, (width - 1) as nat);
        lemma_digit(n % 10);
        assert(text.drop_last() =~= padded_text(n / 10, (width - 1) as nat));
        assert forall|i: int| 0 <= i < text.len() implies '0' <= #[trigger] text[i] <= '9' by {
            if i < text.len() - 1 {
                assert(text[i] == padded_text(n / 10, (width - 1) as nat)[i]);
            }
        }
    }
}

/// A byte in hexadecimal has two digits.
proof fn lemma_a_byte_has_two_digits(byte: u8)
    ensures
        hex_text(byte as nat, 2).len() == 2,
        hex_digit_value(hex_text(byte as nat, 2)[0]) == byte / 16,
        hex_digit_value(hex_text(byte as nat, 2)[1]) == byte % 16,
{
    let n = byte as nat;
    reveal_with_fuel(hex_text, 3);
    lemma_digit(n / 16);
    lemma_digit(n % 16);
    assert(hex_text(n / 16, 1) == seq![digit_char(n / 16)]);
}

/// Where the digits of each byte stand among the items.
proof fn lemma_items_stand_in_order(bytes: Seq<u8>, i: int)
    requires
        bytes.len() > 0,
    ensures
        byte_items_text(bytes).len() == 4 * bytes.len() - 2,
        0 <= i < bytes.len() ==> hex_digit_value(byte_items_text(bytes)[4 * i]) == bytes[i] / 16
            && hex_digit_value(byte_items_text(bytes)[4 * i + 1]) == bytes[i] % 16,
        0 <= i < bytes.len() - 1 ==> byte_items_text(bytes)[4 * i + 2] == ','
            && byte_items_text(bytes)[4 * i + 3] == ' ',
    decreases bytes.len(),
{
    lemma_a_byte_has_two_digits(bytes.last());
    if bytes.len() > 1 {
        lemma_items_stand_in_order(bytes.drop_last(), i);
        let front = byte_items_text(bytes.drop_last());
        let last = hex_text(bytes.last() as nat, 2);
        let all = byte_items_text(bytes);
        assert(all == front + seq![',', ' '] + last);
        if i == bytes.len() - 1 {
            assert(all[4 * i] == last[0] && all[4 * i + 1] == last[1]);
        } else if 0 <= i < bytes.len() - 1 {
            assert(all[4 * i] == front[4 * i] && all[4 * i + 1] == front[4 * i + 1]);
            if i == bytes.len() - 2 {
                assert(all[4 * i + 2] == ',' && all[4 * i + 3] == ' ');
            } else {
                assert(all[4 * i + 2] == front[4 * i + 2] && all[4 * i + 3] == front[4 * i + 3]);
            }
        }
    }
}

/// A list of bytes shows every byte in order, in two digits each, between
/// brackets and with a comma and a space in between.
pub proof fn law_a_byte_list_shows_every_byte(bytes: Seq<u8>, i: int)
    requires
        0 <= i < bytes.len(),
    ensures
        ({
            let text = byte_list_text(bytes);
            &&& text.len() == 4 * bytes.len()
            &&& text[0] == '[' && text.last() == ']'
            &&& hex_digit_value(text[4 * i + 1]) * 16 + hex_digit_value(text[4 * i + 2])
                == bytes[i]
            &&& i < bytes.len() - 1 ==> text[4 * i + 3] == ',' && text[4 * i + 4] == ' '
        }),
{
    lemma_items_stand_in_order(bytes, i);
    let items = byte_items_text(bytes);
    let text = byte_list_text(bytes);
    assert(text[4 * i + 1] == items[4 * i] && text[4 * i + 2] == items[4 * i + 1]);
    if i < bytes.len() - 1 {
        assert(text[4 * i + 3] == items[4 * i + 2] && text[4 * i + 4] == items[4 * i + 3]);
    }
}

/// `part` stands somewhere in `text`.
pub open spec fn mentions(text: Seq<char>, part: Seq<char>) -> bool {
    exists|k: int|
        0 <= k <= text.len() - part.len() && #[trigger] text.subrange(k, k + part.len()) == part
}

/// A text mentions what it is made of.
pub proof fn lemma_mentions(text: Seq<char>, before: Seq<char>, part: Seq<char>, after: Seq<char>)
    requires
        text == before + part + after,
    ensures
        mentions(text, part),
{
    let k = before.len() as int;
    assert(text.subrange(k, k + part.len()) =~= part);
}

} // verus!

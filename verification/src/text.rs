//! Helpers on text: comparing, slicing and reading it character by
//! character.

use vstd::prelude::*;
use vstd::std_specs::iter::IteratorSpec;

verus! {

/// The characters of `text`, in order.
pub fn chars_of(text: &str) -> (chars: Vec<char>)
    ensures
        chars@ == text@,
{
    broadcast use vstd::string::group_string_axioms;

    let mut chars: Vec<char> = Vec::new();
    let mut rest = text.chars();
    loop
        invariant
            chars@ + rest.remaining() == text@,
            rest.obeys_prophetic_iter_laws(),
        decreases text@.len() - chars@.len(),
    {
        match rest.next() {
            Some(c) => {
                assert(chars@.push(c) + rest.remaining() =~= text@);
                chars.push(c);
            },
            None => {
                assert(chars@ =~= text@);
                return chars;
            },
        }
    }
}

/// Whether `a` and `b` hold the same characters.
pub fn same_text(a: &str, b: &str) -> (same: bool)
    ensures
        same == (a@ == b@),
{
    broadcast use vstd::string::group_string_axioms;

    let mut left = a.chars();
    let mut right = b.chars();
    let ghost mut seen: Seq<char> = Seq::empty();
    assert(seen + left.remaining() =~= a@);
    assert(seen + right.remaining() =~= b@);
    loop
        invariant
            seen + left.remaining() == a@,
            seen + right.remaining() == b@,
            left.obeys_prophetic_iter_laws(),
            right.obeys_prophetic_iter_laws(),
        decreases a@.len() - seen.len(),
    {
        let x = left.next();
        let y = right.next();
        match (x, y) {
            (Some(c), Some(d)) => {
                if c != d {
                    assert(a@[seen.len() as int] == c);
                    assert(b@[seen.len() as int] == d);
                    return false;
                }
                proof {
                    assert(seen.push(c) + left.remaining() =~= a@);
                    assert(seen.push(c) + right.remaining() =~= b@);
                    seen = seen.push(c);
                }
            },
            (None, None) => {
                assert(a@ =~= seen);
                assert(b@ =~= seen);
                return true;
            },
            (Some(_), None) => {
                assert(a@.len() > b@.len());
                return false;
            },
            (None, Some(_)) => {
                assert(a@.len() < b@.len());
                return false;
            },
        }
    }
}

/// The characters of `text` from position `from` up to, not including,
/// position `to`, as a string of its own. Positions count characters, and
/// `from` is no greater than `to`, which is no greater than the length of
/// `text`.
pub fn piece(text: &str, from: usize, to: usize) -> (part: String)
    requires
        from <= to <= text@.len(),
    ensures
        part@ == text@.subrange(from as int, to as int),
{
    String::from_str(text.substring_char(from, to))
}

/// The upper-case form of `text` under the case mapping of Unicode.
pub uninterp spec fn upper_case(text: Seq<char>) -> Seq<char>;

/// Brings `text` to upper case.
///
/// This calls `str::to_uppercase` of the standard library and is not
/// verified: that its result is the upper-case form of its argument, and
/// nothing else, is taken on trust.
#[verifier::external_body]
pub(crate) fn to_upper_case(text: &str) -> (upper: String)
    ensures
        upper@ == upper_case(text@),
{
    text.to_uppercase()
}

/// Whether `c` is one of the digits `0` to `9`.
pub open spec fn is_digit(c: char) -> bool {
    '0' <= c <= '9'
}

/// The number that the digits `digits` write in decimal.
pub open spec fn digits_value(digits: Seq<char>) -> int
    decreases digits.len(),
{
    if digits.len() == 0 {
        0
    } else {
        10 * digits_value(digits.drop_last()) + (digits.last() as int - '0' as int)
    }
}

/// Whether `text` begins with a sign, `+` or `-`.
pub open spec fn has_sign(text: Seq<char>) -> bool {
    text.len() > 0 && (text[0] == '-' || text[0] == '+')
}

/// What follows the sign of `text`, or all of `text` if it has none.
pub open spec fn unsigned_part(text: Seq<char>) -> Seq<char> {
    if has_sign(text) {
        text.skip(1)
    } else {
        text
    }
}

/// Whether `text` holds digits and nothing else.
pub open spec fn all_digits(text: Seq<char>) -> bool {
    forall|i: int| 0 <= i < text.len() ==> is_digit(#[trigger] text[i])
}

/// The 16-bit number that `text` writes, if it writes one: an optional
/// sign `+` or `-`, then one or more digits and nothing else, with a value
/// from -32768 to 32767.
pub open spec fn number_spec(text: Seq<char>) -> Option<i16> {
    let digits = unsigned_part(text);
    let value = if text.len() > 0 && text[0] == '-' {
        -digits_value(digits)
    } else {
        digits_value(digits)
    };
    if digits.len() > 0 && all_digits(digits) && -32768 <= value <= 32767 {
        Some(value as i16)
    } else {
        None
    }
}

/// A bound that no digit string of a 16-bit number reaches.
const TOO_LARGE: i32 = 100_000;

/// Reads `text` as a 16-bit number in decimal, if it is one.
pub fn parse_number(text: &str) -> (number: Option<i16>)
    ensures
        number == number_spec(text@),
{
    let chars = chars_of(text);
    let n = chars.len();
    if n == 0 {
        return None;
    }
    let negative = chars[0] == '-';
    let start: usize = if chars[0] == '-' || chars[0] == '+' {
        1
    } else {
        0
    };
    if start == n {
        return None;
    }
    let ghost digits = unsigned_part(text@);
    let mut magnitude: i32 = 0;
    let mut i: usize = start;
    while i < n
        invariant
            start <= i <= n,
            n == text@.len(),
            chars@ == text@,
            digits == unsigned_part(text@),
            start == if has_sign(text@) { 1int } else { 0int },
            forall|j: int| 0 <= j < i - start ==> is_digit(#[trigger] digits[j]),
            0 <= magnitude <= TOO_LARGE,
            magnitude == if digits_value(digits.take(i - start)) < TOO_LARGE {
                digits_value(digits.take(i - start))
            } else {
                TOO_LARGE as int
            },
        decreases n - i,
    {
        let c = chars[i];
        assert(digits[i - start] == c);
        if !(c >= '0' && c <= '9') {
            assert(!is_digit(digits[i - start]));
            return None;
        }
        let digit: i32 = (c as u32 - '0' as u32) as i32;
        proof {
            let longer = digits.take(i - start + 1);
            assert(longer.drop_last() =~= digits.take(i - start));
            assert(longer.last() == c);
        }
        magnitude = if magnitude * 10 + digit >= TOO_LARGE {
            TOO_LARGE
        } else {
            magnitude * 10 + digit
        };
        i += 1;
    }
    assert(digits.take(n - start) =~= digits);
    if negative {
        if magnitude <= 32768 {
            Some((-magnitude) as i16)
        } else {
            None
        }
    } else {
        if magnitude <= 32767 {
            Some(magnitude as i16)
        } else {
            None
        }
    }
}

/// The character that writes the digit `d`.
pub open spec fn digit_char(d: int) -> char
    recommends
        0 <= d <= 9,
{
    ('0' as int + d) as char
}

/// The digits that write `n` in decimal, without leading zeros.
pub open spec fn natural_text(n: nat) -> Seq<char>
    decreases n,
{
    if n < 10 {
        seq![digit_char(n as int)]
    } else {
        natural_text(n / 10).push(digit_char(n as int % 10))
    }
}

/// The text that writes `n` in decimal: its digits, after a `-` if it is
/// negative.
pub open spec fn number_text(n: int) -> Seq<char> {
    if n < 0 {
        seq!['-'] + natural_text((-n) as nat)
    } else {
        natural_text(n as nat)
    }
}

/// The text of the digit `d`.
fn digit_text(d: u32) -> (text: &'static str)
    requires
        d <= 9,
    ensures
        text@ == seq![digit_char(d as int)],
{
    let text = if d == 0 {
        "0"
    } else if d == 1 {
        "1"
    } else if d == 2 {
        "2"
    } else if d == 3 {
        "3"
    } else if d == 4 {
        "4"
    } else if d == 5 {
        "5"
    } else if d == 6 {
        "6"
    } else if d == 7 {
        "7"
    } else if d == 8 {
        "8"
    } else {
        "9"
    };
    proof {
        reveal_strlit("0");
        reveal_strlit("1");
        reveal_strlit("2");
        reveal_strlit("3");
        reveal_strlit("4");
        reveal_strlit("5");
        reveal_strlit("6");
        reveal_strlit("7");
        reveal_strlit("8");
        reveal_strlit("9");
        assert(text@ =~= seq![digit_char(d as int)]);
    }
    text
}

/// Adds the digits of `n` to `text`.
fn append_natural(text: &mut String, n: u32)
    ensures
        final(text)@ == old(text)@ + natural_text(n as nat),
    decreases n,
{
    if n >= 10 {
        append_natural(text, n / 10);
    }
    text.append(digit_text(n % 10));
    assert(text@ =~= old(text)@ + natural_text(n as nat));
}

/// Writes `n` in decimal.
pub fn number_to_text(n: i16) -> (text: String)
    ensures
        text@ == number_text(n as int),
{
    let mut text = String::new();
    if n < 0 {
        text.append("-");
        proof {
            reveal_strlit("-");
            assert(text@ =~= seq!['-']);
        }
        append_natural(&mut text, (-(n as i32)) as u32);
    } else {
        append_natural(&mut text, n as u32);
        assert(text@ =~= natural_text(n as nat));
    }
    text
}

} // verus!

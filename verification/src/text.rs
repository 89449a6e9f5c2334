//! Text primitives used by every rule: the ordering of strings, the reading
//! of decimal integers and their rendering.

use vstd::prelude::*;
use vstd::std_specs::iter::IteratorSpec;
use vstd::string::StringExecFns;

verus! {

/// Lexicographic order of two strings by the code points of their characters:
/// a proper prefix comes before its extensions, and otherwise the first
/// position at which the strings differ decides.
pub open spec fn text_lt(a: Seq<char>, b: Seq<char>) -> bool
    decreases a.len(),
{
    if b.len() == 0 {
        false
    } else if a.len() == 0 {
        true
    } else if a[0] == b[0] {
        text_lt(a.drop_first(), b.drop_first())
    } else {
        (a[0] as u32) < (b[0] as u32)
    }
}

/// `a` is not after `b` in the order of [`text_lt`].
pub open spec fn text_le(a: Seq<char>, b: Seq<char>) -> bool {
    !text_lt(b, a)
}

/// The character is one of the ASCII digits `0` to `9`.
pub open spec fn is_digit(c: char) -> bool {
    48 <= (c as u32) <= 57
}

/// Every character is an ASCII digit.
pub open spec fn all_digits(s: Seq<char>) -> bool {
    forall|i: int| 0 <= i < s.len() ==> is_digit(#[trigger] s[i])
}

/// The number that a string of ASCII digits denotes in base ten (0 for the
/// empty string).
pub open spec fn digits_value(s: Seq<char>) -> int
    decreases s.len(),
{
    if s.len() == 0 {
        0
    } else {
        digits_value(s.drop_last()) * 10 + ((s.last() as u32) - 48)
    }
}

/// What a string denotes as a signed 32-bit decimal integer: an optional
/// `+` or `-`, then one or more ASCII digits and nothing else, the number
/// within the range of `i32`. Every other string denotes nothing.
pub open spec fn parse_number_spec(s: Seq<char>) -> Option<i32> {
    let signed = s.len() > 0 && (s[0] == '-' || s[0] == '+');
    let digits = if signed {
        s.drop_first()
    } else {
        s
    };
    let magnitude = digits_value(digits);
    let number = if s.len() > 0 && s[0] == '-' {
        -magnitude
    } else {
        magnitude
    };
    if digits.len() > 0 && all_digits(digits) && i32::MIN <= number <= i32::MAX {
        Some(number as i32)
    } else {
        None
    }
}

/// The ASCII digit for a number from 0 to 9.
pub open spec fn digit_char(d: int) -> char {
    seq!['0', '1', '2', '3', '4', '5', '6', '7', '8', '9'][d]
}

/// The digits of a natural number in base ten, most significant first,
/// without leading zeros (`0` itself is the single digit `0`).
pub open spec fn decimal_digits(n: nat) -> Seq<char>
    decreases n,
{
    if n < 10 {
        seq![digit_char(n as int)]
    } else {
        decimal_digits(n / 10).push(digit_char((n % 10) as int))
    }
}

/// The decimal rendering of an integer: its digits, after a `-` if it is
/// negative.
pub open spec fn decimal(n: int) -> Seq<char> {
    if n < 0 {
        seq!['-'] + decimal_digits((-n) as nat)
    } else {
        decimal_digits(n as nat)
    }
}

/// No text comes before itself.
pub proof fn lemma_text_lt_irreflexive(a: Seq<char>)
    ensures
        !text_lt(a, a),
    decreases a.len(),
{
    if a.len() > 0 {
        lemma_text_lt_irreflexive(a.drop_first());
    }
}

/// The order of texts is transitive.
pub proof fn lemma_text_lt_transitive(a: Seq<char>, b: Seq<char>, c: Seq<char>)
    requires
        text_lt(a, b),
        text_lt(b, c),
    ensures
        text_lt(a, c),
    decreases a.len(),
{
    if a.len() > 0 && a[0] == b[0] && b[0] == c[0] {
        lemma_text_lt_transitive(a.drop_first(), b.drop_first(), c.drop_first());
    }
}

/// The code point of a character.
fn char_code(c: char) -> (n: u32)
    ensures
        n == c as u32,
{
    c as u32
}

/// Whether the code point of `a` is below that of `b`.
fn char_less(a: char, b: char) -> (r: bool)
    ensures
        r == ((a as u32) < (b as u32)),
{
    a < b
}

/// Whether `a` comes before `b` in lexicographic order.
pub fn str_lt(a: &str, b: &str) -> (r: bool)
    ensures
        r == text_lt(a@, b@),
{
    let mut left = a.chars();
    let mut right = b.chars();
    let ghost mut rest_a = a@;
    let ghost mut rest_b = b@;
    loop
        invariant
            left.remaining() == rest_a,
            right.remaining() == rest_b,
            text_lt(a@, b@) == text_lt(rest_a, rest_b),
        decreases rest_a.len(),
    {
        let x = left.next();
        let y = right.next();
        match (x, y) {
            (_, None) => {
                return false;
            },
            (None, Some(_)) => {
                return true;
            },
            (Some(c), Some(d)) => {
                if c != d {
                    return char_less(c, d);
                }
                proof {
                    rest_a = rest_a.drop_first();
                    rest_b = rest_b.drop_first();
                }
            },
        }
    }
}

/// Whether `a` does not come after `b` in lexicographic order.
pub fn str_le(a: &str, b: &str) -> (r: bool)
    ensures
        r == text_le(a@, b@),
{
    !str_lt(b, a)
}

/// Whether two strings hold the same characters.
pub fn str_eq(a: &str, b: &str) -> (r: bool)
    ensures
        r == (a@ == b@),
{
    if a.len() != b.len() {
        return false;
    }
    let mut left = a.chars();
    let mut right = b.chars();
    let ghost mut k: int = 0;
    loop
        invariant
            0 <= k <= a@.len(),
            k <= b@.len(),
            left.remaining() == a@.skip(k),
            right.remaining() == b@.skip(k),
            a@.take(k) == b@.take(k),
        decreases a@.len() - k,
    {
        let x = left.next();
        let y = right.next();
        match (x, y) {
            (None, None) => {
                assert(a@.take(k) =~= a@);
                assert(b@.take(k) =~= b@);
                return true;
            },
            (Some(c), Some(d)) => {
                if c != d {
                    return false;
                }
                proof {
                    k = k + 1;
                }
            },
            _ => {
                return false;
            },
        }
    }
}

/// The value of a prefix of a string of digits is at most the value of the
/// string.
proof fn lemma_digits_value_prefix(s: Seq<char>, k: int)
    requires
        all_digits(s),
        0 <= k <= s.len(),
    ensures
        0 <= digits_value(s.take(k)) <= digits_value(s),
    decreases s.len(),
{
    if s.len() == 0 {
        // The empty string has the value 0, and so has its only prefix.
    } else if k == s.len() {
        assert(s.take(k) =~= s);
        lemma_digits_value_prefix(s.drop_last(), k - 1);
    } else {
        lemma_digits_value_prefix(s.drop_last(), k);
        assert(s.drop_last().take(k) =~= s.take(k));
    }
}

/// Reads a string as a signed 32-bit decimal integer: an optional sign, then
/// decimal digits only, of a value that fits.
pub fn parse_number(s: &str) -> (r: Option<i32>)
    ensures
        r == parse_number_spec(s@),
{
    let mut chars = s.chars();
    let first = match chars.next() {
        Some(c) => c,
        None => {
            return None;
        },
    };
    let negative = first == '-';
    let signed = negative || first == '+';
    let ghost digits = if signed {
        s@.drop_first()
    } else {
        s@
    };
    let mut value: i64 = 0;
    let mut seen = false;
    let ghost mut k: int = 0;
    if !signed {
        let code = char_code(first);
        if code < 48 || code > 57 {
            return None;
        }
        value = (code - 48) as i64;
        seen = true;
        proof {
            k = 1;
            assert(digits_value(digits.take(1).drop_last()) == 0);
        }
    }
    loop
        invariant_except_break
            chars.remaining() == digits.skip(k),
        invariant
            0 <= k <= digits.len(),
            s@.len() > 0,
            signed == (s@[0] == '-' || s@[0] == '+'),
            negative == (s@[0] == '-'),
            digits == (if signed {
                s@.drop_first()
            } else {
                s@
            }),
            seen == (k > 0),
            all_digits(digits.take(k)),
            value == digits_value(digits.take(k)),
            0 <= value <= 2147483648,
        ensures
            k == digits.len(),
        decreases digits.len() - k,
    {
        let c = match chars.next() {
            Some(c) => c,
            None => {
                break;
            },
        };
        let code = char_code(c);
        if code < 48 || code > 57 {
            return None;
        }
        let next = value * 10 + (code - 48) as i64;
        proof {
            let longer = digits.take(k + 1);
            assert(longer.drop_last() =~= digits.take(k));
            assert forall|i: int| 0 <= i < longer.len() implies is_digit(#[trigger] longer[i]) by {
            }
        }
        if next > 2147483648 {
            proof {
                if all_digits(digits) {
                    lemma_digits_value_prefix(digits, k + 1);
                }
            }
            return None;
        }
        value = next;
        seen = true;
        proof {
            k = k + 1;
        }
    }
    assert(digits.take(k) =~= digits);
    if !seen {
        return None;
    }
    let number: i64 = if negative {
        -value
    } else {
        value
    };
    if number > 2147483647 {
        None
    } else {
        Some(number as i32)
    }
}

/// The text of one decimal digit.
fn digit_text(d: u32) -> (r: &'static str)
    requires
        d < 10,
    ensures
        r@ == seq![digit_char(d as int)],
{
    proof {
        reveal_strlit("0");
        reveal_strlit("1");
        reveal_strlit("2");
        reveal_strlit("3");
        reveal_strlit("4");
        reveal_strlit("5");
        reveal_strlit("6");
        reveal_strlit("7");
        reveal_strlit("8");
        reveal_strlit("9");
    }
    match d {
        0 => "0",
        1 => "1",
        2 => "2",
        3 => "3",
        4 => "4",
        5 => "5",
        6 => "6",
        7 => "7",
        8 => "8",
        _ => "9",
    }
}

/// The decimal rendering of an unsigned number.
pub fn unsigned_to_text(n: u32) -> (s: String)
    ensures
        s@ == decimal(n as int),
    decreases n,
{
    if n < 10 {
        String::from_str(digit_text(n))
    } else {
        let mut s = unsigned_to_text(n / 10);
        s.append(digit_text(n % 10));
        s
    }
}

/// The decimal rendering of a signed number.
pub fn signed_to_text(n: i32) -> (s: String)
    ensures
        s@ == decimal(n as int),
{
    if n < 0 {
        let magnitude: u32 = (-(n as i64)) as u32;
        let mut s = String::from_str("-");
        proof {
            reveal_strlit("-");
        }
        s.append(unsigned_to_text(magnitude).as_str());
        s
    } else {
        unsigned_to_text(n as u32)
    }
}

} // verus!

//! Small readers for settings: lower case, text split at a colon, unsigned numbers.

use vstd::prelude::*;
use vstd::string::*;

verus! {

/// What `str::to_lowercase` makes of a string.
pub uninterp spec fn lowercase(s: Seq<char>) -> Seq<char>;

/// `str::to_lowercase`: the lowercase equivalent of the string, by the
/// Unicode rules that the standard library carries. The contract gives the
/// result its name and claims nothing else of it.
#[verifier::external_body]
pub(crate) fn to_lowercase(s: &str) -> (lowered: String)
    ensures
        lowered@ == lowercase(s@),
{
    s.to_lowercase()
}

/// Whether two strings hold the same characters.
pub fn same_text(a: &str, b: &str) -> (same: bool)
    ensures
        same == (a@ == b@),
{
    let left = a.to_owned();
    let right = b.to_owned();
    left == right
}

/// Position `i` holds the first colon of `s`.
pub open spec fn is_first_colon(s: Seq<char>, i: int) -> bool {
    &&& 0 <= i < s.len()
    &&& s[i] == ':'
    &&& forall|k: int| 0 <= k < i ==> s[k] != ':'
}

/// What stands before the first colon of `s`; all of `s` if it has none.
pub open spec fn head(s: Seq<char>) -> Seq<char> {
    if s.contains(':') {
        s.take(choose|i: int| is_first_colon(s, i))
    } else {
        s
    }
}

/// What stands behind the first colon of `s`, if it has one.
pub open spec fn tail(s: Seq<char>) -> Option<Seq<char>> {
    if s.contains(':') {
        Some(s.skip((choose|i: int| is_first_colon(s, i)) + 1))
    } else {
        None
    }
}

/// The first colon is where `head` ends and `tail` begins.
pub proof fn lemma_first_colon(s: Seq<char>, i: int)
    requires
        is_first_colon(s, i),
    ensures
        s.contains(':'),
        head(s) == s.take(i),
        tail(s) == Some(s.skip(i + 1)),
{
}

/// Splits `s` at its first colon.
pub fn split_at_colon<'a>(s: &'a str) -> (parts: (&'a str, Option<&'a str>))
    ensures
        parts.0@ == head(s@),
        match parts.1 {
            Some(rest) => tail(s@) == Some(rest@),
            None => tail(s@) is None,
        },
{
    let n = s.unicode_len();
    let mut i: usize = 0;
    while i < n
        invariant
            n == s@.len(),
            i <= n,
            forall|k: int| 0 <= k < i ==> s@[k] != ':',
        decreases n - i,
    {
        if s.get_char(i) == ':' {
            proof {
                lemma_first_colon(s@, i as int);
            }
            return (s.substring_char(0, i), Some(s.substring_char(i + 1, n)));
        }
        i = i + 1;
    }
    (s, None)
}

/// Whether `s` holds a colon.
pub fn has_colon(s: &str) -> (found: bool)
    ensures
        found == s@.contains(':'),
{
    split_at_colon(s).1.is_some()
}

/// The character is one of `0` to `9`.
pub open spec fn is_digit(c: char) -> bool {
    '0' <= c <= '9'
}

/// The number that a digit stands for.
pub open spec fn digit_value(c: char) -> nat {
    (c as u32 - '0' as u32) as nat
}

/// The number that a run of digits spells in base ten.
pub open spec fn decimal_value(digits: Seq<char>) -> nat
    decreases digits.len(),
{
    if digits.len() == 0 {
        0
    } else {
        decimal_value(digits.drop_last()) * 10 + digit_value(digits.last())
    }
}

/// At least one character, and all of them digits.
pub open spec fn is_decimal(digits: Seq<char>) -> bool {
    digits.len() > 0 && forall|i: int| 0 <= i < digits.len() ==> is_digit(#[trigger] digits[i])
}

/// The digits of a number written with an optional leading plus sign.
pub open spec fn unsigned_digits(s: Seq<char>) -> Seq<char> {
    if s.len() > 0 && s[0] == '+' {
        s.skip(1)
    } else {
        s
    }
}

/// The number that `s` spells, where it spells one that fits `usize`: an
/// optional plus sign, then digits and nothing else.
pub open spec fn parsed_number(s: Seq<char>) -> Option<usize> {
    let digits = unsigned_digits(s);
    if is_decimal(digits) && decimal_value(digits) <= usize::MAX {
        Some(decimal_value(digits) as usize)
    } else {
        None
    }
}

/// A longer run of digits spells no smaller a number than its beginning.
proof fn lemma_decimal_grows(digits: Seq<char>, i: int)
    requires
        0 <= i <= digits.len(),
    ensures
        decimal_value(digits.take(i)) <= decimal_value(digits),
    decreases digits.len() - i,
{
    if i < digits.len() {
        lemma_decimal_grows(digits, i + 1);
        assert(digits.take(i + 1).drop_last() =~= digits.take(i));
    } else {
        assert(digits.take(i) =~= digits);
    }
}

/// Reads an unsigned number in base ten: an optional plus sign, then at
/// least one digit and nothing else. `None` for anything else, and for a
/// number that does not fit `usize`.
pub fn parse_number(s: &str) -> (number: Option<usize>)
    ensures
        number == parsed_number(s@),
{
    let n = s.unicode_len();
    let start: usize = if n > 0 && s.get_char(0) == '+' {
        1
    } else {
        0
    };
    if start == n {
        return None;
    }
    let ghost digits = unsigned_digits(s@);
    let mut value: usize = 0;
    let mut i: usize = start;
    while i < n
        invariant
            n == s@.len(),
            start <= i <= n,
            start <= 1,
            digits == unsigned_digits(s@),
            digits.len() == n - start,
            forall|k: int| 0 <= k < digits.len() ==> digits[k] == s@[k + start],
            forall|k: int| 0 <= k < i - start ==> is_digit(#[trigger] digits[k]),
            value == decimal_value(digits.take(i - start)),
        decreases n - i,
    {
        let c = s.get_char(i);
        let u: u32 = c as u32;
        if u < 0x30 || u > 0x39 {
            assert(!is_digit(digits[i - start]));
            return None;
        }
        let d: usize = (u - 0x30) as usize;
        proof {
            assert(digits.take(i - start + 1).drop_last() =~= digits.take(i - start));
            lemma_decimal_grows(digits, i - start + 1);
        }
        let scaled = match value.checked_mul(10) {
            Some(scaled) => scaled,
            None => {
                return None;
            },
        };
        value = match scaled.checked_add(d) {
            Some(sum) => sum,
            None => {
                return None;
            },
        };
        i = i + 1;
    }
    assert(digits.take(i - start) =~= digits);
    Some(value)
}

} // verus!

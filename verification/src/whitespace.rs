//! Whitespace at the start of an entity's surface text.

use vstd::prelude::*;
use vstd::string::*;

verus! {

/// The characters that carry the Unicode property `White_Space`.
pub open spec fn is_whitespace(c: char) -> bool {
    let u = c as u32;
    ||| 0x0009 <= u <= 0x000D
    ||| u == 0x0020
    ||| u == 0x0085
    ||| u == 0x00A0
    ||| u == 0x1680
    ||| 0x2000 <= u <= 0x200A
    ||| u == 0x2028
    ||| u == 0x2029
    ||| u == 0x202F
    ||| u == 0x205F
    ||| u == 0x3000
}

/// Whether `c` is whitespace.
pub fn char_is_whitespace(c: char) -> (b: bool)
    ensures
        b == is_whitespace(c),
{
    let u: u32 = c as u32;
    (0x0009 <= u && u <= 0x000D) || u == 0x0020 || u == 0x0085 || u == 0x00A0 || u == 0x1680 || (
    0x2000 <= u && u <= 0x200A) || u == 0x2028 || u == 0x2029 || u == 0x202F || u == 0x205F || u
        == 0x3000
}

/// `k` characters of whitespace open `word`, and the character after them,
/// if there is one, is not whitespace.
pub open spec fn is_whitespace_prefix(word: Seq<char>, k: int) -> bool {
    &&& 0 <= k <= word.len()
    &&& forall|i: int| 0 <= i < k ==> is_whitespace(#[trigger] word[i])
    &&& k < word.len() ==> !is_whitespace(word[k])
}

/// Number of whitespace characters that `word` starts with.
pub open spec fn leading_whitespace(word: Seq<char>) -> nat
    decreases word.len(),
{
    if word.len() > 0 && is_whitespace(word[0]) {
        1 + leading_whitespace(word.drop_first())
    } else {
        0
    }
}

/// `word` without the whitespace it starts with.
pub open spec fn trim_start(word: Seq<char>) -> Seq<char> {
    word.skip(leading_whitespace(word) as int)
}

/// `leading_whitespace` is the one length that satisfies `is_whitespace_prefix`.
pub proof fn lemma_leading_whitespace(word: Seq<char>)
    ensures
        is_whitespace_prefix(word, leading_whitespace(word) as int),
        forall|k: int| is_whitespace_prefix(word, k) ==> k == leading_whitespace(word),
        leading_whitespace(word) == word.len() - trim_start(word).len(),
    decreases word.len(),
{
    if word.len() > 0 && is_whitespace(word[0]) {
        let rest = word.drop_first();
        lemma_leading_whitespace(rest);
        let n = leading_whitespace(rest) as int;
        assert forall|i: int| 0 <= i < n + 1 implies is_whitespace(#[trigger] word[i]) by {
            if i > 0 {
                assert(word[i] == rest[i - 1]);
            }
        }
        assert forall|k: int| is_whitespace_prefix(word, k) implies k == n + 1 by {
            assert(is_whitespace_prefix(rest, k - 1));
        }
    }
}

/// Counts the whitespace characters that `word` starts with.
pub fn count_leading_whitespace(word: &str) -> (k: usize)
    ensures
        k == leading_whitespace(word@),
        is_whitespace_prefix(word@, k as int),
{
    let n = word.unicode_len();
    let mut k: usize = 0;
    while k < n && char_is_whitespace(word.get_char(k))
        invariant
            n == word@.len(),
            k <= n,
            forall|i: int| 0 <= i < k ==> is_whitespace(#[trigger] word@[i]),
        decreases n - k,
    {
        k = k + 1;
    }
    proof {
        lemma_leading_whitespace(word@);
    }
    k
}

} // verus!

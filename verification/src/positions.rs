//! Character positions and where they lie in the bytes of a text.

use vstd::prelude::*;
use vstd::string::*;
use vstd::utf8::{
    char_is_scalar,
    encode_scalar,
    encode_utf8,
    encode_utf8_decode_utf8,
    encode_utf8_first_scalar,
    encode_utf8_valid_utf8,
    is_char_boundary,
    pop_first_scalar,
};

verus! {

/// Number of bytes that the first `i` characters of `text` take up.
pub open spec fn byte_offset(text: Seq<char>, i: int) -> int {
    encode_utf8(text.take(i)).len() as int
}

/// A character takes up between one and four bytes.
proof fn lemma_char_width(c: char)
    ensures
        1 <= encode_scalar(c as u32).len() <= 4,
{
    char_is_scalar(c);
}

/// The bytes of two texts in a row are the bytes of the one followed by the
/// bytes of the other.
proof fn lemma_encode_concat(a: Seq<char>, b: Seq<char>)
    ensures
        encode_utf8(a + b) == encode_utf8(a) + encode_utf8(b),
    decreases a.len(),
{
    if a.len() > 0 {
        lemma_encode_concat(a.drop_first(), b);
        assert((a + b).drop_first() =~= a.drop_first() + b);
    }
}

/// Texts with the same bytes are the same text.
proof fn lemma_encode_injective(a: Seq<char>, b: Seq<char>)
    requires
        encode_utf8(a) == encode_utf8(b),
    ensures
        a == b,
{
    encode_utf8_decode_utf8(a);
    encode_utf8_decode_utf8(b);
}

/// Cutting the bytes of a text at the byte offset of position `i` gives the
/// bytes of the first `i` characters and the bytes of the rest.
proof fn lemma_split_bytes(text: Seq<char>, i: int)
    requires
        0 <= i <= text.len(),
    ensures
        0 <= byte_offset(text, i) <= encode_utf8(text).len(),
        encode_utf8(text).subrange(0, byte_offset(text, i)) == encode_utf8(text.take(i)),
        encode_utf8(text).subrange(byte_offset(text, i), encode_utf8(text).len() as int)
            == encode_utf8(text.skip(i)),
{
    lemma_encode_concat(text.take(i), text.skip(i));
    assert(text.take(i) + text.skip(i) =~= text);
    let head = encode_utf8(text.take(i));
    let tail = encode_utf8(text.skip(i));
    assert((head + tail).subrange(0, head.len() as int) =~= head);
    assert((head + tail).subrange(head.len() as int, (head + tail).len() as int) =~= tail);
}

/// Byte offsets grow with the position, by the width of the character
/// passed.
proof fn lemma_byte_offset_step(text: Seq<char>, i: int)
    requires
        0 <= i < text.len(),
    ensures
        byte_offset(text, i + 1) == byte_offset(text, i) + encode_scalar(text[i] as u32).len(),
        byte_offset(text, i) < byte_offset(text, i + 1),
{
    lemma_encode_concat(text.take(i), seq![text[i]]);
    assert(text.take(i + 1) =~= text.take(i) + seq![text[i]]);
    let one = seq![text[i]];
    assert(encode_utf8(one) =~= encode_scalar(one[0] as u32)) by {
        reveal_with_fuel(encode_utf8, 2);
    }
    lemma_char_width(text[i]);
}

/// A later position lies at a later byte.
proof fn lemma_byte_offset_grows(text: Seq<char>, i: int, k: int)
    requires
        0 <= i <= k <= text.len(),
    ensures
        byte_offset(text, i) <= byte_offset(text, k),
        i < k ==> byte_offset(text, i) < byte_offset(text, k),
    decreases k - i,
{
    if i < k {
        lemma_byte_offset_grows(text, i, k - 1);
        lemma_byte_offset_step(text, k - 1);
    }
}

/// The byte offsets of the positions of a text are exactly the places
/// where its bytes may be cut.
proof fn lemma_boundaries(text: Seq<char>, index: int)
    ensures
        is_char_boundary(encode_utf8(text), index) <==> exists|i: int|
            0 <= i <= text.len() && #[trigger] byte_offset(text, i) == index,
    decreases text.len(),
{
    let bytes = encode_utf8(text);
    encode_utf8_valid_utf8(text);
    assert(byte_offset(text, 0) == 0);
    if index < 0 || bytes.len() < index {
        assert forall|i: int| 0 <= i <= text.len() implies #[trigger] byte_offset(text, i)
            != index by {
            lemma_split_bytes(text, i);
        }
    } else if index > 0 {
        let rest = text.drop_first();
        let width = encode_scalar(text[0] as u32).len() as int;
        encode_utf8_first_scalar(text);
        assert(pop_first_scalar(bytes) =~= encode_utf8(rest));
        lemma_boundaries(rest, index - width);
        assert forall|i: int| 1 <= i <= text.len() implies #[trigger] byte_offset(text, i)
            == width + byte_offset(rest, i - 1) by {
            assert(text.take(i).drop_first() =~= rest.take(i - 1));
        }
        if is_char_boundary(bytes, index) {
            let r = choose|r: int|
                0 <= r <= rest.len() && #[trigger] byte_offset(rest, r) == index - width;
            assert(byte_offset(text, r + 1) == index);
        }
    }
}

/// For every position of `text`, the first included and the end too, the
/// byte at which it lies.
pub fn byte_offsets(text: &str) -> (table: Vec<usize>)
    ensures
        table.len() == text@.len() + 1,
        forall|i: int| 0 <= i < table.len() ==> #[trigger] table[i] == byte_offset(text@, i),
{
    let byte_len = text.as_bytes().len();
    let ghost chars = text@;
    let mut table: Vec<usize> = Vec::new();
    let mut at: usize = 0;
    proof {
        lemma_split_bytes(chars, chars.len() as int);
        assert(chars.take(chars.len() as int) =~= chars);
    }
    while at < byte_len
        invariant
            chars == text@,
            byte_len == encode_utf8(chars).len(),
            byte_len == byte_offset(chars, chars.len() as int),
            at <= byte_len,
            table.len() <= chars.len() + 1,
            forall|i: int| 0 <= i < table.len() ==> #[trigger] table[i] == byte_offset(chars, i),
            forall|i: int| 0 <= i < table.len() ==> byte_offset(chars, i) < at,
            table.len() <= chars.len() ==> byte_offset(chars, table.len() as int) >= at,
            table.len() <= chars.len(),
        decreases byte_len - at,
    {
        let ghost next = table.len() as int;
        proof {
            lemma_boundaries(chars, at as int);
            lemma_boundaries(chars, byte_offset(chars, next));
            if next < chars.len() {
                lemma_byte_offset_step(chars, next);
            }
            lemma_byte_offset_grows(chars, next, chars.len() as int);
        }
        if text.is_char_boundary(at) {
            proof {
                let i = choose|i: int|
                    0 <= i <= chars.len() && #[trigger] byte_offset(chars, i) == at as int;
                if i > next {
                    lemma_byte_offset_grows(chars, next, i);
                }
            }
            table.push(at);
        }
        at = at + 1;
    }
    proof {
        let next = table.len() as int;
        lemma_byte_offset_grows(chars, next, chars.len() as int);
    }
    table.push(byte_len);
    table
}

/// The characters of `text` from position `begin` up to position `end`,
/// given the byte offsets of all positions.
pub fn slice_chars<'a>(text: &'a str, table: &Vec<usize>, begin: usize, end: usize) -> (slice:
    &'a str)
    requires
        begin <= end <= text@.len(),
        table.len() == text@.len() + 1,
        forall|i: int| 0 <= i < table.len() ==> #[trigger] table[i] == byte_offset(text@, i),
    ensures
        slice@ == text@.subrange(begin as int, end as int),
{
    let ghost chars = text@;
    proof {
        encode_utf8_valid_utf8(chars);
        lemma_boundaries(chars, byte_offset(chars, end as int));
        lemma_split_bytes(chars, end as int);
    }
    let (head, _) = text.split_at(table[end]);
    proof {
        lemma_encode_injective(head@, chars.take(end as int));
        assert(head@.take(begin as int) =~= chars.take(begin as int));
        encode_utf8_valid_utf8(head@);
        lemma_boundaries(head@, byte_offset(head@, begin as int));
        lemma_split_bytes(head@, begin as int);
    }
    let (_, slice) = head.split_at(table[begin]);
    proof {
        lemma_encode_injective(slice@, head@.skip(begin as int));
        assert(chars.take(end as int).skip(begin as int) =~= chars.subrange(
            begin as int,
            end as int,
        ));
    }
    slice
}

} // verus!

//! Byte offsets of characters in UTF-8 text.
//!
//! A scanner walks a text character by character and cuts lexemes out of it
//! by byte offset. The lemmas here relate the two: the offset of the `k`-th
//! character is the encoded length of the first `k` characters, such an offset
//! is a character boundary, and the bytes between two of them encode exactly
//! the characters between them.

use vstd::prelude::*;
use vstd::utf8::*;
use vstd::string::StringSliceAdditionalSpecFns;
use vstd::std_specs::iter::IteratorSpec;

verus! {

/// The number of bytes that the UTF-8 encoding of `chars` takes.
pub open spec fn byte_len(chars: Seq<char>) -> nat {
    encode_utf8(chars).len()
}

/// The byte offset at which the character with index `k` starts in the
/// encoding of `s` (for `k == s.len()`: the length of the encoding).
pub open spec fn byte_offset(s: Seq<char>, k: int) -> nat {
    byte_len(s.take(k))
}

/// The number of bytes that one character takes in UTF-8.
pub open spec fn char_width(c: char) -> nat {
    encode_scalar(c as u32).len()
}

/// The width of a character in UTF-8, between one and four bytes.
pub fn utf8_width(c: char) -> (n: usize)
    ensures
        n == char_width(c),
        1 <= n <= 4,
{
    let v: u32 = c as u32;
    if v <= 0x7F {
        1
    } else if v <= 0x7FF {
        2
    } else if v <= 0xFFFF {
        3
    } else {
        4
    }
}

/// Encoding distributes over concatenation.
pub proof fn lemma_encode_concat(a: Seq<char>, b: Seq<char>)
    ensures
        encode_utf8(a + b) == encode_utf8(a) + encode_utf8(b),
    decreases a.len(),
{
    if a.len() == 0 {
        assert(a + b =~= b);
        assert(encode_utf8(a) + encode_utf8(b) =~= encode_utf8(b));
    } else {
        lemma_encode_concat(a.drop_first(), b);
        assert((a + b).drop_first() =~= a.drop_first() + b);
        assert((a + b)[0] == a[0]);
        assert(encode_utf8(a + b) =~= encode_utf8(a) + encode_utf8(b));
    }
}

/// A character's offset plus its width is the offset of the next character.
pub proof fn lemma_offset_step(s: Seq<char>, k: int)
    requires
        0 <= k < s.len(),
    ensures
        byte_offset(s, k + 1) == byte_offset(s, k) + char_width(s[k]),
{
    let one = seq![s[k]];
    assert(s.take(k + 1) =~= s.take(k) + one);
    lemma_encode_concat(s.take(k), one);
    assert(one.drop_first() =~= Seq::<char>::empty());
    assert(encode_utf8(one) =~= encode_scalar(s[k] as u32)) by {
        reveal_with_fuel(encode_utf8, 2);
    }
}

/// Offsets grow with the index and end at the length of the encoding.
pub proof fn lemma_offset_monotone(s: Seq<char>, a: int, b: int)
    requires
        0 <= a <= b <= s.len(),
    ensures
        byte_offset(s, a) <= byte_offset(s, b) <= byte_len(s),
        byte_offset(s, 0) == 0,
        byte_offset(s, s.len() as int) == byte_len(s),
{
    assert(s.take(b) =~= s.take(a) + s.subrange(a, b));
    lemma_encode_concat(s.take(a), s.subrange(a, b));
    assert(s =~= s.take(b) + s.skip(b));
    lemma_encode_concat(s.take(b), s.skip(b));
    assert(s.take(0) =~= Seq::<char>::empty());
    assert(s.take(s.len() as int) =~= s);
}

/// The offset of every character is a character boundary of the encoding.
pub proof fn lemma_offset_is_boundary(s: Seq<char>, k: int)
    requires
        0 <= k <= s.len(),
    ensures
        is_char_boundary(encode_utf8(s), byte_offset(s, k) as int),
    decreases k,
{
    let bytes = encode_utf8(s);
    encode_utf8_valid_utf8(s);
    if k == 0 {
        assert(s.take(0) =~= Seq::<char>::empty());
    } else {
        let rest = s.drop_first();
        encode_utf8_first_scalar(s);
        assert(pop_first_scalar(bytes) =~= encode_utf8(rest));
        lemma_offset_is_boundary(rest, k - 1);
        assert(s.take(k) =~= seq![s[0]] + rest.take(k - 1));
        assert(s.take(k).drop_first() =~= rest.take(k - 1));
        assert(byte_offset(s, k) == char_width(s[0]) + byte_offset(rest, k - 1));
        lemma_offset_monotone(s, k, k);
    }
}

/// The bytes between the offsets of two characters encode the characters
/// between them.
pub proof fn lemma_byte_range(s: Seq<char>, a: int, b: int)
    requires
        0 <= a <= b <= s.len(),
    ensures
        byte_offset(s, a) <= byte_offset(s, b) <= byte_len(s),
        encode_utf8(s).subrange(byte_offset(s, a) as int, byte_offset(s, b) as int)
            == encode_utf8(s.subrange(a, b)),
{
    lemma_offset_monotone(s, a, b);
    let head = s.take(a);
    let mid = s.subrange(a, b);
    let tail = s.skip(b);
    assert(s.take(b) =~= head + mid);
    assert(s =~= s.take(b) + tail);
    lemma_encode_concat(head, mid);
    lemma_encode_concat(s.take(b), tail);
    assert(encode_utf8(s).subrange(byte_offset(s, a) as int, byte_offset(s, b) as int)
        =~= encode_utf8(mid));
}

/// Two texts with the same encoding are the same text.
pub proof fn lemma_encode_injective(a: Seq<char>, b: Seq<char>)
    requires
        encode_utf8(a) == encode_utf8(b),
    ensures
        a == b,
{
    encode_utf8_decode_utf8(a);
    encode_utf8_decode_utf8(b);
}

/// The part of `src` between the byte offsets `start` and `end`, which are
/// the offsets of the characters with the indices `from` and `to`.
pub(crate) fn slice<'a>(src: &'a str, start: usize, end: usize, Ghost(from): Ghost<int>, Ghost(to): Ghost<int>) -> (part: &'a str)
    requires
        0 <= from <= to <= src@.len(),
        start == byte_offset(src@, from),
        end == byte_offset(src@, to),
    ensures
        part@ == src@.subrange(from, to),
{
    proof {
        lemma_offset_is_boundary(src@, to);
        lemma_byte_range(src@, from, to);
        lemma_byte_range(src@, 0, to);
        assert(src@.take(0) =~= Seq::<char>::empty());
    }
    let (head, _) = src.split_at(end);
    proof {
        assert(src@.subrange(0, to) =~= src@.take(to));
        lemma_encode_injective(head@, src@.take(to));
        lemma_offset_is_boundary(head@, from);
        assert(head@.take(from) =~= src@.take(from));
        lemma_byte_range(head@, from, to);
        assert(head@.take(to) =~= head@);
    }
    let (_, part) = head.split_at(start);
    proof {
        assert(head@.subrange(from, to) =~= src@.subrange(from, to));
        lemma_encode_injective(part@, src@.subrange(from, to));
    }
    part
}

/// The characters of `src`, in order. The text's encoded length is a length
/// in memory, so it fits the machine's word.
pub fn decode(src: &str) -> (chars: Vec<char>)
    ensures
        chars@ == src@,
        byte_len(src@) <= usize::MAX,
{
    broadcast use vstd::string::group_string_axioms;

    let mut rest = src.chars();
    let mut chars: Vec<char> = Vec::with_capacity(src.as_bytes().len());
    loop
        invariant
            chars@.len() <= src@.len(),
            chars@ =~= src@.take(chars@.len() as int),
            rest.remaining() =~= src@.skip(chars@.len() as int),
        ensures
            chars@ == src@,
        decreases src@.len() - chars@.len(),
    {
        match rest.next() {
            Some(c) => {
                chars.push(c);
            },
            None => {
                break;
            },
        }
    }
    chars
}

} // verus!

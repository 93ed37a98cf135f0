//! Splitting a text at an ASCII character.

use crate::text::{find, lemma_find, split_once};
use vstd::prelude::*;
use vstd::string::*;
use vstd::utf8::{
    encode_scalar, encode_utf8, encode_utf8_decode_utf8, encode_utf8_valid_utf8, is_char_boundary,
    is_char_boundary_iff_not_is_continuation_byte, is_char_boundary_start_end_of_seq,
};

verus! {

/// The encoding of two texts, one behind the other.
pub proof fn lemma_encode_concat(a: Seq<char>, b: Seq<char>)
    ensures
        encode_utf8(a + b) == encode_utf8(a) + encode_utf8(b),
    decreases a.len(),
{
    if a.len() == 0 {
        assert(a + b =~= b);
        assert(encode_utf8(a) + encode_utf8(b) =~= encode_utf8(b));
    } else {
        lemma_encode_concat(a.drop_first(), b);
        assert((a + b).drop_first() =~= a.drop_first() + b);
        assert((a + b)[0] == a[0]);
        assert(encode_utf8(a + b) =~= encode_utf8(a) + encode_utf8(b));
    }
}

/// An ASCII character is encoded in one byte, its number. No byte in the
/// encoding of another character is that number.
proof fn lemma_char_bytes(d: char, c: char)
    requires
        c <= '\u{7f}',
    ensures
        d == c ==> encode_scalar(d as u32) == seq![c as u8],
        d != c ==> forall|i: int|
            0 <= i < encode_scalar(d as u32).len() ==> #[trigger] encode_scalar(d as u32)[i] != c as u8,
{
    let n = d as u32;
    if n <= 0x7f {
        assert((n & 0x7f) as u8 == n as u8 && n & 0x7f == n) by (bit_vector)
            requires
                n <= 0x7f,
        ;
    } else {
        assert(0xc0u8 | ((n >> 6) & 0x1f) as u8 >= 0x80) by (bit_vector);
        assert(0xe0u8 | ((n >> 12) & 0x0f) as u8 >= 0x80) by (bit_vector);
        assert(0xf0u8 | ((n >> 18) & 0x7) as u8 >= 0x80) by (bit_vector);
        assert(0x80u8 | (n & 0x3f) as u8 >= 0x80) by (bit_vector);
        assert(0x80u8 | ((n >> 6) & 0x3f) as u8 >= 0x80) by (bit_vector);
        assert(0x80u8 | ((n >> 12) & 0x3f) as u8 >= 0x80) by (bit_vector);
    }
}

/// Where an ASCII character first occurs in a text, its byte first occurs in
/// the encoding.
proof fn lemma_first_byte(text: Seq<char>, c: char)
    requires
        c <= '\u{7f}',
    ensures
        ({
            let k = find(text, c);
            let bytes = encode_utf8(text);
            let head = encode_utf8(text.take(k));
            &&& forall|j: int| 0 <= j < head.len() ==> bytes[j] != c as u8
            &&& k < text.len() ==> bytes == head + seq![c as u8] + encode_utf8(text.skip(k + 1))
            &&& k == text.len() ==> bytes == head
        }),
    decreases text.len(),
{
    lemma_find(text, c);
    let k = find(text, c);
    let bytes = encode_utf8(text);
    let head = encode_utf8(text.take(k));
    if text.len() == 0 {
        assert(text.take(k) =~= text);
    } else if text[0] == c {
        lemma_char_bytes(text[0], c);
        assert(text.take(0) =~= Seq::<char>::empty());
        assert(text.skip(1) =~= text.drop_first());
        assert(bytes =~= head + seq![c as u8] + encode_utf8(text.skip(1)));
    } else {
        let rest = text.skip(1);
        assert(rest =~= text.drop_first());
        let first = encode_scalar(text[0] as u32);
        lemma_char_bytes(text[0], c);
        lemma_first_byte(rest, c);
        assert(text.take(k).drop_first() =~= rest.take(k - 1));
        let rest_head = encode_utf8(rest.take(k - 1));
        assert(head == first + rest_head);
        assert forall|j: int| 0 <= j < head.len() implies bytes[j] != c as u8 by {
            if j < first.len() {
                assert(bytes[j] == first[j]);
            } else {
                assert(bytes[j] == encode_utf8(rest)[j - first.len()]);
            }
        }
        if k < text.len() {
            assert(rest.skip(k) =~= text.skip(k + 1));
            assert(bytes =~= head + seq![c as u8] + encode_utf8(text.skip(k + 1)));
        } else {
            assert(bytes =~= head);
        }
    }
}

/// Texts with the same encoding are the same.
proof fn lemma_same_encoding(a: Seq<char>, b: Seq<char>)
    requires
        encode_utf8(a) == encode_utf8(b),
    ensures
        a == b,
{
    encode_utf8_decode_utf8(a);
    encode_utf8_decode_utf8(b);
}

/// What stands before and behind the first `c` in `text`, or `None` if there
/// is no `c` in it.
pub fn split_at_first<'a>(text: &'a str, c: char) -> (parts: Option<(&'a str, &'a str)>)
    requires
        c <= '\u{7f}',
    ensures
        match parts {
            Some((before, after)) => split_once(text@, c) == Some((before@, after@)),
            None => split_once(text@, c) is None,
        },
{
    let ghost k = find(text@, c);
    let ghost head = encode_utf8(text@.take(k));
    proof {
        lemma_find(text@, c);
        lemma_first_byte(text@, c);
    }
    let bytes = text.as_bytes();
    let byte: u8 = c as u8;
    let mut i: usize = 0;
    while i < bytes.len() && bytes[i] != byte
        invariant
            i <= bytes@.len(),
            forall|j: int| 0 <= j < i ==> bytes@[j] != byte,
        decreases bytes@.len() - i,
    {
        i += 1;
    }
    if i == bytes.len() {
        assert(k == text@.len()) by {
            if k < text@.len() {
                assert(bytes@[head.len() as int] == byte);
            }
        }
        return None;
    }
    assert(k < text@.len() && i == head.len()) by {
        if k < text@.len() {
            assert(bytes@[head.len() as int] == byte);
        }
    }
    let ghost tail = encode_utf8(text@.skip(k + 1));
    proof {
        encode_utf8_valid_utf8(text@);
        is_char_boundary_iff_not_is_continuation_byte(bytes@, i as int);
    }
    let (before, rest) = text.split_at(i);
    proof {
        assert(before.spec_bytes() =~= head);
        lemma_same_encoding(before@, text@.take(k));
        assert(rest.spec_bytes() =~= seq![byte] + tail);
        encode_utf8_valid_utf8(rest@);
        if tail.len() == 0 {
            is_char_boundary_start_end_of_seq(rest.spec_bytes());
        } else {
            encode_utf8_valid_utf8(text@.skip(k + 1));
            is_char_boundary_iff_not_is_continuation_byte(tail, 0);
            is_char_boundary_iff_not_is_continuation_byte(rest.spec_bytes(), 1);
            assert(is_char_boundary(tail, 0));
            assert(rest.spec_bytes()[1] == tail[0]);
        }
    }
    let (_, after) = rest.split_at(1);
    proof {
        assert(after.spec_bytes() =~= tail);
        lemma_same_encoding(after@, text@.skip(k + 1));
    }
    Some((before, after))
}

} // verus!

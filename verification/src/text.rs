//! Text as bytes: the facts about ASCII and UTF-8 that the other modules
//! lean on, and byte-wise comparison of strings.
use vstd::prelude::*;
use vstd::utf8::*;

verus! {

/// Whether every byte is below `0x80`.
pub open spec fn is_ascii_bytes(bytes: Seq<u8>) -> bool {
    forall|i: int| 0 <= i < bytes.len() ==> #[trigger] bytes[i] < 0x80
}

/// The text whose characters are the given bytes, one for one.
pub open spec fn ascii_text(bytes: Seq<u8>) -> Seq<char> {
    bytes.map_values(|b: u8| b as char)
}

/// ASCII bytes are the UTF-8 encoding of the text they spell.
pub proof fn lemma_ascii_text_encodes(bytes: Seq<u8>)
    requires
        is_ascii_bytes(bytes),
    ensures
        is_ascii_chars(ascii_text(bytes)),
        encode_utf8(ascii_text(bytes)) == bytes,
{
    let text = ascii_text(bytes);
    assert forall|i: int| 0 <= i < text.len() implies '\0' <= #[trigger] text[i] <= '\u{7f}' by {
        assert(bytes[i] < 0x80);
    }
    is_ascii_chars_encode_utf8(text);
    assert forall|i: int| 0 <= i < bytes.len() implies encode_utf8(text)[i] == bytes[i] by {
        assert(bytes[i] < 0x80);
        assert(text[i] as u8 == encode_utf8(text)[i]);
    }
    assert(encode_utf8(text) =~= bytes);
}

/// Two texts are equal exactly when their UTF-8 encodings are.
pub proof fn lemma_encoding_is_injective(a: Seq<char>, b: Seq<char>)
    ensures
        (encode_utf8(a) == encode_utf8(b)) <==> a == b,
{
    encode_utf8_decode_utf8(a);
    encode_utf8_decode_utf8(b);
}

/// The UTF-8 encoding of a concatenation is the concatenation of the
/// encodings.
pub proof fn lemma_encoding_of_concat(a: Seq<char>, b: Seq<char>)
    ensures
        encode_utf8(a + b) == encode_utf8(a) + encode_utf8(b),
    decreases a.len(),
{
    if a.len() == 0 {
        assert(a + b =~= b);
        assert(encode_utf8(a) + encode_utf8(b) =~= encode_utf8(b));
    } else {
        lemma_encoding_of_concat(a.drop_first(), b);
        assert((a + b).drop_first() =~= a.drop_first() + b);
        assert(encode_utf8(a + b) =~= encode_utf8(a) + encode_utf8(b));
    }
}

/// Whether two strings hold the same text.
pub fn str_eq(a: &str, b: &str) -> (same: bool)
    ensures
        same == (a@ == b@),
{
    let x = a.as_bytes();
    let y = b.as_bytes();
    proof {
        lemma_encoding_is_injective(a@, b@);
    }
    if x.len() != y.len() {
        return false;
    }
    let mut i: usize = 0;
    while i < x.len()
        invariant
            i <= x.len(),
            x.len() == y.len(),
            x@ == encode_utf8(a@),
            y@ == encode_utf8(b@),
            (encode_utf8(a@) == encode_utf8(b@)) <==> a@ == b@,
            forall|j: int| 0 <= j < i ==> x[j] == y[j],
        decreases x.len() - i,
    {
        if x[i] != y[i] {
            return false;
        }
        i += 1;
    }
    assert(x@ =~= y@);
    true
}

/// A text whose encoding begins with an ASCII byte begins with that
/// character, which is encoded by that one byte.
pub proof fn lemma_ascii_head(text: Seq<char>)
    requires
        encode_utf8(text).len() > 0,
        encode_utf8(text)[0] < 0x80,
    ensures
        text.len() > 0,
        text[0] == encode_utf8(text)[0] as char,
        encode_utf8(text.skip(1)) == encode_utf8(text).skip(1),
{
    let c = text[0] as u32;
    char_is_scalar(text[0]);
    let rest = encode_utf8(text.drop_first());
    assert(text.drop_first() =~= text.skip(1));
    assert(has_width_1_encoding(c)) by {
        assert(!has_width_1_encoding(c) ==> encode_scalar(c)[0] >= 0x80) by {
            assert(leading_byte_width_2(c) >= 0x80) by (bit_vector);
            assert(leading_byte_width_3(c) >= 0x80) by (bit_vector);
            assert(leading_byte_width_4(c) >= 0x80) by (bit_vector);
        }
        assert(encode_utf8(text)[0] == encode_scalar(c)[0]);
    }
    assert(leading_byte_width_1(c) == c as u8) by (bit_vector)
        requires
            has_width_1_encoding(c),
    ;
    assert(encode_utf8(text)[0] == c as u8);
    char_u32_cast(text[0], c);
    assert(encode_utf8(text).skip(1) =~= rest);
}

/// Where the first `k` bytes of an encoding are ASCII, they are the first
/// `k` characters, and the encoding can be cut after them.
pub proof fn lemma_ascii_prefix_of_bytes(text: Seq<char>, k: int)
    requires
        0 <= k <= encode_utf8(text).len(),
        forall|i: int| 0 <= i < k ==> #[trigger] encode_utf8(text)[i] < 0x80,
    ensures
        k <= text.len(),
        forall|i: int| 0 <= i < k ==> #[trigger] text[i] == encode_utf8(text)[i] as char,
        encode_utf8(text.skip(k)) == encode_utf8(text).skip(k),
        is_char_boundary(encode_utf8(text), k),
    decreases k,
{
    let bytes = encode_utf8(text);
    encode_utf8_valid_utf8(text);
    if k == 0 {
        assert(text.skip(0) =~= text);
        assert(bytes.skip(0) =~= bytes);
    } else {
        assert(bytes[0] < 0x80);
        lemma_ascii_head(text);
        let tail = text.skip(1);
        assert forall|i: int| 0 <= i < k - 1 implies #[trigger] encode_utf8(tail)[i] < 0x80 by {
            assert(bytes[i + 1] < 0x80);
        }
        lemma_ascii_prefix_of_bytes(tail, k - 1);
        assert forall|i: int| 0 <= i < k implies #[trigger] text[i] == bytes[i] as char by {
            if i > 0 {
                assert(tail[i - 1] == encode_utf8(tail)[i - 1] as char);
            }
        }
        assert(text.skip(k) =~= tail.skip(k - 1));
        assert(bytes.skip(k) =~= bytes.skip(1).skip(k - 1));
        assert(is_leading_byte_width_1(bytes[0])) by {
            let b = bytes[0];
            assert(b < 0x80 ==> b & 0x80 == 0) by (bit_vector);
        }
        assert(pop_first_scalar(bytes) =~= bytes.skip(1));
    }
}

/// No character is below the null character.
proof fn lemma_char_lower_bound(c: char)
    ensures
        '\0' <= c,
{
}

/// Where the first `k` characters of a text are ASCII, they are the first
/// `k` bytes of its encoding.
pub proof fn lemma_ascii_prefix_of_text(text: Seq<char>, k: int)
    requires
        0 <= k <= text.len(),
        forall|i: int| 0 <= i < k ==> #[trigger] text[i] <= '\u{7f}',
    ensures
        k <= encode_utf8(text).len(),
        forall|i: int| 0 <= i < k ==> #[trigger] encode_utf8(text)[i] == text[i] as u8,
        encode_utf8(text.skip(k)) == encode_utf8(text).skip(k),
{
    let head = text.subrange(0, k);
    let tail = text.skip(k);
    assert(text =~= head + tail);
    lemma_encoding_of_concat(head, tail);
    assert(head.len() == k);
    assert forall|i: int| 0 <= i < head.len() implies '\0' <= #[trigger] head[i] <= '\u{7f}' by {
        assert(head[i] == text[i]);
        lemma_char_lower_bound(text[i]);
    }
    is_ascii_chars_encode_utf8(head);
    assert forall|i: int| 0 <= i < k implies #[trigger] encode_utf8(text)[i] == text[i] as u8 by {
        assert(head[i] as u8 == encode_utf8(head)[i]);
    }
    assert(encode_utf8(text).skip(k) =~= encode_utf8(tail));
}

/// An ASCII byte is no part of the encoding of another character.
pub proof fn lemma_ascii_byte_is_its_character(c: char, b: u8)
    requires
        b < 0x80,
        c != b as char,
    ensures
        !encode_scalar(c as u32).contains(b),
{
    let s = c as u32;
    let t = b as u32;
    char_is_scalar(c);
    assert(s != t) by {
        char_u32_cast(c, s);
        char_u32_cast(b as char, t);
    }
    assert(has_width_1_encoding(s) ==> leading_byte_width_1(s) != b) by (bit_vector)
        requires
            s != t,
            t == b as u32,
            b < 0x80,
    ;
    assert(leading_byte_width_2(s) >= 0x80) by (bit_vector);
    assert(leading_byte_width_3(s) >= 0x80) by (bit_vector);
    assert(leading_byte_width_4(s) >= 0x80) by (bit_vector);
    assert(last_continuation_byte(s) >= 0x80) by (bit_vector);
    assert(second_last_continuation_byte(s) >= 0x80) by (bit_vector);
    assert(third_last_continuation_byte(s) >= 0x80) by (bit_vector);
}

/// An ASCII byte occurs in the encoding of a text only where the text holds
/// the character it spells.
pub proof fn lemma_ascii_byte_in_encoding(text: Seq<char>, b: u8)
    requires
        b < 0x80,
        !text.contains(b as char),
    ensures
        !encode_utf8(text).contains(b),
    decreases text.len(),
{
    if text.len() > 0 {
        let head = encode_scalar(text[0] as u32);
        let tail = encode_utf8(text.drop_first());
        assert(text.contains(text[0]));
        lemma_ascii_byte_is_its_character(text[0], b);
        assert forall|i: int| 0 <= i < text.drop_first().len() implies text.drop_first()[i]
            != b as char by {
            assert(text.contains(text[i + 1]));
        }
        lemma_ascii_byte_in_encoding(text.drop_first(), b);
        assert forall|i: int| 0 <= i < (head + tail).len() implies (head + tail)[i] != b by {
            if i < head.len() {
                assert(head.contains(head[i]));
            } else {
                assert(tail.contains(tail[i - head.len()]));
            }
        }
    }
}

} // verus!

//! Query decoding and query-parameter encoding.
//!
//! Both directions are stated over bytes: a raw query is the UTF-8 bytes of
//! the text after `?`, and the decoded command is the text those bytes give
//! once `+` has become a space and every `%XX` escape has become the byte
//! `XX`.
use crate::outside::{percent_decode_utf8, serialize_pair};
use crate::text::{
    ascii_text, is_ascii_bytes, lemma_ascii_byte_in_encoding, lemma_ascii_byte_is_its_character,
    lemma_ascii_text_encodes, lemma_encoding_is_injective,
};
use vstd::prelude::*;
use vstd::utf8::*;

verus! {

/// The ASCII space.
pub const SPACE: u8 = 0x20;

/// The ASCII `%`.
pub const PERCENT: u8 = 0x25;

/// The ASCII `+`.
pub const PLUS: u8 = 0x2B;

/// The ASCII `=`.
pub const EQUALS: u8 = 0x3D;

/// The value of an ASCII hexadecimal digit, of either case.
pub open spec fn hex_value(b: u8) -> Option<u8> {
    if 0x30 <= b <= 0x39 {
        Some((b - 0x30) as u8)
    } else if 0x41 <= b <= 0x46 {
        Some((b - 0x41 + 10) as u8)
    } else if 0x61 <= b <= 0x66 {
        Some((b - 0x61 + 10) as u8)
    } else {
        None
    }
}

/// Whether `bytes` begins with `%` and two hexadecimal digits.
pub open spec fn starts_with_escape(bytes: Seq<u8>) -> bool {
    &&& bytes.len() >= 3
    &&& bytes[0] == PERCENT
    &&& hex_value(bytes[1]) is Some
    &&& hex_value(bytes[2]) is Some
}

/// The byte that the escape at the head of `bytes` stands for.
pub open spec fn escaped_byte(bytes: Seq<u8>) -> u8
    recommends
        starts_with_escape(bytes),
{
    (hex_value(bytes[1])->0 * 16 + hex_value(bytes[2])->0) as u8
}

/// `bytes` with every `%XX` escape replaced by the byte `XX`, read from the
/// left. A `%` that two hexadecimal digits do not follow stays as it is.
pub open spec fn percent_decoded(bytes: Seq<u8>) -> Seq<u8>
    decreases bytes.len(),
{
    if bytes.len() == 0 {
        Seq::empty()
    } else if starts_with_escape(bytes) {
        seq![escaped_byte(bytes)] + percent_decoded(bytes.skip(3))
    } else {
        seq![bytes[0]] + percent_decoded(bytes.skip(1))
    }
}

/// The form-encoding convention for a space: `+` stands for it.
pub open spec fn plus_as_space_byte(b: u8) -> u8 {
    if b == PLUS {
        SPACE
    } else {
        b
    }
}

/// `bytes` with every `+` replaced by a space.
pub open spec fn plus_as_space(bytes: Seq<u8>) -> Seq<u8> {
    bytes.map_values(|b: u8| plus_as_space_byte(b))
}

/// The form-encoding convention on characters.
pub open spec fn plus_as_space_char(c: char) -> char {
    if c == '+' {
        ' '
    } else {
        c
    }
}

/// The bytes that a raw query stands for: `+` becomes a space, then the
/// escapes are decoded.
pub open spec fn decoded_bytes(raw: Seq<char>) -> Seq<u8> {
    percent_decoded(plus_as_space(encode_utf8(raw)))
}

/// The text that a raw query stands for, where its decoded bytes are
/// well-formed UTF-8.
pub open spec fn decoded_query(raw: Seq<char>) -> Option<Seq<char>> {
    if valid_utf8(decoded_bytes(raw)) {
        Some(decode_utf8(decoded_bytes(raw)))
    } else {
        None
    }
}

/// Whether the form encoder passes a byte on as it is: `*`, `-`, `.`, `_`,
/// the ASCII digits and the ASCII letters.
pub open spec fn kept_in_form(b: u8) -> bool {
    ||| b == 0x2A
    ||| b == 0x2D
    ||| b == 0x2E
    ||| 0x30 <= b <= 0x39
    ||| 0x41 <= b <= 0x5A
    ||| b == 0x5F
    ||| 0x61 <= b <= 0x7A
}

/// The upper-case hexadecimal digit for a value below 16.
pub open spec fn upper_hex_digit(n: u8) -> u8
    recommends
        n < 16,
{
    if n < 10 {
        (0x30 + n) as u8
    } else {
        (0x41 + n - 10) as u8
    }
}

/// One byte in `application/x-www-form-urlencoded` syntax: itself where it
/// is kept, `+` for a space, and otherwise `%` with its two upper-case
/// hexadecimal digits.
pub open spec fn form_encoded_byte(b: u8) -> Seq<u8> {
    if kept_in_form(b) {
        seq![b]
    } else if b == SPACE {
        seq![PLUS]
    } else {
        seq![PERCENT, upper_hex_digit(b / 16), upper_hex_digit(b % 16)]
    }
}

/// A byte string in `application/x-www-form-urlencoded` syntax.
pub open spec fn form_encoded(bytes: Seq<u8>) -> Seq<u8>
    decreases bytes.len(),
{
    if bytes.len() == 0 {
        Seq::empty()
    } else {
        form_encoded_byte(bytes[0]) + form_encoded(bytes.skip(1))
    }
}

/// The bytes of the pair `name=value`, both sides form-encoded from their
/// UTF-8 bytes.
pub open spec fn form_encoded_pair(name: Seq<char>, value: Seq<char>) -> Seq<u8> {
    form_encoded(encode_utf8(name)) + seq![EQUALS] + form_encoded(encode_utf8(value))
}

/// The text of a form-encoded value.
pub open spec fn encoded_text(value: Seq<char>) -> Seq<char> {
    ascii_text(form_encoded(encode_utf8(value)))
}

/// The text of the pair `name=value`.
pub open spec fn pair_text(name: Seq<char>, value: Seq<char>) -> Seq<char> {
    encoded_text(name) + seq!['='] + encoded_text(value)
}

/// Why a raw query has no decoded text.
#[derive(Debug, Clone, Copy, PartialEq, Eq)]
pub enum DecodeError {
    /// The decoded bytes are not well-formed UTF-8.
    InvalidUtf8,
}

/// Copies `bytes`, writing a space for every `+`.
pub fn replace_plus(bytes: &[u8]) -> (out: Vec<u8>)
    ensures
        out@ == plus_as_space(bytes@),
{
    let mut out: Vec<u8> = Vec::new();
    let mut i: usize = 0;
    while i < bytes.len()
        invariant
            i <= bytes.len(),
            out.len() == i,
            forall|j: int| 0 <= j < i ==> out[j] == plus_as_space_byte(#[trigger] bytes[j]),
        decreases bytes.len() - i,
    {
        let b: u8 = bytes[i];
        if b == PLUS {
            out.push(SPACE);
        } else {
            out.push(b);
        }
        i += 1;
    }
    assert(out@ =~= plus_as_space(bytes@));
    out
}

/// Decodes the raw query of a request into the command text.
///
/// Fails exactly when the decoded bytes are not well-formed UTF-8; nothing
/// is substituted for a malformed sequence.
pub fn decode_query(raw: &str) -> (r: Result<String, DecodeError>)
    ensures
        match r {
            Ok(text) => decoded_query(raw@) == Some(text@),
            Err(e) => decoded_query(raw@) is None && e == DecodeError::InvalidUtf8,
        },
{
    let spaced = replace_plus(raw.as_bytes());
    match percent_decode_utf8(spaced.as_slice()) {
        Ok(text) => Ok(text),
        Err(_) => Err(DecodeError::InvalidUtf8),
    }
}

/// Form-encoded bytes are ASCII.
pub proof fn lemma_form_encoded_is_ascii(bytes: Seq<u8>)
    ensures
        is_ascii_bytes(form_encoded(bytes)),
    decreases bytes.len(),
{
    if bytes.len() > 0 {
        lemma_form_encoded_is_ascii(bytes.skip(1));
        let head = form_encoded_byte(bytes[0]);
        let rest = form_encoded(bytes.skip(1));
        assert forall|i: int| 0 <= i < (head + rest).len() implies #[trigger] (head + rest)[i]
            < 0x80 by {
            if i >= head.len() {
                assert((head + rest)[i] == rest[i - head.len()]);
            }
        }
    }
}

/// The text of a pair spells its form-encoded bytes.
pub proof fn lemma_pair_text_encodes(name: Seq<char>, value: Seq<char>)
    ensures
        encode_utf8(pair_text(name, value)) == form_encoded_pair(name, value),
{
    let left = form_encoded(encode_utf8(name));
    let right = form_encoded(encode_utf8(value));
    let all = form_encoded_pair(name, value);
    lemma_form_encoded_is_ascii(encode_utf8(name));
    lemma_form_encoded_is_ascii(encode_utf8(value));
    assert forall|i: int| 0 <= i < all.len() implies #[trigger] all[i] < 0x80 by {
        if i < left.len() {
            assert(all[i] == left[i]);
        } else if i > left.len() {
            assert(all[i] == right[i - left.len() - 1]);
        }
    }
    lemma_ascii_text_encodes(all);
    assert(ascii_text(all) =~= pair_text(name, value));
}

/// Encodes one query parameter as `name=value`.
pub fn encode_pair(name: &str, value: &str) -> (r: String)
    ensures
        r@ == pair_text(name@, value@),
{
    let r = serialize_pair(name, value);
    proof {
        lemma_pair_text_encodes(name@, value@);
        lemma_encoding_is_injective(r@, pair_text(name@, value@));
    }
    r
}

/// Decoding undoes form encoding, byte for byte: the encoder writes `+` only
/// for a space and `%` only in front of the two digits of the byte it
/// escapes.
pub proof fn lemma_form_round_trip(bytes: Seq<u8>)
    ensures
        percent_decoded(plus_as_space(form_encoded(bytes))) == bytes,
    decreases bytes.len(),
{
    if bytes.len() > 0 {
        let b = bytes[0];
        let head = form_encoded_byte(b);
        let rest = form_encoded(bytes.skip(1));
        let spaced = plus_as_space(head + rest);
        lemma_form_round_trip(bytes.skip(1));
        assert(spaced.skip(head.len() as int) =~= plus_as_space(rest));
        if kept_in_form(b) {
            assert(spaced[0] == b);
        } else if b == SPACE {
            assert(spaced[0] == SPACE);
        } else {
            assert(spaced[0] == PERCENT);
            assert(spaced[1] == upper_hex_digit(b / 16));
            assert(spaced[2] == upper_hex_digit(b % 16));
            assert(hex_value(upper_hex_digit(b / 16)) == Some((b / 16) as u8));
            assert(hex_value(upper_hex_digit(b % 16)) == Some((b % 16) as u8));
            assert(escaped_byte(spaced) == b);
        }
        assert(percent_decoded(spaced) =~= bytes);
    }
}

/// A form-encoded value decodes to the text it was made from: whatever the
/// query, the parameter written for it reads back as that query.
pub proof fn lemma_encoded_query_decodes(query: Seq<char>)
    ensures
        decoded_query(encoded_text(query)) == Some(query),
{
    let bytes = encode_utf8(query);
    lemma_form_encoded_is_ascii(bytes);
    lemma_ascii_text_encodes(form_encoded(bytes));
    lemma_form_round_trip(bytes);
    encode_utf8_valid_utf8(query);
    encode_utf8_decode_utf8(query);
}

/// A value without a space in it is read back by percent decoding alone,
/// with no `+` to turn into a space.
pub proof fn lemma_encoded_query_percent_decodes(query: Seq<char>)
    requires
        !query.contains(' '),
    ensures
        valid_utf8(percent_decoded(encode_utf8(encoded_text(query)))),
        decode_utf8(percent_decoded(encode_utf8(encoded_text(query)))) == query,
{
    let bytes = encode_utf8(query);
    lemma_ascii_byte_in_encoding(query, SPACE);
    lemma_percent_round_trip(bytes);
    lemma_form_encoded_is_ascii(bytes);
    lemma_ascii_text_encodes(form_encoded(bytes));
    encode_utf8_valid_utf8(query);
    encode_utf8_decode_utf8(query);
}

/// Without a space in it, a form-encoded byte string is undone by percent
/// decoding alone.
pub proof fn lemma_percent_round_trip(bytes: Seq<u8>)
    requires
        !bytes.contains(SPACE),
    ensures
        percent_decoded(form_encoded(bytes)) == bytes,
{
    lemma_form_round_trip(bytes);
    lemma_no_plus_without_space(bytes);
    assert(plus_as_space(form_encoded(bytes)) =~= form_encoded(bytes));
}

/// The encoder writes `+` for a space only.
pub proof fn lemma_no_plus_without_space(bytes: Seq<u8>)
    requires
        !bytes.contains(SPACE),
    ensures
        !form_encoded(bytes).contains(PLUS),
    decreases bytes.len(),
{
    if bytes.len() > 0 {
        let head = form_encoded_byte(bytes[0]);
        let rest = form_encoded(bytes.skip(1));
        assert(bytes[0] != SPACE);
        assert forall|i: int| 0 <= i < bytes.skip(1).len() implies bytes.skip(1)[i] != SPACE by {
            assert(bytes[i + 1] != SPACE);
        }
        lemma_no_plus_without_space(bytes.skip(1));
        assert forall|i: int| 0 <= i < (head + rest).len() implies (head + rest)[i] != PLUS by {
            if i >= head.len() {
                assert(rest.contains(rest[i - head.len()]));
            }
        }
    }
}

/// Replacing `+` by a space in the bytes of a text replaces it in the text:
/// the byte `+` occurs in an encoding only as the character `+`.
pub proof fn lemma_plus_replacement_is_by_character(text: Seq<char>)
    ensures
        plus_as_space(encode_utf8(text)) == encode_utf8(
            text.map_values(|c: char| plus_as_space_char(c)),
        ),
    decreases text.len(),
{
    let replaced = text.map_values(|c: char| plus_as_space_char(c));
    if text.len() == 0 {
        assert(plus_as_space(encode_utf8(text)) =~= encode_utf8(replaced));
    } else {
        let c = text[0];
        let head = encode_scalar(c as u32);
        let tail = encode_utf8(text.drop_first());
        lemma_plus_replacement_is_by_character(text.drop_first());
        assert(replaced.drop_first() =~= text.drop_first().map_values(
            |c: char| plus_as_space_char(c),
        ));
        assert(plus_as_space(head + tail) =~= plus_as_space(head) + plus_as_space(tail));
        if c == '+' {
            assert(head =~= seq![PLUS]) by {
                assert(leading_byte_width_1(0x2B) == 0x2B) by (bit_vector);
            }
            assert(encode_scalar(' ' as u32) =~= seq![SPACE]) by {
                assert(leading_byte_width_1(0x20) == 0x20) by (bit_vector);
            }
            assert(plus_as_space(head) =~= encode_scalar(replaced[0] as u32));
        } else {
            lemma_ascii_byte_is_its_character(c, PLUS);
            assert forall|i: int| 0 <= i < head.len() implies plus_as_space(head)[i] == head[i] by {
                assert(head.contains(head[i]));
            }
            assert(plus_as_space(head) =~= encode_scalar(replaced[0] as u32));
        }
    }
}

} // verus!

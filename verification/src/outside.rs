//! The calls into other crates. What is claimed of them here is believed,
//! not proved: each contract is read off the source of the function that
//! the body calls.
use crate::codec::{form_encoded_pair, percent_decoded};
use core::str::Utf8Error;
use vstd::prelude::*;
use vstd::utf8::*;

verus! {

/// `core::str::Utf8Error`, the error of a failed UTF-8 check. The decoder
/// hands it back, and nothing in it is read.
#[verifier::external_type_specification]
#[verifier::external_body]
pub struct ExUtf8Error(Utf8Error);

/// `percent_encoding::percent_decode(input).decode_utf8()`, with the text
/// copied out of the `Cow`.
///
/// Trusted: the call succeeds exactly when the percent-decoded bytes are
/// well-formed UTF-8, and the text it gives is those bytes read as UTF-8.
/// The decoder walks the input once; at a `%` it takes the next two bytes as
/// one byte if both are hexadecimal digits, and passes every other byte on.
#[verifier::external_body]
pub(crate) fn percent_decode_utf8(input: &[u8]) -> (r: Result<String, Utf8Error>)
    ensures
        r is Ok <==> valid_utf8(percent_decoded(input@)),
        r matches Ok(text) ==> text@ == decode_utf8(percent_decoded(input@)),
{
    match percent_encoding::percent_decode(input).decode_utf8() {
        Ok(text) => Ok(text.into_owned()),
        Err(e) => Err(e),
    }
}

/// `url::form_urlencoded::Serializer::new(String::new())`, then
/// `append_pair(name, value)` and `finish()`.
///
/// Trusted: on an empty target the serializer writes the encoded name, `=`
/// and the encoded value, and nothing else. It encodes the UTF-8 bytes of
/// each side one by one: `*`, `-`, `.`, `_`, digits and letters as they are,
/// a space as `+`, any other byte as `%` and two upper-case hexadecimal
/// digits.
#[verifier::external_body]
pub(crate) fn serialize_pair(name: &str, value: &str) -> (r: String)
    ensures
        encode_utf8(r@) == form_encoded_pair(name@, value@),
{
    url::form_urlencoded::Serializer::new(String::new()).append_pair(name, value).finish()
}

} // verus!

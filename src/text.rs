//! Text conversion between the driver's byte representation and Rust strings.
//!
//! Both directions go through `encoding_rs` with UTF-8 as the database and system encoding.
use vstd::prelude::*;

verus! {

/// The characters that `encoding_rs::UTF_8.decode` produces for a byte sequence.
pub uninterp spec fn utf8_decoded(bytes: Seq<u8>) -> Seq<char>;

/// The bytes that `encoding_rs::UTF_8.encode` produces for a string.
pub uninterp spec fn utf8_encoded(text: Seq<char>) -> Seq<u8>;

/// Relies on `encoding_rs::Encoding::decode` (on `UTF_8`): the result depends on the bytes
/// alone, and no bytes decode to no characters.
#[verifier::external_body]
pub(crate) fn decode_text(bytes: &[u8]) -> (r: String)
    ensures
        r@ == utf8_decoded(bytes@),
        bytes@.len() == 0 ==> r@.len() == 0,
{
    encoding_rs::UTF_8.decode(bytes).0.into_owned()
}

/// Relies on `encoding_rs::Encoding::encode` (on `UTF_8`): the result depends on the text
/// alone, and an empty text encodes to no bytes.
#[verifier::external_body]
pub(crate) fn encode_text(text: &str) -> (r: Vec<u8>)
    ensures
        r@ == utf8_encoded(text@),
        text@.len() == 0 ==> r@.len() == 0,
{
    encoding_rs::UTF_8.encode(text).0.into_owned()
}

} // verus!

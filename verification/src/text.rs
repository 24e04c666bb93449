//! Lenient conversion of raw bytes to text.

use vstd::prelude::*;
use vstd::utf8::{decode_utf8, valid_utf8};

verus! {

/// The text that a run of raw bytes stands for: its decoding where the
/// bytes are well-formed UTF-8, and the empty text where they are not.
pub open spec fn lenient_text(bytes: Seq<u8>) -> Seq<char> {
    if valid_utf8(bytes) {
        decode_utf8(bytes)
    } else {
        Seq::empty()
    }
}

/// `std::str::from_utf8`: the bytes seen as text exactly when they are
/// well-formed UTF-8, and nothing otherwise.
#[verifier::external_body]
pub(crate) fn decode(bytes: &[u8]) -> (text: Option<&str>)
    ensures
        valid_utf8(bytes@) <==> text is Some,
        text matches Some(s) ==> s@ == decode_utf8(bytes@),
{
    std::str::from_utf8(bytes).ok()
}

/// Whether the bytes are well-formed UTF-8.
pub fn is_text(bytes: &[u8]) -> (valid: bool)
    ensures
        valid == valid_utf8(bytes@),
{
    decode(bytes).is_some()
}

/// Decodes bytes leniently: ill-formed input gives the empty text
/// instead of a failure.
pub fn text_from_bytes(bytes: &[u8]) -> (text: String)
    ensures
        text@ == lenient_text(bytes@),
{
    match decode(bytes) {
        Some(s) => s.to_owned(),
        None => String::new(),
    }
}

} // verus!

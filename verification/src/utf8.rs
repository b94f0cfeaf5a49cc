//! Text out of bytes.
use vstd::prelude::*;

verus! {

/// What `String::from_utf8_lossy` makes of bytes.
pub uninterp spec fn lossy_text(bytes: Seq<u8>) -> Seq<char>;

/// `String::from_utf8_lossy` of the standard library, turned into an owned string: bytes that are
/// valid UTF-8 come out as the text that they encode. What stands for invalid bytes is left to the
/// name.
#[verifier::external_body]
fn lossy(bytes: &[u8]) -> (r: String)
    ensures
        r@ == lossy_text(bytes@),
        vstd::utf8::valid_utf8(bytes@) ==> r@ == vstd::utf8::decode_utf8(bytes@),
{
    String::from_utf8_lossy(bytes).into_owned()
}

/// Bytes as text: what they encode where they are valid UTF-8, and else what
/// `String::from_utf8_lossy` makes of them.
pub open spec fn shown_text(bytes: Seq<u8>) -> Seq<char> {
    if vstd::utf8::valid_utf8(bytes) {
        vstd::utf8::decode_utf8(bytes)
    } else {
        lossy_text(bytes)
    }
}

/// Bytes as text.
pub(crate) fn show(bytes: &[u8]) -> (r: String)
    ensures
        r@ == shown_text(bytes@),
{
    lossy(bytes)
}

/// `String::from_utf8` of the standard library: a string exactly when the bytes are valid UTF-8, and
/// then the text that they encode.
#[verifier::external_body]
pub(crate) fn strict(bytes: Vec<u8>) -> (r: Option<String>)
    ensures
        r is Some <==> vstd::utf8::valid_utf8(bytes@),
        r matches Some(s) ==> s@ == vstd::utf8::decode_utf8(bytes@),
{
    String::from_utf8(bytes).ok()
}

} // verus!

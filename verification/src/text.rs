//! Bytes as text.

use vstd::prelude::*;
use vstd::utf8::*;

verus! {

/// Calls `core::str::from_utf8` and drops the error's detail.
///
/// Believed, not proved: there is a string slice exactly where the bytes are
/// valid UTF-8, and its bytes are then the ones given.
#[verifier::external_body]
fn str_from_utf8(bytes: &[u8]) -> (text: Option<&str>)
    ensures
        text is Some <==> valid_utf8(bytes@),
        text matches Some(t) ==> encode_utf8(t@) == bytes@,
{
    core::str::from_utf8(bytes).ok()
}

/// The text that `bytes` encode in UTF-8, or `None` where they encode none.
pub fn decode_line(bytes: &[u8]) -> (text: Option<String>)
    ensures
        text is Some <==> valid_utf8(bytes@),
        text matches Some(t) ==> t@ == decode_utf8(bytes@),
{
    match str_from_utf8(bytes) {
        Some(slice) => {
            proof {
                encode_utf8_decode_utf8(slice@);
            }
            Some(slice.to_owned())
        },
        None => None,
    }
}

} // verus!

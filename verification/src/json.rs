//! JSON text, as `serde_json` writes it.

use vstd::prelude::*;

verus! {

/// `serde_json`'s error, carried through and never looked into.
#[verifier::external_type_specification]
#[verifier::external_body]
pub struct ExJsonError(serde_json::Error);

/// What `serde_json` writes for a string: the JSON string literal with its
/// quotes and escapes, or `None` where it reports an error.
pub uninterp spec fn json_string_text(text: Seq<char>) -> Option<Seq<char>>;

/// Calls `serde_json::to_string` on a string slice.
///
/// Believed, not proved: whether it succeeds, and the literal it writes,
/// depend on the characters of `text` alone.
#[verifier::external_body]
pub(crate) fn json_string(text: &str) -> (encoded: Result<String, serde_json::Error>)
    ensures
        encoded is Ok <==> json_string_text(text@) is Some,
        encoded matches Ok(literal) ==> json_string_text(text@) == Some(literal@),
{
    serde_json::to_string(text)
}

} // verus!

//! JSON documents, read by `serde_json`.

use vstd::prelude::*;

verus! {

#[verifier::external_type_specification]
#[verifier::external_body]
pub struct ExJsonValue(serde_json::Value);

#[verifier::external_type_specification]
#[verifier::external_body]
pub struct ExJsonError(serde_json::Error);

/// What `serde_json` makes of `bytes` read as one JSON document: the value,
/// or the reason why there is none.
pub uninterp spec fn json_document(bytes: Seq<u8>) -> Result<serde_json::Value, serde_json::Error>;

/// `serde_json::from_slice` with the value type `serde_json::Value`: reads
/// `bytes` as one JSON document. Empty input is no document.
#[verifier::external_body]
pub(crate) fn json_from_slice(bytes: &[u8]) -> (r: Result<serde_json::Value, serde_json::Error>)
    ensures
        r == json_document(bytes@),
        bytes@.len() == 0 ==> r is Err,
{
    serde_json::from_slice::<serde_json::Value>(bytes)
}

} // verus!

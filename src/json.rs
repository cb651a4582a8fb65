//! Opaque structured values, carried through without being inspected.
use vstd::prelude::*;

verus! {

/// `serde_json::Value`, held as an opaque value.
#[verifier::external_type_specification]
#[verifier::external_body]
pub struct ExValue(serde_json::Value);

/// Whether `serde_json::from_str` accepts the text as a JSON value; this
/// depends on the text alone.
pub uninterp spec fn json_parses(s: Seq<char>) -> bool;

/// Relies on `serde_json::from_str::<serde_json::Value>`: parses the text as
/// one JSON value, and fails exactly where the text is not one.
#[verifier::external_body]
pub(crate) fn parse_json(s: &str) -> (r: Option<serde_json::Value>)
    ensures
        r.is_some() == json_parses(s@),
{
    serde_json::from_str::<serde_json::Value>(s).ok()
}

} // verus!

//! The capability document that a node serves about itself.
use vstd::prelude::*;
use crate::json::{json_parses, parse_json};
use crate::record::{McpMetadata, is_default_document};

verus! {

/// The version tag that the discovery answer puts around the document.
pub const DISCOVER_VERSION: &'static str = "v1";

/// The capability document: the JSON value read from its file, or the default
/// metadata where there is none.
#[derive(Debug)]
pub enum CapabilityDocument {
    Loaded(serde_json::Value),
    Fallback(McpMetadata),
}

/// The document for the outcome of parsing its file: the parsed value, or
/// the default metadata where the file could not be parsed.
pub fn capability_document(parsed: Option<serde_json::Value>) -> (r: CapabilityDocument)
    ensures
        parsed matches Some(v) ==> r == CapabilityDocument::Loaded(v),
        parsed is None ==> (r matches CapabilityDocument::Fallback(m) && is_default_document(m)),
{
    match parsed {
        Some(v) => CapabilityDocument::Loaded(v),
        None => CapabilityDocument::Fallback(McpMetadata::default_document()),
    }
}

/// The document for the text of its file, `None` where the file could not be
/// read: the text parsed as JSON where it is JSON, else the default metadata.
pub fn load_capability_document(contents: Option<&str>) -> (r: CapabilityDocument)
    ensures
        contents is None ==> (r matches CapabilityDocument::Fallback(m) && is_default_document(m)),
        contents matches Some(s) ==> (r is Loaded <==> json_parses(s@)),
        r matches CapabilityDocument::Fallback(m) ==> is_default_document(m),
{
    match contents {
        None => capability_document(None),
        Some(s) => capability_document(parse_json(s)),
    }
}

} // verus!

//! The requests that the registry answers: register, point lookup, search.
use vstd::prelude::*;
use crate::error::RegistryError;
use crate::record::{NodeRecord, SearchHit, is_projection};
use crate::store::{RegistryStore, hit_ids, info_of, registered, search_ids};
use crate::text::{is_blank, parse_capabilities, requested_capabilities};

verus! {

/// Registers a node. A blank identifier is refused with `MissingNodeId` and
/// leaves the store as it was; otherwise the record replaces in full whatever
/// stood under its identifier. Writing the store out afterwards is the
/// caller's part, and its outcome does not change this one.
pub fn register_node(store: &mut RegistryStore, payload: NodeRecord) -> (r: Result<(), RegistryError>)
    requires
        old(store).wf(),
    ensures
        final(store).wf(),
        r is Ok <==> !is_blank(payload.node_id@),
        r is Err ==> r == Err::<(), RegistryError>(RegistryError::MissingNodeId),
        final(store)@ == registered(old(store)@, payload),
{
    store.upsert(payload)
}

/// The record registered under exactly `node_id`, or `NodeNotFound`.
pub fn get_mcp_info<'a>(store: &'a RegistryStore, node_id: &str) -> (r: Result<&'a NodeRecord, RegistryError>)
    requires
        store.wf(),
    ensures
        r is Ok <==> store@.contains_key(node_id@),
        r matches Ok(x) ==> info_of(store@, node_id@) == Some(*x),
        r is Err ==> r == Err::<&NodeRecord, RegistryError>(RegistryError::NodeNotFound),
{
    match store.get(node_id) {
        Some(x) => Ok(x),
        None => Err(RegistryError::NodeNotFound),
    }
}

/// The nodes that offer every capability named in a comma-separated query,
/// each once; blank names in the query are ignored, so a blank query matches
/// every node. No match is an empty list, not a failure.
pub fn search_nodes(store: &RegistryStore, capabilities: &str) -> (r: Vec<SearchHit>)
    requires
        store.wf(),
    ensures
        hit_ids(r@).no_duplicates(),
        hit_ids(r@).to_set() == search_ids(store@, requested_capabilities(capabilities@).to_set()),
        forall|i: int|
            0 <= i < r@.len() ==> store@.contains_key(#[trigger] r@[i].node_id@)
                && is_projection(r@[i], store@[r@[i].node_id@]),
{
    let required = parse_capabilities(capabilities);
    store.search(&required)
}

} // verus!

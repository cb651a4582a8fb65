//! What holds of the registry across its operations.
use vstd::prelude::*;
use crate::record::{NodeRecord, capability_set};
use crate::store::{info_of, register_all, registered, search_ids};
use crate::text::is_blank;

verus! {

/// A lookup right after a registration finds the registered record, metadata
/// and all.
pub proof fn register_then_get(m: Map<Seq<char>, NodeRecord>, rec: NodeRecord)
    requires
        !is_blank(rec.node_id@),
    ensures
        info_of(registered(m, rec), rec.node_id@) == Some(rec),
{
}

/// A registration with a blank identifier leaves the store as it was.
pub proof fn blank_register_keeps_store(m: Map<Seq<char>, NodeRecord>, rec: NodeRecord)
    requires
        is_blank(rec.node_id@),
    ensures
        registered(m, rec) == m,
{
}

/// Registering a second record under an identifier gives the store that
/// registering only the second would: nothing of the first is kept.
pub proof fn reregister_replaces(m: Map<Seq<char>, NodeRecord>, first: NodeRecord, second: NodeRecord)
    requires
        first.node_id@ == second.node_id@,
    ensures
        registered(registered(m, first), second) == registered(m, second),
        !is_blank(second.node_id@) ==> info_of(registered(registered(m, first), second), second.node_id@)
            == Some(second),
{
    if !is_blank(second.node_id@) {
        assert(registered(registered(m, first), second) =~= registered(m, second));
    }
}

/// An empty requirement is met by every registered node.
pub proof fn empty_requirement_matches_all(m: Map<Seq<char>, NodeRecord>)
    ensures
        search_ids(m, Set::empty()) == m.dom(),
{
    assert(search_ids(m, Set::empty()) =~= m.dom());
}

/// A search for two capabilities finds exactly the nodes that have both; a
/// node that has only the first is not found.
pub proof fn two_capability_search(m: Map<Seq<char>, NodeRecord>, x: Seq<char>, y: Seq<char>)
    ensures
        forall|k: Seq<char>|
            #[trigger] search_ids(m, set![x, y]).contains(k) <==> m.contains_key(k) && capability_set(
                m[k],
            ).contains(x) && capability_set(m[k]).contains(y),
        forall|k: Seq<char>|
            m.contains_key(k) && x != y && capability_set(m[k]) == set![x] ==> !#[trigger] search_ids(
                m,
                set![x, y],
            ).contains(k),
{
    assert forall|k: Seq<char>|
        m.contains_key(k) && x != y && capability_set(m[k]) == set![x] implies !#[trigger] search_ids(
            m,
            set![x, y],
        ).contains(k) by {
        assert(!set![x].contains(y));
    }
}

/// A node that none of a sequence of registrations named is not found
/// afterwards.
pub proof fn unregistered_not_found(recs: Seq<NodeRecord>, id: Seq<char>)
    requires
        forall|i: int| 0 <= i < recs.len() ==> #[trigger] recs[i].node_id@ != id,
    ensures
        info_of(register_all(Map::empty(), recs), id) is None,
    decreases recs.len(),
{
    if recs.len() > 0 {
        unregistered_not_found(recs.drop_last(), id);
        assert(recs.last().node_id@ != id);
    }
}

} // verus!

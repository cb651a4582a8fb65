//! The registry store: every node record under its identifier.
use vstd::prelude::*;
use crate::error::RegistryError;
use crate::record::{NodeRecord, SearchHit, is_projection, satisfies};
use crate::text::{is_blank, is_blank_id, names_of};

verus! {

/// The store after registering `rec`: a blank identifier leaves it as it was;
/// any other identifier gets `rec` in full, whatever was there before.
pub open spec fn registered(
    m: Map<Seq<char>, NodeRecord>,
    rec: NodeRecord,
) -> Map<Seq<char>, NodeRecord> {
    if is_blank(rec.node_id@) {
        m
    } else {
        m.insert(rec.node_id@, rec)
    }
}

/// The store after registering each record of `recs`, first to last.
pub open spec fn register_all(
    m: Map<Seq<char>, NodeRecord>,
    recs: Seq<NodeRecord>,
) -> Map<Seq<char>, NodeRecord>
    decreases recs.len(),
{
    if recs.len() == 0 {
        m
    } else {
        registered(register_all(m, recs.drop_last()), recs.last())
    }
}

/// The record that a point lookup of `id` finds, if any.
pub open spec fn info_of(m: Map<Seq<char>, NodeRecord>, id: Seq<char>) -> Option<NodeRecord> {
    if m.contains_key(id) {
        Some(m[id])
    } else {
        None
    }
}

/// The identifiers of the records that satisfy `required`.
pub open spec fn search_ids(
    m: Map<Seq<char>, NodeRecord>,
    required: Set<Seq<char>>,
) -> Set<Seq<char>> {
    m.dom().filter(|k: Seq<char>| satisfies(m[k], required))
}

/// The identifiers of a sequence of records.
pub open spec fn record_ids(v: Seq<NodeRecord>) -> Seq<Seq<char>> {
    v.map_values(|n: NodeRecord| n.node_id@)
}

/// The identifiers of a sequence of search hits.
pub open spec fn hit_ids(v: Seq<SearchHit>) -> Seq<Seq<char>> {
    v.map_values(|h: SearchHit| h.node_id@)
}

/// The records, with no two under one identifier, and a map from each
/// identifier to its record.
pub struct RegistryStore {
    nodes: Vec<NodeRecord>,
    model: Ghost<Map<Seq<char>, NodeRecord>>,
}

/// The records and the map agree: each record stands in the map under its
/// identifier, each key of the map is the identifier of a record, no two
/// records share an identifier, and no key is blank.
pub open spec fn consistent(nodes: Seq<NodeRecord>, m: Map<Seq<char>, NodeRecord>) -> bool {
    &&& forall|i: int|
        0 <= i < nodes.len() ==> m.contains_key(#[trigger] nodes[i].node_id@) && m[nodes[i].node_id@]
            == nodes[i]
    &&& forall|k: Seq<char>|
        #[trigger] m.contains_key(k) ==> exists|i: int| 0 <= i < nodes.len() && nodes[i].node_id@ == k
    &&& forall|i: int, j: int|
        0 <= i < nodes.len() && 0 <= j < nodes.len() && i != j ==> nodes[i].node_id@
            != nodes[j].node_id@
    &&& forall|k: Seq<char>| #[trigger] m.contains_key(k) ==> !is_blank(k)
}

impl View for RegistryStore {
    type V = Map<Seq<char>, NodeRecord>;

    closed spec fn view(&self) -> Map<Seq<char>, NodeRecord> {
        self.model@
    }
}

impl RegistryStore {
    /// Each record stands under its own identifier, once, and no identifier
    /// is blank.
    pub closed spec fn wf(&self) -> bool {
        consistent(self.nodes@, self.model@)
    }

    /// An empty store.
    pub fn new() -> (r: RegistryStore)
        ensures
            r.wf(),
            r@ == Map::<Seq<char>, NodeRecord>::empty(),
    {
        RegistryStore { nodes: Vec::new(), model: Ghost(Map::empty()) }
    }

    /// The number of registered nodes.
    pub fn len(&self) -> (r: usize)
        requires
            self.wf(),
        ensures
            r == self@.len(),
    {
        proof {
            self.lemma_len();
        }
        self.nodes.len()
    }

    proof fn lemma_len(&self)
        requires
            consistent(self.nodes@, self.model@),
        ensures
            self.model@.len() == self.nodes@.len(),
            self.model@.dom() == record_ids(self.nodes@).to_set(),
            record_ids(self.nodes@).no_duplicates(),
    {
        let ids = record_ids(self.nodes@);
        assert(self.model@.dom() =~= ids.to_set()) by {
            assert forall|k: Seq<char>| self.model@.contains_key(k) implies ids.contains(k) by {
                let i = choose|i: int| 0 <= i < self.nodes@.len() && self.nodes@[i].node_id@ == k;
                assert(ids[i] == k);
            }
            assert forall|k: Seq<char>| ids.contains(k) implies self.model@.contains_key(k) by {
                let i = choose|i: int| 0 <= i < ids.len() && ids[i] == k;
                assert(self.nodes@[i].node_id@ == k);
            }
        }
        assert(ids.no_duplicates()) by {
            assert forall|i: int, j: int| 0 <= i < ids.len() && 0 <= j < ids.len() && i != j implies ids[i] != ids[j] by {
                assert(ids[i] == self.nodes@[i].node_id@);
                assert(ids[j] == self.nodes@[j].node_id@);
            }
        }
        ids.unique_seq_to_set();
    }

    /// Every record, each once, in no promised order.
    pub fn records(&self) -> (r: &Vec<NodeRecord>)
        requires
            self.wf(),
        ensures
            record_ids(r@).no_duplicates(),
            record_ids(r@).to_set() == self@.dom(),
            forall|i: int| 0 <= i < r@.len() ==> self@[#[trigger] r@[i].node_id@] == r@[i],
    {
        proof {
            self.lemma_len();
        }
        &self.nodes
    }

    /// Registers `record` under its identifier, replacing in full any record
    /// that was there. A blank identifier is refused and changes nothing.
    pub fn upsert(&mut self, record: NodeRecord) -> (r: Result<(), RegistryError>)
        requires
            old(self).wf(),
        ensures
            final(self).wf(),
            r.is_err() == is_blank(record.node_id@),
            r.is_err() ==> r == Err::<(), RegistryError>(RegistryError::MissingNodeId),
            final(self)@ == registered(old(self)@, record),
    {
        if is_blank_id(record.node_id.as_str()) {
            return Err(RegistryError::MissingNodeId);
        }
        let ghost rec = record;
        let ghost k = record.node_id@;
        let ghost old_nodes = self.nodes@;
        let ghost old_model = self.model@;
        let mut i: usize = 0;
        while i < self.nodes.len()
            invariant
                i <= self.nodes@.len(),
                self.nodes@ == old_nodes,
                self.model@ == old_model,
                old(self)@ == old_model,
                consistent(old_nodes, old_model),
                rec == record,
                k == rec.node_id@,
                !is_blank(k),
                forall|j: int| 0 <= j < i ==> #[trigger] old_nodes[j].node_id@ != k,
            decreases self.nodes@.len() - i,
        {
            if self.nodes[i].node_id == record.node_id {
                self.nodes.set(i, record);
                self.model = Ghost(old_model.insert(k, rec));
                proof {
                    let nn = self.nodes@;
                    let nm = self.model@;
                    assert forall|j: int| 0 <= j < nn.len() implies nm.contains_key(
                        #[trigger] nn[j].node_id@,
                    ) && nm[nn[j].node_id@] == nn[j] by {
                        if j != i {
                            assert(old_nodes[j] == nn[j]);
                        }
                    }
                    assert forall|q: Seq<char>| #[trigger] nm.contains_key(q) implies exists|j: int|
                        0 <= j < nn.len() && nn[j].node_id@ == q by {
                        if q == k {
                            assert(nn[i as int].node_id@ == q);
                        } else {
                            assert(old_model.contains_key(q));
                            let j = choose|j: int|
                                0 <= j < old_nodes.len() && old_nodes[j].node_id@ == q;
                            assert(j != i);
                            assert(nn[j].node_id@ == q);
                        }
                    }
                    assert forall|a: int, b: int|
                        0 <= a < nn.len() && 0 <= b < nn.len() && a != b implies nn[a].node_id@
                        != nn[b].node_id@ by {
                        assert(nn[a].node_id@ == old_nodes[a].node_id@);
                        assert(nn[b].node_id@ == old_nodes[b].node_id@);
                    }
                }
                return Ok(());
            }
            i = i + 1;
        }
        self.nodes.push(record);
        self.model = Ghost(old_model.insert(k, rec));
        proof {
            let nn = self.nodes@;
            let nm = self.model@;
            let n = old_nodes.len() as int;
            assert(!old_model.contains_key(k)) by {
                if old_model.contains_key(k) {
                    let j = choose|j: int| 0 <= j < old_nodes.len() && old_nodes[j].node_id@ == k;
                    assert(old_nodes[j].node_id@ != k);
                }
            }
            assert forall|j: int| 0 <= j < nn.len() implies nm.contains_key(
                #[trigger] nn[j].node_id@,
            ) && nm[nn[j].node_id@] == nn[j] by {
                if j < n {
                    assert(old_nodes[j] == nn[j]);
                }
            }
            assert forall|q: Seq<char>| #[trigger] nm.contains_key(q) implies exists|j: int|
                0 <= j < nn.len() && nn[j].node_id@ == q by {
                if q == k {
                    assert(nn[n].node_id@ == q);
                } else {
                    assert(old_model.contains_key(q));
                    let j = choose|j: int| 0 <= j < old_nodes.len() && old_nodes[j].node_id@ == q;
                    assert(nn[j].node_id@ == q);
                }
            }
            assert forall|a: int, b: int|
                0 <= a < nn.len() && 0 <= b < nn.len() && a != b implies nn[a].node_id@
                != nn[b].node_id@ by {
                if a < n {
                    assert(nn[a] == old_nodes[a]);
                }
                if b < n {
                    assert(nn[b] == old_nodes[b]);
                }
            }
        }
        Ok(())
    }

    /// The record registered under exactly `node_id`, if any; the identifier
    /// is compared as it stands, case and whitespace included.
    pub fn get(&self, node_id: &str) -> (r: Option<&NodeRecord>)
        requires
            self.wf(),
        ensures
            match r {
                Some(x) => info_of(self@, node_id@) == Some(*x),
                None => info_of(self@, node_id@) is None,
            },
    {
        let key = node_id.to_string();
        let mut i: usize = 0;
        while i < self.nodes.len()
            invariant
                i <= self.nodes@.len(),
                consistent(self.nodes@, self.model@),
                key@ == node_id@,
                forall|j: int| 0 <= j < i ==> #[trigger] self.nodes@[j].node_id@ != key@,
            decreases self.nodes@.len() - i,
        {
            if self.nodes[i].node_id == key {
                return Some(&self.nodes[i]);
            }
            i = i + 1;
        }
        proof {
            if self.model@.contains_key(key@) {
                let j = choose|j: int|
                    0 <= j < self.nodes@.len() && self.nodes@[j].node_id@ == key@;
                assert(self.nodes@[j].node_id@ != key@);
            }
        }
        None
    }

    /// What a search shows of every record that has all the `required`
    /// capabilities, each record once, in no promised order. An empty
    /// requirement matches every record.
    pub fn search(&self, required: &Vec<String>) -> (r: Vec<SearchHit>)
        requires
            self.wf(),
        ensures
            hit_ids(r@).no_duplicates(),
            hit_ids(r@).to_set() == search_ids(self@, names_of(required@).to_set()),
            forall|i: int|
                0 <= i < r@.len() ==> self@.contains_key(#[trigger] r@[i].node_id@)
                    && is_projection(r@[i], self@[r@[i].node_id@]),
    {
        let ghost req = names_of(required@).to_set();
        let ghost nodes = self.nodes@;
        let ghost m = self.model@;
        let mut out: Vec<SearchHit> = Vec::new();
        let mut i: usize = 0;
        while i < self.nodes.len()
            invariant
                i <= nodes.len(),
                nodes == self.nodes@,
                m == self.model@,
                req == names_of(required@).to_set(),
                consistent(nodes, m),
                hit_ids(out@).no_duplicates(),
                hit_ids(out@).to_set() == Set::new(
                    |k: Seq<char>|
                        exists|j: int| 0 <= j < i && nodes[j].node_id@ == k && satisfies(nodes[j], req),
                ),
                forall|h: int|
                    0 <= h < out@.len() ==> m.contains_key(#[trigger] out@[h].node_id@)
                        && is_projection(out@[h], m[out@[h].node_id@]),
            decreases nodes.len() - i,
        {
            let ghost before = hit_ids(out@);
            if self.nodes[i].mcp.has_all(required) {
                let hit = self.nodes[i].project();
                out.push(hit);
                proof {
                    let k = nodes[i as int].node_id@;
                    assert(hit_ids(out@) =~= before.push(k));
                    assert(!before.contains(k)) by {
                        if before.contains(k) {
                            let h = choose|h: int| 0 <= h < before.len() && before[h] == k;
                            assert(before.to_set().contains(k));
                            let j = choose|j: int|
                                0 <= j < i && nodes[j].node_id@ == k && satisfies(nodes[j], req);
                            assert(j != i);
                        }
                    }
                    assert(hit_ids(out@).no_duplicates()) by {
                        let s = hit_ids(out@);
                        assert forall|a: int, b: int|
                            0 <= a < s.len() && 0 <= b < s.len() && a != b implies s[a] != s[b] by {
                            if a < before.len() && b < before.len() {
                                assert(s[a] == before[a] && s[b] == before[b]);
                            } else if a < before.len() {
                                assert(s[a] == before[a]);
                            } else if b < before.len() {
                                assert(s[b] == before[b]);
                            }
                        }
                    }
                    assert(hit_ids(out@).to_set() =~= Set::new(
                        |q: Seq<char>|
                            exists|j: int|
                                0 <= j < i + 1 && nodes[j].node_id@ == q && satisfies(nodes[j], req),
                    )) by {
                        assert forall|q: Seq<char>| hit_ids(out@).to_set().contains(q) implies exists|j: int|
                                0 <= j < i + 1 && nodes[j].node_id@ == q && satisfies(nodes[j], req) by {
                            if q != k {
                                assert(before.contains(q)) by {
                                    let h = choose|h: int| 0 <= h < hit_ids(out@).len() && hit_ids(out@)[h] == q;
                                    assert(h < before.len());
                                    assert(before[h] == q);
                                }
                                assert(before.to_set().contains(q));
                            }
                        }
                        assert forall|q: Seq<char>| (exists|j: int|
                                0 <= j < i + 1 && nodes[j].node_id@ == q && satisfies(nodes[j], req)) implies hit_ids(out@).to_set().contains(q) by {
                            let j = choose|j: int|
                                0 <= j < i + 1 && nodes[j].node_id@ == q && satisfies(nodes[j], req);
                            if j < i {
                                assert(before.to_set().contains(q));
                                let h = choose|h: int| 0 <= h < before.len() && before[h] == q;
                                assert(hit_ids(out@)[h] == q);
                            } else {
                                assert(hit_ids(out@)[before.len() as int] == q);
                            }
                        }
                    }
                    assert forall|h: int|
                        0 <= h < out@.len() implies m.contains_key(#[trigger] out@[h].node_id@)
                            && is_projection(out@[h], m[out@[h].node_id@]) by {
                        if h == out@.len() - 1 {
                            assert(out@[h] == hit);
                            assert(nodes[i as int].node_id@ == k);
                        }
                    }
                }
            } else {
                proof {
                    assert(!satisfies(nodes[i as int], req));
                    assert(hit_ids(out@).to_set() =~= Set::new(
                        |q: Seq<char>|
                            exists|j: int|
                                0 <= j < i + 1 && nodes[j].node_id@ == q && satisfies(nodes[j], req),
                    )) by {
                        assert forall|q: Seq<char>| (exists|j: int|
                                0 <= j < i + 1 && nodes[j].node_id@ == q && satisfies(nodes[j], req)) implies hit_ids(out@).to_set().contains(q) by {
                            let j = choose|j: int|
                                0 <= j < i + 1 && nodes[j].node_id@ == q && satisfies(nodes[j], req);
                            assert(j != i);
                        }
                    }
                }
            }
            i = i + 1;
        }
        proof {
            assert(hit_ids(out@).to_set() =~= search_ids(m, req)) by {
                assert forall|q: Seq<char>| search_ids(m, req).contains(q) implies hit_ids(out@).to_set().contains(q) by {
                    let j = choose|j: int| 0 <= j < nodes.len() && nodes[j].node_id@ == q;
                    assert(m[nodes[j].node_id@] == nodes[j]);
                }
                assert forall|q: Seq<char>| hit_ids(out@).to_set().contains(q) implies search_ids(m, req).contains(q) by {
                    let j = choose|j: int| 0 <= j < nodes.len() && nodes[j].node_id@ == q && satisfies(nodes[j], req);
                    assert(m[nodes[j].node_id@] == nodes[j]);
                }
            }
        }
        out
    }

    /// The store that a durable file describes. `None` stands for a file that
    /// is missing or could not be read or parsed, and gives an empty store.
    /// Otherwise the records are registered in order: a later record under
    /// an identifier replaces an earlier one, and a record with a blank
    /// identifier is left out.
    pub fn load(loaded: Option<Vec<NodeRecord>>) -> (r: RegistryStore)
        ensures
            r.wf(),
            loaded is None ==> r@ == Map::<Seq<char>, NodeRecord>::empty(),
            loaded matches Some(v) ==> r@ == register_all(Map::empty(), v@),
    {
        let mut store = RegistryStore::new();
        match loaded {
            None => store,
            Some(v) => {
                let ghost all = v@;
                let n: usize = v.len();
                let mut rest = v;
                let mut done: usize = 0;
                while rest.len() > 0
                    invariant
                        store.wf(),
                        done <= all.len(),
                        all.len() == n,
                        rest@ == all.subrange(done as int, all.len() as int),
                        store@ == register_all(Map::empty(), all.subrange(0, done as int)),
                    decreases rest@.len(),
                {
                    let rec = rest.remove(0);
                    let _ = store.upsert(rec);
                    proof {
                        assert(all.subrange(0, done + 1).drop_last() =~= all.subrange(0, done as int));
                        assert(all.subrange(0, done + 1).last() == rec);
                    }
                    done = done + 1;
                    assert(rest@ =~= all.subrange(done as int, all.len() as int));
                }
                assert(all.subrange(0, done as int) =~= all);
                store
            },
        }
    }
}

} // verus!

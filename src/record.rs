//! Node records and what a search shows of them.
use vstd::prelude::*;
use crate::text::names_of;

verus! {

/// What a node advertises of itself.
#[derive(Debug)]
pub struct McpMetadata {
    pub enabled: bool,
    pub http_url: Option<String>,
    pub stdio: bool,
    pub capabilities: Vec<String>,
    pub tools: Vec<serde_json::Value>,
    pub resources: Vec<serde_json::Value>,
}

/// One registered node.
#[derive(Debug)]
pub struct NodeRecord {
    pub node_id: String,
    pub public_url: Option<String>,
    pub mcp: McpMetadata,
}

/// What a search shows of a record: no tools and no resources.
#[derive(Debug)]
pub struct SearchHit {
    pub node_id: String,
    pub public_url: Option<String>,
    pub http_url: Option<String>,
    pub capabilities: Vec<String>,
}

/// The set of capability names of a record; order and repeats do not count.
pub open spec fn capability_set(rec: NodeRecord) -> Set<Seq<char>> {
    names_of(rec.mcp.capabilities@).to_set()
}

/// A record satisfies a requirement when it has every required capability.
pub open spec fn satisfies(rec: NodeRecord, required: Set<Seq<char>>) -> bool {
    required.subset_of(capability_set(rec))
}

/// `hit` shows exactly the identifier, the URLs and the capabilities of `rec`.
pub open spec fn is_projection(hit: SearchHit, rec: NodeRecord) -> bool {
    &&& hit.node_id == rec.node_id
    &&& hit.public_url == rec.public_url
    &&& hit.http_url == rec.mcp.http_url
    &&& hit.capabilities@ == rec.mcp.capabilities@
}

/// The metadata of a node that has said nothing of itself: enabled, no URL,
/// no alternate transport, no capabilities, tools or resources.
pub open spec fn is_default_document(m: McpMetadata) -> bool {
    &&& m.enabled
    &&& m.http_url is None
    &&& !m.stdio
    &&& m.capabilities@.len() == 0
    &&& m.tools@.len() == 0
    &&& m.resources@.len() == 0
}

fn clone_opt_string(s: &Option<String>) -> (r: Option<String>)
    ensures
        r == *s,
{
    match s {
        Some(v) => Some(v.clone()),
        None => None,
    }
}

fn clone_strings(v: &Vec<String>) -> (r: Vec<String>)
    ensures
        r@ == v@,
{
    let mut out: Vec<String> = Vec::new();
    let mut i: usize = 0;
    while i < v.len()
        invariant
            i <= v@.len(),
            out@ == v@.subrange(0, i as int),
        decreases v@.len() - i,
    {
        out.push(v[i].clone());
        i = i + 1;
    }
    assert(out@ =~= v@);
    out
}

impl McpMetadata {
    /// The document served when no capability document can be loaded.
    pub fn default_document() -> (r: McpMetadata)
        ensures
            is_default_document(r),
    {
        McpMetadata {
            enabled: true,
            http_url: None,
            stdio: false,
            capabilities: Vec::new(),
            tools: Vec::new(),
            resources: Vec::new(),
        }
    }

    /// Whether every required name is among this node's capabilities.
    pub fn has_all(&self, required: &Vec<String>) -> (r: bool)
        ensures
            r == names_of(required@).to_set().subset_of(names_of(self.capabilities@).to_set()),
    {
        let ghost caps = names_of(self.capabilities@);
        let ghost req = names_of(required@);
        let mut i: usize = 0;
        while i < required.len()
            invariant
                i <= required@.len(),
                caps == names_of(self.capabilities@),
                req == names_of(required@),
                forall|j: int| 0 <= j < i ==> caps.contains(#[trigger] req[j]),
            decreases required@.len() - i,
        {
            let mut found = false;
            let mut k: usize = 0;
            while k < self.capabilities.len()
                invariant
                    i < required@.len(),
                    k <= self.capabilities@.len(),
                    caps == names_of(self.capabilities@),
                    req == names_of(required@),
                    found <==> exists|m: int| 0 <= m < k && caps[m] == req[i as int],
                decreases self.capabilities@.len() - k,
            {
                assert(caps[k as int] == self.capabilities@[k as int]@);
                assert(req[i as int] == required@[i as int]@);
                if self.capabilities[k] == required[i] {
                    found = true;
                }
                k = k + 1;
            }
            if !found {
                assert(!caps.contains(req[i as int]));
                assert(req.to_set().contains(req[i as int]));
                return false;
            }
            i = i + 1;
        }
        assert forall|x: Seq<char>| req.to_set().contains(x) implies caps.to_set().contains(x) by {
            let j = choose|j: int| 0 <= j < req.len() && req[j] == x;
            assert(caps.contains(req[j]));
        }
        true
    }
}

impl NodeRecord {
    /// What a search shows of this record.
    pub fn project(&self) -> (r: SearchHit)
        ensures
            is_projection(r, *self),
    {
        SearchHit {
            node_id: self.node_id.clone(),
            public_url: clone_opt_string(&self.public_url),
            http_url: clone_opt_string(&self.mcp.http_url),
            capabilities: clone_strings(&self.mcp.capabilities),
        }
    }
}

} // verus!

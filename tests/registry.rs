use node_registry::capability::{load_capability_document, capability_document, CapabilityDocument, DISCOVER_VERSION};
use node_registry::error::RegistryError;
use node_registry::record::{McpMetadata, NodeRecord};
use node_registry::service::{get_mcp_info, register_node, search_nodes};
use node_registry::store::RegistryStore;
use node_registry::text::{is_blank_id, parse_capabilities};
use serde_json::Value;

fn strings(items: &[&str]) -> Vec<String> {
    items.iter().map(|s| s.to_string()).collect()
}

fn node(id: &str, caps: &[&str]) -> NodeRecord {
    NodeRecord {
        node_id: id.to_string(),
        public_url: Some(format!("http://{id}.example")),
        mcp: McpMetadata {
            enabled: true,
            http_url: Some(format!("http://{id}.example/mcp")),
            stdio: false,
            capabilities: strings(caps),
            tools: vec![Value::String(format!("{id}-tool"))],
            resources: vec![Value::Bool(true), Value::Null],
        },
    }
}

fn sorted_ids(store: &RegistryStore, query: &str) -> Vec<String> {
    let mut ids: Vec<String> = search_nodes(store, query).into_iter().map(|h| h.node_id).collect();
    ids.sort();
    ids
}

#[test]
fn end_to_end_register_search_lookup() {
    let mut store = RegistryStore::new();
    let mut n1 = node("n1", &["chat", "embed"]);
    n1.mcp.tools = vec![serde_json::from_str(r#"{"name":"ask","args":[1,2]}"#).unwrap()];
    n1.mcp.resources = vec![Value::String("docs".to_string())];
    assert_eq!(register_node(&mut store, n1), Ok(()));

    assert_eq!(sorted_ids(&store, "chat"), strings(&["n1"]));
    assert!(search_nodes(&store, "chat,summarize").is_empty());

    let info = get_mcp_info(&store, "n1").unwrap();
    assert_eq!(info.node_id, "n1");
    assert_eq!(info.mcp.capabilities, strings(&["chat", "embed"]));
    assert_eq!(
        info.mcp.tools,
        vec![serde_json::from_str::<Value>(r#"{"name":"ask","args":[1,2]}"#).unwrap()]
    );
    assert_eq!(info.mcp.resources, vec![Value::String("docs".to_string())]);

    assert_eq!(get_mcp_info(&store, "n2").unwrap_err(), RegistryError::NodeNotFound);
}

#[test]
fn register_then_get_returns_registered_metadata() {
    let mut store = RegistryStore::new();
    let rec = node("alpha", &["a", "b"]);
    assert!(register_node(&mut store, rec).is_ok());
    let info = get_mcp_info(&store, "alpha").unwrap();
    assert_eq!(info.public_url.as_deref(), Some("http://alpha.example"));
    assert!(info.mcp.enabled);
    assert!(!info.mcp.stdio);
    assert_eq!(info.mcp.http_url.as_deref(), Some("http://alpha.example/mcp"));
    assert_eq!(info.mcp.capabilities, strings(&["a", "b"]));
    assert_eq!(info.mcp.tools, vec![Value::String("alpha-tool".to_string())]);
    assert_eq!(info.mcp.resources, vec![Value::Bool(true), Value::Null]);
}

#[test]
fn blank_node_id_is_rejected_and_changes_nothing() {
    let mut store = RegistryStore::new();
    register_node(&mut store, node("kept", &["x"])).unwrap();
    for id in ["", " ", "   ", "\t\n", "\u{3000}\u{a0}"] {
        assert_eq!(register_node(&mut store, node(id, &["y"])), Err(RegistryError::MissingNodeId));
        assert_eq!(store.len(), 1);
    }
    assert_eq!(sorted_ids(&store, ""), strings(&["kept"]));
}

#[test]
fn node_id_with_surrounding_spaces_is_kept_as_given() {
    let mut store = RegistryStore::new();
    assert!(register_node(&mut store, node(" n1 ", &[])).is_ok());
    assert!(get_mcp_info(&store, " n1 ").is_ok());
    assert_eq!(get_mcp_info(&store, "n1").unwrap_err(), RegistryError::NodeNotFound);
    assert_eq!(get_mcp_info(&store, "N1 ").unwrap_err(), RegistryError::NodeNotFound);
}

#[test]
fn reregistering_replaces_the_whole_record() {
    let mut store = RegistryStore::new();
    register_node(&mut store, node("n1", &["chat", "embed"])).unwrap();
    let mut second = node("n1", &["summarize"]);
    second.public_url = None;
    second.mcp.tools = Vec::new();
    second.mcp.resources = Vec::new();
    register_node(&mut store, second).unwrap();

    assert_eq!(store.len(), 1);
    let info = get_mcp_info(&store, "n1").unwrap();
    assert_eq!(info.public_url, None);
    assert_eq!(info.mcp.capabilities, strings(&["summarize"]));
    assert!(info.mcp.tools.is_empty());
    assert!(info.mcp.resources.is_empty());
    assert!(search_nodes(&store, "chat").is_empty());
    assert_eq!(sorted_ids(&store, "summarize"), strings(&["n1"]));
}

#[test]
fn empty_requirement_returns_every_node_once() {
    let mut store = RegistryStore::new();
    register_node(&mut store, node("a", &["x"])).unwrap();
    register_node(&mut store, node("b", &[])).unwrap();
    let mut disabled = node("c", &["y"]);
    disabled.mcp.enabled = false;
    register_node(&mut store, disabled).unwrap();
    register_node(&mut store, node("a", &["z"])).unwrap();
    for query in ["", " ", ",", " , ,"] {
        assert_eq!(sorted_ids(&store, query), strings(&["a", "b", "c"]));
    }
}

#[test]
fn two_capability_search_needs_both() {
    let mut store = RegistryStore::new();
    register_node(&mut store, node("only_x", &["x"])).unwrap();
    register_node(&mut store, node("both", &["y", "x"])).unwrap();
    register_node(&mut store, node("more", &["x", "z", "y", "x"])).unwrap();
    register_node(&mut store, node("only_y", &["y"])).unwrap();
    assert_eq!(sorted_ids(&store, "x,y"), strings(&["both", "more"]));
    assert_eq!(sorted_ids(&store, " y , x ,"), strings(&["both", "more"]));
    assert_eq!(sorted_ids(&store, "x"), strings(&["both", "more", "only_x"]));
    assert!(search_nodes(&store, "X").is_empty());
}

#[test]
fn search_hit_shows_only_the_projection() {
    let mut store = RegistryStore::new();
    register_node(&mut store, node("n1", &["chat"])).unwrap();
    let hits = search_nodes(&store, "chat");
    assert_eq!(hits.len(), 1);
    assert_eq!(hits[0].node_id, "n1");
    assert_eq!(hits[0].public_url.as_deref(), Some("http://n1.example"));
    assert_eq!(hits[0].http_url.as_deref(), Some("http://n1.example/mcp"));
    assert_eq!(hits[0].capabilities, strings(&["chat"]));
}

#[test]
fn lookup_of_unregistered_node_is_not_found() {
    let store = RegistryStore::new();
    assert_eq!(get_mcp_info(&store, "ghost").unwrap_err(), RegistryError::NodeNotFound);
    let mut store = RegistryStore::new();
    register_node(&mut store, node("n1", &[])).unwrap();
    assert_eq!(get_mcp_info(&store, "n2").unwrap_err(), RegistryError::NodeNotFound);
    assert!(store.get("n2").is_none());
}

#[test]
fn load_of_missing_or_corrupt_file_is_empty() {
    let store = RegistryStore::load(None);
    assert_eq!(store.len(), 0);
    assert!(search_nodes(&store, "").is_empty());
    assert!(store.records().is_empty());
}

#[test]
fn load_registers_records_in_order() {
    let mut later = node("a", &["new"]);
    later.public_url = None;
    let store = RegistryStore::load(Some(vec![node("a", &["old"]), node(" ", &[]), node("b", &[]), later]));
    assert_eq!(store.len(), 2);
    let a = get_mcp_info(&store, "a").unwrap();
    assert_eq!(a.mcp.capabilities, strings(&["new"]));
    assert_eq!(a.public_url, None);
    assert!(get_mcp_info(&store, " ").is_err());
    let mut ids: Vec<String> = store.records().iter().map(|r| r.node_id.clone()).collect();
    ids.sort();
    assert_eq!(ids, strings(&["a", "b"]));
}

#[test]
fn query_is_split_trimmed_and_filtered() {
    assert_eq!(parse_capabilities(" chat , ,embed,,"), strings(&["chat", "embed"]));
    assert_eq!(parse_capabilities("a b,\tc\n"), strings(&["a b", "c"]));
    assert_eq!(parse_capabilities(""), Vec::<String>::new());
    assert_eq!(parse_capabilities(" , "), Vec::<String>::new());
}

#[test]
fn blank_identifiers() {
    assert!(is_blank_id(""));
    assert!(is_blank_id(" \t\r\n"));
    assert!(is_blank_id("\u{2028}\u{85}"));
    assert!(!is_blank_id(" x "));
    assert!(!is_blank_id("n1"));
}

#[test]
fn errors_report_status_and_message() {
    assert_eq!(RegistryError::MissingNodeId.status_code(), 400);
    assert_eq!(RegistryError::MissingNodeId.message(), "node_id is required");
    assert_eq!(RegistryError::NodeNotFound.status_code(), 404);
    assert_eq!(RegistryError::NodeNotFound.message(), "node not found");
}

#[test]
fn capability_document_from_file_text() {
    match load_capability_document(Some(r#"{"enabled":false,"capabilities":["chat"]}"#)) {
        CapabilityDocument::Loaded(v) => {
            assert_eq!(v["enabled"], Value::Bool(false));
            assert_eq!(v["capabilities"][0], Value::String("chat".to_string()));
        }
        CapabilityDocument::Fallback(_) => panic!("expected the parsed document"),
    }
}

#[test]
fn capability_document_falls_back_to_default() {
    for contents in [None, Some("not json"), Some("{\"enabled\":")] {
        match load_capability_document(contents) {
            CapabilityDocument::Fallback(m) => {
                assert!(m.enabled);
                assert_eq!(m.http_url, None);
                assert!(!m.stdio);
                assert!(m.capabilities.is_empty());
                assert!(m.tools.is_empty());
                assert!(m.resources.is_empty());
            }
            CapabilityDocument::Loaded(_) => panic!("expected the default document"),
        }
    }
    assert!(matches!(capability_document(Some(Value::Null)), CapabilityDocument::Loaded(Value::Null)));
    assert_eq!(DISCOVER_VERSION, "v1");
}

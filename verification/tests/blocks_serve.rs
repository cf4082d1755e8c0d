use lexiang::blocks::{
    collect_section, described_block, find_blocks, listed_blocks, listed_children, Block, BlockType, FindMode,
    HeadingNotFound,
};
use lexiang::output::{JsonNumber, JsonObject, JsonValue};
use lexiang::paths::{
    check_migration_needed, datadir, datadir_in, join_path, migrated_subdirs, should_copy_subdir,
    worktrees_registry_path, DATA_DIR_NAME,
};
use lexiang::serve::error_codes::{INVALID_PARAMS, NETWORK_ERROR};
use lexiang::serve::{client_step, mcp_reply_result, require_str, ClientStep, JsonRpcError, ServeState};
use lexiang::transport::{rpc_outcome, RpcErrorBody};

fn block(id: &str, t: BlockType, text: Option<&str>, children: Vec<Block>) -> Block {
    Block { id: id.to_string(), block_type: t, text: text.map(|s| s.to_string()), children }
}

fn h(level: u8) -> BlockType {
    BlockType::Heading { level }
}

fn p() -> BlockType {
    BlockType::Other { name: "p".to_string() }
}

fn page() -> Block {
    block(
        "root",
        p(),
        None,
        vec![
            block("h1", h(1), Some("Intro"), vec![]),
            block("a", p(), Some("Hello World"), vec![]),
            block("h2", h(2), Some(" Details "), vec![block("c", p(), Some("nested world"), vec![])]),
            block("b", p(), Some("more"), vec![]),
            block("h3", h(1), Some("Next"), vec![]),
        ],
    )
}

#[test]
fn section_stops_at_same_level_heading() {
    let root = page();
    let (head, section) = collect_section(&root, "## Intro").unwrap();
    assert_eq!(head.id, "h1");
    let ids: Vec<&str> = section.iter().map(|b| b.id.as_str()).collect();
    assert_eq!(ids, vec!["a", "h2", "b"]);
    let (head, section) = collect_section(&root, "Details").unwrap();
    assert_eq!(head.id, "h2");
    let ids: Vec<&str> = section.iter().map(|b| b.id.as_str()).collect();
    assert_eq!(ids, vec!["b"]);
    let e = collect_section(&root, "Missing").unwrap_err();
    assert_eq!(e, HeadingNotFound { heading: "Missing".to_string() });
    assert_eq!(e.message(), "Heading not found: Missing");
}

#[test]
fn find_blocks_by_text_heading_and_type() {
    let root = page();
    let found = find_blocks(&root, "WORLD", FindMode::Text);
    let ids: Vec<&str> = found.iter().map(|m| m.id.as_str()).collect();
    assert_eq!(ids, vec!["a", "c"]);
    assert_eq!(found[1].path, vec!["root", "h2", "c"]);
    let found = find_blocks(&root, "# Details", FindMode::Heading);
    assert_eq!(found.len(), 1);
    assert_eq!(found[0].path, vec!["root", "h2"]);
    let found = find_blocks(&root, "h1", FindMode::Type);
    let ids: Vec<&str> = found.iter().map(|m| m.id.as_str()).collect();
    assert_eq!(ids, vec!["h1", "h3"]);
    assert_eq!(found[1].path, vec!["h3"]);
    assert_eq!(BlockType::from_name("p"), p());
}

fn jobj(entries: Vec<(&str, JsonValue)>) -> JsonValue {
    JsonValue::Object(JsonObject {
        entries: entries.into_iter().map(|(k, v)| (k.to_string(), v)).collect(),
        json: String::new(),
    })
}

#[test]
fn mcp_replies() {
    let ok = jobj(vec![
        ("code", JsonValue::Number(JsonNumber::Int(0))),
        ("data", JsonValue::String("payload".to_string())),
    ]);
    match mcp_reply_result(ok) {
        Ok(JsonValue::String(s)) => assert_eq!(s, "payload"),
        _ => panic!("expected the data"),
    }
    let failed = jobj(vec![("code", JsonValue::Number(JsonNumber::Int(-7)))]);
    let e = mcp_reply_result(failed).unwrap_err();
    assert_eq!(e, JsonRpcError { code: NETWORK_ERROR, message: "MCP error -7: MCP call failed".to_string() });
    let plain = JsonValue::Bool(true);
    assert!(matches!(mcp_reply_result(plain), Ok(JsonValue::Bool(true))));
}

#[test]
fn required_string_parameters() {
    let params = jobj(vec![("id", JsonValue::String("x1".to_string()))]);
    assert_eq!(require_str(&params, "id").unwrap(), "x1");
    let e = require_str(&params, "name").unwrap_err();
    assert_eq!(e.code, INVALID_PARAMS);
    assert_eq!(e.message, "Missing name");
}

#[test]
fn serve_state_starts_empty() {
    let s: ServeState<u32, (), ()> = ServeState::new(7);
    assert_eq!(s.config, 7);
    assert!(s.access_token.is_none());
    assert!(s.pending_oauth.is_none());
    assert!(s.cached_mcp_client.is_none());
}

#[test]
fn rpc_reply_outcomes() {
    let e = rpc_outcome::<u8>(Some(1), Some(RpcErrorBody { code: 3, message: "bad".to_string() }));
    assert_eq!(e, Err("MCP error 3: bad".to_string()));
    assert_eq!(rpc_outcome::<u8>(Some(1), None), Ok(1));
    assert_eq!(rpc_outcome::<u8>(None, None), Err("No result in MCP response".to_string()));
}

#[test]
fn test_datadir_returns_lexiang() {
    if let Some(dir) = datadir() {
        assert!(dir.ends_with(DATA_DIR_NAME));
    }
}

#[test]
fn data_directory_layout() {
    assert_eq!(datadir_in("/home/u"), "/home/u/.lexiang");
    assert_eq!(join_path("/home/u/", "x"), "/home/u/x");
    assert_eq!(worktrees_registry_path("/h"), "/h/.lexiang/worktrees.json");
    assert_eq!(check_migration_needed(Some("/h"), true), Some("/h/.lefs".to_string()));
    assert_eq!(check_migration_needed(Some("/h"), false), None);
    assert_eq!(check_migration_needed(None, true), None);
    assert_eq!(migrated_subdirs(), vec!["auth", "tools", "skills"]);
    assert!(should_copy_subdir(true, false));
    assert!(!should_copy_subdir(true, true));
}

fn jstr(x: &str) -> JsonValue {
    JsonValue::String(x.to_string())
}

fn ids(v: Option<&Vec<JsonValue>>) -> Vec<String> {
    v.map(|a| {
        a.iter()
            .map(|x| match x {
                JsonValue::String(s) => s.clone(),
                _ => "?".to_string(),
            })
            .collect()
    })
    .unwrap_or_default()
}

#[test]
fn listed_blocks_prefers_data_blocks() {
    let reply = jobj(vec![
        ("blocks", JsonValue::Array(vec![jstr("outer")])),
        ("data", jobj(vec![("blocks", JsonValue::Array(vec![jstr("inner")]))])),
    ]);
    assert_eq!(ids(listed_blocks(&reply)), vec!["inner"]);
    let flat = jobj(vec![("blocks", JsonValue::Array(vec![jstr("a"), jstr("b")]))]);
    assert_eq!(ids(listed_blocks(&flat)), vec!["a", "b"]);
    // `children` is not read by a plain listing
    let kids = jobj(vec![("children", JsonValue::Array(vec![jstr("c")]))]);
    assert!(listed_blocks(&kids).is_none());
    // a `blocks` member that is no array gives nothing, with no fallback
    let bad = jobj(vec![("data", jobj(vec![("blocks", jstr("x"))])), ("blocks", JsonValue::Array(vec![]))]);
    assert!(listed_blocks(&bad).is_none());
}

#[test]
fn listed_children_order_of_keys() {
    let a = jobj(vec![("data", jobj(vec![("children", JsonValue::Array(vec![jstr("dc")]))]))]);
    assert_eq!(ids(listed_children(&a)), vec!["dc"]);
    let b = jobj(vec![
        ("children", JsonValue::Array(vec![jstr("c")])),
        ("blocks", JsonValue::Array(vec![jstr("b")])),
    ]);
    assert_eq!(ids(listed_children(&b)), vec!["b"]);
    let c = jobj(vec![("children", JsonValue::Array(vec![jstr("c")]))]);
    assert_eq!(ids(listed_children(&c)), vec!["c"]);
    assert!(listed_children(&JsonValue::Null).is_none());
}

#[test]
fn described_block_reads_data_block() {
    let reply = jobj(vec![("data", jobj(vec![("block", jstr("B"))]))]);
    assert!(matches!(described_block(&reply), JsonValue::String(s) if s == "B"));
    let plain = jobj(vec![("id", jstr("x"))]);
    assert!(matches!(described_block(&plain), JsonValue::Object(o) if o.entries[0].0 == "id"));
}

#[test]
fn client_step_decisions() {
    assert_eq!(client_step(None, Some(Some("t"))), ClientStep::FetchToken);
    assert_eq!(client_step(Some("t"), Some(Some("t"))), ClientStep::Reuse);
    assert_eq!(client_step(Some("t"), Some(Some("u"))), ClientStep::Create { token: "t".to_string() });
    assert_eq!(client_step(Some("t"), Some(None)), ClientStep::Create { token: "t".to_string() });
    assert_eq!(client_step(Some("t"), None), ClientStep::Create { token: "t".to_string() });
}

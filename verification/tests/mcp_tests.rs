use rustools_mcp::docs_parser::{DocContent, DocsFetchError};
use rustools_mcp::mcp::{invalid_arguments, resolve_tool, tool_catalog, tool_reply, ToolError, ToolName};

#[test]
fn every_listed_tool_is_called_by_its_name() {
    let catalog = tool_catalog();
    assert_eq!(catalog.len(), 26);
    for tool in catalog {
        assert_eq!(ToolName::from_name(tool.name()), Some(tool));
    }
}

#[test]
fn listing_order_and_descriptions() {
    let catalog = tool_catalog();
    assert_eq!(catalog[0].name(), "find_crates");
    assert_eq!(catalog[0].description(), "Find crates on crates.io");
    assert_eq!(catalog[23].name(), "_fetch_raw_doc");
    assert_eq!(catalog[23].description(), "[INTERNAL] Fetch raw HTML documentation");
    assert_eq!(catalog[25].name(), "analyze_project_context");
}

#[test]
fn unknown_tool_is_refused() {
    match resolve_tool("no_such_tool") {
        Err(e) => {
            assert_eq!(e.code(), -32601);
            assert_eq!(e.message(), "Tool not found: no_such_tool");
        },
        Ok(_) => panic!("unknown tool resolved"),
    }
    assert!(matches!(resolve_tool("cargo_check"), Ok(ToolName::CargoCheck)));
}

#[test]
fn invalid_arguments_error() {
    let e = invalid_arguments(ToolName::FindCrates, "missing field `query`");
    assert_eq!(e.code(), -32602);
    assert_eq!(e.message(), "Invalid arguments for find_crates: missing field `query`");
}

#[test]
fn replies_carry_content_or_failure() {
    let ok = tool_reply(Ok(DocContent { content: "text".to_string() }));
    assert_eq!(ok.ok(), Some("text".to_string()));
    let err = tool_reply(Err(DocsFetchError::CrateNotFound("x".to_string())));
    match err {
        Err(e) => {
            assert!(matches!(e, ToolError::Failed(_)));
            assert_eq!(e.code(), -32000);
            assert_eq!(e.message(), "Crate not found: x");
        },
        Ok(_) => panic!("failure replied as success"),
    }
}

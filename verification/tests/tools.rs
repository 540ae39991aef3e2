use mcp_hybrid_search::protocol::Json;
use mcp_hybrid_search::tools::{
    list_tools, tool_json, tool_result_json, tools_list_result, ToolName, ToolResult,
};

fn member<'a>(j: &'a Json, key: &str) -> &'a Json {
    j.get(key).unwrap()
}

#[test]
fn tool_result_text_is_not_an_error() {
    let r = ToolResult::text("payload");
    assert_eq!(r.content.len(), 1);
    assert_eq!(r.content[0].content_type, "text");
    assert_eq!(r.content[0].text, "payload");
    assert!(!r.is_error);
}

#[test]
fn tool_result_error_is_flagged() {
    let r = ToolResult::error("went wrong");
    assert_eq!(r.content.len(), 1);
    assert_eq!(r.content[0].content_type, "text");
    assert_eq!(r.content[0].text, "went wrong");
    assert!(r.is_error);
}

#[test]
fn tool_result_envelope_has_content_and_is_error() {
    let j = tool_result_json(&ToolResult::error("e"));
    match member(&j, "content") {
        Json::Array(items) => {
            assert_eq!(items.len(), 1);
            assert_eq!(member(&items[0], "type").as_text(), Some("text"));
            assert_eq!(member(&items[0], "text").as_text(), Some("e"));
        }
        _ => panic!("content is no array"),
    }
    assert!(matches!(member(&j, "isError"), Json::Bool(true)));
    let ok = tool_result_json(&ToolResult::text("t"));
    assert!(matches!(member(&ok, "isError"), Json::Bool(false)));
}

#[test]
fn tool_names_parse() {
    assert!(matches!(ToolName::parse("search"), Some(ToolName::Search)));
    assert!(matches!(ToolName::parse("get"), Some(ToolName::Get)));
    assert!(ToolName::parse("get_project_info").is_none());
    assert!(ToolName::parse("nope").is_none());
    assert!(ToolName::parse("").is_none());
    assert!(ToolName::parse("Search").is_none());
    assert!(ToolName::parse("search ").is_none());
}

#[test]
fn two_tools_are_listed() {
    let tools = list_tools();
    let names: Vec<&str> = tools.iter().map(|t| t.name.as_str()).collect();
    assert_eq!(names, vec!["search", "get"]);
    for tool in &tools {
        assert!(ToolName::parse(&tool.name).is_some());
    }
    assert!(tools[0].description.starts_with("Search documents using hybrid search"));
    assert_eq!(
        tools[1].description,
        "Get the full content of a specific document chunk by its chunk_id."
    );
}

#[test]
fn search_schema_requires_query() {
    let tools = list_tools();
    let schema = &tools[0].input_schema;
    assert_eq!(member(schema, "type").as_text(), Some("object"));
    let props = member(schema, "properties");
    assert_eq!(member(member(props, "query"), "type").as_text(), Some("string"));
    assert_eq!(member(member(props, "top_k"), "type").as_text(), Some("number"));
    assert_eq!(
        member(member(props, "top_k"), "description").as_text(),
        Some("Number of results to return (default: 10)")
    );
    let filters = member(props, "filters");
    assert_eq!(member(filters, "type").as_text(), Some("object"));
    let fprops = member(filters, "properties");
    assert_eq!(member(member(fprops, "source_type"), "type").as_text(), Some("string"));
    assert_eq!(
        member(member(fprops, "path_prefix"), "description").as_text(),
        Some("Filter by path prefix")
    );
    match member(schema, "required") {
        Json::Array(items) => {
            assert_eq!(items.len(), 1);
            assert_eq!(items[0].as_text(), Some("query"));
        }
        _ => panic!("required is no array"),
    }
}

#[test]
fn get_schema_requires_chunk_id() {
    let tools = list_tools();
    let get = &tools[1].input_schema;
    assert_eq!(
        member(member(member(get, "properties"), "chunk_id"), "description").as_text(),
        Some("The unique identifier of the chunk")
    );
    match member(get, "required") {
        Json::Array(items) => assert_eq!(items[0].as_text(), Some("chunk_id")),
        _ => panic!("required is no array"),
    }
}

#[test]
fn tools_list_result_wraps_the_tools() {
    let result = tools_list_result();
    match member(&result, "tools") {
        Json::Array(items) => {
            assert_eq!(items.len(), 2);
            assert_eq!(member(&items[0], "name").as_text(), Some("search"));
            assert_eq!(member(&items[1], "name").as_text(), Some("get"));
            assert!(items[1].get("inputSchema").is_some());
            assert!(items[1].get("input_schema").is_none());
        }
        _ => panic!("tools is no array"),
    }
    let mut tools = list_tools();
    let one = tool_json(tools.remove(1));
    assert_eq!(member(&one, "name").as_text(), Some("get"));
}

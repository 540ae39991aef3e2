//! The tools that the server offers, their arguments and the envelope of
//! their results.

use vstd::prelude::*;
use crate::protocol::{items_view, members_view, push_item, push_member, Json, JsonView};
use crate::text::str_eq;

verus! {

/// A tool as the server announces it.
#[derive(Debug)]
pub struct Tool {
    pub name: String,
    pub description: String,
    pub input_schema: Json,
}

/// One piece of a tool's result.
#[derive(Debug)]
pub struct ToolResultContent {
    pub content_type: String,
    pub text: String,
}

/// The envelope of a tool's result. A tool that failed reports so here, in
/// `is_error`, and not as a JSON-RPC error.
#[derive(Debug)]
pub struct ToolResult {
    pub content: Vec<ToolResultContent>,
    pub is_error: bool,
}

/// One piece of a tool's result, as plain sequences.
pub ghost struct ToolResultContentView {
    pub content_type: Seq<char>,
    pub text: Seq<char>,
}

/// A tool's result, as plain sequences.
pub ghost struct ToolResultView {
    pub content: Seq<ToolResultContentView>,
    pub is_error: bool,
}

impl View for ToolResultContent {
    type V = ToolResultContentView;

    open spec fn view(&self) -> ToolResultContentView {
        ToolResultContentView { content_type: self.content_type@, text: self.text@ }
    }
}

impl View for ToolResult {
    type V = ToolResultView;

    open spec fn view(&self) -> ToolResultView {
        ToolResultView {
            content: self.content@.map_values(|c: ToolResultContent| c@),
            is_error: self.is_error,
        }
    }
}

/// The result that holds the one text `text`.
pub open spec fn text_result(text: Seq<char>, is_error: bool) -> ToolResultView {
    ToolResultView {
        content: seq![ToolResultContentView { content_type: "text"@, text }],
        is_error,
    }
}

impl ToolResult {
    /// The result of a tool that succeeded with `text`.
    pub fn text(text: &str) -> (r: Self)
        ensures
            r@ == text_result(text@, false),
    {
        let mut content: Vec<ToolResultContent> = Vec::new();
        content.push(ToolResultContent { content_type: "text".to_owned(), text: text.to_owned() });
        let r = ToolResult { content, is_error: false };
        assert(r@.content =~= text_result(text@, false).content);
        r
    }

    /// The result of a tool that failed with the message `text`.
    pub fn error(text: &str) -> (r: Self)
        ensures
            r@ == text_result(text@, true),
    {
        let mut content: Vec<ToolResultContent> = Vec::new();
        content.push(ToolResultContent { content_type: "text".to_owned(), text: text.to_owned() });
        let r = ToolResult { content, is_error: true };
        assert(r@.content =~= text_result(text@, true).content);
        r
    }
}

/// The JSON form of one piece of a result.
pub open spec fn content_json(content: ToolResultContentView) -> JsonView {
    JsonView::Object(
        seq![
            ("type"@, JsonView::Text(content.content_type)),
            ("text"@, JsonView::Text(content.text)),
        ],
    )
}

/// The JSON form of a result: `{"content": [...], "isError": ...}`.
pub open spec fn spec_tool_result_json(result: ToolResultView) -> JsonView {
    JsonView::Object(
        seq![
            (
                "content"@,
                JsonView::Array(result.content.map_values(|c: ToolResultContentView| content_json(c))),
            ),
            ("isError"@, JsonView::Bool(result.is_error)),
        ],
    )
}

/// The JSON form of a tool's result.
pub fn tool_result_json(result: &ToolResult) -> (r: Json)
    ensures
        r@ == spec_tool_result_json(result@),
{
    let mut items: Vec<Json> = Vec::new();
    let mut i: usize = 0;
    assert(items_view(items@) =~= result@.content.take(0).map_values(
        |c: ToolResultContentView| content_json(c),
    ));
    while i < result.content.len()
        invariant
            i <= result.content.len(),
            items_view(items@) == result@.content.take(i as int).map_values(
                |c: ToolResultContentView| content_json(c),
            ),
        decreases result.content.len() - i,
    {
        let piece = &result.content[i];
        let mut members: Vec<(String, Json)> = Vec::new();
        assert(members_view(members@) =~= Seq::empty());
        push_member(&mut members, "type", Json::text(piece.content_type.as_str()));
        push_member(&mut members, "text", Json::text(piece.text.as_str()));
        assert(members_view(members@) =~= content_json(piece@)->Object_0);
        let ghost before = items_view(items@);
        push_item(&mut items, Json::object(members));
        i += 1;
        assert(items_view(items@) =~= result@.content.take(i as int).map_values(
            |c: ToolResultContentView| content_json(c),
        )) by {
            assert(result@.content.take(i as int) =~= result@.content.take(i - 1).push(piece@));
        }
    }
    assert(result@.content.take(result.content.len() as int) =~= result@.content);
    let mut members: Vec<(String, Json)> = Vec::new();
    assert(members_view(members@) =~= Seq::empty());
    push_member(&mut members, "content", Json::array(items));
    push_member(&mut members, "isError", Json::Bool(result.is_error));
    assert(members_view(members@) =~= spec_tool_result_json(result@)->Object_0);
    Json::object(members)
}

/// The tools that a request can name.
#[derive(Clone, Copy, Debug)]
pub enum ToolName {
    Search,
    Get,
}

/// The tool that `name` names.
pub open spec fn spec_parse_tool(name: Seq<char>) -> Option<ToolName> {
    if name == "search"@ {
        Some(ToolName::Search)
    } else if name == "get"@ {
        Some(ToolName::Get)
    } else {
        None
    }
}

impl ToolName {
    /// The tool that `name` names: `None` for every other name.
    pub fn parse(name: &str) -> (r: Option<Self>)
        ensures
            r == spec_parse_tool(name@),
    {
        if str_eq(name, "search") {
            Some(ToolName::Search)
        } else if str_eq(name, "get") {
            Some(ToolName::Get)
        } else {
            None
        }
    }
}

/// The filters in the arguments of the `search` tool.
#[derive(Debug)]
pub struct FilterArgs {
    pub source_type: Option<String>,
    pub path_prefix: Option<String>,
}

/// The arguments of the `search` tool.
#[derive(Debug)]
pub struct SearchArgs {
    pub query: String,
    pub top_k: Option<usize>,
    pub filters: Option<FilterArgs>,
}

/// The arguments of the `get` tool.
#[derive(Debug)]
pub struct GetArgs {
    pub chunk_id: String,
}

/// The schema of one property: its JSON type and what it is for.
pub open spec fn property_schema(kind: Seq<char>, description: Seq<char>) -> JsonView {
    JsonView::Object(
        seq![("type"@, JsonView::Text(kind)), ("description"@, JsonView::Text(description))],
    )
}

fn property(kind: &str, description: &str) -> (r: Json)
    ensures
        r@ == property_schema(kind@, description@),
{
    let mut members: Vec<(String, Json)> = Vec::new();
    assert(members_view(members@) =~= Seq::empty());
    push_member(&mut members, "type", Json::text(kind));
    push_member(&mut members, "description", Json::text(description));
    assert(members_view(members@) =~= property_schema(kind@, description@)->Object_0);
    Json::object(members)
}

/// The schema of an object with the given properties and required keys.
pub open spec fn object_schema(
    properties: Seq<(Seq<char>, JsonView)>,
    required: Seq<JsonView>,
) -> JsonView {
    JsonView::Object(
        seq![
            ("type"@, JsonView::Text("object"@)),
            ("properties"@, JsonView::Object(properties)),
            ("required"@, JsonView::Array(required)),
        ],
    )
}

fn object_with(properties: Vec<(String, Json)>, required: Vec<Json>) -> (r: Json)
    ensures
        r@ == object_schema(members_view(properties@), items_view(required@)),
{
    let mut members: Vec<(String, Json)> = Vec::new();
    assert(members_view(members@) =~= Seq::empty());
    push_member(&mut members, "type", Json::text("object"));
    push_member(&mut members, "properties", Json::object(properties));
    push_member(&mut members, "required", Json::array(required));
    assert(members_view(members@) =~= object_schema(
        members_view(properties@),
        items_view(required@),
    )->Object_0);
    Json::object(members)
}

/// The schema of the `filters` argument of `search`.
pub open spec fn filters_schema() -> JsonView {
    JsonView::Object(
        seq![
            ("type"@, JsonView::Text("object"@)),
            (
                "properties"@,
                JsonView::Object(
                    seq![
                        (
                            "source_type"@,
                            property_schema("string"@, "Filter by file type (md/txt/pdf/xlsx)"@),
                        ),
                        ("path_prefix"@, property_schema("string"@, "Filter by path prefix"@)),
                    ],
                ),
            ),
        ],
    )
}

/// The schema of the arguments of `search`.
pub open spec fn search_schema() -> JsonView {
    object_schema(
        seq![
            ("query"@, property_schema("string"@, "Search query text"@)),
            (
                "top_k"@,
                property_schema("number"@, "Number of results to return (default: 10)"@),
            ),
            ("filters"@, filters_schema()),
        ],
        seq![JsonView::Text("query"@)],
    )
}

/// The schema of the arguments of `get`.
pub open spec fn get_schema() -> JsonView {
    object_schema(
        seq![
            ("chunk_id"@, property_schema("string"@, "The unique identifier of the chunk"@)),
        ],
        seq![JsonView::Text("chunk_id"@)],
    )
}

/// What `search` is for.
pub open spec fn search_description() -> Seq<char> {
    "Search documents using hybrid search (vector + BM25). Returns ranked results from indexed documents."@
}

/// What `get` is for.
pub open spec fn get_description() -> Seq<char> {
    "Get the full content of a specific document chunk by its chunk_id."@
}

fn search_tool() -> (r: Tool)
    ensures
        r.name@ == "search"@,
        r.description@ == search_description(),
        r.input_schema@ == search_schema(),
{
    let mut filter_properties: Vec<(String, Json)> = Vec::new();
    assert(members_view(filter_properties@) =~= Seq::empty());
    push_member(
        &mut filter_properties,
        "source_type",
        property("string", "Filter by file type (md/txt/pdf/xlsx)"),
    );
    push_member(&mut filter_properties, "path_prefix", property("string", "Filter by path prefix"));
    assert(members_view(filter_properties@) =~= filters_schema()->Object_0[1].1->Object_0);
    let mut filters: Vec<(String, Json)> = Vec::new();
    assert(members_view(filters@) =~= Seq::empty());
    push_member(&mut filters, "type", Json::text("object"));
    push_member(&mut filters, "properties", Json::object(filter_properties));
    assert(members_view(filters@) =~= filters_schema()->Object_0);
    let mut properties: Vec<(String, Json)> = Vec::new();
    assert(members_view(properties@) =~= Seq::empty());
    push_member(&mut properties, "query", property("string", "Search query text"));
    push_member(
        &mut properties,
        "top_k",
        property("number", "Number of results to return (default: 10)"),
    );
    push_member(&mut properties, "filters", Json::object(filters));
    let mut required: Vec<Json> = Vec::new();
    assert(items_view(required@) =~= Seq::empty());
    push_item(&mut required, Json::text("query"));
    assert(members_view(properties@) =~= search_schema()->Object_0[1].1->Object_0);
    assert(items_view(required@) =~= seq![JsonView::Text("query"@)]);
    Tool {
        name: "search".to_owned(),
        description: "Search documents using hybrid search (vector + BM25). Returns ranked results from indexed documents.".to_owned(),
        input_schema: object_with(properties, required),
    }
}

fn get_tool() -> (r: Tool)
    ensures
        r.name@ == "get"@,
        r.description@ == get_description(),
        r.input_schema@ == get_schema(),
{
    let mut properties: Vec<(String, Json)> = Vec::new();
    assert(members_view(properties@) =~= Seq::empty());
    push_member(
        &mut properties,
        "chunk_id",
        property("string", "The unique identifier of the chunk"),
    );
    let mut required: Vec<Json> = Vec::new();
    assert(items_view(required@) =~= Seq::empty());
    push_item(&mut required, Json::text("chunk_id"));
    assert(members_view(properties@) =~= get_schema()->Object_0[1].1->Object_0);
    assert(items_view(required@) =~= seq![JsonView::Text("chunk_id"@)]);
    Tool {
        name: "get".to_owned(),
        description: "Get the full content of a specific document chunk by its chunk_id.".to_owned(),
        input_schema: object_with(properties, required),
    }
}

/// The tools that the server announces: `search` and `get`, each with its
/// description and the schema of its arguments.
pub fn list_tools() -> (r: Vec<Tool>)
    ensures
        r.len() == 2,
        r[0].name@ == "search"@,
        r[0].description@ == search_description(),
        r[0].input_schema@ == search_schema(),
        r[1].name@ == "get"@,
        r[1].description@ == get_description(),
        r[1].input_schema@ == get_schema(),
{
    let mut tools: Vec<Tool> = Vec::new();
    tools.push(search_tool());
    tools.push(get_tool());
    tools
}

/// The JSON form of a tool: its name, its description and, as
/// `inputSchema`, the schema of its arguments.
pub open spec fn spec_tool_json(name: Seq<char>, description: Seq<char>, schema: JsonView) -> JsonView {
    JsonView::Object(
        seq![
            ("name"@, JsonView::Text(name)),
            ("description"@, JsonView::Text(description)),
            ("inputSchema"@, schema),
        ],
    )
}

/// The JSON form of a tool.
pub fn tool_json(tool: Tool) -> (r: Json)
    ensures
        r@ == spec_tool_json(tool.name@, tool.description@, tool.input_schema@),
{
    let mut members: Vec<(String, Json)> = Vec::new();
    assert(members_view(members@) =~= Seq::empty());
    push_member(&mut members, "name", Json::text(tool.name.as_str()));
    push_member(&mut members, "description", Json::text(tool.description.as_str()));
    push_member(&mut members, "inputSchema", tool.input_schema);
    assert(members_view(members@) =~= spec_tool_json(
        tool.name@,
        tool.description@,
        tool.input_schema@,
    )->Object_0);
    Json::object(members)
}

/// The result of `tools/list`: `{"tools": [...]}` with the two tools.
pub open spec fn tools_list_json() -> JsonView {
    JsonView::Object(
        seq![
            (
                "tools"@,
                JsonView::Array(
                    seq![
                        spec_tool_json("search"@, search_description(), search_schema()),
                        spec_tool_json("get"@, get_description(), get_schema()),
                    ],
                ),
            ),
        ],
    )
}

/// The result of `tools/list`.
pub fn tools_list_result() -> (r: Json)
    ensures
        r@ == tools_list_json(),
{
    let mut items: Vec<Json> = Vec::new();
    assert(items_view(items@) =~= Seq::empty());
    push_item(&mut items, tool_json(search_tool()));
    push_item(&mut items, tool_json(get_tool()));
    assert(items_view(items@) =~= tools_list_json()->Object_0[0].1->Array_0);
    let mut members: Vec<(String, Json)> = Vec::new();
    assert(members_view(members@) =~= Seq::empty());
    push_member(&mut members, "tools", Json::array(items));
    assert(members_view(members@) =~= tools_list_json()->Object_0);
    Json::object(members)
}

} // verus!

//! The tool-call server's decisions: where a JSON-RPC request goes, what is
//! answered, and what the HTTP status of a delivery is.

use vstd::prelude::*;
use vstd::string::StringExecFns;
use crate::config::AppConfig;
use crate::protocol::{
    error_response, member, members_view, opt_json_view, push_member, success_response, text_of,
    Json, JsonRpcRequest, JsonRpcResponse, JsonRpcResponseView, JsonView, INVALID_PARAMS,
    METHOD_NOT_FOUND,
};
use crate::search::HybridSearcher;
use crate::text::str_eq;
use crate::tools::{
    spec_parse_tool, spec_tool_result_json, text_result, tool_result_json, tools_list_json,
    tools_list_result, SearchArgs, ToolName, ToolResult,
};
use crate::types::SearchFilters;

verus! {

/// The protocol version that the server speaks.
pub open spec fn protocol_version() -> Seq<char> {
    "2024-11-05"@
}

/// The name under which the server introduces itself.
pub open spec fn server_name() -> Seq<char> {
    "mcp-server-hybrid-search"@
}

/// The version under which the server introduces itself.
pub open spec fn server_version() -> Seq<char> {
    "0.1.0"@
}

/// The result of `initialize`.
pub open spec fn initialize_json() -> JsonView {
    JsonView::Object(
        seq![
            ("protocolVersion"@, JsonView::Text(protocol_version())),
            (
                "serverInfo"@,
                JsonView::Object(
                    seq![
                        ("name"@, JsonView::Text(server_name())),
                        ("version"@, JsonView::Text(server_version())),
                    ],
                ),
            ),
            (
                "capabilities"@,
                JsonView::Object(
                    seq![
                        (
                            "tools"@,
                            JsonView::Object(seq![("listChanged"@, JsonView::Bool(false))]),
                        ),
                    ],
                ),
            ),
        ],
    )
}

/// The result of `initialize`.
pub fn initialize_result() -> (r: Json)
    ensures
        r@ == initialize_json(),
{
    let mut info: Vec<(String, Json)> = Vec::new();
    assert(members_view(info@) =~= Seq::empty());
    push_member(&mut info, "name", Json::text("mcp-server-hybrid-search"));
    push_member(&mut info, "version", Json::text("0.1.0"));
    assert(members_view(info@) =~= initialize_json()->Object_0[1].1->Object_0);
    let mut tools: Vec<(String, Json)> = Vec::new();
    assert(members_view(tools@) =~= Seq::empty());
    push_member(&mut tools, "listChanged", Json::Bool(false));
    assert(members_view(tools@) =~= seq![("listChanged"@, JsonView::Bool(false))]);
    let mut capabilities: Vec<(String, Json)> = Vec::new();
    assert(members_view(capabilities@) =~= Seq::empty());
    push_member(&mut capabilities, "tools", Json::object(tools));
    assert(members_view(capabilities@) =~= initialize_json()->Object_0[2].1->Object_0);
    let mut members: Vec<(String, Json)> = Vec::new();
    assert(members_view(members@) =~= Seq::empty());
    push_member(&mut members, "protocolVersion", Json::text("2024-11-05"));
    push_member(&mut members, "serverInfo", Json::object(info));
    push_member(&mut members, "capabilities", Json::object(capabilities));
    assert(members_view(members@) =~= initialize_json()->Object_0);
    Json::object(members)
}

/// A call of a tool that the server has to run before it can answer.
#[derive(Debug)]
pub struct ToolCall {
    pub id: Option<Json>,
    pub tool: ToolName,
    pub arguments: Json,
}

/// Where a request goes: it is answered at once, or a tool has to run.
#[derive(Debug)]
pub enum Routed {
    Reply(JsonRpcResponse),
    Call(ToolCall),
}

/// Where a request goes, as plain values.
pub ghost enum RoutedView {
    Reply(JsonRpcResponseView),
    Call { id: Option<JsonView>, tool: ToolName, arguments: JsonView },
}

impl View for Routed {
    type V = RoutedView;

    open spec fn view(&self) -> RoutedView {
        match self {
            Routed::Reply(response) => RoutedView::Reply(response@),
            Routed::Call(call) => RoutedView::Call {
                id: opt_json_view(call.id),
                tool: call.tool,
                arguments: call.arguments@,
            },
        }
    }
}

/// The name of the tool that the parameters of `tools/call` give: the text
/// of their member `name`, or the empty name.
pub open spec fn called_tool_name(params: JsonView) -> Seq<char> {
    match text_of(member(params, "name"@)) {
        Some(name) => name,
        None => Seq::empty(),
    }
}

/// The arguments that the parameters of `tools/call` give: their member
/// `arguments`, or `{}`.
pub open spec fn called_tool_arguments(params: JsonView) -> JsonView {
    match member(params, "arguments"@) {
        Some(arguments) => arguments,
        None => JsonView::Object(Seq::empty()),
    }
}

/// Where `tools/call` goes: without parameters it is an error, with the
/// name of a tool it is a call of that tool, with any other name an error.
pub open spec fn spec_route_call(id: Option<JsonView>, params: Option<JsonView>) -> RoutedView {
    match params {
        None => RoutedView::Reply(error_response(id, INVALID_PARAMS, "Missing params"@)),
        Some(p) => match spec_parse_tool(called_tool_name(p)) {
            Some(tool) => RoutedView::Call { id, tool, arguments: called_tool_arguments(p) },
            None => RoutedView::Reply(
                error_response(id, METHOD_NOT_FOUND, "Unknown tool: "@ + called_tool_name(p)),
            ),
        },
    }
}

/// Where a request goes, by its method.
pub open spec fn spec_route(
    id: Option<JsonView>,
    method: Seq<char>,
    params: Option<JsonView>,
) -> RoutedView {
    if method == "initialize"@ {
        RoutedView::Reply(success_response(id, initialize_json()))
    } else if method == "initialized"@ || method == "notifications/initialized"@ || method
        == "ping"@ {
        RoutedView::Reply(success_response(id, JsonView::Object(Seq::empty())))
    } else if method == "tools/list"@ {
        RoutedView::Reply(success_response(id, tools_list_json()))
    } else if method == "tools/call"@ {
        spec_route_call(id, params)
    } else {
        RoutedView::Reply(error_response(id, METHOD_NOT_FOUND, "Method not found: "@ + method))
    }
}

/// The response that wraps what a tool returned: a successful JSON-RPC
/// response in either case, with the failure inside the envelope.
pub open spec fn spec_tool_reply(id: Option<JsonView>, outcome: Result<ToolResult, String>) -> JsonRpcResponseView {
    match outcome {
        Ok(result) => success_response(id, spec_tool_result_json(result@)),
        Err(message) => success_response(
            id,
            spec_tool_result_json(text_result("Error: "@ + message@, true)),
        ),
    }
}

/// The server: its configuration and its searcher.
#[derive(Debug)]
pub struct McpServer {
    pub config: AppConfig,
    pub searcher: HybridSearcher,
}

impl McpServer {
    /// A server for `config`. This never fails.
    pub fn new(config: AppConfig) -> (r: Result<Self, String>)
        ensures
            r matches Ok(server) && server.config == config,
    {
        match HybridSearcher::new(&config) {
            Ok(searcher) => Ok(McpServer { config, searcher }),
            Err(e) => Err(e),
        }
    }

    /// Decides where `request` goes: every method but `tools/call` is
    /// answered at once; `tools/call` names a tool to run, or is an error.
    pub fn handle_request(&self, request: JsonRpcRequest) -> (r: Routed)
        ensures
            r@ == spec_route(
                opt_json_view(request.id),
                request.method@,
                opt_json_view(request.params),
            ),
    {
        let method = request.method.as_str();
        if str_eq(method, "initialize") {
            Routed::Reply(JsonRpcResponse::success(request.id, initialize_result()))
        } else if str_eq(method, "initialized") || str_eq(method, "notifications/initialized")
            || str_eq(method, "ping") {
            Routed::Reply(JsonRpcResponse::success(request.id, Json::empty_object()))
        } else if str_eq(method, "tools/list") {
            Routed::Reply(JsonRpcResponse::success(request.id, tools_list_result()))
        } else if str_eq(method, "tools/call") {
            self.handle_tools_call(request.id, request.params)
        } else {
            let mut message = "Method not found: ".to_owned();
            message.append(method);
            Routed::Reply(JsonRpcResponse::error(request.id, METHOD_NOT_FOUND, message.as_str()))
        }
    }

    /// Decides where a `tools/call` goes.
    pub fn handle_tools_call(&self, id: Option<Json>, params: Option<Json>) -> (r: Routed)
        ensures
            r@ == spec_route_call(opt_json_view(id), opt_json_view(params)),
    {
        let params = match params {
            Some(p) => p,
            None => {
                return Routed::Reply(JsonRpcResponse::error(id, INVALID_PARAMS, "Missing params"));
            },
        };
        let name: String = match params.get("name") {
            Some(value) => match value.as_text() {
                Some(text) => text.to_owned(),
                None => String::new(),
            },
            None => String::new(),
        };
        assert(name@ == called_tool_name(params@));
        match ToolName::parse(name.as_str()) {
            Some(tool) => {
                let arguments = match params.take("arguments") {
                    Some(a) => a,
                    None => Json::empty_object(),
                };
                Routed::Call(ToolCall { id, tool, arguments })
            },
            None => {
                let mut message = "Unknown tool: ".to_owned();
                message.append(name.as_str());
                Routed::Reply(JsonRpcResponse::error(id, METHOD_NOT_FOUND, message.as_str()))
            },
        }
    }

    /// The response to a `tools/call`, once the tool has run: its result in
    /// the envelope, or its failure in the envelope with `isError` set.
    pub fn tool_reply(id: Option<Json>, outcome: Result<ToolResult, String>) -> (r:
        JsonRpcResponse)
        ensures
            r@ == spec_tool_reply(opt_json_view(id), outcome),
    {
        match outcome {
            Ok(result) => JsonRpcResponse::success(id, tool_result_json(&result)),
            Err(e) => {
                let mut message = "Error: ".to_owned();
                message.append(e.as_str());
                let failed = ToolResult::error(message.as_str());
                JsonRpcResponse::success(id, tool_result_json(&failed))
            },
        }
    }
}

/// The number of results that `search` returns where the caller names
/// none.
pub const DEFAULT_TOP_K: usize = 10;

/// The number of results that a `search` call asks for.
pub fn requested_top_k(args: &SearchArgs) -> (r: usize)
    ensures
        r == match args.top_k {
            Some(k) => k,
            None => DEFAULT_TOP_K,
        },
{
    match args.top_k {
        Some(k) => k,
        None => DEFAULT_TOP_K,
    }
}

/// The filters that a `search` call asks for.
pub fn requested_filters(args: &SearchArgs) -> (r: SearchFilters)
    ensures
        r.source_type == match args.filters {
            Some(f) => f.source_type,
            None => None,
        },
        r.path_prefix == match args.filters {
            Some(f) => f.path_prefix,
            None => None,
        },
{
    match &args.filters {
        Some(f) => SearchFilters {
            source_type: match &f.source_type {
                Some(s) => Some(s.clone()),
                None => None,
            },
            path_prefix: match &f.path_prefix {
                Some(s) => Some(s.clone()),
                None => None,
            },
        },
        None => SearchFilters { source_type: None, path_prefix: None },
    }
}

/// What `get` answers where the store has no such chunk.
pub fn chunk_not_found(chunk_id: &str) -> (r: ToolResult)
    ensures
        r@ == text_result("Chunk not found: "@ + chunk_id@, true),
{
    let mut message = "Chunk not found: ".to_owned();
    message.append(chunk_id);
    ToolResult::error(message.as_str())
}

/// How the handling of one posted message ended.
#[derive(Clone, Copy, Debug)]
pub enum MessageOutcome {
    /// The response went to the session's stream.
    Delivered,
    /// No session has the given id.
    UnknownSession,
    /// The session exists, but its stream no longer takes messages.
    SinkClosed,
    /// The response could not be serialised.
    SerializationFailed,
}

/// The HTTP status for each way the handling of a posted message can end:
/// 202, 404, 410 or 500.
pub open spec fn spec_http_status(outcome: MessageOutcome) -> u16 {
    match outcome {
        MessageOutcome::Delivered => 202,
        MessageOutcome::UnknownSession => 404,
        MessageOutcome::SinkClosed => 410,
        MessageOutcome::SerializationFailed => 500,
    }
}

/// The HTTP status that answers a posted message.
pub fn http_status(outcome: MessageOutcome) -> (r: u16)
    ensures
        r == spec_http_status(outcome),
{
    match outcome {
        MessageOutcome::Delivered => 202,
        MessageOutcome::UnknownSession => 404,
        MessageOutcome::SinkClosed => 410,
        MessageOutcome::SerializationFailed => 500,
    }
}

/// How a posted message ends, from what happened: a response that could
/// not be serialised ends it before the session is looked up.
pub fn message_outcome(serialized: bool, session_found: bool, sent: bool) -> (r: MessageOutcome)
    ensures
        r == if !serialized {
            MessageOutcome::SerializationFailed
        } else if !session_found {
            MessageOutcome::UnknownSession
        } else if !sent {
            MessageOutcome::SinkClosed
        } else {
            MessageOutcome::Delivered
        },
{
    if !serialized {
        MessageOutcome::SerializationFailed
    } else if !session_found {
        MessageOutcome::UnknownSession
    } else if !sent {
        MessageOutcome::SinkClosed
    } else {
        MessageOutcome::Delivered
    }
}

/// How many responses a session's stream holds before a send fails.
pub const SESSION_QUEUE_DEPTH: usize = 100;

/// The path that a new session is told to post its messages to.
pub fn endpoint_path(session_id: &str) -> (r: String)
    ensures
        r@ == "/message?sessionId="@ + session_id@,
{
    let mut path = "/message?sessionId=".to_owned();
    path.append(session_id);
    path
}

} // verus!

//! The MCP server's protocol logic: JSON-RPC 2.0 requests, one per
//! line, answered one response per line; notifications (requests
//! without an id) are never answered.
//!
//! Reading lines and running tools happen outside the library. A
//! decoded request goes to [`route`], which answers it, stays silent, or
//! asks for a tool to be run; a tool's outcome goes to [`complete_call`].
//! Responses are written out as JSON text by [`Response::to_json`].
use crate::json::{json_quoted, quote_json};
use crate::text::{concat2, i64_to_decimal, join, join_spec, owned, signed_decimal, str_eq, views};
use crate::tool_dispatch::{all_tools, catalog, rendered_tool, to_mcp_tools, ToolFormat};
use vstd::prelude::*;

verus! {

/// Invalid JSON was received.
pub const PARSE_ERROR: i64 = -32700;
/// The request is not a valid request object.
pub const INVALID_REQUEST: i64 = -32600;
/// The method does not exist.
pub const METHOD_NOT_FOUND: i64 = -32601;
/// Internal JSON-RPC error.
pub const INTERNAL_ERROR: i64 = -32603;

/// A decoded request, as far as the server reads it.
pub struct Request {
    /// The method name.
    pub method: String,
    /// The id, as JSON text; `None` for a notification.
    pub id: Option<String>,
    /// `params.protocolVersion`, when it is a string.
    pub protocol_version: Option<String>,
    /// `params.name`, when it is a string.
    pub tool_name: Option<String>,
}

/// A JSON-RPC error object.
pub struct RpcError {
    pub code: i64,
    pub message: String,
}

/// A successful result.
pub enum RpcResult {
    /// The `initialize` handshake.
    Initialize { protocol_version: String, server_version: String },
    /// The tool catalogue.
    ToolsList,
    /// The text a tool call produced, and whether it is an error.
    ToolsCall { text: String, is_error: bool },
}

/// A response: a result or an error, and the id of the request.
pub struct Response {
    pub result: Option<RpcResult>,
    pub error: Option<RpcError>,
    /// The request id, as JSON text (`null` when it was unknown).
    pub id: String,
}

impl Response {
    /// The result, if the request succeeded.
    pub fn result_value(&self) -> (r: Option<&RpcResult>)
        ensures
            match self.result {
                Some(x) => r == Some(&x),
                None => r.is_none(),
            },
    {
        self.result.as_ref()
    }

    /// The error code, if the request failed.
    pub fn error_code(&self) -> (r: Option<i64>)
        ensures
            r == (match self.error {
                Some(e) => Some(e.code),
                None => None,
            }),
    {
        match &self.error {
            Some(e) => Some(e.code),
            None => None,
        }
    }

    /// The id, as JSON text.
    pub fn id_value(&self) -> (r: &str)
        ensures
            r@ == self.id@,
    {
        self.id.as_str()
    }
}

/// The protocol version answered when the client names none.
pub open spec fn fallback_protocol_version() -> Seq<char> {
    "2024-11-05"@
}

/// What a request leads to, before any tool runs.
pub enum Routing {
    /// Answer `initialize` with this protocol version.
    Initialize(Seq<char>),
    /// Answer with the tool catalogue.
    ToolsList,
    /// Run the named tool.
    Call(Seq<char>),
    /// Answer with an error.
    Fail(i64, Seq<char>),
    /// An accepted notification: nothing to do.
    Quiet,
}

/// The routing of a request by its method, id, protocol version and
/// tool name.
pub open spec fn routing(method: Seq<char>, has_id: bool, version: Option<Seq<char>>, name: Option<Seq<char>>) -> Routing {
    if method == "initialize"@ {
        Routing::Initialize(
            match version {
                Some(v) => v,
                None => fallback_protocol_version(),
            },
        )
    } else if method == "tools/list"@ {
        Routing::ToolsList
    } else if method == "tools/call"@ {
        match name {
            Some(n) => Routing::Call(n),
            None => Routing::Fail(INVALID_REQUEST, "missing or non-string 'name'"@),
        }
    } else if method == "notifications/initialized"@ || method == "notifications/cancelled"@ {
        if has_id {
            Routing::Fail(INVALID_REQUEST, "notification method requires no id"@)
        } else {
            Routing::Quiet
        }
    } else {
        Routing::Fail(METHOD_NOT_FOUND, "unknown method: "@ + method)
    }
}

/// The view of an optional string.
pub open spec fn opt_view(v: Option<String>) -> Option<Seq<char>> {
    match v {
        Some(s) => Some(s@),
        None => None,
    }
}

/// The routing of a decoded request.
pub open spec fn request_routing(req: Request) -> Routing {
    routing(req.method@, req.id is Some, opt_view(req.protocol_version), opt_view(req.tool_name))
}

/// The next step for a request.
pub enum Step {
    /// Write this response.
    Reply(Response),
    /// Write nothing.
    NoReply,
    /// Run this tool, then call [`complete_call`].
    Dispatch(String),
}

/// Decides how to handle a request. Requests without an id are never
/// answered, though a tool they name is still run.
pub fn route(req: &Request, server_version: &str) -> (s: Step)
    ensures
        match request_routing(*req) {
            Routing::Call(n) => s matches Step::Dispatch(name) && name@ == n,
            Routing::Quiet => s is NoReply,
            Routing::Initialize(v) => match req.id {
                None => s is NoReply,
                Some(id) => s matches Step::Reply(r) && r.id@ == id@ && r.error.is_none()
                    && (r.result matches Some(RpcResult::Initialize { protocol_version, server_version: sv })
                    && protocol_version@ == v && sv@ == server_version@),
            },
            Routing::ToolsList => match req.id {
                None => s is NoReply,
                Some(id) => s matches Step::Reply(r) && r.id@ == id@ && r.error.is_none()
                    && r.result matches Some(RpcResult::ToolsList),
            },
            Routing::Fail(code, msg) => match req.id {
                None => s is NoReply,
                Some(id) => s matches Step::Reply(r) && r.id@ == id@ && r.result.is_none()
                    && (r.error matches Some(e) && e.code == code && e.message@ == msg),
            },
        },
{
    let m = req.method.as_str();
    let has_id = req.id.is_some();
    let routed: Result<RpcResult, RpcError> = if str_eq(m, "initialize") {
        let v = match &req.protocol_version {
            Some(v) => v.clone(),
            None => owned("2024-11-05"),
        };
        Ok(RpcResult::Initialize { protocol_version: v, server_version: owned(server_version) })
    } else if str_eq(m, "tools/list") {
        Ok(RpcResult::ToolsList)
    } else if str_eq(m, "tools/call") {
        match &req.tool_name {
            Some(n) => {
                return Step::Dispatch(n.clone());
            },
            None => Err(
                RpcError { code: INVALID_REQUEST, message: owned("missing or non-string 'name'") },
            ),
        }
    } else if str_eq(m, "notifications/initialized") || str_eq(m, "notifications/cancelled") {
        if !has_id {
            return Step::NoReply;
        }
        Err(RpcError { code: INVALID_REQUEST, message: owned("notification method requires no id") })
    } else {
        Err(RpcError { code: METHOD_NOT_FOUND, message: concat2("unknown method: ", m) })
    };
    match &req.id {
        None => Step::NoReply,
        Some(id) => match routed {
            Ok(result) => Step::Reply(Response { result: Some(result), error: None, id: id.clone() }),
            Err(error) => Step::Reply(Response { result: None, error: Some(error), id: id.clone() }),
        },
    }
}

/// The response to a tool call once the tool has run: its text, marked
/// as an error when the tool failed; nothing for a notification.
pub fn complete_call(req: &Request, outcome: Result<String, String>) -> (r: Option<Response>)
    ensures
        req.id.is_none() ==> r.is_none(),
        req.id matches Some(id) ==> (r matches Some(resp) && resp.id@ == id@ && resp.error.is_none()
            && (resp.result matches Some(RpcResult::ToolsCall { text, is_error })
            && is_error == outcome is Err && text@ == match outcome {
                Ok(s) => s@,
                Err(e) => e@,
            })),
{
    match &req.id {
        None => None,
        Some(id) => {
            let (text, is_error) = match outcome {
                Ok(s) => (s, false),
                Err(e) => (e, true),
            };
            Some(
                Response {
                    result: Some(RpcResult::ToolsCall { text, is_error }),
                    error: None,
                    id: id.clone(),
                },
            )
        },
    }
}

/// The response to a line that is not a JSON-RPC request: a parse
/// error with a null id.
pub fn parse_error_response(detail: &str) -> (r: Response)
    ensures
        r.result.is_none(),
        r.error matches Some(e) && e.code == PARSE_ERROR && e.message@ == "parse error: "@ + detail@,
        r.id@ == "null"@,
{
    Response {
        result: None,
        error: Some(RpcError { code: PARSE_ERROR, message: concat2("parse error: ", detail) }),
        id: owned("null"),
    }
}

/// The JSON text of the tool catalogue in MCP's format.
pub open spec fn tools_list_json() -> Seq<char> {
    "{\"tools\":["@ + join_spec(catalog().map_values(|t: (Seq<char>, Seq<char>, Seq<char>)| rendered_tool(t, ToolFormat::Mcp)), ","@) + "]}"@
}

/// The JSON text of a result.
pub open spec fn result_json(r: RpcResult) -> Seq<char> {
    match r {
        RpcResult::Initialize { protocol_version, server_version } => "{\"capabilities\":{\"tools\":{}},\"protocolVersion\":"@
            + json_quoted(protocol_version@) + ",\"serverInfo\":{\"name\":\"careerbot\",\"version\":"@
            + json_quoted(server_version@) + "}}"@,
        RpcResult::ToolsList => tools_list_json(),
        RpcResult::ToolsCall { text, is_error } => "{\"content\":[{\"text\":"@ + json_quoted(text@)
            + ",\"type\":\"text\"}],\"isError\":"@ + if is_error {
            "true"@
        } else {
            "false"@
        } + "}"@,
    }
}

/// The JSON text of a response: `jsonrpc`, then the result or the
/// error when present, then the id.
pub open spec fn response_json(r: Response) -> Seq<char> {
    "{\"jsonrpc\":\"2.0\""@ + match r.result {
        Some(res) => ",\"result\":"@ + result_json(res),
        None => Seq::empty(),
    } + match r.error {
        Some(e) => ",\"error\":{\"code\":"@ + signed_decimal(e.code as int) + ",\"message\":"@ + json_quoted(
            e.message@,
        ) + "}"@,
        None => Seq::empty(),
    } + ",\"id\":"@ + r.id@ + "}"@
}

fn tools_list_text() -> (r: String)
    ensures
        r@ == tools_list_json(),
{
    let tools = all_tools();
    let rendered = to_mcp_tools(tools.as_slice());
    proof {
        assert(views(rendered@) =~= catalog().map_values(
            |t: (Seq<char>, Seq<char>, Seq<char>)| rendered_tool(t, ToolFormat::Mcp),
        ));
    }
    let body = join(rendered.as_slice(), ",");
    let mut r = owned("{\"tools\":[");
    r.append(body.as_str());
    r.append("]}");
    r
}

impl RpcResult {
    /// The result as JSON text.
    pub fn to_json(&self) -> (r: String)
        ensures
            r@ == result_json(*self),
            *self matches RpcResult::ToolsCall { is_error, .. } ==> ends_with(
                r@,
                if is_error {
                    "\"isError\":true}"@
                } else {
                    "\"isError\":false}"@
                },
            ),
    {
        match self {
            RpcResult::Initialize { protocol_version, server_version } => {
                let mut r = owned("{\"capabilities\":{\"tools\":{}},\"protocolVersion\":");
                let v = quote_json(protocol_version.as_str());
                r.append(v.as_str());
                r.append(",\"serverInfo\":{\"name\":\"careerbot\",\"version\":");
                let s = quote_json(server_version.as_str());
                r.append(s.as_str());
                r.append("}}");
                r
            },
            RpcResult::ToolsList => tools_list_text(),
            RpcResult::ToolsCall { text, is_error } => {
                proof {
                    law_tool_result_reports_its_error_flag(*text, *is_error);
                }
                let mut r = owned("{\"content\":[{\"text\":");
                let t = quote_json(text.as_str());
                r.append(t.as_str());
                r.append(",\"type\":\"text\"}],\"isError\":");
                if *is_error {
                    r.append("true");
                } else {
                    r.append("false");
                }
                r.append("}");
                r
            },
        }
    }
}

impl Response {
    /// The response as one line of JSON text (without the newline).
    pub fn to_json(&self) -> (r: String)
        ensures
            r@ == response_json(*self),
    {
        let mut r = owned("{\"jsonrpc\":\"2.0\"");
        match &self.result {
            Some(res) => {
                r.append(",\"result\":");
                let t = res.to_json();
                r.append(t.as_str());
            },
            None => {},
        }
        match &self.error {
            Some(e) => {
                r.append(",\"error\":{\"code\":");
                let c = i64_to_decimal(e.code);
                r.append(c.as_str());
                r.append(",\"message\":");
                let m = quote_json(e.message.as_str());
                r.append(m.as_str());
                r.append("}");
            },
            None => {},
        }
        r.append(",\"id\":");
        r.append(self.id.as_str());
        r.append("}");
        r
    }
}

/// Every request that carries an id is answered: its routing is never
/// the silent acceptance reserved for notifications.
pub proof fn law_requests_with_id_are_answered(method: Seq<char>, version: Option<Seq<char>>, name: Option<Seq<char>>)
    ensures
        !(routing(method, true, version, name) is Quiet),
{
}

/// A notification is accepted silently only when its method is one of
/// the documented notifications.
pub proof fn law_quiet_only_for_notifications(method: Seq<char>, version: Option<Seq<char>>, name: Option<Seq<char>>)
    requires
        routing(method, false, version, name) is Quiet,
    ensures
        method == "notifications/initialized"@ || method == "notifications/cancelled"@,
{
}

/// `s` ends with `suffix`.
pub open spec fn ends_with(s: Seq<char>, suffix: Seq<char>) -> bool {
    s.len() >= suffix.len() && s.skip(s.len() - suffix.len()) == suffix
}

/// The JSON of a tool call's result reports the call's outcome: it ends
/// with `"isError":true}` for a failed call and with `"isError":false}`
/// for one that succeeded, so the two never read alike.
pub proof fn law_tool_result_reports_its_error_flag(text: String, is_error: bool)
    ensures
        ends_with(
            result_json(RpcResult::ToolsCall { text, is_error }),
            if is_error {
                "\"isError\":true}"@
            } else {
                "\"isError\":false}"@
            },
        ),
{
    reveal_strlit("\"isError\":true}");
    reveal_strlit("\"isError\":false}");
    reveal_strlit(",\"type\":\"text\"}],\"isError\":");
    reveal_strlit("true");
    reveal_strlit("false");
    reveal_strlit("}");
    let j = result_json(RpcResult::ToolsCall { text, is_error });
    let tail = ",\"type\":\"text\"}],\"isError\":"@ + if is_error {
        "true"@
    } else {
        "false"@
    } + "}"@;
    let head = "{\"content\":[{\"text\":"@ + json_quoted(text@);
    assert(j =~= head + tail);
    if is_error {
        assert(j.skip(j.len() - 15) =~= "\"isError\":true}"@);
    } else {
        assert(j.skip(j.len() - 16) =~= "\"isError\":false}"@);
    }
}

} // verus!

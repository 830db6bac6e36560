use careerbot::mcp::{
    complete_call, parse_error_response, route, Request, RpcResult, Step, INVALID_REQUEST, METHOD_NOT_FOUND,
    PARSE_ERROR,
};

fn req(method: &str, id: Option<&str>) -> Request {
    Request { method: method.to_string(), id: id.map(|s| s.to_string()), protocol_version: None, tool_name: None }
}

fn json(step: &Step) -> serde_json::Value {
    match step {
        Step::Reply(r) => serde_json::from_str(&r.to_json()).unwrap(),
        _ => panic!("expected a reply"),
    }
}

#[test]
fn initialize_returns_protocol_version_and_server_info() {
    let mut r = req("initialize", Some("1"));
    r.protocol_version = Some("2024-11-05".to_string());
    let step = route(&r, "0.1.0");
    let v = json(&step);
    assert_eq!(v["id"], 1);
    assert_eq!(v["result"]["protocolVersion"], "2024-11-05");
    assert_eq!(v["result"]["serverInfo"]["name"], "careerbot");
    assert_eq!(v["result"]["serverInfo"]["version"], "0.1.0");
    assert!(v["result"]["capabilities"]["tools"].is_object());
}

#[test]
fn initialize_echoes_the_client_version() {
    let mut r = req("initialize", Some("9"));
    r.protocol_version = Some("2025-03-26".to_string());
    let v = json(&route(&r, "0.1.0"));
    assert_eq!(v["result"]["protocolVersion"], "2025-03-26");
}

#[test]
fn initialize_falls_back_when_version_missing() {
    let step = route(&req("initialize", Some("2")), "0.1.0");
    let v = json(&step);
    assert_eq!(v["result"]["protocolVersion"], "2024-11-05");
}

#[test]
fn tools_list_returns_the_eight_canonical_tools() {
    let step = route(&req("tools/list", Some("3")), "0.1.0");
    let v = json(&step);
    let tools = v["result"]["tools"].as_array().unwrap();
    assert_eq!(tools.len(), 8);
    assert_eq!(tools[0]["name"], "fetch_url");
    assert!(tools[0]["inputSchema"].is_object());
}

#[test]
fn tools_call_dispatches_then_answers() {
    let mut r = req("tools/call", Some("\"abc\""));
    r.tool_name = Some("read_profile".to_string());
    match route(&r, "v") {
        Step::Dispatch(name) => assert_eq!(name, "read_profile"),
        _ => panic!("expected dispatch"),
    }
    let resp = complete_call(&r, Err("unknown tool: x".to_string())).unwrap();
    let v: serde_json::Value = serde_json::from_str(&resp.to_json()).unwrap();
    assert_eq!(v["id"], "abc");
    assert_eq!(v["result"]["isError"], true);
    assert_eq!(v["result"]["content"][0]["text"], "unknown tool: x");
    assert_eq!(v["result"]["content"][0]["type"], "text");
    let ok = complete_call(&r, Ok("# Profile\nhi".to_string())).unwrap();
    match ok.result_value() {
        Some(RpcResult::ToolsCall { text, is_error }) => {
            assert_eq!(text, "# Profile\nhi");
            assert!(!is_error);
        }
        _ => panic!("expected a tool result"),
    }
}

#[test]
fn tools_call_without_name_is_invalid() {
    let step = route(&req("tools/call", Some("4")), "v");
    match step {
        Step::Reply(r) => {
            assert_eq!(r.error_code(), Some(INVALID_REQUEST));
            assert!(r.result_value().is_none());
        }
        _ => panic!("expected an error reply"),
    }
}

#[test]
fn unknown_method_returns_method_not_found() {
    match route(&req("does/not/exist", Some("7")), "v") {
        Step::Reply(r) => {
            assert_eq!(r.error_code(), Some(METHOD_NOT_FOUND));
            assert_eq!(r.id_value(), "7");
            let v: serde_json::Value = serde_json::from_str(&r.to_json()).unwrap();
            assert_eq!(v["error"]["message"], "unknown method: does/not/exist");
        }
        _ => panic!("expected an error reply"),
    }
}

#[test]
fn parse_error_returns_response_with_null_id() {
    let r = parse_error_response("expected value");
    assert_eq!(r.error_code(), Some(PARSE_ERROR));
    assert_eq!(r.id_value(), "null");
    let v: serde_json::Value = serde_json::from_str(&r.to_json()).unwrap();
    assert_eq!(v["id"], serde_json::Value::Null);
    assert_eq!(v["jsonrpc"], "2.0");
    assert_eq!(v["error"]["code"], -32700);
    assert_eq!(v["error"]["message"], "parse error: expected value");
}

#[test]
fn notification_initialized_returns_no_response() {
    assert!(matches!(route(&req("notifications/initialized", None), "v"), Step::NoReply));
    assert!(matches!(route(&req("notifications/cancelled", None), "v"), Step::NoReply));
    assert!(matches!(route(&req("initialize", None), "v"), Step::NoReply));
    assert!(matches!(route(&req("nope", None), "v"), Step::NoReply));
    let mut call = req("tools/call", None);
    call.tool_name = Some("read_filters".to_string());
    assert!(matches!(route(&call, "v"), Step::Dispatch(_)));
    assert!(complete_call(&call, Ok("{}".to_string())).is_none());
}

#[test]
fn notification_method_with_id_is_invalid() {
    match route(&req("notifications/initialized", Some("9")), "v") {
        Step::Reply(r) => assert_eq!(r.error_code(), Some(INVALID_REQUEST)),
        _ => panic!("expected an error reply"),
    }
}

#[test]
fn tools_call_with_unknown_tool_returns_is_error() {
    let mut r = req("tools/call", Some("6"));
    r.tool_name = Some("does_not_exist".to_string());
    let name = match route(&r, "v") {
        Step::Dispatch(name) => name,
        _ => panic!("expected dispatch"),
    };
    let outcome = careerbot::tool_dispatch::parse_tool_call(
        &name,
        &careerbot::tool_dispatch::ToolInput { fields: Vec::new() },
    )
    .map(|_| String::new());
    let resp = complete_call(&r, outcome).unwrap();
    let v: serde_json::Value = serde_json::from_str(&resp.to_json()).unwrap();
    assert_eq!(v["result"]["isError"], true);
    assert!(v["result"]["content"][0]["text"].as_str().unwrap().contains("unknown tool"));
}

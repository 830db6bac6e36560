use careerbot::tool_dispatch::{
    all_tools, parse_tool_call, to_anthropic_tools, to_mcp_tools, InputValue, ToolCall, ToolFormat, ToolInput,
};

fn input(fields: Vec<(&str, InputValue)>) -> ToolInput {
    ToolInput { fields: fields.into_iter().map(|(k, v)| (k.to_string(), v)).collect() }
}

fn s(v: &str) -> InputValue {
    InputValue::Str(v.to_string())
}

#[test]
fn all_tools_lists_the_documented_eight() {
    let tools = all_tools();
    let names: Vec<&str> = tools.iter().map(|t| t.name.as_str()).collect();
    assert_eq!(
        names,
        vec![
            "fetch_url",
            "save_script",
            "run_script",
            "read_profile",
            "write_profile",
            "read_filters",
            "write_filters",
            "list_known_jobs",
        ]
    );
}

#[test]
fn anthropic_format_uses_snake_case_schema_key() {
    let tools = all_tools();
    let rendered = to_anthropic_tools(&tools);
    let first: serde_json::Value = serde_json::from_str(&rendered[0]).unwrap();
    assert!(first["input_schema"].is_object());
    assert!(first.get("inputSchema").is_none());
}

#[test]
fn mcp_format_uses_camel_case_schema_key() {
    let tools = all_tools();
    let rendered = to_mcp_tools(&tools);
    let first: serde_json::Value = serde_json::from_str(&rendered[0]).unwrap();
    assert!(first["inputSchema"].is_object());
    assert!(first.get("input_schema").is_none());
}

#[test]
fn every_schema_is_an_object_schema() {
    for t in all_tools() {
        let schema: serde_json::Value = serde_json::from_str(&t.input_schema).unwrap();
        assert_eq!(schema["type"], "object");
        assert!(!t.description.is_empty());
    }
    let rendered = to_mcp_tools(&all_tools());
    let last: serde_json::Value = serde_json::from_str(&rendered[7]).unwrap();
    assert_eq!(last["name"], "list_known_jobs");
    assert_eq!(last["inputSchema"]["properties"]["limit"]["maximum"], 100);
    assert_eq!(ToolFormat::Anthropic.schema_key(), "input_schema");
    assert_eq!(ToolFormat::Mcp.schema_key(), "inputSchema");
}

#[test]
fn unknown_tool_is_reported_by_name() {
    match parse_tool_call("does_not_exist", &input(vec![])) {
        Err(m) => assert_eq!(m, "unknown tool: does_not_exist"),
        Ok(_) => panic!("expected an error"),
    }
}

#[test]
fn missing_string_field_is_named() {
    match parse_tool_call("fetch_url", &input(vec![("url", InputValue::UInt(3))])) {
        Err(m) => assert_eq!(m, "missing or non-string field \"url\""),
        Ok(_) => panic!("a number is no url"),
    }
    match parse_tool_call("save_script", &input(vec![("company", s("acme"))])) {
        Err(m) => assert_eq!(m, "missing or non-string field \"code\""),
        Ok(_) => panic!("code is required"),
    }
    match parse_tool_call("save_script", &input(vec![("code", s("print()"))])) {
        Err(m) => assert_eq!(m, "missing or non-string field \"company\""),
        Ok(_) => panic!("company is checked first"),
    }
}

#[test]
fn fetch_url_keeps_string_headers_only() {
    let headers = InputValue::Object(vec![
        ("Accept".to_string(), Some("text/html".to_string())),
        ("X-Count".to_string(), None),
    ]);
    match parse_tool_call("fetch_url", &input(vec![("url", s("https://x")), ("headers", headers)])) {
        Ok(ToolCall::FetchUrl { url, headers }) => {
            assert_eq!(url, "https://x");
            assert_eq!(headers, Some(vec![("Accept".to_string(), "text/html".to_string())]));
        }
        _ => panic!("expected fetch_url"),
    }
    match parse_tool_call("fetch_url", &input(vec![("url", s("https://y")), ("headers", s("no"))])) {
        Ok(ToolCall::FetchUrl { headers, .. }) => assert_eq!(headers, None),
        _ => panic!("expected fetch_url"),
    }
}

#[test]
fn list_known_jobs_limit_defaults_to_ten() {
    match parse_tool_call("list_known_jobs", &input(vec![("company", s("acme"))])) {
        Ok(ToolCall::ListKnownJobs { company, limit }) => {
            assert_eq!(company, "acme");
            assert_eq!(limit, 10);
        }
        _ => panic!("expected list_known_jobs"),
    }
    match parse_tool_call("list_known_jobs", &input(vec![("limit", InputValue::UInt(25)), ("company", s("a"))])) {
        Ok(ToolCall::ListKnownJobs { limit, .. }) => assert_eq!(limit, 25),
        _ => panic!("expected list_known_jobs"),
    }
    match parse_tool_call("list_known_jobs", &input(vec![("company", s("a")), ("limit", InputValue::Other)])) {
        Ok(ToolCall::ListKnownJobs { limit, .. }) => assert_eq!(limit, 10),
        _ => panic!("expected list_known_jobs"),
    }
}

#[test]
fn completion_texts() {
    let save = parse_tool_call("save_script", &input(vec![("company", s("a")), ("code", s("x"))])).ok().unwrap();
    assert_eq!(save.completion_text(), Some("saved"));
    let write = parse_tool_call("write_profile", &input(vec![("content", s("# p"))])).ok().unwrap();
    assert_eq!(write.completion_text(), Some("written"));
    let filters = parse_tool_call("write_filters", &input(vec![])).ok().unwrap();
    assert_eq!(filters.completion_text(), Some("written"));
    let read = parse_tool_call("read_profile", &input(vec![])).ok().unwrap();
    assert_eq!(read.completion_text(), None);
}

#[test]
fn every_catalogued_tool_is_dispatchable() {
    for t in all_tools() {
        if let Err(m) = parse_tool_call(&t.name, &input(vec![])) {
            assert!(!m.starts_with("unknown tool"));
        }
    }
}

#[test]
fn json_literals_match_serde_json() {
    let samples = [
        "",
        "plain",
        "quote \" and backslash \\",
        "lines\nand\ttabs\r",
        "\u{8}\u{c}\u{0}\u{1f}\u{7f}",
        "unicode é ☃ 𝄞",
        "</script>",
    ];
    for s in samples {
        assert_eq!(careerbot::json::quote_json(s), serde_json::to_string(s).unwrap());
    }
    assert_eq!(careerbot::json::quote_json("\u{1}"), "\"\\u0001\"");
    assert_eq!(careerbot::json::quote_json("\u{1b}"), "\"\\u001b\"");
}

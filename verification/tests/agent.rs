use careerbot::agent::{AgentError, AttachmentKind, Budget, Capabilities, Cost};
use careerbot::anthropic::{
    api_failure, base64_encode, document_block, first_user_message, AgentLoop, AnthropicApiDriver, TurnBlock, TurnOutcome,
};
use careerbot::subprocess::{
    agent_cli_args,    build_mcp_config, exit_failure, interpret_output, probe_verdict, AgentOutput, ClaudeCodeDriver,
    ClaudeCodeError,
};
use careerbot::tools::ToolError;
use careerbot::types::usage_record;

fn text(t: &str) -> TurnBlock {
    TurnBlock::Text(t.to_string())
}

fn tool(id: &str, name: &str, outcome: Result<&str, &str>) -> TurnBlock {
    TurnBlock::ToolUse {
        id: id.to_string(),
        name: name.to_string(),
        outcome: outcome.map(|s| s.to_string()).map_err(|s| s.to_string()),
    }
}

#[test]
fn single_turn_text_only_response() {
    let l = AgentLoop::new(None);
    assert!(l.may_request());
    assert_eq!(l.max_output_tokens(), 4096);
    match l.absorb_turn(5, 3, vec![text("hello")]) {
        TurnOutcome::Finished(r) => {
            assert_eq!(r.text, "hello");
            assert!(r.tool_calls.is_empty());
            let cost = r.cost.unwrap();
            assert_eq!(cost.input_tokens, 5);
            assert_eq!(cost.output_tokens, 3);
        }
        TurnOutcome::Continue(..) => panic!("no tool was used"),
    }
}

#[test]
fn multi_turn_with_tool_use() {
    let l = AgentLoop::new(None);
    let (l, results) = match l.absorb_turn(100, 20, vec![text("checking"), tool("tu1", "write_profile", Ok("written"))]) {
        TurnOutcome::Continue(next, results) => (next, results),
        TurnOutcome::Finished(_) => panic!("a tool was used"),
    };
    assert_eq!(results.len(), 1);
    assert_eq!(results[0].tool_use_id, "tu1");
    assert_eq!(results[0].content, "written");
    assert!(!results[0].is_error);
    assert_eq!(l.totals().input_tokens, 100);
    match l.absorb_turn(150, 5, vec![text("done")]) {
        TurnOutcome::Finished(r) => {
            assert_eq!(r.text, "done");
            assert_eq!(r.tool_calls.len(), 1);
            assert_eq!(r.tool_calls[0].tool, "write_profile");
            assert!(r.tool_calls[0].success);
            let cost = r.cost.unwrap();
            assert_eq!(cost.input_tokens, 250);
            assert_eq!(cost.output_tokens, 25);
        }
        TurnOutcome::Continue(..) => panic!("no tool was used"),
    }
}

#[test]
fn unknown_tool_reports_error_to_model() {
    let l = AgentLoop::new(None);
    let l = match l.absorb_turn(10, 2, vec![tool("tu1", "does_not_exist", Err("unknown tool: does_not_exist"))]) {
        TurnOutcome::Continue(next, results) => {
            assert!(results[0].is_error);
            assert_eq!(results[0].content, "unknown tool: does_not_exist");
            next
        }
        TurnOutcome::Finished(_) => panic!("a tool was used"),
    };
    match l.absorb_turn(5, 1, vec![text("oops")]) {
        TurnOutcome::Finished(r) => {
            assert_eq!(r.text, "oops");
            assert!(!r.tool_calls[0].success);
            assert_eq!(r.tool_calls[0].error.as_deref(), Some("unknown tool: does_not_exist"));
        }
        TurnOutcome::Continue(..) => panic!("no tool was used"),
    }
}

#[test]
fn loop_exhausted_after_max_iterations() {
    let mut l = AgentLoop::new(Some(Budget { max_iterations: 3, max_output_tokens: 1024 }));
    let mut requests = 0;
    while l.may_request() {
        requests += 1;
        l = match l.absorb_turn(1, 1, vec![tool("tu1", "read_profile", Ok("# stub"))]) {
            TurnOutcome::Continue(next, _) => next,
            TurnOutcome::Finished(_) => panic!("a tool was used"),
        };
    }
    assert_eq!(requests, 3);
    assert!(matches!(l.exhausted(), AgentError::LoopExhausted { iterations: 3 }));
    assert_eq!(l.totals().input_tokens, 3);
}

#[test]
fn last_text_survives_a_turn_without_text() {
    let l = AgentLoop::new(None);
    let l = match l.absorb_turn(0, 0, vec![text("first"), tool("a", "read_filters", Ok("{}"))]) {
        TurnOutcome::Continue(next, _) => next,
        TurnOutcome::Finished(_) => panic!("a tool was used"),
    };
    match l.absorb_turn(0, 0, vec![]) {
        TurnOutcome::Finished(r) => assert_eq!(r.text, "first"),
        TurnOutcome::Continue(..) => panic!("no tool was used"),
    }
}

#[test]
fn token_totals_saturate() {
    let l = AgentLoop::new(None);
    let l = match l.absorb_turn(u64::MAX, 1, vec![tool("a", "read_profile", Ok("x"))]) {
        TurnOutcome::Continue(next, _) => next,
        TurnOutcome::Finished(_) => panic!("a tool was used"),
    };
    match l.absorb_turn(10, 1, vec![]) {
        TurnOutcome::Finished(r) => {
            let cost = r.cost.unwrap();
            assert_eq!(cost.input_tokens, u64::MAX);
            assert_eq!(cost.output_tokens, 2);
        }
        TurnOutcome::Continue(..) => panic!("no tool was used"),
    }
}

#[test]
fn api_error_surfaces() {
    let e = api_failure(500, "boom".to_string());
    match &e {
        AgentError::Api { status, body } => {
            assert_eq!(*status, 500);
            assert_eq!(body, "boom");
        }
        _ => panic!("expected Api error"),
    }
    assert_eq!(e.message(), "API error 500: boom");
    assert_eq!(
        AgentError::LoopExhausted { iterations: 10 }.message(),
        "agent loop exhausted after 10 iterations"
    );
    assert_eq!(AgentError::InvalidResponse("x".to_string()).message(), "invalid driver response: x");
    let tool = AgentError::Tool(ToolError::Script { stderr: "bad".to_string(), exit_code: -1 });
    assert_eq!(tool.message(), "tool: script exited -1: bad");
}

#[test]
fn driver_settings() {
    let d = AnthropicApiDriver::new("test-key", "some-model");
    assert_eq!(d.api_key(), "test-key");
    assert_eq!(d.model(), "some-model");
    assert_eq!(d.base_url(), "https://api.anthropic.com");
    let d = d.with_base_url("http://127.0.0.1:9").with_model("other");
    assert_eq!(d.messages_url(), "http://127.0.0.1:9/v1/messages");
    assert_eq!(d.model(), "other");
    assert_eq!(AnthropicApiDriver::api_version(), "2023-06-01");
    assert_eq!(AnthropicApiDriver::provider(), "anthropic_api");
    let caps = d.capabilities();
    assert!(!caps.native_web_search);
    assert!(caps.file_attachments);
    assert!(caps.rate_limit_aware);
    assert!(!caps.streaming);
}

#[test]
fn defaults() {
    let b = Budget::default();
    assert_eq!(b.max_iterations, 10);
    assert_eq!(b.max_output_tokens, 4096);
    let c = Capabilities::default();
    assert!(!c.native_web_search && !c.file_attachments && !c.rate_limit_aware && !c.streaming);
    let cost = Cost::default();
    assert_eq!(cost.input_tokens + cost.output_tokens, 0);
    assert_eq!(AttachmentKind::Pdf.media_type(), "application/pdf");
}

#[test]
fn usage_is_recorded_only_when_tokens_were_spent() {
    assert!(usage_record("now".to_string(), "anthropic_api", None, "test", 0, 0).is_none());
    let u = usage_record("now".to_string(), "anthropic_api", Some("m".to_string()), "test", 5, 0).unwrap();
    assert_eq!(u.provider, "anthropic_api");
    assert_eq!(u.model.as_deref(), Some("m"));
    assert_eq!(u.purpose, "test");
    assert_eq!(u.input_tokens, Some(5));
    assert_eq!(u.output_tokens, Some(0));
    assert!(u.company_tag.is_none());
}

#[test]
fn mcp_config_points_at_supplied_binary() {
    let cfg: serde_json::Value = serde_json::from_str(&build_mcp_config("/usr/local/bin/careerbot")).unwrap();
    assert_eq!(cfg["mcpServers"]["careerbot"]["command"], "/usr/local/bin/careerbot");
    let args = cfg["mcpServers"]["careerbot"]["args"].as_array().unwrap();
    assert_eq!(args.len(), 1);
    assert_eq!(args[0], "mcp-server");
}

#[test]
fn subprocess_outcomes() {
    let ok = interpret_output(AgentOutput {
        result: "Hi!".to_string(),
        is_error: false,
        input_tokens: 6,
        output_tokens: 8,
    });
    match ok {
        Ok(r) => {
            assert_eq!(r.text, "Hi!");
            assert!(r.tool_calls.is_empty());
            assert_eq!(r.cost.unwrap().output_tokens, 8);
        }
        Err(_) => panic!("not an error result"),
    }
    let err = interpret_output(AgentOutput { result: "oops".to_string(), is_error: true, input_tokens: 1, output_tokens: 0 });
    assert!(matches!(err, Err(AgentError::InvalidResponse(ref m)) if m == "oops"));
    assert!(matches!(exit_failure(Some(2), "bad".to_string()), AgentError::Api { status: 2, .. }));
    assert!(matches!(exit_failure(None, String::new()), AgentError::Api { status: 0, .. }));
    assert!(matches!(exit_failure(Some(70000), String::new()), AgentError::Api { status: 65535, .. }));
}

#[test]
fn subprocess_probe_and_settings() {
    assert!(probe_verdict("agent", true, Some(0)).is_ok());
    match probe_verdict("agent", false, Some(2)) {
        Err(e) => {
            assert_eq!(e.message(), "`agent` binary not usable on PATH: agent --version exited with Some(2)");
        }
        Ok(()) => panic!("a failed probe is an error"),
    }
    match probe_verdict("agent", false, None) {
        Err(ClaudeCodeError::AgentMissing { reason, .. }) => assert_eq!(reason, "agent --version exited with None"),
        _ => panic!("a failed probe is an error"),
    }
    assert_eq!(
        ClaudeCodeError::SelfPathUnknown("gone".to_string()).message(),
        "could not resolve current careerbot binary: gone"
    );
    let d = ClaudeCodeDriver::with_binaries("agent", "/bin/careerbot");
    assert_eq!(d.agent_bin(), "agent");
    assert_eq!(d.careerbot_bin(), "/bin/careerbot");
    assert!(d.capabilities().native_web_search);
}

#[test]
fn base64_matches_the_standard_alphabet_and_padding() {
    assert_eq!(base64_encode(b""), "");
    assert_eq!(base64_encode(b"f"), "Zg==");
    assert_eq!(base64_encode(b"fo"), "Zm8=");
    assert_eq!(base64_encode(b"foo"), "Zm9v");
    assert_eq!(base64_encode(&[0xff, 0xfe, 0x00, 0x3e, 0x3f]), "//4APj8=");
    assert_eq!(base64_encode(b"%PDF-1.4\nstub"), "JVBERi0xLjQKc3R1Yg==");
}

#[test]
fn first_message_without_attachments_is_the_prompt() {
    let m: serde_json::Value = serde_json::from_str(&first_user_message("hi \"there\"", &[])).unwrap();
    assert_eq!(m["role"], "user");
    assert_eq!(m["content"], "hi \"there\"");
}

#[test]
fn first_message_carries_a_pdf_as_a_document_block() {
    let docs = vec![(AttachmentKind::Pdf, b"%PDF-1.4\nstub".to_vec())];
    let m: serde_json::Value = serde_json::from_str(&first_user_message("Read it.", &docs)).unwrap();
    assert_eq!(m["role"], "user");
    let content = m["content"].as_array().unwrap();
    assert_eq!(content.len(), 2);
    assert_eq!(content[0]["type"], "document");
    assert_eq!(content[0]["source"]["type"], "base64");
    assert_eq!(content[0]["source"]["media_type"], "application/pdf");
    assert_eq!(content[0]["source"]["data"], "JVBERi0xLjQKc3R1Yg==");
    assert_eq!(content[1]["type"], "text");
    assert_eq!(content[1]["text"], "Read it.");
    let block: serde_json::Value = serde_json::from_str(&document_block(AttachmentKind::Pdf, b"foo")).unwrap();
    assert_eq!(block["source"]["data"], "Zm9v");
}

#[test]
fn agent_cli_arguments() {
    assert_eq!(
        agent_cli_args("Hi", "sys", "/tmp/m.json", &[]),
        vec!["-p", "Hi", "--append-system-prompt", "sys", "--mcp-config", "/tmp/m.json", "--output-format", "json"]
    );
    let with_dir = agent_cli_args("Hi", "sys", "/tmp/m.json", &["/home/u".to_string()]);
    assert_eq!(&with_dir[..2], &["--add-dir".to_string(), "/home/u".to_string()]);
    assert_eq!(with_dir.len(), 10);
}

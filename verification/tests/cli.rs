use careerbot::cli::{
    config_action, error_line, handler, jobs_removal_line, run_now_path, run_now_reply, script_removal_line,
    status_reply, stop_reply, tokens_line, verification_failed_line, verified_line, Command, ConfigAction, Handler,
};

#[test]
fn unfinished_commands_have_no_handler() {
    assert_eq!(handler(&Command::Init { force: false }), Handler::NotImplemented);
    assert_eq!(handler(&Command::Filters { edit: true }), Handler::NotImplemented);
    assert_eq!(handler(&Command::Logs { follow: false }), Handler::NotImplemented);
    assert_eq!(handler(&Command::Feedback { text: "x".to_string() }), Handler::NotImplemented);
    assert_eq!(handler(&Command::Status), Handler::Status);
    assert_eq!(handler(&Command::RunNow { company: None }), Handler::RunNow);
    assert_eq!(handler(&Command::McpServer), Handler::McpServer);
}

#[test]
fn config_arguments_choose_one_action() {
    let s = |v: &str| Some(v.to_string());
    assert!(matches!(config_action(s("k"), s("v"), true, true, s("u")), ConfigAction::Unset(ref u) if u == "u"));
    assert!(matches!(config_action(s("k"), None, true, true, None), ConfigAction::List));
    assert!(matches!(config_action(None, None, false, true, None), ConfigAction::Edit));
    assert!(matches!(config_action(None, None, false, false, None), ConfigAction::Help));
    assert!(matches!(config_action(s("k"), None, false, false, None), ConfigAction::Get(ref k) if k == "k"));
    assert!(matches!(
        config_action(s("k"), s("v"), false, false, None),
        ConfigAction::Assign(ref k, ref v) if k == "k" && v == "v"
    ));
}

#[test]
fn run_now_requests_and_replies() {
    assert_eq!(run_now_path(Some("acme")), "/run-now?company=acme");
    assert_eq!(run_now_path(None), "/run-now");
    assert_eq!(run_now_reply(Some("acme"), 202, ""), Ok("tick queued for acme".to_string()));
    assert_eq!(run_now_reply(None, 202, ""), Ok("tick queued for all companies".to_string()));
    assert_eq!(
        run_now_reply(Some("acme"), 404, ""),
        Err("company \"acme\" is not registered (no scripts/acme.py)".to_string())
    );
    assert_eq!(run_now_reply(None, 500, "boom"), Err("unexpected status: 500 boom".to_string()));
}

#[test]
fn stop_and_status_replies() {
    assert_eq!(stop_reply(202, ""), Ok("daemon shutting down".to_string()));
    assert_eq!(stop_reply(500, "x"), Err("unexpected response from daemon: 500 x".to_string()));
    assert_eq!(status_reply(200, "{}"), Ok("{}".to_string()));
    assert_eq!(status_reply(404, "no"), Err("unexpected status: 404 no".to_string()));
}

#[test]
fn report_lines() {
    assert_eq!(verified_line(1), "verified: 1 initial job on first run");
    assert_eq!(verified_line(0), "verified: 0 initial jobs on first run");
    assert_eq!(verification_failed_line(None), "verification failed: unknown");
    assert_eq!(verification_failed_line(Some("exit 1")), "verification failed: exit 1");
    assert_eq!(tokens_line(180, 40, 1), "tokens: input=180 output=40 (tool calls: 1)");
    assert_eq!(script_removal_line("acme", true), "removed scripts/acme.py");
    assert_eq!(script_removal_line("acme", false), "no script for acme");
    assert_eq!(jobs_removal_line(2), "deleted 2 job row(s)");
    assert_eq!(error_line("boom"), "error: boom");
}

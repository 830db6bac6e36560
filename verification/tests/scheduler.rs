use careerbot::config::{Config, ConfigValue};
use careerbot::scheduler::{
    build_notification, company_from_file_name, config_seconds, discover_companies, failed_run, jitter_from,
    poke_target, poll_interval_hours, poll_interval_seconds, pseudo_jitter, run_now_status, sort_names,
    startup_jitter_max, successful_run, title_case, PokeTarget, plan_tick, audit_rows,
};
use careerbot::tools::{record_lines, ToolError};
use careerbot::types::RawJob;

fn job(id: &str, title: &str, url: &str, location: Option<Vec<&str>>) -> RawJob {
    RawJob {
        external_id: id.to_string(),
        title: title.to_string(),
        url: url.to_string(),
        location: location.map(|l| l.into_iter().map(|s| s.to_string()).collect()),
        posted_at: None,
        description: None,
    }
}

fn names(v: &[&str]) -> Vec<String> {
    v.iter().map(|s| s.to_string()).collect()
}

#[test]
fn discover_companies_lists_python_files() {
    let found = discover_companies(&names(&["microsoft.py", "google.py", "README.md"]));
    assert_eq!(found, vec!["google", "microsoft"]);
}

#[test]
fn company_names_come_from_py_stems() {
    assert_eq!(company_from_file_name("acme.py"), Some("acme".to_string()));
    assert_eq!(company_from_file_name("a.b.py"), Some("a.b".to_string()));
    assert_eq!(company_from_file_name(".py"), None);
    assert_eq!(company_from_file_name("acme.pyc"), None);
    assert_eq!(company_from_file_name("acme"), None);
    assert_eq!(company_from_file_name("acme.PY"), None);
}

#[test]
fn names_sort_by_code_point() {
    assert_eq!(sort_names(names(&["b", "B", "a", "ab", "a"])), vec!["B", "a", "a", "ab", "b"]);
    assert!(sort_names(Vec::new()).is_empty());
}

#[test]
fn tick_dispatches_single_job_notification() {
    let n = build_notification("microsoft", &[(1, job("1", "Senior SWE", "https://x", Some(vec!["Remote (US)"])))]);
    assert_eq!(n.title, "Microsoft: Senior SWE");
    assert_eq!(n.body, "Remote (US)");
    assert_eq!(n.click_url.as_deref(), Some("https://x"));
    let two_places = build_notification("acme", &[(1, job("1", "PM", "https://y", Some(vec!["Paris", "Oslo"])))]);
    assert_eq!(two_places.body, "Paris, Oslo");
    let nowhere = build_notification("acme", &[(1, job("1", "PM", "https://y", None))]);
    assert_eq!(nowhere.body, "");
}

#[test]
fn tick_batches_multi_job_notification() {
    let jobs = vec![
        (1, job("1", "SWE", "https://a", None)),
        (2, job("2", "PM", "https://b", None)),
        (3, job("3", "TPM", "https://c", None)),
    ];
    let n = build_notification("microsoft", &jobs);
    assert_eq!(n.title, "Microsoft: 3 new matches");
    assert_eq!(n.body, "SWE · PM · TPM");
    assert!(n.click_url.is_none());
    let mut more = jobs.clone();
    more.push((4, job("4", "EM", "https://d", None)));
    let n = build_notification("microsoft", &more);
    assert_eq!(n.title, "Microsoft: 4 new matches");
    assert_eq!(n.body, "SWE · PM · TPM · …");
}

#[test]
fn title_case_uppercases_first_character() {
    assert_eq!(title_case("microsoft"), "Microsoft");
    assert_eq!(title_case(""), "");
    assert_eq!(title_case("ßeta"), "SSeta");
    assert_eq!(title_case("Acme"), "Acme");
}

#[test]
fn config_seconds_reads_non_negative_integers() {
    let mut c = Config::empty("/tmp/c.toml");
    assert_eq!(config_seconds(&c, "service.startup_jitter_seconds", 60), 60);
    assert_eq!(startup_jitter_max(&c), 60);
    assert_eq!(poll_interval_hours(&c), 1);
    assert_eq!(poll_interval_seconds(&c), 3600);
    assert!(c.set("service.startup_jitter_seconds", ConfigValue::Integer(5)).is_ok());
    assert!(c.set("service.poll_interval_hours", ConfigValue::Integer(-2)).is_ok());
    assert_eq!(startup_jitter_max(&c), 5);
    assert_eq!(poll_interval_hours(&c), 1);
    assert!(c.set("service.poll_interval_hours", ConfigValue::String("2".to_string())).is_ok());
    assert_eq!(poll_interval_seconds(&c), 3600);
    assert!(c.set("service.poll_interval_hours", ConfigValue::Integer(3)).is_ok());
    assert_eq!(poll_interval_seconds(&c), 10800);
}

#[test]
fn jitter_stays_below_its_bound() {
    assert_eq!(pseudo_jitter(0), 0);
    for _ in 0..20 {
        assert!(pseudo_jitter(7) < 7);
    }
    assert_eq!(jitter_from(Some(123_456_789), 1000), 789);
    assert_eq!(jitter_from(None, 1000), 0);
    assert_eq!(jitter_from(Some(5), 0), 0);
}

#[test]
fn poke_unknown_company_returns_false() {
    let known = names(&["google", "microsoft"]);
    assert_eq!(poke_target(&known, Some("does-not-exist")), PokeTarget::Unknown);
    assert_eq!(poke_target(&known, None), PokeTarget::All);
    assert_eq!(poke_target(&[], None), PokeTarget::All);
    assert_eq!(poke_target(&known, Some("microsoft")), PokeTarget::Company(1));
    assert_eq!(run_now_status(poke_target(&known, Some("does-not-exist")) != PokeTarget::Unknown), 404);
    assert_eq!(run_now_status(poke_target(&known, None) != PokeTarget::Unknown), 202);
    assert_eq!(run_now_status(poke_target(&known, Some("google")) != PokeTarget::Unknown), 202);
}

#[test]
fn run_records_of_ticks() {
    let ok = successful_run("t0".to_string(), "t1".to_string(), 2);
    assert_eq!(ok.exit_code, Some(0));
    assert_eq!(ok.new_job_count, Some(2));
    assert_eq!(ok.finished_at.as_deref(), Some("t1"));
    assert!(ok.error.is_none() && ok.stderr_tail.is_none());

    let script = ToolError::Script { stderr: "boom".to_string(), exit_code: 3 };
    let failed = failed_run("t0".to_string(), "t1".to_string(), &script);
    assert_eq!(failed.exit_code, Some(3));
    assert_eq!(failed.stderr_tail.as_deref(), Some("boom"));
    assert_eq!(failed.new_job_count, Some(0));
    assert!(failed.error.unwrap().contains("script exited 3"));

    let ndjson = ToolError::InvalidNdjson("line 2".to_string());
    let failed = failed_run("t0".to_string(), "t1".to_string(), &ndjson);
    assert_eq!(failed.exit_code, None);
    assert_eq!(failed.stderr_tail, None);
    assert_eq!(failed.error.as_deref(), Some("invalid NDJSON: line 2"));
}

#[test]
fn tick_with_new_jobs_notifies_once_and_audits_each() {
    let fresh = vec![(7, job("a", "SWE", "https://a", None)), (9, job("b", "PM", "https://b", None))];
    let plan = plan_tick("microsoft", "t0".to_string(), "t1".to_string(), Ok(fresh));
    assert_eq!(plan.run.started_at, "t0");
    assert_eq!(plan.run.finished_at.as_deref(), Some("t1"));
    assert_eq!(plan.run.exit_code, Some(0));
    assert_eq!(plan.run.new_job_count, Some(2));
    let n = match plan.notification {
        Some(n) => n,
        None => panic!("expected one notification"),
    };
    assert_eq!(n.title, "Microsoft: 2 new matches");
    let ids = match plan.outcome {
        Ok(ids) => ids,
        Err(_) => panic!("expected the new job ids"),
    };
    assert_eq!(ids, vec![7, 9]);
    let rows = audit_rows(&ids, "os", "t2", false, &Some("no bus".to_string()));
    assert_eq!(rows.len(), 2);
    assert_eq!(rows[0].job_id, 7);
    assert_eq!(rows[1].job_id, 9);
    assert!(rows.iter().all(|r| r.channel == "os" && r.sent_at == "t2" && !r.success));
    assert!(rows.iter().all(|r| r.error.as_deref() == Some("no bus")));
}

#[test]
fn tick_without_new_jobs_stays_silent() {
    let plan = plan_tick("acme", "t0".to_string(), "t1".to_string(), Ok(Vec::new()));
    assert!(plan.notification.is_none());
    assert_eq!(plan.run.new_job_count, Some(0));
    assert!(matches!(plan.outcome, Ok(ref ids) if ids.is_empty()));
    assert!(audit_rows(&[], "os", "t2", true, &None).is_empty());
}

#[test]
fn failed_tick_records_the_failure() {
    let err = ToolError::Script { stderr: "boom".to_string(), exit_code: 3 };
    let plan = plan_tick("acme", "t0".to_string(), "t1".to_string(), Err(err));
    assert!(plan.notification.is_none());
    assert_eq!(plan.run.exit_code, Some(3));
    assert_eq!(plan.run.stderr_tail.as_deref(), Some("boom"));
    assert_eq!(plan.run.new_job_count, Some(0));
    assert!(matches!(plan.outcome, Err(ToolError::Script { exit_code: 3, .. })));
}

#[test]
fn script_output_lines_are_trimmed_and_blank_ones_skipped() {
    assert_eq!(record_lines(""), Vec::<String>::new());
    assert_eq!(record_lines("{\"a\":1}\n\n  {\"b\":2}  \r\n\t\n"), vec!["{\"a\":1}", "{\"b\":2}"]);
    assert_eq!(record_lines("x"), vec!["x"]);
}

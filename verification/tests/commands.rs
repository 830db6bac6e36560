use careerbot::agent::{AgentResult, Cost, ToolCallSummary};
use careerbot::commands::{
    add_company_output, add_company_prompt, check_feedback, feedback_output, filters_path, from_resume_output,
    initialization_markers, is_initialized, is_pdf, profile_not_found, profile_path, reset_targets, resume_not_found,
    resume_not_text, resume_plan, script_path, text_resume_prompt, wrote_during, CommandError, ResumePlan,
    add_company_request, resume_request,
};
use careerbot::agent::AttachmentKind;
use careerbot::prompts::{PROFILE_INIT, SCRIPT_GEN};
use careerbot::tools::validate_company;
use careerbot::config::Config;
use careerbot::paths::Paths;
use careerbot::runtime::Runtime;
use std::path::Path;

fn runtime() -> Runtime {
    let paths = Paths::rooted_at("/data", "/state");
    Runtime { config: Config::empty("/data/config.toml"), paths }
}

fn markers_present(paths: &Paths) -> bool {
    let m = initialization_markers(paths);
    is_initialized(Path::new(&m[0]).exists(), Path::new(&m[1]).exists(), Path::new(&m[2]).exists())
}

fn temp_paths() -> (tempfile::TempDir, Paths) {
    let dir = tempfile::TempDir::new().unwrap();
    let data = dir.path().join("data");
    let state = dir.path().join("state");
    let paths = Paths::rooted_at(data.to_str().unwrap(), state.to_str().unwrap());
    (dir, paths)
}

fn result(text: &str, calls: usize) -> AgentResult {
    AgentResult {
        text: text.to_string(),
        tool_calls: (0..calls)
            .map(|_| ToolCallSummary { tool: "write_profile".to_string(), success: true, error: None })
            .collect(),
        cost: Some(Cost { input_tokens: 180, output_tokens: 40 }),
    }
}

#[test]
fn filters_path_lives_under_memory_dir() {
    assert_eq!(filters_path(&runtime()), "/data/memory/filters.json");
}

#[test]
fn profile_path_lives_under_memory_dir() {
    assert_eq!(profile_path(&runtime()), "/data/memory/profile.md");
}

#[test]
fn empty_paths_are_not_initialised() {
    let (_dir, paths) = temp_paths();
    assert!(!markers_present(&paths));
}

fn existing_data_root() -> (tempfile::TempDir, Paths) {
    let dir = tempfile::TempDir::new().unwrap();
    let state = dir.path().join("state");
    let paths = Paths::rooted_at(dir.path().to_str().unwrap(), state.to_str().unwrap());
    (dir, paths)
}

#[test]
fn config_file_alone_counts_as_initialised() {
    let (dir, paths) = existing_data_root();
    let _config = tempfile::Builder::new()
        .prefix("config")
        .suffix(".toml")
        .rand_bytes(0)
        .tempfile_in(dir.path())
        .unwrap();
    assert!(markers_present(&paths));
}

#[test]
fn memory_dir_alone_counts_as_initialised() {
    let (dir, paths) = existing_data_root();
    let _memory = tempfile::Builder::new().prefix("memory").rand_bytes(0).tempdir_in(dir.path()).unwrap();
    assert!(markers_present(&paths));
}

#[test]
fn any_marker_counts() {
    assert!(!is_initialized(false, false, false));
    assert!(is_initialized(false, false, true));
    let p = Paths::rooted_at("/d", "/s");
    assert_eq!(initialization_markers(&p), vec!["/d/config.toml", "/d/memory", "/d/scripts"]);
    assert_eq!(reset_targets(&p), vec!["/d", "/s"]);
}

#[test]
fn file_writes_are_detected_by_mtime() {
    assert!(wrote_during(None, Some(5)));
    assert!(wrote_during(Some(5), Some(6)));
    assert!(!wrote_during(Some(5), Some(5)));
    assert!(!wrote_during(Some(5), None));
    assert!(!wrote_during(None, None));
    assert!(!wrote_during(Some(6), Some(5)));
}

#[test]
fn pdf_detection_ignores_case() {
    assert!(is_pdf("/tmp/resume.pdf"));
    assert!(is_pdf("resume.PDF"));
    assert!(!is_pdf("resume.txt"));
    assert!(!is_pdf("resume"));
    assert!(!is_pdf(".pdf"));
}

#[test]
fn resumes_are_attached_or_inlined() {
    match resume_plan("/r/cv.pdf") {
        ResumePlan::Pdf { prompt, attachment } => {
            assert_eq!(
                prompt,
                "The user's resume is the attached PDF (located at `/r/cv.pdf`). Read it and produce a profile.md via write_profile."
            );
            assert_eq!(attachment.path, "/r/cv.pdf");
            assert_eq!(attachment.kind.media_type(), "application/pdf");
        }
        ResumePlan::Text => panic!("a pdf is attached"),
    }
    assert!(matches!(resume_plan("/r/cv.md"), ResumePlan::Text));
    assert_eq!(text_resume_prompt("Senior engineer."), "Resume contents:\n\nSenior engineer.");
}

#[test]
fn from_resume_reports_missing_file() {
    let err = resume_not_found("/does/not/exist.txt");
    assert!(matches!(err, CommandError::NotFound { .. }));
    assert_eq!(err.message(), "resume file /does/not/exist.txt not found");
}

#[test]
fn from_resume_reports_non_utf8_non_pdf_resume() {
    let err = resume_not_text("/r/cv.docx");
    assert!(matches!(err, CommandError::InvalidInput(_)));
    assert_eq!(
        err.message(),
        "resume file /r/cv.docx is not valid UTF-8; supported formats: .txt, .md, .pdf"
    );
    assert_eq!(profile_not_found().message(), "profile.md not found");
}

#[test]
fn from_resume_summarises_the_run() {
    let out = from_resume_output(result("Profile saved.", 1));
    assert_eq!(out.text, "Profile saved.");
    assert_eq!(out.tool_calls, 1);
    let cost = out.cost.unwrap();
    assert_eq!(cost.input_tokens, 180);
    assert_eq!(cost.output_tokens, 40);
}

#[test]
fn rejects_empty_feedback() {
    let err = match check_feedback("   ") {
        Err(e) => e,
        Ok(()) => panic!("expected InvalidInput"),
    };
    assert!(matches!(err, CommandError::InvalidInput(_)));
    assert_eq!(err.message(), "feedback is empty");
    assert!(check_feedback("").is_err());
    assert!(check_feedback("more compiler roles please").is_ok());
    let out = feedback_output(result("Added compiler preference.", 1));
    assert_eq!(out.text, "Added compiler preference.");
    assert_eq!(out.tool_calls, 1);
}

#[test]
fn add_company_prompts() {
    assert_eq!(add_company_prompt("acme", Some("https://acme.jobs")), "Company: acme\nCareers URL: https://acme.jobs");
    assert_eq!(add_company_prompt("acme", None), "Company: acme\nNo URL provided — discover one.");
}

#[test]
fn add_company_reports_verification() {
    let ok = add_company_output(result("Saved microsoft collector.", 1), Ok(0));
    assert!(ok.verified);
    assert_eq!(ok.initial_jobs, 0);
    assert!(ok.verification_error.is_none());
    assert_eq!(ok.text, "Saved microsoft collector.");
    let bad = add_company_output(result("Saved (untested by me).", 1), Err("script exited 1: ".to_string()));
    assert!(!bad.verified);
    assert_eq!(bad.initial_jobs, 0);
    assert_eq!(bad.verification_error.as_deref(), Some("script exited 1: "));
}

#[test]
fn scripts_are_named_after_companies() {
    let p = Paths::rooted_at("/data", "/state");
    assert_eq!(script_path(&p, "microsoft"), "/data/scripts/microsoft.py");
}

#[test]
fn resume_request_for_a_missing_file_is_not_found() {
    match resume_request("/does/not/exist.txt", false, None) {
        Err(CommandError::NotFound { what }) => assert_eq!(what, "resume file /does/not/exist.txt"),
        _ => panic!("expected NotFound"),
    }
}

#[test]
fn resume_request_inlines_text_for_profile_init() {
    let q = match resume_request("/r/resume.txt", true, Some(Ok(b"Senior backend engineer, 8 years.".to_vec()))) {
        Ok(q) => q,
        Err(e) => panic!("{}", e.message()),
    };
    assert_eq!(q.prompt, "Resume contents:\n\nSenior backend engineer, 8 years.");
    assert_eq!(q.system, PROFILE_INIT);
    assert!(q.budget.is_none());
    assert_eq!(q.purpose, "profile_init");
    assert!(q.attachments.is_empty());
}

#[test]
fn resume_request_attaches_a_pdf() {
    let q = match resume_request("/r/Resume.PDF", true, None) {
        Ok(q) => q,
        Err(e) => panic!("{}", e.message()),
    };
    assert_eq!(q.attachments.len(), 1);
    assert_eq!(q.attachments[0].path, "/r/Resume.PDF");
    assert_eq!(q.attachments[0].kind, AttachmentKind::Pdf);
    assert!(q.prompt.contains("/r/Resume.PDF"));
    assert_eq!(q.purpose, "profile_init");
}

#[test]
fn resume_request_refuses_binary_text() {
    match resume_request("/r/resume.docx", true, Some(Ok(vec![0xC0, 0xC1, 0xFF, 0xFE]))) {
        Err(CommandError::InvalidInput(m)) => {
            assert_eq!(m, "resume file /r/resume.docx is not valid UTF-8; supported formats: .txt, .md, .pdf")
        }
        _ => panic!("expected InvalidInput"),
    }
    let denied = std::io::Error::new(std::io::ErrorKind::PermissionDenied, "denied");
    assert!(matches!(resume_request("/r/resume.md", true, Some(Err(denied))), Err(CommandError::Io(_))));
}

#[test]
fn add_company_request_checks_the_name() {
    let q = match add_company_request("stripe", Some("https://stripe.com/jobs")) {
        Ok(q) => q,
        Err(e) => panic!("{}", e.message()),
    };
    assert_eq!(q.prompt, "Company: stripe\nCareers URL: https://stripe.com/jobs");
    assert_eq!(q.system, SCRIPT_GEN);
    assert_eq!(q.purpose, "script_gen");
    assert!(q.budget.is_none() && q.attachments.is_empty());
    match add_company_request("../x", None) {
        Err(CommandError::InvalidInput(m)) => {
            assert_eq!(m, "invalid company name \"../x\": use ASCII letters, digits, '-' and '_'")
        }
        _ => panic!("expected InvalidInput"),
    }
}

#[test]
fn company_names_are_single_path_components() {
    assert!(validate_company("stripe").is_ok());
    assert!(validate_company("acme-corp_2").is_ok());
    assert!(validate_company("").is_err());
    assert!(validate_company("a/b").is_err());
    assert!(validate_company("..").is_err());
    assert!(validate_company("has space").is_err());
}

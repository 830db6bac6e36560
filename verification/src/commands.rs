//! The command implementations behind the CLI, as far as they decide
//! anything: their inputs are checked, their prompts written and their
//! outputs assembled here; files, processes and the agent run are the
//! caller's.
use crate::agent::{AgentError, AgentResult, Attachment, AttachmentKind, Budget, Cost};
use crate::prompts::{PROFILE_INIT, SCRIPT_GEN};
use crate::external::io_error_text;
use crate::paths::{join_path, law_joined_name_parent, parent_dir, path_join, Paths};
use crate::runtime::{Runtime, RuntimeError};
use crate::text::{concat2, concat3, eq_ignore_ascii_case, eq_ignore_ascii_case_spec, is_blank, is_blank_spec, owned};
use crate::tools::{invalid_company_message, valid_company, validate_company, company_char, ToolError};
use vstd::prelude::*;

verus! {

// ---------------------------------------------------------------------
// Errors
// ---------------------------------------------------------------------
/// Why a command failed.
#[derive(Debug)]
pub enum CommandError {
    Runtime(RuntimeError),
    Agent(AgentError),
    Tool(ToolError),
    Io(std::io::Error),
    /// Something the command needs does not exist.
    NotFound { what: String },
    /// The user's input is unusable.
    InvalidInput(String),
}

impl CommandError {
    /// Human-readable description.
    pub fn message(&self) -> (r: String)
        ensures
            self matches CommandError::NotFound { what } ==> r@ == what@ + " not found"@,
            self matches CommandError::InvalidInput(s) ==> r@ == s@,
    {
        match self {
            CommandError::Runtime(e) => e.message(),
            CommandError::Agent(e) => e.message(),
            CommandError::Tool(e) => e.message(),
            CommandError::Io(e) => io_error_text(e),
            CommandError::NotFound { what } => concat2(what.as_str(), " not found"),
            CommandError::InvalidInput(s) => s.clone(),
        }
    }
}

// ---------------------------------------------------------------------
// File changes
// ---------------------------------------------------------------------
/// Whether a file was written between two modification-time snapshots
/// (nanoseconds since the Unix epoch; `None` when the file could not be
/// inspected): it appeared, or its time advanced. A vanished file, an
/// unchanged time or a failed second snapshot count as not written.
pub fn wrote_during(before: Option<i128>, after: Option<i128>) -> (r: bool)
    ensures
        r == (match (before, after) {
            (None, Some(_)) => true,
            (Some(b), Some(a)) => a > b,
            _ => false,
        }),
{
    match (before, after) {
        (None, Some(_)) => true,
        (Some(b), Some(a)) => a > b,
        _ => false,
    }
}

// ---------------------------------------------------------------------
// init
// ---------------------------------------------------------------------
/// The artefacts whose presence shows a prior setup: the configuration
/// file, the memory directory and the scripts directory, in that order.
pub fn initialization_markers(paths: &Paths) -> (r: Vec<String>)
    ensures
        r@.len() == 3,
        r@[0]@ == path_join(paths.data_view(), "config.toml"@),
        r@[1]@ == path_join(paths.data_view(), "memory"@),
        r@[2]@ == path_join(paths.data_view(), "scripts"@),
{
    let mut r = Vec::new();
    r.push(paths.config_file());
    r.push(paths.memory_dir());
    r.push(paths.scripts_dir());
    r
}

/// Set up already iff any of the markers exists.
pub fn is_initialized(config_file_exists: bool, memory_dir_exists: bool, scripts_dir_exists: bool) -> (r: bool)
    ensures
        r == (config_file_exists || memory_dir_exists || scripts_dir_exists),
{
    config_file_exists || memory_dir_exists || scripts_dir_exists
}

/// The directories `init --force` wipes: the data root, then the state
/// root.
pub fn reset_targets(paths: &Paths) -> (r: Vec<String>)
    ensures
        r@.len() == 2,
        r@[0]@ == paths.data_view(),
        r@[1]@ == paths.state_view(),
{
    let mut r = Vec::new();
    r.push(owned(paths.data_dir()));
    r.push(owned(paths.state_dir()));
    r
}

// ---------------------------------------------------------------------
// Profile and filters
// ---------------------------------------------------------------------
/// The file `profile --edit` opens: `memory/profile.md`.
pub fn profile_path(rt: &Runtime) -> (r: String)
    ensures
        r@ == path_join(path_join(rt.paths.data_view(), "memory"@), "profile.md"@),
{
    let m = rt.paths.memory_dir();
    join_path(m.as_str(), "profile.md")
}

/// The file `filters --edit` opens: `memory/filters.json`.
pub fn filters_path(rt: &Runtime) -> (r: String)
    ensures
        r@ == path_join(path_join(rt.paths.data_view(), "memory"@), "filters.json"@),
{
    let m = rt.paths.memory_dir();
    join_path(m.as_str(), "filters.json")
}

/// The extension `Path::extension` finds in a path.
pub uninterp spec fn path_extension_spec(path: Seq<char>) -> Option<Seq<char>>;

/// `Path::extension` on a path given as text: the part of the file name
/// after its last dot, if the name has one that does not lead it. The
/// path rules are not restated; the result is named.
#[verifier::external_body]
fn path_extension(path: &str) -> (r: Option<String>)
    ensures
        match r {
            Some(e) => path_extension_spec(path@) == Some(e@),
            None => path_extension_spec(path@).is_none(),
        },
{
    match std::path::Path::new(path).extension() {
        Some(e) => match e.to_str() {
            Some(t) => Some(t.to_string()),
            None => None,
        },
        None => None,
    }
}

/// Whether a resume path names a PDF: its extension is `pdf` in any
/// ASCII case.
pub open spec fn is_pdf_spec(path: Seq<char>) -> bool {
    match path_extension_spec(path) {
        Some(e) => eq_ignore_ascii_case_spec(e, "pdf"@),
        None => false,
    }
}

/// Decides whether a resume is sent as a PDF attachment.
pub fn is_pdf(path: &str) -> (r: bool)
    ensures
        r == is_pdf_spec(path@),
{
    match path_extension(path) {
        Some(e) => eq_ignore_ascii_case(e.as_str(), "pdf"),
        None => false,
    }
}

/// The prompt announcing a PDF resume at `path`.
pub open spec fn pdf_prompt_spec(path: Seq<char>) -> Seq<char> {
    "The user's resume is the attached PDF (located at `"@ + path
        + "`). Read it and produce a profile.md via write_profile."@
}

/// How a resume reaches the agent.
pub enum ResumePlan {
    /// Attached as a PDF, with a prompt pointing at it.
    Pdf { prompt: String, attachment: Attachment },
    /// Read as UTF-8 text and inlined in the prompt.
    Text,
}

/// Chooses how to send the resume at `path`.
pub fn resume_plan(path: &str) -> (r: ResumePlan)
    ensures
        is_pdf_spec(path@) ==> (r matches ResumePlan::Pdf { prompt, attachment } && prompt@
            == pdf_prompt_spec(path@) && attachment.path@ == path@ && attachment.kind
            == AttachmentKind::Pdf),
        !is_pdf_spec(path@) ==> r is Text,
{
    if is_pdf(path) {
        let prompt = concat3(
            "The user's resume is the attached PDF (located at `",
            path,
            "`). Read it and produce a profile.md via write_profile.",
        );
        ResumePlan::Pdf { prompt, attachment: Attachment { path: owned(path), kind: AttachmentKind::Pdf } }
    } else {
        ResumePlan::Text
    }
}

/// The prompt carrying a text resume.
pub fn text_resume_prompt(resume: &str) -> (r: String)
    ensures
        r@ == "Resume contents:\n\n"@ + resume@,
{
    concat2("Resume contents:\n\n", resume)
}

/// The text `bytes` spell when they are valid UTF-8.
pub uninterp spec fn utf8_text(bytes: Seq<u8>) -> Option<Seq<char>>;

/// `String::from_utf8`: the text of `bytes` when they are valid UTF-8,
/// else nothing. The decoding is not restated; the result is named.
#[verifier::external_body]
fn decode_utf8(bytes: Vec<u8>) -> (r: Option<String>)
    ensures
        match r {
            Some(s) => utf8_text(bytes@) == Some(s@),
            None => utf8_text(bytes@) is None,
        },
{
    String::from_utf8(bytes).ok()
}

/// One agent run: what the agent is asked, under which system prompt,
/// budget and purpose label, with which files attached.
pub struct RunRequest {
    pub prompt: String,
    pub system: String,
    pub budget: Option<Budget>,
    pub purpose: String,
    pub attachments: Vec<Attachment>,
}

/// A `profile_init` run: the profile system prompt, no budget.
pub open spec fn is_profile_run(q: RunRequest) -> bool {
    &&& q.system@ == PROFILE_INIT@
    &&& q.budget is None
    &&& q.purpose@ == "profile_init"@
}

/// The agent run that turns the resume at `path` into a profile, decided
/// before any driver is built: a missing file is `NotFound`; a PDF is
/// attached and announced by the prompt; any other file is read
/// (`contents`, which the caller supplies for such a file) and inlined,
/// and must be UTF-8 text.
pub fn resume_request(path: &str, path_exists: bool, contents: Option<Result<Vec<u8>, std::io::Error>>) -> (r: Result<
    RunRequest,
    CommandError,
>)
    requires
        path_exists && !is_pdf_spec(path@) ==> contents is Some,
    ensures
        !path_exists ==> (r matches Err(CommandError::NotFound { what }) && what@ == "resume file "@ + path@),
        path_exists && is_pdf_spec(path@) ==> (r matches Ok(q) && is_profile_run(q) && q.prompt@ == pdf_prompt_spec(
            path@,
        ) && q.attachments@.len() == 1 && q.attachments@[0].path@ == path@ && q.attachments@[0].kind
            == AttachmentKind::Pdf),
        path_exists && !is_pdf_spec(path@) ==> match contents {
            Some(Ok(b)) => match utf8_text(b@) {
                Some(t) => r matches Ok(q) && is_profile_run(q) && q.prompt@ == "Resume contents:\n\n"@ + t
                    && q.attachments@.len() == 0,
                None => r matches Err(CommandError::InvalidInput(m)) && m@ == "resume file "@ + path@
                    + " is not valid UTF-8; supported formats: .txt, .md, .pdf"@,
            },
            Some(Err(e)) => r == Err::<RunRequest, CommandError>(CommandError::Io(e)),
            None => false,
        },
{
    if !path_exists {
        return Err(resume_not_found(path));
    }
    let (prompt, attachments) = match resume_plan(path) {
        ResumePlan::Pdf { prompt, attachment } => {
            let mut v = Vec::new();
            v.push(attachment);
            (prompt, v)
        },
        ResumePlan::Text => {
            let bytes = match contents {
                Some(Ok(b)) => b,
                Some(Err(e)) => {
                    return Err(CommandError::Io(e));
                },
                None => {
                    return Err(resume_not_text(path));
                },
            };
            match decode_utf8(bytes) {
                Some(text) => (text_resume_prompt(text.as_str()), Vec::new()),
                None => {
                    return Err(resume_not_text(path));
                },
            }
        },
    };
    Ok(
        RunRequest {
            prompt,
            system: owned(PROFILE_INIT),
            budget: None,
            purpose: owned("profile_init"),
            attachments,
        },
    )
}

/// The error for a resume path that does not exist.
pub fn resume_not_found(path: &str) -> (e: CommandError)
    ensures
        e matches CommandError::NotFound { what } && what@ == "resume file "@ + path@,
{
    CommandError::NotFound { what: concat2("resume file ", path) }
}

/// The error for a resume that is neither a PDF nor UTF-8 text.
pub fn resume_not_text(path: &str) -> (e: CommandError)
    ensures
        e matches CommandError::InvalidInput(m) && m@ == "resume file "@ + path@
            + " is not valid UTF-8; supported formats: .txt, .md, .pdf"@,
{
    CommandError::InvalidInput(
        concat3("resume file ", path, " is not valid UTF-8; supported formats: .txt, .md, .pdf"),
    )
}

/// The error for a missing `profile.md`.
pub fn profile_not_found() -> (e: CommandError)
    ensures
        e matches CommandError::NotFound { what } && what@ == "profile.md"@,
{
    CommandError::NotFound { what: owned("profile.md") }
}

/// Output of `profile --from-resume`.
#[derive(Clone, Debug)]
pub struct FromResumeOutput {
    pub text: String,
    pub tool_calls: usize,
    pub cost: Option<Cost>,
}

/// Summarises the agent run that built the profile.
pub fn from_resume_output(result: AgentResult) -> (o: FromResumeOutput)
    ensures
        o.text@ == result.text@,
        o.tool_calls == result.tool_calls@.len(),
        o.cost == result.cost,
{
    let n = result.tool_calls.len();
    FromResumeOutput { text: result.text, tool_calls: n, cost: result.cost }
}

// ---------------------------------------------------------------------
// feedback
// ---------------------------------------------------------------------
/// Output of `feedback`.
#[derive(Clone, Debug)]
pub struct FeedbackOutput {
    pub text: String,
    pub tool_calls: usize,
    pub cost: Option<Cost>,
}

/// Refuses feedback that is empty or only whitespace.
pub fn check_feedback(text: &str) -> (r: Result<(), CommandError>)
    ensures
        is_blank_spec(text@) ==> (r matches Err(CommandError::InvalidInput(m)) && m@ == "feedback is empty"@),
        !is_blank_spec(text@) ==> r is Ok,
{
    if is_blank(text) {
        Err(CommandError::InvalidInput(owned("feedback is empty")))
    } else {
        Ok(())
    }
}

/// Summarises the feedback agent run.
pub fn feedback_output(result: AgentResult) -> (o: FeedbackOutput)
    ensures
        o.text@ == result.text@,
        o.tool_calls == result.tool_calls@.len(),
        o.cost == result.cost,
{
    let n = result.tool_calls.len();
    FeedbackOutput { text: result.text, tool_calls: n, cost: result.cost }
}

// ---------------------------------------------------------------------
// add-company and remove-company
// ---------------------------------------------------------------------
/// The prompt asking the agent to write a collector for `name`, with
/// the careers page when the user gave one.
pub fn add_company_prompt(name: &str, url: Option<&str>) -> (r: String)
    ensures
        url matches Some(u) ==> r@ == "Company: "@ + name@ + "\nCareers URL: "@ + u@,
        url.is_none() ==> r@ == "Company: "@ + name@ + "\nNo URL provided — discover one."@,
{
    match url {
        Some(u) => {
            let mut r = concat3("Company: ", name, "\nCareers URL: ");
            r.append(u);
            r
        },
        None => concat3("Company: ", name, "\nNo URL provided — discover one."),
    }
}

/// Output of `add-company`.
#[derive(Clone, Debug)]
pub struct AddCompanyOutput {
    pub text: String,
    pub tool_calls: usize,
    pub cost: Option<Cost>,
    /// Whether the first run of the new script succeeded.
    pub verified: bool,
    /// Jobs that run found, when it succeeded.
    pub initial_jobs: usize,
    /// Why that run failed, when it did.
    pub verification_error: Option<String>,
}

/// Combines the agent run with the verification run of the saved
/// script (its job count, or its error text). A failed verification is
/// reported in the output, not as an error.
pub fn add_company_output(result: AgentResult, verification: Result<usize, String>) -> (o: AddCompanyOutput)
    ensures
        o.text@ == result.text@,
        o.tool_calls == result.tool_calls@.len(),
        o.cost == result.cost,
        o.verified == verification is Ok,
        verification matches Ok(n) ==> o.initial_jobs == n && o.verification_error.is_none(),
        verification matches Err(m) ==> o.initial_jobs == 0 && (o.verification_error matches Some(v)
            && v@ == m@),
{
    let n = result.tool_calls.len();
    let (verified, initial_jobs, verification_error) = match verification {
        Ok(jobs) => (true, jobs, None),
        Err(e) => (false, 0, Some(e)),
    };
    AddCompanyOutput {
        text: result.text,
        tool_calls: n,
        cost: result.cost,
        verified,
        initial_jobs,
        verification_error,
    }
}

/// Output of `remove-company`.
#[derive(Clone, Copy, Debug)]
pub struct RemoveOutput {
    pub script_removed: bool,
    pub jobs_removed: usize,
}

/// The agent run that writes a collector for company `name` (with the
/// careers page when the user gave one), decided before any driver is
/// built: an invalid name is refused.
pub fn add_company_request(name: &str, url: Option<&str>) -> (r: Result<RunRequest, CommandError>)
    ensures
        !valid_company(name@) ==> (r matches Err(CommandError::InvalidInput(m)) && m@ == invalid_company_message(
            name@,
        )),
        valid_company(name@) ==> (r matches Ok(q) && q.system@ == SCRIPT_GEN@ && q.budget is None && q.purpose@
            == "script_gen"@ && q.attachments@.len() == 0 && (url matches Some(u) ==> q.prompt@ == "Company: "@
            + name@ + "\nCareers URL: "@ + u@) && (url.is_none() ==> q.prompt@ == "Company: "@ + name@
            + "\nNo URL provided — discover one."@)),
{
    if let Err(m) = validate_company(name) {
        return Err(CommandError::InvalidInput(m));
    }
    Ok(
        RunRequest {
            prompt: add_company_prompt(name, url),
            system: owned(SCRIPT_GEN),
            budget: None,
            purpose: owned("script_gen"),
            attachments: Vec::new(),
        },
    )
}

/// A valid company's collector script lies directly in the scripts
/// directory: a name cannot reach outside it.
pub proof fn law_company_script_in_scripts_dir(data: Seq<char>, name: Seq<char>)
    requires
        valid_company(name),
    ensures
        parent_dir(path_join(path_join(data, "scripts"@), name + ".py"@)) == path_join(data, "scripts"@),
{
    reveal_strlit("scripts");
    reveal_strlit(".py");
    let base = path_join(data, "scripts"@);
    let file = name + ".py"@;
    assert(base.last() == 's');
    assert forall|i: int| 0 <= i < file.len() implies file[i] != '/' by {
        if i < name.len() {
            assert(company_char(name[i]));
        }
    }
    law_joined_name_parent(base, file);
}

/// The collector script of company `name`: `scripts/<name>.py`.
pub fn script_path(paths: &Paths, name: &str) -> (r: String)
    ensures
        r@ == path_join(path_join(paths.data_view(), "scripts"@), name@ + ".py"@),
{
    let dir = paths.scripts_dir();
    let file = concat2(name, ".py");
    join_path(dir.as_str(), file.as_str())
}

} // verus!

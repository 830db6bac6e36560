//! The command line: the commands, which of them are implemented, and
//! what the command-line front end decides and prints around the
//! library calls.
use crate::text::{concat2, concat3, decimal, owned, u64_to_decimal};
use crate::config::{debug_quoted, debug_quoted_spec};
use vstd::prelude::*;

verus! {

/// The parsed command line.
pub struct Cli {
    pub command: Command,
}

/// The subcommands.
pub enum Command {
    /// First-time interactive setup.
    Init { force: bool },
    /// Get, set, list, edit or unset configuration keys.
    Config { key: Option<String>, value: Option<String>, list: bool, edit: bool, unset: Option<String> },
    /// Print, edit or rebuild the profile.
    Profile { edit: bool, from_resume: Option<String> },
    /// Print or edit the filters.
    Filters { edit: bool },
    /// Add a company.
    AddCompany { name: String, url: Option<String> },
    /// Remove a company.
    RemoveCompany { name: String },
    /// List configured companies.
    ListCompanies,
    /// Run the daemon in the foreground.
    StartService,
    /// Stop a running daemon.
    StopService,
    /// Print daemon status.
    Status,
    /// Print daemon logs.
    Logs { follow: bool },
    /// Tick one company, or all, out of schedule.
    RunNow { company: Option<String> },
    /// Send free-form feedback to the agent.
    Feedback { text: String },
    /// Run the stdio MCP server.
    McpServer,
}

/// The handler a command runs.
#[derive(Clone, Copy, Debug, PartialEq, Eq, Structural)]
pub enum Handler {
    Config,
    Profile,
    AddCompany,
    StartService,
    StopService,
    Status,
    RunNow,
    ListCompanies,
    RemoveCompany,
    McpServer,
    /// The command prints `not implemented yet` and succeeds.
    NotImplemented,
}

/// The handler of each command; `init`, `filters`, `logs` and
/// `feedback` have none yet.
pub open spec fn handler_spec(c: Command) -> Handler {
    match c {
        Command::Config { .. } => Handler::Config,
        Command::Profile { .. } => Handler::Profile,
        Command::AddCompany { .. } => Handler::AddCompany,
        Command::StartService => Handler::StartService,
        Command::StopService => Handler::StopService,
        Command::Status => Handler::Status,
        Command::RunNow { .. } => Handler::RunNow,
        Command::ListCompanies => Handler::ListCompanies,
        Command::RemoveCompany { .. } => Handler::RemoveCompany,
        Command::McpServer => Handler::McpServer,
        _ => Handler::NotImplemented,
    }
}

/// Only `init`, `filters`, `logs` and `feedback` are unimplemented; every
/// other command runs the handler of the same name.
pub proof fn law_implemented_commands_have_their_handler(c: Command)
    ensures
        handler_spec(c) == Handler::NotImplemented <==> (c is Init || c is Filters || c is Logs || c is Feedback),
        c is Config ==> handler_spec(c) == Handler::Config,
        c is Profile ==> handler_spec(c) == Handler::Profile,
        c is AddCompany ==> handler_spec(c) == Handler::AddCompany,
        c is StartService ==> handler_spec(c) == Handler::StartService,
        c is StopService ==> handler_spec(c) == Handler::StopService,
        c is Status ==> handler_spec(c) == Handler::Status,
        c is RunNow ==> handler_spec(c) == Handler::RunNow,
        c is ListCompanies ==> handler_spec(c) == Handler::ListCompanies,
        c is RemoveCompany ==> handler_spec(c) == Handler::RemoveCompany,
        c is McpServer ==> handler_spec(c) == Handler::McpServer,
{
}

/// Two commands share a handler other than `NotImplemented` only when
/// they are the same command (possibly with other arguments).
pub proof fn law_handlers_are_distinct(c1: Command, c2: Command)
    requires
        handler_spec(c1) == handler_spec(c2),
        handler_spec(c1) != Handler::NotImplemented,
    ensures
        c1 is Config <==> c2 is Config,
        c1 is Profile <==> c2 is Profile,
        c1 is AddCompany <==> c2 is AddCompany,
        c1 is StartService <==> c2 is StartService,
        c1 is StopService <==> c2 is StopService,
        c1 is Status <==> c2 is Status,
        c1 is RunNow <==> c2 is RunNow,
        c1 is ListCompanies <==> c2 is ListCompanies,
        c1 is RemoveCompany <==> c2 is RemoveCompany,
        c1 is McpServer <==> c2 is McpServer,
{
}

/// Chooses the handler of a command.
pub fn handler(c: &Command) -> (h: Handler)
    ensures
        h == handler_spec(*c),
        h == Handler::NotImplemented <==> (c is Init || c is Filters || c is Logs || c is Feedback),
        c is Config ==> h == Handler::Config,
        c is Profile ==> h == Handler::Profile,
        c is AddCompany ==> h == Handler::AddCompany,
        c is StartService ==> h == Handler::StartService,
        c is StopService ==> h == Handler::StopService,
        c is Status ==> h == Handler::Status,
        c is RunNow ==> h == Handler::RunNow,
        c is ListCompanies ==> h == Handler::ListCompanies,
        c is RemoveCompany ==> h == Handler::RemoveCompany,
        c is McpServer ==> h == Handler::McpServer,
{
    proof {
        law_implemented_commands_have_their_handler(*c);
    }
    match c {
        Command::Config { .. } => Handler::Config,
        Command::Profile { .. } => Handler::Profile,
        Command::AddCompany { .. } => Handler::AddCompany,
        Command::StartService => Handler::StartService,
        Command::StopService => Handler::StopService,
        Command::Status => Handler::Status,
        Command::RunNow { .. } => Handler::RunNow,
        Command::ListCompanies => Handler::ListCompanies,
        Command::RemoveCompany { .. } => Handler::RemoveCompany,
        Command::McpServer => Handler::McpServer,
        _ => Handler::NotImplemented,
    }
}

/// What `config` does with its arguments.
pub enum ConfigAction {
    Unset(String),
    List,
    Edit,
    /// Print the subcommand's help.
    Help,
    Get(String),
    Assign(String, String),
}

/// Decides the `config` action: `--unset` first, then `--list`, then
/// `--edit`, then by which of key and value are given. A value is only
/// ever parsed together with a key.
pub fn config_action(
    key: Option<String>,
    value: Option<String>,
    list: bool,
    edit: bool,
    unset: Option<String>,
) -> (r: ConfigAction)
    requires
        !(key.is_none() && value.is_some()),
    ensures
        unset matches Some(k) ==> (r matches ConfigAction::Unset(u) && u@ == k@),
        unset.is_none() && list ==> r is List,
        unset.is_none() && !list && edit ==> r is Edit,
        unset.is_none() && !list && !edit ==> match (key, value) {
            (None, None) => r is Help,
            (Some(k), None) => r matches ConfigAction::Get(g) && g@ == k@,
            (Some(k), Some(v)) => r matches ConfigAction::Assign(sk, sv) && sk@ == k@ && sv@ == v@,
            (None, Some(_)) => false,
        },
{
    if let Some(k) = unset {
        return ConfigAction::Unset(k);
    }
    if list {
        return ConfigAction::List;
    }
    if edit {
        return ConfigAction::Edit;
    }
    match (key, value) {
        (None, None) => ConfigAction::Help,
        (Some(k), None) => ConfigAction::Get(k),
        (Some(k), Some(v)) => ConfigAction::Assign(k, v),
        (None, Some(_)) => ConfigAction::Help,
    }
}

/// The request path of `run-now`.
pub fn run_now_path(company: Option<&str>) -> (r: String)
    ensures
        company matches Some(c) ==> r@ == "/run-now?company="@ + c@,
        company.is_none() ==> r@ == "/run-now"@,
{
    match company {
        Some(c) => concat2("/run-now?company=", c),
        None => owned("/run-now"),
    }
}

/// What `run-now` reports for the daemon's answer: the line to print on
/// success, or the error.
pub fn run_now_reply(company: Option<&str>, status: u16, body: &str) -> (r: Result<String, String>)
    ensures
        status == 202 ==> (r matches Ok(m) && m@ == match company {
            Some(c) => "tick queued for "@ + c@,
            None => "tick queued for all companies"@,
        }),
        status == 404 ==> (r matches Err(m) && m@ == "company "@ + debug_quoted_spec(
            match company {
                Some(c) => c@,
                None => Seq::empty(),
            },
        ) + " is not registered (no scripts/"@ + match company {
            Some(c) => c@,
            None => Seq::empty(),
        } + ".py)"@),
        status != 202 && status != 404 ==> (r matches Err(m) && m@ == "unexpected status: "@ + decimal(
            status as nat,
        ) + " "@ + body@),
{
    if status == 202 {
        match company {
            Some(c) => Ok(concat2("tick queued for ", c)),
            None => Ok(owned("tick queued for all companies")),
        }
    } else if status == 404 {
        let name = match company {
            Some(c) => owned(c),
            None => String::new(),
        };
        let q = debug_quoted(name.as_str());
        let mut m = concat3("company ", q.as_str(), " is not registered (no scripts/");
        m.append(name.as_str());
        m.append(".py)");
        Err(m)
    } else {
        Err(unexpected("unexpected status: ", status, body))
    }
}

fn unexpected(prefix: &str, status: u16, body: &str) -> (r: String)
    ensures
        r@ == prefix@ + decimal(status as nat) + " "@ + body@,
{
    let code = u64_to_decimal(status as u64);
    let mut m = concat3(prefix, code.as_str(), " ");
    m.append(body);
    m
}

/// What `stop-service` reports for the daemon's answer.
pub fn stop_reply(status: u16, body: &str) -> (r: Result<String, String>)
    ensures
        status == 202 ==> (r matches Ok(m) && m@ == "daemon shutting down"@),
        status != 202 ==> (r matches Err(m) && m@ == "unexpected response from daemon: "@ + decimal(
            status as nat,
        ) + " "@ + body@),
{
    if status == 202 {
        Ok(owned("daemon shutting down"))
    } else {
        Err(unexpected("unexpected response from daemon: ", status, body))
    }
}

/// What `status` reports for the daemon's answer: the body on 200.
pub fn status_reply(status: u16, body: &str) -> (r: Result<String, String>)
    ensures
        status == 200 ==> (r matches Ok(m) && m@ == body@),
        status != 200 ==> (r matches Err(m) && m@ == "unexpected status: "@ + decimal(status as nat) + " "@
            + body@),
{
    if status == 200 {
        Ok(owned(body))
    } else {
        Err(unexpected("unexpected status: ", status, body))
    }
}

/// The line reporting a successful verification run.
pub fn verified_line(initial_jobs: usize) -> (r: String)
    ensures
        r@ == "verified: "@ + decimal(initial_jobs as nat) + " initial job"@ + (if initial_jobs == 1 {
            Seq::empty()
        } else {
            "s"@
        }) + " on first run"@,
{
    let n = u64_to_decimal(initial_jobs as u64);
    let mut r = concat3("verified: ", n.as_str(), " initial job");
    if initial_jobs != 1 {
        r.append("s");
    }
    r.append(" on first run");
    r
}

/// The line reporting a failed verification run.
pub fn verification_failed_line(error: Option<&str>) -> (r: String)
    ensures
        r@ == "verification failed: "@ + match error {
            Some(e) => e@,
            None => "unknown"@,
        },
{
    match error {
        Some(e) => concat2("verification failed: ", e),
        None => concat2("verification failed: ", "unknown"),
    }
}

/// The line reporting token use.
pub fn tokens_line(input_tokens: u64, output_tokens: u64, tool_calls: usize) -> (r: String)
    ensures
        r@ == "tokens: input="@ + decimal(input_tokens as nat) + " output="@ + decimal(output_tokens as nat)
            + " (tool calls: "@ + decimal(tool_calls as nat) + ")"@,
{
    let i = u64_to_decimal(input_tokens);
    let o = u64_to_decimal(output_tokens);
    let t = u64_to_decimal(tool_calls as u64);
    let mut r = concat3("tokens: input=", i.as_str(), " output=");
    r.append(o.as_str());
    r.append(" (tool calls: ");
    r.append(t.as_str());
    r.append(")");
    r
}

/// The line reporting what happened to the script of company `name`.
pub fn script_removal_line(name: &str, removed: bool) -> (r: String)
    ensures
        removed ==> r@ == "removed scripts/"@ + name@ + ".py"@,
        !removed ==> r@ == "no script for "@ + name@,
{
    if removed {
        concat3("removed scripts/", name, ".py")
    } else {
        concat2("no script for ", name)
    }
}

/// The line reporting how many job rows were deleted.
pub fn jobs_removal_line(jobs_removed: usize) -> (r: String)
    ensures
        r@ == "deleted "@ + decimal(jobs_removed as nat) + " job row(s)"@,
{
    let n = u64_to_decimal(jobs_removed as u64);
    concat3("deleted ", n.as_str(), " job row(s)")
}

/// A fatal error as printed before exiting unsuccessfully.
pub fn error_line(message: &str) -> (r: String)
    ensures
        r@ == "error: "@ + message@,
{
    concat2("error: ", message)
}

} // verus!

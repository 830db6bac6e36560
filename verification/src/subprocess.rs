//! The subprocess driver: an agent CLI runs its own loop in a child
//! process (`<agent> -p ...`), reaching careerbot's tools over MCP, and
//! prints a JSON result. Spawning the process is the caller's work;
//! what its probe, exit status and result mean is decided here.
use crate::agent::{AgentError, AgentResult, Capabilities, Cost};
use crate::json::{json_quoted, quote_json};
use crate::text::{concat2, concat3, i64_to_decimal, owned, signed_decimal, views};
use vstd::prelude::*;

verus! {

/// Why the driver cannot be built.
#[derive(Debug)]
pub enum ClaudeCodeError {
    /// `<binary> --version` could not be run or failed.
    AgentMissing { binary: String, reason: String },
    /// The path of the running careerbot binary is unknown.
    SelfPathUnknown(String),
}

impl ClaudeCodeError {
    /// Human-readable description.
    pub fn message(&self) -> (r: String)
        ensures
            self matches ClaudeCodeError::AgentMissing { binary, reason } ==> r@ == "`"@ + binary@
                + "` binary not usable on PATH: "@ + reason@,
            self matches ClaudeCodeError::SelfPathUnknown(reason) ==> r@
                == "could not resolve current careerbot binary: "@ + reason@,
    {
        match self {
            ClaudeCodeError::AgentMissing { binary, reason } => {
                let mut r = concat3("`", binary.as_str(), "` binary not usable on PATH: ");
                r.append(reason.as_str());
                r
            },
            ClaudeCodeError::SelfPathUnknown(reason) => concat2(
                "could not resolve current careerbot binary: ",
                reason.as_str(),
            ),
        }
    }
}

/// Debug rendering of an optional exit code, as `{:?}` prints it.
pub open spec fn exit_code_debug(code: Option<i32>) -> Seq<char> {
    match code {
        Some(c) => "Some("@ + signed_decimal(c as int) + ")"@,
        None => "None"@,
    }
}

/// What a finished `<binary> --version` probe means: success, or the
/// error naming the exit code it ended with.
pub fn probe_verdict(binary: &str, success: bool, code: Option<i32>) -> (r: Result<(), ClaudeCodeError>)
    ensures
        success ==> r is Ok,
        !success ==> (r matches Err(ClaudeCodeError::AgentMissing { binary: b, reason: m }) && b@
            == binary@ && m@ == binary@ + " --version exited with "@ + exit_code_debug(code)),
{
    if success {
        return Ok(());
    }
    let shown = match code {
        Some(c) => {
            let d = i64_to_decimal(c as i64);
            concat3("Some(", d.as_str(), ")")
        },
        None => owned("None"),
    };
    let reason = concat3(binary, " --version exited with ", shown.as_str());
    Err(ClaudeCodeError::AgentMissing { binary: owned(binary), reason })
}

/// A subprocess driver: the agent binary to run and the careerbot
/// binary it spawns back as its MCP server.
pub struct ClaudeCodeDriver {
    agent_bin: String,
    careerbot_bin: String,
}

/// The fields of the JSON result the agent prints that the driver
/// reads; absent fields read as empty, false or zero.
pub struct AgentOutput {
    pub result: String,
    pub is_error: bool,
    pub input_tokens: u64,
    pub output_tokens: u64,
}

/// An exit code clamped into the status range: negative codes become
/// `0`, codes above `u16::MAX` become `u16::MAX`.
pub open spec fn clamp_status(code: int) -> u16 {
    if code < 0 {
        0
    } else if code > u16::MAX {
        u16::MAX
    } else {
        code as u16
    }
}

impl ClaudeCodeDriver {
    /// The agent binary.
    pub closed spec fn agent_bin_view(&self) -> Seq<char> {
        self.agent_bin@
    }

    /// The careerbot binary written into the MCP configuration.
    pub closed spec fn careerbot_bin_view(&self) -> Seq<char> {
        self.careerbot_bin@
    }

    /// A driver running `agent_bin` (looked up on `PATH`), with
    /// `careerbot_bin` as the MCP server it spawns.
    pub fn with_binaries(agent_bin: &str, careerbot_bin: &str) -> (d: ClaudeCodeDriver)
        ensures
            d.agent_bin_view() == agent_bin@,
            d.careerbot_bin_view() == careerbot_bin@,
    {
        ClaudeCodeDriver { agent_bin: owned(agent_bin), careerbot_bin: owned(careerbot_bin) }
    }

    /// The agent binary.
    pub fn agent_bin(&self) -> (r: &str)
        ensures
            r@ == self.agent_bin_view(),
    {
        self.agent_bin.as_str()
    }

    /// The careerbot binary.
    pub fn careerbot_bin(&self) -> (r: &str)
        ensures
            r@ == self.careerbot_bin_view(),
    {
        self.careerbot_bin.as_str()
    }

    /// The agent brings its own web search and handles attachments and
    /// rate limits; it does not stream.
    pub fn capabilities(&self) -> (c: Capabilities)
        ensures
            c.native_web_search && c.file_attachments && c.rate_limit_aware && !c.streaming,
    {
        Capabilities {
            native_web_search: true,
            file_attachments: true,
            rate_limit_aware: true,
            streaming: false,
        }
    }
}

/// The error for an agent process that exited unsuccessfully: its exit
/// code (or `-1` when killed by a signal), clamped into the status
/// range, with its standard error as the body.
pub fn exit_failure(code: Option<i32>, stderr: String) -> (e: AgentError)
    ensures
        e matches AgentError::Api { status, body } && body@ == stderr@ && status == clamp_status(
            match code {
                Some(c) => c as int,
                None => -1,
            },
        ),
{
    let c: i32 = match code {
        Some(c) => c,
        None => -1,
    };
    let status: u16 = if c < 0 {
        0
    } else if c > 65535 {
        65535
    } else {
        c as u16
    };
    AgentError::Api { status, body: stderr }
}

/// The outcome of a run whose process succeeded: an error result is a
/// driver error carrying its text; otherwise the text with the reported
/// token counts and no per-tool detail.
pub fn interpret_output(out: AgentOutput) -> (r: Result<AgentResult, AgentError>)
    ensures
        out.is_error ==> (r matches Err(AgentError::InvalidResponse(m)) && m@ == out.result@),
        !out.is_error ==> (r matches Ok(a) && {
            &&& a.text@ == out.result@
            &&& a.tool_calls@.len() == 0
            &&& a.cost matches Some(c) && c.input_tokens == out.input_tokens && c.output_tokens
                == out.output_tokens
        }),
{
    if out.is_error {
        return Err(AgentError::InvalidResponse(out.result));
    }
    Ok(
        AgentResult {
            text: out.result,
            tool_calls: Vec::new(),
            cost: Some(Cost { input_tokens: out.input_tokens, output_tokens: out.output_tokens }),
        },
    )
}

/// The MCP configuration handed to the agent: one server, `careerbot`,
/// run as `<careerbot_bin> mcp-server`.
pub open spec fn mcp_config_spec(careerbot_bin: Seq<char>) -> Seq<char> {
    "{\"mcpServers\":{\"careerbot\":{\"args\":[\"mcp-server\"],\"command\":"@ + json_quoted(careerbot_bin)
        + "}}}"@
}

/// Writes the MCP configuration as JSON text.
pub fn build_mcp_config(careerbot_bin: &str) -> (r: String)
    ensures
        r@ == mcp_config_spec(careerbot_bin@),
{
    let mut r = crate::text::owned("{\"mcpServers\":{\"careerbot\":{\"args\":[\"mcp-server\"],\"command\":");
    let q = quote_json(careerbot_bin);
    r.append(q.as_str());
    r.append("}}}");
    r
}


/// `--add-dir <dir>` for each directory, in order.
pub open spec fn add_dir_args(dirs: Seq<Seq<char>>) -> Seq<Seq<char>>
    decreases dirs.len(),
{
    if dirs.len() == 0 {
        Seq::empty()
    } else {
        add_dir_args(dirs.drop_last()) + seq!["--add-dir"@, dirs.last()]
    }
}

/// The arguments the agent CLI is run with: each attachment directory
/// added to its workspace, then the prompt, the system prompt appended
/// to its own, the MCP configuration file and JSON output.
pub fn agent_cli_args(prompt: &str, system: &str, mcp_config_path: &str, add_dirs: &[String]) -> (r: Vec<String>)
    ensures
        views(r@) == add_dir_args(views(add_dirs@)) + seq![
            "-p"@,
            prompt@,
            "--append-system-prompt"@,
            system@,
            "--mcp-config"@,
            mcp_config_path@,
            "--output-format"@,
            "json"@,
        ],
{
    let mut r: Vec<String> = Vec::new();
    let n = add_dirs.len();
    let mut i: usize = 0;
    proof {
        assert(views(add_dirs@).take(0) =~= Seq::<Seq<char>>::empty());
        assert(views(r@) =~= add_dir_args(views(add_dirs@).take(0)));
    }
    while i < n
        invariant
            n == add_dirs@.len(),
            i <= n,
            views(r@) == add_dir_args(views(add_dirs@).take(i as int)),
        decreases n - i,
    {
        r.push(owned("--add-dir"));
        r.push(add_dirs[i].clone());
        proof {
            assert(views(add_dirs@).take(i + 1).drop_last() =~= views(add_dirs@).take(i as int));
            assert(views(add_dirs@).take(i + 1).last() == add_dirs@[i as int]@);
            assert(views(r@) =~= add_dir_args(views(add_dirs@).take(i + 1)));
        }
        i = i + 1;
    }
    proof {
        assert(views(add_dirs@).take(n as int) =~= views(add_dirs@));
    }
    let ghost head = views(r@);
    r.push(owned("-p"));
    r.push(owned(prompt));
    r.push(owned("--append-system-prompt"));
    r.push(owned(system));
    r.push(owned("--mcp-config"));
    r.push(owned(mcp_config_path));
    r.push(owned("--output-format"));
    r.push(owned("json"));
    proof {
        assert(views(r@) =~= head + seq![
            "-p"@,
            prompt@,
            "--append-system-prompt"@,
            system@,
            "--mcp-config"@,
            mcp_config_path@,
            "--output-format"@,
            "json"@,
        ]);
    }
    r
}

} // verus!

//! What a driver run is asked for and what it answers: budgets,
//! capability flags, results, costs, attachments and errors.
use crate::external::{http_error_text, json_error_text};
use crate::text::{concat2, decimal, u64_to_decimal};
use crate::tools::ToolError;
use vstd::prelude::*;

verus! {

/// Features a driver supports, so callers can fall back or refuse.
#[derive(Clone, Copy, Debug)]
pub struct Capabilities {
    pub native_web_search: bool,
    pub file_attachments: bool,
    pub rate_limit_aware: bool,
    pub streaming: bool,
}

impl Default for Capabilities {
    /// No capability.
    fn default() -> (c: Capabilities)
        ensures
            !c.native_web_search && !c.file_attachments && !c.rate_limit_aware && !c.streaming,
    {
        Capabilities {
            native_web_search: false,
            file_attachments: false,
            rate_limit_aware: false,
            streaming: false,
        }
    }
}

/// Limits on one driver run.
#[derive(Clone, Copy, Debug)]
pub struct Budget {
    /// Maximum number of model round trips.
    pub max_iterations: u32,
    /// `max_tokens` sent with each request.
    pub max_output_tokens: u32,
}

impl Default for Budget {
    /// Ten round trips of at most 4096 output tokens.
    fn default() -> (b: Budget)
        ensures
            b.max_iterations == 10,
            b.max_output_tokens == 4096,
    {
        Budget { max_iterations: 10, max_output_tokens: 4096 }
    }
}

/// Token totals of a run.
#[derive(Clone, Copy, Debug)]
pub struct Cost {
    pub input_tokens: u64,
    pub output_tokens: u64,
}

impl Default for Cost {
    /// Nothing spent.
    fn default() -> (c: Cost)
        ensures
            c.input_tokens == 0 && c.output_tokens == 0,
    {
        Cost { input_tokens: 0, output_tokens: 0 }
    }
}

/// One tool call the model made during a run.
#[derive(Clone, Debug)]
pub struct ToolCallSummary {
    pub tool: String,
    pub success: bool,
    pub error: Option<String>,
}

/// Final outcome of a run.
#[derive(Clone, Debug)]
pub struct AgentResult {
    /// The assistant's last text block.
    pub text: String,
    pub tool_calls: Vec<ToolCallSummary>,
    pub cost: Option<Cost>,
}

impl Default for AgentResult {
    /// No text, no calls, no cost.
    fn default() -> (r: AgentResult)
        ensures
            r.text@.len() == 0,
            r.tool_calls@.len() == 0,
            r.cost.is_none(),
    {
        AgentResult { text: String::new(), tool_calls: Vec::new(), cost: None }
    }
}

/// Why a driver run failed.
#[derive(Debug)]
pub enum AgentError {
    /// Transport failure.
    Http(reqwest::Error),
    /// The provider answered with a failure status.
    Api { status: u16, body: String },
    /// A tool failed outside the model's view.
    Tool(ToolError),
    /// A response could not be decoded.
    Serde(serde_json::Error),
    /// The model was still calling tools after the last allowed round trip.
    LoopExhausted { iterations: u32 },
    /// The driver reported an error result.
    InvalidResponse(String),
}

impl AgentError {
    /// The text of the variants whose payload the library owns.
    pub open spec fn text_spec(&self) -> Option<Seq<char>> {
        match self {
            AgentError::Api { status, body } => Some(
                "API error "@ + decimal(*status as nat) + ": "@ + body@,
            ),
            AgentError::Tool(e) => match e.text_spec() {
                Some(t) => Some("tool: "@ + t),
                None => None,
            },
            AgentError::LoopExhausted { iterations } => Some(
                "agent loop exhausted after "@ + decimal(*iterations as nat) + " iterations"@,
            ),
            AgentError::InvalidResponse(s) => Some("invalid driver response: "@ + s@),
            _ => None,
        }
    }

    /// Human-readable description.
    pub fn message(&self) -> (r: String)
        ensures
            self.text_spec() matches Some(t) ==> r@ == t,
            self matches AgentError::Tool(_) ==> r@.take(6) == "tool: "@,
    {
        match self {
            AgentError::Http(e) => http_error_text(e),
            AgentError::Api { status, body } => {
                let code = u64_to_decimal(*status as u64);
                let mut r = concat2("API error ", code.as_str());
                r.append(": ");
                r.append(body.as_str());
                r
            },
            AgentError::Tool(e) => {
                let inner = e.message();
                let r = concat2("tool: ", inner.as_str());
                proof {
                    reveal_strlit("tool: ");
                    assert(r@.take(6) =~= "tool: "@);
                }
                r
            },
            AgentError::Serde(e) => json_error_text(e),
            AgentError::LoopExhausted { iterations } => {
                let n = u64_to_decimal(*iterations as u64);
                let mut r = concat2("agent loop exhausted after ", n.as_str());
                r.append(" iterations");
                r
            },
            AgentError::InvalidResponse(s) => concat2("invalid driver response: ", s.as_str()),
        }
    }
}

/// How an attachment is delivered to the model.
#[derive(Clone, Copy, Debug, PartialEq, Eq, Structural)]
pub enum AttachmentKind {
    Pdf,
}

impl AttachmentKind {
    /// The MIME type sent with the attachment.
    pub fn media_type(self) -> (r: &'static str)
        ensures
            self == AttachmentKind::Pdf ==> r@ == "application/pdf"@,
    {
        match self {
            AttachmentKind::Pdf => "application/pdf",
        }
    }
}

/// A file the model should see alongside the prompt.
#[derive(Clone, Debug)]
pub struct Attachment {
    pub path: String,
    pub kind: AttachmentKind,
}

} // verus!

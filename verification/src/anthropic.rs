//! The Anthropic `/v1/messages` driver: its settings, and the
//! bookkeeping of its tool-use loop.
//!
//! The loop itself alternates HTTP round trips and tool dispatch, which
//! happen outside the library. What it decides is here: [`AgentLoop`]
//! holds the running totals, the tool calls made so far and the last
//! text the model produced; each response is folded in with
//! [`AgentLoop::absorb_turn`], which either finishes the run or returns
//! the tool results to send back.
use crate::agent::{AgentError, AgentResult, AttachmentKind, Budget, Capabilities, Cost, ToolCallSummary};
use crate::json::{json_quoted, quote_json};
use crate::text::{concat2, owned, push_char};
use crate::types::opt_string_view;
use vstd::prelude::*;

verus! {

/// A configured Anthropic messages-API driver.
pub struct AnthropicApiDriver {
    api_key: String,
    model: String,
    base_url: String,
}

impl AnthropicApiDriver {
    /// The API key sent in `x-api-key`.
    pub closed spec fn api_key_view(&self) -> Seq<char> {
        self.api_key@
    }

    /// The model requested.
    pub closed spec fn model_view(&self) -> Seq<char> {
        self.model@
    }

    /// The base URL requests go to.
    pub closed spec fn base_url_view(&self) -> Seq<char> {
        self.base_url@
    }

    /// A driver for `model` against the public API endpoint.
    pub fn new(api_key: &str, model: &str) -> (d: AnthropicApiDriver)
        ensures
            d.api_key_view() == api_key@,
            d.model_view() == model@,
            d.base_url_view() == "https://api.anthropic.com"@,
    {
        AnthropicApiDriver {
            api_key: owned(api_key),
            model: owned(model),
            base_url: owned("https://api.anthropic.com"),
        }
    }

    /// The same driver aimed at another base URL.
    pub fn with_base_url(self, base_url: &str) -> (d: AnthropicApiDriver)
        ensures
            d.base_url_view() == base_url@,
            d.api_key_view() == self.api_key_view(),
            d.model_view() == self.model_view(),
    {
        AnthropicApiDriver { base_url: owned(base_url), ..self }
    }

    /// The same driver requesting another model.
    pub fn with_model(self, model: &str) -> (d: AnthropicApiDriver)
        ensures
            d.model_view() == model@,
            d.api_key_view() == self.api_key_view(),
            d.base_url_view() == self.base_url_view(),
    {
        AnthropicApiDriver { model: owned(model), ..self }
    }

    /// The API key.
    pub fn api_key(&self) -> (r: &str)
        ensures
            r@ == self.api_key_view(),
    {
        self.api_key.as_str()
    }

    /// The model name.
    pub fn model(&self) -> (r: &str)
        ensures
            r@ == self.model_view(),
    {
        self.model.as_str()
    }

    /// The base URL.
    pub fn base_url(&self) -> (r: &str)
        ensures
            r@ == self.base_url_view(),
    {
        self.base_url.as_str()
    }

    /// The URL messages are posted to: the base URL followed by
    /// `/v1/messages`.
    pub fn messages_url(&self) -> (r: String)
        ensures
            r@ == self.base_url_view() + "/v1/messages"@,
    {
        concat2(self.base_url.as_str(), "/v1/messages")
    }

    /// The `anthropic-version` header value.
    pub fn api_version() -> (r: &'static str)
        ensures
            r@ == "2023-06-01"@,
    {
        "2023-06-01"
    }

    /// The provider name recorded in the usage audit table.
    pub fn provider() -> (r: &'static str)
        ensures
            r@ == "anthropic_api"@,
    {
        "anthropic_api"
    }

    /// Attachments and rate-limit awareness; no native web search, no
    /// streaming.
    pub fn capabilities(&self) -> (c: Capabilities)
        ensures
            !c.native_web_search && c.file_attachments && c.rate_limit_aware && !c.streaming,
    {
        Capabilities {
            native_web_search: false,
            file_attachments: true,
            rate_limit_aware: true,
            streaming: false,
        }
    }
}

/// One content block of a model response, after any tool it asks for
/// has been run: `outcome` holds the tool's text, or its error text.
pub enum TurnBlock {
    Text(String),
    ToolUse { id: String, name: String, outcome: Result<String, String> },
}

/// A `tool_result` block to send back to the model.
pub struct ToolResult {
    pub tool_use_id: String,
    pub content: String,
    pub is_error: bool,
}

/// What a tool call summary says: tool name, success, error text.
pub open spec fn call_view(c: ToolCallSummary) -> (Seq<char>, bool, Option<Seq<char>>) {
    (c.tool@, c.success, opt_string_view(c.error))
}

/// The views of a sequence of tool call summaries.
pub open spec fn calls_view(s: Seq<ToolCallSummary>) -> Seq<(Seq<char>, bool, Option<Seq<char>>)> {
    s.map_values(|c: ToolCallSummary| call_view(c))
}

/// What a tool result says: the call it answers, content, error flag.
pub open spec fn result_view(r: ToolResult) -> (Seq<char>, Seq<char>, bool) {
    (r.tool_use_id@, r.content@, r.is_error)
}

/// The views of a sequence of tool results.
pub open spec fn results_view(s: Seq<ToolResult>) -> Seq<(Seq<char>, Seq<char>, bool)> {
    s.map_values(|r: ToolResult| result_view(r))
}

/// The text a tool outcome reports, success or error.
pub open spec fn outcome_text(o: Result<String, String>) -> Seq<char> {
    match o {
        Ok(s) => s@,
        Err(e) => e@,
    }
}

/// The tool call summaries a response's blocks produce, in order.
pub open spec fn block_calls(b: Seq<TurnBlock>) -> Seq<(Seq<char>, bool, Option<Seq<char>>)>
    decreases b.len(),
{
    if b.len() == 0 {
        Seq::empty()
    } else {
        let prev = block_calls(b.drop_last());
        match b.last() {
            TurnBlock::Text(_) => prev,
            TurnBlock::ToolUse { id, name, outcome } => prev.push(
                (
                    name@,
                    outcome is Ok,
                    if outcome is Err {
                        Some(outcome_text(outcome))
                    } else {
                        None
                    },
                ),
            ),
        }
    }
}

/// The tool results a response's blocks produce, in order.
pub open spec fn block_results(b: Seq<TurnBlock>) -> Seq<(Seq<char>, Seq<char>, bool)>
    decreases b.len(),
{
    if b.len() == 0 {
        Seq::empty()
    } else {
        let prev = block_results(b.drop_last());
        match b.last() {
            TurnBlock::Text(_) => prev,
            TurnBlock::ToolUse { id, name, outcome } => prev.push(
                (id@, outcome_text(outcome), outcome is Err),
            ),
        }
    }
}

/// The last text among the blocks, or `prior` when there is none.
pub open spec fn block_text(b: Seq<TurnBlock>, prior: Seq<char>) -> Seq<char>
    decreases b.len(),
{
    if b.len() == 0 {
        prior
    } else {
        match b.last() {
            TurnBlock::Text(t) => t@,
            _ => block_text(b.drop_last(), prior),
        }
    }
}

/// `a + b`, saturating at `u64::MAX`.
pub open spec fn sat_add(a: u64, b: u64) -> u64 {
    if a + b > u64::MAX {
        u64::MAX
    } else {
        (a + b) as u64
    }
}

/// State of one driver run between round trips.
pub struct AgentLoop {
    max_iterations: u32,
    max_output_tokens: u32,
    completed: u32,
    total_input: u64,
    total_output: u64,
    tool_calls: Vec<ToolCallSummary>,
    last_text: String,
}

/// How a response ends a round trip.
pub enum TurnOutcome {
    /// The model asked for no tool: the run is over.
    Finished(AgentResult),
    /// The model asked for tools: send their results and go on.
    Continue(AgentLoop, Vec<ToolResult>),
}

impl AgentLoop {
    #[verifier::type_invariant]
    spec fn inv(self) -> bool {
        self.completed <= self.max_iterations
    }

    /// Round trips that ended in tool use.
    pub closed spec fn completed(&self) -> nat {
        self.completed as nat
    }

    /// Round trips allowed.
    pub closed spec fn max_iterations(&self) -> u32 {
        self.max_iterations
    }

    /// `max_tokens` sent with every request.
    pub closed spec fn output_budget(&self) -> u32 {
        self.max_output_tokens
    }

    /// Input tokens consumed so far.
    pub closed spec fn total_input(&self) -> u64 {
        self.total_input
    }

    /// Output tokens produced so far.
    pub closed spec fn total_output(&self) -> u64 {
        self.total_output
    }

    /// Tool calls made so far, in order.
    pub closed spec fn calls(&self) -> Seq<(Seq<char>, bool, Option<Seq<char>>)> {
        calls_view(self.tool_calls@)
    }

    /// The last text block seen so far.
    pub closed spec fn text(&self) -> Seq<char> {
        self.last_text@
    }

    /// The start of a run under `budget`, or the default budget.
    pub fn new(budget: Option<Budget>) -> (l: AgentLoop)
        ensures
            l.max_iterations() == (match budget {
                Some(b) => b.max_iterations,
                None => 10,
            }),
            l.output_budget() == (match budget {
                Some(b) => b.max_output_tokens,
                None => 4096,
            }),
            l.completed() == 0,
            l.total_input() == 0,
            l.total_output() == 0,
            l.calls().len() == 0,
            l.text().len() == 0,
    {
        let b = match budget {
            Some(b) => b,
            None => Budget::default(),
        };
        let l = AgentLoop {
            max_iterations: b.max_iterations,
            max_output_tokens: b.max_output_tokens,
            completed: 0,
            total_input: 0,
            total_output: 0,
            tool_calls: Vec::new(),
            last_text: String::new(),
        };
        proof {
            assert(calls_view(l.tool_calls@) =~= Seq::empty());
        }
        l
    }

    /// Whether another request may be sent.
    pub fn may_request(&self) -> (r: bool)
        ensures
            r == (self.completed() < self.max_iterations()),
    {
        self.completed < self.max_iterations
    }

    /// `max_tokens` for the next request.
    pub fn max_output_tokens(&self) -> (r: u32)
        ensures
            r == self.output_budget(),
    {
        self.max_output_tokens
    }

    /// Token totals so far.
    pub fn totals(&self) -> (c: Cost)
        ensures
            c.input_tokens == self.total_input(),
            c.output_tokens == self.total_output(),
    {
        Cost { input_tokens: self.total_input, output_tokens: self.total_output }
    }

    /// Folds in a successful response: its token usage and its blocks,
    /// in order. A response without tool use finishes the run with the
    /// last text, every tool call and the totals; otherwise the round
    /// trip counts and the tool results go back to the model.
    pub fn absorb_turn(self, input_tokens: u64, output_tokens: u64, blocks: Vec<TurnBlock>) -> (o: TurnOutcome)
        requires
            self.completed() < self.max_iterations(),
        ensures
            block_results(blocks@).len() == 0 ==> (o matches TurnOutcome::Finished(r) && {
                &&& r.text@ == block_text(blocks@, self.text())
                &&& calls_view(r.tool_calls@) == self.calls() + block_calls(blocks@)
                &&& r.cost matches Some(c) && c.input_tokens == sat_add(self.total_input(), input_tokens)
                    && c.output_tokens == sat_add(self.total_output(), output_tokens)
            }),
            block_results(blocks@).len() > 0 ==> (o matches TurnOutcome::Continue(next, results) && {
                &&& results_view(results@) == block_results(blocks@)
                &&& next.completed() == self.completed() + 1
                &&& next.completed() <= next.max_iterations()
                &&& next.max_iterations() == self.max_iterations()
                &&& next.output_budget() == self.output_budget()
                &&& next.total_input() == sat_add(self.total_input(), input_tokens)
                &&& next.total_output() == sat_add(self.total_output(), output_tokens)
                &&& next.calls() == self.calls() + block_calls(blocks@)
                &&& next.text() == block_text(blocks@, self.text())
            }),
            o is Finished <==> tool_uses(blocks@).len() == 0,
            o matches TurnOutcome::Continue(_, results) ==> results@.len() == tool_uses(blocks@).len() && forall|i: int|
                0 <= i < results@.len() ==> (#[trigger] results@[i]).tool_use_id@ == tool_uses(blocks@)[i]->ToolUse_id@,
    {
        proof {
            law_one_result_per_tool_use(blocks@);
        }
        proof {
            use_type_invariant(&self);
        }
        let AgentLoop {
            max_iterations,
            max_output_tokens,
            completed,
            total_input,
            total_output,
            tool_calls,
            last_text,
        } = self;
        let total_input = total_input.saturating_add(input_tokens);
        let total_output = total_output.saturating_add(output_tokens);
        let mut calls = tool_calls;
        let mut text = last_text;
        let mut results: Vec<ToolResult> = Vec::new();
        let ghost calls0 = calls_view(calls@);
        let ghost text0 = text@;
        let mut blocks = blocks;
        let ghost all = blocks@;
        let n = blocks.len();
        let mut k: usize = 0;
        while k < n
            invariant
                n == all.len(),
                blocks@ == all.skip(k as int),
                k <= n,
                calls_view(calls@) == calls0 + block_calls(all.take(k as int)),
                text@ == block_text(all.take(k as int), text0),
                results_view(results@) == block_results(all.take(k as int)),
            decreases n - k,
        {
            let b = blocks.remove(0);
            proof {
                assert(all.skip(k as int).remove(0) =~= all.skip(k + 1));
                assert(b == all[k as int]);
                assert(all.take(k + 1).drop_last() =~= all.take(k as int));
                assert(all.take(k + 1).last() == all[k as int]);
            }
            let ghost old_calls = calls;
            match b {
                TurnBlock::Text(t) => {
                    text = t;
                },
                TurnBlock::ToolUse { id, name, outcome } => {
                    let ghost g_outcome = outcome;
                    let (content, is_error) = match outcome {
                        Ok(s) => (s, false),
                        Err(e) => (e, true),
                    };
                    assert(content@ == outcome_text(g_outcome));
                    assert(is_error == g_outcome is Err);
                    let error = if is_error {
                        Some(content.clone())
                    } else {
                        None
                    };
                    let summary = ToolCallSummary { tool: name, success: !is_error, error };
                    assert(call_view(summary) == block_calls(all.take(k + 1)).last());
                    calls.push(summary);
                    results.push(ToolResult { tool_use_id: id, content, is_error });
                    proof {
                        assert(calls_view(calls@) =~= calls_view(calls@.drop_last()).push(call_view(summary)));
                        assert(calls@.drop_last() =~= old_calls@);
                    }
                },
            }
            proof {
                assert(calls_view(calls@) =~= calls0 + block_calls(all.take(k + 1)));
                assert(results_view(results@) =~= block_results(all.take(k + 1)));
            }
            k = k + 1;
        }
        proof {
            assert(all.take(n as int) =~= all);
            assert forall|i: int| 0 <= i < results@.len() implies (#[trigger] results@[i]).tool_use_id@ == tool_uses(
                all,
            )[i]->ToolUse_id@ by {
                assert(results_view(results@)[i] == result_view(results@[i]));
            }
        }
        if results.len() == 0 {
            TurnOutcome::Finished(
                AgentResult {
                    text,
                    tool_calls: calls,
                    cost: Some(Cost { input_tokens: total_input, output_tokens: total_output }),
                },
            )
        } else {
            let next = AgentLoop {
                max_iterations,
                max_output_tokens,
                completed: completed + 1,
                total_input,
                total_output,
                tool_calls: calls,
                last_text: text,
            };
            TurnOutcome::Continue(next, results)
        }
    }

    /// The error of a run whose every allowed round trip ended in tool
    /// use.
    pub fn exhausted(&self) -> (e: AgentError)
        ensures
            e matches AgentError::LoopExhausted { iterations } && iterations == self.max_iterations(),
    {
        AgentError::LoopExhausted { iterations: self.max_iterations }
    }
}

/// The error for a response with a failure status.
pub fn api_failure(status: u16, body: String) -> (e: AgentError)
    ensures
        e matches AgentError::Api { status: s, body: b } && s == status && b@ == body@,
{
    AgentError::Api { status, body }
}

/// The `tool_use` blocks of a response, in order.
pub open spec fn tool_uses(b: Seq<TurnBlock>) -> Seq<TurnBlock> {
    b.filter(|x: TurnBlock| x is ToolUse)
}

/// Every `tool_use` block of a response gets exactly one tool result,
/// in the same order: as many results as tool uses, the i-th answering
/// the i-th tool use with its id, its outcome's text and its error flag.
pub proof fn law_one_result_per_tool_use(b: Seq<TurnBlock>)
    ensures
        block_results(b).len() == tool_uses(b).len(),
        forall|i: int|
            0 <= i < tool_uses(b).len() ==> match #[trigger] tool_uses(b)[i] {
                TurnBlock::ToolUse { id, outcome, .. } => block_results(b)[i] == (id@, outcome_text(outcome), outcome is Err),
                TurnBlock::Text(_) => false,
            },
    decreases b.len(),
{
    reveal(Seq::filter);
    if b.len() > 0 {
        law_one_result_per_tool_use(b.drop_last());
        let prev = tool_uses(b.drop_last());
        assert(tool_uses(b) == if b.last() is ToolUse {
            prev.push(b.last())
        } else {
            prev
        });
    }
}

/// Every `tool_use` block is summarised once, in order: as many
/// summaries as tool uses, the i-th naming the i-th tool use's tool, its
/// success, and its error text exactly when it failed.
pub proof fn law_one_summary_per_tool_use(b: Seq<TurnBlock>)
    ensures
        block_calls(b).len() == tool_uses(b).len(),
        forall|i: int|
            0 <= i < tool_uses(b).len() ==> match #[trigger] tool_uses(b)[i] {
                TurnBlock::ToolUse { name, outcome, .. } => {
                    &&& block_calls(b)[i].0 == name@
                    &&& block_calls(b)[i].1 == outcome is Ok
                    &&& block_calls(b)[i].2 == if outcome is Err {
                        Some(outcome_text(outcome))
                    } else {
                        None
                    }
                },
                TurnBlock::Text(_) => false,
            },
    decreases b.len(),
{
    reveal(Seq::filter);
    if b.len() > 0 {
        law_one_summary_per_tool_use(b.drop_last());
        let prev = tool_uses(b.drop_last());
        assert(tool_uses(b) == if b.last() is ToolUse {
            prev.push(b.last())
        } else {
            prev
        });
    }
}

/// The text blocks of a response, in order.
pub open spec fn text_blocks(b: Seq<TurnBlock>) -> Seq<TurnBlock> {
    b.filter(|x: TurnBlock| x is Text)
}

/// The text a turn leaves is its last text block's, or the earlier text
/// when it has none.
pub proof fn law_last_text_wins(b: Seq<TurnBlock>, prior: Seq<char>)
    ensures
        text_blocks(b).len() == 0 ==> block_text(b, prior) == prior,
        text_blocks(b).len() > 0 ==> (text_blocks(b).last() matches TurnBlock::Text(t) && block_text(b, prior) == t@),
    decreases b.len(),
{
    reveal(Seq::filter);
    if b.len() > 0 {
        law_last_text_wins(b.drop_last(), prior);
        let prev = text_blocks(b.drop_last());
        assert(text_blocks(b) == if b.last() is Text {
            prev.push(b.last())
        } else {
            prev
        });
    }
}

/// Token totals only grow, and grow by exactly what each response
/// reports unless they reach `u64::MAX`.
pub proof fn law_totals_saturate(total: u64, used: u64)
    ensures
        sat_add(total, used) >= total,
        sat_add(total, used) >= used,
        total + used <= u64::MAX ==> sat_add(total, used) == total + used,
{
}


// ---------------------------------------------------------------------
// The first request's user message
// ---------------------------------------------------------------------
/// The base64 digit for the six-bit value `i` (standard alphabet).
pub open spec fn b64_digit(i: int) -> char {
    if i < 26 {
        (65 + i) as char
    } else if i < 52 {
        (71 + i) as char
    } else if i < 62 {
        (i - 4) as char
    } else if i == 62 {
        '+'
    } else {
        '/'
    }
}

/// Standard base64 (RFC 4648, with `=` padding) of `b`.
pub open spec fn base64_spec(b: Seq<u8>) -> Seq<char>
    decreases b.len(),
{
    if b.len() == 0 {
        Seq::empty()
    } else if b.len() == 1 {
        seq![b64_digit(b[0] as int / 4), b64_digit((b[0] as int % 4) * 16), '=', '=']
    } else if b.len() == 2 {
        seq![
            b64_digit(b[0] as int / 4),
            b64_digit((b[0] as int % 4) * 16 + b[1] as int / 16),
            b64_digit((b[1] as int % 16) * 4),
            '=',
        ]
    } else {
        seq![
            b64_digit(b[0] as int / 4),
            b64_digit((b[0] as int % 4) * 16 + b[1] as int / 16),
            b64_digit((b[1] as int % 16) * 4 + b[2] as int / 64),
            b64_digit(b[2] as int % 64),
        ] + base64_spec(b.skip(3))
    }
}

fn b64_digit_exec(i: u8) -> (c: char)
    requires
        i < 64,
    ensures
        c == b64_digit(i as int),
{
    let code: u8 = if i < 26 {
        65 + i
    } else if i < 52 {
        71 + i
    } else if i < 62 {
        i - 4
    } else if i == 62 {
        43
    } else {
        47
    };
    code as char
}

/// The base64 text of `bytes`.
pub fn base64_encode(bytes: &[u8]) -> (r: String)
    ensures
        r@ == base64_spec(bytes@),
{
    let n = bytes.len();
    let mut out = String::new();
    let mut i: usize = 0;
    proof {
        assert(bytes@.skip(0) =~= bytes@);
        assert(out@ + base64_spec(bytes@) =~= base64_spec(bytes@));
    }
    while i < n
        invariant
            n == bytes@.len(),
            i <= n,
            base64_spec(bytes@) == out@ + base64_spec(bytes@.skip(i as int)),
        decreases n - i,
    {
        let ghost rest = bytes@.skip(i as int);
        let b0 = bytes[i];
        if n - i == 1 {
            push_char(&mut out, b64_digit_exec(b0 / 4));
            push_char(&mut out, b64_digit_exec((b0 % 4) * 16));
            push_char(&mut out, '=');
            push_char(&mut out, '=');
            proof {
                assert(bytes@.skip(n as int) =~= Seq::<u8>::empty());
                assert(rest[0] == b0);
            }
            i = n;
        } else if n - i == 2 {
            let b1 = bytes[i + 1];
            push_char(&mut out, b64_digit_exec(b0 / 4));
            push_char(&mut out, b64_digit_exec((b0 % 4) * 16 + b1 / 16));
            push_char(&mut out, b64_digit_exec((b1 % 16) * 4));
            push_char(&mut out, '=');
            proof {
                assert(bytes@.skip(n as int) =~= Seq::<u8>::empty());
                assert(rest[0] == b0 && rest[1] == b1);
            }
            i = n;
        } else {
            let b1 = bytes[i + 1];
            let b2 = bytes[i + 2];
            push_char(&mut out, b64_digit_exec(b0 / 4));
            push_char(&mut out, b64_digit_exec((b0 % 4) * 16 + b1 / 16));
            push_char(&mut out, b64_digit_exec((b1 % 16) * 4 + b2 / 64));
            push_char(&mut out, b64_digit_exec(b2 % 64));
            proof {
                assert(rest[0] == b0 && rest[1] == b1 && rest[2] == b2);
                assert(rest.skip(3) =~= bytes@.skip(i + 3));
            }
            i = i + 3;
        }
    }
    proof {
        assert(bytes@.skip(n as int) =~= Seq::<u8>::empty());
    }
    out
}


/// The MIME type sent with an attachment of kind `k`.
pub open spec fn media_type_spec(k: AttachmentKind) -> Seq<char> {
    match k {
        AttachmentKind::Pdf => "application/pdf"@,
    }
}

/// The `document` content block carrying `data`, base64-encoded.
pub open spec fn document_block_spec(kind: AttachmentKind, data: Seq<u8>) -> Seq<char> {
    "{\"type\":\"document\",\"source\":{\"type\":\"base64\",\"media_type\":"@ + json_quoted(media_type_spec(kind))
        + ",\"data\":"@ + json_quoted(base64_spec(data)) + "}}"@
}

/// The document blocks of `docs`, each followed by a comma.
pub open spec fn document_blocks_spec(docs: Seq<(AttachmentKind, Vec<u8>)>) -> Seq<char>
    decreases docs.len(),
{
    if docs.len() == 0 {
        Seq::empty()
    } else {
        document_blocks_spec(docs.drop_last()) + document_block_spec(docs.last().0, docs.last().1@) + ","@
    }
}

/// The JSON of the first user message: the prompt alone, or, when files
/// are attached, one `document` block per file followed by the prompt as
/// a `text` block.
pub open spec fn first_message_spec(prompt: Seq<char>, docs: Seq<(AttachmentKind, Vec<u8>)>) -> Seq<char> {
    if docs.len() == 0 {
        "{\"role\":\"user\",\"content\":"@ + json_quoted(prompt) + "}"@
    } else {
        "{\"role\":\"user\",\"content\":["@ + document_blocks_spec(docs) + "{\"type\":\"text\",\"text\":"@
            + json_quoted(prompt) + "}]}"@
    }
}

/// The `document` content block for one attached file's bytes.
pub fn document_block(kind: AttachmentKind, data: &[u8]) -> (r: String)
    ensures
        r@ == document_block_spec(kind, data@),
{
    let mut r = owned("{\"type\":\"document\",\"source\":{\"type\":\"base64\",\"media_type\":");
    let media = quote_json(kind.media_type());
    r.append(media.as_str());
    r.append(",\"data\":");
    let encoded = base64_encode(data);
    let quoted = quote_json(encoded.as_str());
    r.append(quoted.as_str());
    r.append("}}");
    r
}

/// The first user message of a run: `prompt`, with the attached files'
/// bytes (read by the caller) as `document` blocks before it.
pub fn first_user_message(prompt: &str, documents: &[(AttachmentKind, Vec<u8>)]) -> (r: String)
    ensures
        r@ == first_message_spec(prompt@, documents@),
{
    let quoted = quote_json(prompt);
    if documents.len() == 0 {
        let mut r = owned("{\"role\":\"user\",\"content\":");
        r.append(quoted.as_str());
        r.append("}");
        return r;
    }
    let mut r = owned("{\"role\":\"user\",\"content\":[");
    let ghost head = r@;
    let n = documents.len();
    let mut i: usize = 0;
    proof {
        assert(documents@.take(0) =~= Seq::<(AttachmentKind, Vec<u8>)>::empty());
        assert(r@ =~= head + document_blocks_spec(documents@.take(0)));
    }
    while i < n
        invariant
            n == documents@.len(),
            i <= n,
            r@ == head + document_blocks_spec(documents@.take(i as int)),
        decreases n - i,
    {
        let block = document_block(documents[i].0, documents[i].1.as_slice());
        r.append(block.as_str());
        r.append(",");
        proof {
            assert(documents@.take(i + 1).drop_last() =~= documents@.take(i as int));
            assert(documents@.take(i + 1).last() == documents@[i as int]);
        }
        i = i + 1;
    }
    proof {
        assert(documents@.take(n as int) =~= documents@);
    }
    r.append("{\"type\":\"text\",\"text\":");
    r.append(quoted.as_str());
    r.append("}]}");
    r
}

} // verus!

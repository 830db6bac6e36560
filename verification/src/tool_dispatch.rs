//! The tools the agent can call: their catalogue, how the catalogue is
//! presented to each kind of caller, and how a call's name and JSON
//! arguments become a typed request.
use crate::json::{json_quoted, quote_json};
use crate::text::{concat2, owned, str_eq};
use vstd::prelude::*;

verus! {

/// One tool: its name, what it does, and the JSON schema of its input
/// (as JSON text).
pub struct ToolSchema {
    pub name: String,
    pub description: String,
    pub input_schema: String,
}

/// Name, description and input schema of every tool, in catalogue
/// order.
pub open spec fn catalog() -> Seq<(Seq<char>, Seq<char>, Seq<char>)> {
    seq![
        ("fetch_url"@, "HTTP GET against a URL. Returns the response body as text."@, "{\"type\":\"object\",\"properties\":{\"url\":{\"type\":\"string\"},\"headers\":{\"type\":\"object\",\"additionalProperties\":{\"type\":\"string\"}}},\"required\":[\"url\"]}"@),
        ("save_script"@, "Write a per-company Python collector script to the scripts directory."@, "{\"type\":\"object\",\"properties\":{\"company\":{\"type\":\"string\"},\"code\":{\"type\":\"string\"}},\"required\":[\"company\",\"code\"]}"@),
        ("run_script"@, "Execute the per-company script via `uv run`. Returns the parsed list of jobs as JSON."@, "{\"type\":\"object\",\"properties\":{\"company\":{\"type\":\"string\"}},\"required\":[\"company\"]}"@),
        ("read_profile"@, "Read the current profile.md."@, "{\"type\":\"object\",\"properties\":{}}"@),
        ("write_profile"@, "Overwrite profile.md with the given markdown."@, "{\"type\":\"object\",\"properties\":{\"content\":{\"type\":\"string\"}},\"required\":[\"content\"]}"@),
        ("read_filters"@, "Read filters.json. Returns an empty filters object if the file does not exist."@, "{\"type\":\"object\",\"properties\":{}}"@),
        ("write_filters"@, "Overwrite filters.json. Accepts the full Filters object."@, "{\"type\":\"object\",\"properties\":{\"title_deny\":{\"type\":\"array\",\"items\":{\"type\":\"string\"}},\"location_allow_countries\":{\"type\":\"array\",\"items\":{\"type\":\"string\"}},\"require_remote_or_locations\":{\"type\":\"array\",\"items\":{\"type\":\"string\"}},\"clearance_deny\":{\"type\":\"array\",\"items\":{\"type\":\"string\"}}}}"@),
        ("list_known_jobs"@, "Recent jobs already recorded for a company, newest first."@, "{\"type\":\"object\",\"properties\":{\"company\":{\"type\":\"string\"},\"limit\":{\"type\":\"integer\",\"minimum\":1,\"maximum\":100}},\"required\":[\"company\"]}"@)
    ]
}

/// What a tool schema holds.
pub open spec fn schema_view(t: ToolSchema) -> (Seq<char>, Seq<char>, Seq<char>) {
    (t.name@, t.description@, t.input_schema@)
}

/// The catalogue of agent-facing tools. Run and usage bookkeeping is
/// done for the agent and is not offered as a tool.
pub fn all_tools() -> (v: Vec<ToolSchema>)
    ensures
        v@.len() == catalog().len(),
        forall|i: int| 0 <= i < v@.len() ==> schema_view(#[trigger] v@[i]) == catalog()[i],
{
    let mut v: Vec<ToolSchema> = Vec::new();
    v.push(ToolSchema { name: owned("fetch_url"), description: owned("HTTP GET against a URL. Returns the response body as text."), input_schema: owned("{\"type\":\"object\",\"properties\":{\"url\":{\"type\":\"string\"},\"headers\":{\"type\":\"object\",\"additionalProperties\":{\"type\":\"string\"}}},\"required\":[\"url\"]}") });
    v.push(ToolSchema { name: owned("save_script"), description: owned("Write a per-company Python collector script to the scripts directory."), input_schema: owned("{\"type\":\"object\",\"properties\":{\"company\":{\"type\":\"string\"},\"code\":{\"type\":\"string\"}},\"required\":[\"company\",\"code\"]}") });
    v.push(ToolSchema { name: owned("run_script"), description: owned("Execute the per-company script via `uv run`. Returns the parsed list of jobs as JSON."), input_schema: owned("{\"type\":\"object\",\"properties\":{\"company\":{\"type\":\"string\"}},\"required\":[\"company\"]}") });
    v.push(ToolSchema { name: owned("read_profile"), description: owned("Read the current profile.md."), input_schema: owned("{\"type\":\"object\",\"properties\":{}}") });
    v.push(ToolSchema { name: owned("write_profile"), description: owned("Overwrite profile.md with the given markdown."), input_schema: owned("{\"type\":\"object\",\"properties\":{\"content\":{\"type\":\"string\"}},\"required\":[\"content\"]}") });
    v.push(ToolSchema { name: owned("read_filters"), description: owned("Read filters.json. Returns an empty filters object if the file does not exist."), input_schema: owned("{\"type\":\"object\",\"properties\":{}}") });
    v.push(ToolSchema { name: owned("write_filters"), description: owned("Overwrite filters.json. Accepts the full Filters object."), input_schema: owned("{\"type\":\"object\",\"properties\":{\"title_deny\":{\"type\":\"array\",\"items\":{\"type\":\"string\"}},\"location_allow_countries\":{\"type\":\"array\",\"items\":{\"type\":\"string\"}},\"require_remote_or_locations\":{\"type\":\"array\",\"items\":{\"type\":\"string\"}},\"clearance_deny\":{\"type\":\"array\",\"items\":{\"type\":\"string\"}}}}") });
    v.push(ToolSchema { name: owned("list_known_jobs"), description: owned("Recent jobs already recorded for a company, newest first."), input_schema: owned("{\"type\":\"object\",\"properties\":{\"company\":{\"type\":\"string\"},\"limit\":{\"type\":\"integer\",\"minimum\":1,\"maximum\":100}},\"required\":[\"company\"]}") });
    proof {
        assert(v@.len() == 8);
    }
    v
}

/// Who the catalogue is rendered for.
#[derive(Clone, Copy, Debug, PartialEq, Eq, Structural)]
pub enum ToolFormat {
    /// Anthropic `/v1/messages`: the schema goes under `input_schema`.
    Anthropic,
    /// MCP `tools/list`: the schema goes under `inputSchema`.
    Mcp,
}

/// The key the input schema is stored under.
pub open spec fn schema_key(f: ToolFormat) -> Seq<char> {
    match f {
        ToolFormat::Anthropic => "input_schema"@,
        ToolFormat::Mcp => "inputSchema"@,
    }
}

impl ToolFormat {
    /// The key the input schema is stored under.
    pub fn schema_key(self) -> (r: &'static str)
        ensures
            r@ == schema_key(self),
    {
        match self {
            ToolFormat::Anthropic => "input_schema",
            ToolFormat::Mcp => "inputSchema",
        }
    }
}

/// The JSON object presenting one tool.
pub open spec fn rendered_tool(t: (Seq<char>, Seq<char>, Seq<char>), f: ToolFormat) -> Seq<char> {
    "{\"name\":"@ + json_quoted(t.0) + ",\"description\":"@ + json_quoted(t.1) + ",\""@ + schema_key(f)
        + "\":"@ + t.2 + "}"@
}

/// Renders each tool as a JSON object in `format`.
pub fn render_tools(tools: &[ToolSchema], format: ToolFormat) -> (r: Vec<String>)
    ensures
        r@.len() == tools@.len(),
        forall|i: int| 0 <= i < r@.len() ==> #[trigger] r@[i]@ == rendered_tool(schema_view(tools@[i]), format),
{
    let mut r: Vec<String> = Vec::new();
    let n = tools.len();
    let mut i: usize = 0;
    while i < n
        invariant
            n == tools@.len(),
            i <= n,
            r@.len() == i,
            forall|j: int| 0 <= j < i ==> #[trigger] r@[j]@ == rendered_tool(schema_view(tools@[j]), format),
        decreases n - i,
    {
        let t = &tools[i];
        let mut s = owned("{\"name\":");
        let q = quote_json(t.name.as_str());
        s.append(q.as_str());
        s.append(",\"description\":");
        let d = quote_json(t.description.as_str());
        s.append(d.as_str());
        s.append(",\"");
        s.append(format.schema_key());
        s.append("\":");
        s.append(t.input_schema.as_str());
        s.append("}");
        r.push(s);
        i = i + 1;
    }
    r
}

/// The catalogue in Anthropic's format.
pub fn to_anthropic_tools(tools: &[ToolSchema]) -> (r: Vec<String>)
    ensures
        r@.len() == tools@.len(),
        forall|i: int| 0 <= i < r@.len() ==> #[trigger] r@[i]@ == rendered_tool(
            schema_view(tools@[i]),
            ToolFormat::Anthropic,
        ),
{
    render_tools(tools, ToolFormat::Anthropic)
}

/// The catalogue in MCP's format.
pub fn to_mcp_tools(tools: &[ToolSchema]) -> (r: Vec<String>)
    ensures
        r@.len() == tools@.len(),
        forall|i: int| 0 <= i < r@.len() ==> #[trigger] r@[i]@ == rendered_tool(
            schema_view(tools@[i]),
            ToolFormat::Mcp,
        ),
{
    render_tools(tools, ToolFormat::Mcp)
}

/// A JSON value of a tool's input object, as far as dispatch reads it.
pub enum InputValue {
    /// A string.
    Str(String),
    /// A non-negative integer that fits in `u64`.
    UInt(u64),
    /// An object: each key, with its value when that value is a string.
    Object(Vec<(String, Option<String>)>),
    /// Any other value.
    Other,
}

/// A tool's input object: its keys (distinct) and their values.
pub struct ToolInput {
    pub fields: Vec<(String, InputValue)>,
}

/// The value under `key`: the first field with that key.
pub open spec fn lookup(fields: Seq<(String, InputValue)>, key: Seq<char>) -> Option<InputValue>
    decreases fields.len(),
{
    if fields.len() == 0 {
        None
    } else if fields[0].0@ == key {
        Some(fields[0].1)
    } else {
        lookup(fields.drop_first(), key)
    }
}

/// The string under `key`, when there is one.
pub open spec fn string_field(fields: Seq<(String, InputValue)>, key: Seq<char>) -> Option<Seq<char>> {
    match lookup(fields, key) {
        Some(InputValue::Str(s)) => Some(s@),
        _ => None,
    }
}

/// The string-valued entries of an object, in order.
pub open spec fn string_entries(entries: Seq<(String, Option<String>)>) -> Seq<(Seq<char>, Seq<char>)>
    decreases entries.len(),
{
    if entries.len() == 0 {
        Seq::empty()
    } else {
        let prev = string_entries(entries.drop_last());
        match entries.last().1 {
            Some(v) => prev.push((entries.last().0@, v@)),
            None => prev,
        }
    }
}

/// The error for an absent or non-string field (`{key:?}` quotes it).
pub open spec fn missing_field(key: Seq<char>) -> Seq<char> {
    "missing or non-string field \""@ + key + "\""@
}

/// A typed tool request.
pub enum ToolCall {
    FetchUrl { url: String, headers: Option<Vec<(String, String)>> },
    SaveScript { company: String, code: String },
    RunScript { company: String },
    ReadProfile,
    WriteProfile { content: String },
    ReadFilters,
    /// The filters are decoded from the whole input by the caller.
    WriteFilters,
    ListKnownJobs { company: String, limit: usize },
}

/// What a tool request says.
pub enum CallSpec {
    FetchUrl { url: Seq<char>, headers: Option<Seq<(Seq<char>, Seq<char>)>> },
    SaveScript { company: Seq<char>, code: Seq<char> },
    RunScript { company: Seq<char> },
    ReadProfile,
    WriteProfile { content: Seq<char> },
    ReadFilters,
    WriteFilters,
    ListKnownJobs { company: Seq<char>, limit: usize },
}

/// The view of a list of string pairs.
pub open spec fn pairs_view(v: Seq<(String, String)>) -> Seq<(Seq<char>, Seq<char>)> {
    v.map_values(|p: (String, String)| (p.0@, p.1@))
}

/// What a typed request says.
pub open spec fn call_spec(c: ToolCall) -> CallSpec {
    match c {
        ToolCall::FetchUrl { url, headers } => CallSpec::FetchUrl {
            url: url@,
            headers: match headers {
                Some(h) => Some(pairs_view(h@)),
                None => None,
            },
        },
        ToolCall::SaveScript { company, code } => CallSpec::SaveScript { company: company@, code: code@ },
        ToolCall::RunScript { company } => CallSpec::RunScript { company: company@ },
        ToolCall::ReadProfile => CallSpec::ReadProfile,
        ToolCall::WriteProfile { content } => CallSpec::WriteProfile { content: content@ },
        ToolCall::ReadFilters => CallSpec::ReadFilters,
        ToolCall::WriteFilters => CallSpec::WriteFilters,
        ToolCall::ListKnownJobs { company, limit } => CallSpec::ListKnownJobs { company: company@, limit },
    }
}

/// The request a tool name and input denote, or the error text sent
/// back to the model. Required string fields are checked in order; the
/// job listing limit defaults to ten.
pub open spec fn expected_call(name: Seq<char>, f: Seq<(String, InputValue)>) -> Result<CallSpec, Seq<char>> {
    if name == "fetch_url"@ {
        match string_field(f, "url"@) {
            None => Err(missing_field("url"@)),
            Some(url) => Ok(
                CallSpec::FetchUrl {
                    url,
                    headers: match lookup(f, "headers"@) {
                        Some(InputValue::Object(entries)) => Some(string_entries(entries@)),
                        _ => None,
                    },
                },
            ),
        }
    } else if name == "save_script"@ {
        match string_field(f, "company"@) {
            None => Err(missing_field("company"@)),
            Some(company) => match string_field(f, "code"@) {
                None => Err(missing_field("code"@)),
                Some(code) => Ok(CallSpec::SaveScript { company, code }),
            },
        }
    } else if name == "run_script"@ {
        match string_field(f, "company"@) {
            None => Err(missing_field("company"@)),
            Some(company) => Ok(CallSpec::RunScript { company }),
        }
    } else if name == "read_profile"@ {
        Ok(CallSpec::ReadProfile)
    } else if name == "write_profile"@ {
        match string_field(f, "content"@) {
            None => Err(missing_field("content"@)),
            Some(content) => Ok(CallSpec::WriteProfile { content }),
        }
    } else if name == "read_filters"@ {
        Ok(CallSpec::ReadFilters)
    } else if name == "write_filters"@ {
        Ok(CallSpec::WriteFilters)
    } else if name == "list_known_jobs"@ {
        match string_field(f, "company"@) {
            None => Err(missing_field("company"@)),
            Some(company) => Ok(
                CallSpec::ListKnownJobs {
                    company,
                    limit: match lookup(f, "limit"@) {
                        Some(InputValue::UInt(n)) => n as usize,
                        _ => 10,
                    },
                },
            ),
        }
    } else {
        Err("unknown tool: "@ + name)
    }
}

fn find_field<'a>(fields: &'a Vec<(String, InputValue)>, key: &str) -> (r: Option<&'a InputValue>)
    ensures
        match r {
            Some(v) => lookup(fields@, key@) == Some(*v),
            None => lookup(fields@, key@).is_none(),
        },
{
    let n = fields.len();
    let mut i: usize = 0;
    proof {
        assert(fields@.skip(0) =~= fields@);
    }
    while i < n
        invariant
            n == fields@.len(),
            i <= n,
            lookup(fields@, key@) == lookup(fields@.skip(i as int), key@),
        decreases n - i,
    {
        proof {
            assert(fields@.skip(i as int).drop_first() =~= fields@.skip(i + 1));
            assert(fields@.skip(i as int)[0] == fields@[i as int]);
        }
        if str_eq(fields[i].0.as_str(), key) {
            return Some(&fields[i].1);
        }
        i = i + 1;
    }
    None
}

fn get_string(input: &ToolInput, key: &str) -> (r: Result<String, String>)
    ensures
        match r {
            Ok(s) => string_field(input.fields@, key@) == Some(s@),
            Err(m) => string_field(input.fields@, key@).is_none() && m@ == missing_field(key@),
        },
{
    match find_field(&input.fields, key) {
        Some(InputValue::Str(s)) => Ok(s.clone()),
        _ => {
            let mut m = concat2("missing or non-string field \"", key);
            m.append("\"");
            Err(m)
        },
    }
}

fn string_pairs(entries: &Vec<(String, Option<String>)>) -> (r: Vec<(String, String)>)
    ensures
        pairs_view(r@) == string_entries(entries@),
{
    let mut r: Vec<(String, String)> = Vec::new();
    let n = entries.len();
    let mut i: usize = 0;
    while i < n
        invariant
            n == entries@.len(),
            i <= n,
            pairs_view(r@) == string_entries(entries@.take(i as int)),
        decreases n - i,
    {
        proof {
            assert(entries@.take(i + 1).drop_last() =~= entries@.take(i as int));
            assert(entries@.take(i + 1).last() == entries@[i as int]);
        }
        match &entries[i].1 {
            Some(v) => {
                r.push((entries[i].0.clone(), v.clone()));
            },
            None => {},
        }
        proof {
            assert(pairs_view(r@) =~= string_entries(entries@.take(i + 1)));
        }
        i = i + 1;
    }
    proof {
        assert(entries@.take(n as int) =~= entries@);
    }
    r
}

/// Reads a tool call: the tool named `name` with the input object
/// `input`, or the error text to report to the model.
pub fn parse_tool_call(name: &str, input: &ToolInput) -> (r: Result<ToolCall, String>)
    ensures
        match r {
            Ok(c) => expected_call(name@, input.fields@) == Ok::<CallSpec, Seq<char>>(call_spec(c)),
            Err(m) => expected_call(name@, input.fields@) == Err::<CallSpec, Seq<char>>(m@),
        },
        r matches Ok(ToolCall::SaveScript { company, code }) ==> name@ == "save_script"@ && string_field(
            input.fields@,
            "company"@,
        ) == Some(company@) && string_field(input.fields@, "code"@) == Some(code@),
        r matches Ok(ToolCall::RunScript { company }) ==> string_field(input.fields@, "company"@) == Some(company@),
        r matches Ok(ToolCall::WriteProfile { content }) ==> string_field(input.fields@, "content"@) == Some(
            content@,
        ),
        r matches Ok(ToolCall::FetchUrl { url, .. }) ==> string_field(input.fields@, "url"@) == Some(url@),
        r matches Ok(ToolCall::ListKnownJobs { company, .. }) ==> string_field(input.fields@, "company"@) == Some(
            company@,
        ),
        r matches Ok(ToolCall::ListKnownJobs { limit, .. }) ==> (lookup(input.fields@, "limit"@) matches Some(
            InputValue::UInt(n),
        ) ==> limit == n as usize) && (!(lookup(input.fields@, "limit"@) matches Some(InputValue::UInt(_)))
            ==> limit == 10),
{
    if str_eq(name, "fetch_url") {
        let url = match get_string(input, "url") {
            Ok(u) => u,
            Err(m) => return Err(m),
        };
        let headers = match find_field(&input.fields, "headers") {
            Some(InputValue::Object(entries)) => Some(string_pairs(entries)),
            _ => None,
        };
        Ok(ToolCall::FetchUrl { url, headers })
    } else if str_eq(name, "save_script") {
        let company = match get_string(input, "company") {
            Ok(c) => c,
            Err(m) => return Err(m),
        };
        let code = match get_string(input, "code") {
            Ok(c) => c,
            Err(m) => return Err(m),
        };
        Ok(ToolCall::SaveScript { company, code })
    } else if str_eq(name, "run_script") {
        match get_string(input, "company") {
            Ok(company) => Ok(ToolCall::RunScript { company }),
            Err(m) => Err(m),
        }
    } else if str_eq(name, "read_profile") {
        Ok(ToolCall::ReadProfile)
    } else if str_eq(name, "write_profile") {
        match get_string(input, "content") {
            Ok(content) => Ok(ToolCall::WriteProfile { content }),
            Err(m) => Err(m),
        }
    } else if str_eq(name, "read_filters") {
        Ok(ToolCall::ReadFilters)
    } else if str_eq(name, "write_filters") {
        Ok(ToolCall::WriteFilters)
    } else if str_eq(name, "list_known_jobs") {
        let company = match get_string(input, "company") {
            Ok(c) => c,
            Err(m) => return Err(m),
        };
        let limit: usize = match find_field(&input.fields, "limit") {
            Some(InputValue::UInt(n)) => *n as usize,
            _ => 10,
        };
        Ok(ToolCall::ListKnownJobs { company, limit })
    } else {
        Err(concat2("unknown tool: ", name))
    }
}

impl ToolCall {
    /// The text reported for a request that succeeds without output of
    /// its own: `saved` for a script, `written` for profile and filters.
    pub fn completion_text(&self) -> (r: Option<&'static str>)
        ensures
            match self {
                ToolCall::SaveScript { .. } => r matches Some(t) && t@ == "saved"@,
                ToolCall::WriteProfile { .. } => r matches Some(t) && t@ == "written"@,
                ToolCall::WriteFilters => r matches Some(t) && t@ == "written"@,
                _ => r.is_none(),
            },
    {
        match self {
            ToolCall::SaveScript { .. } => Some("saved"),
            ToolCall::WriteProfile { .. } => Some("written"),
            ToolCall::WriteFilters => Some("written"),
            _ => None,
        }
    }
}

/// Every name in the catalogue denotes a tool: a call to it is never
/// answered with `unknown tool`.
pub proof fn law_catalogue_names_are_dispatched(i: int, f: Seq<(String, InputValue)>)
    requires
        0 <= i < catalog().len(),
    ensures
        expected_call(catalog()[i].0, f) != Err::<CallSpec, Seq<char>>("unknown tool: "@ + catalog()[i].0),
{
    reveal_strlit("unknown tool: ");
    reveal_strlit("missing or non-string field \"");
    assert(("unknown tool: "@ + catalog()[i].0)[0] == 'u');
    assert(("missing or non-string field \""@ + "url"@ + "\""@)[0] == 'm');
}

/// Only catalogued tools can be called: a name that parses into a
/// request is the name of a tool in the catalogue.
pub proof fn law_only_catalogued_tools_parse(name: Seq<char>, f: Seq<(String, InputValue)>)
    requires
        expected_call(name, f) is Ok,
    ensures
        exists|i: int| 0 <= i < catalog().len() && catalog()[i].0 == name,
{
    if name == "fetch_url"@ {
        assert(catalog()[0].0 == name);
    } else if name == "save_script"@ {
        assert(catalog()[1].0 == name);
    } else if name == "run_script"@ {
        assert(catalog()[2].0 == name);
    } else if name == "read_profile"@ {
        assert(catalog()[3].0 == name);
    } else if name == "write_profile"@ {
        assert(catalog()[4].0 == name);
    } else if name == "read_filters"@ {
        assert(catalog()[5].0 == name);
    } else if name == "write_filters"@ {
        assert(catalog()[6].0 == name);
    } else {
        assert(catalog()[7].0 == name);
    }
}

/// A request carries the input's fields under their own names: a saved
/// script's company and code are the input's `company` and `code`
/// strings, a run script's company its `company`, a profile's content its
/// `content`, a fetch's URL its `url`, a job listing's company its
/// `company`.
pub proof fn law_request_fields_come_from_their_keys(name: Seq<char>, f: Seq<(String, InputValue)>)
    requires
        expected_call(name, f) is Ok,
    ensures
        match expected_call(name, f)->Ok_0 {
            CallSpec::SaveScript { company, code } => name == "save_script"@ && string_field(f, "company"@) == Some(
                company,
            ) && string_field(f, "code"@) == Some(code),
            CallSpec::RunScript { company } => string_field(f, "company"@) == Some(company),
            CallSpec::WriteProfile { content } => string_field(f, "content"@) == Some(content),
            CallSpec::FetchUrl { url, .. } => string_field(f, "url"@) == Some(url),
            CallSpec::ListKnownJobs { company, .. } => string_field(f, "company"@) == Some(company),
            _ => true,
        },
{
}

/// A `save_script` call whose input has `company` and `code` strings is
/// the request to save that code as that company's script.
pub proof fn law_save_script_with_both_fields(f: Seq<(String, InputValue)>, company: Seq<char>, code: Seq<char>)
    requires
        string_field(f, "company"@) == Some(company),
        string_field(f, "code"@) == Some(code),
    ensures
        expected_call("save_script"@, f) == Ok::<CallSpec, Seq<char>>(CallSpec::SaveScript { company, code }),
{
    reveal_strlit("save_script");
    reveal_strlit("fetch_url");
    assert("save_script"@ != "fetch_url"@) by {
        assert("save_script"@[0] != "fetch_url"@[0]);
    }
}

/// Each request comes from the tool of its own name: a parsed call is a
/// fetch only for `fetch_url`, a script save only for `save_script`, and
/// so on; a job listing's limit is the input's `limit` when that is a
/// number, else ten.
pub proof fn law_request_kind_follows_the_name(name: Seq<char>, f: Seq<(String, InputValue)>)
    requires
        expected_call(name, f) is Ok,
    ensures
        expected_call(name, f)->Ok_0 is FetchUrl <==> name == "fetch_url"@,
        expected_call(name, f)->Ok_0 is SaveScript <==> name == "save_script"@,
        expected_call(name, f)->Ok_0 is RunScript <==> name == "run_script"@,
        expected_call(name, f)->Ok_0 is ReadProfile <==> name == "read_profile"@,
        expected_call(name, f)->Ok_0 is WriteProfile <==> name == "write_profile"@,
        expected_call(name, f)->Ok_0 is ReadFilters <==> name == "read_filters"@,
        expected_call(name, f)->Ok_0 is WriteFilters <==> name == "write_filters"@,
        expected_call(name, f)->Ok_0 is ListKnownJobs <==> name == "list_known_jobs"@,
        expected_call(name, f)->Ok_0 matches CallSpec::ListKnownJobs { limit, .. } ==> (lookup(f, "limit"@) matches Some(
            InputValue::UInt(n),
        ) ==> limit == n as usize) && (!(lookup(f, "limit"@) matches Some(InputValue::UInt(_))) ==> limit == 10),
{
    reveal_strlit("fetch_url");
    reveal_strlit("save_script");
    reveal_strlit("run_script");
    reveal_strlit("read_profile");
    reveal_strlit("write_profile");
    reveal_strlit("read_filters");
    reveal_strlit("write_filters");
    reveal_strlit("list_known_jobs");
    assert("fetch_url"@.len() != "save_script"@.len());
    assert("fetch_url"@.len() != "run_script"@.len());
    assert("fetch_url"@.len() != "read_profile"@.len());
    assert("fetch_url"@.len() != "write_profile"@.len());
    assert("fetch_url"@.len() != "read_filters"@.len());
    assert("fetch_url"@.len() != "write_filters"@.len());
    assert("fetch_url"@.len() != "list_known_jobs"@.len());
    assert("save_script"@.len() != "run_script"@.len());
    assert("save_script"@.len() != "read_profile"@.len());
    assert("save_script"@.len() != "write_profile"@.len());
    assert("save_script"@.len() != "read_filters"@.len());
    assert("save_script"@.len() != "write_filters"@.len());
    assert("save_script"@.len() != "list_known_jobs"@.len());
    assert("run_script"@.len() != "read_profile"@.len());
    assert("run_script"@.len() != "write_profile"@.len());
    assert("run_script"@.len() != "read_filters"@.len());
    assert("run_script"@.len() != "write_filters"@.len());
    assert("run_script"@.len() != "list_known_jobs"@.len());
    assert("read_profile"@.len() != "write_profile"@.len());
    assert("read_profile"@[5] != "read_filters"@[5]);
    assert("read_profile"@.len() != "write_filters"@.len());
    assert("read_profile"@.len() != "list_known_jobs"@.len());
    assert("write_profile"@.len() != "read_filters"@.len());
    assert("write_profile"@[6] != "write_filters"@[6]);
    assert("write_profile"@.len() != "list_known_jobs"@.len());
    assert("read_filters"@.len() != "write_filters"@.len());
    assert("read_filters"@.len() != "list_known_jobs"@.len());
    assert("write_filters"@.len() != "list_known_jobs"@.len());
}

} // verus!

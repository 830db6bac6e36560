//! Errors of the in-process tool layer the agent calls into.
use crate::external::{db_error_text, http_error_text, io_error_text, json_error_text};
use crate::config::{debug_quoted, debug_quoted_spec};
use crate::text::{chars_of, concat2, concat3, i64_to_decimal, push_char, signed_decimal, str_eq, trim, trim_spec, views};
use vstd::prelude::*;

verus! {

/// Why a tool call failed.
#[derive(Debug)]
pub enum ToolError {
    /// Filesystem failure.
    Io(std::io::Error),
    /// Database failure.
    Db(sqlx::Error),
    /// HTTP failure.
    Http(reqwest::Error),
    /// JSON encoding or decoding failure.
    Json(serde_json::Error),
    /// A collector script exited unsuccessfully.
    Script { stderr: String, exit_code: i32 },
    /// A collector script printed a line that is not a job record.
    InvalidNdjson(String),
}

impl ToolError {
    /// The text of the variants whose payload the library owns; `None`
    /// for those that wrap an outside error.
    pub open spec fn text_spec(&self) -> Option<Seq<char>> {
        match self {
            ToolError::Script { stderr, exit_code } => Some(
                "script exited "@ + signed_decimal(*exit_code as int) + ": "@ + stderr@,
            ),
            ToolError::InvalidNdjson(s) => Some("invalid NDJSON: "@ + s@),
            _ => None,
        }
    }

    /// Human-readable description; a wrapped outside error is shown by
    /// its own text.
    pub fn message(&self) -> (r: String)
        ensures
            self.text_spec() matches Some(t) ==> r@ == t,
    {
        match self {
            ToolError::Io(e) => io_error_text(e),
            ToolError::Db(e) => db_error_text(e),
            ToolError::Http(e) => http_error_text(e),
            ToolError::Json(e) => json_error_text(e),
            ToolError::Script { stderr, exit_code } => {
                let code = i64_to_decimal(*exit_code as i64);
                let mut r = concat2("script exited ", code.as_str());
                r.append(": ");
                r.append(stderr.as_str());
                r
            },
            ToolError::InvalidNdjson(s) => concat2("invalid NDJSON: ", s.as_str()),
        }
    }
}


/// A character allowed in a company name: an ASCII letter or digit, `-`
/// or `_`.
pub open spec fn company_char(c: char) -> bool {
    ||| 'a' <= c <= 'z'
    ||| 'A' <= c <= 'Z'
    ||| '0' <= c <= '9'
    ||| c == '-'
    ||| c == '_'
}

/// A company name is non-empty and made of allowed characters only, so
/// it names a file directly inside the scripts directory.
pub open spec fn valid_company(name: Seq<char>) -> bool {
    name.len() > 0 && forall|i: int| 0 <= i < name.len() ==> company_char(#[trigger] name[i])
}

/// The message refusing a company name.
pub open spec fn invalid_company_message(name: Seq<char>) -> Seq<char> {
    "invalid company name "@ + debug_quoted_spec(name) + ": use ASCII letters, digits, '-' and '_'"@
}

/// Checks a company name before it is used to name a collector script.
pub fn validate_company(name: &str) -> (r: Result<(), String>)
    ensures
        r is Ok <==> valid_company(name@),
        r matches Err(m) ==> m@ == invalid_company_message(name@),
{
    let cs = chars_of(name);
    let n = cs.len();
    let mut ok = n > 0;
    let mut i: usize = 0;
    while i < n
        invariant
            n == cs@.len(),
            cs@ == name@,
            i <= n,
            ok == (n > 0 && forall|j: int| 0 <= j < i ==> company_char(#[trigger] cs@[j])),
        decreases n - i,
    {
        let c = cs[i];
        let good = ('a' <= c && c <= 'z') || ('A' <= c && c <= 'Z') || ('0' <= c && c <= '9') || c == '-' || c == '_';
        if !good {
            ok = false;
        }
        i = i + 1;
    }
    if ok {
        Ok(())
    } else {
        let q = debug_quoted(name);
        Err(concat3("invalid company name ", q.as_str(), ": use ASCII letters, digits, '-' and '_'"))
    }
}


/// `s` split at every line feed.
pub open spec fn split_lines(s: Seq<char>) -> Seq<Seq<char>>
    decreases s.len(),
{
    if s.len() == 0 {
        seq![Seq::empty()]
    } else {
        let init = split_lines(s.drop_last());
        if s.last() == '\n' {
            init.push(Seq::empty())
        } else {
            init.update(init.len() - 1, init.last().push(s.last()))
        }
    }
}

proof fn lemma_split_lines_len(s: Seq<char>)
    ensures
        split_lines(s).len() >= 1,
    decreases s.len(),
{
    if s.len() > 0 {
        lemma_split_lines_len(s.drop_last());
    }
}

/// The lines of `ls` trimmed, the blank ones left out.
pub open spec fn trimmed_nonblank(ls: Seq<Seq<char>>) -> Seq<Seq<char>>
    decreases ls.len(),
{
    if ls.len() == 0 {
        Seq::empty()
    } else {
        let prev = trimmed_nonblank(ls.drop_last());
        let t = trim_spec(ls.last());
        if t.len() > 0 {
            prev.push(t)
        } else {
            prev
        }
    }
}

/// The records a collector script printed: its output's lines, trimmed,
/// blank lines skipped. Each is one job as a JSON object.
pub open spec fn record_lines_spec(out: Seq<char>) -> Seq<Seq<char>> {
    trimmed_nonblank(split_lines(out))
}

/// Splits a collector script's output into its record lines.
pub fn record_lines(out: &str) -> (r: Vec<String>)
    ensures
        views(r@) == record_lines_spec(out@),
{
    proof {
        reveal_strlit("");
    }
    let mut r: Vec<String> = Vec::new();
    let mut cur = String::new();
    let ghost mut seen: Seq<char> = Seq::empty();
    proof {
        assert(split_lines(seen) =~= seq![Seq::<char>::empty()]);
        assert(split_lines(seen).drop_last() =~= Seq::<Seq<char>>::empty());
    }
    for c in it: out.chars()
        invariant
            it.seq() == out@,
            seen == out@.take(it.index() as int),
            views(r@) == trimmed_nonblank(split_lines(seen).drop_last()),
            cur@ == split_lines(seen).last(),
            split_lines(seen).len() >= 1,
    {
        let ghost before = seen;
        proof {
            seen = seen.push(c);
            assert(seen.drop_last() =~= before);
            assert(seen =~= out@.take(it.index() + 1));
        }
        if c == '\n' {
            let ghost ls = split_lines(before);
            let ghost rv = views(r@);
            let t = trim(cur.as_str());
            let keep = !str_eq(t.as_str(), "");
            proof {
                reveal_strlit("");
                if t@.len() == 0 {
                    assert(t@ =~= ""@);
                }
            }
            if keep {
                r.push(t);
                proof {
                    assert(views(r@) =~= rv.push(t@));
                }
            }
            cur = String::new();
            proof {
                reveal_strlit("");
                assert(""@.len() == 0);
                assert(split_lines(seen).drop_last() =~= ls);
                assert(ls.len() > 0);
                assert(trimmed_nonblank(ls) == (if trim_spec(ls.last()).len() > 0 {
                    trimmed_nonblank(ls.drop_last()).push(trim_spec(ls.last()))
                } else {
                    trimmed_nonblank(ls.drop_last())
                }));
                assert(split_lines(seen).last() =~= Seq::<char>::empty());
            }
        } else {
            push_char(&mut cur, c);
            proof {
                assert(split_lines(seen).drop_last() =~= split_lines(before).drop_last());
            }
        }
        proof {
            lemma_split_lines_len(seen);
        }
    }
    let ghost ls = split_lines(seen);
    let ghost rv = views(r@);
    proof {
        assert(seen =~= out@);
        lemma_split_lines_len(seen);
        assert(""@.len() == 0);
        assert(trimmed_nonblank(ls) == (if trim_spec(ls.last()).len() > 0 {
            trimmed_nonblank(ls.drop_last()).push(trim_spec(ls.last()))
        } else {
            trimmed_nonblank(ls.drop_last())
        }));
    }
    let t = trim(cur.as_str());
    let keep = !str_eq(t.as_str(), "");
    proof {
        reveal_strlit("");
        if t@.len() == 0 {
            assert(t@ =~= ""@);
        }
    }
    if keep {
        r.push(t);
        proof {
            assert(views(r@) =~= rv.push(t@));
        }
    }
    r
}

} // verus!

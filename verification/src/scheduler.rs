//! The per-company scheduler's decisions: which companies exist, how
//! often and with what startup spread they are ticked, which loop a
//! "run now" request wakes, what a tick records, and how new jobs are
//! announced.
use crate::config::{
    get_key, key_less, key_lt, lemma_key_lt_asym, lemma_key_lt_total,
    lemma_key_lt_trans, Config, ConfigTable, ConfigValue,
};
use crate::notifications::Notification;
use crate::text::{
    char_uppercase, char_uppercase_spec, chars_of, concat2, decimal, join, join_spec, owned, str_eq,
    string_of_range, u64_to_decimal, views,
};
use crate::tools::ToolError;
use crate::types::{RawJob, RunResult};
use vstd::prelude::*;
use vstd::seq_lib::*;

verus! {

/// Hours between ticks when the configuration sets none.
pub const DEFAULT_POLL_INTERVAL_HOURS: u64 = 1;
/// Upper bound of the startup spread, in seconds, when the
/// configuration sets none.
pub const DEFAULT_STARTUP_JITTER_SECONDS: u64 = 60;

// ---------------------------------------------------------------------
// Companies
// ---------------------------------------------------------------------
/// The index of the last occurrence of `c` in `s`, or `-1`.
pub open spec fn last_index_of(s: Seq<char>, c: char) -> int
    decreases s.len(),
{
    if s.len() == 0 {
        -1
    } else if s.last() == c {
        s.len() - 1
    } else {
        last_index_of(s.drop_last(), c)
    }
}

/// The company a directory entry names: a file name with extension
/// `py` yields its stem. As for `Path::extension`, the extension is
/// what follows the last dot, and a name whose only dot leads it has
/// none.
pub open spec fn company_of(name: Seq<char>) -> Option<Seq<char>> {
    let k = last_index_of(name, '.');
    if k > 0 && name.skip(k + 1) == "py"@ {
        Some(name.take(k))
    } else {
        None
    }
}

/// The companies named by a list of directory entries, in listing
/// order.
pub open spec fn companies_in(names: Seq<Seq<char>>) -> Seq<Seq<char>>
    decreases names.len(),
{
    if names.len() == 0 {
        Seq::empty()
    } else {
        let prev = companies_in(names.drop_last());
        match company_of(names.last()) {
            Some(c) => prev.push(c),
            None => prev,
        }
    }
}

/// Names in non-decreasing order.
pub open spec fn sorted_names(s: Seq<Seq<char>>) -> bool {
    forall|a: int, b: int| 0 <= a < b < s.len() ==> !key_lt(#[trigger] s[b], #[trigger] s[a])
}

fn last_dot(cs: &Vec<char>) -> (k: Option<usize>)
    ensures
        match k {
            Some(i) => last_index_of(cs@, '.') == i && i < cs@.len(),
            None => last_index_of(cs@, '.') == -1,
        },
{
    let mut i = cs.len();
    proof {
        assert(cs@.take(i as int) =~= cs@);
    }
    while i > 0
        invariant
            i <= cs@.len(),
            last_index_of(cs@, '.') == last_index_of(cs@.take(i as int), '.'),
        decreases i,
    {
        proof {
            assert(cs@.take(i as int).drop_last() =~= cs@.take(i - 1));
        }
        if cs[i - 1] == '.' {
            return Some(i - 1);
        }
        i = i - 1;
    }
    None
}

/// The company a directory entry's file name denotes, if any.
pub fn company_from_file_name(name: &str) -> (r: Option<String>)
    ensures
        match r {
            Some(c) => company_of(name@) == Some(c@),
            None => company_of(name@).is_none(),
        },
{
    let cs = chars_of(name);
    match last_dot(&cs) {
        Some(k) => {
            if k > 0 && cs.len() - k == 3 && cs[k + 1] == 'p' && cs[k + 2] == 'y' {
                proof {
                    reveal_strlit("py");
                    assert(name@.skip(k + 1) =~= "py"@);
                }
                let stem = string_of_range(cs.as_slice(), 0, k);
                Some(stem)
            } else {
                proof {
                    reveal_strlit("py");
                    if k > 0 && name@.skip(k + 1) == "py"@ {
                        assert(name@.skip(k + 1).len() == 2);
                        assert(name@.skip(k + 1)[0] == name@[k + 1]);
                        assert(name@.skip(k + 1)[1] == name@[k + 2]);
                    }
                }
                None
            }
        },
        None => None,
    }
}

fn insertion_index(out: &Vec<String>, k: &str) -> (pos: usize)
    ensures
        pos <= out@.len(),
        forall|j: int| 0 <= j < pos ==> !key_lt(k@, (#[trigger] out@[j])@),
        pos < out@.len() ==> key_lt(k@, out@[pos as int]@),
{
    let n = out.len();
    let mut i: usize = 0;
    while i < n
        invariant
            n == out@.len(),
            i <= n,
            forall|j: int| 0 <= j < i ==> !key_lt(k@, (#[trigger] out@[j])@),
        decreases n - i,
    {
        if key_less(k, out[i].as_str()) {
            return i;
        }
        i = i + 1;
    }
    i
}

/// The names in ascending order (a permutation of the input).
pub fn sort_names(v: Vec<String>) -> (r: Vec<String>)
    ensures
        sorted_names(views(r@)),
        views(r@).to_multiset() == views(v@).to_multiset(),
{
    let ghost src = views(v@);
    let mut rest = v;
    let mut out: Vec<String> = Vec::new();
    let n = rest.len();
    let mut i: usize = 0;
    proof {
        assert(views(out@).to_multiset() =~= src.take(0).to_multiset()) by {
            assert(views(out@) =~= src.take(0));
        }
    }
    while i < n
        invariant
            src.len() == n,
            i <= n,
            views(rest@) == src.skip(i as int),
            rest@.len() == n - i,
            sorted_names(views(out@)),
            views(out@).to_multiset() == src.take(i as int).to_multiset(),
        decreases n - i,
    {
        let ghost fo = views(out@);
        proof {
            assert(views(rest@)[0] == src[i as int]);
        }
        let ghost old_rest = rest@;
        let x = rest.remove(0);
        proof {
            assert(rest@ == old_rest.remove(0));
            assert forall|j: int| 0 <= j < rest@.len() implies #[trigger] views(rest@)[j] == src.skip(i + 1)[j] by {
                assert(rest@[j] == old_rest[j + 1]);
                assert(views(old_rest)[j + 1] == src.skip(i as int)[j + 1]);
            }
            assert(views(rest@) =~= src.skip(i + 1));
        }
        let pos = insertion_index(&out, x.as_str());
        let ghost xv = x@;
        out.insert(pos, x);
        proof {
            let fo2 = views(out@);
            assert(fo2 =~= fo.insert(pos as int, xv));
            assert forall|a: int, b: int| 0 <= a < b < fo2.len() implies !key_lt(#[trigger] fo2[b], #[trigger] fo2[a]) by {
                if b < pos {
                    assert(fo2[a] == fo[a] && fo2[b] == fo[b]);
                } else if b == pos {
                    assert(fo2[a] == fo[a]);
                    assert(!key_lt(xv, fo[a]));
                } else if a < pos {
                    assert(fo2[a] == fo[a] && fo2[b] == fo[b - 1]);
                } else if a == pos {
                    assert(fo2[b] == fo[b - 1]);
                    assert(key_lt(xv, fo[pos as int]));
                    if b - 1 > pos {
                        assert(!key_lt(fo[b - 1], fo[pos as int]));
                        lemma_key_lt_total(fo[pos as int], fo[b - 1]);
                        if fo[pos as int] != fo[b - 1] {
                            lemma_key_lt_trans(xv, fo[pos as int], fo[b - 1]);
                        }
                    }
                    lemma_key_lt_asym(xv, fo2[b]);
                } else {
                    assert(fo2[a] == fo[a - 1] && fo2[b] == fo[b - 1]);
                }
            }
            to_multiset_insert(fo, pos as int, xv);
            assert(src.take(i + 1) =~= src.take(i as int).push(xv));
            to_multiset_build(src.take(i as int), xv);
        }
        i = i + 1;
    }
    proof {
        assert(src.take(n as int) =~= src);
    }
    out
}

/// The companies a scripts directory holds, given its entries' file
/// names: every `<name>.py` yields `<name>`, in ascending order.
pub fn discover_companies(file_names: &[String]) -> (r: Vec<String>)
    ensures
        sorted_names(views(r@)),
        views(r@).to_multiset() == companies_in(views(file_names@)).to_multiset(),
{
    let mut found: Vec<String> = Vec::new();
    let n = file_names.len();
    let mut i: usize = 0;
    while i < n
        invariant
            n == file_names@.len(),
            i <= n,
            views(found@) == companies_in(views(file_names@.take(i as int))),
        decreases n - i,
    {
        proof {
            assert(views(file_names@.take(i + 1)).drop_last() =~= views(file_names@.take(i as int)));
            assert(views(file_names@.take(i + 1)).last() == file_names@[i as int]@);
        }
        match company_from_file_name(file_names[i].as_str()) {
            Some(c) => {
                found.push(c);
            },
            None => {},
        }
        proof {
            assert(views(found@) =~= companies_in(views(file_names@.take(i + 1))));
        }
        i = i + 1;
    }
    proof {
        assert(file_names@.take(n as int) =~= file_names@);
    }
    sort_names(found)
}

// ---------------------------------------------------------------------
// Timing
// ---------------------------------------------------------------------
/// A non-negative integer setting under `key`, or `default` when it is
/// absent, not an integer, or negative.
pub open spec fn config_seconds_spec(root: ConfigTable, key: Seq<char>, default: u64) -> u64 {
    match get_key(root, key) {
        Some(ConfigValue::Integer(i)) => if i >= 0 {
            i as u64
        } else {
            default
        },
        _ => default,
    }
}

/// Reads a non-negative integer setting, falling back to `default`.
pub fn config_seconds(config: &Config, key: &str, default: u64) -> (r: u64)
    ensures
        r == config_seconds_spec(config.root(), key@, default),
{
    match config.get(key) {
        Some(ConfigValue::Integer(i)) => {
            if *i >= 0 {
                *i as u64
            } else {
                default
            }
        },
        _ => default,
    }
}

/// Hours between ticks (`service.poll_interval_hours`, default 1).
pub fn poll_interval_hours(config: &Config) -> (r: u64)
    ensures
        r == config_seconds_spec(config.root(), "service.poll_interval_hours"@, 1),
{
    config_seconds(config, "service.poll_interval_hours", DEFAULT_POLL_INTERVAL_HOURS)
}

/// Seconds between ticks. The hour count must be small enough for the
/// seconds to fit in a `u64`.
pub fn poll_interval_seconds(config: &Config) -> (r: u64)
    requires
        config_seconds_spec(config.root(), "service.poll_interval_hours"@, 1) <= u64::MAX / 3600,
    ensures
        r == config_seconds_spec(config.root(), "service.poll_interval_hours"@, 1) * 3600,
{
    poll_interval_hours(config) * 3600
}

/// Upper bound of the startup spread
/// (`service.startup_jitter_seconds`, default 60).
pub fn startup_jitter_max(config: &Config) -> (r: u64)
    ensures
        r == config_seconds_spec(config.root(), "service.startup_jitter_seconds"@, 60),
{
    config_seconds(config, "service.startup_jitter_seconds", DEFAULT_STARTUP_JITTER_SECONDS)
}

/// The sub-second part of the wall clock, in nanoseconds, or `None`
/// when the clock is before the Unix epoch
/// (`SystemTime::now().duration_since(UNIX_EPOCH)` and
/// `Duration::subsec_nanos`). It depends on the time; only its range,
/// which `Duration` documents, is stated.
#[verifier::external_body]
fn clock_subsec_nanos() -> (r: Option<u32>)
    ensures
        r matches Some(n) ==> n < 1_000_000_000,
{
    match std::time::SystemTime::now().duration_since(std::time::UNIX_EPOCH) {
        Ok(elapsed) => Some(elapsed.subsec_nanos()),
        Err(_) => None,
    }
}

/// The startup offset drawn from a clock reading: the nanoseconds
/// modulo `max_seconds`; zero when the bound is zero or the clock is
/// unusable.
pub fn jitter_from(nanos: Option<u32>, max_seconds: u64) -> (r: u64)
    ensures
        max_seconds == 0 ==> r == 0,
        max_seconds > 0 ==> r == (match nanos {
            Some(n) => (n as u64) % max_seconds,
            None => 0,
        }),
{
    if max_seconds == 0 {
        return 0;
    }
    match nanos {
        Some(n) => (n as u64) % max_seconds,
        None => 0,
    }
}

/// The startup offset a clock reading gives: its nanoseconds modulo
/// `max_seconds`; zero when the bound is zero or there is no reading.
pub open spec fn jitter_value(nanos: Option<u32>, max_seconds: u64) -> u64 {
    if max_seconds == 0 {
        0
    } else {
        match nanos {
            Some(n) => ((n as u64) % max_seconds) as u64,
            None => 0,
        }
    }
}

/// A cheap startup offset below `max_seconds`, taken from the clock: the
/// sub-second nanoseconds of some clock reading (or none, before the
/// epoch) modulo the bound. Which reading depends on the time.
pub fn pseudo_jitter(max_seconds: u64) -> (r: u64)
    ensures
        max_seconds == 0 ==> r == 0,
        max_seconds > 0 ==> r < max_seconds,
        exists|n: Option<u32>| (n matches Some(x) ==> x < 1_000_000_000) && r == jitter_value(n, max_seconds),
{
    if max_seconds == 0 {
        proof {
            assert(jitter_value(None, max_seconds) == 0);
        }
        return 0;
    }
    let reading = clock_subsec_nanos();
    let r = jitter_from(reading, max_seconds);
    proof {
        assert(r == jitter_value(reading, max_seconds));
    }
    r
}

// ---------------------------------------------------------------------
// Run now
// ---------------------------------------------------------------------
/// Which loops a "run now" request wakes.
#[derive(Clone, Copy, Debug, PartialEq, Eq, Structural)]
pub enum PokeTarget {
    /// Every company.
    All,
    /// The company at this index of the scheduler's list.
    Company(usize),
    /// No such company.
    Unknown,
}

/// Resolves a "run now" request against the scheduled companies: no
/// name wakes all; a name wakes the first company with that name, or is
/// unknown.
pub fn poke_target(known: &[String], company: Option<&str>) -> (r: PokeTarget)
    ensures
        company.is_none() ==> r == PokeTarget::All,
        company matches Some(c) ==> match r {
            PokeTarget::Company(i) => i < known@.len() && known@[i as int]@ == c@ && forall|j: int|
                0 <= j < i ==> (#[trigger] known@[j])@ != c@,
            PokeTarget::Unknown => forall|j: int| 0 <= j < known@.len() ==> (#[trigger] known@[j])@ != c@,
            PokeTarget::All => false,
        },
{
    match company {
        None => PokeTarget::All,
        Some(c) => {
            let n = known.len();
            let mut i: usize = 0;
            while i < n
                invariant
                    n == known@.len(),
                    i <= n,
                    company == Some(c),
                    forall|j: int| 0 <= j < i ==> (#[trigger] known@[j])@ != c@,
                decreases n - i,
            {
                if str_eq(known[i].as_str(), c) {
                    return PokeTarget::Company(i);
                }
                i = i + 1;
            }
            PokeTarget::Unknown
        },
    }
}

/// The HTTP status answering a "run now" request: 202 when some loop
/// was woken, 404 for an unknown company.
pub fn run_now_status(found: bool) -> (r: u16)
    ensures
        found ==> r == 202,
        !found ==> r == 404,
{
    if found {
        202
    } else {
        404
    }
}

// ---------------------------------------------------------------------
// Tick records
// ---------------------------------------------------------------------
/// The run record of a tick whose script succeeded and yielded
/// `new_jobs` unseen jobs.
pub fn successful_run(started_at: String, finished_at: String, new_jobs: usize) -> (r: RunResult)
    ensures
        r.started_at@ == started_at@,
        r.finished_at matches Some(f) && f@ == finished_at@,
        r.exit_code == Some(0i32),
        r.new_job_count == Some(new_jobs as i64),
        r.stderr_tail.is_none(),
        r.error.is_none(),
{
    RunResult {
        started_at,
        finished_at: Some(finished_at),
        exit_code: Some(0),
        new_job_count: Some(new_jobs as i64),
        stderr_tail: None,
        error: None,
    }
}

/// The run record of a tick whose script failed: a script failure
/// keeps its exit code and standard error; every failure keeps its
/// message, and no job counts as new.
pub fn failed_run(started_at: String, finished_at: String, e: &ToolError) -> (r: RunResult)
    ensures
        r.started_at@ == started_at@,
        r.finished_at matches Some(f) && f@ == finished_at@,
        r.new_job_count == Some(0i64),
        e matches ToolError::Script { stderr, exit_code } ==> (r.exit_code == Some(*exit_code)
            && (r.stderr_tail matches Some(t) && t@ == stderr@)),
        !(e is Script) ==> r.exit_code.is_none() && r.stderr_tail.is_none(),
        r.error matches Some(m) && (e.text_spec() matches Some(t) ==> m@ == t),
{
    let (exit_code, stderr_tail) = match e {
        ToolError::Script { stderr, exit_code } => (Some(*exit_code), Some(stderr.clone())),
        _ => (None, None),
    };
    RunResult {
        started_at,
        finished_at: Some(finished_at),
        exit_code,
        new_job_count: Some(0),
        stderr_tail,
        error: Some(e.message()),
    }
}

// ---------------------------------------------------------------------
// Notifications
// ---------------------------------------------------------------------
/// The company name with its first character uppercased.
pub open spec fn title_case_spec(name: Seq<char>) -> Seq<char> {
    if name.len() == 0 {
        Seq::empty()
    } else {
        char_uppercase_spec(name[0]) + name.drop_first()
    }
}

/// Capitalises the first character of `name`.
pub fn title_case(name: &str) -> (r: String)
    ensures
        r@ == title_case_spec(name@),
{
    let cs = chars_of(name);
    if cs.len() == 0 {
        return String::new();
    }
    let mut r = char_uppercase(cs[0]);
    let rest = string_of_range(cs.as_slice(), 1, cs.len());
    r.append(rest.as_str());
    proof {
        assert(rest@ =~= name@.drop_first());
    }
    r
}

/// The titles of the first `k` jobs.
pub open spec fn job_titles(jobs: Seq<(i64, RawJob)>, k: int) -> Seq<Seq<char>> {
    Seq::new(k as nat, |i: int| jobs[i].1.title@)
}

/// The notification announcing `jobs`, new for `company`. A single job
/// is announced by its title and locations, with its page to open;
/// several by their count and the first three titles.
pub open spec fn notification_spec(company: Seq<char>, jobs: Seq<(i64, RawJob)>) -> (Seq<char>, Seq<char>, Option<Seq<char>>) {
    let shown = title_case_spec(company);
    if jobs.len() == 1 {
        let job = jobs[0].1;
        (
            shown + ": "@ + job.title@,
            match job.location {
                Some(locs) => join_spec(views(locs@), ", "@),
                None => Seq::empty(),
            },
            Some(job.url@),
        )
    } else {
        let k = if jobs.len() > 3 {
            3
        } else {
            jobs.len() as int
        };
        (
            shown + ": "@ + decimal(jobs.len()) + " new matches"@,
            join_spec(job_titles(jobs, k), " · "@) + if jobs.len() > 3 {
                " · …"@
            } else {
                Seq::empty()
            },
            None,
        )
    }
}

/// What a notification says: title, body, page to open.
pub open spec fn notification_view(n: Notification) -> (Seq<char>, Seq<char>, Option<Seq<char>>) {
    (
        n.title@,
        n.body@,
        match n.click_url {
            Some(u) => Some(u@),
            None => None,
        },
    )
}

/// Builds the notification announcing `new_jobs` for `company`.
pub fn build_notification(company: &str, new_jobs: &[(i64, RawJob)]) -> (n: Notification)
    ensures
        notification_view(n) == notification_spec(company@, new_jobs@),
{
    let shown = title_case(company);
    if new_jobs.len() == 1 {
        let job = &new_jobs[0].1;
        let body = match &job.location {
            Some(locs) => join(locs.as_slice(), ", "),
            None => String::new(),
        };
        let mut title = concat2(shown.as_str(), ": ");
        title.append(job.title.as_str());
        Notification { title, body, click_url: Some(job.url.clone()) }
    } else {
        let n = new_jobs.len();
        let k: usize = if n > 3 {
            3
        } else {
            n
        };
        let mut titles: Vec<String> = Vec::new();
        let mut i: usize = 0;
        while i < k
            invariant
                k <= n,
                n == new_jobs@.len(),
                i <= k,
                titles@.len() == i,
                views(titles@) == job_titles(new_jobs@, i as int),
            decreases k - i,
        {
            let ghost before = titles@;
            titles.push(new_jobs[i].1.title.clone());
            proof {
                assert forall|j: int| 0 <= j <= i implies #[trigger] views(titles@)[j] == job_titles(new_jobs@, i + 1)[j] by {
                    if j < i {
                        assert(titles@[j] == before[j]);
                        assert(views(before)[j] == job_titles(new_jobs@, i as int)[j]);
                    }
                }
                assert(views(titles@) =~= job_titles(new_jobs@, i + 1));
            }
            i = i + 1;
        }
        let mut body = join(titles.as_slice(), " · ");
        if n > 3 {
            body.append(" · …");
        }
        let count = u64_to_decimal(n as u64);
        let mut title = concat2(shown.as_str(), ": ");
        title.append(count.as_str());
        title.append(" new matches");
        Notification { title, body, click_url: None }
    }
}


// ---------------------------------------------------------------------
// A tick
// ---------------------------------------------------------------------
/// What a tick does once its script has run and the jobs it found have
/// been stored: the run record to write, the notification to send (one,
/// and only when there are new jobs), and what the tick returns (the ids
/// of the new jobs, or the failure).
pub struct TickPlan {
    pub run: RunResult,
    pub notification: Option<Notification>,
    pub outcome: Result<Vec<i64>, ToolError>,
}

/// The ids of `jobs`, in order.
pub open spec fn job_ids(jobs: Seq<(i64, RawJob)>) -> Seq<i64> {
    jobs.map_values(|j: (i64, RawJob)| j.0)
}

/// Plans the rest of a tick of `company` that started at `started_at`
/// and finished at `finished_at`, from `found`: the jobs that were new,
/// or why the script (or storing its jobs) failed.
pub fn plan_tick(company: &str, started_at: String, finished_at: String, found: Result<Vec<(i64, RawJob)>, ToolError>) -> (p:
    TickPlan)
    ensures
        p.run.started_at@ == started_at@,
        p.run.finished_at matches Some(f) && f@ == finished_at@,
        match found {
            Ok(fresh) => {
                &&& p.run.exit_code == Some(0i32)
                &&& p.run.new_job_count == Some(fresh@.len() as i64)
                &&& p.run.stderr_tail.is_none() && p.run.error.is_none()
                &&& (p.notification is Some <==> fresh@.len() > 0)
                &&& (p.notification matches Some(n) ==> notification_view(n) == notification_spec(company@, fresh@))
                &&& p.outcome matches Ok(ids) && ids@ == job_ids(fresh@)
            },
            Err(e) => {
                &&& p.run.new_job_count == Some(0i64)
                &&& (e matches ToolError::Script { stderr, exit_code } ==> (p.run.exit_code == Some(exit_code)
                    && (p.run.stderr_tail matches Some(t) && t@ == stderr@)))
                &&& (!(e is Script) ==> p.run.exit_code.is_none() && p.run.stderr_tail.is_none())
                &&& (p.run.error matches Some(m) && (e.text_spec() matches Some(t) ==> m@ == t))
                &&& p.notification is None
                &&& p.outcome == Err::<Vec<i64>, ToolError>(e)
            },
        },
{
    match found {
        Ok(fresh) => {
            let run = successful_run(started_at, finished_at, fresh.len());
            let notification = if fresh.len() > 0 {
                Some(build_notification(company, fresh.as_slice()))
            } else {
                None
            };
            let mut ids: Vec<i64> = Vec::new();
            let mut i: usize = 0;
            while i < fresh.len()
                invariant
                    i <= fresh@.len(),
                    ids@ == job_ids(fresh@).take(i as int),
                decreases fresh@.len() - i,
            {
                ids.push(fresh[i].0);
                proof {
                    assert(job_ids(fresh@).take(i + 1) =~= job_ids(fresh@).take(i as int).push(fresh@[i as int].0));
                }
                i = i + 1;
            }
            proof {
                assert(job_ids(fresh@).take(fresh@.len() as int) =~= job_ids(fresh@));
            }
            TickPlan { run, notification, outcome: Ok(ids) }
        },
        Err(e) => {
            let run = failed_run(started_at, finished_at, &e);
            TickPlan { run, notification: None, outcome: Err(e) }
        },
    }
}

/// One row of the notification audit: which job was announced, on which
/// channel, when, and whether delivery succeeded.
pub struct NotificationAudit {
    pub job_id: i64,
    pub channel: String,
    pub sent_at: String,
    pub success: bool,
    pub error: Option<String>,
}

/// The audit rows for one delivery announcing the jobs `job_ids`: one
/// row per job, in order, each with the delivery's channel, time and
/// result.
pub fn audit_rows(job_ids: &[i64], channel: &str, sent_at: &str, success: bool, error: &Option<String>) -> (rows: Vec<
    NotificationAudit,
>)
    ensures
        rows@.len() == job_ids@.len(),
        forall|i: int|
            #![trigger rows@[i]]
            0 <= i < rows@.len() ==> {
                &&& rows@[i].job_id == job_ids@[i]
                &&& rows@[i].channel@ == channel@
                &&& rows@[i].sent_at@ == sent_at@
                &&& rows@[i].success == success
                &&& match (rows@[i].error, *error) {
                    (Some(a), Some(b)) => a@ == b@,
                    (None, None) => true,
                    _ => false,
                }
            },
{
    let mut rows: Vec<NotificationAudit> = Vec::new();
    let mut i: usize = 0;
    while i < job_ids.len()
        invariant
            i <= job_ids@.len(),
            rows@.len() == i,
            forall|k: int|
                #![trigger rows@[k]]
                0 <= k < i ==> {
                    &&& rows@[k].job_id == job_ids@[k]
                    &&& rows@[k].channel@ == channel@
                    &&& rows@[k].sent_at@ == sent_at@
                    &&& rows@[k].success == success
                    &&& match (rows@[k].error, *error) {
                        (Some(a), Some(b)) => a@ == b@,
                        (None, None) => true,
                        _ => false,
                    }
                },
        decreases job_ids@.len() - i,
    {
        let err = match error {
            Some(m) => Some(m.clone()),
            None => None,
        };
        rows.push(
            NotificationAudit { job_id: job_ids[i], channel: owned(channel), sent_at: owned(sent_at), success, error: err },
        );
        i = i + 1;
    }
    rows
}

} // verus!

//! Job-portal collectors: the identifiers the ingestion services are
//! configured with, and how a configured list of names becomes the set
//! of collectors to run.
use crate::text::{ascii_lower, concat2, owned, str_eq, to_lowercase, to_lowercase_spec, views};
use vstd::prelude::*;

verus! {

/// Identifier of a careers-site collector.
#[derive(Clone, Copy, Debug, PartialEq, Eq, Structural, Hash)]
pub enum Collector {
    /// Microsoft careers site.
    Microsoft,
    /// Google careers site.
    Google,
}

/// The lowercase name of a collector.
pub open spec fn collector_name(c: Collector) -> Seq<char> {
    match c {
        Collector::Microsoft => "microsoft"@,
        Collector::Google => "google"@,
    }
}

/// The collector a (case-sensitive) name denotes, if any.
pub open spec fn parse_collector(s: Seq<char>) -> Option<Collector> {
    if s == "microsoft"@ {
        Some(Collector::Microsoft)
    } else if s == "google"@ {
        Some(Collector::Google)
    } else {
        None
    }
}

/// Folds a list of names into collectors, left to right: a name that
/// parses adds its collector unless it is already present; other names
/// are skipped.
pub open spec fn collect_from(names: Seq<Seq<char>>) -> Seq<Collector>
    decreases names.len(),
{
    if names.len() == 0 {
        Seq::empty()
    } else {
        let prev = collect_from(names.drop_last());
        match parse_collector(names.last()) {
            Some(c) => if prev.contains(c) {
                prev
            } else {
                prev.push(c)
            },
            None => prev,
        }
    }
}

/// Each name mapped through Unicode lowercasing.
pub open spec fn lowered(names: Seq<Seq<char>>) -> Seq<Seq<char>> {
    names.map_values(|s: Seq<char>| to_lowercase_spec(s))
}

impl Collector {
    /// Every collector that has an implementation (Google has none yet).
    pub fn all_variants() -> (v: Vec<Collector>)
        ensures
            v@ == seq![Collector::Microsoft],
    {
        let mut v = Vec::new();
        v.push(Collector::Microsoft);
        proof {
            assert(v@ =~= seq![Collector::Microsoft]);
        }
        v
    }

    /// The lowercase name, used in logs and configuration.
    pub fn as_str(&self) -> (r: &'static str)
        ensures
            r@ == collector_name(*self),
    {
        match self {
            Collector::Microsoft => "microsoft",
            Collector::Google => "google",
        }
    }

    /// Parses an exact collector name; the error text names the input.
    pub fn parse(s: &str) -> (r: Result<Collector, String>)
        ensures
            match r {
                Ok(c) => parse_collector(s@) == Some(c),
                Err(m) => parse_collector(s@).is_none() && m@ == "Invalid Collector Name: "@ + s@,
            },
    {
        if str_eq(s, "microsoft") {
            Ok(Collector::Microsoft)
        } else if str_eq(s, "google") {
            Ok(Collector::Google)
        } else {
            Err(concat2("Invalid Collector Name: ", s))
        }
    }

    /// The collectors named in `names`, compared exactly, in order of
    /// first appearance and without repetition.
    pub fn collectors_from_names(names: &[String]) -> (r: Vec<Collector>)
        ensures
            r@ == collect_from(views(names@)),
    {
        let mut r: Vec<Collector> = Vec::new();
        let n = names.len();
        let mut i: usize = 0;
        while i < n
            invariant
                n == names@.len(),
                i <= n,
                r@ == collect_from(views(names@.take(i as int))),
            decreases n - i,
        {
            proof {
                assert(views(names@.take(i + 1)).drop_last() =~= views(names@.take(i as int)));
                assert(views(names@.take(i + 1)).last() == names@[i as int]@);
            }
            match Collector::parse(names[i].as_str()) {
                Ok(c) => {
                    if !contains_collector(&r, c) {
                        r.push(c);
                    }
                },
                Err(_) => {},
            }
            i = i + 1;
        }
        proof {
            assert(names@.take(n as int) =~= names@);
        }
        r
    }

    /// Turns configured collector names into collectors: each name is
    /// lowercased, unknown names are skipped, and each collector appears
    /// once, in order of first appearance.
    pub fn load_collector_config(config: &[String]) -> (r: Vec<Collector>)
        ensures
            r@ == collect_from(lowered(views(config@))),
    {
        let mut lower: Vec<String> = Vec::new();
        let n = config.len();
        let mut i: usize = 0;
        while i < n
            invariant
                n == config@.len(),
                i <= n,
                lower@.len() == i,
                forall|j: int| 0 <= j < i ==> #[trigger] lower@[j]@ == to_lowercase_spec(config@[j]@),
            decreases n - i,
        {
            let l = to_lowercase(config[i].as_str());
            lower.push(l);
            i = i + 1;
        }
        proof {
            assert(views(lower@) =~= lowered(views(config@)));
        }
        Collector::collectors_from_names(lower.as_slice())
    }
}

fn contains_collector(v: &Vec<Collector>, c: Collector) -> (r: bool)
    ensures
        r == v@.contains(c),
{
    let n = v.len();
    let mut i: usize = 0;
    while i < n
        invariant
            n == v@.len(),
            i <= n,
            forall|j: int| 0 <= j < i ==> v@[j] != c,
        decreases n - i,
    {
        if v[i] == c {
            proof {
                assert(v@[i as int] == c);
            }
            return true;
        }
        i = i + 1;
    }
    false
}

impl std::str::FromStr for Collector {
    type Err = String;

    fn from_str(s: &str) -> (r: Result<Collector, String>)
        ensures
            match r {
                Ok(c) => parse_collector(s@) == Some(c),
                Err(m) => parse_collector(s@).is_none() && m@ == "Invalid Collector Name: "@ + s@,
            },
    {
        Collector::parse(s)
    }
}

/// A name maps back to the collector it came from.
pub proof fn law_parse_inverts_as_str(c: Collector)
    ensures
        parse_collector(collector_name(c)) == Some(c),
{
    reveal_strlit("microsoft");
    reveal_strlit("google");
    assert("microsoft"@.len() == 9);
    assert("google"@.len() == 6);
}

/// The collectors chosen from a list of names never repeat, and are
/// exactly those some name in the list parses to.
pub proof fn law_collect_from_members(names: Seq<Seq<char>>)
    ensures
        collect_from(names).no_duplicates(),
        forall|c: Collector|
            collect_from(names).contains(c) <==> exists|i: int|
                0 <= i < names.len() && parse_collector(#[trigger] names[i]) == Some(c),
    decreases names.len(),
{
    if names.len() > 0 {
        let init = names.drop_last();
        law_collect_from_members(init);
        let prev = collect_from(init);
        let cur = collect_from(names);
        assert forall|c: Collector| cur.contains(c) implies exists|i: int|
                0 <= i < names.len() && parse_collector(#[trigger] names[i]) == Some(c) by {
            if prev.contains(c) {
                let i = choose|i: int| 0 <= i < init.len() && parse_collector(#[trigger] init[i]) == Some(c);
                assert(names[i] == init[i]);
            } else {
                let k = names.len() - 1;
                assert(names[k] == names.last());
                assert(cur == prev.push(parse_collector(names.last()).unwrap()));
                let j = choose|j: int| 0 <= j < cur.len() && cur[j] == c;
                assert(j == prev.len());
            }
        }
        assert forall|c: Collector| (exists|i: int|
                0 <= i < names.len() && parse_collector(#[trigger] names[i]) == Some(c)) implies cur.contains(c) by {
            let i = choose|i: int| 0 <= i < names.len() && parse_collector(#[trigger] names[i]) == Some(c);
            if i < names.len() - 1 {
                assert(init[i] == names[i]);
                assert(prev.contains(c));
                let j = choose|j: int| 0 <= j < prev.len() && prev[j] == c;
                match parse_collector(names.last()) {
                    Some(d) => {
                        if !prev.contains(d) {
                            assert(cur[j] == c);
                        }
                    },
                    None => {},
                }
            } else {
                assert(names.last() == names[i]);
                if !prev.contains(c) {
                    assert(cur[prev.len() as int] == c);
                }
            }
        }
    }
}

/// The Microsoft careers-site collector.
pub struct MicrosoftCollector {
    endpoint: String,
}

impl MicrosoftCollector {
    /// The search endpoint this collector queries.
    pub closed spec fn endpoint_view(&self) -> Seq<char> {
        self.endpoint@
    }

    /// A collector pointed at the Microsoft careers search API.
    pub fn new() -> (c: MicrosoftCollector)
        ensures
            c.endpoint_view() == "https://gcsservices.careers.microsoft.com/search/api/v1/search"@,
    {
        MicrosoftCollector {
            endpoint: owned("https://gcsservices.careers.microsoft.com/search/api/v1/search"),
        }
    }

    /// The search endpoint.
    pub fn endpoint(&self) -> (r: &str)
        ensures
            r@ == self.endpoint_view(),
    {
        self.endpoint.as_str()
    }

    /// The query parameters of a search: first page, twenty results,
    /// most recent first.
    pub fn search_params(&self) -> (r: Vec<(String, String)>)
        ensures
            r@.len() == 4,
            r@[0].0@ == "pg"@ && r@[0].1@ == "1"@,
            r@[1].0@ == "pgSz"@ && r@[1].1@ == "20"@,
            r@[2].0@ == "o"@ && r@[2].1@ == "Recent"@,
            r@[3].0@ == "flt"@ && r@[3].1@ == "true"@,
    {
        let mut r = Vec::new();
        r.push((owned("pg"), owned("1")));
        r.push((owned("pgSz"), owned("20")));
        r.push((owned("o"), owned("Recent")));
        r.push((owned("flt"), owned("true")));
        r
    }

    /// The collector's name, `"microsoft"`.
    pub fn name(&self) -> (r: &'static str)
        ensures
            r@ == collector_name(Collector::Microsoft),
    {
        Collector::Microsoft.as_str()
    }
}

/// Seconds the ingestion service waits between polls.
pub const DEFAULT_DELAY_SECONDS: u64 = 300;

/// Settings of the job-ingestion service.
pub struct IngestorConfig {
    /// Names of the enabled collectors.
    pub collectors: Vec<String>,
    /// Seconds between successive polls.
    pub delay_duration: u64,
}

impl Default for IngestorConfig {
    fn default() -> (c: IngestorConfig)
        ensures
            c.collectors@.len() == 1,
            c.collectors@[0]@ == "microsoft"@,
            c.delay_duration == 300,
    {
        let mut collectors = Vec::new();
        collectors.push(owned("microsoft"));
        IngestorConfig { collectors, delay_duration: DEFAULT_DELAY_SECONDS }
    }
}

/// The collectors the ingestion service runs: those named by its fixed
/// configuration list, `["microsoft"]`.
pub fn enabled_collectors() -> (r: Vec<Collector>)
    ensures
        r@ == collect_from(lowered(seq!["microsoft"@])),
{
    let mut names = Vec::new();
    names.push(owned("microsoft"));
    proof {
        assert(views(names@) =~= seq!["microsoft"@]);
    }
    Collector::load_collector_config(names.as_slice())
}


/// A collector's name is ASCII and already lowercase, so lowering it (as
/// `to_lowercase` does on ASCII text) gives the name back.
pub proof fn law_names_are_lowercase(c: Collector)
    ensures
        forall|i: int| 0 <= i < collector_name(c).len() ==> (collector_name(c)[i] as u32) < 128,
        collector_name(c).map_values(|ch: char| ascii_lower(ch)) == collector_name(c),
{
    reveal_strlit("microsoft");
    reveal_strlit("google");
    assert(collector_name(c).map_values(|ch: char| ascii_lower(ch)) =~= collector_name(c));
}

} // verus!

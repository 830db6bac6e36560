//! In-memory model of `config.toml` with dot-key get/set/unset/list.
//!
//! A document is a tree of tables. Each table keeps its entries sorted by
//! key (the order a TOML table iterates in), with no key repeated. Keys
//! are addressed with dotted paths such as `agent.anthropic_api.api_key`.
//!
//! Reading and writing the TOML text happens at the edge of the program;
//! this module owns the structure and its operations.
use crate::text::{
    chars_of, concat2, join, join_spec, owned, str_eq, string_of, string_of_range, trim, trim_end, trim_end_spec, trim_spec,
    views,
};
use toml::Value;
use vstd::prelude::*;
use vstd::set_lib::{lemma_int_range, lemma_subset_equality, set_int_range};

verus! {

/// A configuration value. Floats are held by their shortest decimal text
/// (the one that reads back as the same number) and datetimes by their
/// TOML text.
#[derive(Debug)]
pub enum ConfigValue {
    String(String),
    Integer(i64),
    Float(String),
    Boolean(bool),
    Datetime(String),
    Array(Vec<ConfigValue>),
    Table(ConfigTable),
}

/// A table: key/value entries.
#[derive(Debug)]
pub struct ConfigTable {
    pub entries: Vec<(String, ConfigValue)>,
}

// ---------------------------------------------------------------------
// Key order
// ---------------------------------------------------------------------
/// Lexicographic order on keys, comparing characters by code point (which
/// is the byte order of their UTF-8 encodings, as `String`'s `Ord` uses).
pub open spec fn key_lt(a: Seq<char>, b: Seq<char>) -> bool
    decreases a.len(),
{
    if a.len() == 0 {
        b.len() > 0
    } else if b.len() == 0 {
        false
    } else if a[0] != b[0] {
        a[0] < b[0]
    } else {
        key_lt(a.drop_first(), b.drop_first())
    }
}

pub(crate) proof fn lemma_key_lt_irreflexive(a: Seq<char>)
    ensures
        !key_lt(a, a),
    decreases a.len(),
{
    if a.len() > 0 {
        lemma_key_lt_irreflexive(a.drop_first());
    }
}

pub(crate) proof fn lemma_key_lt_total(a: Seq<char>, b: Seq<char>)
    ensures
        a == b || key_lt(a, b) || key_lt(b, a),
    decreases a.len(),
{
    if a.len() > 0 && b.len() > 0 && a[0] == b[0] {
        lemma_key_lt_total(a.drop_first(), b.drop_first());
        if a.drop_first() == b.drop_first() {
            assert(a =~= seq![a[0]] + a.drop_first());
            assert(b =~= seq![b[0]] + b.drop_first());
        }
    } else if a.len() > 0 && b.len() > 0 {
    } else if a.len() == 0 && b.len() == 0 {
        assert(a =~= b);
    }
}

pub(crate) proof fn lemma_key_lt_trans(a: Seq<char>, b: Seq<char>, c: Seq<char>)
    requires
        key_lt(a, b),
        key_lt(b, c),
    ensures
        key_lt(a, c),
    decreases a.len(),
{
    if a.len() > 0 && b.len() > 0 && c.len() > 0 && a[0] == b[0] && b[0] == c[0] {
        lemma_key_lt_trans(a.drop_first(), b.drop_first(), c.drop_first());
    }
}

pub(crate) proof fn lemma_key_lt_asym(a: Seq<char>, b: Seq<char>)
    requires
        key_lt(a, b),
    ensures
        !key_lt(b, a),
        a != b,
{
    lemma_key_lt_irreflexive(a);
    if key_lt(b, a) {
        lemma_key_lt_trans(a, b, a);
    }
}

/// `key_lt` on strings.
pub fn key_less(a: &str, b: &str) -> (r: bool)
    ensures
        r == key_lt(a@, b@),
{
    let x = chars_of(a);
    let y = chars_of(b);
    let mut i: usize = 0;
    proof {
        assert(a@.skip(0) =~= a@);
        assert(b@.skip(0) =~= b@);
    }
    loop
        invariant
            x@ == a@,
            y@ == b@,
            i <= x@.len(),
            i <= y@.len(),
            key_lt(a@, b@) == key_lt(a@.skip(i as int), b@.skip(i as int)),
        decreases x@.len() - i,
    {
        if i == x.len() {
            return i < y.len();
        }
        if i == y.len() {
            return false;
        }
        if x[i] != y[i] {
            return x[i] < y[i];
        }
        proof {
            assert(a@.skip(i as int).drop_first() =~= a@.skip(i + 1));
            assert(b@.skip(i as int).drop_first() =~= b@.skip(i + 1));
        }
        i = i + 1;
    }
}

// ---------------------------------------------------------------------
// Well-formedness and lookup
// ---------------------------------------------------------------------
/// Keys strictly increase along the entries (so no key repeats).
pub open spec fn sorted_strict(es: Seq<(String, ConfigValue)>) -> bool {
    forall|i: int, j: int| 0 <= i < j < es.len() ==> key_lt(#[trigger] es[i].0@, #[trigger] es[j].0@)
}

/// The index of the last entry with key `k`, or `-1` when there is none.
pub open spec fn key_index(es: Seq<(String, ConfigValue)>, k: Seq<char>) -> int
    decreases es.len(),
{
    if es.len() == 0 {
        -1
    } else if es.last().0@ == k {
        es.len() - 1
    } else {
        key_index(es.drop_last(), k)
    }
}

/// The value stored under key `k`, if any.
pub open spec fn lookup(es: Seq<(String, ConfigValue)>, k: Seq<char>) -> Option<ConfigValue> {
    let i = key_index(es, k);
    if i >= 0 {
        Some(es[i].1)
    } else {
        None
    }
}

proof fn lemma_key_index(es: Seq<(String, ConfigValue)>, k: Seq<char>)
    ensures
        -1 <= key_index(es, k) < es.len(),
        key_index(es, k) == -1 <==> forall|i: int| 0 <= i < es.len() ==> (#[trigger] es[i]).0@ != k,
        key_index(es, k) >= 0 ==> es[key_index(es, k)].0@ == k,
    decreases es.len(),
{
    if es.len() > 0 && es.last().0@ != k {
        lemma_key_index(es.drop_last(), k);
        if key_index(es, k) == -1 {
            assert forall|i: int| 0 <= i < es.len() implies (#[trigger] es[i]).0@ != k by {
                if i < es.len() - 1 {
                    assert(es.drop_last()[i] == es[i]);
                }
            }
        } else {
            assert(es.drop_last()[key_index(es, k)] == es[key_index(es, k)]);
        }
        if forall|i: int| 0 <= i < es.len() ==> (#[trigger] es[i]).0@ != k {
            assert forall|i: int| 0 <= i < es.drop_last().len() implies (#[trigger] es.drop_last()[i]).0@ != k by {
                assert(es.drop_last()[i] == es[i]);
            }
        }
    } else if es.len() > 0 {
        assert(es[es.len() - 1] == es.last());
    }
}

/// The value at the dotted path `ps` (one key per level).
pub open spec fn get_path(t: ConfigTable, ps: Seq<Seq<char>>) -> Option<ConfigValue>
    decreases ps.len(),
{
    if ps.len() == 0 {
        None
    } else {
        match lookup(t.entries@, ps[0]) {
            None => None,
            Some(v) => if ps.len() == 1 {
                Some(v)
            } else {
                match v {
                    ConfigValue::Table(sub) => get_path(sub, ps.drop_first()),
                    _ => None,
                }
            },
        }
    }
}

/// Every table reachable from `t` through tables (including `t` itself)
/// has strictly sorted keys.
pub open spec fn table_wf(t: ConfigTable) -> bool {
    &&& sorted_strict(t.entries@)
    &&& forall|ps: Seq<Seq<char>>| sorted_if_table(#[trigger] get_path(t, ps))
}

/// When `v` holds a table, its keys are strictly sorted.
pub open spec fn sorted_if_table(v: Option<ConfigValue>) -> bool {
    match v {
        Some(ConfigValue::Table(x)) => sorted_strict(x.entries@),
        _ => true,
    }
}

/// A value that is a table is well formed; other values always are.
pub open spec fn value_wf(v: ConfigValue) -> bool {
    match v {
        ConfigValue::Table(t) => table_wf(t),
        _ => true,
    }
}

/// The value at path `ps` below `v` (only tables have children).
pub open spec fn get_below(v: ConfigValue, ps: Seq<Seq<char>>) -> Option<ConfigValue> {
    match v {
        ConfigValue::Table(t) => get_path(t, ps),
        _ => None,
    }
}

/// `q` and `p` differ at some position both of them have.
pub open spec fn diverges(q: Seq<Seq<char>>, p: Seq<Seq<char>>) -> bool {
    exists|m: int| 0 <= m < q.len() && m < p.len() && q[m] != p[m]
}

/// `p` is a proper prefix of `q`.
pub open spec fn strictly_extends(q: Seq<Seq<char>>, p: Seq<Seq<char>>) -> bool {
    p.len() < q.len() && q.take(p.len() as int) == p
}

proof fn lemma_lookup_at(es: Seq<(String, ConfigValue)>, i: int)
    requires
        sorted_strict(es),
        0 <= i < es.len(),
    ensures
        lookup(es, es[i].0@) == Some(es[i].1),
{
    let k = es[i].0@;
    lemma_key_index(es, k);
    let j = key_index(es, k);
    if j == -1 {
        assert(es[i].0@ != k);
    }
    if j != i {
        if j < i {
            assert(key_lt(es[j].0@, es[i].0@));
        } else {
            assert(key_lt(es[i].0@, es[j].0@));
        }
        lemma_key_lt_irreflexive(k);
    }
}

/// A table stored in a well-formed table is well formed.
proof fn lemma_child_wf(t: ConfigTable, k: Seq<char>)
    requires
        table_wf(t),
        lookup(t.entries@, k) matches Some(ConfigValue::Table(_)),
    ensures
        table_wf(lookup(t.entries@, k)->Some_0->Table_0),
{
    let sub = lookup(t.entries@, k)->Some_0->Table_0;
    assert(get_path(t, seq![k]) == Some(ConfigValue::Table(sub)));
    assert forall|ps: Seq<Seq<char>>| sorted_if_table(#[trigger] get_path(sub, ps)) by {
        if ps.len() > 0 {
            let full = seq![k] + ps;
            assert(full.drop_first() =~= ps);
            assert(get_path(t, full) == get_path(sub, ps));
        }
    }
}

/// A table whose entries changed only at key `key` (now holding a
/// well-formed `w`) is well formed.
proof fn lemma_wf_after_change(old_t: ConfigTable, new_t: ConfigTable, key: Seq<char>, w: ConfigValue)
    requires
        table_wf(old_t),
        sorted_strict(new_t.entries@),
        lookup(new_t.entries@, key) == Some(w),
        value_wf(w),
        forall|k: Seq<char>| k != key ==> lookup(new_t.entries@, k) == lookup(old_t.entries@, k),
    ensures
        table_wf(new_t),
{
    assert forall|ps: Seq<Seq<char>>| sorted_if_table(#[trigger] get_path(new_t, ps)) by {
        if ps.len() == 0 {
        } else if ps[0] == key {
            if ps.len() > 1 {
                if let ConfigValue::Table(x) = w {
                    assert(get_path(x, ps.drop_first()) == get_path(new_t, ps));
                }
            }
        } else {
            assert(lookup(new_t.entries@, ps[0]) == lookup(old_t.entries@, ps[0]));
            assert(get_path(new_t, ps) == get_path(old_t, ps));
        }
    }
}

/// Entries whose keys all differ from `k` carry no value for `k`.
proof fn lemma_lookup_absent(es: Seq<(String, ConfigValue)>, k: Seq<char>)
    requires
        forall|i: int| 0 <= i < es.len() ==> (#[trigger] es[i]).0@ != k,
    ensures
        lookup(es, k) is None,
{
    lemma_key_index(es, k);
}

/// Replacing the value at an index keeps the key set and every other
/// lookup.
proof fn lemma_update(es: Seq<(String, ConfigValue)>, j: int, key: String, w: ConfigValue)
    requires
        sorted_strict(es),
        0 <= j < es.len(),
        key@ == es[j].0@,
    ensures
        sorted_strict(es.update(j, (key, w))),
        lookup(es.update(j, (key, w)), key@) == Some(w),
        forall|k: Seq<char>| k != key@ ==> lookup(es.update(j, (key, w)), k) == lookup(es, k),
{
    let es2 = es.update(j, (key, w));
    assert forall|a: int, b: int| 0 <= a < b < es2.len() implies key_lt(
        #[trigger] es2[a].0@,
        #[trigger] es2[b].0@,
    ) by {
        assert(key_lt(es[a].0@, es[b].0@));
    }
    lemma_lookup_at(es2, j);
    assert forall|k: Seq<char>| k != key@ implies lookup(es2, k) == lookup(es, k) by {
        lemma_key_index(es, k);
        lemma_key_index(es2, k);
        if key_index(es, k) >= 0 {
            let i = key_index(es, k);
            lemma_lookup_at(es, i);
            assert(es2[i] == es[i]);
            lemma_lookup_at(es2, i);
        } else {
            assert forall|i: int| 0 <= i < es2.len() implies (#[trigger] es2[i]).0@ != k by {
                if i != j {
                    assert(es2[i] == es[i]);
                }
            }
        }
    }
}

/// Inserting a new key at its sorted position keeps the order and every
/// other lookup.
proof fn lemma_insert(es: Seq<(String, ConfigValue)>, pos: int, key: String, w: ConfigValue)
    requires
        sorted_strict(es),
        0 <= pos <= es.len(),
        forall|i: int| 0 <= i < pos ==> key_lt((#[trigger] es[i]).0@, key@),
        forall|i: int| pos <= i < es.len() ==> key_lt(key@, (#[trigger] es[i]).0@),
    ensures
        sorted_strict(es.insert(pos, (key, w))),
        lookup(es.insert(pos, (key, w)), key@) == Some(w),
        forall|k: Seq<char>| k != key@ ==> lookup(es.insert(pos, (key, w)), k) == lookup(es, k),
{
    let es2 = es.insert(pos, (key, w));
    assert forall|a: int, b: int| 0 <= a < b < es2.len() implies key_lt(
        #[trigger] es2[a].0@,
        #[trigger] es2[b].0@,
    ) by {
        if a < pos && b < pos {
            assert(key_lt(es[a].0@, es[b].0@));
        } else if a < pos && b == pos {
        } else if a < pos {
            assert(es2[b] == es[b - 1]);
            lemma_key_lt_trans(es[a].0@, key@, es[b - 1].0@);
        } else if a == pos {
            assert(es2[b] == es[b - 1]);
        } else {
            assert(key_lt(es[a - 1].0@, es[b - 1].0@));
        }
    }
    lemma_lookup_at(es2, pos);
    assert forall|k: Seq<char>| k != key@ implies lookup(es2, k) == lookup(es, k) by {
        lemma_key_index(es, k);
        lemma_key_index(es2, k);
        if key_index(es, k) >= 0 {
            let i = key_index(es, k);
            lemma_lookup_at(es, i);
            if i < pos {
                assert(es2[i] == es[i]);
                lemma_lookup_at(es2, i);
            } else {
                assert(es2[i + 1] == es[i]);
                lemma_lookup_at(es2, i + 1);
            }
        } else {
            assert forall|i: int| 0 <= i < es2.len() implies (#[trigger] es2[i]).0@ != k by {
                if i < pos {
                    assert(es2[i] == es[i]);
                } else if i > pos {
                    assert(es2[i] == es[i - 1]);
                }
            }
        }
    }
}

/// The index of the entry with key `k`, if any.
fn find_key(es: &Vec<(String, ConfigValue)>, k: &str) -> (r: Option<usize>)
    ensures
        r matches Some(i) ==> i < es@.len() && es@[i as int].0@ == k@,
        r is None ==> forall|i: int| 0 <= i < es@.len() ==> (#[trigger] es@[i]).0@ != k@,
{
    let n = es.len();
    let mut i: usize = 0;
    while i < n
        invariant
            n == es@.len(),
            i <= n,
            forall|j: int| 0 <= j < i ==> (#[trigger] es@[j]).0@ != k@,
        decreases n - i,
    {
        if str_eq(es[i].0.as_str(), k) {
            return Some(i);
        }
        i = i + 1;
    }
    None
}

/// The position a new key `k` takes in sorted entries that lack it.
fn insert_position(es: &Vec<(String, ConfigValue)>, k: &str) -> (pos: usize)
    requires
        sorted_strict(es@),
        forall|i: int| 0 <= i < es@.len() ==> (#[trigger] es@[i]).0@ != k@,
    ensures
        pos <= es@.len(),
        forall|i: int| 0 <= i < pos ==> key_lt((#[trigger] es@[i]).0@, k@),
        forall|i: int| pos <= i < es@.len() ==> key_lt(k@, (#[trigger] es@[i]).0@),
{
    let n = es.len();
    let mut i: usize = 0;
    while i < n
        invariant
            n == es@.len(),
            i <= n,
            sorted_strict(es@),
            forall|j: int| 0 <= j < es@.len() ==> (#[trigger] es@[j]).0@ != k@,
            forall|j: int| 0 <= j < i ==> key_lt((#[trigger] es@[j]).0@, k@),
        decreases n - i,
    {
        if key_less(k, es[i].0.as_str()) {
            proof {
                assert forall|j: int| i <= j < es@.len() implies key_lt(k@, (#[trigger] es@[j]).0@) by {
                    if j > i {
                        assert(key_lt(es@[i as int].0@, es@[j].0@));
                        lemma_key_lt_trans(k@, es@[i as int].0@, es@[j].0@);
                    }
                }
            }
            return i;
        }
        proof {
            lemma_key_lt_total(k@, es@[i as int].0@);
        }
        i = i + 1;
    }
    i
}

impl ConfigTable {
    /// An empty table.
    pub fn new() -> (t: ConfigTable)
        ensures
            t.entries@.len() == 0,
            table_wf(t),
    {
        ConfigTable { entries: Vec::new() }
    }

    /// Number of entries.
    pub fn len(&self) -> (n: usize)
        ensures
            n == self.entries@.len(),
    {
        self.entries.len()
    }

    /// Store `value` under `key` in this table (not a dotted path),
    /// replacing any previous value for that key.
    pub fn insert(&mut self, key: String, value: ConfigValue)
        requires
            table_wf(*old(self)),
            value_wf(value),
        ensures
            table_wf(*final(self)),
            lookup(final(self).entries@, key@) == Some(value),
            forall|k: Seq<char>| k != key@ ==> lookup(final(self).entries@, k) == lookup(old(self).entries@, k),
    {
        match find_key(&self.entries, key.as_str()) {
            Some(j) => {
                let ghost es = self.entries@;
                let ghost kk = key;
                let ghost ww = value;
                self.entries.remove(j);
                self.entries.insert(j, (key, value));
                proof {
                    assert(self.entries@ =~= es.update(j as int, (kk, ww)));
                    lemma_update(es, j as int, kk, ww);
                    lemma_wf_after_change(*old(self), *self, kk@, ww);
                }
            },
            None => {
                let pos = insert_position(&self.entries, key.as_str());
                let ghost es = self.entries@;
                let ghost kk = key;
                let ghost ww = value;
                self.entries.insert(pos, (key, value));
                proof {
                    lemma_insert(es, pos as int, kk, ww);
                    lemma_wf_after_change(*old(self), *self, kk@, ww);
                }
            },
        }
    }
}

// ---------------------------------------------------------------------
// Dotted keys
// ---------------------------------------------------------------------
/// `s` split at every `.` (as `str::split('.')` splits it).
pub open spec fn split_dots(s: Seq<char>) -> Seq<Seq<char>>
    decreases s.len(),
{
    if s.len() == 0 {
        seq![Seq::empty()]
    } else {
        let init = split_dots(s.drop_last());
        if s.last() == '.' {
            init.push(Seq::empty())
        } else {
            init.update(init.len() - 1, init.last().push(s.last()))
        }
    }
}

proof fn lemma_split_dots_len(s: Seq<char>)
    ensures
        split_dots(s).len() >= 1,
    decreases s.len(),
{
    if s.len() > 0 {
        lemma_split_dots_len(s.drop_last());
    }
}

/// The parts of a dotted key: `None` for the empty key or when any part
/// is empty (`"a..b"`, `".a"`, `"a."`).
pub open spec fn key_parts(key: Seq<char>) -> Option<Seq<Seq<char>>> {
    if key.len() == 0 {
        None
    } else if exists|i: int| 0 <= i < split_dots(key).len() && (#[trigger] split_dots(key)[i]).len() == 0 {
        None
    } else {
        Some(split_dots(key))
    }
}

/// Splits a dotted key into its parts.
pub fn split_key(key: &str) -> (r: Option<Vec<String>>)
    ensures
        r is None <==> key_parts(key@) is None,
        r matches Some(v) ==> key_parts(key@) == Some(views(v@)) && v@.len() >= 1,
{
    let cs = chars_of(key);
    let n = cs.len();
    if n == 0 {
        return None;
    }
    let mut parts: Vec<String> = Vec::new();
    let mut cur: Vec<char> = Vec::new();
    let mut i: usize = 0;
    proof {
        assert(cs@.take(0) =~= Seq::<char>::empty());
        assert(views(parts@) + seq![cur@] =~= split_dots(cs@.take(0)));
    }
    while i < n
        invariant
            n == cs@.len(),
            cs@ == key@,
            i <= n,
            views(parts@) + seq![cur@] == split_dots(cs@.take(i as int)),
        decreases n - i,
    {
        let c = cs[i];
        let ghost before = split_dots(cs@.take(i as int));
        proof {
            assert(cs@.take(i + 1).drop_last() =~= cs@.take(i as int));
            assert(cs@.take(i + 1).last() == c);
        }
        if c == '.' {
            let part = string_of(cur.as_slice());
            parts.push(part);
            cur = Vec::new();
            proof {
                assert(views(parts@) + seq![cur@] =~= before.push(Seq::empty()));
            }
        } else {
            cur.push(c);
            proof {
                assert(views(parts@) + seq![cur@] =~= before.update(
                    before.len() - 1,
                    before.last().push(c),
                ));
            }
        }
        i = i + 1;
    }
    let last = string_of(cur.as_slice());
    parts.push(last);
    proof {
        assert(cs@.take(n as int) =~= cs@);
        assert(views(parts@) =~= split_dots(key@));
    }
    let m = parts.len();
    let mut j: usize = 0;
    while j < m
        invariant
            m == parts@.len(),
            views(parts@) == split_dots(key@),
            j <= m,
            forall|k: int| 0 <= k < j ==> (#[trigger] split_dots(key@)[k]).len() > 0,
        decreases m - j,
    {
        let pc = chars_of(parts[j].as_str());
        if pc.len() == 0 {
            proof {
                assert(split_dots(key@)[j as int].len() == 0);
            }
            return None;
        }
        j = j + 1;
    }
    Some(parts)
}

// ---------------------------------------------------------------------
// Paths through tables
// ---------------------------------------------------------------------
/// `v` is present and a table.
pub open spec fn is_table_at(v: Option<ConfigValue>) -> bool {
    v matches Some(ConfigValue::Table(_))
}

/// Viewing through a reference.
pub open spec fn deref_opt(r: Option<&ConfigValue>) -> Option<ConfigValue> {
    match r {
        Some(v) => Some(*v),
        None => None,
    }
}

proof fn lemma_get_path_concat(t: ConfigTable, p: Seq<Seq<char>>, q: Seq<Seq<char>>)
    requires
        p.len() >= 1,
        q.len() >= 1,
    ensures
        get_path(t, p + q) == match get_path(t, p) {
            Some(v) => get_below(v, q),
            None => None,
        },
    decreases p.len(),
{
    let pq = p + q;
    assert(pq[0] == p[0]);
    if p.len() == 1 {
        assert(pq.drop_first() =~= q);
    } else {
        assert(pq.drop_first() =~= p.drop_first() + q);
        match lookup(t.entries@, p[0]) {
            Some(ConfigValue::Table(sub)) => {
                lemma_get_path_concat(sub, p.drop_first(), q);
            },
            _ => {},
        }
    }
}

proof fn lemma_take_succ(ps: Seq<Seq<char>>, i: int)
    requires
        0 <= i < ps.len(),
    ensures
        ps.take(i + 1) == ps.take(i) + seq![ps[i]],
{
    assert(ps.take(i + 1) =~= ps.take(i) + seq![ps[i]]);
}

fn get_in<'a>(t: &'a ConfigTable, parts: &Vec<String>) -> (r: Option<&'a ConfigValue>)
    requires
        table_wf(*t),
        parts@.len() >= 1,
    ensures
        deref_opt(r) == get_path(*t, views(parts@)),
{
    let ghost ps = views(parts@);
    let n = parts.len();
    let mut table: &ConfigTable = t;
    let mut i: usize = 0;
    while i + 1 < n
        invariant
            n == parts@.len(),
            ps == views(parts@),
            n >= 1,
            i + 1 <= n,
            table_wf(*table),
            i == 0 ==> *table == *t,
            i > 0 ==> get_path(*t, ps.take(i as int)) == Some(ConfigValue::Table(*table)),
        decreases n - i,
    {
        proof {
            lemma_take_succ(ps, i as int);
            if i > 0 {
                lemma_get_path_concat(*t, ps.take(i as int), seq![ps[i as int]]);
            } else {
                assert(ps.take(1) =~= seq![ps[0]]);
            }
        }
        match find_key(&table.entries, parts[i].as_str()) {
            Some(j) => {
                proof {
                    lemma_lookup_at(table.entries@, j as int);
                }
                match &table.entries[j].1 {
                    ConfigValue::Table(sub) => {
                        proof {
                            lemma_child_wf(*table, ps[i as int]);
                        }
                        table = sub;
                    },
                    _ => {
                        proof {
                            assert(ps =~= ps.take(i + 1) + ps.skip(i + 1));
                            lemma_get_path_concat(*t, ps.take(i + 1), ps.skip(i + 1));
                        }
                        return None;
                    },
                }
            },
            None => {
                proof {
                    lemma_lookup_absent(table.entries@, ps[i as int]);
                    assert(ps =~= ps.take(i + 1) + ps.skip(i + 1));
                    lemma_get_path_concat(*t, ps.take(i + 1), ps.skip(i + 1));
                }
                return None;
            },
        }
        i = i + 1;
    }
    proof {
        lemma_take_succ(ps, i as int);
        assert(ps.take(n as int) =~= ps);
        if i > 0 {
            lemma_get_path_concat(*t, ps.take(i as int), seq![ps[i as int]]);
        } else {
            assert(ps =~= seq![ps[0]]);
        }
    }
    match find_key(&table.entries, parts[i].as_str()) {
        Some(j) => {
            proof {
                lemma_lookup_at(table.entries@, j as int);
            }
            Some(&table.entries[j].1)
        },
        None => {
            proof {
                lemma_lookup_absent(table.entries@, ps[i as int]);
            }
            None
        },
    }
}

/// Walking path `ps` meets a value that is not a table at its `j`-th
/// prefix, before the last part: a value cannot be stored below it.
pub open spec fn blocks(t: ConfigTable, ps: Seq<Seq<char>>, j: int) -> bool {
    &&& 0 <= j < ps.len() - 1
    &&& get_path(t, ps.take(j + 1)) is Some
    &&& !is_table_at(get_path(t, ps.take(j + 1)))
}

fn find_blocked(t: &ConfigTable, parts: &Vec<String>) -> (r: Option<usize>)
    requires
        table_wf(*t),
        parts@.len() >= 1,
    ensures
        r matches Some(j) ==> blocks(*t, views(parts@), j as int),
        r is None ==> forall|j: int| !blocks(*t, views(parts@), j),
{
    let ghost ps = views(parts@);
    let n = parts.len();
    let mut table: &ConfigTable = t;
    let mut i: usize = 0;
    while i + 1 < n
        invariant
            n == parts@.len(),
            ps == views(parts@),
            n >= 1,
            i + 1 <= n,
            table_wf(*table),
            i == 0 ==> *table == *t,
            i > 0 ==> get_path(*t, ps.take(i as int)) == Some(ConfigValue::Table(*table)),
            forall|j: int| 0 <= j < i ==> is_table_at(#[trigger] get_path(*t, ps.take(j + 1))),
        decreases n - i,
    {
        proof {
            lemma_take_succ(ps, i as int);
            if i > 0 {
                lemma_get_path_concat(*t, ps.take(i as int), seq![ps[i as int]]);
            } else {
                assert(ps.take(1) =~= seq![ps[0]]);
            }
        }
        match find_key(&table.entries, parts[i].as_str()) {
            Some(j) => {
                proof {
                    lemma_lookup_at(table.entries@, j as int);
                }
                match &table.entries[j].1 {
                    ConfigValue::Table(sub) => {
                        proof {
                            lemma_child_wf(*table, ps[i as int]);
                        }
                        table = sub;
                    },
                    _ => {
                        return Some(i);
                    },
                }
            },
            None => {
                proof {
                    lemma_lookup_absent(table.entries@, ps[i as int]);
                    assert forall|j: int| !blocks(*t, ps, j) by {
                        if i <= j < ps.len() - 1 {
                            assert(ps.take(j + 1) =~= ps.take(i + 1) + ps.take(j + 1).skip(i + 1));
                            if j > i {
                                lemma_get_path_concat(*t, ps.take(i + 1), ps.take(j + 1).skip(i + 1));
                            }
                        }
                    }
                }
                return None;
            },
        }
        i = i + 1;
    }
    None
}

/// What storing `v` at path `ps` does to a table, as observed through
/// `get_path`: the path now holds `v`; every path that parts ways with
/// `ps` reads as before; every proper prefix of `ps` is a table; every
/// path below `ps` reads from inside `v`.
pub open spec fn set_effect(old_t: ConfigTable, new_t: ConfigTable, ps: Seq<Seq<char>>, v: ConfigValue) -> bool {
    &&& get_path(new_t, ps) == Some(v)
    &&& forall|q: Seq<Seq<char>>| diverges(q, ps) ==> #[trigger] get_path(new_t, q) == get_path(old_t, q)
    &&& forall|k: int| 1 <= k < ps.len() ==> is_table_at(#[trigger] get_path(new_t, ps.take(k)))
    &&& forall|q: Seq<Seq<char>>| strictly_extends(q, ps) ==> #[trigger] get_path(new_t, q) == get_below(v, q.skip(ps.len() as int))
}

proof fn lemma_same_lookup_same_path(a: ConfigTable, b: ConfigTable, q: Seq<Seq<char>>)
    requires
        q.len() >= 1,
        lookup(a.entries@, q[0]) == lookup(b.entries@, q[0]),
    ensures
        get_path(a, q) == get_path(b, q),
{
}

proof fn lemma_set_base(old_t: ConfigTable, new_t: ConfigTable, ps: Seq<Seq<char>>, v: ConfigValue)
    requires
        ps.len() == 1,
        lookup(new_t.entries@, ps[0]) == Some(v),
        forall|k: Seq<char>| k != ps[0] ==> lookup(new_t.entries@, k) == lookup(old_t.entries@, k),
    ensures
        set_effect(old_t, new_t, ps, v),
{
    assert forall|q: Seq<Seq<char>>| diverges(q, ps) implies #[trigger] get_path(new_t, q) == get_path(old_t, q) by {
        assert(q[0] != ps[0]);
        lemma_same_lookup_same_path(new_t, old_t, q);
    }
    assert forall|q: Seq<Seq<char>>| strictly_extends(q, ps) implies #[trigger] get_path(new_t, q) == get_below(v, q.skip(ps.len() as int)) by {
        assert(q.take(1) == ps);
        assert(q[0] == q.take(1)[0]);
        assert(q[0] == ps[0]);
        assert(q.drop_first() =~= q.skip(1));
        assert(lookup(new_t.entries@, q[0]) == Some(v));
        match v {
            ConfigValue::Table(sub) => {
                assert(get_path(new_t, q) == get_path(sub, q.drop_first()));
                assert(get_below(v, q.skip(1)) == get_path(sub, q.skip(1)));
            },
            _ => {
                assert(get_path(new_t, q) is None);
            },
        }
        assert(q.skip(ps.len() as int) == q.skip(1));
    }
}

proof fn lemma_set_lift(
    old_t: ConfigTable,
    new_t: ConfigTable,
    old_sub: ConfigTable,
    new_sub: ConfigTable,
    ps: Seq<Seq<char>>,
    v: ConfigValue,
)
    requires
        ps.len() >= 2,
        lookup(old_t.entries@, ps[0]) == Some(ConfigValue::Table(old_sub)) || (lookup(old_t.entries@, ps[0]) is None && old_sub.entries@.len() == 0),
        lookup(new_t.entries@, ps[0]) == Some(ConfigValue::Table(new_sub)),
        forall|k: Seq<char>| k != ps[0] ==> lookup(new_t.entries@, k) == lookup(old_t.entries@, k),
        set_effect(old_sub, new_sub, ps.drop_first(), v),
    ensures
        set_effect(old_t, new_t, ps, v),
{
    let rest = ps.drop_first();
    assert forall|q: Seq<Seq<char>>| diverges(q, ps) implies #[trigger] get_path(new_t, q) == get_path(old_t, q) by {
        if q[0] != ps[0] {
            lemma_same_lookup_same_path(new_t, old_t, q);
        } else {
            let m = choose|m: int| 0 <= m < q.len() && m < ps.len() && q[m] != ps[m];
            assert(m >= 1);
            assert(q.drop_first()[m - 1] == q[m]);
            assert(rest[m - 1] == ps[m]);
            assert(diverges(q.drop_first(), rest));
            assert(get_path(new_sub, q.drop_first()) == get_path(old_sub, q.drop_first()));
            if lookup(old_t.entries@, ps[0]) is None {
                lemma_lookup_absent(old_sub.entries@, q.drop_first()[0]);
            }
        }
    }
    assert forall|k: int| 1 <= k < ps.len() implies is_table_at(#[trigger] get_path(new_t, ps.take(k))) by {
        if k >= 2 {
            assert(ps.take(k).drop_first() =~= rest.take(k - 1));
            assert(is_table_at(get_path(new_sub, rest.take(k - 1))));
        }
    }
    assert forall|q: Seq<Seq<char>>| strictly_extends(q, ps) implies #[trigger] get_path(new_t, q) == get_below(v, q.skip(ps.len() as int)) by {
        assert(q[0] == q.take(ps.len() as int)[0]);
        assert(q.drop_first().take(rest.len() as int) =~= rest) by {
            assert forall|i: int| 0 <= i < rest.len() implies q.drop_first().take(rest.len() as int)[i] == rest[i] by {
                assert(q.take(ps.len() as int)[i + 1] == ps[i + 1]);
            }
        }
        assert(strictly_extends(q.drop_first(), rest));
        assert(q.drop_first().skip(rest.len() as int) =~= q.skip(ps.len() as int));
        assert(q[0] == ps[0]);
        assert(get_path(new_t, q) == get_path(new_sub, q.drop_first()));
        assert(get_path(new_sub, q.drop_first()) == get_below(v, q.drop_first().skip(rest.len() as int)));
    }
    assert(get_path(new_t, ps) == get_path(new_sub, rest));
}

proof fn lemma_unblocked_child(t: ConfigTable, sub: ConfigTable, ps: Seq<Seq<char>>)
    requires
        ps.len() >= 2,
        lookup(t.entries@, ps[0]) == Some(ConfigValue::Table(sub)),
        forall|j: int| !blocks(t, ps, j),
    ensures
        forall|j: int| !blocks(sub, ps.drop_first(), j),
{
    assert forall|j: int| !blocks(sub, ps.drop_first(), j) by {
        if 0 <= j < ps.len() - 2 {
            assert(!blocks(t, ps, j + 1));
            assert(ps.take(j + 2).drop_first() =~= ps.drop_first().take(j + 1));
        }
    }
}

proof fn lemma_empty_unblocked(sub: ConfigTable, ps: Seq<Seq<char>>)
    requires
        sub.entries@.len() == 0,
    ensures
        forall|j: int| !blocks(sub, ps, j),
        table_wf(sub),
{
    assert forall|j: int| !blocks(sub, ps, j) by {
        if 0 <= j < ps.len() - 1 {
            lemma_lookup_absent(sub.entries@, ps.take(j + 1)[0]);
        }
    }
    assert forall|q: Seq<Seq<char>>| sorted_if_table(#[trigger] get_path(sub, q)) by {
        if q.len() > 0 {
            lemma_lookup_absent(sub.entries@, q[0]);
        }
    }
}

fn set_in(t: &mut ConfigTable, parts: &Vec<String>, i: usize, value: ConfigValue)
    requires
        i < parts@.len(),
        table_wf(*old(t)),
        value_wf(value),
        forall|j: int| !blocks(*old(t), views(parts@).skip(i as int), j),
    ensures
        table_wf(*final(t)),
        set_effect(*old(t), *final(t), views(parts@).skip(i as int), value),
    decreases parts@.len() - i,
{
    let ghost ps = views(parts@).skip(i as int);
    let ghost old_t = *t;
    proof {
        assert(ps[0] == parts@[i as int]@);
    }
    let found = find_key(&t.entries, parts[i].as_str());
    if i == parts.len() - 1 {
        let ghost vv = value;
        let key = parts[i].clone();
        match found {
            Some(j) => {
                t.entries.remove(j);
                t.entries.insert(j, (key, value));
                proof {
                    assert(t.entries@ =~= old_t.entries@.update(j as int, (key, vv)));
                    lemma_update(old_t.entries@, j as int, key, vv);
                }
            },
            None => {
                let pos = insert_position(&t.entries, parts[i].as_str());
                t.entries.insert(pos, (key, value));
                proof {
                    lemma_insert(old_t.entries@, pos as int, key, vv);
                }
            },
        }
        proof {
            lemma_wf_after_change(old_t, *t, ps[0], vv);
            lemma_set_base(old_t, *t, ps, vv);
        }
    } else {
        proof {
            assert(views(parts@).skip(i + 1) =~= ps.drop_first());
        }
        match found {
            Some(j) => {
                proof {
                    lemma_lookup_at(old_t.entries@, j as int);
                }
                let (key, child) = t.entries.remove(j);
                match child {
                    ConfigValue::Table(mut sub) => {
                        let ghost old_sub = sub;
                        proof {
                            lemma_child_wf(old_t, ps[0]);
                            lemma_unblocked_child(old_t, old_sub, ps);
                        }
                        set_in(&mut sub, parts, i + 1, value);
                        let ghost new_sub = sub;
                        t.entries.insert(j, (key, ConfigValue::Table(sub)));
                        proof {
                            assert(t.entries@ =~= old_t.entries@.update(
                                j as int,
                                (key, ConfigValue::Table(new_sub)),
                            ));
                            lemma_update(old_t.entries@, j as int, key, ConfigValue::Table(new_sub));
                            lemma_wf_after_change(old_t, *t, ps[0], ConfigValue::Table(new_sub));
                            lemma_set_lift(old_t, *t, old_sub, new_sub, ps, value);
                        }
                    },
                    other => {
                        proof {
                            assert(ps.take(1) =~= seq![ps[0]]);
                            assert(blocks(old_t, ps, 0));
                        }
                        t.entries.insert(j, (key, other));
                    },
                }
            },
            None => {
                let mut sub = ConfigTable::new();
                let ghost old_sub = sub;
                proof {
                    lemma_empty_unblocked(old_sub, ps.drop_first());
                }
                set_in(&mut sub, parts, i + 1, value);
                let ghost new_sub = sub;
                let pos = insert_position(&t.entries, parts[i].as_str());
                let key = parts[i].clone();
                t.entries.insert(pos, (key, ConfigValue::Table(sub)));
                proof {
                    lemma_lookup_absent(old_t.entries@, ps[0]);
                    lemma_insert(old_t.entries@, pos as int, key, ConfigValue::Table(new_sub));
                    lemma_wf_after_change(old_t, *t, ps[0], ConfigValue::Table(new_sub));
                    lemma_set_lift(old_t, *t, old_sub, new_sub, ps, value);
                }
            },
        }
    }
}

proof fn lemma_remove(es: Seq<(String, ConfigValue)>, j: int)
    requires
        sorted_strict(es),
        0 <= j < es.len(),
    ensures
        sorted_strict(es.remove(j)),
        lookup(es.remove(j), es[j].0@) is None,
        forall|k: Seq<char>| k != es[j].0@ ==> lookup(es.remove(j), k) == lookup(es, k),
{
    let es2 = es.remove(j);
    assert forall|a: int, b: int| 0 <= a < b < es2.len() implies key_lt(
        #[trigger] es2[a].0@,
        #[trigger] es2[b].0@,
    ) by {
        let a0 = if a < j { a } else { a + 1 };
        let b0 = if b < j { b } else { b + 1 };
        assert(es2[a] == es[a0]);
        assert(es2[b] == es[b0]);
        assert(key_lt(es[a0].0@, es[b0].0@));
    }
    assert forall|i: int| 0 <= i < es2.len() implies (#[trigger] es2[i]).0@ != es[j].0@ by {
        let i0 = if i < j { i } else { i + 1 };
        assert(es2[i] == es[i0]);
        if i0 < j {
            assert(key_lt(es[i0].0@, es[j].0@));
            lemma_key_lt_asym(es[i0].0@, es[j].0@);
        } else {
            assert(key_lt(es[j].0@, es[i0].0@));
            lemma_key_lt_asym(es[j].0@, es[i0].0@);
        }
    }
    lemma_lookup_absent(es2, es[j].0@);
    assert forall|k: Seq<char>| k != es[j].0@ implies lookup(es2, k) == lookup(es, k) by {
        lemma_key_index(es, k);
        lemma_key_index(es2, k);
        if key_index(es, k) >= 0 {
            let i = key_index(es, k);
            lemma_lookup_at(es, i);
            assert(i != j);
            let i2 = if i < j { i } else { i - 1 };
            assert(es2[i2] == es[i]);
            lemma_lookup_at(es2, i2);
        } else {
            assert forall|i: int| 0 <= i < es2.len() implies (#[trigger] es2[i]).0@ != k by {
                let i0 = if i < j { i } else { i + 1 };
                assert(es2[i] == es[i0]);
            }
        }
    }
}

/// Entry count of the table `v` holds (zero for anything else).
pub open spec fn table_size(v: Option<ConfigValue>) -> int {
    match v {
        Some(ConfigValue::Table(t)) => t.entries@.len() as int,
        _ => 0,
    }
}

/// Entry count of the table at the `m`-th prefix of `ps` (`m == 0` is `t`).
pub open spec fn size_at(t: ConfigTable, ps: Seq<Seq<char>>, m: int) -> int {
    if m == 0 {
        t.entries@.len() as int
    } else {
        table_size(get_path(t, ps.take(m)))
    }
}

/// Removing the last part of `ps` empties the tables at prefixes `k`
/// and deeper: each of them held a single entry.
pub open spec fn pruned(t: ConfigTable, ps: Seq<Seq<char>>, k: int) -> bool {
    forall|m: int| k <= m < ps.len() ==> #[trigger] size_at(t, ps, m) == 1
}

/// What removing the value at path `ps` does to a table, observed
/// through `get_path`: the path and everything below it is gone; paths
/// that part ways with `ps` read as before; a proper prefix of `ps` is
/// gone exactly when removal left its table empty, and is a table
/// otherwise.
pub open spec fn unset_effect(old_t: ConfigTable, new_t: ConfigTable, ps: Seq<Seq<char>>) -> bool {
    &&& get_path(new_t, ps) is None
    &&& forall|q: Seq<Seq<char>>| diverges(q, ps) ==> #[trigger] get_path(new_t, q) == get_path(old_t, q)
    &&& forall|q: Seq<Seq<char>>| strictly_extends(q, ps) ==> #[trigger] get_path(new_t, q) is None
    &&& forall|k: int| 1 <= k < ps.len() ==> (#[trigger] get_path(new_t, ps.take(k)) is None <==> pruned(old_t, ps, k))
    &&& forall|k: int| 1 <= k < ps.len() && !pruned(old_t, ps, k) ==> is_table_at(#[trigger] get_path(new_t, ps.take(k)))
}

fn remove_in(t: &mut ConfigTable, parts: &Vec<String>, i: usize)
    requires
        i < parts@.len(),
        table_wf(*old(t)),
        get_path(*old(t), views(parts@).skip(i as int)) is Some,
    ensures
        table_wf(*final(t)),
        unset_effect(*old(t), *final(t), views(parts@).skip(i as int)),
        final(t).entries@.len() == 0 <==> pruned(*old(t), views(parts@).skip(i as int), 0),
    decreases parts@.len() - i,
{
    let ghost ps = views(parts@).skip(i as int);
    let ghost old_t = *t;
    proof {
        assert(ps[0] == parts@[i as int]@);
    }
    let found = find_key(&t.entries, parts[i].as_str());
    let j = match found {
        Some(j) => j,
        None => {
            proof {
                lemma_lookup_absent(old_t.entries@, ps[0]);
            }
            return;
        },
    };
    proof {
        lemma_lookup_at(old_t.entries@, j as int);
    }
    if i == parts.len() - 1 {
        t.entries.remove(j);
        proof {
            lemma_remove(old_t.entries@, j as int);
            let new_t = *t;
            assert forall|q: Seq<Seq<char>>| sorted_if_table(#[trigger] get_path(new_t, q)) by {
                if q.len() > 0 && q[0] != ps[0] {
                    lemma_same_lookup_same_path(new_t, old_t, q);
                }
            }
            assert forall|q: Seq<Seq<char>>| diverges(q, ps) implies #[trigger] get_path(new_t, q) == get_path(old_t, q) by {
                lemma_same_lookup_same_path(new_t, old_t, q);
            }
            assert forall|q: Seq<Seq<char>>| strictly_extends(q, ps) implies #[trigger] get_path(new_t, q) is None by {
                assert(q.take(1) == ps);
                assert(q[0] == q.take(1)[0]);
            }
            assert(size_at(old_t, ps, 0) == old_t.entries@.len());
        }
    } else {
        let ghost rest = ps.drop_first();
        proof {
            assert(views(parts@).skip(i + 1) =~= rest);
        }
        let (key, child) = t.entries.remove(j);
        match child {
            ConfigValue::Table(mut sub) => {
                let ghost old_sub = sub;
                proof {
                    lemma_child_wf(old_t, ps[0]);
                    assert(get_path(old_sub, rest) == get_path(old_t, ps));
                }
                remove_in(&mut sub, parts, i + 1);
                let ghost new_sub = sub;
                let emptied = sub.entries.len() == 0;
                proof {
                    assert forall|m: int| 0 <= m < rest.len() implies #[trigger] size_at(old_sub, rest, m) == size_at(old_t, ps, m + 1) by {
                        if m == 0 {
                            assert(ps.take(1) =~= seq![ps[0]]);
                        } else {
                            assert(ps.take(m + 1).drop_first() =~= rest.take(m));
                        }
                    }
                    assert(pruned(old_sub, rest, 0) <==> pruned(old_t, ps, 1)) by {
                        if pruned(old_sub, rest, 0) {
                            assert forall|m: int| 1 <= m < ps.len() implies #[trigger] size_at(old_t, ps, m) == 1 by {
                                assert(size_at(old_sub, rest, m - 1) == 1);
                            }
                        }
                        if pruned(old_t, ps, 1) {
                            assert forall|m: int| 0 <= m < rest.len() implies #[trigger] size_at(old_sub, rest, m) == 1 by {
                                assert(size_at(old_t, ps, m + 1) == 1);
                            }
                        }
                    }
                }
                if emptied {
                    proof {
                        lemma_remove(old_t.entries@, j as int);
                        let new_t = *t;
                        assert forall|q: Seq<Seq<char>>| sorted_if_table(#[trigger] get_path(new_t, q)) by {
                            if q.len() > 0 && q[0] != ps[0] {
                                lemma_same_lookup_same_path(new_t, old_t, q);
                            }
                        }
                        assert forall|q: Seq<Seq<char>>| diverges(q, ps) implies #[trigger] get_path(new_t, q) == get_path(old_t, q) by {
                            if q[0] != ps[0] {
                                lemma_same_lookup_same_path(new_t, old_t, q);
                            } else {
                                let m = choose|m: int| 0 <= m < q.len() && m < ps.len() && q[m] != ps[m];
                                assert(q.drop_first()[m - 1] == q[m]);
                                assert(rest[m - 1] == ps[m]);
                                assert(diverges(q.drop_first(), rest));
                                assert(get_path(new_sub, q.drop_first()) == get_path(old_sub, q.drop_first()));
                                lemma_lookup_absent(new_sub.entries@, q.drop_first()[0]);
                            }
                        }
                        assert forall|q: Seq<Seq<char>>| strictly_extends(q, ps) implies #[trigger] get_path(new_t, q) is None by {
                            assert(q[0] == q.take(ps.len() as int)[0]);
                        }
                        assert forall|k: int| 1 <= k < ps.len() implies (#[trigger] get_path(new_t, ps.take(k)) is None <==> pruned(old_t, ps, k)) by {
                            assert(ps.take(k)[0] == ps[0]);
                            assert forall|m: int| k <= m < ps.len() implies #[trigger] size_at(old_t, ps, m) == 1 by {
                                assert(size_at(old_sub, rest, m - 1) == 1);
                            }
                        }
                        assert(size_at(old_t, ps, 0) == old_t.entries@.len());
                        if t.entries@.len() == 0 {
                            assert forall|m: int| 0 <= m < ps.len() implies #[trigger] size_at(old_t, ps, m) == 1 by {
                                if m > 0 {
                                    assert(size_at(old_sub, rest, m - 1) == 1);
                                }
                            }
                        }
                    }
                } else {
                    t.entries.insert(j, (key, ConfigValue::Table(sub)));
                    proof {
                        assert(t.entries@ =~= old_t.entries@.update(
                            j as int,
                            (key, ConfigValue::Table(new_sub)),
                        ));
                        lemma_update(old_t.entries@, j as int, key, ConfigValue::Table(new_sub));
                        lemma_wf_after_change(old_t, *t, ps[0], ConfigValue::Table(new_sub));
                        let new_t = *t;
                        assert forall|q: Seq<Seq<char>>| diverges(q, ps) implies #[trigger] get_path(new_t, q) == get_path(old_t, q) by {
                            if q[0] != ps[0] {
                                lemma_same_lookup_same_path(new_t, old_t, q);
                            } else {
                                let m = choose|m: int| 0 <= m < q.len() && m < ps.len() && q[m] != ps[m];
                                assert(q.drop_first()[m - 1] == q[m]);
                                assert(rest[m - 1] == ps[m]);
                                assert(diverges(q.drop_first(), rest));
                                assert(get_path(new_sub, q.drop_first()) == get_path(old_sub, q.drop_first()));
                            }
                        }
                        assert forall|q: Seq<Seq<char>>| strictly_extends(q, ps) implies #[trigger] get_path(new_t, q) is None by {
                            assert(q[0] == q.take(ps.len() as int)[0]);
                            assert(q.drop_first().take(rest.len() as int) =~= rest) by {
                                assert forall|ii: int| 0 <= ii < rest.len() implies q.drop_first().take(rest.len() as int)[ii] == rest[ii] by {
                                    assert(q.take(ps.len() as int)[ii + 1] == ps[ii + 1]);
                                }
                            }
                            assert(strictly_extends(q.drop_first(), rest));
                            assert(get_path(new_t, q) == get_path(new_sub, q.drop_first()));
                        }
                        assert forall|k: int| 1 <= k < ps.len() implies (#[trigger] get_path(new_t, ps.take(k)) is None <==> pruned(old_t, ps, k)) by {
                            assert(ps.take(k)[0] == ps[0]);
                            if k >= 2 {
                                assert(ps.take(k).drop_first() =~= rest.take(k - 1));
                                assert(get_path(new_t, ps.take(k)) == get_path(new_sub, rest.take(k - 1)));
                                assert(pruned(old_sub, rest, k - 1) <==> pruned(old_t, ps, k)) by {
                                    if pruned(old_sub, rest, k - 1) {
                                        assert forall|m: int| k <= m < ps.len() implies #[trigger] size_at(old_t, ps, m) == 1 by {
                                            assert(size_at(old_sub, rest, m - 1) == 1);
                                        }
                                    }
                                    if pruned(old_t, ps, k) {
                                        assert forall|m: int| k - 1 <= m < rest.len() implies #[trigger] size_at(old_sub, rest, m) == 1 by {
                                            assert(size_at(old_t, ps, m + 1) == 1);
                                        }
                                    }
                                }
                            } else {
                                assert(ps.take(1) =~= seq![ps[0]]);
                            }
                        }
                        assert forall|k: int| 1 <= k < ps.len() && !pruned(old_t, ps, k) implies is_table_at(#[trigger] get_path(new_t, ps.take(k))) by {
                            assert(ps.take(k)[0] == ps[0]);
                            if k >= 2 {
                                assert(ps.take(k).drop_first() =~= rest.take(k - 1));
                                assert(get_path(new_t, ps.take(k)) == get_path(new_sub, rest.take(k - 1)));
                                if pruned(old_sub, rest, k - 1) {
                                    assert forall|m: int| k <= m < ps.len() implies #[trigger] size_at(old_t, ps, m) == 1 by {
                                        assert(size_at(old_sub, rest, m - 1) == 1);
                                    }
                                }
                            } else {
                                assert(ps.take(1) =~= seq![ps[0]]);
                            }
                        }
                        assert(get_path(new_t, ps) == get_path(new_sub, rest));
                        assert(size_at(old_t, ps, 0) == old_t.entries@.len());
                        assert(!pruned(old_t, ps, 0)) by {
                            if pruned(old_t, ps, 0) {
                                assert forall|m: int| 0 <= m < rest.len() implies #[trigger] size_at(old_sub, rest, m) == 1 by {
                                    assert(size_at(old_t, ps, m + 1) == 1);
                                }
                            }
                        }
                    }
                }
            },
            other => {
                proof {
                    assert(false);
                }
                t.entries.insert(j, (key, other));
            },
        }
    }
}

// ---------------------------------------------------------------------
// Listing
// ---------------------------------------------------------------------
/// The dotted key of `k` under `prefix` (no dot under the empty prefix).
pub open spec fn dotted(prefix: Seq<char>, k: Seq<char>) -> Seq<char> {
    if prefix.len() == 0 {
        k
    } else {
        prefix + seq!['.'] + k
    }
}

/// The leaves of the entries, depth first in entry order, each with its
/// dotted key. Tables are descended into; every other value (arrays
/// included) is a leaf.
pub open spec fn flatten_spec(es: Seq<(String, ConfigValue)>, prefix: Seq<char>) -> Seq<(Seq<char>, ConfigValue)>
    decreases es,
{
    if es.len() == 0 {
        Seq::empty()
    } else {
        let key = dotted(prefix, es[0].0@);
        let head = match es[0].1 {
            ConfigValue::Table(t) => flatten_spec(t.entries@, key),
            other => seq![(key, other)],
        };
        head + flatten_spec(es.drop_first(), prefix)
    }
}

proof fn lemma_flatten_append(a: Seq<(String, ConfigValue)>, b: Seq<(String, ConfigValue)>, prefix: Seq<char>)
    ensures
        flatten_spec(a + b, prefix) == flatten_spec(a, prefix) + flatten_spec(b, prefix),
    decreases a.len(),
{
    if a.len() == 0 {
        assert(a + b =~= b);
    } else {
        assert((a + b)[0] == a[0]);
        assert((a + b).drop_first() =~= a.drop_first() + b);
        lemma_flatten_append(a.drop_first(), b, prefix);
    }
}

/// Views of listed entries.
pub open spec fn flat_view(s: Seq<(String, &ConfigValue)>) -> Seq<(Seq<char>, ConfigValue)> {
    s.map_values(|p: (String, &ConfigValue)| (p.0@, *p.1))
}

fn dotted_key(prefix: &str, k: &str) -> (r: String)
    ensures
        r@ == dotted(prefix@, k@),
{
    let pc = chars_of(prefix);
    if pc.len() == 0 {
        owned(k)
    } else {
        proof {
            reveal_strlit(".");
            assert("."@ =~= seq!['.']);
        }
        crate::text::concat3(prefix, ".", k)
    }
}

fn flatten_into<'a>(es: &'a Vec<(String, ConfigValue)>, prefix: &str, out: &mut Vec<(String, &'a ConfigValue)>)
    ensures
        flat_view(final(out)@) == flat_view(old(out)@) + flatten_spec(es@, prefix@),
    decreases es@,
{
    let n = es.len();
    let mut i: usize = 0;
    proof {
        assert(es@.take(0) =~= Seq::<(String, ConfigValue)>::empty());
        assert(flat_view(out@) =~= flat_view(old(out)@) + flatten_spec(es@.take(0), prefix@));
    }
    while i < n
        invariant
            n == es@.len(),
            i <= n,
            flat_view(out@) == flat_view(old(out)@) + flatten_spec(es@.take(i as int), prefix@),
        decreases n - i,
    {
        let ghost before = out@;
        let key = dotted_key(prefix, es[i].0.as_str());
        let ghost one = seq![es@[i as int]];
        proof {
            assert(es@.take(i + 1) =~= es@.take(i as int) + one);
            lemma_flatten_append(es@.take(i as int), one, prefix@);
            assert(one[0] == es@[i as int]);
            assert(one.drop_first() =~= Seq::<(String, ConfigValue)>::empty());
        }
        match &es[i].1 {
            ConfigValue::Table(t) => {
                proof {
                    assert(decreases_to!(es@ => t.entries@)) by {
                        broadcast use vstd::std_specs::vec::axiom_vec_decreases_to_view, vstd::seq::axiom_seq_index_decreases;
                        assert(decreases_to!(es@ => es@[i as int]));
                    }
                }
                flatten_into(&t.entries, key.as_str(), out);
                proof {
                    reveal_with_fuel(flatten_spec, 2);
                    assert(flatten_spec(one, prefix@) =~= flatten_spec(t.entries@, key@));
                }
            },
            other => {
                out.push((key, other));
                proof {
                    reveal_with_fuel(flatten_spec, 2);
                    assert(flatten_spec(one, prefix@) =~= seq![(key@, *other)]);
                    assert(flat_view(out@) =~= flat_view(before) + seq![(key@, *other)]);
                }
            },
        }
        i = i + 1;
    }
    proof {
        assert(es@.take(n as int) =~= es@);
    }
}

/// Keys never decrease along `s`.
pub open spec fn sorted_by_key(s: Seq<(Seq<char>, ConfigValue)>) -> bool {
    forall|a: int, b: int| 0 <= a < b < s.len() ==> !key_lt(#[trigger] s[b].0, #[trigger] s[a].0)
}

/// `out` is `src` reordered by `perm` (`out[j] == src[perm[j]]`), and
/// entries with equal keys keep their relative order.
pub open spec fn stable_reorder(perm: Seq<int>, src: Seq<(Seq<char>, ConfigValue)>, out: Seq<(Seq<char>, ConfigValue)>) -> bool {
    &&& perm.len() == src.len()
    &&& out.len() == src.len()
    &&& forall|j: int| 0 <= j < perm.len() ==> 0 <= #[trigger] perm[j] < src.len()
    &&& forall|a: int, b: int| 0 <= a < b < perm.len() ==> #[trigger] perm[a] != #[trigger] perm[b]
    &&& forall|j: int| 0 <= j < out.len() ==> #[trigger] out[j] == src[perm[j]]
    &&& forall|a: int, b: int| 0 <= a < b < out.len() && (#[trigger] out[a]).0 == (#[trigger] out[b]).0 ==> perm[a] < perm[b]
}

/// A stable reordering keeps every entry: `perm` is one-to-one into the
/// indices of `src`, so it reaches all of them.
proof fn lemma_reorder_keeps_all(perm: Seq<int>, src: Seq<(Seq<char>, ConfigValue)>, out: Seq<(Seq<char>, ConfigValue)>)
    requires
        stable_reorder(perm, src, out),
    ensures
        forall|x: (Seq<char>, ConfigValue)| src.contains(x) <==> out.contains(x),
{
    let n = src.len() as int;
    assert forall|i: int, j: int| 0 <= i < perm.len() && 0 <= j < perm.len() && i != j implies perm[i] != perm[j] by {
        if i < j {
            assert(perm[i] != perm[j]);
        } else {
            assert(perm[j] != perm[i]);
        }
    }
    assert(perm.no_duplicates());
    perm.unique_seq_to_set();
    lemma_int_range(0, n);
    assert(perm.to_set().subset_of(set_int_range(0, n))) by {
        assert forall|k: int| perm.to_set().contains(k) implies set_int_range(0, n).contains(k) by {
            let j = choose|j: int| 0 <= j < perm.len() && perm[j] == k;
            assert(0 <= perm[j] < n);
        }
    }
    lemma_subset_equality(perm.to_set(), set_int_range(0, n));
    assert forall|x: (Seq<char>, ConfigValue)| src.contains(x) implies out.contains(x) by {
        let k = choose|k: int| 0 <= k < src.len() && src[k] == x;
        assert(set_int_range(0, n).contains(k));
        assert(perm.to_set().contains(k));
        let j = choose|j: int| 0 <= j < perm.len() && perm[j] == k;
        assert(out[j] == src[perm[j]]);
    }
    assert forall|x: (Seq<char>, ConfigValue)| out.contains(x) implies src.contains(x) by {
        let j = choose|j: int| 0 <= j < out.len() && out[j] == x;
        assert(out[j] == src[perm[j]]);
    }
}

fn insertion_point<'a>(out: &Vec<(String, &'a ConfigValue)>, k: &str) -> (pos: usize)
    ensures
        pos <= out@.len(),
        forall|j: int| 0 <= j < pos ==> !key_lt(k@, (#[trigger] out@[j]).0@),
        pos < out@.len() ==> key_lt(k@, out@[pos as int].0@),
{
    let n = out.len();
    let mut i: usize = 0;
    while i < n
        invariant
            n == out@.len(),
            i <= n,
            forall|j: int| 0 <= j < i ==> !key_lt(k@, (#[trigger] out@[j]).0@),
        decreases n - i,
    {
        if key_less(k, out[i].0.as_str()) {
            return i;
        }
        i = i + 1;
    }
    i
}

proof fn lemma_lt_le(x: Seq<char>, y: Seq<char>, z: Seq<char>)
    requires
        key_lt(x, y),
        !key_lt(z, y),
    ensures
        key_lt(x, z),
{
    lemma_key_lt_total(y, z);
    if y != z {
        lemma_key_lt_trans(x, y, z);
    }
}

fn sort_by_key<'a>(v: Vec<(String, &'a ConfigValue)>) -> (r: Vec<(String, &'a ConfigValue)>)
    ensures
        sorted_by_key(flat_view(r@)),
        exists|perm: Seq<int>| stable_reorder(perm, flat_view(v@), flat_view(r@)),
{
    let ghost src = flat_view(v@);
    let mut rest = v;
    let mut out: Vec<(String, &'a ConfigValue)> = Vec::new();
    let ghost mut perm: Seq<int> = Seq::empty();
    let n = rest.len();
    let mut i: usize = 0;
    while i < n
        invariant
            src.len() == n,
            i <= n,
            rest@.len() == n - i,
            forall|j: int| 0 <= j < rest@.len() ==> flat_view(rest@)[j] == #[trigger] src[i + j],
            out@.len() == i,
            perm.len() == i,
            sorted_by_key(flat_view(out@)),
            forall|j: int| 0 <= j < perm.len() ==> 0 <= #[trigger] perm[j] < i,
            forall|a: int, b: int| 0 <= a < b < perm.len() ==> #[trigger] perm[a] != #[trigger] perm[b],
            forall|j: int| 0 <= j < out@.len() ==> #[trigger] flat_view(out@)[j] == src[perm[j]],
            forall|a: int, b: int| 0 <= a < b < out@.len() && (#[trigger] flat_view(out@)[a]).0 == (#[trigger] flat_view(out@)[b]).0 ==> perm[a] < perm[b],
        decreases n - i,
    {
        let ghost old_rest = rest@;
        let ghost fo = flat_view(out@);
        proof {
            let z: int = 0;
            assert(flat_view(rest@)[z] == src[i + z]);
        }
        let x = rest.remove(0);
        proof {
            assert forall|j: int| 0 <= j < rest@.len() implies flat_view(rest@)[j] == #[trigger] src[i + 1 + j] by {
                assert(rest@[j] == old_rest[j + 1]);
                assert(flat_view(old_rest)[j + 1] == src[i + (j + 1)]);
            }
        }
        let pos = insertion_point(&out, x.0.as_str());
        let ghost xv = (x.0@, *x.1);
        proof {
            assert forall|j: int| 0 <= j < pos implies !key_lt(xv.0, #[trigger] fo[j].0) by {
                assert(fo[j].0 == out@[j].0@);
            }
            if pos < out@.len() {
                assert(fo[pos as int].0 == out@[pos as int].0@);
            }
        }
        out.insert(pos, x);
        proof {
            let fo2 = flat_view(out@);
            let p2 = perm.insert(pos as int, i as int);
            assert(fo2 =~= fo.insert(pos as int, xv));
            assert(xv == src[i as int]);
            assert forall|b: int| pos < b < fo2.len() implies key_lt(xv.0, #[trigger] fo2[b].0) by {
                assert(fo2[b] == fo[b - 1]);
                if b - 1 > pos {
                    assert(!key_lt(fo[b - 1].0, fo[pos as int].0));
                } else {
                    lemma_key_lt_irreflexive(fo[pos as int].0);
                }
                lemma_lt_le(xv.0, fo[pos as int].0, fo[b - 1].0);
            }
            assert forall|a: int, b: int| 0 <= a < b < fo2.len() implies !key_lt(#[trigger] fo2[b].0, #[trigger] fo2[a].0) by {
                if b < pos {
                    assert(fo2[a] == fo[a] && fo2[b] == fo[b]);
                } else if b == pos {
                    assert(fo2[a] == fo[a]);
                } else if a < pos {
                    assert(fo2[a] == fo[a] && fo2[b] == fo[b - 1]);
                } else if a == pos {
                    lemma_key_lt_asym(xv.0, fo2[b].0);
                } else {
                    assert(fo2[a] == fo[a - 1] && fo2[b] == fo[b - 1]);
                }
            }
            assert forall|j: int| 0 <= j < p2.len() implies 0 <= #[trigger] p2[j] < i + 1 by {
                if j < pos {
                    assert(p2[j] == perm[j]);
                } else if j > pos {
                    assert(p2[j] == perm[j - 1]);
                }
            }
            assert forall|a: int, b: int| 0 <= a < b < p2.len() implies #[trigger] p2[a] != #[trigger] p2[b] by {
                let a0 = if a < pos { a } else { a - 1 };
                let b0 = if b < pos { b } else { b - 1 };
                if a != pos && b != pos {
                    assert(p2[a] == perm[a0] && p2[b] == perm[b0]);
                    assert(perm[a0] != perm[b0]);
                } else if a == pos {
                    assert(p2[b] == perm[b0]);
                } else {
                    assert(p2[a] == perm[a0]);
                }
            }
            assert forall|j: int| 0 <= j < fo2.len() implies #[trigger] fo2[j] == src[p2[j]] by {
                if j < pos {
                    assert(fo2[j] == fo[j] && p2[j] == perm[j]);
                } else if j > pos {
                    assert(fo2[j] == fo[j - 1] && p2[j] == perm[j - 1]);
                }
            }
            assert forall|a: int, b: int| 0 <= a < b < fo2.len() && (#[trigger] fo2[a]).0 == (#[trigger] fo2[b]).0 implies p2[a] < p2[b] by {
                let a0 = if a < pos { a } else { a - 1 };
                let b0 = if b < pos { b } else { b - 1 };
                if a != pos && b != pos {
                    assert(fo2[a] == fo[a0] && fo2[b] == fo[b0]);
                    assert(p2[a] == perm[a0] && p2[b] == perm[b0]);
                } else if a == pos {
                    lemma_key_lt_asym(xv.0, fo2[b].0);
                } else {
                    assert(p2[a] == perm[a0]);
                }
            }
            perm = p2;
        }
        i = i + 1;
    }
    proof {
        assert(stable_reorder(perm, src, flat_view(out@)));
    }
    out
}

// ---------------------------------------------------------------------
// The document
// ---------------------------------------------------------------------
/// Why a configuration operation failed.
#[derive(Debug)]
pub enum ConfigError {
    /// The key is empty or has an empty part.
    InvalidKey(String),
    /// A part of the key names a value that is not a table.
    NotATable { key: String },
    /// Reading or writing the file failed (the message of the failure).
    Io(String),
    /// The file is not valid TOML (the parser's message).
    Parse(String),
    /// The document could not be rendered as TOML (the message).
    Serialize(String),
}

/// Text of `format!("{:?}", s)` for a string: quoted, with escapes.
pub uninterp spec fn debug_quoted_spec(s: Seq<char>) -> Seq<char>;

/// `<str as Debug>::fmt`: `s` in double quotes with `char::escape_debug`
/// escapes. The escaping rules are not restated; the result is named.
#[verifier::external_body]
pub(crate) fn debug_quoted(s: &str) -> (r: String)
    ensures
        r@ == debug_quoted_spec(s@),
{
    format!("{:?}", s)
}

impl ConfigError {
    /// The message shown to users.
    pub fn message(&self) -> (r: String)
        ensures
            self matches ConfigError::InvalidKey(k) ==> r@ == "invalid config key "@ + debug_quoted_spec(k@),
            self matches ConfigError::NotATable { key } ==> r@ == "cannot descend into "@ + debug_quoted_spec(key@) + ": not a table"@,
            self matches ConfigError::Io(m) ==> r@ == m@,
            self matches ConfigError::Parse(m) ==> r@ == m@,
            self matches ConfigError::Serialize(m) ==> r@ == m@,
    {
        match self {
            ConfigError::InvalidKey(k) => {
                let q = debug_quoted(k.as_str());
                crate::text::concat2("invalid config key ", q.as_str())
            },
            ConfigError::NotATable { key } => {
                let q = debug_quoted(key.as_str());
                crate::text::concat3("cannot descend into ", q.as_str(), ": not a table")
            },
            ConfigError::Io(m) => m.clone(),
            ConfigError::Parse(m) => m.clone(),
            ConfigError::Serialize(m) => m.clone(),
        }
    }
}

/// The value at dotted key `key`, if the key is valid and present.
pub open spec fn get_key(t: ConfigTable, key: Seq<char>) -> Option<ConfigValue> {
    match key_parts(key) {
        Some(ps) => get_path(t, ps),
        None => None,
    }
}

/// The dotted key naming the first `j + 1` parts of `ps`.
pub open spec fn walked(ps: Seq<Seq<char>>, j: int) -> Seq<char> {
    join_spec(ps.take(j + 1), "."@)
}

/// A configuration document and the file it belongs to.
///
/// A missing file is an empty document, so keys can be set on a fresh
/// install before anything exists on disk.
#[derive(Debug)]
pub struct Config {
    path: String,
    table: ConfigTable,
}

impl Config {
    #[verifier::type_invariant]
    spec fn inv(&self) -> bool {
        table_wf(self.table)
    }

    /// The document's root table.
    pub closed spec fn root(&self) -> ConfigTable {
        self.table
    }

    /// The file the document belongs to.
    pub closed spec fn file(&self) -> Seq<char> {
        self.path@
    }

    /// An empty document for `path` (what a missing file loads as).
    pub fn empty(path: &str) -> (c: Config)
        ensures
            c.file() == path@,
            c.root().entries@.len() == 0,
            forall|key: Seq<char>| get_key(c.root(), key) is None,
    {
        let c = Config { path: owned(path), table: ConfigTable::new() };
        proof {
            assert forall|key: Seq<char>| get_key(c.root(), key) is None by {
                if let Some(ps) = key_parts(key) {
                    lemma_split_dots_len(key);
                    lemma_lookup_absent(c.table.entries@, ps[0]);
                }
            }
        }
        c
    }

    /// A document for `path` holding `table`.
    pub fn from_table(path: &str, table: ConfigTable) -> (c: Config)
        requires
            table_wf(table),
        ensures
            c.file() == path@,
            c.root() == table,
    {
        Config { path: owned(path), table }
    }

    /// The file the document belongs to.
    pub fn path(&self) -> (r: &str)
        ensures
            r@ == self.file(),
    {
        self.path.as_str()
    }

    /// The root table, for rendering the document.
    pub fn table(&self) -> (r: &ConfigTable)
        ensures
            *r == self.root(),
            table_wf(*r),
    {
        proof {
            use_type_invariant(self);
        }
        &self.table
    }

    /// The value at `key` (e.g. `agent.anthropic_api.api_key`): `None`
    /// when the key is invalid, absent, or passes through a non-table.
    pub fn get(&self, key: &str) -> (r: Option<&ConfigValue>)
        ensures
            deref_opt(r) == get_key(self.root(), key@),
    {
        proof {
            use_type_invariant(self);
        }
        match split_key(key) {
            Some(parts) => get_in(&self.table, &parts),
            None => None,
        }
    }

    /// Store `value` at `key`, creating intermediate tables. Fails on an
    /// invalid key, or when a part before the last names a non-table;
    /// the document is then unchanged.
    pub fn set(&mut self, key: &str, value: ConfigValue) -> (r: Result<(), ConfigError>)
        requires
            value_wf(value),
        ensures
            final(self).file() == old(self).file(),
            key_parts(key@) is None ==> (r matches Err(ConfigError::InvalidKey(k)) && k@ == key@),
            key_parts(key@) matches Some(ps) ==> (r is Err <==> exists|j: int| blocks(old(self).root(), ps, j)),
            key_parts(key@) is Some && r is Err ==> r->Err_0 is NotATable,
            key_parts(key@) matches Some(ps) ==> (r matches Err(ConfigError::NotATable { key: k }) ==> exists|j: int| #[trigger] blocks(old(self).root(), ps, j) && k@ == walked(ps, j)),
            key_parts(key@) matches Some(ps) ==> (r is Ok ==> set_effect(old(self).root(), final(self).root(), ps, value)),
            r is Err ==> final(self).root() == old(self).root(),
    {
        proof {
            use_type_invariant(&*self);
        }
        let parts = match split_key(key) {
            Some(parts) => parts,
            None => {
                return Err(ConfigError::InvalidKey(owned(key)));
            },
        };
        if let Some(j) = find_blocked(&self.table, &parts) {
            let mut prefix: Vec<String> = Vec::new();
            let mut m: usize = 0;
            while m <= j
                invariant
                    j < parts@.len(),
                    parts@.len() == parts.len(),
                    m <= j + 1,
                    prefix@ == parts@.take(m as int),
                decreases j + 1 - m,
            {
                prefix.push(parts[m].clone());
                proof {
                    assert(prefix@ =~= parts@.take(m + 1));
                }
                m = m + 1;
            }
            let walked_key = join(prefix.as_slice(), ".");
            proof {
                assert(views(prefix@) =~= views(parts@).take(j + 1));
                let ps = views(parts@);
                assert(blocks(old(self).root(), ps, j as int));
                assert(walked_key@ == walked(ps, j as int));
                assert(key_parts(key@) == Some(ps));
                assert(exists|jj: int| #[trigger] blocks(old(self).root(), ps, jj) && walked_key@ == walked(ps, jj));
                assert(blocks(old(self).root(), key_parts(key@)->Some_0, j as int));
                assert(walked_key@ == walked(key_parts(key@)->Some_0, j as int));
            }
            return Err(ConfigError::NotATable { key: walked_key });
        }
        let mut table = ConfigTable::new();
        std::mem::swap(&mut table, &mut self.table);
        proof {
            assert(views(parts@).skip(0) =~= views(parts@));
        }
        set_in(&mut table, &parts, 0, value);
        self.table = table;
        Ok(())
    }

    /// Remove the value at `key`, pruning tables that become empty.
    /// Returns whether a value was removed.
    pub fn unset(&mut self, key: &str) -> (r: bool)
        ensures
            final(self).file() == old(self).file(),
            r == get_key(old(self).root(), key@) is Some,
            !r ==> final(self).root() == old(self).root(),
            r ==> unset_effect(old(self).root(), final(self).root(), key_parts(key@)->Some_0),
    {
        proof {
            use_type_invariant(&*self);
        }
        let parts = match split_key(key) {
            Some(parts) => parts,
            None => return false,
        };
        if get_in(&self.table, &parts).is_none() {
            return false;
        }
        let mut table = ConfigTable::new();
        std::mem::swap(&mut table, &mut self.table);
        proof {
            assert(views(parts@).skip(0) =~= views(parts@));
        }
        remove_in(&mut table, &parts, 0);
        self.table = table;
        true
    }

    /// Every leaf value with its dotted key, sorted by key. Tables are
    /// descended into; arrays and scalars are leaves.
    pub fn list(&self) -> (r: Vec<(String, &ConfigValue)>)
        ensures
            sorted_by_key(flat_view(r@)),
            exists|perm: Seq<int>| stable_reorder(perm, flatten_spec(self.root().entries@, Seq::empty()), flat_view(r@)),
            forall|x: (Seq<char>, ConfigValue)|
                flatten_spec(self.root().entries@, Seq::empty()).contains(x) <==> flat_view(r@).contains(x),
    {
        let mut out: Vec<(String, &ConfigValue)> = Vec::new();
        let ghost e = out@;
        proof {
            assert(flat_view(e) =~= Seq::empty());
        }
        flatten_into(&self.table.entries, "", &mut out);
        proof {
            reveal_strlit("");
            assert(""@ =~= Seq::<char>::empty());
            assert(flat_view(out@) =~= flatten_spec(self.table.entries@, Seq::empty()));
        }
        let ghost fv = flat_view(out@);
        let r = sort_by_key(out);
        proof {
            let perm = choose|perm: Seq<int>| stable_reorder(perm, fv, flat_view(r@));
            assert(stable_reorder(perm, flatten_spec(self.root().entries@, Seq::empty()), flat_view(r@)));
            lemma_reorder_keeps_all(perm, fv, flat_view(r@));
        }
        r
    }
}

// ---------------------------------------------------------------------
// Laws
// ---------------------------------------------------------------------
/// After a successful `set(key, v)`, `get(key)` reads `v`.
pub proof fn law_get_after_set(old_t: ConfigTable, new_t: ConfigTable, key: Seq<char>, v: ConfigValue)
    requires
        key_parts(key) is Some,
        set_effect(old_t, new_t, key_parts(key)->Some_0, v),
    ensures
        get_key(new_t, key) == Some(v),
{
}

/// A successful `set(key, v)` leaves every key that parts ways with
/// `key` (differs from it in some part both have) as it was.
pub proof fn law_set_keeps_other_keys(old_t: ConfigTable, new_t: ConfigTable, key: Seq<char>, other: Seq<char>, v: ConfigValue)
    requires
        key_parts(key) is Some,
        key_parts(other) is Some,
        diverges(key_parts(other)->Some_0, key_parts(key)->Some_0),
        set_effect(old_t, new_t, key_parts(key)->Some_0, v),
    ensures
        get_key(new_t, other) == get_key(old_t, other),
{
}

/// After `unset(key)` removed a value, `get(key)` reads nothing, and
/// neither does any key below it.
pub proof fn law_get_after_unset(old_t: ConfigTable, new_t: ConfigTable, key: Seq<char>, below: Seq<char>)
    requires
        key_parts(key) is Some,
        unset_effect(old_t, new_t, key_parts(key)->Some_0),
    ensures
        get_key(new_t, key) is None,
        key_parts(below) is Some && strictly_extends(key_parts(below)->Some_0, key_parts(key)->Some_0)
            ==> get_key(new_t, below) is None,
{
}

/// `unset(key)` leaves every key that parts ways with `key` as it was.
pub proof fn law_unset_keeps_other_keys(old_t: ConfigTable, new_t: ConfigTable, key: Seq<char>, other: Seq<char>)
    requires
        key_parts(key) is Some,
        key_parts(other) is Some,
        diverges(key_parts(other)->Some_0, key_parts(key)->Some_0),
        unset_effect(old_t, new_t, key_parts(key)->Some_0),
    ensures
        get_key(new_t, other) == get_key(old_t, other),
{
}

/// `a` starts with `b` followed by a dot (so `a` names something below
/// `b`).
pub open spec fn continues_past_dot(a: Seq<char>, b: Seq<char>) -> bool {
    a.len() > b.len() && a.take(b.len() as int + 1) == b.push('.')
}

/// Joining the parts of `s` with dots gives `s` back.
proof fn lemma_join_split(s: Seq<char>)
    ensures
        join_spec(split_dots(s), "."@) == s,
    decreases s.len(),
{
    reveal_strlit(".");
    if s.len() == 0 {
        assert(split_dots(s) =~= seq![Seq::<char>::empty()]);
    } else {
        let init = split_dots(s.drop_last());
        lemma_join_split(s.drop_last());
        lemma_split_dots_len(s.drop_last());
        if s.last() == '.' {
            let ps = init.push(Seq::empty());
            assert(ps.drop_last() =~= init);
            assert(join_spec(ps, "."@) =~= s);
        } else {
            let ps = init.update(init.len() - 1, init.last().push(s.last()));
            if init.len() == 1 {
                assert(join_spec(ps, "."@) =~= s);
            } else {
                assert(ps.drop_last() =~= init.drop_last());
                assert(join_spec(init, "."@) == join_spec(init.drop_last(), "."@) + "."@ + init.last());
                assert(ps.last() == init.last().push(s.last()));
                assert(join_spec(ps, "."@) == join_spec(ps.drop_last(), "."@) + "."@ + ps.last());
                assert(s =~= s.drop_last().push(s.last()));
                assert(join_spec(ps, "."@) =~= s);
            }
        }
    }
}

/// Joining `p + r` (both non-empty) puts a dot between the joined halves.
proof fn lemma_join_append(p: Seq<Seq<char>>, r: Seq<Seq<char>>)
    requires
        p.len() > 0,
        r.len() > 0,
    ensures
        join_spec(p + r, "."@) == join_spec(p, "."@) + "."@ + join_spec(r, "."@),
    decreases r.len(),
{
    let q = p + r;
    assert(q.drop_last() =~= p + r.drop_last());
    if r.len() == 1 {
        assert(q.drop_last() =~= p);
    } else {
        lemma_join_append(p, r.drop_last());
        assert(join_spec(p + r, "."@) =~= join_spec(p, "."@) + "."@ + join_spec(r, "."@));
    }
}

/// Two different valid keys, neither of which continues the other past a
/// dot, part ways in some part both have.
proof fn lemma_unrelated_keys_diverge(key: Seq<char>, other: Seq<char>)
    requires
        key_parts(key) is Some,
        key_parts(other) is Some,
        other != key,
        !continues_past_dot(other, key),
        !continues_past_dot(key, other),
    ensures
        diverges(key_parts(other)->Some_0, key_parts(key)->Some_0),
{
    reveal_strlit(".");
    let p = split_dots(key);
    let q = split_dots(other);
    lemma_join_split(key);
    lemma_join_split(other);
    lemma_split_dots_len(key);
    lemma_split_dots_len(other);
    if !diverges(q, p) {
        assert forall|m: int| 0 <= m < q.len() && m < p.len() implies q[m] == p[m] by {
            if q[m] != p[m] {
                assert(diverges(q, p));
            }
        }
        if q.len() == p.len() {
            assert(q =~= p);
        } else if q.len() > p.len() {
            let r = q.skip(p.len() as int);
            assert(q =~= p + r);
            lemma_join_append(p, r);
            assert(other.take(key.len() as int + 1) =~= key.push('.'));
        } else {
            let r = p.skip(q.len() as int);
            assert(p =~= q + r);
            lemma_join_append(q, r);
            assert(key.take(other.len() as int + 1) =~= other.push('.'));
        }
    }
}

/// A successful `set(key, v)` leaves every other key as it was, unless
/// one of the two keys continues the other past a dot (`a` and `a.b`).
pub proof fn law_set_keeps_unrelated_keys(old_t: ConfigTable, new_t: ConfigTable, key: Seq<char>, other: Seq<char>, v: ConfigValue)
    requires
        key_parts(key) is Some,
        other != key,
        !continues_past_dot(other, key),
        !continues_past_dot(key, other),
        set_effect(old_t, new_t, key_parts(key)->Some_0, v),
    ensures
        get_key(new_t, other) == get_key(old_t, other),
{
    if key_parts(other) is Some {
        lemma_unrelated_keys_diverge(key, other);
    }
}

/// `unset(key)` leaves every other key as it was, unless one of the two
/// keys continues the other past a dot.
pub proof fn law_unset_keeps_unrelated_keys(old_t: ConfigTable, new_t: ConfigTable, key: Seq<char>, other: Seq<char>)
    requires
        key_parts(key) is Some,
        other != key,
        !continues_past_dot(other, key),
        !continues_past_dot(key, other),
        unset_effect(old_t, new_t, key_parts(key)->Some_0),
    ensures
        get_key(new_t, other) == get_key(old_t, other),
{
    if key_parts(other) is Some {
        lemma_unrelated_keys_diverge(key, other);
    }
}

/// The listing of `es` holds the listing of its entry `i` in between
/// those of the entries around it.
proof fn lemma_flatten_split(es: Seq<(String, ConfigValue)>, prefix: Seq<char>, i: int)
    requires
        0 <= i < es.len(),
    ensures
        flatten_spec(es, prefix) == flatten_spec(es.take(i), prefix) + flatten_spec(seq![es[i]], prefix)
            + flatten_spec(es.skip(i + 1), prefix),
{
    assert(es =~= es.take(i) + (seq![es[i]] + es.skip(i + 1)));
    lemma_flatten_append(es.take(i), seq![es[i]] + es.skip(i + 1), prefix);
    lemma_flatten_append(seq![es[i]], es.skip(i + 1), prefix);
}

/// A value other than a table found at path `ps` (no part empty) appears
/// in the listing under the path's dotted key.
proof fn lemma_leaf_listed(t: ConfigTable, ps: Seq<Seq<char>>, prefix: Seq<char>, v: ConfigValue)
    requires
        ps.len() > 0,
        forall|i: int| 0 <= i < ps.len() ==> (#[trigger] ps[i]).len() > 0,
        get_path(t, ps) == Some(v),
        !(v is Table),
    ensures
        flatten_spec(t.entries@, prefix).contains((dotted(prefix, join_spec(ps, "."@)), v)),
    decreases ps.len(),
{
    reveal_strlit(".");
    let es = t.entries@;
    lemma_key_index(es, ps[0]);
    let i = key_index(es, ps[0]);
    lemma_flatten_split(es, prefix, i);
    let key0 = dotted(prefix, ps[0]);
    let single = seq![es[i]];
    assert(single[0] == es[i]);
    assert(single.drop_first() =~= Seq::<(String, ConfigValue)>::empty());
    assert(flatten_spec(single.drop_first(), prefix) =~= Seq::<(Seq<char>, ConfigValue)>::empty());
    assert(lookup(es, ps[0]) == Some(es[i].1));
    let whole = flatten_spec(es, prefix);
    let before = flatten_spec(es.take(i), prefix);
    if ps.len() == 1 {
        assert(join_spec(ps, "."@) == ps[0]);
        assert(flatten_spec(single, prefix) =~= seq![(key0, v)]);
        assert(whole[before.len() as int] == (key0, v));
    } else {
        let rest = ps.drop_first();
        assert(es[i].1 is Table);
        let sub = es[i].1->Table_0;
        assert(get_path(sub, rest) == Some(v));
        assert forall|j: int| 0 <= j < rest.len() implies (#[trigger] rest[j]).len() > 0 by {
            assert(rest[j] == ps[j + 1]);
        }
        lemma_leaf_listed(sub, rest, key0, v);
        let inner = flatten_spec(sub.entries@, key0);
        assert(flatten_spec(single, prefix) =~= inner);
        assert(ps =~= seq![ps[0]] + rest);
        lemma_join_append(seq![ps[0]], rest);
        assert(join_spec(seq![ps[0]], "."@) == ps[0]);
        assert(key0.len() > 0);
        assert(dotted(key0, join_spec(rest, "."@)) =~= dotted(prefix, join_spec(ps, "."@)));
        let x = (dotted(prefix, join_spec(ps, "."@)), v);
        let j = choose|j: int| 0 <= j < inner.len() && inner[j] == x;
        assert(whole[before.len() + j] == x);
    }
}

/// After a successful `set(key, v)` of a value other than a table, the
/// listing holds `key` with `v`: `config list` shows what `config set`
/// wrote.
pub proof fn law_list_after_set(old_t: ConfigTable, new_t: ConfigTable, key: Seq<char>, v: ConfigValue)
    requires
        key_parts(key) is Some,
        set_effect(old_t, new_t, key_parts(key)->Some_0, v),
        !(v is Table),
    ensures
        flatten_spec(new_t.entries@, Seq::empty()).contains((key, v)),
{
    let ps = key_parts(key)->Some_0;
    lemma_split_dots_len(key);
    lemma_join_split(key);
    assert forall|i: int| 0 <= i < ps.len() implies (#[trigger] ps[i]).len() > 0 by {
        if ps[i].len() == 0 {
            assert(0 <= i < split_dots(key).len() && split_dots(key)[i].len() == 0);
        }
    }
    law_get_after_set(old_t, new_t, key, v);
    lemma_leaf_listed(new_t, ps, Seq::empty(), v);
}

/// An invalid key (empty, or with an empty part) reads as absent.
pub proof fn law_invalid_key_reads_nothing(t: ConfigTable, key: Seq<char>)
    requires
        key_parts(key) is None,
    ensures
        get_key(t, key) is None,
{
}

/// The empty key and a key with an empty part are invalid.
pub proof fn law_empty_parts_are_invalid(prefix: Seq<char>, suffix: Seq<char>)
    ensures
        key_parts(Seq::empty()) is None,
        key_parts(prefix + seq!['.', '.'] + suffix) is None,
{
    let key = prefix + seq!['.', '.'] + suffix;
    lemma_split_dots_empty_part(prefix, suffix);
}

proof fn lemma_split_dots_last(s: Seq<char>)
    requires
        s.len() > 0,
        s.last() == '.',
    ensures
        split_dots(s).last().len() == 0,
{
}

proof fn lemma_split_dots_keeps_empty(s: Seq<char>, t: Seq<char>, i: int)
    requires
        0 <= i < split_dots(s).len() - 1,
        split_dots(s)[i].len() == 0,
    ensures
        0 <= i < split_dots(s + t).len() - 1,
        split_dots(s + t)[i].len() == 0,
    decreases t.len(),
{
    if t.len() == 0 {
        assert(s + t =~= s);
    } else {
        lemma_split_dots_keeps_empty(s, t.drop_last(), i);
        assert((s + t).drop_last() =~= s + t.drop_last());
        lemma_split_dots_len(s + t.drop_last());
    }
}

proof fn lemma_split_dots_empty_part(prefix: Seq<char>, suffix: Seq<char>)
    ensures
        key_parts(prefix + seq!['.', '.'] + suffix) is None,
{
    let a = prefix + seq!['.'];
    let b = a + seq!['.'];
    lemma_split_dots_len(prefix);
    assert(a.drop_last() =~= prefix);
    assert(b.drop_last() =~= a);
    lemma_split_dots_last(a);
    lemma_split_dots_len(a);
    let i = split_dots(a).len() - 1;
    assert(split_dots(b) == split_dots(a).push(Seq::empty()));
    assert(split_dots(b)[i].len() == 0);
    lemma_split_dots_keeps_empty(b, suffix, i);
    assert(prefix + seq!['.', '.'] + suffix =~= b + suffix);
    let key = b + suffix;
    assert(0 <= i < split_dots(key).len() && split_dots(key)[i].len() == 0);
}


// ---------------------------------------------------------------------
// TOML text
// ---------------------------------------------------------------------
#[verifier::external_type_specification]
#[verifier::external_body]
pub struct ExTomlValue(toml::Value);

/// What `toml::from_str::<toml::Table>` makes of `text`: the document's
/// root table, or the parser's message.
pub uninterp spec fn toml_document(text: Seq<char>) -> Result<ConfigTable, Seq<char>>;

/// What `toml::to_string` renders for a table holding `entries` (a key
/// given twice keeps its last value), or why it cannot: the serializer's
/// message, or the text of a float or datetime that does not read as one.
pub uninterp spec fn toml_rendered(entries: Seq<(Seq<char>, ConfigValue)>) -> Result<Seq<char>, Seq<char>>;

/// A parsed TOML value in the library's model, for `parse_toml_document`:
/// floats by their shortest decimal text, datetimes by their TOML text,
/// tables entry by entry in the map's order. Conversion only; no
/// contract.
#[verifier::external_body]
fn value_from_toml(v: Value) -> ConfigValue {
    match v {
        Value::String(s) => ConfigValue::String(s),
        Value::Integer(i) => ConfigValue::Integer(i),
        Value::Float(x) => ConfigValue::Float(x.to_string()),
        Value::Boolean(b) => ConfigValue::Boolean(b),
        Value::Datetime(d) => ConfigValue::Datetime(d.to_string()),
        Value::Array(a) => ConfigValue::Array(a.into_iter().map(value_from_toml).collect()),
        Value::Table(t) => ConfigValue::Table(
            ConfigTable { entries: t.into_iter().map(|(k, x)| (k, value_from_toml(x))).collect() },
        ),
    }
}

/// A value of the library's model as a TOML value, for `render_toml`:
/// the inverse of `value_from_toml`, failing with the text of a float or
/// datetime that does not read as one. Conversion only; no contract.
#[verifier::external_body]
fn value_to_toml(v: &ConfigValue) -> Result<Value, String> {
    Ok(match v {
        ConfigValue::String(s) => Value::String(s.clone()),
        ConfigValue::Integer(i) => Value::Integer(*i),
        ConfigValue::Float(s) => Value::Float(s.parse().ok().ok_or(s)?),
        ConfigValue::Boolean(b) => Value::Boolean(*b),
        ConfigValue::Datetime(s) => Value::Datetime(s.parse().ok().ok_or(s)?),
        ConfigValue::Array(a) => Value::Array(a.iter().map(value_to_toml).collect::<Result<_, _>>()?),
        ConfigValue::Table(t) => table_to_toml(&t.entries)?,
    })
}

/// A nested table of the library's model as a TOML table value, entry by
/// entry, for `value_to_toml`. Conversion only; no contract.
#[verifier::external_body]
fn table_to_toml(entries: &[(String, ConfigValue)]) -> Result<Value, String> {
    Ok(Value::Table(entries.iter().map(|(k, x)| Ok((k.clone(), value_to_toml(x)?))).collect::<Result<_, String>>()?))
}

/// `toml::from_str::<toml::Table>`: the document `text`, converted, or
/// the parser's message. The TOML grammar is not restated; the result is
/// named. Built with the crate's default features, `toml::Table` is a
/// `BTreeMap`, so every table comes out with its keys in ascending order
/// and none twice, which is what `table_wf` asks.
#[verifier::external_body]
fn parse_toml_document(text: &str) -> (r: Result<ConfigTable, String>)
    ensures
        match r {
            Ok(t) => toml_document(text@) == Ok::<ConfigTable, Seq<char>>(t) && table_wf(t),
            Err(e) => toml_document(text@) == Err::<ConfigTable, Seq<char>>(e@),
        },
{
    match toml::from_str::<toml::Table>(text) {
        Ok(t) => Ok(ConfigTable { entries: t.into_iter().map(|(k, v)| (k, value_from_toml(v))).collect() }),
        Err(e) => Err(e.to_string()),
    }
}

/// Key/value pairs taken by their views.
pub open spec fn entries_view(es: Seq<(&str, &ConfigValue)>) -> Seq<(Seq<char>, ConfigValue)> {
    es.map_values(|e: (&str, &ConfigValue)| (e.0@, *e.1))
}

/// The entries of a table taken by their views.
pub open spec fn table_entries(t: ConfigTable) -> Seq<(Seq<char>, ConfigValue)> {
    t.entries@.map_values(|e: (String, ConfigValue)| (e.0@, e.1))
}

/// `toml::to_string` of a table holding `entries`: its TOML text, or the
/// message of why it cannot be rendered (see `toml_rendered`). The output format is not restated; the result
/// is named.
#[verifier::external_body]
fn render_toml(entries: &[(&str, &ConfigValue)]) -> (r: Result<String, String>)
    ensures
        match toml_rendered(entries_view(entries@)) {
            Ok(s) => r matches Ok(x) && x@ == s,
            Err(m) => r matches Err(e) && e@ == m,
        },
{
    let mut t = toml::Table::new();
    for (k, v) in entries {
        t.insert(k.to_string(), value_to_toml(v)?);
    }
    toml::to_string(&t).map_err(|e| e.to_string())
}

/// The value `_v = <raw>` defines, when that line parses as TOML.
pub open spec fn parsed_value(raw: Seq<char>) -> Option<ConfigValue> {
    match toml_document("_v = "@ + raw) {
        Ok(t) => lookup(t.entries@, "_v"@),
        Err(_) => None,
    }
}

/// A value typed on the command line: the TOML literal it spells when
/// `_v = <raw>` parses (so `7724` is an integer, `true` a boolean,
/// `["os","email"]` an array), else the bare string `raw` (so an
/// unquoted word stays a string).
pub fn parse_value(raw: &str) -> (v: ConfigValue)
    ensures
        match parsed_value(raw@) {
            Some(x) => v == x,
            None => v matches ConfigValue::String(s) && s@ == raw@,
        },
        value_wf(v),
{
    let wrapped = concat2("_v = ", raw);
    if let Ok(t) = parse_toml_document(wrapped.as_str()) {
        match find_key(&t.entries, "_v") {
            Some(i) => {
                proof {
                    lemma_lookup_at(t.entries@, i as int);
                    if lookup(t.entries@, "_v"@) matches Some(ConfigValue::Table(_)) {
                        lemma_child_wf(t, "_v"@);
                    }
                }
                let mut es = t.entries;
                let (_, x) = es.remove(i);
                return x;
            },
            None => {
                proof {
                    lemma_lookup_absent(t.entries@, "_v"@);
                }
            },
        }
    }
    ConfigValue::String(owned(raw))
}

/// The text `render_toml_literal` gives for `v`: the rendering of the
/// one-entry table `v = <v>`, trimmed, without its `v = ` prefix.
pub open spec fn literal_text(v: ConfigValue) -> Seq<char> {
    let s = match toml_rendered(seq![("v"@, v)]) {
        Ok(s) => s,
        Err(_) => Seq::empty(),
    };
    let t = trim_spec(s);
    if t.len() >= 4 && t.take(4) == "v = "@ {
        trim_end_spec(t.skip(4))
    } else {
        t
    }
}

/// The canonical TOML literal of a value (strings quoted).
pub fn render_toml_literal(v: &ConfigValue) -> (r: String)
    ensures
        r@ == literal_text(*v),
{
    let mut entries: Vec<(&str, &ConfigValue)> = Vec::new();
    entries.push(("v", v));
    proof {
        assert(entries_view(entries@) =~= seq![("v"@, *v)]);
    }
    let s = match render_toml(entries.as_slice()) {
        Ok(s) => s,
        Err(_) => String::new(),
    };
    let t = trim(s.as_str());
    let cs = chars_of(t.as_str());
    let n = cs.len();
    proof {
        reveal_strlit("v = ");
    }
    if n >= 4 && cs[0] == 'v' && cs[1] == ' ' && cs[2] == '=' && cs[3] == ' ' {
        proof {
            assert(t@.take(4) =~= "v = "@);
        }
        let rest = string_of_range(cs.as_slice(), 4, n);
        proof {
            assert(rest@ =~= t@.skip(4));
        }
        trim_end(rest.as_str())
    } else {
        proof {
            if t@.len() >= 4 && t@.take(4) == "v = "@ {
                assert(t@.take(4)[0] == 'v' && t@.take(4)[1] == ' ' && t@.take(4)[2] == '=' && t@.take(4)[3] == ' ');
            }
        }
        t
    }
}

/// A value for people: a string as it is, anything else as its TOML
/// literal.
pub fn render_value(v: &ConfigValue) -> (r: String)
    ensures
        match v {
            ConfigValue::String(s) => r@ == s@,
            _ => r@ == literal_text(*v),
        },
{
    match v {
        ConfigValue::String(s) => s.clone(),
        _ => render_toml_literal(v),
    }
}

impl Config {
    /// The document that `text`, read from `path`, holds; the parser's
    /// message when `text` is not TOML.
    pub fn from_text(path: &str, text: &str) -> (r: Result<Config, ConfigError>)
        ensures
            match toml_document(text@) {
                Ok(t) => r matches Ok(c) && c.root() == t && c.file() == path@,
                Err(m) => r matches Err(ConfigError::Parse(e)) && e@ == m,
            },
    {
        match parse_toml_document(text) {
            Ok(t) => Ok(Config::from_table(path, t)),
            Err(e) => Err(ConfigError::Parse(e)),
        }
    }

    /// The document as TOML text, for writing back to its file.
    pub fn to_text(&self) -> (r: Result<String, ConfigError>)
        ensures
            match toml_rendered(table_entries(self.root())) {
                Ok(s) => r matches Ok(x) && x@ == s,
                Err(m) => r matches Err(ConfigError::Serialize(e)) && e@ == m,
            },
    {
        let es = &self.table.entries;
        let n = es.len();
        let mut refs: Vec<(&str, &ConfigValue)> = Vec::new();
        let mut i: usize = 0;
        while i < n
            invariant
                n == es@.len(),
                *es == self.table.entries,
                i <= n,
                refs@.len() == i,
                forall|j: int| 0 <= j < i ==> (#[trigger] refs@[j]).0@ == es@[j].0@ && *refs@[j].1 == es@[j].1,
            decreases n - i,
        {
            refs.push((es[i].0.as_str(), &es[i].1));
            i = i + 1;
        }
        proof {
            assert(entries_view(refs@) =~= table_entries(self.root()));
        }
        match render_toml(refs.as_slice()) {
            Ok(s) => Ok(s),
            Err(e) => Err(ConfigError::Serialize(e)),
        }
    }
}

} // verus!

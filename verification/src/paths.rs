//! Filesystem locations for careerbot's persistent and runtime state.
//!
//! Paths are held as strings. Joining follows `PathBuf::push` for a
//! relative component: a `/` separator is inserted unless the base is
//! empty or already ends in one.
use crate::text::{chars_of, concat2, concat3, owned};
use vstd::prelude::*;

verus! {

/// `base` joined with the relative component `name`.
pub open spec fn path_join(base: Seq<char>, name: Seq<char>) -> Seq<char> {
    if base.len() == 0 || base.last() == '/' {
        base + name
    } else {
        base + seq!['/'] + name
    }
}

/// Joins a relative component onto a base path.
pub fn join_path(base: &str, name: &str) -> (r: String)
    ensures
        r@ == path_join(base@, name@),
{
    let cs = chars_of(base);
    if cs.len() == 0 || cs[cs.len() - 1] == '/' {
        concat2(base, name)
    } else {
        proof {
            reveal_strlit("/");
            assert("/"@ =~= seq!['/']);
        }
        concat3(base, "/", name)
    }
}

/// Resolved data and state roots.
///
/// Data = `$XDG_DATA_HOME` or `~/.local/share`, suffixed with `careerbot`;
/// state = `$XDG_STATE_HOME` or `~/.local/state`, suffixed with `careerbot`.
#[derive(Debug)]
pub struct Paths {
    data: String,
    state: String,
}

/// Why the roots could not be resolved.
#[derive(Debug)]
pub enum PathsError {
    /// `$HOME` is unset or empty.
    HomeNotSet,
}

impl PathsError {
    /// Human-readable description.
    pub fn message(&self) -> (r: String)
        ensures
            r@ == "HOME not set"@,
    {
        owned("HOME not set")
    }
}

/// The view of an optional string.
pub open spec fn opt_view(v: Option<&str>) -> Option<Seq<char>> {
    match v {
        Some(s) => Some(s@),
        None => None,
    }
}

/// The value of an environment variable, when it is set and non-empty.
pub open spec fn nonempty(v: Option<Seq<char>>) -> Option<Seq<char>> {
    match v {
        Some(s) => if s.len() > 0 {
            Some(s)
        } else {
            None
        },
        None => None,
    }
}

fn nonempty_var(v: Option<&str>) -> (r: Option<String>)
    ensures
        r matches Some(s) ==> nonempty(opt_view(v)) == Some(s@),
        r is None ==> nonempty(opt_view(v)) is None,
{
    match v {
        Some(s) => {
            let cs = chars_of(s);
            if cs.len() > 0 {
                Some(owned(s))
            } else {
                None
            }
        },
        None => None,
    }
}

/// The root that an XDG variable selects: its value when non-empty,
/// otherwise `home` joined with the fallback, then `careerbot`.
pub open spec fn xdg_root(var: Option<Seq<char>>, home: Seq<char>, fallback: Seq<char>) -> Seq<char> {
    let base = match nonempty(var) {
        Some(v) => v,
        None => path_join(home, fallback),
    };
    path_join(base, "careerbot"@)
}

fn xdg_root_exec(var: Option<&str>, home: &str, fallback: &str) -> (r: String)
    ensures
        r@ == xdg_root(opt_view(var), home@, fallback@),
{
    let base = match nonempty_var(var) {
        Some(v) => v,
        None => join_path(home, fallback),
    };
    join_path(base.as_str(), "careerbot")
}

/// Data and state roots from the values of `$HOME`, `$XDG_DATA_HOME`
/// and `$XDG_STATE_HOME`.
pub fn default_roots(home: Option<&str>, xdg_data_home: Option<&str>, xdg_state_home: Option<&str>) -> (r: Result<(String, String), PathsError>)
    ensures
        r is Err <==> nonempty(opt_view(home)) is None,
        r matches Ok((data, state)) ==> {
            let h = nonempty(opt_view(home))->Some_0;
            &&& data@ == xdg_root(opt_view(xdg_data_home), h, ".local/share"@)
            &&& state@ == xdg_root(opt_view(xdg_state_home), h, ".local/state"@)
        },
        r matches Ok((data, state)) ==> {
            let h = nonempty(opt_view(home))->Some_0;
            &&& (nonempty(opt_view(xdg_data_home)) is None ==> data@ == path_join(
                path_join(h, ".local/share"@),
                "careerbot"@,
            ))
            &&& (nonempty(opt_view(xdg_state_home)) is None ==> state@ == path_join(
                path_join(h, ".local/state"@),
                "careerbot"@,
            ))
            &&& (nonempty(opt_view(xdg_data_home)) is None && nonempty(opt_view(xdg_state_home)) is None ==> data@
                != state@)
        },
{
    let home = match nonempty_var(home) {
        Some(h) => h,
        None => return Err(PathsError::HomeNotSet),
    };
    let data = xdg_root_exec(xdg_data_home, home.as_str(), ".local/share");
    let state = xdg_root_exec(xdg_state_home, home.as_str(), ".local/state");
    proof {
        law_unset_root_is_home_fallback(opt_view(xdg_data_home), home@, ".local/share"@);
        law_unset_root_is_home_fallback(opt_view(xdg_state_home), home@, ".local/state"@);
        if nonempty(opt_view(xdg_data_home)) is None && nonempty(opt_view(xdg_state_home)) is None {
            law_default_data_and_state_roots_differ(opt_view(xdg_data_home), opt_view(xdg_state_home), home@);
        }
    }
    Ok((data, state))
}

impl Paths {
    /// The data root.
    pub closed spec fn data_view(&self) -> Seq<char> {
        self.data@
    }

    /// The state root.
    pub closed spec fn state_view(&self) -> Seq<char> {
        self.state@
    }

    /// Resolve the roots from the environment variables' values
    /// (`$HOME`, `$XDG_DATA_HOME`, `$XDG_STATE_HOME`, in that order).
    pub fn from_env(home: Option<&str>, xdg_data_home: Option<&str>, xdg_state_home: Option<&str>) -> (r: Result<Paths, PathsError>)
        ensures
            r is Err <==> nonempty(opt_view(home)) is None,
            r matches Ok(p) ==> {
                let h = nonempty(opt_view(home))->Some_0;
                &&& p.data_view() == xdg_root(opt_view(xdg_data_home), h, ".local/share"@)
                &&& p.state_view() == xdg_root(opt_view(xdg_state_home), h, ".local/state"@)
            },
    {
        let (data, state) = default_roots(home, xdg_data_home, xdg_state_home)?;
        Ok(Paths { data, state })
    }

    /// Paths pointed at explicit roots.
    pub fn rooted_at(data: &str, state: &str) -> (p: Paths)
        ensures
            p.data_view() == data@,
            p.state_view() == state@,
    {
        Paths { data: owned(data), state: owned(state) }
    }

    /// A copy of these paths.
    pub fn duplicate(&self) -> (p: Paths)
        ensures
            p.data_view() == self.data_view(),
            p.state_view() == self.state_view(),
    {
        Paths { data: self.data.clone(), state: self.state.clone() }
    }

    pub fn data_dir(&self) -> (r: &str)
        ensures
            r@ == self.data_view(),
    {
        self.data.as_str()
    }

    pub fn state_dir(&self) -> (r: &str)
        ensures
            r@ == self.state_view(),
    {
        self.state.as_str()
    }

    /// `<data>/config.toml`.
    pub fn config_file(&self) -> (r: String)
        ensures
            r@ == path_join(self.data_view(), "config.toml"@),
    {
        join_path(self.data.as_str(), "config.toml")
    }

    /// `<data>/db.sqlite`.
    pub fn db_file(&self) -> (r: String)
        ensures
            r@ == path_join(self.data_view(), "db.sqlite"@),
    {
        join_path(self.data.as_str(), "db.sqlite")
    }

    /// `<data>/resume`.
    pub fn resume_dir(&self) -> (r: String)
        ensures
            r@ == path_join(self.data_view(), "resume"@),
    {
        join_path(self.data.as_str(), "resume")
    }

    /// `<data>/memory`.
    pub fn memory_dir(&self) -> (r: String)
        ensures
            r@ == path_join(self.data_view(), "memory"@),
    {
        join_path(self.data.as_str(), "memory")
    }

    /// `<data>/scripts`.
    pub fn scripts_dir(&self) -> (r: String)
        ensures
            r@ == path_join(self.data_view(), "scripts"@),
    {
        join_path(self.data.as_str(), "scripts")
    }

    /// IPC socket location. On Linux, under `$XDG_RUNTIME_DIR` when that
    /// is set and non-empty (its value is passed in); elsewhere, and when
    /// it is unset or empty, in the state directory.
    pub fn socket_path(&self, on_linux: bool, runtime_dir: Option<&str>) -> (r: String)
        ensures
            r@ == path_join(
                match (on_linux, nonempty(opt_view(runtime_dir))) {
                    (true, Some(d)) => d,
                    _ => self.state_view(),
                },
                "careerbot.sock"@,
            ),
    {
        if on_linux {
            match nonempty_var(runtime_dir) {
                Some(d) => {
                    return join_path(d.as_str(), "careerbot.sock");
                },
                None => {},
            }
        }
        join_path(self.state.as_str(), "careerbot.sock")
    }
}

/// A joined path starts with its base: every file and directory the
/// library derives from a root lives under that root.
pub proof fn law_joined_path_under_base(base: Seq<char>, name: Seq<char>)
    ensures
        path_join(base, name).len() >= base.len(),
        path_join(base, name).take(base.len() as int) == base,
{
    assert(path_join(base, name).take(base.len() as int) =~= base);
}


/// The index of the last `/` in `p`, or `-1` when there is none.
pub open spec fn last_slash(p: Seq<char>) -> int
    decreases p.len(),
{
    if p.len() == 0 {
        -1
    } else if p.last() == '/' {
        p.len() - 1
    } else {
        last_slash(p.drop_last())
    }
}

/// The directory part of `p`: what precedes its last `/` (as
/// `Path::parent` gives it for a path without a trailing `/`).
pub open spec fn parent_dir(p: Seq<char>) -> Seq<char> {
    p.take(last_slash(p))
}

/// A name without `/` joined onto a directory lies directly in that
/// directory: the joined path's parent is the directory. So the config
/// file, the database and the socket live directly in their roots.
pub proof fn law_joined_name_parent(base: Seq<char>, name: Seq<char>)
    requires
        base.len() > 0,
        base.last() != '/',
        forall|i: int| 0 <= i < name.len() ==> name[i] != '/',
    ensures
        last_slash(path_join(base, name)) == base.len(),
        parent_dir(path_join(base, name)) == base,
    decreases name.len(),
{
    let p = path_join(base, name);
    if name.len() == 0 {
        assert(p.last() == '/');
    } else {
        let shorter = name.drop_last();
        law_joined_name_parent(base, shorter);
        assert(p.drop_last() =~= path_join(base, shorter));
        assert(p.last() == name.last());
    }
    assert(p.take(base.len() as int) =~= base);
}

/// An XDG variable that is unset or empty selects `home` joined with the
/// fallback, then `careerbot`: unset and empty are treated alike.
pub proof fn law_unset_root_is_home_fallback(var: Option<Seq<char>>, home: Seq<char>, fallback: Seq<char>)
    ensures
        xdg_root(None, home, fallback) == xdg_root(Some(Seq::empty()), home, fallback),
        nonempty(var) is None ==> xdg_root(var, home, fallback) == path_join(path_join(home, fallback), "careerbot"@),
{
}

/// A set, non-empty XDG variable is the base of the root, whatever
/// `home` is.
pub proof fn law_set_variable_is_the_base(v: Seq<char>, home: Seq<char>, fallback: Seq<char>)
    requires
        v.len() > 0,
    ensures
        xdg_root(Some(v), home, fallback) == path_join(v, "careerbot"@),
{
}

/// With neither XDG variable set, the data and state roots are
/// different directories.
pub proof fn law_default_data_and_state_roots_differ(data_var: Option<Seq<char>>, state_var: Option<Seq<char>>, home: Seq<char>)
    requires
        nonempty(data_var) is None,
        nonempty(state_var) is None,
    ensures
        xdg_root(data_var, home, ".local/share"@) != xdg_root(state_var, home, ".local/state"@),
{
    reveal_strlit(".local/share");
    reveal_strlit(".local/state");
    reveal_strlit("careerbot");
    let a = path_join(home, ".local/share"@);
    let b = path_join(home, ".local/state"@);
    let l: int = if home.len() == 0 || home.last() == '/' {
        home.len() as int
    } else {
        home.len() as int + 1
    };
    assert(a[l + 8] == 'h');
    assert(b[l + 8] == 't');
    assert(a.last() == 'e' && b.last() == 'e');
    assert(path_join(a, "careerbot"@)[l + 8] == 'h');
    assert(path_join(b, "careerbot"@)[l + 8] == 't');
}

} // verus!

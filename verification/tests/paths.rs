use careerbot::paths::{default_roots, join_path, Paths};

#[test]
fn rooted_at_exposes_inputs() {
    let p = Paths::rooted_at("/data", "/state");
    assert_eq!(p.data_dir(), "/data");
    assert_eq!(p.state_dir(), "/state");
}

#[test]
fn derived_paths_live_under_data_dir() {
    let p = Paths::rooted_at("/data", "/state");
    assert_eq!(p.config_file(), "/data/config.toml");
    assert_eq!(p.db_file(), "/data/db.sqlite");
    assert_eq!(p.resume_dir(), "/data/resume");
    assert_eq!(p.memory_dir(), "/data/memory");
    assert_eq!(p.scripts_dir(), "/data/scripts");
}

#[test]
fn from_env_returns_a_careerbot_data_dir() {
    let p = match Paths::from_env(Some("/home/user"), None, None) {
        Ok(p) => p,
        Err(_) => panic!("HOME must be set"),
    };
    assert!(p.data_dir().ends_with("careerbot"));
}

#[test]
fn xdg_variables_override_home_defaults() {
    let (data, state) = match default_roots(Some("/home/u"), Some("/xdg/data"), Some("")) {
        Ok(r) => r,
        Err(_) => panic!("HOME is set"),
    };
    assert_eq!(data, "/xdg/data/careerbot");
    assert_eq!(state, "/home/u/.local/state/careerbot");
}

#[test]
fn missing_or_empty_home_is_an_error() {
    assert!(default_roots(None, None, None).is_err());
    match default_roots(Some(""), Some("/x"), Some("/y")) {
        Err(e) => assert_eq!(e.message(), "HOME not set"),
        Ok(_) => panic!("empty HOME must be rejected"),
    }
}

#[test]
fn join_inserts_one_separator() {
    assert_eq!(join_path("/a", "b"), "/a/b");
    assert_eq!(join_path("/a/", "b"), "/a/b");
    assert_eq!(join_path("", "b"), "b");
}

#[test]
fn socket_prefers_runtime_dir() {
    let p = Paths::rooted_at("/data", "/state");
    assert_eq!(p.socket_path(true, Some("/run/user/1000")), "/run/user/1000/careerbot.sock");
    assert_eq!(p.socket_path(true, Some("")), "/state/careerbot.sock");
    assert_eq!(p.socket_path(true, None), "/state/careerbot.sock");
    assert_eq!(p.socket_path(false, Some("/run/user/1000")), "/state/careerbot.sock");
}

#[test]
fn joined_paths_start_with_their_root() {
    let p = Paths::rooted_at("/root/dir", "/s");
    for derived in [p.config_file(), p.db_file(), p.resume_dir(), p.memory_dir(), p.scripts_dir()] {
        assert!(derived.starts_with("/root/dir/"));
    }
}

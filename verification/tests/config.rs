use careerbot::config::{parse_value, render_toml_literal, render_value, split_key, Config, ConfigError, ConfigTable, ConfigValue};

fn empty() -> Config {
    Config::empty("/tmp/careerbot-test/config.toml")
}

fn is_string(v: Option<&ConfigValue>, expected: &str) -> bool {
    matches!(v, Some(ConfigValue::String(s)) if s == expected)
}

fn is_integer(v: Option<&ConfigValue>, expected: i64) -> bool {
    matches!(v, Some(ConfigValue::Integer(i)) if *i == expected)
}

fn keys(c: &Config) -> Vec<String> {
    c.list().into_iter().map(|(k, _)| k).collect()
}

#[test]
fn load_missing_file_yields_empty() {
    let c = empty();
    assert!(c.list().is_empty());
}

#[test]
fn set_then_get_roundtrip() {
    let mut c = empty();
    assert!(c.set("agent.driver", ConfigValue::String("anthropic_api".into())).is_ok());
    assert!(c.set("service.port", ConfigValue::Integer(7724)).is_ok());
    assert!(is_string(c.get("agent.driver"), "anthropic_api"));
    assert!(is_integer(c.get("service.port"), 7724));
}

#[test]
fn set_creates_intermediate_tables() {
    let mut c = empty();
    assert!(c.set("a.b.c.d", ConfigValue::Integer(1)).is_ok());
    assert!(is_integer(c.get("a.b.c.d"), 1));
}

#[test]
fn set_through_non_table_errors() {
    let mut c = empty();
    assert!(c.set("agent.driver", ConfigValue::String("anthropic_api".into())).is_ok());
    let err = c.set("agent.driver.binary", ConfigValue::String("agent".into()));
    assert!(matches!(err, Err(ConfigError::NotATable { .. })));
}

#[test]
fn get_missing_returns_none() {
    let c = empty();
    assert!(c.get("nothing.here").is_none());
}

#[test]
fn unset_removes_and_returns_true() {
    let mut c = empty();
    assert!(c.set("service.port", ConfigValue::Integer(7724)).is_ok());
    assert!(c.unset("service.port"));
    assert!(c.get("service.port").is_none());
}

#[test]
fn unset_missing_returns_false() {
    let mut c = empty();
    assert!(!c.unset("not.there"));
}

#[test]
fn unset_prunes_empty_parents() {
    let mut c = empty();
    assert!(c.set("a.b.c", ConfigValue::Integer(1)).is_ok());
    assert!(c.set("a.x", ConfigValue::Integer(2)).is_ok());
    assert!(c.unset("a.b.c"));
    assert_eq!(keys(&c), vec!["a.x"]);
}

#[test]
fn invalid_keys_are_rejected() {
    let mut c = empty();
    assert!(matches!(c.set("", ConfigValue::Integer(1)), Err(ConfigError::InvalidKey(_))));
    assert!(matches!(c.set("a..b", ConfigValue::Integer(1)), Err(ConfigError::InvalidKey(_))));
    assert!(c.get("a..b").is_none());
    assert!(!c.unset("a..b"));
}

#[test]
fn list_flattens_and_sorts() {
    let mut c = empty();
    assert!(c.set("service.port", ConfigValue::Integer(7724)).is_ok());
    assert!(c.set("agent.driver", ConfigValue::String("anthropic_api".into())).is_ok());
    assert_eq!(keys(&c), vec!["agent.driver", "service.port"]);
}

#[test]
fn error_messages_quote_the_key() {
    let mut c = empty();
    match c.set("a..b", ConfigValue::Integer(1)) {
        Err(e) => assert_eq!(e.message(), "invalid config key \"a..b\""),
        Ok(()) => panic!("empty part must be rejected"),
    }
    assert!(c.set("a", ConfigValue::Integer(1)).is_ok());
    match c.set("a.b.c", ConfigValue::Integer(1)) {
        Err(e) => assert_eq!(e.message(), "cannot descend into \"a\": not a table"),
        Ok(()) => panic!("a is not a table"),
    }
}

#[test]
fn set_replaces_and_keeps_other_keys() {
    let mut c = empty();
    assert!(c.set("x.y", ConfigValue::Integer(1)).is_ok());
    assert!(c.set("x.z", ConfigValue::Boolean(true)).is_ok());
    assert!(c.set("x.y", ConfigValue::Integer(5)).is_ok());
    assert!(is_integer(c.get("x.y"), 5));
    assert!(matches!(c.get("x.z"), Some(ConfigValue::Boolean(true))));
    assert_eq!(keys(&c), vec!["x.y", "x.z"]);
}

#[test]
fn keys_split_on_dots() {
    assert_eq!(split_key("a.b.c"), Some(vec!["a".to_string(), "b".to_string(), "c".to_string()]));
    assert_eq!(split_key("a."), None);
    assert_eq!(split_key(".a"), None);
    assert_eq!(split_key("single"), Some(vec!["single".to_string()]));
}

#[test]
fn tables_keep_keys_sorted() {
    let mut t = ConfigTable::new();
    t.insert("b".to_string(), ConfigValue::Integer(2));
    t.insert("a".to_string(), ConfigValue::Integer(1));
    t.insert("b".to_string(), ConfigValue::Integer(3));
    assert_eq!(t.len(), 2);
    let c = Config::from_table("/tmp/x.toml", t);
    assert_eq!(keys(&c), vec!["a", "b"]);
    assert!(is_integer(c.get("b"), 3));
    assert_eq!(c.path(), "/tmp/x.toml");
}

#[test]
fn save_and_reload_roundtrip() {
    let mut c = empty();
    assert!(c.set("service.port", ConfigValue::Integer(7724)).is_ok());
    assert!(c.set("agent.driver", ConfigValue::String("anthropic_api".to_string())).is_ok());
    let text = match c.to_text() {
        Ok(t) => t,
        Err(e) => panic!("render: {}", e.message()),
    };
    let reloaded = match Config::from_text(c.path(), &text) {
        Ok(r) => r,
        Err(e) => panic!("reload: {}", e.message()),
    };
    assert!(is_integer(reloaded.get("service.port"), 7724));
    assert!(is_string(reloaded.get("agent.driver"), "anthropic_api"));
    assert_eq!(reloaded.path(), c.path());
}

#[test]
fn parse_value_infers_types() {
    assert!(matches!(parse_value("7724"), ConfigValue::Integer(7724)));
    assert!(matches!(parse_value("true"), ConfigValue::Boolean(true)));
    assert!(matches!(parse_value("1.5"), ConfigValue::Float(ref s) if s == "1.5"));
    assert!(matches!(parse_value("anthropic_api"), ConfigValue::String(ref s) if s == "anthropic_api"));
    assert!(matches!(parse_value("\"quoted\""), ConfigValue::String(ref s) if s == "quoted"));
    match parse_value("[\"os\", \"email\"]") {
        ConfigValue::Array(arr) => assert_eq!(arr.len(), 2),
        other => panic!("expected array, got {other:?}"),
    }
}

#[test]
fn render_value_bare_strings() {
    assert_eq!(render_value(&ConfigValue::String("anthropic_api".to_string())), "anthropic_api");
    assert_eq!(render_value(&ConfigValue::Integer(7724)), "7724");
    assert_eq!(render_value(&ConfigValue::Boolean(true)), "true");
}

#[test]
fn literals_quote_strings_and_keep_numbers() {
    assert_eq!(render_toml_literal(&ConfigValue::String("a b".to_string())), "\"a b\"");
    assert_eq!(render_toml_literal(&ConfigValue::Integer(-3)), "-3");
    assert_eq!(render_toml_literal(&ConfigValue::Float("1.5".to_string())), "1.5");
    assert_eq!(render_toml_literal(&parse_value("[1, 2]")), "[1, 2]");
}

#[test]
fn parse_value_keeps_tables_sorted_and_readable() {
    let v = parse_value("{ z = 1, a = \"x\" }");
    let mut c = empty();
    assert!(c.set("t", v).is_ok());
    assert!(is_integer(c.get("t.z"), 1));
    assert!(is_string(c.get("t.a"), "x"));
    assert_eq!(keys(&c), vec!["t.a", "t.z"]);
}

#[test]
fn unparsable_documents_are_parse_errors() {
    match Config::from_text("/x/config.toml", "a = = 1") {
        Err(ConfigError::Parse(m)) => assert!(!m.is_empty()),
        _ => panic!("expected a parse error"),
    }
    match Config::from_text("/x/config.toml", "[agent]\ndriver = \"anthropic_api\"\n") {
        Ok(c) => {
            assert!(is_string(c.get("agent.driver"), "anthropic_api"));
            assert_eq!(c.path(), "/x/config.toml");
        }
        Err(e) => panic!("parse: {}", e.message()),
    }
}

#[test]
fn parse_value_of_broken_literal_is_the_text() {
    assert!(matches!(parse_value("[1,"), ConfigValue::String(ref s) if s == "[1,"));
    assert!(matches!(parse_value("1\nb = 2"), ConfigValue::Integer(1)));
}

#[test]
fn list_shows_what_set_wrote() {
    let mut c = empty();
    assert!(c.set("a.b.c", ConfigValue::Integer(1)).is_ok());
    assert!(c.set("a.x", parse_value("[\"os\"]")).is_ok());
    assert!(c.set("ab", ConfigValue::Boolean(false)).is_ok());
    let listed = c.list();
    assert!(listed.iter().any(|(k, v)| k == "a.b.c" && matches!(v, ConfigValue::Integer(1))));
    assert!(listed.iter().any(|(k, v)| k == "ab" && matches!(v, ConfigValue::Boolean(false))));
    assert!(listed.iter().any(|(k, v)| k == "a.x" && render_toml_literal(v) == "[\"os\"]"));
    assert!(is_integer(c.get("a.b.c"), 1));
}

#[test]
fn unreadable_float_text_cannot_be_rendered() {
    let mut c = empty();
    assert!(c.set("x", ConfigValue::Float("abc".to_string())).is_ok());
    match c.to_text() {
        Err(ConfigError::Serialize(m)) => assert_eq!(m, "abc"),
        _ => panic!("expected a render error"),
    }
    assert_eq!(render_toml_literal(&ConfigValue::Float("abc".to_string())), "");
    assert_eq!(render_toml_literal(&ConfigValue::Datetime("1979-05-27".to_string())), "1979-05-27");
}

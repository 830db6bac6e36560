use careerbot::config::{Config, ConfigValue};
use careerbot::daemon::{already_running, shutdown_status, socket_action, status_response, DaemonError, SocketAction};
use careerbot::messaging::{
    first_data_payload, group_already_exists, RedisStreamConsumerFactory, RedisStreamPublisher, RedisStreamPublisherFactory,
};
use careerbot::notifications::{delivery_record, NotificationError, OsChannel};
use careerbot::paths::Paths;
use careerbot::runtime::{string_config, DriverChoice, Runtime, RuntimeError};
use careerbot::subprocess::ClaudeCodeDriver;
use careerbot::stream;

fn rooted() -> Runtime {
    Runtime { config: Config::empty("/data/config.toml"), paths: Paths::rooted_at("/data", "/state") }
}

fn set(rt: &mut Runtime, key: &str, value: &str) {
    assert!(rt.config.set(key, ConfigValue::String(value.to_string())).is_ok());
}

#[test]
fn build_driver_errors_without_driver_key() {
    let rt = rooted();
    match rt.build_driver("default-model", "agent-cli") {
        Err(RuntimeError::MissingConfig { key, hint }) => {
            assert_eq!(key, "agent.driver");
            assert!(hint.contains("anthropic_api"));
        }
        _ => panic!("expected MissingConfig"),
    }
}

#[test]
fn build_driver_errors_without_api_key() {
    let mut rt = rooted();
    set(&mut rt, "agent.driver", "anthropic_api");
    let err = match rt.build_driver("default-model", "agent-cli") {
        Err(e) => e,
        Ok(_) => panic!("expected error"),
    };
    assert!(matches!(err, RuntimeError::MissingConfig { key: "agent.anthropic_api.api_key", .. }));
    assert_eq!(
        err.message(),
        "missing config key \"agent.anthropic_api.api_key\"; run `careerbot config agent.anthropic_api.api_key <KEY>`"
    );
}

#[test]
fn build_driver_rejects_unknown_driver() {
    let mut rt = rooted();
    set(&mut rt, "agent.driver", "nonexistent");
    let err = match rt.build_driver("default-model", "agent-cli") {
        Err(e) => e,
        Ok(_) => panic!("expected error"),
    };
    assert!(matches!(err, RuntimeError::UnsupportedDriver(ref s) if s == "nonexistent"));
    assert_eq!(err.message(), "unsupported agent.driver: \"nonexistent\"");
}

#[test]
fn build_driver_returns_anthropic_when_configured() {
    let mut rt = rooted();
    set(&mut rt, "agent.driver", "anthropic_api");
    set(&mut rt, "agent.anthropic_api.api_key", "sk-test");
    let driver = match rt.build_driver("default-model", "agent-cli") {
        Ok(DriverChoice::Api(d)) => d,
        _ => panic!("build driver"),
    };
    let caps = driver.capabilities();
    assert!(!caps.native_web_search);
    assert!(caps.file_attachments);
    assert_eq!(driver.api_key(), "sk-test");
    assert_eq!(driver.model(), "default-model");
    assert_eq!(driver.base_url(), "https://api.anthropic.com");
    set(&mut rt, "agent.anthropic_api.model", "m2");
    set(&mut rt, "agent.anthropic_api.base_url", "http://localhost:1");
    let driver = match rt.build_driver("default-model", "agent-cli") {
        Ok(DriverChoice::Api(d)) => d,
        _ => panic!("build driver"),
    };
    assert_eq!(driver.model(), "m2");
    assert_eq!(driver.base_url(), "http://localhost:1");
}

#[test]
fn build_driver_selects_the_subprocess_driver() {
    let mut rt = rooted();
    set(&mut rt, "agent.driver", "claude_code");
    let agent_bin = match rt.build_driver("default-model", "agent-cli") {
        Ok(DriverChoice::Subprocess { agent_bin }) => agent_bin,
        _ => panic!("expected the subprocess driver"),
    };
    assert_eq!(agent_bin, "agent-cli");
    let driver = ClaudeCodeDriver::with_binaries(&agent_bin, "/usr/bin/careerbot");
    let caps = driver.capabilities();
    assert!(caps.native_web_search);
    assert!(caps.file_attachments);
    assert_eq!(driver.agent_bin(), "agent-cli");
}

#[test]
fn string_settings_ignore_other_types() {
    let mut rt = rooted();
    assert!(rt.config.set("a.n", ConfigValue::Integer(1)).is_ok());
    set(&mut rt, "a.s", "text");
    assert_eq!(string_config(&rt.config, "a.n"), None);
    assert_eq!(string_config(&rt.config, "a.s"), Some("text".to_string()));
    assert_eq!(string_config(&rt.config, "a.missing"), None);
}

#[test]
fn socket_decisions() {
    assert_eq!(socket_action(false, false), SocketAction::Bind);
    assert_eq!(socket_action(true, true), SocketAction::Refuse);
    assert_eq!(socket_action(true, false), SocketAction::RemoveStale);
    let e = already_running("/run/careerbot.sock");
    assert!(matches!(e, DaemonError::AlreadyRunning { .. }));
    assert_eq!(e.message(), "another careerbot daemon is already listening on /run/careerbot.sock");
    assert_eq!(shutdown_status(), 202);
    let s = status_response("0.1.0", "2024-01-01T00:00:00+00:00", "/run/careerbot.sock");
    assert_eq!(s.version, "0.1.0");
    assert!(s.started_at.contains('T'));
    assert_eq!(s.socket_path, "/run/careerbot.sock");
}

#[test]
fn notification_delivery_records() {
    assert_eq!(OsChannel::new().name(), "os");
    assert_eq!(OsChannel::default().name(), "os");
    assert_eq!(delivery_record(Ok(())), (true, None));
    assert_eq!(
        delivery_record(Err(NotificationError::Backend("dbus down".to_string()))),
        (false, Some("dbus down".to_string()))
    );
}

#[test]
fn redis_endpoints_are_parsed_without_connecting() {
    let publisher = match RedisStreamPublisher::new("redis://127.0.0.1:6379", "jobs") {
        Ok(p) => p,
        Err(_) => panic!("a redis URL is accepted"),
    };
    assert_eq!(publisher.stream_key(), "jobs");
    assert!(RedisStreamPublisher::new("not a url", "jobs").is_err());
    let client = match stream::RedisStreamPublisher::get_client("redis://localhost/0") {
        Ok(c) => c,
        Err(_) => panic!("a redis URL is accepted"),
    };
    let p = stream::RedisStreamPublisher::new(client, "jobs");
    assert_eq!(p.stream(), "jobs");
    assert!(stream::RedisStreamPublisher::get_client("http://example.com").is_err());
    let _ = (RedisStreamPublisherFactory, RedisStreamConsumerFactory);
}

#[test]
fn existing_consumer_group_is_tolerated() {
    assert!(group_already_exists("BUSYGROUP Consumer Group name already exists"));
    assert!(!group_already_exists("ERR wrong number of arguments"));
}

#[test]
fn first_entry_with_data_is_the_message() {
    let entry = |fields: &[(&str, &str)]| -> Vec<(String, String)> {
        fields.iter().map(|(k, v)| (k.to_string(), v.to_string())).collect()
    };
    let entries = vec![entry(&[("other", "x")]), entry(&[("k", "v"), ("data", "{\"a\":1}")]), entry(&[("data", "2")])];
    assert_eq!(first_data_payload(&entries), Some("{\"a\":1}".to_string()));
    assert_eq!(first_data_payload(&[entry(&[("other", "x")])]), None);
    assert_eq!(first_data_payload(&[]), None);
}

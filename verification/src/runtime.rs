//! The loaded session: configuration and paths, and the agent driver the
//! configuration selects.
use crate::anthropic::AnthropicApiDriver;
use crate::config::{debug_quoted, debug_quoted_spec, get_key, Config, ConfigError, ConfigTable, ConfigValue};
use crate::external::{db_error_text, io_error_text};
use crate::paths::Paths;
use crate::text::{concat2, concat3};
use vstd::prelude::*;

verus! {

/// A session: the parsed configuration and the resolved paths.
pub struct Runtime {
    pub config: Config,
    pub paths: Paths,
}

/// Why a session could not be opened or a driver built.
#[derive(Debug)]
pub enum RuntimeError {
    Io(std::io::Error),
    Config(ConfigError),
    Db(sqlx::Error),
    /// A required key is absent; the hint says how to set it.
    MissingConfig { key: &'static str, hint: &'static str },
    /// `agent.driver` names a driver that does not exist.
    UnsupportedDriver(String),
}

impl RuntimeError {
    /// Human-readable description.
    pub fn message(&self) -> (r: String)
        ensures
            self matches RuntimeError::MissingConfig { key, hint } ==> r@ == "missing config key "@
                + debug_quoted_spec(key@) + "; "@ + hint@,
            self matches RuntimeError::UnsupportedDriver(s) ==> r@ == "unsupported agent.driver: "@
                + debug_quoted_spec(s@),
    {
        match self {
            RuntimeError::Io(e) => io_error_text(e),
            RuntimeError::Config(e) => e.message(),
            RuntimeError::Db(e) => db_error_text(e),
            RuntimeError::MissingConfig { key, hint } => {
                let q = debug_quoted(key);
                concat3("missing config key ", q.as_str(), "; ").concat(hint)
            },
            RuntimeError::UnsupportedDriver(s) => {
                let q = debug_quoted(s.as_str());
                concat2("unsupported agent.driver: ", q.as_str())
            },
        }
    }
}

/// The string stored under `key`, when the value there is a string.
pub open spec fn string_config_spec(root: ConfigTable, key: Seq<char>) -> Option<Seq<char>> {
    match get_key(root, key) {
        Some(ConfigValue::String(s)) => Some(s@),
        _ => None,
    }
}

/// Reads a string setting.
pub fn string_config(cfg: &Config, key: &str) -> (r: Option<String>)
    ensures
        match r {
            Some(s) => string_config_spec(cfg.root(), key@) == Some(s@),
            None => string_config_spec(cfg.root(), key@).is_none(),
        },
{
    match cfg.get(key) {
        Some(ConfigValue::String(s)) => Some(s.clone()),
        _ => None,
    }
}

/// How to select the driver.
pub open spec fn driver_hint() -> Seq<char> {
    "run `careerbot config agent.driver anthropic_api` (only anthropic_api is implemented in this phase)"@
}

/// How to set the API key.
pub open spec fn api_key_hint() -> Seq<char> {
    "run `careerbot config agent.anthropic_api.api_key <KEY>`"@
}

/// The `agent.driver` value that selects the HTTP driver.
pub open spec fn api_driver_name() -> Seq<char> {
    "anthropic_api"@
}

/// The `agent.driver` value that selects the agent CLI driver.
pub open spec fn cli_driver_name() -> Seq<char> {
    "claude_code"@
}

/// The driver that the configuration selects: the HTTP driver, ready to
/// use, or the subprocess driver, to be built around the agent binary
/// once that binary has been probed.
pub enum DriverChoice {
    Api(AnthropicApiDriver),
    Subprocess { agent_bin: String },
}

impl Runtime {
    /// The driver the configuration selects. `agent.driver` must be set,
    /// to `anthropic_api` or `claude_code`; any other value is refused.
    /// `anthropic_api` needs `agent.anthropic_api.api_key`, and takes its
    /// model and base URL from `agent.anthropic_api.model` and
    /// `agent.anthropic_api.base_url` when those are set (else
    /// `default_model` and the public endpoint). `claude_code` runs the
    /// agent CLI `agent_bin`.
    pub fn build_driver(&self, default_model: &str, agent_bin: &str) -> (r: Result<DriverChoice, RuntimeError>)
        ensures
            match string_config_spec(self.config.root(), "agent.driver"@) {
                None => r matches Err(RuntimeError::MissingConfig { key, hint }) && key@ == "agent.driver"@
                    && hint@ == driver_hint(),
                Some(d) => if d == api_driver_name() {
                    match string_config_spec(self.config.root(), "agent.anthropic_api.api_key"@) {
                        None => r matches Err(RuntimeError::MissingConfig { key, hint }) && key@
                            == "agent.anthropic_api.api_key"@ && hint@ == api_key_hint(),
                        Some(k) => r matches Ok(DriverChoice::Api(drv)) && drv.api_key_view() == k
                            && drv.model_view() == (
                        match string_config_spec(self.config.root(), "agent.anthropic_api.model"@) {
                            Some(m) => m,
                            None => default_model@,
                        }) && drv.base_url_view() == (
                        match string_config_spec(self.config.root(), "agent.anthropic_api.base_url"@) {
                            Some(b) => b,
                            None => "https://api.anthropic.com"@,
                        }),
                    }
                } else if d == cli_driver_name() {
                    r matches Ok(DriverChoice::Subprocess { agent_bin: b }) && b@ == agent_bin@
                } else {
                    r matches Err(RuntimeError::UnsupportedDriver(s)) && s@ == d
                },
            },
    {
        let driver_name = match string_config(&self.config, "agent.driver") {
            Some(d) => d,
            None => {
                return Err(
                    RuntimeError::MissingConfig {
                        key: "agent.driver",
                        hint: "run `careerbot config agent.driver anthropic_api` (only anthropic_api is implemented in this phase)",
                    },
                );
            },
        };
        if !crate::text::str_eq(driver_name.as_str(), "anthropic_api") {
            if crate::text::str_eq(driver_name.as_str(), "claude_code") {
                return Ok(DriverChoice::Subprocess { agent_bin: crate::text::owned(agent_bin) });
            }
            return Err(RuntimeError::UnsupportedDriver(driver_name));
        }
        let api_key = match string_config(&self.config, "agent.anthropic_api.api_key") {
            Some(k) => k,
            None => {
                return Err(
                    RuntimeError::MissingConfig {
                        key: "agent.anthropic_api.api_key",
                        hint: "run `careerbot config agent.anthropic_api.api_key <KEY>`",
                    },
                );
            },
        };
        let mut driver = AnthropicApiDriver::new(api_key.as_str(), default_model);
        match string_config(&self.config, "agent.anthropic_api.model") {
            Some(m) => {
                driver = driver.with_model(m.as_str());
            },
            None => {},
        }
        match string_config(&self.config, "agent.anthropic_api.base_url") {
            Some(b) => {
                driver = driver.with_base_url(b.as_str());
            },
            None => {},
        }
        Ok(DriverChoice::Api(driver))
    }
}

} // verus!

//! The gateway's settings, and where they are read from.
use vstd::prelude::*;
use vstd::string::StringExecFns;

verus! {

/// The gateway's settings.
#[derive(Debug, Clone)]
pub struct Settings {
    pub database: DatabaseSettings,
    pub mqtt: MqttSettings,
}

/// Where readings are stored.
#[derive(Debug, Clone)]
pub struct DatabaseSettings {
    pub url: String,
}

/// The MQTT broker to read from.
#[derive(Debug, Clone)]
pub struct MqttSettings {
    pub host: String,
    pub port: u16,
    pub topic: String,
}

/// The run mode used when the environment names none.
pub open spec fn default_run_mode() -> Seq<char> {
    "development"@
}

/// The sources of the settings, in order of increasing precedence: built-in
/// defaults, the base file, the run mode's file (both optional), then
/// environment variables with the given prefix, whose nested keys are joined
/// by the given separator.
pub struct ConfigSources {
    pub defaults: Settings,
    pub run_mode: String,
    pub base_file: String,
    pub mode_file: String,
    pub env_prefix: String,
    pub env_separator: String,
}

impl Settings {
    /// The settings used when no file or variable sets a value: a local
    /// SQLite file, and a broker on localhost at the standard MQTT port
    /// listening on `sensors/#`.
    pub fn built_in_defaults() -> (s: Settings)
        ensures
            s.database.url@ == "sqlite:gateway.db"@,
            s.mqtt.host@ == "localhost"@,
            s.mqtt.port == 1883,
            s.mqtt.topic@ == "sensors/#"@,
    {
        Settings {
            database: DatabaseSettings { url: String::from_str("sqlite:gateway.db") },
            mqtt: MqttSettings {
                host: String::from_str("localhost"),
                port: 1883,
                topic: String::from_str("sensors/#"),
            },
        }
    }

    /// Settings for tests: an in-memory SQLite database and a local broker.
    pub fn new_test_default() -> (s: Settings)
        ensures
            s.database.url@ == "sqlite::memory:"@,
            s.mqtt.host@ == "localhost"@,
            s.mqtt.port == 1883,
            s.mqtt.topic@ == "test/#"@,
    {
        Settings {
            database: DatabaseSettings { url: String::from_str("sqlite::memory:") },
            mqtt: MqttSettings {
                host: String::from_str("localhost"),
                port: 1883,
                topic: String::from_str("test/#"),
            },
        }
    }
}

/// Where to read the settings from, given the value of the `RUN_MODE`
/// environment variable (`None` when it is unset or not Unicode): the run mode
/// defaults to `development`, and selects the file `config/<run mode>`.
pub fn config_sources(run_mode_var: Option<String>) -> (c: ConfigSources)
    ensures
        c.run_mode@ == match run_mode_var {
            Some(m) => m@,
            None => default_run_mode(),
        },
        c.base_file@ == "config/base"@,
        c.mode_file@ == "config/"@ + c.run_mode@,
        c.env_prefix@ == "APP"@,
        c.env_separator@ == "__"@,
        c.defaults.database.url@ == "sqlite:gateway.db"@,
        c.defaults.mqtt.host@ == "localhost"@,
        c.defaults.mqtt.port == 1883,
        c.defaults.mqtt.topic@ == "sensors/#"@,
{
    let run_mode = match run_mode_var {
        Some(m) => m,
        None => String::from_str("development"),
    };
    let mode_file = String::from_str("config/").concat(run_mode.as_str());
    ConfigSources {
        defaults: Settings::built_in_defaults(),
        run_mode,
        base_file: String::from_str("config/base"),
        mode_file,
        env_prefix: String::from_str("APP"),
        env_separator: String::from_str("__"),
    }
}

} // verus!

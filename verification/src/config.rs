//! The application configuration, made of the settings read from the environment.
use crate::types::config::ApplicationConfig;
use vstd::prelude::*;

verus! {

/// Why the configuration could not be read.
#[derive(Debug)]
pub enum ConfigurationError {
    /// The environment could not be loaded as a configuration.
    Unreadable(config::ConfigError),
    /// The setting named `key` is missing or is not text.
    Setting { key: String, cause: config::ConfigError },
}

/// The configuration made of the three settings as they were read from the environment (under
/// the configuration prefix); the first one that could not be read, in the order of the
/// fields, is the error.
pub fn get_application_config(
    redis_connection_string: Result<String, config::ConfigError>,
    realtime_api_key: Result<String, config::ConfigError>,
    reference_data_api_key: Result<String, config::ConfigError>,
) -> (r: Result<ApplicationConfig, ConfigurationError>)
    ensures
        match (redis_connection_string, realtime_api_key, reference_data_api_key) {
            (Ok(a), Ok(b), Ok(c)) => r matches Ok(cfg) && cfg.redis_connection_string == a
                && cfg.realtime_api_key == b && cfg.reference_data_api_key == c,
            (Err(e), _, _) => r matches Err(ConfigurationError::Setting { key, cause }) && key@
                == "redis_connection_string"@ && cause == e,
            (Ok(_), Err(e), _) => r matches Err(ConfigurationError::Setting { key, cause }) && key@
                == "realtime_api_key"@ && cause == e,
            (Ok(_), Ok(_), Err(e)) => r matches Err(ConfigurationError::Setting { key, cause })
                && key@ == "reference_data_api_key"@ && cause == e,
        },
{
    let redis_connection_string = match redis_connection_string {
        Ok(v) => v,
        Err(cause) => {
            return Err(
                ConfigurationError::Setting {
                    key: String::from_str("redis_connection_string"),
                    cause,
                },
            )
        },
    };
    let realtime_api_key = match realtime_api_key {
        Ok(v) => v,
        Err(cause) => {
            return Err(
                ConfigurationError::Setting { key: String::from_str("realtime_api_key"), cause },
            )
        },
    };
    let reference_data_api_key = match reference_data_api_key {
        Ok(v) => v,
        Err(cause) => {
            return Err(
                ConfigurationError::Setting { key: String::from_str("reference_data_api_key"), cause },
            )
        },
    };
    Ok(ApplicationConfig { redis_connection_string, realtime_api_key, reference_data_api_key })
}

} // verus!

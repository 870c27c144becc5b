//! Process configuration. The binary gathers the raw values (from its
//! configuration files and environment); validating them and building the
//! settings happens here.

use vstd::prelude::*;

verus! {

/// Why settings could not be built.
#[derive(Debug, Clone, Copy, PartialEq, Eq, Structural)]
pub enum ConfigError {
    MissingApiKey,
}

impl ConfigError {
    /// A human-readable description of the failure.
    pub fn message(&self) -> (m: String)
        ensures
            m@ == "missing configuration value: api_key"@,
    {
        "missing configuration value: api_key".to_owned()
    }
}

#[derive(Debug, Clone)]
pub struct Settings {
    pub api_key: String,
}

impl Settings {
    /// Build the settings from the gathered raw value: succeeds exactly
    /// when an API key was found, and fails with `MissingApiKey` otherwise.
    pub fn new(api_key: Option<String>) -> (r: Result<Settings, ConfigError>)
        ensures
            api_key is Some ==> (r matches Ok(s) && s.api_key == api_key.unwrap()),
            api_key is None ==> (r matches Err(e) && e == ConfigError::MissingApiKey),
    {
        match api_key {
            Some(key) => Ok(Settings { api_key: key }),
            None => Err(ConfigError::MissingApiKey),
        }
    }
}

} // verus!

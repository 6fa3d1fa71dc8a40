//! The application configuration: the values the process starts with,
//! and the pure parts of reading them — the boundary fills the struct
//! from its environment.

use vstd::prelude::*;
use crate::text::dec_str;
use crate::text::seq_eq_ci;
use crate::text::str_eq_ci;
use crate::text::u32_dec_string;

verus! {

/// Which kind of deployment the process runs as.
#[derive(Clone, Copy, Debug, PartialEq, Eq, Structural)]
pub enum Environment {
    Development,
    Production,
    Test,
}

/// What can go wrong assembling a configuration.
#[derive(Debug)]
pub enum ConfigError {
    MissingEnvVar(String),
    InvalidPort,
    InvalidEnvironment(String),
}

/// The application configuration.
#[derive(Debug)]
pub struct Config {
    pub database_url: String,
    pub server_host: String,
    pub server_port: u16,
    pub log_level: String,
    pub environment: Environment,
}

impl Config {
    /// The address the server binds to: host, a colon, and the port
    /// in decimal.
    pub fn server_address(&self) -> (r: String)
        ensures
            r@ == self.server_host@ + ":"@ + dec_str(self.server_port as int),
    {
        let mut s = self.server_host.clone();
        s.append(":");
        let port = u32_dec_string(self.server_port as u32);
        s.append(port.as_str());
        s
    }

    /// Whether the process runs as a development deployment.
    pub fn is_development(&self) -> (r: bool)
        ensures
            r == (self.environment is Development),
    {
        match self.environment {
            Environment::Development => true,
            _ => false,
        }
    }
}

/// Reads a deployment kind from its name, ASCII case aside; anything
/// unrecognised is reported with the text as given.
pub fn parse_environment(s: &str) -> (r: Result<Environment, ConfigError>)
    ensures
        match r {
            Ok(env) => match env {
                Environment::Development => seq_eq_ci(s@, "development"@) || seq_eq_ci(
                    s@,
                    "dev"@,
                ),
                Environment::Production => seq_eq_ci(s@, "production"@) || seq_eq_ci(
                    s@,
                    "prod"@,
                ),
                Environment::Test => seq_eq_ci(s@, "test"@),
            },
            Err(e) => {
                &&& !seq_eq_ci(s@, "development"@)
                &&& !seq_eq_ci(s@, "dev"@)
                &&& !seq_eq_ci(s@, "production"@)
                &&& !seq_eq_ci(s@, "prod"@)
                &&& !seq_eq_ci(s@, "test"@)
                &&& e matches ConfigError::InvalidEnvironment(m) && m@ == s@
            },
        },
{
    if str_eq_ci(s, "development") || str_eq_ci(s, "dev") {
        Ok(Environment::Development)
    } else if str_eq_ci(s, "production") || str_eq_ci(s, "prod") {
        Ok(Environment::Production)
    } else if str_eq_ci(s, "test") {
        Ok(Environment::Test)
    } else {
        Err(ConfigError::InvalidEnvironment(String::from_str(s)))
    }
}

} // verus!

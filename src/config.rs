//! Server configuration: command-line values, each overridden by the
//! environment where the environment sets it.

use vstd::prelude::*;
use crate::error::Error;

verus! {

#[derive(Debug, Clone, PartialEq, Eq)]
pub struct Config {
    /// Which errors to log (info, warn or error).
    pub log_level: String,
    /// The port the server listens on.
    pub port: u16,
    pub db_user: String,
    pub db_password: String,
    pub db_host: String,
    pub db_port: u16,
    pub db_name: String,
}

/// The environment's settings: `PORT`, `POSTGRES_USER`, `POSTGRES_PASSWORD`,
/// `POSTGRES_HOST`, `POSTGRES_PORT` and `POSTGRES_DB`, each where it is set.
#[derive(Debug, Clone, PartialEq, Eq)]
pub struct ConfigEnv {
    pub port: Option<String>,
    pub db_user: Option<String>,
    pub db_password: Option<String>,
    pub db_host: Option<String>,
    pub db_port: Option<String>,
    pub db_name: Option<String>,
}

/// What `str::parse::<u16>` gives for a text.
pub uninterp spec fn parsed_u16(text: Seq<char>) -> Option<u16>;

/// Relies on `str::parse::<u16>`: an optional `+` and decimal digits, in range.
#[verifier::external_body]
fn parse_u16(text: &str) -> (r: Option<u16>)
    ensures
        r == parsed_u16(text@),
{
    text.parse::<u16>().ok()
}

/// A port from the environment where it is set, else the given one.
pub open spec fn port_setting(env: Option<String>, fallback: u16) -> Option<u16> {
    match env {
        Some(t) => parsed_u16(t@),
        None => Some(fallback),
    }
}

/// A text from the environment where it is set, else the given one.
pub open spec fn text_setting(env: Option<String>, fallback: Seq<char>) -> Seq<char> {
    match env {
        Some(t) => t@,
        None => fallback,
    }
}

fn pick_text(env: Option<String>, fallback: String) -> (r: String)
    ensures
        r@ == text_setting(env, fallback@),
{
    match env {
        Some(t) => t,
        None => fallback,
    }
}

fn pick_port(env: &Option<String>, fallback: u16) -> (r: Option<u16>)
    ensures
        r == port_setting(*env, fallback),
{
    match env {
        Some(t) => parse_u16(t.as_str()),
        None => Some(fallback),
    }
}

impl Config {
    /// The configuration: each command-line value, unless the environment
    /// sets it. A port that is set and does not parse is a `ParseError`.
    /// The database password must be set in the environment.
    pub fn new(args: Config, env: ConfigEnv) -> (r: Result<Config, Error>)
        requires
            env.db_password is Some,
        ensures
            match (port_setting(env.port, args.port), port_setting(env.db_port, args.db_port)) {
                (Some(port), Some(db_port)) => r matches Ok(c) && c.port == port && c.db_port
                    == db_port && c.log_level@ == args.log_level@ && c.db_user@ == text_setting(
                    env.db_user,
                    args.db_user@,
                ) && c.db_password@ == env.db_password->Some_0@ && c.db_host@ == text_setting(
                    env.db_host,
                    args.db_host@,
                ) && c.db_name@ == text_setting(env.db_name, args.db_name@),
                _ => r == Err::<Config, Error>(Error::ParseError),
            },
    {
        let port = match pick_port(&env.port, args.port) {
            Some(p) => p,
            None => return Err(Error::ParseError),
        };
        let db_port = match pick_port(&env.db_port, args.db_port) {
            Some(p) => p,
            None => return Err(Error::ParseError),
        };
        let db_password = match env.db_password {
            Some(p) => p,
            None => args.db_password,
        };
        Ok(Config {
            log_level: args.log_level,
            port,
            db_user: pick_text(env.db_user, args.db_user),
            db_password,
            db_host: pick_text(env.db_host, args.db_host),
            db_port,
            db_name: pick_text(env.db_name, args.db_name),
        })
    }
}

} // verus!

//! The configuration that `server`, `debug`, `test` and `entity` blocks describe.
use vstd::prelude::*;
use crate::value::Value;

verus! {

/// What a command line asks for.
#[derive(Clone, Copy, Debug, PartialEq, Eq, Structural)]
pub enum Command {
    Serve,
    Client,
}

impl Command {
    /// The command of this name: `serve` or `client`.
    pub fn from_name(name: &str) -> (r: Option<Command>)
        ensures
            r == (if name@ == "serve"@ {
                Some(Command::Serve)
            } else if name@ == "client"@ {
                Some(Command::Client)
            } else {
                None
            }),
    {
        if crate::text::str_eq(name, "serve") {
            Some(Command::Serve)
        } else if crate::text::str_eq(name, "client") {
            Some(Command::Client)
        } else {
            None
        }
    }
}

/// The language of generated entity code.
#[derive(Clone, Copy, Debug, PartialEq, Eq, Structural)]
pub enum Environment {
    Rust,
    Go,
    NodeJS,
    Python,
    Java,
}

pub struct ServerConf {
    /// Host and port to listen on.
    pub bind: (String, u16),
    pub jwt_secret: Option<String>,
    pub path_prefix: Option<String>,
}

pub struct DebugConf {
    pub log_queries: bool,
    pub log_migrations: bool,
    pub log_seed_records: bool,
}

pub struct TestConf {
    pub reset_after_find: Value,
}

#[derive(Clone)]
pub struct EntityGeneratorConf {
    pub name: Option<String>,
    pub provider: Environment,
    /// The directory that generated files go to.
    pub dest: String,
}

/// The entity generator for Go.
pub struct GoEntityGenerator {}

impl GoEntityGenerator {
    pub fn new() -> Self {
        GoEntityGenerator {}
    }
}

/// The entity generator for Python.
pub struct PythonEntityGenerator {}

impl PythonEntityGenerator {
    pub fn new() -> Self {
        PythonEntityGenerator {}
    }
}

} // verus!

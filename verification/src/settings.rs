//! The configuration surface the subsystem consumes.
//!
//! Loading these values (from files, arguments or the environment) is the
//! surrounding application's concern; the library only reads them.
use vstd::prelude::*;

verus! {

/// Where the relational store lives and how many pooled connections it gets.
#[derive(Debug, Default)]
pub struct Database {
    pub path: String,
    pub connections: usize,
}

/// The cache endpoint and its optional credential.
#[derive(Debug, Default)]
pub struct Redis {
    pub server: String,
    pub password: Option<String>,
}

/// The session timeout in seconds: how long a session outlives its last
/// authenticated request.
#[derive(Debug, Default)]
pub struct Session {
    pub timeout: usize,
}

/// The full configuration the application runs under.
#[derive(Debug, Default)]
pub struct Settings {
    pub config_name: String,
    pub service_port: u32,
    pub database: Database,
    pub redis: Redis,
    pub tera_templates: String,
    pub session: Session,
}

} // verus!

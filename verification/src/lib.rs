//! Startup logic of a small web front end: the listen port is validated, the
//! page templates are compiled into a registry, requests are matched against a
//! fixed route table and two static mounts, and a state machine orders the
//! steps from an unconfigured process to a running server.

pub mod bootstrap;
pub mod mounts;
pub mod port;
pub mod response;
pub mod routes;
pub mod site;
pub mod templates;
pub mod text;

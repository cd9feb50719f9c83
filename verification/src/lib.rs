//! Credential management and login-flow logic for a captive-portal WiFi
//! gateway tool.
//!
//! The library holds the verified core: a credential store keyed by
//! identifier and mirrored as environment-variable assignments, the
//! connectivity-gate classification of network-status output, the login
//! request body and response classification, shell-integration decisions,
//! and the command-line dispatcher. All I/O (prompts, files, subprocesses)
//! lives outside the library and hands plain values in and out.

pub mod cli;
pub mod login;
pub mod shell;
pub mod store;
pub mod strutil;
pub mod wifi;

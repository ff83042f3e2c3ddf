//! Verified core of a command-line client for a remote file-sharing service.
//!
//! The crate holds the logic that is worth proving: the credential store and
//! its persistence format, the descriptors of the HTTP operations, the
//! refresh-and-retry protocol that wraps every authenticated request, and the
//! progress accounting of streaming transfers. The surrounding program (HTTP
//! transport, terminal prompts, file handling) drives these types and performs
//! the actions they decide on.

pub mod archive;
pub mod auth;
pub mod config;
pub mod config_text;
pub mod human_size;
pub mod request;
pub mod text;
pub mod transfer;

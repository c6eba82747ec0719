//! Discovery of the repositories of a GitLab group: configuration checks,
//! request construction, page filtering and the paging state machine.
//!
//! The library performs no input or output. A caller reads the credential,
//! sends each request that the state machine asks for and hands the decoded
//! page back.

pub mod fetch;
pub mod laws;
pub mod project;
pub mod provider;
pub mod repository;
pub mod text;

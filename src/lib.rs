//! Directory (LDAP) search results as an ordered, lazily pulled sequence of
//! records, and their projection into flat tables.
//!
//! - `options`: the caller's options resolved into typed settings.
//! - `ldap`: request settings for the protocol client, and the meaning of
//!   the result codes it reports.
//! - `shape`: one entry normalised into a record with name-ordered attributes.
//! - `bridge`: the bounded hand-over between the task that reads results and
//!   the consumer that pulls them.
//! - `project`: records flattened by field selectors.
//! - `commands`, `config`: what the host shell sees of the library.

pub mod bridge;
pub mod commands;
pub mod config;
pub mod ldap;
pub mod options;
pub mod project;
pub mod shape;
pub mod text;

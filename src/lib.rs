//! Finds the GitHub repositories a project depends on and stars them.
//!
//! - [`discovery`]: repository identities, the parser for free-form
//!   references, and detection of the ecosystems a project uses.
//! - [`dispatch`]: joining the results of the per-ecosystem discoveries.
//! - [`reconcile`]: deduplication and the step-by-step starring run.
//! - [`ecosystems`]: what each ecosystem's files and registries contribute.
//! - [`github`]: reading the answers of the GitHub API.
//! - [`config`]: where the access token is kept.
//! - [`candidates`], [`text`], [`order`], [`json`]: shared string handling,
//!   string order, and a plain model of decoded documents.

pub mod candidates;
pub mod config;
pub mod discovery;
pub mod dispatch;
pub mod ecosystems;
pub mod github;
pub mod json;
pub mod order;
pub mod reconcile;
pub mod text;

pub use reconcile::{RunEventHandler, RunSummary, StarredRepository};

//! Finds the working trees below a directory and says which of them need
//! attention: which hold changes that are not committed, and which hold
//! branches with commits that their upstream lacks. On request the branches
//! are pushed.
//!
//! - [`crawl`] finds the working trees, [`path`] is its model of places and
//!   paths.
//! - [`status`] classifies a working tree as dirty or not.
//! - [`branch`] finds the branches that are ahead of their upstream.
//! - [`push`] plans a push and reads its result; the transfer itself is the
//!   caller's part.
//! - [`report`] puts the findings of a run together.
//! - [`ask`] and [`config`] read answers and settings.
//! - [`engine`] holds every call into the version-control engine, and with
//!   them everything that is believed and not proved.

pub mod ask;
pub mod branch;
pub mod config;
pub mod crawl;
pub mod engine;
pub mod path;
pub mod push;
pub mod report;
pub mod status;

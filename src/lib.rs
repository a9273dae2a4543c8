//! A lockfile of pinned external build artifacts: each source records a
//! version and a content hash, and the reconciliation engine moves them
//! forward under one of three update schemes.
pub mod text;
pub mod weburl;
pub mod updater;
pub mod source;
pub mod update;
pub mod run;
pub mod add;
pub mod delete;
pub mod edit;
pub mod logging;

//! An in-process state backend for a local blockchain execution environment:
//! account and storage records behind one read/write/commit interface, a
//! stack-structured snapshot/revert mechanism, and a caching adapter over a
//! read-only fallback source.

pub mod alist;
pub mod backend;
pub mod cache;
pub mod laws;
pub mod mem;
pub mod snapshots;
pub mod state;
pub mod types;

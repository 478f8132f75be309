//! Change-detection and synchronization engine for mirroring local source
//! files into a remote document store.
//!
//! The library holds the verified core: deciding which scanned files are
//! dirty, planning the per-file sync work of a cycle, building the remote
//! requests, interpreting the remote responses, folding the per-file
//! outcomes back into the tracker, and choosing the scheduler's next wait.
//! The surrounding process (filesystem traversal, HTTP transport, secret
//! store, configuration file) supplies plain values and performs the
//! library's decisions.

pub mod laws;
pub mod orchestrator;
pub mod protocol;
pub mod scanner;
pub mod scheduler;
pub mod text;
pub mod tracker;

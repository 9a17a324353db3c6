//! Reconstruction of a live, deeply nested timing document from a stream of
//! partial updates: the merge engine, the update log with its realtime view,
//! and the cache of delayed views.

pub mod history;
pub mod history_laws;
pub mod merge;
pub mod merge_laws;
pub mod parser;
pub mod value;
pub mod weather;

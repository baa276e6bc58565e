//! A staged state cache with nested checkpoints, and the transaction pipeline
//! (validate, execute, charge fee) that drives it.

pub mod cached_state;
pub mod constants;
pub mod fixtures;
pub mod laws;
pub mod pipeline;
pub mod reader;
pub mod types;

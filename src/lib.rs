//! Drives a block-oriented binary-delta codec over bounded memory.
//!
//! The library holds the logic around the codec engine: the arithmetic that
//! places source blocks in a ring buffer, the source window cache that serves
//! the engine's block requests, the engine configuration, and the decisions
//! of the streaming driver. Reading, writing and the engine itself stay with
//! the caller.

pub mod block;
pub mod cache;
pub mod config;
pub mod driver;
pub mod memory;

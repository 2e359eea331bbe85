//! The server that gives each connection a thread of a pool.
pub mod executor;
pub mod runtime;

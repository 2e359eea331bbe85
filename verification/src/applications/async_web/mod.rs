//! HTTP on the asynchronous runtime.
pub mod connection;
pub mod default;
pub mod http;
pub mod protocol;

//! Mail reception on the asynchronous runtime.
pub mod connection;
pub mod protocol;
pub mod smtp;

//! HTTP, one thread per connection.
pub mod connection;
pub mod http;
pub mod protocol;

//! Mail reception, one thread per connection.
pub mod command;
pub mod connection;
pub mod protocol;

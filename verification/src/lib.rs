//! A small network server kit: HTTP and SMTP protocol engines, routing, and the
//! bookkeeping of an asynchronous runtime.
//!
//! Everything here is computation on plain values. Sockets, files, threads and
//! wakers belong to the program that embeds the library.
pub mod applications;
pub mod async_runtime;
pub mod blocking;
pub mod encoding;
pub mod fifo;
pub mod frameworks;
pub mod json;
pub mod number;
pub mod query;
pub mod routing;
pub mod runtime;
pub mod server;
pub mod table;
pub mod text;
pub mod tls;

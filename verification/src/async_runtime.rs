//! The parts of the asynchronous server in one place.
pub use crate::runtime::fs::AsyncFile;
pub use crate::runtime::net::AsyncTcpStream;
pub use crate::runtime::task::{TaskQueue, TaskWaker};
pub use crate::runtime::{Reactor as EventManager, ThreadPool};
pub use crate::server::Server;

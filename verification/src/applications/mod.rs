//! The application protocols.
pub mod async_mail;
pub mod mail;
pub mod async_web;
pub mod message;
pub mod response;
pub mod web;

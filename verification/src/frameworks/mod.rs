//! Servers that are set up step by step from one place.
pub mod mvc;
pub mod web;

//! Verified core of the Informix driver plugin: SQL text generation, catalog
//! decoding, connection-string assembly and request interpretation.

pub mod utils;
pub mod json;
pub mod error;
pub mod models;
pub mod config;
pub mod handlers;
pub mod client;

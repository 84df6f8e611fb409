//! A small command reference: a TOML file maps shell command names to
//! free-form tags, and the operations here add, modify, delete, show and
//! search those tags while leaving the rest of the file as it was written.

pub mod document;
pub mod error;
pub mod laws;
pub mod location;
pub mod registry;
pub mod request;
pub mod session;
pub mod text;

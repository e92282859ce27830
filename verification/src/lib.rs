//! Trusted core of Recuvora.
pub mod actions;
pub mod boot;
pub mod faults;
pub mod framework;
pub mod harnesses;
pub mod interfaces;
pub mod json;
pub mod lines;
pub mod monitors;
pub mod nodes;
pub mod paths;
pub mod protocol;
pub mod recovery;
pub mod server;
pub mod table;
pub mod text;
pub mod time;

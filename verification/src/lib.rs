//! Port/process inventory resolver.
//!
//! Turns the text output of the system's socket-listing tools into a
//! normalized sequence of port records, decides which acquisition tier to
//! run, and keeps the resulting inventory together with the privilege flag
//! that produced it.

pub mod acquire;
pub mod laws;
pub mod parser;
pub mod process;
pub mod record;
pub mod resolver;
pub mod text;


//! Decoder for BEAM files: the IFF-style chunked container that holds a
//! compiled module (atom table, export and import tables, code section and
//! string literals), and the resolver that binds table entries to atoms.

pub mod bytes;
pub mod container;
pub mod error;
pub mod laws;
pub mod module;
pub mod resolve;
pub mod tables;

//! A file-backed task tracker core: an ordered collection of task records,
//! addressed by position, persisted as a JSON array in a single file.
//!
//! The library owns the record model, the collection mutations, and the
//! encoding and decoding of the persisted text; reading and writing the file
//! itself is left to the caller.

pub mod cli;
pub mod codec;
pub mod decode;
pub mod encode;
pub mod error;
pub mod laws;
pub mod manager;
pub mod strutil;
pub mod task;

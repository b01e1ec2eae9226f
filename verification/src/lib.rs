//! Typed binary containers for RGB wallet data.
//!
//! Protocol objects (schema definitions, genesis records and the like) are
//! persisted as *container files*: a 4-byte big-endian magic number naming
//! the kind of object, followed by the object's strict-encoded payload.
//! This crate provides the magic-number registry, the container read/write
//! logic over byte sequences, and the directory-listing filter used to
//! discover container files. Opening, reading and writing the actual OS
//! files is left to the caller, who hands the file's bytes in and out.

pub mod file;
pub mod magic_numbers;

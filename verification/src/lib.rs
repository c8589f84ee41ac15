//! Decoder for AMD microcode update containers.
//!
//! A container is a little-endian byte sequence: a magic value, an
//! equivalence table that maps equivalence ids to CPU identifiers, and a
//! stream of length-prefixed patch records. Everything here works on an
//! in-memory byte slice; reading the container from disk and writing
//! payloads out is left to the caller.

pub mod cpuid;
pub mod error;
pub mod reader;
pub mod table;
pub mod scan;
pub mod container;
pub mod output;
pub mod options;

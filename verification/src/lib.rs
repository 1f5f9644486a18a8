//! Captures and decodes the evidence that Cargo and rustc leave behind for optimised builds.
//!
//! The library holds the parts that decide and compute: parsers, decoders, digests, argument rules
//! and the checks that a capture has to pass. Files, processes and the clock belong to its callers.

pub mod bytes;
pub mod capture;
pub mod chars;
pub mod compiler;
pub mod digests;
pub mod error_laws;
pub mod ir;
pub mod json;
pub mod lines;
pub mod llvm_index;
pub mod order;
pub mod paths;
pub mod process;
pub mod records;
pub mod session;
pub mod sorting;
pub mod source;
pub mod text;
pub mod text_laws;
pub mod wire;

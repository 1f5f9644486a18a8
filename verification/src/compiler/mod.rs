//! Collects evidence about one selected target from Cargo and its compiler.

pub mod artifacts;
pub mod attempt;
pub mod build_laws;
pub mod collection;
pub mod digest;
pub mod driver;
pub mod error;
pub mod fault;
pub mod features;
pub mod framing_laws;
pub mod inspection_laws;
pub mod manifest;
pub mod manifest_laws;
pub mod metadata;
pub mod observation;
pub mod operation;
pub mod prepared;
pub mod protocol;
pub mod provision_laws;
pub mod request;
pub mod resolution;
pub mod toolchain;
pub mod workspace;
pub mod writer;

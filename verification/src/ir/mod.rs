//! Captures compiler evidence for one selected Cargo target.

pub mod capture;
pub mod capture_laws;
pub mod cargo_output;
pub mod compile;
pub mod configuration_laws;
pub mod disassembly;
pub mod driver;
pub mod error;
pub mod evidence_laws;
pub mod evidence;
pub mod ingestion;
pub mod ingestion_laws;
pub mod llvm;
pub mod llvm_laws;
pub mod llvm_name_laws;
pub mod mono;
pub mod mono_framing_laws;
pub mod mono_laws;
pub mod mono_reading_laws;
pub mod output_laws;
pub mod remark_files;
pub mod remark_laws;
pub mod remark_stream_laws;
pub mod remarks;
pub mod request;
pub mod tool_laws;
pub mod toolchain;
pub mod wrapper;
pub mod yaml;

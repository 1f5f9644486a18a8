//! The decisions of the program that stands between Cargo and the compiler.
//!
//! Cargo starts this program as a compiler wrapper. It forwards ordinary compiler invocations and
//! enters the analysis of a compiler session only for the selected target.

pub mod arguments;
pub mod invocation;
pub mod llvm;
pub mod session_laws;
pub mod snapshots;
pub mod wrapper;

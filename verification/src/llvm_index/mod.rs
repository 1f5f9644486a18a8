//! Indexes exact definitions in disassembled LLVM text.
//!
//! The scanner retains bounded header tokens and streams past function bodies and unrelated lines.
//! LLVM verification, artifact selection, and alias resolution belong to the caller.

pub mod body_laws;
pub mod constant_laws;
pub mod error;
pub mod function_laws;
pub mod header;
pub mod item_laws;
pub mod laws;
pub mod line_laws;
pub mod model;
pub mod qualifier_laws;
pub mod scanner;
pub mod stream;
pub mod symbol;
pub mod symbol_laws;
pub mod token_laws;

//! Symbol records of textual LLVM modules.

use vstd::prelude::*;

verus! {

/// The byte range of one LLVM function definition.
#[derive(Clone, Debug, PartialEq, Eq)]
pub struct BodyRange {
    /// The raw LLVM symbol without its leading `@`.
    pub raw_symbol: String,
    /// The best available demangled display name.
    pub demangled: String,
    /// The inclusive byte offset at which the definition starts.
    pub start: u64,
    /// The exclusive byte offset at which the definition ends.
    pub end: u64,
}

/// The byte range of one LLVM function declaration.
#[derive(Clone, Debug, PartialEq, Eq)]
pub struct LlvmDeclaration {
    /// The raw LLVM symbol without its leading `@`.
    pub raw_symbol: String,
    /// The best available demangled display name.
    pub demangled: String,
    /// The inclusive byte offset at which the declaration starts.
    pub start: u64,
    /// The exclusive byte offset at which the declaration ends.
    pub end: u64,
}

/// The exact relationship represented by an LLVM alias.
#[derive(Clone, Debug, PartialEq, Eq)]
pub enum AliasTarget {
    /// The alias directly names one target symbol.
    Symbol {
        /// The target's raw LLVM symbol without its leading `@`.
        raw_symbol: String,
    },
    /// The aliasee is a constant expression or cannot be represented as one symbol.
    Expression,
}

impl View for AliasTarget {
    type V = Option<Seq<char>>;

    open spec fn view(&self) -> Option<Seq<char>> {
        match self {
            AliasTarget::Symbol { raw_symbol } => Some(raw_symbol@),
            AliasTarget::Expression => None,
        }
    }
}

/// The byte range and direct relationship of one LLVM alias.
#[derive(Clone, Debug, PartialEq, Eq)]
pub struct LlvmAlias {
    /// The raw LLVM symbol without its leading `@`.
    pub raw_symbol: String,
    /// The best available demangled display name.
    pub demangled: String,
    /// The exact direct target, or an explicit expression marker.
    pub target: AliasTarget,
    /// The inclusive byte offset at which the alias starts.
    pub start: u64,
    /// The exclusive byte offset at which the alias ends.
    pub end: u64,
}

/// One record of a textual LLVM module.
#[derive(Debug, PartialEq, Eq)]
pub enum ModuleRecord {
    /// A function definition.
    Body(BodyRange),
    /// A function declaration.
    Declaration(LlvmDeclaration),
    /// An alias.
    Alias(LlvmAlias),
}

/// What a mathematical record is.
pub enum RecordKind {
    /// A function definition.
    Body,
    /// A function declaration.
    Declaration,
    /// An alias and its direct target.
    Alias(Option<Seq<char>>),
}

/// A mathematical record.
pub struct RecordData {
    /// What the record is.
    pub kind: RecordKind,
    /// The raw symbol.
    pub raw_symbol: Seq<char>,
    /// The display name.
    pub demangled: Seq<char>,
    /// The offset of the first byte.
    pub start: int,
    /// The offset behind the last byte.
    pub end: int,
}

impl View for ModuleRecord {
    type V = RecordData;

    open spec fn view(&self) -> RecordData {
        match self {
            ModuleRecord::Body(body) => RecordData {
                kind: RecordKind::Body,
                raw_symbol: body.raw_symbol@,
                demangled: body.demangled@,
                start: body.start as int,
                end: body.end as int,
            },
            ModuleRecord::Declaration(declaration) => RecordData {
                kind: RecordKind::Declaration,
                raw_symbol: declaration.raw_symbol@,
                demangled: declaration.demangled@,
                start: declaration.start as int,
                end: declaration.end as int,
            },
            ModuleRecord::Alias(alias) => RecordData {
                kind: RecordKind::Alias(alias.target@),
                raw_symbol: alias.raw_symbol@,
                demangled: alias.demangled@,
                start: alias.start as int,
                end: alias.end as int,
            },
        }
    }
}

} // verus!

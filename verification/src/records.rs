//! Records that a capture stores about a build.

use crate::paths::{components, same_components};
use vstd::prelude::*;

verus! {

/// Why a record was refused.
#[derive(Clone, Copy, Debug, PartialEq, Eq, Structural)]
pub enum InvalidRecord {
    /// A range ends behind the last possible offset.
    RangeOverflow,
    /// A definition has no symbol.
    EmptySymbol,
    /// A direct alias has no target.
    EmptyTarget,
}

/// A half-open range of bytes in an artifact.
#[derive(Clone, Copy, Debug, PartialEq, Eq, Structural)]
pub struct ByteRange {
    start: u64,
    length: u64,
}

impl ByteRange {
    #[verifier::type_invariant]
    spec fn fits(self) -> bool {
        self.start + self.length <= u64::MAX
    }

    /// The offset of the first byte.
    pub closed spec fn first(self) -> u64 {
        self.start
    }

    /// The number of bytes.
    pub closed spec fn count(self) -> u64 {
        self.length
    }

    /// Creates a range, unless its end would lie behind the last possible offset.
    pub fn new(start: u64, length: u64) -> (result: Result<Self, InvalidRecord>)
        ensures
            match result {
                Ok(range) => start + length <= u64::MAX && range.first() == start && range.count()
                    == length,
                Err(error) => start + length > u64::MAX && error == InvalidRecord::RangeOverflow,
            },
    {
        if start > u64::MAX - length {
            return Err(InvalidRecord::RangeOverflow);
        }
        Ok(ByteRange { start, length })
    }

    /// Returns the offset of the first byte.
    pub fn start(&self) -> (result: u64)
        ensures
            result == self.first(),
    {
        self.start
    }

    /// Returns the number of bytes.
    pub fn length(&self) -> (result: u64)
        ensures
            result == self.count(),
    {
        self.length
    }

    /// Returns the offset behind the last byte.
    pub fn end(&self) -> (result: u64)
        ensures
            result == self.first() + self.count(),
    {
        proof {
            use_type_invariant(self);
        }
        self.start + self.length
    }
}

/// What a global definition is.
#[derive(Debug, PartialEq, Eq)]
pub enum LlvmDefinitionKind {
    /// A function with a body.
    Function,
    /// An alias of another global.
    DirectAlias {
        /// The symbol of the other global.
        target: String,
    },
    /// An alias of a constant expression.
    ExpressionAlias,
    /// A function that a resolver picks at run time.
    Ifunc,
}

/// The mathematical definition kind.
pub enum DefinitionKind {
    /// A function with a body.
    Function,
    /// An alias of another global.
    DirectAlias(Seq<char>),
    /// An alias of a constant expression.
    ExpressionAlias,
    /// A function that a resolver picks at run time.
    Ifunc,
}

impl View for LlvmDefinitionKind {
    type V = DefinitionKind;

    open spec fn view(&self) -> DefinitionKind {
        match self {
            LlvmDefinitionKind::Function => DefinitionKind::Function,
            LlvmDefinitionKind::DirectAlias { target } => DefinitionKind::DirectAlias(target@),
            LlvmDefinitionKind::ExpressionAlias => DefinitionKind::ExpressionAlias,
            LlvmDefinitionKind::Ifunc => DefinitionKind::Ifunc,
        }
    }
}

/// The mathematical definition.
pub struct Definition {
    /// The exact symbol.
    pub symbol: Seq<char>,
    /// The offset of the first byte.
    pub start: u64,
    /// The offset behind the last byte.
    pub end: u64,
    /// What the definition is.
    pub kind: DefinitionKind,
}

/// The rule that a definition breaks: symbols and direct targets are not empty.
pub open spec fn definition_fault(symbol: Seq<char>, kind: DefinitionKind) -> Option<
    InvalidRecord,
> {
    if symbol.len() == 0 {
        Some(InvalidRecord::EmptySymbol)
    } else if kind matches DefinitionKind::DirectAlias(target) && target.len() == 0 {
        Some(InvalidRecord::EmptyTarget)
    } else {
        None
    }
}

/// One definition in disassembled LLVM text.
#[derive(Debug)]
pub struct LlvmDefinitionRecord {
    raw_symbol: String,
    range: ByteRange,
    kind: LlvmDefinitionKind,
}

impl View for LlvmDefinitionRecord {
    type V = Definition;

    closed spec fn view(&self) -> Definition {
        Definition {
            symbol: self.raw_symbol@,
            start: self.range.first(),
            end: (self.range.first() + self.range.count()) as u64,
            kind: self.kind@,
        }
    }
}

impl LlvmDefinitionRecord {
    /// Creates a record, unless its symbol or its direct target is empty.
    pub fn new(raw_symbol: String, range: ByteRange, kind: LlvmDefinitionKind) -> (result: Result<
        Self,
        InvalidRecord,
    >)
        ensures
            match result {
                Ok(record) => {
                    &&& definition_fault(raw_symbol@, kind@) is None
                    &&& record@ == (Definition {
                        symbol: raw_symbol@,
                        start: range.first(),
                        end: (range.first() + range.count()) as u64,
                        kind: kind@,
                    })
                },
                Err(error) => definition_fault(raw_symbol@, kind@) == Some(error),
            },
    {
        if raw_symbol.as_str().is_empty() {
            return Err(InvalidRecord::EmptySymbol);
        }
        if let LlvmDefinitionKind::DirectAlias { target } = &kind {
            if target.as_str().is_empty() {
                return Err(InvalidRecord::EmptyTarget);
            }
        }
        Ok(LlvmDefinitionRecord { raw_symbol, range, kind })
    }

    /// Returns the exact symbol.
    pub fn raw_symbol(&self) -> (result: &str)
        ensures
            result@ == self@.symbol,
    {
        self.raw_symbol.as_str()
    }

    /// Returns the range of the definition's bytes.
    pub fn range(&self) -> (result: ByteRange)
        ensures
            result.first() == self@.start,
            result.first() + result.count() == self@.end,
    {
        proof {
            use_type_invariant(&self.range);
        }
        self.range
    }

    /// Returns what the definition is.
    pub fn kind(&self) -> (result: &LlvmDefinitionKind)
        ensures
            result@ == self@.kind,
    {
        &self.kind
    }
}

/// Why a definition has no source text.
#[derive(Clone, Copy, Debug, PartialEq, Eq, Structural)]
pub enum SourceUnavailable {
    /// The definition lies outside the selected crate.
    Nonlocal,
    /// The compiler has no loaded source text or local path.
    Unloaded,
    /// The definition is generated, synthetic, or macro-expanded.
    Generated,
    /// The span cannot identify one valid local source range.
    UnsupportedSpan,
    /// The source path lies outside the selected package.
    OutsidePackage,
}

/// The link-time optimisation of a compiler session.
#[derive(Clone, Copy, Debug, PartialEq, Eq, Structural)]
pub enum LlvmLto {
    /// Neither local nor cross-crate optimisation.
    Off,
    /// Thin optimisation within the selected crate.
    LocalThin,
    /// Thin optimisation across crates.
    CrossCrateThin,
    /// Fat optimisation.
    Fat,
}

/// Why optimised LLVM is not collected from a session.
#[derive(Clone, Copy, Debug, PartialEq, Eq, Structural)]
pub enum UnsupportedLlvmConfiguration {
    /// Incremental compilation.
    Incremental,
    /// Thin optimisation across crates.
    CrossCrateThinLto,
    /// Fat optimisation.
    FatLto,
    /// Optimisation by the linker plugin.
    LinkerPluginLto,
    /// A backend other than LLVM.
    OtherBackend,
    /// A compiler whose optimised artifacts have not been verified.
    UnverifiedCompiler,
}

/// The mathematical placement.
pub struct PlacementData {
    /// The codegen unit.
    pub codegen_unit: Seq<char>,
    /// The linkage.
    pub linkage: Seq<char>,
    /// The visibility.
    pub visibility: Seq<char>,
    /// A local copy rather than a shared instance.
    pub local_copy: bool,
    /// The estimated size before code generation.
    pub size_estimate: u64,
}

/// One placement of an instance in a codegen unit.
#[derive(Debug, PartialEq, Eq)]
pub struct PlacementRecord {
    /// The codegen unit.
    pub codegen_unit: String,
    /// The linkage.
    pub linkage: String,
    /// The visibility.
    pub visibility: String,
    /// A local copy rather than a shared instance.
    pub local_copy: bool,
    /// The estimated size before code generation.
    pub size_estimate: u64,
}

impl View for PlacementRecord {
    type V = PlacementData;

    open spec fn view(&self) -> PlacementData {
        PlacementData {
            codegen_unit: self.codegen_unit@,
            linkage: self.linkage@,
            visibility: self.visibility@,
            local_copy: self.local_copy,
            size_estimate: self.size_estimate,
        }
    }
}

/// The mathematical source relationship.
pub enum SourceData {
    /// A range of a source artifact.
    Available {
        /// The artifact that holds the source file.
        artifact: u64,
        /// The offset of the first byte.
        start: u64,
        /// The number of bytes.
        length: u64,
        /// The path of the source file.
        path: Seq<char>,
        /// The line of the first byte.
        line: u64,
    },
    /// No source text.
    Unavailable(SourceUnavailable),
}

/// A range of a source artifact.
#[derive(Debug, PartialEq, Eq)]
pub struct SourceRecord {
    /// The artifact that holds the source file.
    pub artifact: u64,
    /// The range of the definition in the artifact.
    pub range: ByteRange,
    /// The path of the source file.
    pub path: String,
    /// The line of the first byte.
    pub line: u64,
}

/// The source text of a definition, or why there is none.
#[derive(Debug, PartialEq, Eq)]
pub enum SourceAvailability {
    /// A range of a source artifact.
    Available(SourceRecord),
    /// No source text.
    Unavailable(SourceUnavailable),
}

impl View for SourceAvailability {
    type V = SourceData;

    open spec fn view(&self) -> SourceData {
        match self {
            SourceAvailability::Available(record) => SourceData::Available {
                artifact: record.artifact,
                start: record.range.first(),
                length: record.range.count(),
                path: record.path@,
                line: record.line,
            },
            SourceAvailability::Unavailable(reason) => SourceData::Unavailable(*reason),
        }
    }
}

/// Two source relationships agree: their paths have the same components, the rest is equal.
pub open spec fn same_source(left: SourceData, right: SourceData) -> bool {
    match (left, right) {
        (
            SourceData::Available { artifact, start, length, path, line },
            SourceData::Available {
                artifact: other_artifact,
                start: other_start,
                length: other_length,
                path: other_path,
                line: other_line,
            },
        ) => {
            &&& artifact == other_artifact
            &&& start == other_start
            &&& length == other_length
            &&& crate::paths::text_parts(path) == crate::paths::text_parts(other_path)
            &&& line == other_line
        },
        (SourceData::Unavailable(reason), SourceData::Unavailable(other)) => reason == other,
        _ => false,
    }
}

/// Compares two source relationships.
pub fn sources_agree(left: &SourceAvailability, right: &SourceAvailability) -> (result: bool)
    ensures
        result == same_source(left@, right@),
{
    match (left, right) {
        (SourceAvailability::Available(left), SourceAvailability::Available(right)) => {
            left.artifact == right.artifact && left.range.start() == right.range.start()
                && left.range.length() == right.range.length() && left.line == right.line
                && same_components(
                &components(left.path.as_str()),
                &components(right.path.as_str()),
            )
        },
        (SourceAvailability::Unavailable(left), SourceAvailability::Unavailable(right)) => *left
            == *right,
        _ => false,
    }
}

/// The identity of a concrete instance.
pub struct KeyData {
    /// The crate that owns the definition.
    pub definition_crate: Seq<char>,
    /// The path of the definition without generic arguments.
    pub definition_path: Seq<char>,
    /// The path of the instance with its generic arguments.
    pub display_name: Seq<char>,
    /// The symbol of the instance in compiler output.
    pub raw_symbol: Seq<char>,
}

/// The order of identities: field by field.
pub open spec fn key_less(left: KeyData, right: KeyData) -> bool {
    if left.definition_crate != right.definition_crate {
        text_less(left.definition_crate, right.definition_crate)
    } else if left.definition_path != right.definition_path {
        text_less(left.definition_path, right.definition_path)
    } else if left.display_name != right.display_name {
        text_less(left.display_name, right.display_name)
    } else {
        text_less(left.raw_symbol, right.raw_symbol)
    }
}

/// The order of texts.
pub open spec fn text_less(left: Seq<char>, right: Seq<char>) -> bool {
    crate::order::text_less(left, right)
}

/// The order of identities is strict and total.
pub proof fn key_less_is_strict(left: KeyData, right: KeyData)
    ensures
        !key_less(left, left),
        !(key_less(left, right) && key_less(right, left)),
        left == right || key_less(left, right) || key_less(right, left),
{
    crate::order::text_less_is_strict(left.definition_crate, right.definition_crate);
    crate::order::text_less_is_strict(left.definition_path, right.definition_path);
    crate::order::text_less_is_strict(left.display_name, right.display_name);
    crate::order::text_less_is_strict(left.raw_symbol, right.raw_symbol);
}

/// The order of identities is transitive.
pub proof fn key_less_is_transitive(first: KeyData, second: KeyData, third: KeyData)
    requires
        key_less(first, second),
        key_less(second, third),
    ensures
        key_less(first, third),
{
    key_less_is_strict(first, second);
    key_less_is_strict(second, third);
    let bytes = |text: Seq<char>| vstd::utf8::encode_utf8(text);
    if first.definition_crate != second.definition_crate && second.definition_crate
        != third.definition_crate {
        crate::order::bytes_less_transitive(
            bytes(first.definition_crate),
            bytes(second.definition_crate),
            bytes(third.definition_crate),
        );
        crate::order::text_less_is_strict(first.definition_crate, third.definition_crate);
    } else if first.definition_crate == second.definition_crate && second.definition_crate
        == third.definition_crate {
        if first.definition_path != second.definition_path && second.definition_path
            != third.definition_path {
            crate::order::bytes_less_transitive(
                bytes(first.definition_path),
                bytes(second.definition_path),
                bytes(third.definition_path),
            );
            crate::order::text_less_is_strict(first.definition_path, third.definition_path);
        } else if first.definition_path == second.definition_path && second.definition_path
            == third.definition_path {
            if first.display_name != second.display_name && second.display_name
                != third.display_name {
                crate::order::bytes_less_transitive(
                    bytes(first.display_name),
                    bytes(second.display_name),
                    bytes(third.display_name),
                );
                crate::order::text_less_is_strict(first.display_name, third.display_name);
            } else if first.display_name == second.display_name && second.display_name
                == third.display_name {
                crate::order::bytes_less_transitive(
                    bytes(first.raw_symbol),
                    bytes(second.raw_symbol),
                    bytes(third.raw_symbol),
                );
            }
        }
    }
}

/// A concrete instance with all its placements.
pub struct GroupData {
    /// The identity.
    pub key: KeyData,
    /// The placements, in the order in which they were read.
    pub placements: Seq<PlacementData>,
    /// The source relationship.
    pub source: SourceData,
}

/// One concrete instance.
#[derive(Debug, PartialEq, Eq)]
pub struct InstanceRecord {
    /// The crate that owns the definition.
    pub definition_crate: String,
    /// The path of the definition without generic arguments.
    pub definition_path: String,
    /// The path of the instance with its generic arguments.
    pub display_name: String,
    /// The symbol of the instance in compiler output.
    pub raw_symbol: String,
    /// The placements, in the order in which they were read.
    pub placements: Vec<PlacementRecord>,
    /// The source relationship.
    pub source: SourceAvailability,
}

/// The mathematical placements of a list.
pub open spec fn placement_views(placements: Seq<PlacementRecord>) -> Seq<PlacementData> {
    placements.map_values(|placement: PlacementRecord| placement@)
}

impl View for InstanceRecord {
    type V = GroupData;

    open spec fn view(&self) -> GroupData {
        GroupData {
            key: KeyData {
                definition_crate: self.definition_crate@,
                definition_path: self.definition_path@,
                display_name: self.display_name@,
                raw_symbol: self.raw_symbol@,
            },
            placements: placement_views(self.placements@),
            source: self.source@,
        }
    }
}

/// The kinds of stored artifacts.
#[derive(Clone, Copy, Debug, PartialEq, Eq, Structural)]
pub enum ArtifactKind {
    /// A source file.
    Source,
    /// Disassembled LLVM text.
    Llvm,
}

/// A file that belongs to a capture.
#[derive(Clone, Copy, Debug, PartialEq, Eq, Structural)]
pub struct ArtifactRecord {
    /// The identity within the capture.
    pub id: u64,
    /// What the file holds.
    pub kind: ArtifactKind,
    /// The number of bytes.
    pub length: u64,
}

} // verus!

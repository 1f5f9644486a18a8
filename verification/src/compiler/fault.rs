//! What can be wrong with a compiler manifest.

use crate::source::SourceError;
use crate::text::{debug_text, push_decimal, push_list};
use vstd::prelude::*;
use vstd::string::StringExecFns;

verus! {

/// A field of the manifest.
#[derive(Clone, Copy, Debug, PartialEq, Eq, Structural)]
pub enum Field {
    /// The manifest header.
    ManifestHeader,
    /// The protocol version.
    ProtocolVersion,
    /// The selected marker.
    SelectedMarker,
    /// The record kind.
    RecordKind,
    /// The configuration record kind.
    ConfigurationKind,
    /// The codegen backend.
    Backend,
    /// The effective target.
    Target,
    /// The optimization level.
    Optimization,
    /// The effective LTO.
    Lto,
    /// The incremental compilation.
    Incremental,
    /// The linker-plugin LTO.
    LinkerPlugin,
    /// The configured codegen units.
    CodegenUnits,
    /// The LLVM recipe revision.
    Recipe,
    /// The unsupported LLVM configuration.
    Support,
    /// The source artifact ID.
    SourceFileId,
    /// The source byte length.
    SourceFileLength,
    /// The compiler module.
    ModuleName,
    /// The expected bitcode path.
    ModulePath,
    /// The source availability.
    SourceAvailability,
    /// The source artifact.
    SourceArtifact,
    /// The source start.
    SourceStart,
    /// The source length.
    SourceLength,
    /// The source display path.
    SourcePath,
    /// The source starting line.
    SourceLine,
    /// The definition crate.
    DefinitionCrate,
    /// The definition path.
    DefinitionPath,
    /// The display name.
    DisplayName,
    /// The raw symbol.
    RawSymbol,
    /// The codegen unit.
    CodegenUnit,
    /// The linkage.
    Linkage,
    /// The visibility.
    Visibility,
    /// The local copy.
    LocalCopy,
    /// The size estimate.
    SizeEstimate,
}

impl Field {
    /// The name of the field.
    pub open spec fn name(self) -> Seq<char> {
        match self {
            Field::ManifestHeader => "manifest header"@,
            Field::ProtocolVersion => "protocol version"@,
            Field::SelectedMarker => "selected marker"@,
            Field::RecordKind => "record kind"@,
            Field::ConfigurationKind => "configuration record kind"@,
            Field::Backend => "codegen backend"@,
            Field::Target => "effective target"@,
            Field::Optimization => "optimization level"@,
            Field::Lto => "effective LTO"@,
            Field::Incremental => "incremental compilation"@,
            Field::LinkerPlugin => "linker-plugin LTO"@,
            Field::CodegenUnits => "configured codegen units"@,
            Field::Recipe => "LLVM recipe revision"@,
            Field::Support => "unsupported LLVM configuration"@,
            Field::SourceFileId => "source artifact ID"@,
            Field::SourceFileLength => "source byte length"@,
            Field::ModuleName => "compiler module"@,
            Field::ModulePath => "expected bitcode path"@,
            Field::SourceAvailability => "source availability"@,
            Field::SourceArtifact => "source artifact"@,
            Field::SourceStart => "source start"@,
            Field::SourceLength => "source length"@,
            Field::SourcePath => "source display path"@,
            Field::SourceLine => "source starting line"@,
            Field::DefinitionCrate => "definition crate"@,
            Field::DefinitionPath => "definition path"@,
            Field::DisplayName => "display name"@,
            Field::RawSymbol => "raw symbol"@,
            Field::CodegenUnit => "codegen unit"@,
            Field::Linkage => "linkage"@,
            Field::Visibility => "visibility"@,
            Field::LocalCopy => "local copy"@,
            Field::SizeEstimate => "size estimate"@,
        }
    }

    /// Returns the name of the field.
    pub fn as_str(self) -> (result: &'static str)
        ensures
            result@ == self.name(),
    {
        match self {
            Field::ManifestHeader => "manifest header",
            Field::ProtocolVersion => "protocol version",
            Field::SelectedMarker => "selected marker",
            Field::RecordKind => "record kind",
            Field::ConfigurationKind => "configuration record kind",
            Field::Backend => "codegen backend",
            Field::Target => "effective target",
            Field::Optimization => "optimization level",
            Field::Lto => "effective LTO",
            Field::Incremental => "incremental compilation",
            Field::LinkerPlugin => "linker-plugin LTO",
            Field::CodegenUnits => "configured codegen units",
            Field::Recipe => "LLVM recipe revision",
            Field::Support => "unsupported LLVM configuration",
            Field::SourceFileId => "source artifact ID",
            Field::SourceFileLength => "source byte length",
            Field::ModuleName => "compiler module",
            Field::ModulePath => "expected bitcode path",
            Field::SourceAvailability => "source availability",
            Field::SourceArtifact => "source artifact",
            Field::SourceStart => "source start",
            Field::SourceLength => "source length",
            Field::SourcePath => "source display path",
            Field::SourceLine => "source starting line",
            Field::DefinitionCrate => "definition crate",
            Field::DefinitionPath => "definition path",
            Field::DisplayName => "display name",
            Field::RawSymbol => "raw symbol",
            Field::CodegenUnit => "codegen unit",
            Field::Linkage => "linkage",
            Field::Visibility => "visibility",
            Field::LocalCopy => "local copy",
            Field::SizeEstimate => "size estimate",
        }
    }
}

/// A rule of the manifest that the bytes broke. The parameters are a type of bytes and one of text.
#[derive(Debug)]
#[allow(inconsistent_fields)]
pub enum Fault<B, S> {
    /// The source failed.
    Read(SourceError),
    /// The stream ends within a field.
    Truncated(Field),
    /// A text is not valid UTF-8.
    NotUtf8 {
        /// The field that holds the text.
        field: Field,
        /// The first invalid sequence.
        problem: S,
    },
    /// The stream starts with other bytes.
    Magic {
        /// The bytes.
        got: B,
    },
    /// The stream has another version.
    Version {
        /// The version.
        got: u32,
    },
    /// The stream belongs to another analysis.
    Marker {
        /// The marker of the stream.
        got: S,
    },
    /// The first record is no configuration.
    FirstRecord {
        /// The kind of the record.
        got: u32,
    },
    /// A record has an unknown kind.
    RecordKind {
        /// The kind of the record.
        got: u32,
    },
    /// A link-time optimisation has an unknown code.
    Lto {
        /// The code.
        got: u32,
    },
    /// The stream was written by another recipe.
    Recipe {
        /// The revision of the recipe.
        got: u32,
    },
    /// LLVM support has an unknown code.
    Support {
        /// The code.
        got: u32,
    },
    /// Source availability has an unknown code.
    Source {
        /// The code.
        got: u32,
    },
    /// A flag is neither zero nor one.
    Flag {
        /// The field that holds the flag.
        field: Field,
        /// The number.
        got: u32,
    },
    /// A source range ends behind the last possible offset.
    Range,
    /// Two placements of one instance have different sources.
    ConflictingSources,
    /// Two source files have one identity.
    DuplicateArtifact,
    /// A module follows an unsupported configuration.
    UnsupportedModule,
    /// A module lies outside the private directory.
    ModulePath {
        /// The path of the module.
        got: S,
    },
    /// Two modules have one name or one path.
    DuplicateModule,
    /// Bytes follow the end record.
    TrailingBytes,
}

/// A mathematical fault.
pub type SpecFault = Fault<Seq<u8>, Seq<char>>;

/// Why a manifest was refused.
pub type ManifestFault = Fault<Vec<u8>, String>;

impl View for Fault<Vec<u8>, String> {
    type V = SpecFault;

    open spec fn view(&self) -> SpecFault {
        match self {
            Fault::Read(error) => Fault::Read(*error),
            Fault::Truncated(field) => Fault::Truncated(*field),
            Fault::NotUtf8 { field, problem } => Fault::NotUtf8 { field: *field, problem: problem@ },
            Fault::Magic { got } => Fault::Magic { got: got@ },
            Fault::Version { got } => Fault::Version { got: *got },
            Fault::Marker { got } => Fault::Marker { got: got@ },
            Fault::FirstRecord { got } => Fault::FirstRecord { got: *got },
            Fault::RecordKind { got } => Fault::RecordKind { got: *got },
            Fault::Lto { got } => Fault::Lto { got: *got },
            Fault::Recipe { got } => Fault::Recipe { got: *got },
            Fault::Support { got } => Fault::Support { got: *got },
            Fault::Source { got } => Fault::Source { got: *got },
            Fault::Flag { field, got } => Fault::Flag { field: *field, got: *got },
            Fault::Range => Fault::Range,
            Fault::ConflictingSources => Fault::ConflictingSources,
            Fault::DuplicateArtifact => Fault::DuplicateArtifact,
            Fault::UnsupportedModule => Fault::UnsupportedModule,
            Fault::ModulePath { got } => Fault::ModulePath { got: got@ },
            Fault::DuplicateModule => Fault::DuplicateModule,
            Fault::TrailingBytes => Fault::TrailingBytes,
        }
    }
}

/// The numeral of a code.
pub open spec fn numeral(number: u32) -> Seq<char> {
    crate::text::decimal(number as nat)
}

/// The sentence that describes a fault.
pub open spec fn sentence(fault: SpecFault) -> Seq<char> {
    match fault {
        Fault::Read(error) => error.message@,
        Fault::Truncated(field) => field.name() + " must not be truncated, got end of file"@,
        Fault::NotUtf8 { field, problem } => field.name() + " must be valid UTF-8, got "@ + problem,
        Fault::Magic { got } => "manifest header must match Cargo Optic, got "@
            + crate::text::list(got),
        Fault::Version { got } => "protocol version must be 3, got "@ + numeral(got),
        Fault::Marker { got } => "selected marker must match this analysis, got "@
            + crate::text::debugged(got),
        Fault::FirstRecord { got } => "the first record must be configuration, got "@ + numeral(got),
        Fault::RecordKind {
            got,
        } => "record kind must identify an end, placement, source file, or module, got "@ + numeral(
            got,
        ),
        Fault::Lto { got } => "LTO must be a known protocol code, got "@ + numeral(got),
        Fault::Recipe { got } => "LLVM recipe revision must match this collector, got "@ + numeral(
            got,
        ),
        Fault::Support {
            got,
        } => "unsupported configuration must be a known protocol code, got "@ + numeral(got),
        Fault::Source { got } => "source availability must be a known protocol code, got "@
            + numeral(got),
        Fault::Flag { field, got } => field.name() + " must be 0 or 1, got "@ + numeral(got),
        Fault::Range => "source range must end within the offsets of its file, got an overflow"@,
        Fault::ConflictingSources =>
            "one instance must have one source relationship, got conflicting source records"@,
        Fault::DuplicateArtifact => "source artifact IDs must be unique, got a duplicate ID"@,
        Fault::UnsupportedModule => "unsupported LLVM requires no module records, got a module"@,
        Fault::ModulePath {
            got,
        } => "expected bitcode must be an immediate private LLVM file, got "@ + got,
        Fault::DuplicateModule => "expected modules and paths must be unique, got a duplicate"@,
        Fault::TrailingBytes =>
            "manifest must not contain trailing bytes, got at least one trailing byte"@,
    }
}

fn counted(prefix: &str, number: u32) -> (result: String)
    ensures
        result@ == prefix@ + numeral(number),
{
    let mut text = String::from_str(prefix);
    push_decimal(&mut text, number as u64);
    text
}

impl Fault<Vec<u8>, String> {
    /// Describes the fault.
    pub fn message(&self) -> (result: String)
        ensures
            result@ == sentence(self@),
    {
        match self {
            Fault::Read(error) => error.message.clone(),
            Fault::Truncated(field) => {
                let mut text = String::from_str(field.as_str());
                text.append(" must not be truncated, got end of file");
                text
            },
            Fault::NotUtf8 { field, problem } => {
                let mut text = String::from_str(field.as_str());
                text.append(" must be valid UTF-8, got ");
                text.append(problem.as_str());
                text
            },
            Fault::Magic { got } => {
                let mut text = String::from_str("manifest header must match Cargo Optic, got ");
                push_list(&mut text, got);
                text
            },
            Fault::Version { got } => counted("protocol version must be 3, got ", *got),
            Fault::Marker { got } => {
                let mut text = String::from_str("selected marker must match this analysis, got ");
                text.append(debug_text(got.as_str()).as_str());
                text
            },
            Fault::FirstRecord { got } => counted(
                "the first record must be configuration, got ",
                *got,
            ),
            Fault::RecordKind { got } => counted(
                "record kind must identify an end, placement, source file, or module, got ",
                *got,
            ),
            Fault::Lto { got } => counted("LTO must be a known protocol code, got ", *got),
            Fault::Recipe { got } => counted(
                "LLVM recipe revision must match this collector, got ",
                *got,
            ),
            Fault::Support { got } => counted(
                "unsupported configuration must be a known protocol code, got ",
                *got,
            ),
            Fault::Source { got } => counted(
                "source availability must be a known protocol code, got ",
                *got,
            ),
            Fault::Flag { field, got } => {
                let mut text = String::from_str(field.as_str());
                text.append(" must be 0 or 1, got ");
                push_decimal(&mut text, *got as u64);
                text
            },
            Fault::Range => String::from_str(
                "source range must end within the offsets of its file, got an overflow",
            ),
            Fault::ConflictingSources => String::from_str(
                "one instance must have one source relationship, got conflicting source records",
            ),
            Fault::DuplicateArtifact => String::from_str(
                "source artifact IDs must be unique, got a duplicate ID",
            ),
            Fault::UnsupportedModule => String::from_str(
                "unsupported LLVM requires no module records, got a module",
            ),
            Fault::ModulePath { got } => {
                let mut text = String::from_str(
                    "expected bitcode must be an immediate private LLVM file, got ",
                );
                text.append(got.as_str());
                text
            },
            Fault::DuplicateModule => String::from_str(
                "expected modules and paths must be unique, got a duplicate",
            ),
            Fault::TrailingBytes => String::from_str(
                "manifest must not contain trailing bytes, got at least one trailing byte",
            ),
        }
    }
}

} // verus!

//! Reads compiler-owned identities for concrete Rust functions.
//!
//! The isolated rustc driver writes one manifest for the selected compiler invocation. The
//! manifest stores source definition paths and raw symbols without exposing rustc types.

use crate::source::{ByteSource, SourceError};
use crate::text::{push_decimal, same_text, utf8_text};
use crate::wire;
use crate::wire::{Input, Reader};
use vstd::prelude::*;
use vstd::string::StringExecFns;

verus! {

/// The file name of an identity manifest.
pub const MANIFEST_NAME: &'static str = "identity-v3.bin";

/// Identifies a file as an identity manifest.
pub const MANIFEST_MAGIC: [u8; 16] = [
    67,
    65,
    82,
    71,
    79,
    95,
    79,
    80,
    84,
    73,
    67,
    95,
    73,
    68,
    0,
    0,
];

/// The version of the protocol.
pub const PROTOCOL_VERSION: u32 = 3;

/// Marks the end of the records.
pub const END_RECORD: u32 = 0;

/// Marks a placement record.
pub const PLACEMENT_RECORD: u32 = 1;

/// The largest file.
pub const MAX_MANIFEST_BYTES: u64 = 268435456;

/// The largest number of instances.
pub const MAX_INSTANCES: usize = 1000000;

/// The largest number of placements.
pub const MAX_PLACEMENTS: usize = 4000000;

/// The largest number of bytes in a text.
pub const MAX_STRING_BYTES: u32 = 1048576;

/// The largest number of compiler arguments.
pub const MAX_ARGUMENTS: u32 = 65536;

/// A field of the manifest.
#[derive(Clone, Copy, Debug, PartialEq, Eq, Structural)]
pub enum Field {
    /// The manifest header.
    ManifestHeader,
    /// The protocol version.
    ProtocolVersion,
    /// The rustc commit.
    RustcCommit,
    /// The argument count.
    ArgumentCount,
    /// The rustc argument.
    RustcArgument,
    /// The record kind.
    RecordKind,
    /// The definition crate.
    DefinitionCrate,
    /// The definition path.
    DefinitionPath,
    /// The source span presence.
    SpanPresence,
    /// The source filename.
    SourceFileName,
    /// The source byte start.
    ByteStart,
    /// The source byte end.
    ByteEnd,
    /// The source line start.
    LineStart,
    /// The source column start.
    ColumnStart,
    /// The source line end.
    LineEnd,
    /// The source column end.
    ColumnEnd,
    /// The display name.
    DisplayName,
    /// The raw symbol.
    RawSymbol,
    /// The codegen unit.
    CodegenUnit,
    /// The codegen unit linkage.
    Linkage,
    /// The codegen unit visibility.
    Visibility,
    /// The codegen unit local copy.
    LocalCopy,
    /// The codegen unit size estimate.
    SizeEstimate,
}

impl Field {
    /// The name of the field.
    pub open spec fn name(self) -> Seq<char> {
        match self {
            Field::ManifestHeader => "manifest header"@,
            Field::ProtocolVersion => "protocol version"@,
            Field::RustcCommit => "rustc commit"@,
            Field::ArgumentCount => "argument count"@,
            Field::RustcArgument => "rustc argument"@,
            Field::RecordKind => "record kind"@,
            Field::DefinitionCrate => "definition crate"@,
            Field::DefinitionPath => "definition path"@,
            Field::SpanPresence => "source span presence"@,
            Field::SourceFileName => "source filename"@,
            Field::ByteStart => "source byte start"@,
            Field::ByteEnd => "source byte end"@,
            Field::LineStart => "source line start"@,
            Field::ColumnStart => "source column start"@,
            Field::LineEnd => "source line end"@,
            Field::ColumnEnd => "source column end"@,
            Field::DisplayName => "display name"@,
            Field::RawSymbol => "raw symbol"@,
            Field::CodegenUnit => "codegen unit"@,
            Field::Linkage => "codegen unit linkage"@,
            Field::Visibility => "codegen unit visibility"@,
            Field::LocalCopy => "codegen unit local copy"@,
            Field::SizeEstimate => "codegen unit size estimate"@,
        }
    }

    /// Returns the name of the field.
    pub fn as_str(self) -> (result: &'static str)
        ensures
            result@ == self.name(),
    {
        match self {
            Field::ManifestHeader => "manifest header",
            Field::ProtocolVersion => "protocol version",
            Field::RustcCommit => "rustc commit",
            Field::ArgumentCount => "argument count",
            Field::RustcArgument => "rustc argument",
            Field::RecordKind => "record kind",
            Field::DefinitionCrate => "definition crate",
            Field::DefinitionPath => "definition path",
            Field::SpanPresence => "source span presence",
            Field::SourceFileName => "source filename",
            Field::ByteStart => "source byte start",
            Field::ByteEnd => "source byte end",
            Field::LineStart => "source line start",
            Field::ColumnStart => "source column start",
            Field::LineEnd => "source line end",
            Field::ColumnEnd => "source column end",
            Field::DisplayName => "display name",
            Field::RawSymbol => "raw symbol",
            Field::CodegenUnit => "codegen unit",
            Field::Linkage => "codegen unit linkage",
            Field::Visibility => "codegen unit visibility",
            Field::LocalCopy => "codegen unit local copy",
            Field::SizeEstimate => "codegen unit size estimate",
        }
    }
}

/// A rule of the manifest that the bytes broke. The parameter is a type of text.
#[derive(Debug)]
#[allow(inconsistent_fields)]
pub enum Fault<S> {
    /// The source failed behind the end record.
    Read(SourceError),
    /// The file is too long.
    FileLength {
        /// The largest length.
        maximum: u64,
        /// The length.
        got: u64,
    },
    /// The stream ends within a field.
    Truncated(Field),
    /// The stream starts with other bytes.
    Magic,
    /// The stream has another version.
    Version {
        /// The version.
        got: u32,
    },
    /// The stream was written for another compiler.
    Commit {
        /// The compiler of the analysis.
        expected: S,
        /// The compiler of the stream.
        got: S,
    },
    /// A count or a text length is too large.
    Length {
        /// The field.
        field: Field,
        /// The largest length.
        maximum: u32,
        /// The length.
        got: u32,
    },
    /// A text is not valid UTF-8.
    NotUtf8(Field),
    /// A flag is neither zero nor one.
    Flag {
        /// The field that holds the flag.
        field: Field,
        /// The number.
        got: u32,
    },
    /// A number does not fit the machine.
    Size {
        /// The field.
        field: Field,
        /// The number.
        got: u64,
    },
    /// There are too many placements.
    Placements {
        /// The number of placements.
        got: usize,
    },
    /// A record has an unknown kind.
    RecordKind {
        /// The kind of the record.
        got: u32,
    },
    /// Bytes follow the end record.
    TrailingBytes,
    /// There are too many instances.
    Instances {
        /// The number of instances.
        got: usize,
    },
}

/// A mathematical fault.
pub type SpecFault = Fault<Seq<char>>;

/// Why an identity manifest was refused.
pub type IdentityFault = Fault<String>;

impl View for Fault<String> {
    type V = SpecFault;

    open spec fn view(&self) -> SpecFault {
        match self {
            Fault::Read(error) => Fault::Read(*error),
            Fault::FileLength { maximum, got } => Fault::FileLength { maximum: *maximum, got: *got },
            Fault::Truncated(field) => Fault::Truncated(*field),
            Fault::Magic => Fault::Magic,
            Fault::Version { got } => Fault::Version { got: *got },
            Fault::Commit { expected, got } => Fault::Commit { expected: expected@, got: got@ },
            Fault::Length { field, maximum, got } => Fault::Length {
                field: *field,
                maximum: *maximum,
                got: *got,
            },
            Fault::NotUtf8(field) => Fault::NotUtf8(*field),
            Fault::Flag { field, got } => Fault::Flag { field: *field, got: *got },
            Fault::Size { field, got } => Fault::Size { field: *field, got: *got },
            Fault::Placements { got } => Fault::Placements { got: *got },
            Fault::RecordKind { got } => Fault::RecordKind { got: *got },
            Fault::TrailingBytes => Fault::TrailingBytes,
            Fault::Instances { got } => Fault::Instances { got: *got },
        }
    }
}

/// The numeral of a number.
pub open spec fn numeral(number: int) -> Seq<char> {
    crate::text::decimal(number as nat)
}

/// The sentence that describes a fault.
pub open spec fn sentence(fault: SpecFault) -> Seq<char> {
    match fault {
        Fault::Read(error) => error.message@,
        Fault::FileLength { maximum, got } => "file length exceeds "@ + numeral(maximum as int)
            + " bytes, got "@ + numeral(got as int),
        Fault::Truncated(field) => field.name() + " is truncated"@,
        Fault::Magic => "invalid manifest header"@,
        Fault::Version { got } => "unsupported protocol version, expected 3, got "@ + numeral(
            got as int,
        ),
        Fault::Commit { expected, got } => "rustc commit does not match, expected "@ + expected
            + ", got "@ + got,
        Fault::Length { field, maximum, got } => field.name() + " exceeds "@ + numeral(
            maximum as int,
        ) + ", got "@ + numeral(got as int),
        Fault::NotUtf8(field) => field.name() + " is not valid UTF-8"@,
        Fault::Flag { field, got } => field.name() + " must be 0 or 1, got "@ + numeral(got as int),
        Fault::Size { field, got } => field.name() + " exceeds usize, got "@ + numeral(got as int),
        Fault::Placements { got } => "placement count exceeds 4000000, got "@ + numeral(got as int),
        Fault::RecordKind { got } => "record kind must be 0 or 1, got "@ + numeral(got as int),
        Fault::TrailingBytes => "manifest contains trailing bytes"@,
        Fault::Instances { got } => "instance count exceeds 1000000, got "@ + numeral(got as int),
    }
}

fn counted(prefix: &str, middle: &str, number: u64) -> (result: String)
    ensures
        result@ == prefix@ + middle@ + numeral(number as int),
{
    let mut text = String::from_str(prefix);
    text.append(middle);
    push_decimal(&mut text, number);
    text
}

impl Fault<String> {
    /// Describes the fault.
    pub fn message(&self) -> (result: String)
        ensures
            result@ == sentence(self@),
    {
        match self {
            Fault::Read(error) => error.message.clone(),
            Fault::FileLength { maximum, got } => {
                let mut text = String::from_str("file length exceeds ");
                push_decimal(&mut text, *maximum);
                text.append(" bytes, got ");
                push_decimal(&mut text, *got);
                text
            },
            Fault::Truncated(field) => {
                let mut text = String::from_str(field.as_str());
                text.append(" is truncated");
                text
            },
            Fault::Magic => String::from_str("invalid manifest header"),
            Fault::Version { got } => {
                let mut text = String::from_str("unsupported protocol version, expected 3, got ");
                push_decimal(&mut text, *got as u64);
                text
            },
            Fault::Commit { expected, got } => {
                let mut text = String::from_str("rustc commit does not match, expected ");
                text.append(expected.as_str());
                text.append(", got ");
                text.append(got.as_str());
                text
            },
            Fault::Length { field, maximum, got } => {
                let mut text = counted(field.as_str(), " exceeds ", *maximum as u64);
                text.append(", got ");
                push_decimal(&mut text, *got as u64);
                text
            },
            Fault::NotUtf8(field) => {
                let mut text = String::from_str(field.as_str());
                text.append(" is not valid UTF-8");
                text
            },
            Fault::Flag { field, got } => counted(
                field.as_str(),
                " must be 0 or 1, got ",
                *got as u64,
            ),
            Fault::Size { field, got } => counted(field.as_str(), " exceeds usize, got ", *got),
            Fault::Placements { got } => {
                let mut text = String::from_str("placement count exceeds 4000000, got ");
                push_decimal(&mut text, *got as u64);
                text
            },
            Fault::RecordKind { got } => {
                let mut text = String::from_str("record kind must be 0 or 1, got ");
                push_decimal(&mut text, *got as u64);
                text
            },
            Fault::TrailingBytes => String::from_str("manifest contains trailing bytes"),
            Fault::Instances { got } => {
                let mut text = String::from_str("instance count exceeds 1000000, got ");
                push_decimal(&mut text, *got as u64);
                text
            },
        }
    }
}

/// The mathematical source range.
pub struct SpanData {
    /// The compiler source filename.
    pub file_name: Seq<char>,
    /// The inclusive byte offset in the source file.
    pub byte_start: u64,
    /// The exclusive byte offset in the source file.
    pub byte_end: u64,
    /// The one-based starting line.
    pub line_start: usize,
    /// The zero-based starting character column.
    pub column_start: usize,
    /// The one-based ending line.
    pub line_end: usize,
    /// The zero-based ending character column.
    pub column_end: usize,
}

/// The mathematical definition origin.
pub struct OriginData {
    /// The compiler crate that owns the definition.
    pub crate_name: Seq<char>,
    /// The canonical definition path without concrete generic arguments.
    pub definition_path: Seq<char>,
    /// The exact source range, when the definition has source text.
    pub source: Option<SpanData>,
}

/// The mathematical codegen-unit placement.
pub struct PlaceData {
    /// The exact codegen-unit name.
    pub codegen_unit: Seq<char>,
    /// The exact linkage.
    pub linkage: Seq<char>,
    /// The exact visibility.
    pub visibility: Seq<char>,
    /// A local copy rather than a globally shared instance.
    pub local_copy: bool,
    /// The estimated size before code generation.
    pub size_estimate: usize,
}

/// The identity that placements share.
pub struct IdentityData {
    /// The definition.
    pub origin: OriginData,
    /// The concrete display name.
    pub display_name: Seq<char>,
    /// The exact symbol.
    pub raw_symbol: Seq<char>,
}

/// One mathematical placement record.
pub struct RecordData {
    /// The identity of the instance.
    pub identity: IdentityData,
    /// Where it is placed.
    pub place: PlaceData,
}

/// What a decoding step gives: a value and the input behind it, or the fault that stops it.
pub type Step<T> = Result<(T, Input), SpecFault>;

/// A field of some bytes.
pub open spec fn exact(input: Input, count: nat, field: Field) -> Step<Seq<u8>> {
    match wire::exact(input, count) {
        Ok(step) => Ok(step),
        Err(_) => Err(Fault::Truncated(field)),
    }
}

/// A field of four bytes.
pub open spec fn number(input: Input, field: Field) -> Step<u32> {
    match wire::small(input) {
        Ok(step) => Ok(step),
        Err(_) => Err(Fault::Truncated(field)),
    }
}

/// A field of eight bytes.
pub open spec fn long(input: Input, field: Field) -> Step<u64> {
    match wire::large(input) {
        Ok(step) => Ok(step),
        Err(_) => Err(Fault::Truncated(field)),
    }
}

/// A field of four bytes with a largest value.
pub open spec fn length(input: Input, field: Field, maximum: u32) -> Step<u32> {
    match number(input, field) {
        Err(fault) => Err(fault),
        Ok((got, after)) => if got > maximum {
            Err(Fault::Length { field, maximum, got })
        } else {
            Ok((got, after))
        },
    }
}

/// A field of text.
pub open spec fn text(input: Input, field: Field) -> Step<Seq<char>> {
    match length(input, field, MAX_STRING_BYTES) {
        Err(fault) => Err(fault),
        Ok((count, after)) => match exact(after, count as nat, field) {
            Err(fault) => Err(fault),
            Ok((bytes, behind)) => if vstd::utf8::valid_utf8(bytes) {
                Ok((vstd::utf8::decode_utf8(bytes), behind))
            } else {
                Err(Fault::NotUtf8(field))
            },
        },
    }
}

/// A field that is zero or one.
pub open spec fn flag(input: Input, field: Field) -> Step<bool> {
    match number(input, field) {
        Err(fault) => Err(fault),
        Ok((got, after)) => if got == 0 {
            Ok((false, after))
        } else if got == 1 {
            Ok((true, after))
        } else {
            Err(Fault::Flag { field, got })
        },
    }
}

/// A field of eight bytes that fits the machine.
pub open spec fn size(input: Input, field: Field) -> Step<usize> {
    match long(input, field) {
        Err(fault) => Err(fault),
        Ok((got, after)) => if got > usize::MAX {
            Err(Fault::Size { field, got })
        } else {
            Ok((got as usize, after))
        },
    }
}

/// The header of a stream that was written for one compiler.
pub open spec fn header(input: Input, commit: Seq<char>) -> Step<()> {
    match exact(input, 16, Field::ManifestHeader) {
        Err(fault) => Err(fault),
        Ok((magic, i1)) => if magic != MANIFEST_MAGIC@ {
            Err(Fault::Magic)
        } else {
            match number(i1, Field::ProtocolVersion) {
                Err(fault) => Err(fault),
                Ok((version, i2)) => if version != PROTOCOL_VERSION {
                    Err(Fault::Version { got: version })
                } else {
                    match text(i2, Field::RustcCommit) {
                        Err(fault) => Err(fault),
                        Ok((got, i3)) => if got != commit {
                            Err(Fault::Commit { expected: commit, got })
                        } else {
                            Ok(((), i3))
                        },
                    }
                },
            }
        },
    }
}

/// A number of compiler arguments behind those read so far.
pub open spec fn arguments(input: Input, count: nat, read: Seq<Seq<char>>) -> Step<Seq<Seq<char>>>
    decreases count,
{
    if count == 0 {
        Ok((read, input))
    } else {
        match text(input, Field::RustcArgument) {
            Err(fault) => Err(fault),
            Ok((argument, after)) => arguments(after, (count - 1) as nat, read.push(argument)),
        }
    }
}

/// A manifest through its compiler arguments.
pub open spec fn preamble(input: Input, commit: Seq<char>) -> Step<Seq<Seq<char>>> {
    match header(input, commit) {
        Err(fault) => Err(fault),
        Ok((_, i1)) => match length(i1, Field::ArgumentCount, MAX_ARGUMENTS) {
            Err(fault) => Err(fault),
            Ok((count, i2)) => arguments(i2, count as nat, Seq::empty()),
        },
    }
}

/// The optional source range of a definition.
pub open spec fn span(input: Input) -> Step<Option<SpanData>> {
    match flag(input, Field::SpanPresence) {
        Err(fault) => Err(fault),
        Ok((false, after)) => Ok((None, after)),
        Ok((true, i0)) => match text(i0, Field::SourceFileName) {
            Err(fault) => Err(fault),
            Ok((file_name, i1)) => match long(i1, Field::ByteStart) {
                Err(fault) => Err(fault),
                Ok((byte_start, i2)) => match long(i2, Field::ByteEnd) {
                    Err(fault) => Err(fault),
                    Ok((byte_end, i3)) => positions(i3, file_name, byte_start, byte_end),
                },
            },
        },
    }
}

/// The lines and columns of a source range.
pub open spec fn positions(
    input: Input,
    file_name: Seq<char>,
    byte_start: u64,
    byte_end: u64,
) -> Step<Option<SpanData>> {
    match size(input, Field::LineStart) {
        Err(fault) => Err(fault),
        Ok((line_start, i1)) => match size(i1, Field::ColumnStart) {
            Err(fault) => Err(fault),
            Ok((column_start, i2)) => match size(i2, Field::LineEnd) {
                Err(fault) => Err(fault),
                Ok((line_end, i3)) => match size(i3, Field::ColumnEnd) {
                    Err(fault) => Err(fault),
                    Ok((column_end, i4)) => Ok(
                        (
                            Some(
                                SpanData {
                                    file_name,
                                    byte_start,
                                    byte_end,
                                    line_start,
                                    column_start,
                                    line_end,
                                    column_end,
                                },
                            ),
                            i4,
                        ),
                    ),
                },
            },
        },
    }
}

/// The identity of an instance.
pub open spec fn identity(input: Input) -> Step<IdentityData> {
    match text(input, Field::DefinitionCrate) {
        Err(fault) => Err(fault),
        Ok((crate_name, i1)) => match text(i1, Field::DefinitionPath) {
            Err(fault) => Err(fault),
            Ok((definition_path, i2)) => match span(i2) {
                Err(fault) => Err(fault),
                Ok((source, i3)) => match text(i3, Field::DisplayName) {
                    Err(fault) => Err(fault),
                    Ok((display_name, i4)) => match text(i4, Field::RawSymbol) {
                        Err(fault) => Err(fault),
                        Ok((raw_symbol, i5)) => Ok(
                            (
                                IdentityData {
                                    origin: OriginData { crate_name, definition_path, source },
                                    display_name,
                                    raw_symbol,
                                },
                                i5,
                            ),
                        ),
                    },
                },
            },
        },
    }
}

/// The placement of an instance.
pub open spec fn place(input: Input) -> Step<PlaceData> {
    match text(input, Field::CodegenUnit) {
        Err(fault) => Err(fault),
        Ok((codegen_unit, i1)) => match text(i1, Field::Linkage) {
            Err(fault) => Err(fault),
            Ok((linkage, i2)) => match text(i2, Field::Visibility) {
                Err(fault) => Err(fault),
                Ok((visibility, i3)) => match flag(i3, Field::LocalCopy) {
                    Err(fault) => Err(fault),
                    Ok((local_copy, i4)) => match size(i4, Field::SizeEstimate) {
                        Err(fault) => Err(fault),
                        Ok((size_estimate, i5)) => Ok(
                            (
                                PlaceData {
                                    codegen_unit,
                                    linkage,
                                    visibility,
                                    local_copy,
                                    size_estimate,
                                },
                                i5,
                            ),
                        ),
                    },
                },
            },
        },
    }
}

/// A placement record behind its kind.
pub open spec fn placement(input: Input) -> Step<RecordData> {
    match identity(input) {
        Err(fault) => Err(fault),
        Ok((identity, i1)) => match place(i1) {
            Err(fault) => Err(fault),
            Ok((place, i2)) => Ok((RecordData { identity, place }, i2)),
        },
    }
}

/// A number of placements and one more, up to the largest number of the machine.
pub open spec fn saturated(count: usize) -> usize {
    if count == usize::MAX {
        count
    } else {
        (count + 1) as usize
    }
}

/// The next record behind a number of placements, or `None` at a proper end.
pub open spec fn record(input: Input, count: usize) -> Step<Option<RecordData>> {
    match number(input, Field::RecordKind) {
        Err(fault) => Err(fault),
        Ok((kind, after)) => if kind == END_RECORD {
            match wire::ended(after) {
                Err(error) => Err(Fault::Read(error)),
                Ok(false) => Err(Fault::TrailingBytes),
                Ok(true) => Ok((None, after)),
            }
        } else if kind == PLACEMENT_RECORD {
            if count >= MAX_PLACEMENTS {
                Err(
                    Fault::Placements { got: saturated(count) },
                )
            } else {
                match placement(after) {
                    Err(fault) => Err(fault),
                    Ok((record, behind)) => Ok((Some(record), behind)),
                }
            }
        } else {
            Err(Fault::RecordKind { got: kind })
        },
    }
}

/// The number of placements behind the next record. A placement counts as soon as its kind is read,
/// even if it is one too many.
pub open spec fn next_count(input: Input, count: usize) -> usize {
    match number(input, Field::RecordKind) {
        Ok((kind, _)) => if kind == PLACEMENT_RECORD {
            saturated(count)
        } else {
            count
        },
        Err(_) => count,
    }
}

/// The input behind the kind of the next record.
pub open spec fn behind_kind(input: Input) -> Input {
    wire::behind(input, 4)
}

/// One mathematical instance.
pub struct InstanceData {
    /// The identity.
    pub identity: IdentityData,
    /// The placements, in stream order.
    pub places: Seq<PlaceData>,
}

/// The index of the first instance with an identity, or the length if there is none.
pub open spec fn index_of(instances: Seq<InstanceData>, identity: IdentityData) -> int
    decreases instances.len(),
{
    if instances.len() == 0 || instances[0].identity == identity {
        0
    } else {
        1 + index_of(instances.skip(1), identity)
    }
}

/// The instances with one more placement, unless there would be too many of them.
pub open spec fn with_record(instances: Seq<InstanceData>, record: RecordData) -> Result<
    Seq<InstanceData>,
    SpecFault,
> {
    let at = index_of(instances, record.identity);
    if at < instances.len() {
        let instance = instances[at];
        Ok(
            instances.update(
                at,
                InstanceData { places: instance.places.push(record.place), ..instance },
            ),
        )
    } else if instances.len() >= MAX_INSTANCES {
        Err(Fault::Instances { got: (instances.len() + 1) as usize })
    } else {
        Ok(instances.push(InstanceData { identity: record.identity, places: seq![record.place] }))
    }
}

/// The instances of the rest of a stream, on top of those read so far.
pub open spec fn instances_from(input: Input, count: usize, instances: Seq<InstanceData>) -> Result<
    Seq<InstanceData>,
    SpecFault,
>
    decreases input.rest.len(),
{
    match record(input, count) {
        Err(fault) => Err(fault),
        Ok((None, _)) => Ok(instances),
        Ok((Some(record), after)) => match with_record(instances, record) {
            Err(fault) => Err(fault),
            Ok(more) => {
                proof {
                    record_shortens(input, count);
                }
                instances_from(after, (count + 1) as usize, more)
            },
        },
    }
}

/// A record takes at least its kind from the input.
pub proof fn record_shortens(input: Input, count: usize)
    ensures
        record(input, count) matches Ok((Some(_), after)) ==> after.rest.len() < input.rest.len(),
        record(input, count) matches Ok((Some(_), _)) ==> count < MAX_PLACEMENTS,
{
    if let Ok((_, after)) = number(input, Field::RecordKind) {
        placement_shortens(after);
    }
}

proof fn placement_shortens(input: Input)
    ensures
        placement(input) matches Ok((_, after)) ==> after.rest.len() <= input.rest.len(),
{
    if let Ok((_, i1)) = identity(input) {
        identity_shortens(input);
    }
}

proof fn identity_shortens(input: Input)
    ensures
        identity(input) matches Ok((_, after)) ==> after.rest.len() <= input.rest.len(),
{
    if let Ok((_, i1)) = text(input, Field::DefinitionCrate) {
        if let Ok((_, i2)) = text(i1, Field::DefinitionPath) {
            span_shortens(i2);
        }
    }
}

proof fn span_shortens(input: Input)
    ensures
        span(input) matches Ok((_, after)) ==> after.rest.len() <= input.rest.len(),
{
}

/// A half-open source byte range and its human-readable positions.
#[derive(Clone, Debug, PartialEq, Eq, Hash)]
pub struct SourceSpan {
    /// The compiler source filename after rustc path remapping.
    pub file_name: String,
    /// The inclusive byte offset in the source file.
    pub byte_start: u64,
    /// The exclusive byte offset in the source file.
    pub byte_end: u64,
    /// The one-based starting line.
    pub line_start: usize,
    /// The zero-based starting character column.
    pub column_start: usize,
    /// The one-based ending line.
    pub line_end: usize,
    /// The zero-based ending character column.
    pub column_end: usize,
}

impl View for SourceSpan {
    type V = SpanData;

    open spec fn view(&self) -> SpanData {
        SpanData {
            file_name: self.file_name@,
            byte_start: self.byte_start,
            byte_end: self.byte_end,
            line_start: self.line_start,
            column_start: self.column_start,
            line_end: self.line_end,
            column_end: self.column_end,
        }
    }
}

/// The source definition from which rustc instantiated a function.
#[derive(Clone, Debug, PartialEq, Eq, Hash)]
pub struct DefinitionOrigin {
    /// The compiler crate that owns the definition.
    pub crate_name: String,
    /// The canonical rustc definition path without concrete generic arguments.
    pub definition_path: String,
    /// The exact source range reported by rustc, when the definition has source text.
    pub source: Option<SourceSpan>,
}

/// The mathematical source range of an optional one.
pub open spec fn span_view(source: Option<SourceSpan>) -> Option<SpanData> {
    match source {
        Some(span) => Some(span@),
        None => None,
    }
}

impl View for DefinitionOrigin {
    type V = OriginData;

    open spec fn view(&self) -> OriginData {
        OriginData {
            crate_name: self.crate_name@,
            definition_path: self.definition_path@,
            source: span_view(self.source),
        }
    }
}

/// One placement of an instance in a rustc codegen unit.
#[derive(Clone, Debug, PartialEq, Eq)]
pub struct CodegenUnitPlacement {
    /// The exact codegen-unit name reported by rustc.
    pub codegen_unit: String,
    /// The exact rustc linkage variant for this placement.
    pub linkage: String,
    /// The exact rustc visibility variant for this placement.
    pub visibility: String,
    /// Whether rustc placed a local copy rather than a globally shared instance.
    pub local_copy: bool,
    /// rustc's estimated size for this instance before code generation.
    pub size_estimate: usize,
}

impl View for CodegenUnitPlacement {
    type V = PlaceData;

    open spec fn view(&self) -> PlaceData {
        PlaceData {
            codegen_unit: self.codegen_unit@,
            linkage: self.linkage@,
            visibility: self.visibility@,
            local_copy: self.local_copy,
            size_estimate: self.size_estimate,
        }
    }
}

/// One concrete function selected for monomorphization.
#[derive(Clone, Debug, PartialEq, Eq)]
pub struct CompilerInstance {
    /// The definition that rustc instantiated.
    pub origin: DefinitionOrigin,
    /// The concrete Rust display name, with generic arguments.
    pub display_name: String,
    /// The exact symbol that rustc gives to LLVM.
    pub raw_symbol: String,
    /// The codegen units in which rustc placed this exact instance.
    pub placements: Vec<CodegenUnitPlacement>,
}

/// The mathematical placements of a list.
pub open spec fn place_views(placements: Seq<CodegenUnitPlacement>) -> Seq<PlaceData> {
    placements.map_values(|placement: CodegenUnitPlacement| placement@)
}

impl View for CompilerInstance {
    type V = InstanceData;

    open spec fn view(&self) -> InstanceData {
        InstanceData {
            identity: IdentityData {
                origin: self.origin@,
                display_name: self.display_name@,
                raw_symbol: self.raw_symbol@,
            },
            places: place_views(self.placements@),
        }
    }
}

/// The mathematical instances of a list.
pub open spec fn instance_views(instances: Seq<CompilerInstance>) -> Seq<InstanceData> {
    instances.map_values(|instance: CompilerInstance| instance@)
}

/// One streamed placement record from the rustc identity driver.
#[derive(Clone, Debug, PartialEq, Eq)]
pub struct CompilerPlacement {
    /// The definition that rustc instantiated.
    pub origin: DefinitionOrigin,
    /// The concrete Rust display name, with generic arguments.
    pub display_name: String,
    /// The exact symbol that rustc gives to LLVM.
    pub raw_symbol: String,
    /// One codegen-unit placement for this instance.
    pub placement: CodegenUnitPlacement,
}

impl View for CompilerPlacement {
    type V = RecordData;

    open spec fn view(&self) -> RecordData {
        RecordData {
            identity: IdentityData {
                origin: self.origin@,
                display_name: self.display_name@,
                raw_symbol: self.raw_symbol@,
            },
            place: self.placement@,
        }
    }
}

/// All instances of one compiler invocation.
#[derive(Debug)]
pub struct CompilerManifest {
    /// The exact selected rustc command arguments.
    pub rustc_arguments: Vec<String>,
    /// The instances, in the order of their first placements.
    pub instances: Vec<CompilerInstance>,
}

/// A decoding step agrees with the mathematical one.
pub open spec fn agrees<T, U>(
    result: Result<T, IdentityFault>,
    after: Input,
    expected: Step<U>,
    same: spec_fn(T, U) -> bool,
) -> bool {
    match (result, expected) {
        (Ok(value), Ok((meant, behind))) => same(value, meant) && after == behind,
        (Err(fault), Err(meant)) => fault@ == meant,
        _ => false,
    }
}

/// A bounded reader for compiler identity placements.
pub struct CompilerManifestReader<R: ByteSource> {
    reader: Reader<R>,
    rustc_arguments: Vec<String>,
    placement_count: usize,
    finished: bool,
}

/// What the beginning of a manifest file gives.
pub open spec fn opened(input: Input, length: u64, commit: Seq<char>, maximum: u64) -> Step<
    Seq<Seq<char>>,
> {
    if length > maximum {
        Err(Fault::FileLength { maximum, got: length })
    } else {
        preamble(input, commit)
    }
}

impl<R: ByteSource> CompilerManifestReader<R> {
    /// What the reader has yet to read.
    pub closed spec fn input(&self) -> Input {
        self.reader.input()
    }

    /// The compiler arguments.
    pub closed spec fn arguments(&self) -> Seq<Seq<char>> {
        crate::chars::views(self.rustc_arguments@)
    }

    /// The number of placements read.
    pub closed spec fn count(&self) -> usize {
        self.placement_count
    }

    /// The end was reached.
    pub closed spec fn is_finished(&self) -> bool {
        self.finished
    }

    /// Opens and validates the manifest header without reading its placement records.
    ///
    /// The length is that of the whole file.
    pub fn open(source: R, length: u64, expected_rustc_commit: &str) -> (result: Result<
        Self,
        IdentityFault,
    >)
        ensures
            match (
                result,
                opened(
                    wire::input_of(source),
                    length,
                    expected_rustc_commit@,
                    MAX_MANIFEST_BYTES,
                ),
            ) {
                (Ok(reader), Ok((arguments, after))) => reader.arguments() == arguments
                    && reader.input() == after && reader.count() == 0 && !reader.is_finished(),
                (Err(fault), Err(expected)) => fault@ == expected,
                _ => false,
            },
    {
        Self::open_bounded(source, length, expected_rustc_commit, MAX_MANIFEST_BYTES)
    }

    /// Opens a manifest with another largest file length.
    pub fn open_bounded(
        source: R,
        length: u64,
        expected_rustc_commit: &str,
        maximum_manifest_bytes: u64,
    ) -> (result: Result<Self, IdentityFault>)
        ensures
            match (
                result,
                opened(
                    wire::input_of(source),
                    length,
                    expected_rustc_commit@,
                    maximum_manifest_bytes,
                ),
            ) {
                (Ok(reader), Ok((arguments, after))) => reader.arguments() == arguments
                    && reader.input() == after && reader.count() == 0 && !reader.is_finished(),
                (Err(fault), Err(expected)) => fault@ == expected,
                _ => false,
            },
    {
        if length > maximum_manifest_bytes {
            return Err(Fault::FileLength { maximum: maximum_manifest_bytes, got: length });
        }
        let mut reader = Reader::new(source);
        let ghost start = reader.input();
        match validate_header(&mut reader, expected_rustc_commit) {
            Err(fault) => {
                return Err(fault);
            },
            Ok(()) => {},
        }
        let count: u32 = match read_length_u32(&mut reader, Field::ArgumentCount, MAX_ARGUMENTS) {
            Err(fault) => {
                return Err(fault);
            },
            Ok(count) => count,
        };
        let ghost behind = reader.input();
        let mut rustc_arguments: Vec<String> = Vec::new();
        let mut left: u32 = count;
        assert(crate::chars::views(rustc_arguments@) =~= Seq::empty());
        while left > 0
            invariant
                arguments(reader.input(), left as nat, crate::chars::views(rustc_arguments@)) == arguments(
                    behind,
                    count as nat,
                    Seq::empty(),
                ),
                arguments(behind, count as nat, Seq::empty()) == preamble(
                    start,
                    expected_rustc_commit@,
                ),
                length <= maximum_manifest_bytes,
                start == wire::input_of(source),
            decreases left,
        {
            let ghost before = rustc_arguments@;
            match read_string(&mut reader, Field::RustcArgument) {
                Err(fault) => {
                    return Err(fault);
                },
                Ok(argument) => {
                    rustc_arguments.push(argument);
                    assert(crate::chars::views(rustc_arguments@) =~= crate::chars::views(before).push(argument@));
                },
            }
            left -= 1;
        }
        Ok(
            CompilerManifestReader { reader, rustc_arguments, placement_count: 0, finished: false },
        )
    }

    /// Returns the exact selected rustc command arguments from the manifest header.
    pub fn rustc_arguments(&self) -> (result: &[String])
        ensures
            crate::chars::views(result@) == self.arguments(),
    {
        self.rustc_arguments.as_slice()
    }

    /// Reads the next placement record.
    ///
    /// Fails if the next record is invalid or the aggregate placement bound is exceeded.
    pub fn next_placement(&mut self) -> (result: Result<Option<CompilerPlacement>, IdentityFault>)
        ensures
            final(self).arguments() == old(self).arguments(),
            old(self).is_finished() ==> (result matches Ok(None)) && *final(self) == *old(self),
            !old(self).is_finished() ==> agrees(
                result,
                final(self).input(),
                record(old(self).input(), old(self).count()),
                |value: Option<CompilerPlacement>, meant: Option<RecordData>|
                    match (value, meant) {
                        (Some(placement), Some(record)) => placement@ == record,
                        (None, None) => true,
                        _ => false,
                    },
            ),
            !old(self).is_finished() ==> match result {
                Ok(Some(_)) => final(self).count() == old(self).count() + 1
                    && !final(self).is_finished(),
                Ok(None) => final(self).count() == old(self).count() && final(self).is_finished(),
                Err(fault) => {
                    &&& final(self).count() == next_count(
                        old(self).input(),
                        old(self).count(),
                    )
                    &&& !final(self).is_finished()
                    &&& fault is Placements || fault is RecordKind ==> final(self).input()
                        == behind_kind(old(self).input())
                },
            },
    {
        if self.finished {
            return Ok(None);
        }
        let kind: u32 = match read_u32(&mut self.reader, Field::RecordKind) {
            Err(fault) => {
                return Err(fault);
            },
            Ok(kind) => kind,
        };
        if kind == END_RECORD {
            let ghost after = self.reader.input();
            return match self.reader.at_end() {
                Err(error) => Err(Fault::Read(error)),
                Ok(false) => Err(Fault::TrailingBytes),
                Ok(true) => {
                    self.finished = true;
                    Ok(None)
                },
            };
        }
        if kind != PLACEMENT_RECORD {
            return Err(Fault::RecordKind { got: kind });
        }
        self.count_placement()
    }

    fn count_placement(&mut self) -> (result: Result<Option<CompilerPlacement>, IdentityFault>)
        ensures
            final(self).arguments() == old(self).arguments(),
            final(self).is_finished() == old(self).is_finished(),
            final(self).count() == saturated(old(self).count()),
            match result {
                Ok(None) => false,
                Ok(Some(record)) => old(self).count() < MAX_PLACEMENTS && placement(
                    old(self).input(),
                ) == Ok::<(RecordData, Input), SpecFault>((record@, final(self).input())),
                Err(fault) => if old(self).count() >= MAX_PLACEMENTS {
                    &&& fault@ == (SpecFault::Placements { got: saturated(old(self).count()) })
                    &&& final(self).input() == old(self).input()
                } else {
                    placement(old(self).input()) == Err::<(RecordData, Input), SpecFault>(fault@)
                },
            },
    {
        self.placement_count = self.placement_count.saturating_add(1);
        if self.placement_count > MAX_PLACEMENTS {
            return Err(Fault::Placements { got: self.placement_count });
        }
        match read_placement(&mut self.reader) {
            Err(fault) => Err(fault),
            Ok(placement) => Ok(Some(placement)),
        }
    }
}

/// The manifest that a file holds.
pub open spec fn manifest(input: Input, length: u64, commit: Seq<char>, maximum: u64) -> Result<
    (Seq<Seq<char>>, Seq<InstanceData>),
    SpecFault,
> {
    match opened(input, length, commit, maximum) {
        Err(fault) => Err(fault),
        Ok((arguments, after)) => match instances_from(after, 0, Seq::empty()) {
            Err(fault) => Err(fault),
            Ok(instances) => Ok((arguments, instances)),
        },
    }
}

/// Reads a complete manifest.
pub fn read<R: ByteSource>(source: R, length: u64, expected_rustc_commit: &str) -> (result: Result<
    CompilerManifest,
    IdentityFault,
>)
    ensures
        match (
            result,
            manifest(
                wire::input_of(source),
                length,
                expected_rustc_commit@,
                MAX_MANIFEST_BYTES,
            ),
        ) {
            (Ok(read), Ok((arguments, instances))) => crate::chars::views(read.rustc_arguments@) == arguments
                && instance_views(read.instances@) == instances,
            (Err(fault), Err(expected)) => fault@ == expected,
            _ => false,
        },
{
    read_bounded(source, length, expected_rustc_commit, MAX_MANIFEST_BYTES)
}

/// Reads a complete manifest with another largest file length.
pub fn read_bounded<R: ByteSource>(
    source: R,
    length: u64,
    expected_rustc_commit: &str,
    maximum_manifest_bytes: u64,
) -> (result: Result<CompilerManifest, IdentityFault>)
    ensures
        match (
            result,
            manifest(
                wire::input_of(source),
                length,
                expected_rustc_commit@,
                maximum_manifest_bytes,
            ),
        ) {
            (Ok(read), Ok((arguments, instances))) => crate::chars::views(read.rustc_arguments@) == arguments
                && instance_views(read.instances@) == instances,
            (Err(fault), Err(expected)) => fault@ == expected,
            _ => false,
        },
{
    let mut reader = match CompilerManifestReader::open_bounded(
        source,
        length,
        expected_rustc_commit,
        maximum_manifest_bytes,
    ) {
        Err(fault) => {
            return Err(fault);
        },
        Ok(reader) => reader,
    };
    let mut instances: Vec<CompilerInstance> = Vec::new();
    let ghost start = reader.input();
    let ghost arguments = reader.arguments();
    assert(instance_views(instances@) =~= Seq::empty());
    loop
        invariant
            !reader.is_finished(),
            instances@.len() <= MAX_INSTANCES,
            reader.arguments() == arguments,
            instances_from(reader.input(), reader.count(), instance_views(instances@))
                == instances_from(start, 0, Seq::empty()),
            opened(
                wire::input_of(source),
                length,
                expected_rustc_commit@,
                maximum_manifest_bytes,
            ) == Ok::<(Seq<Seq<char>>, Input), SpecFault>((arguments, start)),
        decreases reader.input().rest.len(),
    {
        proof {
            record_shortens(reader.input(), reader.count());
        }
        match reader.next_placement() {
            Err(fault) => {
                return Err(fault);
            },
            Ok(None) => {
                return Ok(
                    CompilerManifest { rustc_arguments: reader.rustc_arguments, instances },
                );
            },
            Ok(Some(record)) => {
                match add_record(&mut instances, record) {
                    Err(fault) => {
                        return Err(fault);
                    },
                    Ok(()) => {},
                }
            },
        }
    }
}

proof fn index_of_is(instances: Seq<InstanceData>, identity: IdentityData, at: int)
    requires
        0 <= at <= instances.len(),
        forall|i: int| 0 <= i < at ==> (#[trigger] instances[i]).identity != identity,
        at < instances.len() ==> instances[at].identity == identity,
    ensures
        index_of(instances, identity) == at,
    decreases instances.len(),
{
    if at > 0 {
        assert(instances[0].identity != identity);
        let tail = instances.skip(1);
        assert forall|i: int| 0 <= i < at - 1 implies (#[trigger] tail[i]).identity
            != identity by {
            assert(tail[i] == instances[i + 1]);
        }
        index_of_is(tail, identity, at - 1);
    }
}

fn same_span(left: &Option<SourceSpan>, right: &Option<SourceSpan>) -> (result: bool)
    ensures
        result == (span_view(*left) == span_view(*right)),
{
    match (left, right) {
        (None, None) => true,
        (Some(left), Some(right)) => {
            same_text(left.file_name.as_str(), right.file_name.as_str()) && left.byte_start
                == right.byte_start && left.byte_end == right.byte_end && left.line_start
                == right.line_start && left.column_start == right.column_start && left.line_end
                == right.line_end && left.column_end == right.column_end
        },
        _ => false,
    }
}

fn is_instance_of(instance: &CompilerInstance, record: &CompilerPlacement) -> (result: bool)
    ensures
        result == (instance@.identity == record@.identity),
{
    same_text(instance.origin.crate_name.as_str(), record.origin.crate_name.as_str())
        && same_text(instance.origin.definition_path.as_str(), record.origin.definition_path.as_str())
        && same_span(&instance.origin.source, &record.origin.source) && same_text(
        instance.display_name.as_str(),
        record.display_name.as_str(),
    ) && same_text(instance.raw_symbol.as_str(), record.raw_symbol.as_str())
}

fn add_record(instances: &mut Vec<CompilerInstance>, record: CompilerPlacement) -> (result: Result<
    (),
    IdentityFault,
>)
    requires
        old(instances)@.len() <= MAX_INSTANCES,
    ensures
        final(instances)@.len() <= MAX_INSTANCES,
        match (result, with_record(instance_views(old(instances)@), record@)) {
            (Ok(()), Ok(more)) => instance_views(final(instances)@) == more,
            (Err(fault), Err(expected)) => fault@ == expected,
            _ => false,
        },
{
    let ghost before = instance_views(instances@);
    let mut index: usize = 0;
    while index < instances.len() && !is_instance_of(&instances[index], &record)
        invariant
            index <= instances@.len(),
            before == instance_views(instances@),
            instances@ == old(instances)@,
            forall|i: int| 0 <= i < index ==> (#[trigger] before[i]).identity != record@.identity,
        decreases instances.len() - index,
    {
        assert(before[index as int] == instances@[index as int]@);
        index += 1;
    }
    proof {
        if index < instances@.len() {
            assert(before[index as int] == instances@[index as int]@);
        }
        index_of_is(before, record@.identity, index as int);
    }
    if index < instances.len() {
        let ghost found = instances@[index as int];
        instances[index].placements.push(record.placement);
        proof {
            assert(place_views(instances@[index as int].placements@) =~= place_views(
                found.placements@,
            ).push(record@.place));
            assert(instance_views(instances@) =~= before.update(
                index as int,
                InstanceData {
                    places: before[index as int].places.push(record@.place),
                    ..before[index as int]
                },
            ));
        }
        return Ok(());
    }
    if instances.len() >= MAX_INSTANCES {
        return Err(Fault::Instances { got: instances.len() + 1 });
    }
    let mut placements: Vec<CodegenUnitPlacement> = Vec::new();
    placements.push(record.placement);
    assert(place_views(placements@) =~= seq![record@.place]);
    let instance = CompilerInstance {
        origin: record.origin,
        display_name: record.display_name,
        raw_symbol: record.raw_symbol,
        placements,
    };
    instances.push(instance);
    assert(instance_views(instances@) =~= before.push(instance@));
    Ok(())
}

fn validate_header<R: ByteSource>(reader: &mut Reader<R>, expected_rustc_commit: &str) -> (result:
    Result<(), IdentityFault>)
    ensures
        agrees(
            result,
            final(reader).input(),
            header(old(reader).input(), expected_rustc_commit@),
            |value: (), meant: ()| true,
        ),
{
    let magic = match read_exact(reader, 16, Field::ManifestHeader) {
        Err(fault) => {
            return Err(fault);
        },
        Ok(magic) => magic,
    };
    if !crate::bytes::same(&magic, &MANIFEST_MAGIC) {
        return Err(Fault::Magic);
    }
    let version: u32 = match read_u32(reader, Field::ProtocolVersion) {
        Err(fault) => {
            return Err(fault);
        },
        Ok(version) => version,
    };
    if version != PROTOCOL_VERSION {
        return Err(Fault::Version { got: version });
    }
    let commit = match read_string(reader, Field::RustcCommit) {
        Err(fault) => {
            return Err(fault);
        },
        Ok(commit) => commit,
    };
    if !same_text(commit.as_str(), expected_rustc_commit) {
        return Err(Fault::Commit { expected: expected_rustc_commit.to_owned(), got: commit });
    }
    Ok(())
}

fn read_placement<R: ByteSource>(reader: &mut Reader<R>) -> (result: Result<
    CompilerPlacement,
    IdentityFault,
>)
    ensures
        agrees(
            result,
            final(reader).input(),
            placement(old(reader).input()),
            |value: CompilerPlacement, meant: RecordData| value@ == meant,
        ),
{
    let crate_name = match read_string(reader, Field::DefinitionCrate) {
        Err(fault) => {
            return Err(fault);
        },
        Ok(text) => text,
    };
    let definition_path = match read_string(reader, Field::DefinitionPath) {
        Err(fault) => {
            return Err(fault);
        },
        Ok(text) => text,
    };
    let source = match read_optional_source_span(reader) {
        Err(fault) => {
            return Err(fault);
        },
        Ok(source) => source,
    };
    let display_name = match read_string(reader, Field::DisplayName) {
        Err(fault) => {
            return Err(fault);
        },
        Ok(text) => text,
    };
    let raw_symbol = match read_string(reader, Field::RawSymbol) {
        Err(fault) => {
            return Err(fault);
        },
        Ok(text) => text,
    };
    match read_place(reader) {
        Err(fault) => Err(fault),
        Ok(placement) => Ok(
            CompilerPlacement {
                origin: DefinitionOrigin { crate_name, definition_path, source },
                display_name,
                raw_symbol,
                placement,
            },
        ),
    }
}

fn read_place<R: ByteSource>(reader: &mut Reader<R>) -> (result: Result<
    CodegenUnitPlacement,
    IdentityFault,
>)
    ensures
        agrees(
            result,
            final(reader).input(),
            place(old(reader).input()),
            |value: CodegenUnitPlacement, meant: PlaceData| value@ == meant,
        ),
{
    let codegen_unit = match read_string(reader, Field::CodegenUnit) {
        Err(fault) => {
            return Err(fault);
        },
        Ok(text) => text,
    };
    let linkage = match read_string(reader, Field::Linkage) {
        Err(fault) => {
            return Err(fault);
        },
        Ok(text) => text,
    };
    let visibility = match read_string(reader, Field::Visibility) {
        Err(fault) => {
            return Err(fault);
        },
        Ok(text) => text,
    };
    let local_copy = match read_bool_u32(reader, Field::LocalCopy) {
        Err(fault) => {
            return Err(fault);
        },
        Ok(local_copy) => local_copy,
    };
    match read_usize_u64(reader, Field::SizeEstimate) {
        Err(fault) => Err(fault),
        Ok(size_estimate) => Ok(
            CodegenUnitPlacement { codegen_unit, linkage, visibility, local_copy, size_estimate },
        ),
    }
}

fn read_optional_source_span<R: ByteSource>(reader: &mut Reader<R>) -> (result: Result<
    Option<SourceSpan>,
    IdentityFault,
>)
    ensures
        agrees(
            result,
            final(reader).input(),
            span(old(reader).input()),
            |value: Option<SourceSpan>, meant: Option<SpanData>| span_view(value) == meant,
        ),
{
    match read_bool_u32(reader, Field::SpanPresence) {
        Err(fault) => {
            return Err(fault);
        },
        Ok(false) => {
            return Ok(None);
        },
        Ok(true) => {},
    }
    let file_name = match read_string(reader, Field::SourceFileName) {
        Err(fault) => {
            return Err(fault);
        },
        Ok(text) => text,
    };
    let byte_start: u64 = match read_u64(reader, Field::ByteStart) {
        Err(fault) => {
            return Err(fault);
        },
        Ok(number) => number,
    };
    let byte_end: u64 = match read_u64(reader, Field::ByteEnd) {
        Err(fault) => {
            return Err(fault);
        },
        Ok(number) => number,
    };
    let line_start: usize = match read_usize_u64(reader, Field::LineStart) {
        Err(fault) => {
            return Err(fault);
        },
        Ok(number) => number,
    };
    let column_start: usize = match read_usize_u64(reader, Field::ColumnStart) {
        Err(fault) => {
            return Err(fault);
        },
        Ok(number) => number,
    };
    let line_end: usize = match read_usize_u64(reader, Field::LineEnd) {
        Err(fault) => {
            return Err(fault);
        },
        Ok(number) => number,
    };
    match read_usize_u64(reader, Field::ColumnEnd) {
        Err(fault) => Err(fault),
        Ok(column_end) => Ok(
            Some(
                SourceSpan {
                    file_name,
                    byte_start,
                    byte_end,
                    line_start,
                    column_start,
                    line_end,
                    column_end,
                },
            ),
        ),
    }
}

fn read_bool_u32<R: ByteSource>(reader: &mut Reader<R>, field: Field) -> (result: Result<
    bool,
    IdentityFault,
>)
    ensures
        agrees(
            result,
            final(reader).input(),
            flag(old(reader).input(), field),
            |value: bool, meant: bool| value == meant,
        ),
{
    match read_u32(reader, field) {
        Err(fault) => Err(fault),
        Ok(got) => if got == 0 {
            Ok(false)
        } else if got == 1 {
            Ok(true)
        } else {
            Err(Fault::Flag { field, got })
        },
    }
}

fn read_usize_u64<R: ByteSource>(reader: &mut Reader<R>, field: Field) -> (result: Result<
    usize,
    IdentityFault,
>)
    ensures
        agrees(
            result,
            final(reader).input(),
            size(old(reader).input(), field),
            |value: usize, meant: usize| value == meant,
        ),
{
    match read_u64(reader, field) {
        Err(fault) => Err(fault),
        Ok(got) => if got > usize::MAX as u64 {
            Err(Fault::Size { field, got })
        } else {
            Ok(got as usize)
        },
    }
}

fn read_string<R: ByteSource>(reader: &mut Reader<R>, field: Field) -> (result: Result<
    String,
    IdentityFault,
>)
    ensures
        agrees(
            result,
            final(reader).input(),
            text(old(reader).input(), field),
            |value: String, meant: Seq<char>| value@ == meant,
        ),
{
    let count: u32 = match read_length_u32(reader, field, MAX_STRING_BYTES) {
        Err(fault) => {
            return Err(fault);
        },
        Ok(count) => count,
    };
    let bytes = match read_exact(reader, count as usize, field) {
        Err(fault) => {
            return Err(fault);
        },
        Ok(bytes) => bytes,
    };
    match utf8_text(bytes) {
        Ok(text) => Ok(text),
        Err(_) => Err(Fault::NotUtf8(field)),
    }
}

fn read_length_u32<R: ByteSource>(reader: &mut Reader<R>, field: Field, maximum: u32) -> (result:
    Result<u32, IdentityFault>)
    ensures
        agrees(
            result,
            final(reader).input(),
            length(old(reader).input(), field, maximum),
            |value: u32, meant: u32| value == meant,
        ),
{
    match read_u32(reader, field) {
        Err(fault) => Err(fault),
        Ok(got) => if got > maximum {
            Err(Fault::Length { field, maximum, got })
        } else {
            Ok(got)
        },
    }
}

fn read_u32<R: ByteSource>(reader: &mut Reader<R>, field: Field) -> (result: Result<
    u32,
    IdentityFault,
>)
    ensures
        agrees(
            result,
            final(reader).input(),
            number(old(reader).input(), field),
            |value: u32, meant: u32| value == meant,
        ),
{
    match reader.read_u32() {
        Ok(value) => Ok(value),
        Err(_) => Err(Fault::Truncated(field)),
    }
}

fn read_u64<R: ByteSource>(reader: &mut Reader<R>, field: Field) -> (result: Result<
    u64,
    IdentityFault,
>)
    ensures
        agrees(
            result,
            final(reader).input(),
            long(old(reader).input(), field),
            |value: u64, meant: u64| value == meant,
        ),
{
    match reader.read_u64() {
        Ok(value) => Ok(value),
        Err(_) => Err(Fault::Truncated(field)),
    }
}

fn read_exact<R: ByteSource>(reader: &mut Reader<R>, count: usize, field: Field) -> (result: Result<
    Vec<u8>,
    IdentityFault,
>)
    ensures
        agrees(
            result,
            final(reader).input(),
            exact(old(reader).input(), count as nat, field),
            |value: Vec<u8>, meant: Seq<u8>| value@ == meant,
        ),
{
    match reader.read_exact(count) {
        Ok(bytes) => Ok(bytes),
        Err(_) => Err(Fault::Truncated(field)),
    }
}

} // verus!

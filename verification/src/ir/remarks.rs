//! Reads LLVM optimization remarks emitted for the selected Rust target.
//!
//! [`parse_optimization_remarks`] reads the YAML document stream of one `*.opt.opt.yaml` file. It
//! bounds the file, each document, the record count, strings, and argument count before it returns
//! typed [`OptimizationRemark`] records. Collection and persistent storage remain the caller's
//! responsibility.

use super::yaml;
use super::yaml::{find, has_untagged_name, parse_yaml, Yaml};
use crate::bytes;
use crate::bytes::{first_is, has_prefix, is_space, same, trim_ascii, trim_ascii_end};
use crate::lines;
use crate::lines::LineReader;
use crate::source;
use crate::source::{ByteSource, Limited, SourceError};
use crate::text::push_decimal;
use crate::text::same_text;
use crate::wire::{put_bytes, Input};
use vstd::prelude::*;
use vstd::string::StringExecFns;

verus! {

/// Resource limits for one LLVM optimization-remark file.
#[derive(Clone, Copy, Debug, PartialEq, Eq, Structural)]
pub struct RemarkParseLimits {
    /// The maximum size of the complete file in bytes.
    pub max_file_bytes: u64,
    /// The maximum size of one YAML document in bytes.
    pub max_document_bytes: usize,
    /// The maximum number of remark documents in one file.
    pub max_records: usize,
    /// The maximum UTF-8 byte length of one string value.
    pub max_string_bytes: usize,
    /// The maximum number of argument fragments in one remark.
    pub max_arguments: usize,
}

impl Default for RemarkParseLimits {
    fn default() -> (result: Self)
        ensures
            result == (RemarkParseLimits {
                max_file_bytes: 268435456,
                max_document_bytes: 4194304,
                max_records: 1000000,
                max_string_bytes: 65536,
                max_arguments: 4096,
            }),
    {
        RemarkParseLimits {
            max_file_bytes: 268435456,
            max_document_bytes: 4194304,
            max_records: 1000000,
            max_string_bytes: 65536,
            max_arguments: 4096,
        }
    }
}

/// The category encoded by an LLVM YAML document tag.
#[derive(Clone, Debug, PartialEq, Eq)]
pub enum RemarkKind {
    /// An optimization was applied.
    Passed,
    /// An optimization was not applied.
    Missed,
    /// The compiler reports analysis information.
    Analysis,
    /// The compiler reports a floating-point reassociation opportunity.
    AnalysisFpCommute,
    /// The compiler reports an alias-analysis result.
    AnalysisAliasing,
    /// An optimization failed after it started.
    Failure,
    /// LLVM emitted a tag that is not classified.
    Unknown {
        /// The tag without its leading `!` marker.
        tag: String,
    },
}

/// The mathematical category.
pub enum KindData {
    /// An optimization was applied.
    Passed,
    /// An optimization was not applied.
    Missed,
    /// The compiler reports analysis information.
    Analysis,
    /// The compiler reports a floating-point reassociation opportunity.
    AnalysisFpCommute,
    /// The compiler reports an alias-analysis result.
    AnalysisAliasing,
    /// An optimization failed after it started.
    Failure,
    /// LLVM emitted a tag that is not classified.
    Unknown(Seq<char>),
}

impl View for RemarkKind {
    type V = KindData;

    open spec fn view(&self) -> KindData {
        match self {
            RemarkKind::Passed => KindData::Passed,
            RemarkKind::Missed => KindData::Missed,
            RemarkKind::Analysis => KindData::Analysis,
            RemarkKind::AnalysisFpCommute => KindData::AnalysisFpCommute,
            RemarkKind::AnalysisAliasing => KindData::AnalysisAliasing,
            RemarkKind::Failure => KindData::Failure,
            RemarkKind::Unknown { tag } => KindData::Unknown(tag@),
        }
    }
}

/// A source location attached to a remark or one argument fragment.
#[derive(Clone, Debug, PartialEq, Eq)]
pub struct RemarkSourceLocation {
    /// The source path reported by LLVM.
    pub file: String,
    /// The one-based source line.
    pub line: u64,
    /// The one-based source column.
    pub column: u64,
}

/// The mathematical source location.
pub struct LocationData {
    /// The source path.
    pub file: Seq<char>,
    /// The source line.
    pub line: u64,
    /// The source column.
    pub column: u64,
}

/// The mathematical source location of an optional one.
pub open spec fn location_view(location: Option<RemarkSourceLocation>) -> Option<LocationData> {
    match location {
        Some(location) => Some(
            LocationData {
                file: location.file@,
                line: location.line,
                column: location.column,
            },
        ),
        None => None,
    }
}

/// One ordered fragment of an LLVM optimization-remark message.
#[derive(Clone, Debug, PartialEq, Eq)]
pub struct RemarkArgument {
    /// The LLVM argument key, such as `String`, `Callee`, or `Cost`.
    pub key: String,
    /// The printable scalar value for this fragment.
    pub value: String,
    /// The optional source location attached to this fragment.
    pub source_location: Option<RemarkSourceLocation>,
}

/// The mathematical fragment.
pub struct ArgumentData {
    /// The key.
    pub key: Seq<char>,
    /// The printable value.
    pub value: Seq<char>,
    /// The source location.
    pub source_location: Option<LocationData>,
}

impl View for RemarkArgument {
    type V = ArgumentData;

    open spec fn view(&self) -> ArgumentData {
        ArgumentData {
            key: self.key@,
            value: self.value@,
            source_location: location_view(self.source_location),
        }
    }
}

/// One typed LLVM optimization remark.
#[derive(Clone, Debug, PartialEq, Eq)]
pub struct OptimizationRemark {
    /// The category from the YAML document tag.
    pub kind: RemarkKind,
    /// The optimization pass that emitted this record.
    pub pass_name: String,
    /// The stable remark name within the pass.
    pub remark_name: String,
    /// The raw LLVM function symbol.
    pub function: String,
    /// The optional source location for the complete remark.
    pub source_location: Option<RemarkSourceLocation>,
    /// The optional profile hotness recorded by LLVM.
    pub hotness: Option<u64>,
    /// The ordered, typed fragments that form the message.
    pub arguments: Vec<RemarkArgument>,
    /// The printable message formed by concatenating argument values.
    pub message: String,
}

/// The mathematical remark.
pub struct RemarkData {
    /// The category.
    pub kind: KindData,
    /// The optimization pass.
    pub pass_name: Seq<char>,
    /// The remark name.
    pub remark_name: Seq<char>,
    /// The function symbol.
    pub function: Seq<char>,
    /// The source location.
    pub source_location: Option<LocationData>,
    /// The hotness.
    pub hotness: Option<u64>,
    /// The fragments.
    pub arguments: Seq<ArgumentData>,
    /// The message.
    pub message: Seq<char>,
}

/// The mathematical fragments of a list.
pub open spec fn argument_views(arguments: Seq<RemarkArgument>) -> Seq<ArgumentData> {
    arguments.map_values(|argument: RemarkArgument| argument@)
}

impl View for OptimizationRemark {
    type V = RemarkData;

    open spec fn view(&self) -> RemarkData {
        RemarkData {
            kind: self.kind@,
            pass_name: self.pass_name@,
            remark_name: self.remark_name@,
            function: self.function@,
            source_location: location_view(self.source_location),
            hotness: self.hotness,
            arguments: argument_views(self.arguments@),
            message: self.message@,
        }
    }
}

/// The mathematical remarks of a list.
pub open spec fn remark_views(remarks: Seq<OptimizationRemark>) -> Seq<RemarkData> {
    remarks.map_values(|remark: OptimizationRemark| remark@)
}

/// A field of a remark document.
#[derive(Clone, Copy, Debug, PartialEq, Eq, Structural)]
pub enum Field {
    /// The field `remark tag`.
    RemarkTag,
    /// The field `document root`.
    DocumentRoot,
    /// The field `Pass`.
    Pass,
    /// The field `Name`.
    Name,
    /// The field `Function`.
    Function,
    /// The field `DebugLoc`.
    DebugLoc,
    /// The field `Hotness`.
    Hotness,
    /// The field `argument key`.
    ArgumentKey,
    /// The field `argument value`.
    ArgumentValue,
    /// The field `rendered message`.
    RenderedMessage,
    /// The field `File`.
    File,
    /// The field `Line`.
    Line,
    /// The field `Column`.
    Column,
}

impl Field {
    /// The name of the field.
    pub open spec fn name(self) -> Seq<char> {
        match self {
            Field::RemarkTag => "remark tag"@,
            Field::DocumentRoot => "document root"@,
            Field::Pass => "Pass"@,
            Field::Name => "Name"@,
            Field::Function => "Function"@,
            Field::DebugLoc => "DebugLoc"@,
            Field::Hotness => "Hotness"@,
            Field::ArgumentKey => "argument key"@,
            Field::ArgumentValue => "argument value"@,
            Field::RenderedMessage => "rendered message"@,
            Field::File => "File"@,
            Field::Line => "Line"@,
            Field::Column => "Column"@,
        }
    }

    /// Returns the name of the field.
    pub fn as_str(self) -> (result: &'static str)
        ensures
            result@ == self.name(),
    {
        match self {
            Field::RemarkTag => "remark tag",
            Field::DocumentRoot => "document root",
            Field::Pass => "Pass",
            Field::Name => "Name",
            Field::Function => "Function",
            Field::DebugLoc => "DebugLoc",
            Field::Hotness => "Hotness",
            Field::ArgumentKey => "argument key",
            Field::ArgumentValue => "argument value",
            Field::RenderedMessage => "rendered message",
            Field::File => "File",
            Field::Line => "Line",
            Field::Column => "Column",
        }
    }
}

/// A rule that a remark file broke.
#[derive(Debug)]
#[allow(inconsistent_fields)]
pub enum RemarkFault {
    /// The source failed.
    Read(SourceError),
    /// The file is too long.
    FileLength {
        /// The largest length.
        maximum: u64,
        /// The length.
        got: u64,
    },
    /// An end marker follows no document.
    StrayEnd,
    /// Content follows a completed document.
    StrayContent,
    /// Content precedes the first document.
    NoStart,
    /// A document is too long.
    DocumentLength {
        /// The largest length.
        maximum: usize,
        /// The length.
        got: usize,
    },
    /// There are too many documents.
    RecordCount {
        /// The largest number.
        maximum: usize,
        /// The number.
        got: usize,
    },
    /// A document is no YAML.
    InvalidYaml {
        /// The number of the document.
        document: usize,
        /// What is wrong with it.
        problem: String,
    },
    /// A document has no tag.
    NoTag,
    /// A field is no mapping.
    NotMapping(Field),
    /// A document lacks a field.
    NoString(Field),
    /// A mapping lacks a field.
    NoNumber(Field),
    /// A field is no text.
    NotString(Field),
    /// A text is too long.
    StringLength {
        /// The field.
        field: Field,
        /// The largest length.
        maximum: usize,
        /// The length.
        got: usize,
    },
    /// A field is no scalar.
    NotScalar(Field),
    /// A field is no number.
    NotInteger(Field),
    /// A field is no natural number.
    NotNatural(Field),
    /// The arguments are no sequence.
    NotSequence,
    /// There are too many arguments.
    ArgumentCount {
        /// The largest number.
        maximum: usize,
        /// The number.
        got: usize,
    },
    /// The argument with this number is no mapping.
    ArgumentNotMapping(usize),
    /// The argument with this number has no value.
    NoFragment(usize),
    /// The argument with this number has more than one value.
    ExtraFragment(usize),
}

/// The numeral of a number.
pub open spec fn numeral(number: int) -> Seq<char> {
    crate::text::decimal(number as nat)
}

/// The quoted name of a field.
pub open spec fn quoted(field: Field) -> Seq<char> {
    "`"@ + field.name() + "`"@
}

impl RemarkFault {
    /// The sentence that describes the fault.
    pub open spec fn sentence(self) -> Seq<char> {
        match self {
            RemarkFault::Read(error) => error.message@,
            RemarkFault::FileLength { maximum, got } => "file length exceeds "@ + numeral(
                maximum as int,
            ) + " bytes, got "@ + numeral(got as int),
            RemarkFault::StrayEnd => "document end marker does not follow a document"@,
            RemarkFault::StrayContent => "unexpected content follows a completed document"@,
            RemarkFault::NoStart => "first document must start with `---`"@,
            RemarkFault::DocumentLength { maximum, got } => "document length exceeds "@ + numeral(
                maximum as int,
            ) + " bytes, got "@ + numeral(got as int),
            RemarkFault::RecordCount { maximum, got } => "record count exceeds "@ + numeral(
                maximum as int,
            ) + ", got "@ + numeral(got as int),
            RemarkFault::InvalidYaml { document, problem } => "document "@ + numeral(
                document as int,
            ) + " is invalid YAML: "@ + problem@,
            RemarkFault::NoTag => "document root must have an LLVM remark tag"@,
            RemarkFault::NotMapping(field) => quoted(field) + " must be a mapping"@,
            RemarkFault::NoString(field) => "document must contain "@ + quoted(field),
            RemarkFault::NoNumber(field) => "mapping must contain "@ + quoted(field),
            RemarkFault::NotString(field) => quoted(field) + " must be a string"@,
            RemarkFault::StringLength { field, maximum, got } => quoted(field)
                + " length exceeds "@ + numeral(maximum as int) + " bytes, got "@ + numeral(
                got as int,
            ),
            RemarkFault::NotScalar(field) => quoted(field) + " must be a scalar"@,
            RemarkFault::NotInteger(field) => quoted(field) + " must be an integer"@,
            RemarkFault::NotNatural(field) => quoted(field) + " must be a non-negative integer"@,
            RemarkFault::NotSequence => "`Args` must be a sequence"@,
            RemarkFault::ArgumentCount { maximum, got } => "argument count exceeds "@ + numeral(
                maximum as int,
            ) + ", got "@ + numeral(got as int),
            RemarkFault::ArgumentNotMapping(number) => "argument "@ + numeral(number as int)
                + " must be a mapping"@,
            RemarkFault::NoFragment(number) => "argument "@ + numeral(number as int)
                + " has no value fragment"@,
            RemarkFault::ExtraFragment(number) => "argument "@ + numeral(number as int)
                + " has more than one value fragment"@,
        }
    }

    /// Describes the fault.
    pub fn message(&self) -> (result: String)
        ensures
            result@ == self.sentence(),
    {
        match self {
            RemarkFault::Read(error) => error.message.clone(),
            RemarkFault::FileLength { maximum, got } => exceeded(
                "file length exceeds ",
                *maximum,
                " bytes, got ",
                *got,
            ),
            RemarkFault::StrayEnd => String::from_str(
                "document end marker does not follow a document",
            ),
            RemarkFault::StrayContent => String::from_str(
                "unexpected content follows a completed document",
            ),
            RemarkFault::NoStart => String::from_str("first document must start with `---`"),
            RemarkFault::DocumentLength { maximum, got } => exceeded(
                "document length exceeds ",
                *maximum as u64,
                " bytes, got ",
                *got as u64,
            ),
            RemarkFault::RecordCount { maximum, got } => exceeded(
                "record count exceeds ",
                *maximum as u64,
                ", got ",
                *got as u64,
            ),
            RemarkFault::InvalidYaml { document, problem } => {
                let mut text = String::from_str("document ");
                push_decimal(&mut text, *document as u64);
                text.append(" is invalid YAML: ");
                text.append(problem.as_str());
                text
            },
            RemarkFault::NoTag => String::from_str("document root must have an LLVM remark tag"),
            RemarkFault::NotMapping(field) => field_text("", *field, " must be a mapping"),
            RemarkFault::NoString(field) => field_text("document must contain ", *field, ""),
            RemarkFault::NoNumber(field) => field_text("mapping must contain ", *field, ""),
            RemarkFault::NotString(field) => field_text("", *field, " must be a string"),
            RemarkFault::StringLength { field, maximum, got } => {
                let mut text = field_text("", *field, " length exceeds ");
                push_decimal(&mut text, *maximum as u64);
                text.append(" bytes, got ");
                push_decimal(&mut text, *got as u64);
                text
            },
            RemarkFault::NotScalar(field) => field_text("", *field, " must be a scalar"),
            RemarkFault::NotInteger(field) => field_text("", *field, " must be an integer"),
            RemarkFault::NotNatural(field) => field_text(
                "",
                *field,
                " must be a non-negative integer",
            ),
            RemarkFault::NotSequence => String::from_str("`Args` must be a sequence"),
            RemarkFault::ArgumentCount { maximum, got } => exceeded(
                "argument count exceeds ",
                *maximum as u64,
                ", got ",
                *got as u64,
            ),
            RemarkFault::ArgumentNotMapping(number) => numbered(*number, " must be a mapping"),
            RemarkFault::NoFragment(number) => numbered(*number, " has no value fragment"),
            RemarkFault::ExtraFragment(number) => numbered(
                *number,
                " has more than one value fragment",
            ),
        }
    }
}

fn exceeded(prefix: &str, maximum: u64, middle: &str, got: u64) -> (result: String)
    ensures
        result@ == prefix@ + numeral(maximum as int) + middle@ + numeral(got as int),
{
    let mut text = String::from_str(prefix);
    push_decimal(&mut text, maximum);
    text.append(middle);
    push_decimal(&mut text, got);
    text
}

fn field_text(prefix: &str, field: Field, suffix: &str) -> (result: String)
    ensures
        result@ == prefix@ + quoted(field) + suffix@,
        prefix@ == ""@ ==> result@ == quoted(field) + suffix@,
        suffix@ == ""@ ==> result@ == prefix@ + quoted(field),
{
    let mut text = String::from_str(prefix);
    text.append("`");
    text.append(field.as_str());
    text.append("`");
    text.append(suffix);
    proof {
        reveal_strlit("");
        assert(text@ =~= prefix@ + quoted(field) + suffix@);
        assert(prefix@ == ""@ ==> text@ =~= quoted(field) + suffix@);
        assert(suffix@ == ""@ ==> text@ =~= prefix@ + quoted(field));
    }
    text
}

fn numbered(number: usize, suffix: &str) -> (result: String)
    ensures
        result@ == "argument "@ + numeral(number as int) + suffix@,
{
    let mut text = String::from_str("argument ");
    push_decimal(&mut text, number as u64);
    text.append(suffix);
    text
}

/// A number and one more, up to the largest number of the machine.
pub open spec fn plus_one(number: usize) -> usize {
    if number == usize::MAX {
        number
    } else {
        (number + 1) as usize
    }
}

/// The sum of two lengths, up to the largest number of the machine.
pub open spec fn joined_length(left: nat, right: nat) -> int {
    if left + right > usize::MAX {
        usize::MAX as int
    } else {
        (left + right) as int
    }
}

/// The length of a text in bytes.
pub open spec fn byte_length(text: Seq<char>) -> nat {
    vstd::utf8::encode_utf8(text).len()
}

/// A text that is short enough.
pub open spec fn bounded(field: Field, text: Seq<char>, limits: RemarkParseLimits) -> Result<
    Seq<char>,
    RemarkFault,
> {
    if byte_length(text) > limits.max_string_bytes {
        Err(
            RemarkFault::StringLength {
                field,
                maximum: limits.max_string_bytes,
                got: byte_length(text) as usize,
            },
        )
    } else {
        Ok(text)
    }
}

/// A text without its leading marks.
pub open spec fn without_marks(text: Seq<char>) -> Seq<char>
    decreases text.len(),
{
    if text.len() > 0 && text[0] == '!' {
        without_marks(text.skip(1))
    } else {
        text
    }
}

/// The category of a tag without its marks.
pub open spec fn kind_of(tag: Seq<char>) -> KindData {
    if tag == "Passed"@ {
        KindData::Passed
    } else if tag == "Missed"@ {
        KindData::Missed
    } else if tag == "Analysis"@ {
        KindData::Analysis
    } else if tag == "AnalysisFPCommute"@ {
        KindData::AnalysisFpCommute
    } else if tag == "AnalysisAliasing"@ {
        KindData::AnalysisAliasing
    } else if tag == "Failure"@ {
        KindData::Failure
    } else {
        KindData::Unknown(tag)
    }
}

/// The category of a document tag.
pub open spec fn kind_from(tag: Seq<char>, limits: RemarkParseLimits) -> Result<
    KindData,
    RemarkFault,
> {
    match bounded(Field::RemarkTag, without_marks(tag), limits) {
        Err(fault) => Err(fault),
        Ok(tag) => Ok(kind_of(tag)),
    }
}

/// A value that has to be a text.
pub open spec fn string_of(value: Yaml, field: Field, limits: RemarkParseLimits) -> Result<
    Seq<char>,
    RemarkFault,
> {
    match value {
        Yaml::Text(text) => bounded(field, text@, limits),
        _ => Err(RemarkFault::NotString(field)),
    }
}

/// An entry that has to be a text.
pub open spec fn string_at(
    entries: Seq<(Yaml, Yaml)>,
    field: Field,
    limits: RemarkParseLimits,
) -> Result<Seq<char>, RemarkFault> {
    match yaml::lookup(entries, field.name()) {
        None => Err(RemarkFault::NoString(field)),
        Some(value) => string_of(value, field, limits),
    }
}

/// A value that has to be a natural number.
pub open spec fn natural_of(value: Yaml, field: Field) -> Result<u64, RemarkFault> {
    match value {
        Yaml::Number(_, Some(number)) => Ok(number),
        Yaml::Number(_, None) => Err(RemarkFault::NotNatural(field)),
        _ => Err(RemarkFault::NotInteger(field)),
    }
}

/// An entry that has to be a natural number.
pub open spec fn natural_at(entries: Seq<(Yaml, Yaml)>, field: Field) -> Result<u64, RemarkFault> {
    match yaml::lookup(entries, field.name()) {
        None => Err(RemarkFault::NoNumber(field)),
        Some(value) => natural_of(value, field),
    }
}

/// An entry that may be a natural number.
pub open spec fn hotness_at(entries: Seq<(Yaml, Yaml)>) -> Result<Option<u64>, RemarkFault> {
    match yaml::lookup(entries, Field::Hotness.name()) {
        None => Ok(None),
        Some(value) => match natural_of(value, Field::Hotness) {
            Err(fault) => Err(fault),
            Ok(number) => Ok(Some(number)),
        },
    }
}

/// A source location.
pub open spec fn location_of(value: Yaml, limits: RemarkParseLimits) -> Result<
    Option<LocationData>,
    RemarkFault,
> {
    match value {
        Yaml::Mapping(entries) => match string_at(entries@, Field::File, limits) {
            Err(fault) => Err(fault),
            Ok(file) => match natural_at(entries@, Field::Line) {
                Err(fault) => Err(fault),
                Ok(line) => match natural_at(entries@, Field::Column) {
                    Err(fault) => Err(fault),
                    Ok(column) => Ok(Some(LocationData { file, line, column })),
                },
            },
        },
        _ => Err(RemarkFault::NotMapping(Field::DebugLoc)),
    }
}

/// The optional source location of a mapping.
pub open spec fn location_at(entries: Seq<(Yaml, Yaml)>, limits: RemarkParseLimits) -> Result<
    Option<LocationData>,
    RemarkFault,
> {
    match yaml::lookup(entries, Field::DebugLoc.name()) {
        None => Ok(None),
        Some(value) => location_of(value, limits),
    }
}

/// The printable text of a scalar.
pub open spec fn scalar_of(value: Yaml, limits: RemarkParseLimits) -> Result<
    Seq<char>,
    RemarkFault,
> {
    match value {
        Yaml::Text(text) => bounded(Field::ArgumentValue, text@, limits),
        Yaml::Number(text, _) => bounded(Field::ArgumentValue, text@, limits),
        Yaml::Bool(true) => bounded(Field::ArgumentValue, "true"@, limits),
        Yaml::Bool(false) => bounded(Field::ArgumentValue, "false"@, limits),
        Yaml::Null => bounded(Field::ArgumentValue, "null"@, limits),
        _ => Err(RemarkFault::NotScalar(Field::ArgumentValue)),
    }
}

/// A key stands for a source location, with or without tags.
pub open spec fn is_location(key: Yaml) -> bool {
    yaml::is_key(yaml::untagged(key), Field::DebugLoc.name())
}

/// The entries of an argument but for its source location.
pub open spec fn fragments(entries: Seq<(Yaml, Yaml)>) -> Seq<(Yaml, Yaml)> {
    entries.filter(|entry: (Yaml, Yaml)| !is_location(entry.0))
}

/// One argument.
pub open spec fn argument_of(value: Yaml, index: int, limits: RemarkParseLimits) -> Result<
    ArgumentData,
    RemarkFault,
> {
    match value {
        Yaml::Mapping(entries) => match location_at(entries@, limits) {
            Err(fault) => Err(fault),
            Ok(source_location) => {
                let values = fragments(entries@);
                if values.len() == 0 {
                    Err(RemarkFault::NoFragment((index + 1) as usize))
                } else if values.len() > 1 {
                    Err(RemarkFault::ExtraFragment((index + 1) as usize))
                } else {
                    match string_of(values[0].0, Field::ArgumentKey, limits) {
                        Err(fault) => Err(fault),
                        Ok(key) => match scalar_of(values[0].1, limits) {
                            Err(fault) => Err(fault),
                            Ok(value) => Ok(ArgumentData { key, value, source_location }),
                        },
                    }
                }
            },
        },
        _ => Err(RemarkFault::ArgumentNotMapping((index + 1) as usize)),
    }
}

/// The arguments from an index on, behind those read so far.
pub open spec fn arguments_from(
    values: Seq<Yaml>,
    index: int,
    read: Seq<ArgumentData>,
    limits: RemarkParseLimits,
) -> Result<Seq<ArgumentData>, RemarkFault>
    decreases values.len() - index,
{
    if index >= values.len() {
        Ok(read)
    } else {
        match argument_of(values[index], index, limits) {
            Err(fault) => Err(fault),
            Ok(argument) => arguments_from(values, index + 1, read.push(argument), limits),
        }
    }
}

/// The arguments of a document.
pub open spec fn arguments_at(entries: Seq<(Yaml, Yaml)>, limits: RemarkParseLimits) -> Result<
    Seq<ArgumentData>,
    RemarkFault,
> {
    match yaml::lookup(entries, "Args"@) {
        None => Ok(Seq::empty()),
        Some(Yaml::Sequence(values)) => if values@.len() > limits.max_arguments {
            Err(
                RemarkFault::ArgumentCount {
                    maximum: limits.max_arguments,
                    got: values@.len() as usize,
                },
            )
        } else {
            arguments_from(values@, 0, Seq::empty(), limits)
        },
        Some(_) => Err(RemarkFault::NotSequence),
    }
}

/// The values of the arguments, one behind the other.
pub open spec fn message_of(arguments: Seq<ArgumentData>) -> Seq<char>
    decreases arguments.len(),
{
    if arguments.len() == 0 {
        Seq::empty()
    } else {
        message_of(arguments.drop_last()) + arguments.last().value
    }
}

/// The fields of a remark in the mapping of a document.
pub open spec fn remark_in(
    kind: KindData,
    entries: Seq<(Yaml, Yaml)>,
    limits: RemarkParseLimits,
) -> Result<RemarkData, RemarkFault> {
    match string_at(entries, Field::Pass, limits) {
        Err(fault) => Err(fault),
        Ok(pass_name) => match string_at(entries, Field::Name, limits) {
            Err(fault) => Err(fault),
            Ok(remark_name) => match string_at(entries, Field::Function, limits) {
                Err(fault) => Err(fault),
                Ok(function) => match location_at(entries, limits) {
                    Err(fault) => Err(fault),
                    Ok(source_location) => match hotness_at(entries) {
                        Err(fault) => Err(fault),
                        Ok(hotness) => match arguments_at(entries, limits) {
                            Err(fault) => Err(fault),
                            Ok(arguments) => match bounded(
                                Field::RenderedMessage,
                                message_of(arguments),
                                limits,
                            ) {
                                Err(fault) => Err(fault),
                                Ok(message) => Ok(
                                    RemarkData {
                                        kind,
                                        pass_name,
                                        remark_name,
                                        function,
                                        source_location,
                                        hotness,
                                        arguments,
                                        message,
                                    },
                                ),
                            },
                        },
                    },
                },
            },
        },
    }
}

/// The remark of a document.
pub open spec fn remark_of(value: Yaml, limits: RemarkParseLimits) -> Result<
    RemarkData,
    RemarkFault,
> {
    match value {
        Yaml::Tagged(tag, content) => match kind_from(tag@, limits) {
            Err(fault) => Err(fault),
            Ok(kind) => match *content {
                Yaml::Mapping(entries) => remark_in(kind, entries@, limits),
                _ => Err(RemarkFault::NotMapping(Field::DocumentRoot)),
            },
        },
        _ => Err(RemarkFault::NoTag),
    }
}

/// How far a remark file has been read.
pub struct StreamState {
    /// The number of bytes.
    pub total: u64,
    /// A document has started.
    pub saw_document: bool,
    /// The bytes of the current document.
    pub document: Seq<u8>,
    /// The number of remarks so far.
    pub count: usize,
}

/// The state of an unread file.
pub open spec fn unread() -> StreamState {
    StreamState { total: 0, saw_document: false, document: Seq::empty(), count: 0 }
}

/// The state with more bytes in its document.
pub open spec fn with_bytes(state: StreamState, bytes: Seq<u8>, limits: RemarkParseLimits) -> Result<
    StreamState,
    RemarkFault,
> {
    let got = joined_length(state.document.len(), bytes.len());
    if got > limits.max_document_bytes {
        Err(RemarkFault::DocumentLength { maximum: limits.max_document_bytes, got: got as usize })
    } else {
        Ok(StreamState { document: state.document + bytes, ..state })
    }
}

/// The state behind its document and the remark in it, given what the document parses to.
pub open spec fn with_parsed(
    state: StreamState,
    parsed: Result<Yaml, String>,
    limits: RemarkParseLimits,
) -> Result<(StreamState, RemarkData), RemarkFault> {
    match parsed {
        Err(problem) => Err(RemarkFault::InvalidYaml { document: plus_one(state.count), problem }),
        Ok(value) => match remark_of(value, limits) {
            Err(fault) => Err(fault),
            Ok(remark) => Ok(
                (
                    StreamState {
                        count: plus_one(state.count),
                        document: Seq::empty(),
                        ..state
                    },
                    remark,
                ),
            ),
        },
    }
}

/// The state behind its document and the remark in it.
pub open spec fn completed(state: StreamState, limits: RemarkParseLimits) -> Result<
    (StreamState, RemarkData),
    RemarkFault,
> {
    if state.count >= limits.max_records {
        Err(RemarkFault::RecordCount { maximum: limits.max_records, got: plus_one(state.count) })
    } else {
        with_parsed(state, yaml::yaml_document(state.document), limits)
    }
}

/// A line that starts a document.
pub open spec fn starts(marker: Seq<u8>) -> bool {
    let dashes = vstd::utf8::encode_utf8("---"@);
    marker == dashes || (dashes.is_prefix_of(marker) && marker.len() > dashes.len()
        && bytes::space(marker[dashes.len() as int]))
}

/// A line outside all documents that does not count.
pub open spec fn blank(line: Seq<u8>) -> bool {
    let content = bytes::trimmed_end(bytes::trimmed_start(line));
    content.len() == 0 || content[0] == '#' as u8
}

/// The state behind the line that starts a document.
pub open spec fn with_start(state: StreamState, line: Seq<u8>, limits: RemarkParseLimits) -> Result<
    StreamState,
    RemarkFault,
> {
    with_bytes(StreamState { saw_document: true, ..state }, line, limits)
}

/// The state behind a line, and the remark whose document the line completes.
pub open spec fn with_line(state: StreamState, line: Seq<u8>, limits: RemarkParseLimits) -> Result<
    (StreamState, Option<RemarkData>),
    RemarkFault,
> {
    let total = if state.total + line.len() > u64::MAX {
        u64::MAX
    } else {
        (state.total + line.len()) as u64
    };
    let counted = StreamState { total, ..state };
    let marker = bytes::trimmed_end(line);
    if total > limits.max_file_bytes {
        Err(RemarkFault::FileLength { maximum: limits.max_file_bytes, got: total })
    } else if starts(marker) {
        if state.document.len() > 0 {
            match completed(counted, limits) {
                Err(fault) => Err(fault),
                Ok((done, remark)) => match with_start(done, line, limits) {
                    Err(fault) => Err(fault),
                    Ok(more) => Ok((more, Some(remark))),
                },
            }
        } else {
            match with_start(counted, line, limits) {
                Err(fault) => Err(fault),
                Ok(more) => Ok((more, None)),
            }
        }
    } else if marker == vstd::utf8::encode_utf8("..."@) {
        if state.document.len() == 0 {
            Err(RemarkFault::StrayEnd)
        } else {
            match with_bytes(counted, line, limits) {
                Err(fault) => Err(fault),
                Ok(more) => match completed(more, limits) {
                    Err(fault) => Err(fault),
                    Ok((done, remark)) => Ok((done, Some(remark))),
                },
            }
        }
    } else if state.document.len() == 0 {
        if blank(line) {
            Ok((counted, None))
        } else if state.saw_document {
            Err(RemarkFault::StrayContent)
        } else {
            Err(RemarkFault::NoStart)
        }
    } else {
        match with_bytes(counted, line, limits) {
            Err(fault) => Err(fault),
            Ok(more) => Ok((more, None)),
        }
    }
}

/// The remark that the end of a file completes.
pub open spec fn finished(state: StreamState, limits: RemarkParseLimits) -> Result<
    (StreamState, Option<RemarkData>),
    RemarkFault,
> {
    if state.document.len() > 0 {
        match completed(state, limits) {
            Err(fault) => Err(fault),
            Ok((done, remark)) => Ok((done, Some(remark))),
        }
    } else {
        Ok((state, None))
    }
}

/// The next remark in the rest of a file, with the state and the rest behind it.
#[verifier::opaque]
pub open spec fn next_from(input: Input, state: StreamState, limits: RemarkParseLimits) -> Result<
    (Option<RemarkData>, StreamState, Input),
    RemarkFault,
>
    decreases input.rest.len(),
{
    match lines::line_length(input) {
        Err(error) => Err(RemarkFault::Read(error)),
        Ok(length) => if length == 0 {
            match finished(state, limits) {
                Err(fault) => Err(fault),
                Ok((done, remark)) => Ok((remark, done, input)),
            }
        } else {
            match with_line(state, input.rest.take(length), limits) {
                Err(fault) => Err(fault),
                Ok((more, Some(remark))) => Ok((Some(remark), more, lines::behind(input, length))),
                Ok((more, None)) => {
                    proof {
                        lines::line_length_bounds(input);
                    }
                    next_from(lines::behind(input, length), more, limits)
                },
            }
        },
    }
}

/// A remark takes bytes from the input, or the last document from the state.
pub proof fn next_advances(input: Input, state: StreamState, limits: RemarkParseLimits)
    ensures
        next_from(input, state, limits) matches Ok((remark, after, rest)) ==> {
            &&& rest.rest.len() <= input.rest.len()
            &&& remark is Some ==> rest.rest.len() < input.rest.len() || after.document.len()
                < state.document.len()
        },
    decreases input.rest.len(),
{
    reveal(next_from);
    lines::line_length_bounds(input);
    if let Ok(length) = lines::line_length(input) {
        if length > 0 {
            if let Ok((more, None)) = with_line(state, input.rest.take(length), limits) {
                next_advances(lines::behind(input, length), more, limits);
            }
        }
    }
}

/// The remarks of the rest of a file, behind those read before.
pub open spec fn remarks_from(
    input: Input,
    state: StreamState,
    limits: RemarkParseLimits,
    read: Seq<RemarkData>,
) -> Result<Seq<RemarkData>, RemarkFault>
    decreases input.rest.len(), state.document.len(),
{
    match next_from(input, state, limits) {
        Err(fault) => Err(fault),
        Ok((None, _, _)) => Ok(read),
        Ok((Some(remark), after, rest)) => {
            proof {
                next_advances(input, state, limits);
            }
            remarks_from(rest, after, limits, read.push(remark))
        },
    }
}

/// The number of bytes that are read of a file: one more than it may have.
pub open spec fn read_limit(limits: RemarkParseLimits) -> u64 {
    if limits.max_file_bytes == u64::MAX {
        u64::MAX
    } else {
        (limits.max_file_bytes + 1) as u64
    }
}

/// What is read of a file.
pub open spec fn bounded_input(input: Input, limits: RemarkParseLimits) -> Input {
    Input {
        rest: source::limited(input.rest, read_limit(limits)),
        ending: if input.rest.len() >= read_limit(limits) {
            None
        } else {
            input.ending
        },
        ..input
    }
}

/// The remarks of a file.
pub open spec fn remarks(input: Input, file_size: u64, limits: RemarkParseLimits) -> Result<
    Seq<RemarkData>,
    RemarkFault,
> {
    if file_size > limits.max_file_bytes {
        Err(RemarkFault::FileLength { maximum: limits.max_file_bytes, got: file_size })
    } else {
        remarks_from(bounded_input(input, limits), unread(), limits, Seq::empty())
    }
}

/// Parses one rustc LLVM optimization-remark YAML file.
///
/// The file size is the one that the file system reports.
pub fn parse_optimization_remarks<R: ByteSource>(
    source: R,
    file_size: u64,
    limits: RemarkParseLimits,
) -> (result: Result<Vec<OptimizationRemark>, RemarkFault>)
    ensures
        match (
            result,
            remarks(
                lines::patient(source),
                file_size,
                limits,
            ),
        ) {
            (Ok(list), Ok(expected)) => remark_views(list@) == expected,
            (Err(fault), Err(expected)) => fault == expected,
            _ => false,
        },
{
    let mut reader = match parse_optimization_remarks_with(source, file_size, limits) {
        Err(fault) => {
            return Err(fault);
        },
        Ok(reader) => reader,
    };
    let ghost all = remarks(
        lines::patient(source),
        file_size,
        limits,
    );
    let mut records: Vec<OptimizationRemark> = Vec::new();
    assert(remark_views(records@) =~= Seq::empty());
    loop
        invariant
            reader.well_formed(),
            reader.limits() == limits,
            all == remarks(
                lines::patient(source),
                file_size,
                limits,
            ),
            remarks_from(reader.input(), reader.state(), limits, remark_views(records@)) == all,
        decreases reader.input().rest.len(), reader.state().document.len(),
    {
        proof {
            next_advances(reader.input(), reader.state(), limits);
        }
        match reader.next_remark() {
            Err(fault) => {
                return Err(fault);
            },
            Ok(None) => {
                return Ok(records);
            },
            Ok(Some(remark)) => {
                let ghost before = records@;
                records.push(remark);
                assert(remark_views(records@) =~= remark_views(before).push(remark@));
            },
        }
    }
}

/// Reads one remark file remark by remark.
pub struct RemarkReader<R: ByteSource> {
    lines: LineReader<Limited<R>>,
    parser: RemarkStreamParser,
}

/// Starts to read one rustc LLVM optimization-remark YAML file. No more of it than one document is
/// held at a time.
pub fn parse_optimization_remarks_with<R: ByteSource>(
    source: R,
    file_size: u64,
    limits: RemarkParseLimits,
) -> (result: Result<RemarkReader<R>, RemarkFault>)
    ensures
        match result {
            Ok(reader) => {
                &&& file_size <= limits.max_file_bytes
                &&& reader.well_formed()
                &&& reader.limits() == limits
                &&& reader.state() == unread()
                &&& reader.input() == bounded_input(
                    lines::patient(source),
                    limits,
                )
            },
            Err(fault) => {
                &&& file_size > limits.max_file_bytes
                &&& fault == RemarkFault::FileLength {
                    maximum: limits.max_file_bytes,
                    got: file_size,
                }
            },
        },
{
    if file_size > limits.max_file_bytes {
        return Err(RemarkFault::FileLength { maximum: limits.max_file_bytes, got: file_size });
    }
    let limit: u64 = limits.max_file_bytes.saturating_add(1);
    Ok(
        RemarkReader {
            lines: LineReader::new(Limited::new(source, limit)),
            parser: RemarkStreamParser::new(limits),
        },
    )
}

impl<R: ByteSource> RemarkReader<R> {
    /// What is left of the file.
    pub closed spec fn input(&self) -> Input {
        self.lines.input()
    }

    /// How far the file has been read.
    pub closed spec fn state(&self) -> StreamState {
        self.parser.state()
    }

    /// The resource limits.
    pub closed spec fn limits(&self) -> RemarkParseLimits {
        self.parser.limits()
    }

    /// The reader of lines is valid.
    pub closed spec fn well_formed(&self) -> bool {
        self.lines.well_formed()
    }

    /// Reads the next remark, or nothing at the end.
    pub fn next_remark(&mut self) -> (result: Result<Option<OptimizationRemark>, RemarkFault>)
        requires
            old(self).well_formed(),
        ensures
            final(self).well_formed(),
            final(self).limits() == old(self).limits(),
            match (result, next_from(old(self).input(), old(self).state(), old(self).limits())) {
                (Ok(remark), Ok((expected, state, rest))) => {
                    &&& remark_option(remark) == expected
                    &&& final(self).state() == state
                    &&& final(self).input() == rest
                },
                (Err(fault), Err(expected)) => fault == expected,
                _ => false,
            },
    {
        let ghost expected = next_from(self.input(), self.state(), self.limits());
        loop
            invariant
                self.well_formed(),
                self.limits() == old(self).limits(),
                expected == next_from(old(self).input(), old(self).state(), old(self).limits()),
                next_from(self.input(), self.state(), self.limits()) == expected,
            decreases self.input().rest.len(),
        {
            proof {
                reveal(next_from);
                lines::line_length_bounds(self.input());
            }
            let ghost before = self.input();
            match self.lines.read_line() {
                Err(error) => {
                    return Err(RemarkFault::Read(error));
                },
                Ok(line) => {
                    if line.len() == 0 {
                        assert(lines::line_length(before)->Ok_0 == 0);
                        assert(before.rest.skip(0) =~= before.rest);
                        return self.parser.finish();
                    }
                    match self.parser.push_line(line.as_slice()) {
                        Err(fault) => {
                            return Err(fault);
                        },
                        Ok(Some(remark)) => {
                            return Ok(Some(remark));
                        },
                        Ok(None) => {},
                    }
                },
            }
        }
    }
}

/// The mathematical counterpart of an optional remark.
pub open spec fn remark_option(remark: Option<OptimizationRemark>) -> Option<RemarkData> {
    match remark {
        Some(remark) => Some(remark@),
        None => None,
    }
}

/// Reads the lines of one remark file.
pub struct RemarkStreamParser {
    limits: RemarkParseLimits,
    total_bytes: u64,
    saw_document: bool,
    document: Vec<u8>,
    count: usize,
}

/// A parser step agrees with the mathematical one.
pub open spec fn agrees(
    result: Result<(), RemarkFault>,
    after: StreamState,
    expected: Result<StreamState, RemarkFault>,
) -> bool {
    match (result, expected) {
        (Ok(()), Ok(state)) => after == state,
        (Err(fault), Err(meant)) => fault == meant,
        _ => false,
    }
}

/// A parser step that completes a remark agrees with the mathematical one.
pub open spec fn completes(
    result: Result<OptimizationRemark, RemarkFault>,
    after: StreamState,
    expected: Result<(StreamState, RemarkData), RemarkFault>,
) -> bool {
    match (result, expected) {
        (Ok(remark), Ok((state, meant))) => after == state && remark@ == meant,
        (Err(fault), Err(meant)) => fault == meant,
        _ => false,
    }
}

/// A parser step that can complete a remark agrees with the mathematical one.
pub open spec fn may_complete(
    result: Result<Option<OptimizationRemark>, RemarkFault>,
    after: StreamState,
    expected: Result<(StreamState, Option<RemarkData>), RemarkFault>,
) -> bool {
    match (result, expected) {
        (Ok(remark), Ok((state, meant))) => after == state && remark_option(remark) == meant,
        (Err(fault), Err(meant)) => fault == meant,
        _ => false,
    }
}

impl RemarkStreamParser {
    /// The mathematical state.
    pub closed spec fn state(&self) -> StreamState {
        StreamState {
            total: self.total_bytes,
            saw_document: self.saw_document,
            document: self.document@,
            count: self.count,
        }
    }

    /// The resource limits.
    pub closed spec fn limits(&self) -> RemarkParseLimits {
        self.limits
    }

    /// Starts a file.
    pub fn new(limits: RemarkParseLimits) -> (result: Self)
        ensures
            result.state() == unread(),
            result.limits() == limits,
    {
        let result = RemarkStreamParser {
            limits,
            total_bytes: 0,
            saw_document: false,
            document: Vec::new(),
            count: 0,
        };
        assert(result.state().document =~= Seq::empty());
        result
    }

    /// Reads the next line with its line feed.
    pub fn push_line(&mut self, line: &[u8]) -> (result: Result<
        Option<OptimizationRemark>,
        RemarkFault,
    >)
        ensures
            final(self).limits() == old(self).limits(),
            may_complete(
                result,
                final(self).state(),
                with_line(old(self).state(), line@, old(self).limits()),
            ),
    {
        self.total_bytes = self.total_bytes.saturating_add(line.len() as u64);
        if self.total_bytes > self.limits.max_file_bytes {
            return Err(
                RemarkFault::FileLength {
                    maximum: self.limits.max_file_bytes,
                    got: self.total_bytes,
                },
            );
        }
        let marker = trim_ascii_end(line);
        if starts_document(marker) {
            let mut remark: Option<OptimizationRemark> = None;
            if self.document.len() > 0 {
                match self.finish_document() {
                    Err(fault) => {
                        return Err(fault);
                    },
                    Ok(completed) => {
                        remark = Some(completed);
                    },
                }
            }
            self.saw_document = true;
            return match self.push_document_bytes(line) {
                Err(fault) => Err(fault),
                Ok(()) => Ok(remark),
            };
        }
        if same(marker, "...".as_bytes()) {
            if self.document.len() == 0 {
                return Err(RemarkFault::StrayEnd);
            }
            match self.push_document_bytes(line) {
                Err(fault) => {
                    return Err(fault);
                },
                Ok(()) => {},
            }
            return match self.finish_document() {
                Err(fault) => Err(fault),
                Ok(remark) => Ok(Some(remark)),
            };
        }
        if self.document.len() == 0 {
            let trimmed = trim_ascii(line);
            if trimmed.len() == 0 || first_is(trimmed, '#' as u8) {
                return Ok(None);
            }
            if self.saw_document {
                return Err(RemarkFault::StrayContent);
            }
            return Err(RemarkFault::NoStart);
        }
        match self.push_document_bytes(line) {
            Err(fault) => Err(fault),
            Ok(()) => Ok(None),
        }
    }

    fn push_document_bytes(&mut self, bytes: &[u8]) -> (result: Result<(), RemarkFault>)
        ensures
            final(self).limits() == old(self).limits(),
            agrees(
                result,
                final(self).state(),
                with_bytes(old(self).state(), bytes@, old(self).limits()),
            ),
    {
        let got: usize = self.document.len().saturating_add(bytes.len());
        if got > self.limits.max_document_bytes {
            return Err(
                RemarkFault::DocumentLength { maximum: self.limits.max_document_bytes, got },
            );
        }
        put_bytes(&mut self.document, bytes);
        Ok(())
    }

    fn finish_document(&mut self) -> (result: Result<OptimizationRemark, RemarkFault>)
        ensures
            final(self).limits() == old(self).limits(),
            completes(
                result,
                final(self).state(),
                completed(old(self).state(), old(self).limits()),
            ),
    {
        if self.count >= self.limits.max_records {
            return Err(
                RemarkFault::RecordCount {
                    maximum: self.limits.max_records,
                    got: self.count.saturating_add(1),
                },
            );
        }
        let parsed = parse_yaml(self.document.as_slice());
        self.accept_document(parsed)
    }

    /// Ends the current document with what it parses to.
    pub fn accept_document(&mut self, parsed: Result<Yaml, String>) -> (result: Result<
        OptimizationRemark,
        RemarkFault,
    >)
        ensures
            final(self).limits() == old(self).limits(),
            completes(
                result,
                final(self).state(),
                with_parsed(old(self).state(), parsed, old(self).limits()),
            ),
    {
        match parsed {
            Err(problem) => Err(
                RemarkFault::InvalidYaml { document: self.count.saturating_add(1), problem },
            ),
            Ok(value) => match parse_document(value, self.limits) {
                Err(fault) => Err(fault),
                Ok(remark) => {
                    self.count = self.count.saturating_add(1);
                    self.document.clear();
                    assert(self.document@ =~= Seq::empty());
                    Ok(remark)
                },
            },
        }
    }

    /// Ends the file.
    pub fn finish(&mut self) -> (result: Result<Option<OptimizationRemark>, RemarkFault>)
        ensures
            final(self).limits() == old(self).limits(),
            may_complete(
                result,
                final(self).state(),
                finished(old(self).state(), old(self).limits()),
            ),
    {
        if self.document.len() == 0 {
            return Ok(None);
        }
        match self.finish_document() {
            Err(fault) => Err(fault),
            Ok(remark) => Ok(Some(remark)),
        }
    }
}

/// Reads the remark of a document.
pub fn parse_document(value: Yaml, limits: RemarkParseLimits) -> (result: Result<
    OptimizationRemark,
    RemarkFault,
>)
    ensures
        match (result, remark_of(value, limits)) {
            (Ok(remark), Ok(expected)) => remark@ == expected,
            (Err(fault), Err(expected)) => fault == expected,
            _ => false,
        },
{
    match value {
        Yaml::Tagged(tag, content) => {
            let kind = match RemarkKind::from_tag(tag.as_str(), limits) {
                Err(fault) => {
                    return Err(fault);
                },
                Ok(kind) => kind,
            };
            match *content {
                Yaml::Mapping(entries) => parse_mapping(kind, &entries, limits),
                _ => Err(RemarkFault::NotMapping(Field::DocumentRoot)),
            }
        },
        _ => Err(RemarkFault::NoTag),
    }
}

fn parse_mapping(kind: RemarkKind, entries: &Vec<(Yaml, Yaml)>, limits: RemarkParseLimits) -> (result:
    Result<OptimizationRemark, RemarkFault>)
    ensures
        match (result, remark_in(kind@, entries@, limits)) {
            (Ok(remark), Ok(expected)) => remark@ == expected,
            (Err(fault), Err(expected)) => fault == expected,
            _ => false,
        },
{
    let pass_name = match required_string(entries, Field::Pass, limits) {
        Err(fault) => {
            return Err(fault);
        },
        Ok(text) => text,
    };
    let remark_name = match required_string(entries, Field::Name, limits) {
        Err(fault) => {
            return Err(fault);
        },
        Ok(text) => text,
    };
    let function = match required_string(entries, Field::Function, limits) {
        Err(fault) => {
            return Err(fault);
        },
        Ok(text) => text,
    };
    let source_location = match optional_location(entries, limits) {
        Err(fault) => {
            return Err(fault);
        },
        Ok(location) => location,
    };
    let hotness = match optional_u64(entries) {
        Err(fault) => {
            return Err(fault);
        },
        Ok(hotness) => hotness,
    };
    let arguments = match parse_arguments(entries, limits) {
        Err(fault) => {
            return Err(fault);
        },
        Ok(arguments) => arguments,
    };
    let message = match render_message(&arguments, limits) {
        Err(fault) => {
            return Err(fault);
        },
        Ok(message) => message,
    };
    Ok(
        OptimizationRemark {
            kind,
            pass_name,
            remark_name,
            function,
            source_location,
            hotness,
            arguments,
            message,
        },
    )
}

proof fn marks_skip(text: Seq<char>, count: int)
    requires
        0 <= count <= text.len(),
        forall|i: int| 0 <= i < count ==> text[i] == '!',
        count < text.len() ==> text[count] != '!',
    ensures
        without_marks(text) == text.skip(count),
    decreases text.len(),
{
    if count == 0 {
        assert(text.skip(0) =~= text);
    } else {
        assert(text[0] == '!');
        marks_skip(text.skip(1), count - 1);
        assert(text.skip(1).skip(count - 1) =~= text.skip(count));
    }
}

impl RemarkKind {
    /// Classifies a document tag.
    pub fn from_tag(tag: &str, limits: RemarkParseLimits) -> (result: Result<Self, RemarkFault>)
        ensures
            match (result, kind_from(tag@, limits)) {
                (Ok(kind), Ok(expected)) => kind@ == expected,
                (Err(fault), Err(expected)) => fault == expected,
                _ => false,
            },
    {
        let length: usize = tag.unicode_len();
        let mut start: usize = 0;
        while start < length && tag.get_char(start) == '!'
            invariant
                start <= length,
                length == tag@.len(),
                forall|i: int| 0 <= i < start ==> tag@[i] == '!',
            decreases length - start,
        {
            start += 1;
        }
        proof {
            marks_skip(tag@, start as int);
        }
        let bare = tag.substring_char(start, length);
        assert(bare@ =~= tag@.skip(start as int));
        match ensure_string_limit(Field::RemarkTag, bare, limits) {
            Err(fault) => {
                return Err(fault);
            },
            Ok(()) => {},
        }
        Ok(
            if same_text(bare, "Passed") {
                RemarkKind::Passed
            } else if same_text(bare, "Missed") {
                RemarkKind::Missed
            } else if same_text(bare, "Analysis") {
                RemarkKind::Analysis
            } else if same_text(bare, "AnalysisFPCommute") {
                RemarkKind::AnalysisFpCommute
            } else if same_text(bare, "AnalysisAliasing") {
                RemarkKind::AnalysisAliasing
            } else if same_text(bare, "Failure") {
                RemarkKind::Failure
            } else {
                RemarkKind::Unknown { tag: bare.to_owned() }
            },
        )
    }
}

fn parse_arguments(entries: &Vec<(Yaml, Yaml)>, limits: RemarkParseLimits) -> (result: Result<
    Vec<RemarkArgument>,
    RemarkFault,
>)
    ensures
        match (result, arguments_at(entries@, limits)) {
            (Ok(list), Ok(expected)) => argument_views(list@) == expected,
            (Err(fault), Err(expected)) => fault == expected,
            _ => false,
        },
{
    let mut arguments: Vec<RemarkArgument> = Vec::new();
    assert(argument_views(arguments@) =~= Seq::empty());
    let values = match find(entries, "Args") {
        None => {
            return Ok(arguments);
        },
        Some(Yaml::Sequence(values)) => values,
        Some(_) => {
            return Err(RemarkFault::NotSequence);
        },
    };
    if values.len() > limits.max_arguments {
        return Err(
            RemarkFault::ArgumentCount { maximum: limits.max_arguments, got: values.len() },
        );
    }
    let mut index: usize = 0;
    while index < values.len()
        invariant
            index <= values@.len(),
            arguments_from(values@, index as int, argument_views(arguments@), limits)
                == arguments_at(entries@, limits),
        decreases values.len() - index,
    {
        let ghost before = arguments@;
        match parse_argument(&values[index], index, limits) {
            Err(fault) => {
                return Err(fault);
            },
            Ok(argument) => {
                arguments.push(argument);
                assert(argument_views(arguments@) =~= argument_views(before).push(argument@));
            },
        }
        index += 1;
    }
    Ok(arguments)
}

/// Finds the single entry of an argument besides its source location.
fn single_fragment<'a>(entries: &'a Vec<(Yaml, Yaml)>, number: usize) -> (result: Result<
    &'a (Yaml, Yaml),
    RemarkFault,
>)
    ensures
        match result {
            Ok(entry) => fragments(entries@) == seq![*entry],
            Err(fault) => if fragments(entries@).len() == 0 {
                fault == RemarkFault::NoFragment(number)
            } else {
                fragments(entries@).len() > 1 && fault == RemarkFault::ExtraFragment(number)
            },
        },
{
    let ghost keep = |entry: (Yaml, Yaml)| !is_location(entry.0);
    let mut found: Option<usize> = None;
    let mut position: usize = 0;
    assert(entries@.take(0).filter(keep) =~= Seq::empty()) by {
        reveal(Seq::filter);
    }
    while position < entries.len()
        invariant
            position <= entries@.len(),
            keep == (|entry: (Yaml, Yaml)| !is_location(entry.0)),
            match found {
                None => entries@.take(position as int).filter(keep).len() == 0,
                Some(at) => at < position && entries@.take(position as int).filter(keep)
                    == seq![entries@[at as int]],
            },
        decreases entries.len() - position,
    {
        proof {
            filter_grows(entries@, position as int, keep);
        }
        if !has_untagged_name(&entries[position].0, "DebugLoc") {
            match found {
                None => {
                    found = Some(position);
                    assert(entries@.take(position + 1).filter(keep) =~= seq![
                        entries@[position as int],
                    ]);
                },
                Some(_) => {
                    proof {
                        filter_only_grows(entries@, position + 1, keep);
                    }
                    return Err(RemarkFault::ExtraFragment(number));
                },
            }
        }
        position += 1;
    }
    assert(entries@.take(entries@.len() as int) =~= entries@);
    match found {
        None => Err(RemarkFault::NoFragment(number)),
        Some(at) => Ok(&entries[at]),
    }
}

proof fn filter_grows(entries: Seq<(Yaml, Yaml)>, at: int, keep: spec_fn((Yaml, Yaml)) -> bool)
    requires
        0 <= at < entries.len(),
    ensures
        entries.take(at + 1).filter(keep) == (if keep(entries[at]) {
            entries.take(at).filter(keep).push(entries[at])
        } else {
            entries.take(at).filter(keep)
        }),
{
    reveal(Seq::filter);
    assert(entries.take(at + 1).drop_last() =~= entries.take(at));
    assert(entries.take(at + 1).last() == entries[at]);
}

proof fn filter_only_grows(entries: Seq<(Yaml, Yaml)>, at: int, keep: spec_fn((Yaml, Yaml)) -> bool)
    requires
        0 <= at <= entries.len(),
    ensures
        entries.take(at).filter(keep).len() <= entries.filter(keep).len(),
    decreases entries.len() - at,
{
    if at < entries.len() {
        filter_grows(entries, at, keep);
        filter_only_grows(entries, at + 1, keep);
    } else {
        assert(entries.take(at) =~= entries);
    }
}

fn parse_argument(value: &Yaml, index: usize, limits: RemarkParseLimits) -> (result: Result<
    RemarkArgument,
    RemarkFault,
>)
    requires
        index < usize::MAX,
    ensures
        match (result, argument_of(*value, index as int, limits)) {
            (Ok(argument), Ok(expected)) => argument@ == expected,
            (Err(fault), Err(expected)) => fault == expected,
            _ => false,
        },
{
    let entries = match value {
        Yaml::Mapping(entries) => entries,
        _ => {
            return Err(RemarkFault::ArgumentNotMapping(index + 1));
        },
    };
    let source_location = match optional_location(entries, limits) {
        Err(fault) => {
            return Err(fault);
        },
        Ok(location) => location,
    };
    let entry = match single_fragment(entries, index + 1) {
        Err(fault) => {
            return Err(fault);
        },
        Ok(entry) => entry,
    };
    let key = match expect_string(&entry.0, Field::ArgumentKey, limits) {
        Err(fault) => {
            return Err(fault);
        },
        Ok(key) => key,
    };
    match scalar_text(&entry.1, limits) {
        Err(fault) => Err(fault),
        Ok(value) => Ok(RemarkArgument { key, value, source_location }),
    }
}

fn render_message(arguments: &Vec<RemarkArgument>, limits: RemarkParseLimits) -> (result: Result<
    String,
    RemarkFault,
>)
    ensures
        match (
            result,
            bounded(Field::RenderedMessage, message_of(argument_views(arguments@)), limits),
        ) {
            (Ok(message), Ok(expected)) => message@ == expected,
            (Err(fault), Err(expected)) => fault == expected,
            _ => false,
        },
{
    let ghost views = argument_views(arguments@);
    let mut message = String::new();
    let mut index: usize = 0;
    assert(message@ =~= message_of(views.take(0)));
    while index < arguments.len()
        invariant
            index <= arguments@.len(),
            views == argument_views(arguments@),
            message@ == message_of(views.take(index as int)),
        decreases arguments.len() - index,
    {
        message.append(arguments[index].value.as_str());
        proof {
            assert(views.take(index + 1).drop_last() =~= views.take(index as int));
            assert(views.take(index + 1).last() == arguments@[index as int]@);
        }
        index += 1;
    }
    assert(views.take(views.len() as int) =~= views);
    match ensure_string_limit(Field::RenderedMessage, message.as_str(), limits) {
        Err(fault) => Err(fault),
        Ok(()) => Ok(message),
    }
}

fn required_string(entries: &Vec<(Yaml, Yaml)>, field: Field, limits: RemarkParseLimits) -> (result:
    Result<String, RemarkFault>)
    ensures
        match (result, string_at(entries@, field, limits)) {
            (Ok(text), Ok(expected)) => text@ == expected,
            (Err(fault), Err(expected)) => fault == expected,
            _ => false,
        },
{
    match find(entries, field.as_str()) {
        None => Err(RemarkFault::NoString(field)),
        Some(value) => expect_string(value, field, limits),
    }
}

fn expect_string(value: &Yaml, field: Field, limits: RemarkParseLimits) -> (result: Result<
    String,
    RemarkFault,
>)
    ensures
        match (result, string_of(*value, field, limits)) {
            (Ok(text), Ok(expected)) => text@ == expected,
            (Err(fault), Err(expected)) => fault == expected,
            _ => false,
        },
{
    match value {
        Yaml::Text(text) => match ensure_string_limit(field, text.as_str(), limits) {
            Err(fault) => Err(fault),
            Ok(()) => Ok(text.clone()),
        },
        _ => Err(RemarkFault::NotString(field)),
    }
}

fn scalar_text(value: &Yaml, limits: RemarkParseLimits) -> (result: Result<String, RemarkFault>)
    ensures
        match (result, scalar_of(*value, limits)) {
            (Ok(text), Ok(expected)) => text@ == expected,
            (Err(fault), Err(expected)) => fault == expected,
            _ => false,
        },
{
    let text = match value {
        Yaml::Text(text) => text.clone(),
        Yaml::Number(text, _) => text.clone(),
        Yaml::Bool(flag) => if *flag {
            String::from_str("true")
        } else {
            String::from_str("false")
        },
        Yaml::Null => String::from_str("null"),
        _ => {
            return Err(RemarkFault::NotScalar(Field::ArgumentValue));
        },
    };
    match ensure_string_limit(Field::ArgumentValue, text.as_str(), limits) {
        Err(fault) => Err(fault),
        Ok(()) => Ok(text),
    }
}

fn expect_natural(value: &Yaml, field: Field) -> (result: Result<u64, RemarkFault>)
    ensures
        result == natural_of(*value, field),
{
    match value {
        Yaml::Number(_, Some(number)) => Ok(*number),
        Yaml::Number(_, None) => Err(RemarkFault::NotNatural(field)),
        _ => Err(RemarkFault::NotInteger(field)),
    }
}

fn optional_u64(entries: &Vec<(Yaml, Yaml)>) -> (result: Result<Option<u64>, RemarkFault>)
    ensures
        result == hotness_at(entries@),
{
    match find(entries, Field::Hotness.as_str()) {
        None => Ok(None),
        Some(value) => match expect_natural(value, Field::Hotness) {
            Err(fault) => Err(fault),
            Ok(number) => Ok(Some(number)),
        },
    }
}

fn optional_location(entries: &Vec<(Yaml, Yaml)>, limits: RemarkParseLimits) -> (result: Result<
    Option<RemarkSourceLocation>,
    RemarkFault,
>)
    ensures
        match (result, location_at(entries@, limits)) {
            (Ok(location), Ok(expected)) => location_view(location) == expected,
            (Err(fault), Err(expected)) => fault == expected,
            _ => false,
        },
{
    let location = match find(entries, Field::DebugLoc.as_str()) {
        None => {
            return Ok(None);
        },
        Some(Yaml::Mapping(location)) => location,
        Some(_) => {
            return Err(RemarkFault::NotMapping(Field::DebugLoc));
        },
    };
    let file = match required_string(location, Field::File, limits) {
        Err(fault) => {
            return Err(fault);
        },
        Ok(file) => file,
    };
    let line: u64 = match required_u64(location, Field::Line) {
        Err(fault) => {
            return Err(fault);
        },
        Ok(line) => line,
    };
    match required_u64(location, Field::Column) {
        Err(fault) => Err(fault),
        Ok(column) => Ok(Some(RemarkSourceLocation { file, line, column })),
    }
}

fn required_u64(entries: &Vec<(Yaml, Yaml)>, field: Field) -> (result: Result<u64, RemarkFault>)
    ensures
        result == natural_at(entries@, field),
{
    match find(entries, field.as_str()) {
        None => Err(RemarkFault::NoNumber(field)),
        Some(value) => expect_natural(value, field),
    }
}

fn ensure_string_limit(field: Field, value: &str, limits: RemarkParseLimits) -> (result: Result<
    (),
    RemarkFault,
>)
    ensures
        match (result, bounded(field, value@, limits)) {
            (Ok(()), Ok(_)) => true,
            (Err(fault), Err(expected)) => fault == expected,
            _ => false,
        },
{
    let got: usize = value.as_bytes().len();
    if got > limits.max_string_bytes {
        return Err(
            RemarkFault::StringLength { field, maximum: limits.max_string_bytes, got },
        );
    }
    Ok(())
}

fn starts_document(marker: &[u8]) -> (result: bool)
    ensures
        result == starts(marker@),
{
    let dashes = "---".as_bytes();
    same(marker, dashes) || (has_prefix(marker, dashes) && marker.len() > dashes.len() && is_space(
        marker[dashes.len()],
    ))
}

} // verus!

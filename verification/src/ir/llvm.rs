//! Indexes symbol records in textual LLVM modules with bounded memory.
//!
//! [`ModuleScanner`] gives function definitions, declarations, and aliases without retaining a
//! complete module. Callers can later seek directly to one record, also in multi-gigabyte LTO
//! artifacts.

use super::evidence::{
    AliasTarget, BodyRange, LlvmAlias, LlvmDeclaration, ModuleRecord, RecordData, RecordKind,
};
use crate::bytes;
use crate::bytes::{
    find_byte, find_bytes, first_is, has_prefix, is_digit, is_letter, is_space, part, same, tail,
    trim_ascii,
};
use crate::lines;
use crate::lines::LineReader;
use crate::source::{ByteSource, SourceError};
use crate::text;
use crate::text::{lossy_text, same_text};
use vstd::prelude::*;
use vstd::string::StringExecFns;

verus! {

/// The UTF-8 bytes of a text.
pub open spec fn utf8(text: Seq<char>) -> Seq<u8> {
    vstd::utf8::encode_utf8(text)
}

/// The bytes of a bare name.
pub open spec fn identifier_byte(byte: u8) -> bool {
    bytes::letter(byte) || bytes::digit(byte) || byte == '-' as u8 || byte == '$' as u8 || byte
        == '.' as u8 || byte == '_' as u8
}

/// The index of the quote that ends a quoted name. A backslash hides the byte behind it.
pub open spec fn closing_quote(line: Seq<u8>, at: int) -> Option<int>
    decreases line.len() + 2 - at,
{
    if at >= line.len() {
        None
    } else if line[at] == '"' as u8 {
        Some(at)
    } else if line[at] == '\\' as u8 {
        closing_quote(line, at + 2)
    } else {
        closing_quote(line, at + 1)
    }
}

/// The index behind a bare name.
pub open spec fn identifier_end(line: Seq<u8>, at: int) -> int
    decreases line.len() - at,
{
    if 0 <= at < line.len() && identifier_byte(line[at]) {
        identifier_end(line, at + 1)
    } else {
        at
    }
}

/// Where a global name lies: its first byte, the index behind it, and the index behind its quote.
pub struct NameSpan {
    /// The first byte of the name.
    pub start: int,
    /// The index behind the name.
    pub end: int,
    /// The index behind the encoded name.
    pub after: int,
}

/// The first global name of a line.
pub open spec fn name_span(line: Seq<u8>) -> Option<NameSpan> {
    let start = bytes::index_of(line, '@' as u8) + 1;
    if start > line.len() {
        None
    } else if start < line.len() && line[start] == '"' as u8 {
        match closing_quote(line, start + 1) {
            None => None,
            Some(quote) => Some(NameSpan { start: start + 1, end: quote, after: quote + 1 }),
        }
    } else {
        let end = identifier_end(line, start);
        Some(NameSpan { start, end, after: end })
    }
}

/// The text of the first global name of a line.
pub open spec fn global_text(line: Seq<u8>) -> Option<Seq<char>> {
    match name_span(line) {
        None => None,
        Some(span) => Some(text::lossy(line.subrange(span.start, span.end))),
    }
}

/// The texts of the global names of a value, up to the first unterminated one.
pub open spec fn global_texts(value: Seq<u8>) -> Seq<Seq<char>>
    decreases value.len(),
{
    let start = bytes::index_of(value, '@' as u8);
    if 0 <= start < value.len() {
        let named = value.skip(start);
        match name_span(named) {
            None => Seq::empty(),
            Some(span) => if 0 < span.after <= named.len() {
                seq![text::lossy(named.subrange(span.start, span.end))] + global_texts(
                    named.skip(span.after),
                )
            } else {
                Seq::empty()
            },
        }
    } else {
        Seq::empty()
    }
}

/// What follows the first comma outside all brackets.
pub open spec fn top_level_value(value: Seq<u8>, depth: nat) -> Option<Seq<u8>>
    decreases value.len(),
{
    if value.len() == 0 {
        None
    } else {
        let byte = value[0];
        if byte == '(' as u8 || byte == '[' as u8 || byte == '{' as u8 || byte == '<' as u8 {
            top_level_value(value.skip(1), depth + 1)
        } else if byte == ')' as u8 || byte == ']' as u8 || byte == '}' as u8 || byte
            == '>' as u8 {
            top_level_value(value.skip(1), if depth == 0 { 0 } else { (depth - 1) as nat })
        } else if byte == ',' as u8 && depth == 0 {
            Some(value.skip(1))
        } else {
            top_level_value(value.skip(1), depth)
        }
    }
}

/// A value without the whitespace around it.
pub open spec fn trimmed(value: Seq<u8>) -> Seq<u8> {
    bytes::trimmed_end(bytes::trimmed_start(value))
}

/// The operand of an alias line behind its pointer type.
pub open spec fn alias_operand(line: Seq<u8>) -> Option<Seq<u8>> {
    match bytes::occurrence(line, utf8(" = alias "@)) {
        None => None,
        Some(at) => match top_level_value(line.skip(at + utf8(" = alias "@).len()), 0) {
            None => None,
            Some(aliasee) => if utf8("ptr "@).is_prefix_of(trimmed(aliasee)) {
                Some(trimmed(trimmed(aliasee).skip(utf8("ptr "@).len() as int)))
            } else {
                None
            },
        },
    }
}

/// The direct target of an alias line: an operand that is one other global name and nothing else.
pub open spec fn alias_symbol(line: Seq<u8>, alias: Seq<char>) -> Option<Seq<char>> {
    match alias_operand(line) {
        None => None,
        Some(operand) => {
            let names = global_texts(operand);
            if names.len() == 1 && names[0] != alias && bytes::opens_with(operand, '@' as u8) && (
            name_span(operand) matches Some(span) && span.after == operand.len()) {
                Some(names[0])
            } else {
                None
            }
        },
    }
}

/// The display name of a symbol that `rustc_demangle` demangles, or `None` for another symbol.
pub uninterp spec fn demangled_name(symbol: Seq<char>) -> Option<Seq<char>>;

/// Demangles a symbol with `rustc_demangle::try_demangle` and prints it in the alternate form, which
/// leaves out the trailing hash. The result depends on the symbol alone.
#[verifier::external_body]
fn try_demangled(symbol: &str) -> (result: Option<String>)
    ensures
        match result {
            Some(name) => demangled_name(symbol@) == Some(name@),
            None => demangled_name(symbol@) is None,
        },
{
    rustc_demangle::try_demangle(symbol).ok().map(|name| format!("{name:#}"))
}

/// The best available display name of a symbol.
pub open spec fn display_name(symbol: Seq<char>, demangled: Option<Seq<char>>) -> Seq<char> {
    match demangled {
        Some(name) => name,
        None => symbol,
    }
}

/// Picks the display name of a symbol: the demangled one, else the symbol itself.
pub fn display_of(symbol: &str, demangled: Option<String>) -> (result: String)
    ensures
        result@ == display_name(
            symbol@,
            match demangled {
                Some(name) => Some(name@),
                None => None,
            },
        ),
{
    match demangled {
        Some(name) => name,
        None => symbol.to_owned(),
    }
}

/// Gives a symbol its best available display name.
pub fn demangle(symbol: &str) -> (result: String)
    ensures
        result@ == display_name(symbol@, demangled_name(symbol@)),
{
    display_of(symbol, try_demangled(symbol))
}

/// How far an alias prefix has been read.
#[derive(Clone, Copy, Debug, PartialEq, Eq, Structural)]
pub enum AliasPhase {
    /// Just behind the sigil.
    NameStart,
    /// In a bare name.
    UnquotedName,
    /// In a quoted name.
    QuotedName,
    /// Behind a backslash.
    QuotedEscape,
    /// Behind some bytes of the alias keyword and what surrounds it.
    Pattern(usize),
}

/// How far a module line has been classified.
#[derive(Clone, Copy, Debug, PartialEq, Eq, Structural)]
pub enum Phase {
    /// At the start.
    Start,
    /// Behind whitespace.
    LeadingWhitespace,
    /// In a keyword.
    Keyword,
    /// In an alias prefix.
    Alias(AliasPhase),
    /// The line is a record.
    Record,
    /// The line is no record.
    Ignore,
}

/// The phase of a line and the bytes retained from it.
pub struct LineState {
    /// The phase.
    pub phase: Phase,
    /// The retained bytes.
    pub bytes: Seq<u8>,
}

/// The state before a line.
pub open spec fn fresh() -> LineState {
    LineState { phase: Phase::Start, bytes: Seq::empty() }
}

/// A line that is no record retains nothing.
pub open spec fn ignored() -> LineState {
    LineState { phase: Phase::Ignore, bytes: Seq::empty() }
}

/// The phase behind a byte of the alias pattern, or `None` if the byte breaks it.
pub open spec fn pattern_step(byte: u8, matched: int) -> Option<Phase> {
    let pattern = utf8(" = alias "@);
    if 0 <= matched < pattern.len() && pattern[matched] == byte {
        if matched + 1 == pattern.len() {
            Some(Phase::Record)
        } else {
            Some(Phase::Alias(AliasPhase::Pattern((matched + 1) as usize)))
        }
    } else {
        None
    }
}

/// The phase behind a byte of an alias prefix, or `None` if the byte breaks it.
pub open spec fn alias_step(phase: AliasPhase, byte: u8) -> Option<Phase> {
    match phase {
        AliasPhase::NameStart => if byte == '"' as u8 {
            Some(Phase::Alias(AliasPhase::QuotedName))
        } else if identifier_byte(byte) {
            Some(Phase::Alias(AliasPhase::UnquotedName))
        } else {
            pattern_step(byte, 0)
        },
        AliasPhase::UnquotedName => if identifier_byte(byte) {
            Some(Phase::Alias(AliasPhase::UnquotedName))
        } else {
            pattern_step(byte, 0)
        },
        AliasPhase::QuotedName => if byte == '\\' as u8 {
            Some(Phase::Alias(AliasPhase::QuotedEscape))
        } else if byte == '"' as u8 {
            Some(Phase::Alias(AliasPhase::Pattern(0)))
        } else {
            Some(Phase::Alias(AliasPhase::QuotedName))
        },
        AliasPhase::QuotedEscape => Some(Phase::Alias(AliasPhase::QuotedName)),
        AliasPhase::Pattern(matched) => pattern_step(byte, matched as int),
    }
}

/// The state behind a byte of a line.
pub open spec fn line_step(state: LineState, byte: u8) -> LineState {
    match state.phase {
        Phase::Start => if bytes::space(byte) {
            LineState { phase: Phase::LeadingWhitespace, ..state }
        } else if byte == 'd' as u8 {
            LineState { phase: Phase::Keyword, bytes: state.bytes.push(byte) }
        } else if byte == '@' as u8 {
            LineState {
                phase: Phase::Alias(AliasPhase::NameStart),
                bytes: state.bytes.push(byte),
            }
        } else {
            LineState { phase: Phase::Ignore, ..state }
        },
        Phase::LeadingWhitespace => if byte == '@' as u8 {
            LineState {
                phase: Phase::Alias(AliasPhase::NameStart),
                bytes: state.bytes.push(byte),
            }
        } else if bytes::space(byte) {
            state
        } else {
            LineState { phase: Phase::Ignore, ..state }
        },
        Phase::Keyword => {
            let read = state.bytes.push(byte);
            if read == utf8("declare "@) || read == utf8("define "@) {
                LineState { phase: Phase::Record, bytes: read }
            } else if read.is_prefix_of(utf8("declare "@)) || read.is_prefix_of(utf8("define "@)) {
                LineState { phase: Phase::Keyword, bytes: read }
            } else {
                ignored()
            }
        },
        Phase::Alias(phase) => match alias_step(phase, byte) {
            Some(phase) => LineState { phase, bytes: state.bytes.push(byte) },
            None => ignored(),
        },
        Phase::Record => LineState { bytes: state.bytes.push(byte), ..state },
        Phase::Ignore => state,
    }
}

/// The state behind some bytes of a line.
pub open spec fn line_run(state: LineState, bytes: Seq<u8>) -> LineState
    decreases bytes.len(),
{
    if bytes.len() == 0 {
        state
    } else {
        line_run(line_step(state, bytes[0]), bytes.skip(1))
    }
}

/// The record that a line retains.
pub open spec fn retained(line: Seq<u8>) -> Option<Seq<u8>> {
    let state = line_run(fresh(), line);
    if state.phase == Phase::Record {
        Some(state.bytes)
    } else {
        None
    }
}

/// How far a body line has been classified.
#[derive(Clone, Copy, Debug, PartialEq, Eq, Structural)]
pub enum EndPhase {
    /// Only whitespace so far.
    LeadingWhitespace,
    /// Behind the brace and whitespace.
    AfterBrace,
    /// In a comment behind the brace.
    Comment,
    /// The line does not end the body.
    NotEnd,
}

/// The phase behind a byte of a body line.
pub open spec fn end_step(phase: EndPhase, byte: u8) -> EndPhase {
    match phase {
        EndPhase::LeadingWhitespace => if bytes::space(byte) {
            EndPhase::LeadingWhitespace
        } else if byte == '}' as u8 {
            EndPhase::AfterBrace
        } else {
            EndPhase::NotEnd
        },
        EndPhase::AfterBrace => if bytes::space(byte) {
            EndPhase::AfterBrace
        } else if byte == ';' as u8 {
            EndPhase::Comment
        } else {
            EndPhase::NotEnd
        },
        EndPhase::Comment => EndPhase::Comment,
        EndPhase::NotEnd => EndPhase::NotEnd,
    }
}

/// The phase behind some bytes of a body line.
pub open spec fn end_run(phase: EndPhase, bytes: Seq<u8>) -> EndPhase
    decreases bytes.len(),
{
    if bytes.len() == 0 {
        phase
    } else {
        end_run(end_step(phase, bytes[0]), bytes.skip(1))
    }
}

/// A phase in which the line ends the body.
pub open spec fn ends_body(phase: EndPhase) -> bool {
    phase == EndPhase::AfterBrace || phase == EndPhase::Comment
}

/// A line that ends a function body: a brace with whitespace around it, and perhaps a comment.
pub open spec fn closes(line: Seq<u8>) -> bool {
    let start = bytes::trimmed_start(line);
    start.len() > 0 && start[0] == '}' as u8 && ({
        let after = bytes::trimmed_start(start.skip(1));
        after.len() == 0 || after[0] == ';' as u8
    })
}

/// A position in a module.
pub struct Cursor {
    /// The bytes that follow.
    pub rest: Seq<u8>,
    /// The failure after the last byte, or `None` for an ordinary end.
    pub ending: Option<SourceError>,
    /// The number of bytes before the position.
    pub offset: int,
}

impl Cursor {
    /// The cursor some bytes later.
    pub open spec fn skip(self, count: int) -> Cursor {
        Cursor { rest: self.rest.skip(count), offset: self.offset + count, ..self }
    }
}

/// Why a scan stopped.
#[derive(Debug)]
pub enum ScanError {
    /// The source failed.
    Read(SourceError),
    /// A declaration has no symbol.
    NamelessDeclaration,
    /// An alias has no symbol.
    NamelessAlias,
    /// A definition has no symbol.
    NamelessDefinition,
    /// A function body has no closing brace.
    UnclosedFunction,
}

impl ScanError {
    /// The sentence that describes the error.
    pub open spec fn sentence(self) -> Seq<char> {
        match self {
            ScanError::Read(error) => error.message@,
            ScanError::NamelessDeclaration =>
                "function declaration does not contain a global symbol"@,
            ScanError::NamelessAlias => "alias does not contain a global symbol"@,
            ScanError::NamelessDefinition => "function definition does not contain a global symbol"@,
            ScanError::UnclosedFunction =>
                "function reached the end of the file without a closing brace"@,
        }
    }

    /// Describes the error.
    pub fn message(&self) -> (result: String)
        ensures
            result@ == self.sentence(),
    {
        match self {
            ScanError::Read(error) => error.message.clone(),
            ScanError::NamelessDeclaration => String::from_str(
                "function declaration does not contain a global symbol",
            ),
            ScanError::NamelessAlias => String::from_str("alias does not contain a global symbol"),
            ScanError::NamelessDefinition => String::from_str(
                "function definition does not contain a global symbol",
            ),
            ScanError::UnclosedFunction => String::from_str(
                "function reached the end of the file without a closing brace",
            ),
        }
    }
}

/// The length of the next line with its line feed.
pub open spec fn line_length(c: Cursor) -> Result<int, SourceError> {
    crate::lines::line_length(crate::wire::Input { rest: c.rest, ending: c.ending, interruptions: Seq::empty() })
}

/// The cursor behind the line that closes a function body.
pub open spec fn body_end(c: Cursor) -> Result<Cursor, ScanError>
    decreases c.rest.len(),
{
    match line_length(c) {
        Err(error) => Err(ScanError::Read(error)),
        Ok(length) => if length == 0 {
            Err(ScanError::UnclosedFunction)
        } else if ends_body(end_run(EndPhase::LeadingWhitespace, c.rest.take(length))) {
            Ok(c.skip(length))
        } else {
            proof {
                line_length_bounds(c);
            }
            body_end(c.skip(length))
        },
    }
}

/// The record that a retained line starts, and the cursor behind it.
pub open spec fn record_at(start: int, retained: Seq<u8>, after: Cursor) -> Result<
    (RecordData, Cursor),
    ScanError,
> {
    let name = global_text(retained);
    if utf8("declare "@).is_prefix_of(retained) {
        match name {
            None => Err(ScanError::NamelessDeclaration),
            Some(symbol) => Ok(
                (
                    RecordData {
                        kind: RecordKind::Declaration,
                        raw_symbol: symbol,
                        demangled: display_name(symbol, demangled_name(symbol)),
                        start,
                        end: after.offset,
                    },
                    after,
                ),
            ),
        }
    } else if bytes::opens_with(retained, '@' as u8) {
        match name {
            None => Err(ScanError::NamelessAlias),
            Some(symbol) => Ok(
                (
                    RecordData {
                        kind: RecordKind::Alias(alias_symbol(retained, symbol)),
                        raw_symbol: symbol,
                        demangled: display_name(symbol, demangled_name(symbol)),
                        start,
                        end: after.offset,
                    },
                    after,
                ),
            ),
        }
    } else {
        match name {
            None => Err(ScanError::NamelessDefinition),
            Some(symbol) => match body_end(after) {
                Err(error) => Err(error),
                Ok(end) => Ok(
                    (
                        RecordData {
                            kind: RecordKind::Body,
                            raw_symbol: symbol,
                            demangled: display_name(symbol, demangled_name(symbol)),
                            start,
                            end: end.offset,
                        },
                        end,
                    ),
                ),
            },
        }
    }
}

/// The next record of a module and the cursor behind it.
pub open spec fn next_record(c: Cursor) -> Result<(Option<RecordData>, Cursor), ScanError>
    decreases c.rest.len(),
{
    match line_length(c) {
        Err(error) => Err(ScanError::Read(error)),
        Ok(length) => if length == 0 {
            Ok((None, c))
        } else {
            match retained(c.rest.take(length)) {
                None => {
                    proof {
                        line_length_bounds(c);
                    }
                    next_record(c.skip(length))
                },
                Some(line) => match record_at(c.offset, line, c.skip(length)) {
                    Err(error) => Err(error),
                    Ok((record, after)) => Ok((Some(record), after)),
                },
            }
        },
    }
}

/// The records found so far and those of the rest of a module.
pub open spec fn records(c: Cursor, found: Seq<RecordData>) -> Result<Seq<RecordData>, ScanError>
    decreases c.rest.len(),
{
    match next_record(c) {
        Err(error) => Err(error),
        Ok((None, _)) => Ok(found),
        Ok((Some(record), after)) => {
            proof {
                next_record_advances(c);
            }
            records(after, found.push(record))
        },
    }
}

/// A line has at least one byte, unless the input is at its end.
pub proof fn line_length_bounds(c: Cursor)
    ensures
        line_length(c) matches Ok(length) ==> 0 <= length <= c.rest.len() && (c.rest.len() > 0
            ==> length > 0),
{
    bytes::index_of_bounds(c.rest, 0x0a);
}

proof fn body_end_advances(c: Cursor)
    ensures
        body_end(c) matches Ok(end) ==> {
            &&& end.rest.len() < c.rest.len()
            &&& end == c.skip(c.rest.len() - end.rest.len())
        },
    decreases c.rest.len(),
{
    line_length_bounds(c);
    if let Ok(length) = line_length(c) {
        if length > 0 && !ends_body(end_run(EndPhase::LeadingWhitespace, c.rest.take(length))) {
            body_end_advances(c.skip(length));
            if let Ok(end) = body_end(c.skip(length)) {
                assert(c.skip(length).rest.skip(c.skip(length).rest.len() - end.rest.len())
                    =~= c.rest.skip(c.rest.len() - end.rest.len()));
            }
        }
    }
}

proof fn skips_join(c: Cursor, first: int, second: int)
    requires
        0 <= first,
        0 <= second,
        first + second <= c.rest.len(),
    ensures
        c.skip(first).skip(second) == c.skip(first + second),
{
    assert(c.rest.skip(first).skip(second) =~= c.rest.skip(first + second));
}

proof fn record_at_advances(start: int, line: Seq<u8>, after: Cursor)
    requires
        start < after.offset,
    ensures
        record_at(start, line, after) matches Ok((record, end)) ==> {
            &&& end.rest.len() <= after.rest.len()
            &&& end == after.skip(after.rest.len() - end.rest.len())
            &&& record.start == start
            &&& start < record.end == end.offset
        },
{
    body_end_advances(after);
    assert(after.rest.skip(0) =~= after.rest);
}

/// A record moves the cursor, and its range lies between the two positions.
pub proof fn next_record_advances(c: Cursor)
    ensures
        next_record(c) matches Ok((Some(record), after)) ==> {
            &&& after.rest.len() < c.rest.len()
            &&& after == c.skip(c.rest.len() - after.rest.len())
            &&& c.offset <= record.start < record.end == after.offset
        },
    decreases c.rest.len(),
{
    line_length_bounds(c);
    if let Ok(length) = line_length(c) {
        if length > 0 {
            let behind = c.skip(length);
            match retained(c.rest.take(length)) {
                None => {
                    next_record_advances(behind);
                    if let Ok((Some(record), after)) = next_record(behind) {
                        skips_join(c, length, behind.rest.len() - after.rest.len());
                    }
                },
                Some(line) => {
                    record_at_advances(c.offset, line, behind);
                    if let Ok((record, after)) = record_at(c.offset, line, behind) {
                        skips_join(c, length, behind.rest.len() - after.rest.len());
                    }
                },
            }
        }
    }
}

/// Reading a line in two pieces gives the state of reading it at once.
pub proof fn line_run_joins(state: LineState, left: Seq<u8>, right: Seq<u8>)
    ensures
        line_run(state, left + right) == line_run(line_run(state, left), right),
    decreases left.len(),
{
    if left.len() == 0 {
        assert(left + right =~= right);
    } else {
        assert((left + right).skip(1) =~= left.skip(1) + right);
        line_run_joins(line_step(state, left[0]), left.skip(1), right);
    }
}

/// Reading a body line in two pieces gives the phase of reading it at once.
pub proof fn end_run_joins(phase: EndPhase, left: Seq<u8>, right: Seq<u8>)
    ensures
        end_run(phase, left + right) == end_run(end_run(phase, left), right),
    decreases left.len(),
{
    if left.len() == 0 {
        assert(left + right =~= right);
    } else {
        assert((left + right).skip(1) =~= left.skip(1) + right);
        end_run_joins(end_step(phase, left[0]), left.skip(1), right);
    }
}

/// Buffers a line only after its prefix identifies an indexed LLVM record.
///
/// Large globals, metadata, and function-body lines are ignored and all their further pieces are
/// discarded.
pub struct ModuleLine {
    phase: Phase,
    bytes: Vec<u8>,
}

impl ModuleLine {
    /// The mathematical state.
    pub closed spec fn state(&self) -> LineState {
        LineState { phase: self.phase, bytes: self.bytes@ }
    }

    /// The phases keep within the alias pattern, and an ignored line retains nothing.
    pub closed spec fn well_formed(&self) -> bool {
        self.phase == Phase::Ignore || self.phase == Phase::Start || self.phase
            == Phase::LeadingWhitespace ==> self.bytes@.len() == 0
    }

    /// Starts a line.
    pub fn new() -> (result: Self)
        ensures
            result.state() == fresh(),
            result.well_formed(),
    {
        let result = ModuleLine { phase: Phase::Start, bytes: Vec::new() };
        assert(result.bytes@ =~= Seq::empty());
        result
    }

    /// Starts the next line.
    pub fn clear(&mut self)
        ensures
            final(self).state() == fresh(),
            final(self).well_formed(),
    {
        self.phase = Phase::Start;
        self.bytes.clear();
        assert(self.bytes@ =~= Seq::empty());
    }

    /// Classifies a further piece of the line.
    pub fn push(&mut self, piece: &[u8])
        requires
            old(self).well_formed(),
        ensures
            final(self).well_formed(),
            final(self).state() == line_run(old(self).state(), piece@),
    {
        let mut index: usize = 0;
        assert(piece@.skip(0) =~= piece@);
        while index < piece.len()
            invariant
                index <= piece@.len(),
                self.well_formed(),
                line_run(self.state(), piece@.skip(index as int)) == line_run(
                    old(self).state(),
                    piece@,
                ),
            decreases piece.len() - index,
        {
            let ghost before = self.state();
            assert(piece@.skip(index as int)[0] == piece@[index as int]);
            assert(piece@.skip(index as int).skip(1) =~= piece@.skip(index + 1));
            self.push_byte(piece[index]);
            index += 1;
        }
    }

    fn push_byte(&mut self, byte: u8)
        requires
            old(self).well_formed(),
        ensures
            final(self).well_formed(),
            final(self).state() == line_step(old(self).state(), byte),
    {
        match self.phase {
            Phase::Start => {
                if is_space(byte) {
                    self.phase = Phase::LeadingWhitespace;
                } else if byte == 'd' as u8 {
                    self.bytes.push(byte);
                    self.phase = Phase::Keyword;
                } else if byte == '@' as u8 {
                    self.bytes.push(byte);
                    self.phase = Phase::Alias(AliasPhase::NameStart);
                } else {
                    self.phase = Phase::Ignore;
                }
            },
            Phase::LeadingWhitespace => {
                if byte == '@' as u8 {
                    self.bytes.push(byte);
                    self.phase = Phase::Alias(AliasPhase::NameStart);
                } else if !is_space(byte) {
                    self.phase = Phase::Ignore;
                }
            },
            Phase::Keyword => {
                self.bytes.push(byte);
                if same(&self.bytes, "declare ".as_bytes()) || same(
                    &self.bytes,
                    "define ".as_bytes(),
                ) {
                    self.phase = Phase::Record;
                } else if !has_prefix("declare ".as_bytes(), &self.bytes) && !has_prefix(
                    "define ".as_bytes(),
                    &self.bytes,
                ) {
                    self.ignore();
                }
            },
            Phase::Alias(phase) => {
                self.bytes.push(byte);
                match push_alias(phase, byte) {
                    Some(phase) => {
                        self.phase = phase;
                    },
                    None => {
                        self.ignore();
                    },
                }
            },
            Phase::Record => {
                self.bytes.push(byte);
            },
            Phase::Ignore => {},
        }
    }

    fn ignore(&mut self)
        ensures
            final(self).state() == ignored(),
            final(self).well_formed(),
    {
        self.bytes.clear();
        self.phase = Phase::Ignore;
        assert(self.bytes@ =~= Seq::empty());
    }

    /// Returns the line if it is a record.
    pub fn record(&self) -> (result: Option<&[u8]>)
        ensures
            match result {
                Some(line) => self.state().phase == Phase::Record && line@ == self.state().bytes,
                None => self.state().phase != Phase::Record,
            },
    {
        match self.phase {
            Phase::Record => Some(self.bytes.as_slice()),
            _ => None,
        }
    }

    /// Returns the number of retained bytes, which is zero for an ignored line.
    pub fn retained_length(&self) -> (result: usize)
        requires
            self.well_formed(),
        ensures
            result == self.state().bytes.len(),
            self.state().phase == Phase::Ignore ==> result == 0,
    {
        self.bytes.len()
    }
}

fn push_alias(phase: AliasPhase, byte: u8) -> (result: Option<Phase>)
    ensures
        result == alias_step(phase, byte),
{
    match phase {
        AliasPhase::NameStart => if byte == '"' as u8 {
            Some(Phase::Alias(AliasPhase::QuotedName))
        } else if is_identifier_byte(byte) {
            Some(Phase::Alias(AliasPhase::UnquotedName))
        } else {
            push_pattern(byte, 0)
        },
        AliasPhase::UnquotedName => if is_identifier_byte(byte) {
            Some(Phase::Alias(AliasPhase::UnquotedName))
        } else {
            push_pattern(byte, 0)
        },
        AliasPhase::QuotedName => if byte == '\\' as u8 {
            Some(Phase::Alias(AliasPhase::QuotedEscape))
        } else if byte == '"' as u8 {
            Some(Phase::Alias(AliasPhase::Pattern(0)))
        } else {
            Some(Phase::Alias(AliasPhase::QuotedName))
        },
        AliasPhase::QuotedEscape => Some(Phase::Alias(AliasPhase::QuotedName)),
        AliasPhase::Pattern(matched) => push_pattern(byte, matched),
    }
}

fn push_pattern(byte: u8, matched: usize) -> (result: Option<Phase>)
    ensures
        result == pattern_step(byte, matched as int),
{
    let pattern = " = alias ".as_bytes();
    if matched >= pattern.len() || pattern[matched] != byte {
        return None;
    }
    if matched + 1 == pattern.len() {
        Some(Phase::Record)
    } else {
        Some(Phase::Alias(AliasPhase::Pattern(matched + 1)))
    }
}

/// Recognizes a closing-brace line without retaining function-body bytes.
pub struct FunctionEnd {
    phase: EndPhase,
}

impl FunctionEnd {
    /// How far the line has been classified.
    pub closed spec fn phase(&self) -> EndPhase {
        self.phase
    }

    /// Starts a line.
    pub fn new() -> (result: Self)
        ensures
            result.phase() == EndPhase::LeadingWhitespace,
    {
        FunctionEnd { phase: EndPhase::LeadingWhitespace }
    }

    /// Starts the next line.
    pub fn clear(&mut self)
        ensures
            final(self).phase() == EndPhase::LeadingWhitespace,
    {
        self.phase = EndPhase::LeadingWhitespace;
    }

    /// Classifies a further piece of the line.
    pub fn push(&mut self, piece: &[u8])
        ensures
            final(self).phase() == end_run(old(self).phase(), piece@),
    {
        let mut index: usize = 0;
        assert(piece@.skip(0) =~= piece@);
        while index < piece.len()
            invariant
                index <= piece@.len(),
                end_run(self.phase, piece@.skip(index as int)) == end_run(
                    old(self).phase,
                    piece@,
                ),
            decreases piece.len() - index,
        {
            let byte: u8 = piece[index];
            assert(piece@.skip(index as int)[0] == piece@[index as int]);
            assert(piece@.skip(index as int).skip(1) =~= piece@.skip(index + 1));
            match self.phase {
                EndPhase::LeadingWhitespace => {
                    if byte == '}' as u8 {
                        self.phase = EndPhase::AfterBrace;
                    } else if !is_space(byte) {
                        self.phase = EndPhase::NotEnd;
                    }
                },
                EndPhase::AfterBrace => {
                    if byte == ';' as u8 {
                        self.phase = EndPhase::Comment;
                    } else if !is_space(byte) {
                        self.phase = EndPhase::NotEnd;
                    }
                },
                EndPhase::Comment => {},
                EndPhase::NotEnd => {},
            }
            index += 1;
        }
    }

    /// Tells whether the line ends the body.
    pub fn is_end(&self) -> (result: bool)
        ensures
            result == ends_body(self.phase()),
    {
        match self.phase {
            EndPhase::AfterBrace => true,
            EndPhase::Comment => true,
            _ => false,
        }
    }
}

/// Tells whether a byte continues a bare name.
pub fn is_identifier_byte(byte: u8) -> (result: bool)
    ensures
        result == identifier_byte(byte),
{
    is_letter(byte) || is_digit(byte) || byte == '-' as u8 || byte == '$' as u8 || byte == '.' as u8
        || byte == '_' as u8
}

/// The bounds of a found name.
fn find_name(line: &[u8]) -> (result: Option<(usize, usize, usize)>)
    ensures
        match (result, name_span(line@)) {
            (Some((start, end, after)), Some(span)) => {
                &&& span == (NameSpan { start: start as int, end: end as int, after: after as int })
                &&& start <= end <= after <= line@.len()
                &&& 0 < after
                &&& bytes::index_of(line@, '@' as u8) < start
            },
            (None, None) => true,
            _ => false,
        },
{
    let sigil: usize = find_byte(line, '@' as u8);
    if sigil == line.len() {
        return None;
    }
    let start: usize = sigil + 1;
    if start < line.len() && line[start] == '"' as u8 {
        let mut cursor: usize = start + 1;
        while cursor < line.len()
            invariant
                start == bytes::index_of(line@, '@' as u8) + 1,
                start < line.len(),
                line@[start as int] == '"' as u8,
                start < cursor <= line.len() + 1,
                closing_quote(line@, cursor as int) == closing_quote(line@, start + 1),
            decreases line.len() + 1 - cursor,
        {
            let byte: u8 = line[cursor];
            if byte == '"' as u8 {
                return Some((start + 1, cursor, cursor + 1));
            }
            if byte == '\\' as u8 {
                if cursor + 1 >= line.len() {
                    assert(closing_quote(line@, cursor + 2) is None);
                    return None;
                }
                cursor += 2;
            } else {
                cursor += 1;
            }
        }
        return None;
    }
    let mut end: usize = start;
    while end < line.len() && is_identifier_byte(line[end])
        invariant
            start <= end <= line@.len(),
            identifier_end(line@, end as int) == identifier_end(line@, start as int),
        decreases line.len() - end,
    {
        end += 1;
    }
    Some((start, end, end))
}

/// Extracts the first global name of a line without its sigil and quotes.
pub fn global_name(line: &[u8]) -> (result: Option<String>)
    ensures
        match (result, global_text(line@)) {
            (Some(name), Some(text)) => name@ == text,
            (None, None) => true,
            _ => false,
        },
{
    match find_name(line) {
        None => None,
        Some((start, end, _)) => Some(lossy_text(part(line, start, end))),
    }
}

/// Returns the length of a value through its first global name.
pub fn encoded_global_name_length(value: &[u8]) -> (result: Option<usize>)
    ensures
        match (result, name_span(value@)) {
            (Some(length), Some(span)) => length == span.after,
            (None, None) => true,
            _ => false,
        },
{
    match find_name(value) {
        None => None,
        Some((_, _, after)) => Some(after),
    }
}

/// The texts of a list.
pub open spec fn texts(list: Seq<String>) -> Seq<Seq<char>> {
    list.map_values(|text: String| text@)
}

/// Extracts the global names of a value, up to the first unterminated one.
pub fn global_names(value: &[u8]) -> (result: Vec<String>)
    ensures
        texts(result@) == global_texts(value@),
{
    let mut names: Vec<String> = Vec::new();
    let mut position: usize = 0;
    assert(value@.skip(0) =~= value@);
    assert(texts(names@) + global_texts(value@) =~= global_texts(value@));
    loop
        invariant
            position <= value@.len(),
            texts(names@) + global_texts(value@.skip(position as int)) == global_texts(value@),
        decreases value.len() - position,
    {
        let rest = tail(value, position);
        let start: usize = find_byte(rest, '@' as u8);
        if start == rest.len() {
            assert(texts(names@) + Seq::<Seq<char>>::empty() =~= texts(names@));
            return names;
        }
        let named = tail(rest, start);
        match find_name(named) {
            None => {
                assert(texts(names@) + Seq::<Seq<char>>::empty() =~= texts(names@));
                return names;
            },
            Some((first, end, after)) => {
                let name = lossy_text(part(named, first, end));
                let ghost before = names@;
                names.push(name);
                position = position + start + after;
                proof {
                    assert(named@.skip(after as int) =~= value@.skip(position as int));
                    assert(texts(names@) + global_texts(value@.skip(position as int)) =~= texts(
                        before,
                    ) + (seq![name@] + global_texts(value@.skip(position as int))));
                }
            },
        }
    }
}

fn find_top_level_value(value: &[u8]) -> (result: Option<&[u8]>)
    ensures
        match (result, top_level_value(value@, 0)) {
            (Some(found), Some(expected)) => found@ == expected,
            (None, None) => true,
            _ => false,
        },
{
    let mut depth: usize = 0;
    let mut index: usize = 0;
    assert(value@.skip(0) =~= value@);
    while index < value.len()
        invariant
            depth <= index <= value@.len(),
            top_level_value(value@.skip(index as int), depth as nat) == top_level_value(value@, 0),
        decreases value.len() - index,
    {
        let byte: u8 = value[index];
        assert(value@.skip(index as int)[0] == byte);
        assert(value@.skip(index as int).skip(1) =~= value@.skip(index + 1));
        if byte == '(' as u8 || byte == '[' as u8 || byte == '{' as u8 || byte == '<' as u8 {
            depth += 1;
        } else if byte == ')' as u8 || byte == ']' as u8 || byte == '}' as u8 || byte
            == '>' as u8 {
            if depth > 0 {
                depth -= 1;
            }
        } else if byte == ',' as u8 && depth == 0 {
            return Some(tail(value, index + 1));
        }
        index += 1;
    }
    None
}

fn find_alias_operand(line: &[u8]) -> (result: Option<&[u8]>)
    ensures
        match (result, alias_operand(line@)) {
            (Some(found), Some(expected)) => found@ == expected,
            (None, None) => true,
            _ => false,
        },
{
    let pattern = " = alias ".as_bytes();
    let start: usize = match find_bytes(line, pattern) {
        None => {
            return None;
        },
        Some(start) => start,
    };
    let value = tail(line, start + pattern.len());
    let aliasee = match find_top_level_value(value) {
        None => {
            return None;
        },
        Some(aliasee) => trim_ascii(aliasee),
    };
    let pointer = "ptr ".as_bytes();
    if !has_prefix(aliasee, pointer) {
        return None;
    }
    Some(trim_ascii(tail(aliasee, pointer.len())))
}

/// Tells a direct alias of one symbol from an alias of an expression.
pub fn alias_target(line: &[u8], alias: &str) -> (result: AliasTarget)
    ensures
        result@ == alias_symbol(line@, alias@),
{
    let operand = match find_alias_operand(line) {
        None => {
            return AliasTarget::Expression;
        },
        Some(operand) => operand,
    };
    let names = global_names(operand);
    if names.len() != 1 || !first_is(operand, '@' as u8) {
        return AliasTarget::Expression;
    }
    assert(texts(names@)[0] == names@[0]@);
    if same_text(names[0].as_str(), alias) {
        return AliasTarget::Expression;
    }
    match encoded_global_name_length(operand) {
        Some(length) => {
            if length == operand.len() {
                AliasTarget::Symbol { raw_symbol: names[0].clone() }
            } else {
                AliasTarget::Expression
            }
        },
        None => AliasTarget::Expression,
    }
}

/// The start of a module. An interruption ends it with that error.
pub open spec fn start_of<R: ByteSource>(source: R) -> Cursor {
    Cursor { rest: lines::prompt(source).rest, ending: lines::prompt(source).ending, offset: 0 }
}

/// Reads a module record by record.
pub struct ModuleScanner<R: ByteSource> {
    lines: LineReader<R>,
    offset: u64,
}

impl<R: ByteSource> ModuleScanner<R> {
    /// The position in the module.
    pub closed spec fn cursor(&self) -> Cursor {
        Cursor {
            rest: self.lines.input().rest,
            ending: self.lines.input().ending,
            offset: self.offset as int,
        }
    }

    /// The reader is valid and every offset of the module fits its type.
    pub closed spec fn well_formed(&self) -> bool {
        &&& self.lines.well_formed()
        &&& self.cursor().rest.len() <= self.lines.left()
        &&& self.offset + self.lines.left() <= u64::MAX
    }

    /// Starts a module.
    pub fn new(source: R) -> (result: Self)
        requires
            source.pending().len() <= u64::MAX,
        ensures
            result.well_formed(),
            result.cursor() == start_of(source),
    {
        ModuleScanner { lines: LineReader::new(source), offset: 0 }
    }

    /// Reads the next piece of the current line and tells whether it ends the line.
    fn read_piece(&mut self) -> (result: Result<Option<(Vec<u8>, bool)>, SourceError>)
        requires
            old(self).well_formed(),
        ensures
            final(self).well_formed(),
            match result {
                Err(error) => old(self).cursor().rest.len() == 0 && old(self).cursor().ending
                    == Some(error),
                Ok(None) => {
                    &&& old(self).cursor().rest.len() == 0
                    &&& old(self).cursor().ending is None
                    &&& final(self).cursor() == old(self).cursor()
                },
                Ok(Some((piece, ended))) => {
                    &&& 0 < piece@.len() <= old(self).cursor().rest.len()
                    &&& piece@ == old(self).cursor().rest.take(piece@.len() as int)
                    &&& final(self).cursor() == old(self).cursor().skip(piece@.len() as int)
                    &&& ended == (piece@.last() == 0x0a)
                    &&& forall|i: int| 0 <= i < piece@.len() - 1 ==> piece@[i] != 0x0a
                },
            },
    {
        match self.lines.read_piece() {
            Err(error) => Err(error),
            Ok(None) => Ok(None),
            Ok(Some((piece, ended))) => {
                self.offset = self.offset + piece.len() as u64;
                Ok(Some((piece, ended)))
            },
        }
    }

    /// Classifies the next line and returns its length.
    fn read_module_line(&mut self, line: &mut ModuleLine) -> (result: Result<u64, SourceError>)
        requires
            old(self).well_formed(),
        ensures
            final(self).well_formed(),
            match (result, line_length(old(self).cursor())) {
                (Ok(length), Ok(expected)) => {
                    &&& length == expected
                    &&& final(self).cursor() == old(self).cursor().skip(expected)
                    &&& final(line).state() == line_run(
                        fresh(),
                        old(self).cursor().rest.take(expected),
                    )
                },
                (Err(error), Err(expected)) => error == expected,
                _ => false,
            },
    {
        line.clear();
        let mut total: u64 = 0;
        let ghost start = self.cursor();
        assert(start.rest.skip(0) =~= start.rest);
        assert(start.rest.take(0) =~= Seq::empty());
        loop
            invariant
                self.well_formed(),
                line.well_formed(),
                start == old(self).cursor(),
                start.offset + start.rest.len() <= u64::MAX,
                0 <= total <= start.rest.len(),
                self.cursor() == start.skip(total as int),
                forall|i: int| 0 <= i < total ==> start.rest[i] != 0x0a,
                line.state() == line_run(fresh(), start.rest.take(total as int)),
            decreases self.cursor().rest.len(),
        {
            match self.read_piece() {
                Err(error) => {
                    proof {
                        bytes::index_of_is(start.rest, 0x0a, total as int);
                    }
                    return Err(error);
                },
                Ok(None) => {
                    proof {
                        bytes::index_of_is(start.rest, 0x0a, total as int);
                    }
                    return Ok(total);
                },
                Ok(Some((piece, ended))) => {
                    let ghost before = total as int;
                    line.push(piece.as_slice());
                    total = total + piece.len() as u64;
                    proof {
                        let count = piece@.len() as int;
                        assert(start.rest.take(total as int) =~= start.rest.take(before) + piece@);
                        line_run_joins(fresh(), start.rest.take(before), piece@);
                        assert(start.rest.skip(before).skip(count) =~= start.rest.skip(
                            total as int,
                        ));
                        assert forall|i: int| 0 <= i < total - 1 implies start.rest[i] != 0x0a by {
                            if i >= before {
                                assert(piece@[i - before] == start.rest[i]);
                            }
                        }
                        assert(start.rest[total - 1] == piece@.last());
                        if ended {
                            bytes::index_of_is(start.rest, 0x0a, total - 1);
                        }
                    }
                    if ended {
                        return Ok(total);
                    }
                },
            }
        }
    }

    /// Classifies the next body line and returns its length.
    fn read_body_line(&mut self, end: &mut FunctionEnd) -> (result: Result<u64, SourceError>)
        requires
            old(self).well_formed(),
        ensures
            final(self).well_formed(),
            match (result, line_length(old(self).cursor())) {
                (Ok(length), Ok(expected)) => {
                    &&& length == expected
                    &&& final(self).cursor() == old(self).cursor().skip(expected)
                    &&& final(end).phase() == end_run(
                        EndPhase::LeadingWhitespace,
                        old(self).cursor().rest.take(expected),
                    )
                },
                (Err(error), Err(expected)) => error == expected,
                _ => false,
            },
    {
        end.clear();
        let mut total: u64 = 0;
        let ghost start = self.cursor();
        assert(start.rest.skip(0) =~= start.rest);
        assert(start.rest.take(0) =~= Seq::empty());
        loop
            invariant
                self.well_formed(),
                start == old(self).cursor(),
                start.offset + start.rest.len() <= u64::MAX,
                0 <= total <= start.rest.len(),
                self.cursor() == start.skip(total as int),
                forall|i: int| 0 <= i < total ==> start.rest[i] != 0x0a,
                end.phase() == end_run(
                    EndPhase::LeadingWhitespace,
                    start.rest.take(total as int),
                ),
            decreases self.cursor().rest.len(),
        {
            match self.read_piece() {
                Err(error) => {
                    proof {
                        bytes::index_of_is(start.rest, 0x0a, total as int);
                    }
                    return Err(error);
                },
                Ok(None) => {
                    proof {
                        bytes::index_of_is(start.rest, 0x0a, total as int);
                    }
                    return Ok(total);
                },
                Ok(Some((piece, ended))) => {
                    let ghost before = total as int;
                    end.push(piece.as_slice());
                    total = total + piece.len() as u64;
                    proof {
                        let count = piece@.len() as int;
                        assert(start.rest.take(total as int) =~= start.rest.take(before) + piece@);
                        end_run_joins(
                            EndPhase::LeadingWhitespace,
                            start.rest.take(before),
                            piece@,
                        );
                        assert(start.rest.skip(before).skip(count) =~= start.rest.skip(
                            total as int,
                        ));
                        assert forall|i: int| 0 <= i < total - 1 implies start.rest[i] != 0x0a by {
                            if i >= before {
                                assert(piece@[i - before] == start.rest[i]);
                            }
                        }
                        assert(start.rest[total - 1] == piece@.last());
                        if ended {
                            bytes::index_of_is(start.rest, 0x0a, total - 1);
                        }
                    }
                    if ended {
                        return Ok(total);
                    }
                },
            }
        }
    }

    /// Skips a function body through its closing line.
    fn skip_body(&mut self) -> (result: Result<(), ScanError>)
        requires
            old(self).well_formed(),
        ensures
            final(self).well_formed(),
            match (result, body_end(old(self).cursor())) {
                (Ok(()), Ok(end)) => final(self).cursor() == end,
                (Err(error), Err(expected)) => error == expected,
                _ => false,
            },
    {
        let mut end = FunctionEnd::new();
        loop
            invariant
                self.well_formed(),
                body_end(self.cursor()) == body_end(old(self).cursor()),
            decreases self.cursor().rest.len(),
        {
            proof {
                line_length_bounds(self.cursor());
            }
            match self.read_body_line(&mut end) {
                Err(error) => {
                    return Err(ScanError::Read(error));
                },
                Ok(length) => {
                    if length == 0 {
                        return Err(ScanError::UnclosedFunction);
                    }
                },
            }
            if end.is_end() {
                return Ok(());
            }
        }
    }

    /// Reads the next record, or `None` at the end of the module.
    pub fn next_record(&mut self) -> (result: Result<Option<ModuleRecord>, ScanError>)
        requires
            old(self).well_formed(),
        ensures
            final(self).well_formed(),
            match (result, next_record(old(self).cursor())) {
                (Ok(Some(record)), Ok((Some(expected), after))) => record@ == expected
                    && final(self).cursor() == after,
                (Ok(None), Ok((None, _))) => true,
                (Err(error), Err(expected)) => error == expected,
                _ => false,
            },
    {
        let mut line = ModuleLine::new();
        loop
            invariant
                self.well_formed(),
                next_record(self.cursor()) == next_record(old(self).cursor()),
            decreases self.cursor().rest.len(),
        {
            let start: u64 = self.offset;
            proof {
                line_length_bounds(self.cursor());
            }
            match self.read_module_line(&mut line) {
                Err(error) => {
                    return Err(ScanError::Read(error));
                },
                Ok(length) => {
                    if length == 0 {
                        return Ok(None);
                    }
                },
            }
            if let Some(retained) = line.record() {
                return self.finish_record(start, retained);
            }
        }
    }

    fn finish_record(&mut self, start: u64, retained: &[u8]) -> (result: Result<
        Option<ModuleRecord>,
        ScanError,
    >)
        requires
            old(self).well_formed(),
        ensures
            final(self).well_formed(),
            match (result, record_at(start as int, retained@, old(self).cursor())) {
                (Ok(Some(record)), Ok((expected, after))) => record@ == expected
                    && final(self).cursor() == after,
                (Err(error), Err(expected)) => error == expected,
                _ => false,
            },
    {
        let name = global_name(retained);
        if has_prefix(retained, "declare ".as_bytes()) {
            return match name {
                None => Err(ScanError::NamelessDeclaration),
                Some(raw_symbol) => Ok(
                    Some(
                        ModuleRecord::Declaration(
                            LlvmDeclaration {
                                demangled: demangle(raw_symbol.as_str()),
                                raw_symbol,
                                start,
                                end: self.offset,
                            },
                        ),
                    ),
                ),
            };
        }
        if first_is(retained, '@' as u8) {
            return match name {
                None => Err(ScanError::NamelessAlias),
                Some(raw_symbol) => Ok(
                    Some(
                        ModuleRecord::Alias(
                            LlvmAlias {
                                demangled: demangle(raw_symbol.as_str()),
                                target: alias_target(retained, raw_symbol.as_str()),
                                raw_symbol,
                                start,
                                end: self.offset,
                            },
                        ),
                    ),
                ),
            };
        }
        let raw_symbol = match name {
            None => {
                return Err(ScanError::NamelessDefinition);
            },
            Some(raw_symbol) => raw_symbol,
        };
        match self.skip_body() {
            Err(error) => Err(error),
            Ok(()) => Ok(
                Some(
                    ModuleRecord::Body(
                        BodyRange {
                            demangled: demangle(raw_symbol.as_str()),
                            raw_symbol,
                            start,
                            end: self.offset,
                        },
                    ),
                ),
            ),
        }
    }
}

/// The mathematical records of a list.
pub open spec fn record_views(list: Seq<ModuleRecord>) -> Seq<RecordData> {
    list.map_values(|record: ModuleRecord| record@)
}

/// Indexes a whole module in input order.
pub fn scan<R: ByteSource>(source: R) -> (result: Result<Vec<ModuleRecord>, ScanError>)
    requires
        source.pending().len() <= u64::MAX,
    ensures
        match (
            result,
            records(
                start_of(source),
                Seq::empty(),
            ),
        ) {
            (Ok(list), Ok(expected)) => record_views(list@) == expected,
            (Err(error), Err(expected)) => error == expected,
            _ => false,
        },
{
    let mut scanner = ModuleScanner::new(source);
    let ghost start = scanner.cursor();
    let mut list: Vec<ModuleRecord> = Vec::new();
    assert(record_views(list@) =~= Seq::empty());
    loop
        invariant
            scanner.well_formed(),
            start == start_of(source),
            records(scanner.cursor(), record_views(list@)) == records(start, Seq::empty()),
        decreases scanner.cursor().rest.len(),
    {
        proof {
            next_record_advances(scanner.cursor());
        }
        match scanner.next_record() {
            Err(error) => {
                return Err(error);
            },
            Ok(None) => {
                return Ok(list);
            },
            Ok(Some(record)) => {
                let ghost before = list@;
                list.push(record);
                assert(record_views(list@) =~= record_views(before).push(record@));
            },
        }
    }
}

} // verus!

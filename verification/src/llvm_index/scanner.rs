//! Selects top-level definitions and constructs validated records in input order.
//!
//! The disassembler emits unrelated constructs on separate lines. Only function and global prefixes
//! enter the header tokenizer, so unrelated initializers and metadata need no token storage.

use super::error::{Fault, IndexError};
use super::header;
use super::header::{read_alias_target, read_function};
use super::model;
use super::model::{Cursor, Step};
use crate::source::ByteSource;
use super::stream;
use super::stream::Stream;
use super::symbol;
use crate::bytes;
use crate::records;
use crate::records::{
    ByteRange, Definition, DefinitionKind, InvalidRecord, LlvmDefinitionKind, LlvmDefinitionRecord,
};
use vstd::prelude::*;

verus! {

/// The modifiers that precede the kind of a global.
pub open spec fn global_modifier(token: Seq<u8>) -> bool {
    bytes::reads(token, "private"@) || bytes::reads(token, "internal"@) || bytes::reads(
        token,
        "available_externally"@,
    ) || bytes::reads(token, "linkonce"@) || bytes::reads(token, "weak"@) || bytes::reads(
        token,
        "common"@,
    ) || bytes::reads(token, "appending"@) || bytes::reads(token, "extern_weak"@) || bytes::reads(
        token,
        "linkonce_odr"@,
    ) || bytes::reads(token, "weak_odr"@) || bytes::reads(token, "external"@) || bytes::reads(
        token,
        "dso_local"@,
    ) || bytes::reads(token, "dso_preemptable"@) || bytes::reads(token, "default"@)
        || bytes::reads(token, "hidden"@) || bytes::reads(token, "protected"@) || bytes::reads(
        token,
        "dllimport"@,
    ) || bytes::reads(token, "dllexport"@) || bytes::reads(token, "unnamed_addr"@)
        || bytes::reads(token, "local_unnamed_addr"@) || bytes::reads(
        token,
        "externally_initialized"@,
    ) || bytes::reads(token, "thread_local"@)
}

/// A global behind its equals sign. A variable gives no kind and ends with its line.
pub open spec fn global(c: Cursor) -> Step<Option<DefinitionKind>>
    decreases c.rest.len(),
{
    match model::required(c) {
        Err(error) => Err(error),
        Ok((word, after)) => if bytes::reads(word.bytes, "global"@) || bytes::reads(
            word.bytes,
            "constant"@,
        ) {
            match model::line(after.with_header(None)) {
                Err(error) => Err(error),
                Ok((_, behind)) => Ok((None, behind)),
            }
        } else if bytes::reads(word.bytes, "alias"@) {
            match header::alias_target(after) {
                Err(error) => Err(error),
                Ok((Some(target), behind)) => Ok(
                    (Some(DefinitionKind::DirectAlias(target)), behind.with_header(None)),
                ),
                Ok((None, behind)) => Ok(
                    (Some(DefinitionKind::ExpressionAlias), behind.with_header(None)),
                ),
            }
        } else if bytes::reads(word.bytes, "ifunc"@) {
            match header::alias_target(after) {
                Err(error) => Err(error),
                Ok((_, behind)) => Ok((Some(DefinitionKind::Ifunc), behind.with_header(None))),
            }
        } else {
            let modifier = if global_modifier(word.bytes) {
                Ok(((), after))
            } else if bytes::reads(word.bytes, "addrspace"@) {
                header::parenthesised(after)
            } else if word.bytes == seq!['(' as u8] {
                model::group(after, seq![')' as u8])
            } else {
                model::malformed(word.offset, Fault::UnknownGlobal)
            };
            match modifier {
                Err(error) => Err(error),
                Ok((_, behind)) => {
                    proof {
                        modifier_advances(c);
                    }
                    global(behind)
                },
            }
        },
    }
}

/// Every modifier of a global moves the cursor.
pub proof fn modifier_advances(c: Cursor)
    ensures
        model::required(c) matches Ok((word, after)) ==> {
            &&& c.leads_to(after)
            &&& after.rest.len() < c.rest.len()
            &&& header::parenthesised(after) matches Ok((_, behind)) ==> c.leads_to(behind)
                && behind.rest.len() < c.rest.len()
            &&& model::group(after, seq![')' as u8]) matches Ok((_, behind)) ==> c.leads_to(behind)
                && behind.rest.len() < c.rest.len()
        },
{
    model::required_advances(c);
    if let Ok((_, after)) = model::required(c) {
        header::parenthesised_advances(after);
        if let Ok((_, behind)) = header::parenthesised(after) {
            model::leads_to_transitive(c, after, behind);
        }
        model::group_advances(after, seq![')' as u8]);
        if let Ok((_, behind)) = model::group(after, seq![')' as u8]) {
            model::leads_to_transitive(c, after, behind);
        }
    }
}

/// The fault that a refused record stands for.
pub open spec fn record_fault(error: InvalidRecord) -> Fault {
    match error {
        InvalidRecord::RangeOverflow => Fault::OffsetOverflow,
        InvalidRecord::EmptySymbol => Fault::EmptySymbol,
        InvalidRecord::EmptyTarget => Fault::EmptyTarget,
    }
}

/// A definition from the start of one cursor to another, unless a record refuses it.
pub open spec fn definition(
    start: Cursor,
    end: Cursor,
    name: Seq<char>,
    kind: DefinitionKind,
) -> Step<Option<Definition>> {
    match records::definition_fault(name, kind) {
        Some(error) => model::malformed(start.offset, record_fault(error)),
        None => Ok(
            (Some(Definition { symbol: name, start: start.offset, end: end.offset, kind }), end),
        ),
    }
}

/// A line that starts with a global name.
pub open spec fn global_item(c: Cursor) -> Step<Option<Definition>> {
    match model::required(c.with_header(Some(c.offset))) {
        Err(error) => Err(error),
        Ok((word, named)) => match model::expected(named, '=' as u8, Fault::NotEquals) {
            Err(error) => Err(error),
            Ok((_, assigned)) => match global(assigned) {
                Err(error) => Err(error),
                Ok((None, behind)) => Ok((None, behind)),
                Ok((Some(kind), behind)) => match symbol::symbol(word) {
                    Err(error) => Err(error),
                    Ok(name) => definition(c, behind, name, kind),
                },
            },
        },
    }
}

/// The bytes at the start of a line, up to the length of the function keyword or a line feed.
pub open spec fn probe(c: Cursor, read: Seq<u8>) -> Step<Seq<u8>>
    decreases c.rest.len(),
{
    if read.len() >= 6 {
        Ok((read, c))
    } else {
        match model::take(c) {
            Err(error) => Err(error),
            Ok((None, after)) => Ok((read, after)),
            Ok((Some(byte), after)) => if byte == 0x0a {
                Ok((read.push(byte), after))
            } else {
                probe(after, read.push(byte))
            },
        }
    }
}

/// A line that starts with the first letter of the function keyword.
pub open spec fn keyword_item(c: Cursor) -> Step<Option<Definition>> {
    match probe(c, Seq::empty()) {
        Err(error) => Err(error),
        Ok((prefix, probed)) => {
            let next = if bytes::reads(prefix, "define"@) {
                model::peek(probed)
            } else {
                Ok(Some(0u8))
            };
            match next {
                Err(error) => Err(error),
                Ok(next) => if bytes::reads(prefix, "define"@) && (next is None || bytes::space(
                    next->0,
                )) {
                    function_item(c, probed)
                } else if prefix.contains(0x0a) {
                    Ok((None, probed))
                } else {
                    match model::line(probed) {
                        Err(error) => Err(error),
                        Ok((_, after)) => Ok((None, after)),
                    }
                },
            }
        },
    }
}

/// A function whose keyword lies between two cursors.
pub open spec fn function_item(c: Cursor, probed: Cursor) -> Step<Option<Definition>> {
    match header::function(probed.with_header(Some(c.offset))) {
        Err(error) => Err(error),
        Ok((name, opened)) => match model::body(opened.with_header(None), model::fresh_body()) {
            Err(error) => Err(error),
            Ok((_, after)) => definition(c, after, name, DefinitionKind::Function),
        },
    }
}

/// The next item of the text, and the definition that it makes.
pub open spec fn item(c: Cursor) -> Step<Option<Definition>> {
    let byte = c.rest[0];
    if bytes::space(byte) {
        match model::take(c) {
            Err(error) => Err(error),
            Ok((_, after)) => Ok((None, after)),
        }
    } else if byte == '@' as u8 {
        global_item(c)
    } else if byte == 'd' as u8 {
        keyword_item(c)
    } else {
        match model::line(c) {
            Err(error) => Err(error),
            Ok((_, after)) => Ok((None, after)),
        }
    }
}

/// The definitions found so far and those of the rest of the text, in input order.
pub open spec fn definitions(c: Cursor, found: Seq<Definition>) -> Result<
    Seq<Definition>,
    IndexError,
>
    decreases c.rest.len(),
{
    match model::peek(c) {
        Err(error) => Err(error),
        Ok(None) => Ok(found),
        Ok(Some(_)) => match item(c) {
            Err(error) => Err(error),
            Ok((made, after)) => {
                proof {
                    item_advances(c);
                }
                match made {
                    None => definitions(after, found),
                    Some(made) => definitions(after, found.push(made)),
                }
            },
        },
    }
}

/// A cursor leads to another one apart from the header around it.
pub open spec fn reaches(c: Cursor, after: Cursor) -> bool {
    c.with_header(None).leads_to(after.with_header(None))
}

proof fn reaches_transitive(first: Cursor, second: Cursor, third: Cursor)
    requires
        reaches(first, second),
        reaches(second, third),
    ensures
        reaches(first, third),
{
    model::leads_to_transitive(
        first.with_header(None),
        second.with_header(None),
        third.with_header(None),
    );
}

proof fn global_advances(c: Cursor)
    ensures
        global(c) matches Ok((_, after)) ==> reaches(c, after) && after.header is None
            && after.rest.len() < c.rest.len(),
    decreases c.rest.len(),
{
    modifier_advances(c);
    if let Ok((word, after)) = model::required(c) {
        model::line_advances(after.with_header(None));
        if let Ok((_, behind)) = model::line(after.with_header(None)) {
            reaches_transitive(c, after, behind);
        }
        header::alias_target_advances(after);
        if let Ok((_, behind)) = header::alias_target(after) {
            reaches_transitive(c, after, behind);
        }
        if global_modifier(word.bytes) {
            global_advances(after);
            if let Ok((_, end)) = global(after) {
                reaches_transitive(c, after, end);
            }
        }
        if let Ok((_, behind)) = header::parenthesised(after) {
            global_advances(behind);
            if let Ok((_, end)) = global(behind) {
                reaches_transitive(c, behind, end);
            }
        }
        if let Ok((_, behind)) = model::group(after, seq![')' as u8]) {
            global_advances(behind);
            if let Ok((_, end)) = global(behind) {
                reaches_transitive(c, behind, end);
            }
        }
    }
}

/// A line with a global name moves the cursor.
pub proof fn global_item_advances(c: Cursor)
    requires
        c.header is None,
    ensures
        global_item(c) matches Ok((_, after)) ==> c.leads_to(after) && after.rest.len()
            < c.rest.len(),
{
    let start = c.with_header(Some(c.offset));
    model::required_advances(start);
    if let Ok((word, named)) = model::required(start) {
        model::required_advances(named);
        if let Ok((_, assigned)) = model::expected(named, '=' as u8, Fault::NotEquals) {
            model::leads_to_transitive(start, named, assigned);
            global_advances(assigned);
            if let Ok((_, behind)) = global(assigned) {
                reaches_transitive(start, assigned, behind);
            }
        }
    }
}

/// The probed prefix is what the cursor passes.
pub proof fn probe_advances(c: Cursor, read: Seq<u8>)
    ensures
        probe(c, read) matches Ok((prefix, after)) ==> {
            &&& c.leads_to(after)
            &&& c.rest.len() > 0 && read.len() < 6 ==> after.rest.len() < c.rest.len()
            &&& prefix.len() <= 6 || prefix.len() == read.len()
            &&& prefix.len() - read.len() == c.rest.len() - after.rest.len()
        },
    decreases c.rest.len(),
{
    model::leads_to_itself(c);
    model::take_advances(c);
    if read.len() < 6 {
        if let Ok((Some(byte), after)) = model::take(c) {
            if byte != 0x0a {
                probe_advances(after, read.push(byte));
                if let Ok((_, end)) = probe(after, read.push(byte)) {
                    model::leads_to_transitive(c, after, end);
                }
            }
        }
    }
}

/// A function moves the cursor.
pub proof fn function_item_advances(c: Cursor, probed: Cursor)
    requires
        c.header is None,
        c.leads_to(probed),
        probed.rest.len() < c.rest.len(),
    ensures
        function_item(c, probed) matches Ok((_, after)) ==> c.leads_to(after) && after.rest.len()
            < c.rest.len(),
{
    let start = probed.with_header(Some(c.offset));
    header::function_advances(start);
    if let Ok((_, opened)) = header::function(start) {
        reaches_transitive(c, probed, opened);
        model::body_advances(opened.with_header(None), model::fresh_body());
        if let Ok((_, after)) = model::body(opened.with_header(None), model::fresh_body()) {
            reaches_transitive(c, opened, after);
        }
    }
}

/// An item moves the cursor by at least one byte.
pub proof fn item_advances(c: Cursor)
    requires
        c.rest.len() > 0,
    ensures
        item(c) matches Ok((_, after)) ==> after.rest.len() < c.rest.len(),
        c.header is None ==> (item(c) matches Ok((_, after)) ==> c.leads_to(after)),
{
    model::take_advances(c);
    model::line_advances(c);
    let bare = c.with_header(None);
    global_item_advances(bare);
    assert(global_item(bare) == global_item(c)) by {
        assert(bare.with_header(Some(c.offset)) == c.with_header(Some(c.offset)));
        assert(bare.offset == c.offset);
    }
    probe_advances(c, Seq::empty());
    if let Ok((prefix, probed)) = probe(c, Seq::empty()) {
        model::line_advances(probed);
        if let Ok((_, after)) = model::line(probed) {
            model::leads_to_transitive(c, probed, after);
        }
        function_item_advances(bare, probed.with_header(None));
        assert(function_item(bare, probed.with_header(None)) == function_item(c, probed)) by {
            assert(probed.with_header(None).with_header(Some(c.offset)) == probed.with_header(
                Some(c.offset),
            ));
        }
    }
}

/// Indexes exact decoded symbols and unchanged byte ranges from LLVM disassembler output.
///
/// Function ranges start at `define` and end after the closing body brace. Alias and ifunc ranges
/// start at `@` and extend through the terminating newline, when present. Empty input produces no
/// records. Headers have a 1 MiB input budget. Body content and unrelated lines use a fixed 8 KiB
/// buffer.
///
/// Malformed boundaries, unsupported header syntax, non-UTF-8 symbols and headers over budget give
/// their byte offset. Failures of the source come back unchanged.
pub fn index<R: ByteSource>(reader: R) -> (result: Result<Vec<LlvmDefinitionRecord>, IndexError>)
    ensures
        same_definitions(
            result,
            definitions(
                Cursor {
                    rest: reader.pending(),
                    ending: reader.failure(),
                    offset: 0,
                    header: None,
                },
                Seq::empty(),
            ),
        ),
{
    let mut stream = Stream::new(reader);
    scan(&mut stream)
}

/// The records of a list and the definitions that they hold.
pub open spec fn same_definitions(
    result: Result<Vec<LlvmDefinitionRecord>, IndexError>,
    meant: Result<Seq<Definition>, IndexError>,
) -> bool {
    match (result, meant) {
        (Ok(records), Ok(list)) => records@.map_values(|record: LlvmDefinitionRecord| record@)
            == list,
        (Err(error), Err(expected)) => error == expected,
        _ => false,
    }
}

/// Indexes the rest of a stream.
pub fn scan<R: ByteSource>(reader: &mut Stream<R>) -> (result: Result<
    Vec<LlvmDefinitionRecord>,
    IndexError,
>)
    requires
        old(reader).well_formed(),
        old(reader).cursor().header is None,
    ensures
        header::moved(*old(reader), *final(reader)),
        same_definitions(result, definitions(old(reader).cursor(), Seq::empty())),
{
    let mut found: Vec<LlvmDefinitionRecord> = Vec::new();
    let ghost view = |record: LlvmDefinitionRecord| record@;
    assert(found@.map_values(view) =~= Seq::empty());
    loop
        invariant
            header::moved(*old(reader), *reader),
            reader.cursor().header is None,
            view == (|record: LlvmDefinitionRecord| record@),
            definitions(reader.cursor(), found@.map_values(view)) == definitions(
                old(reader).cursor(),
                Seq::empty(),
            ),
        decreases reader.cursor().rest.len(),
    {
        let byte: u8 = match reader.peek() {
            Err(error) => {
                return Err(error);
            },
            Ok(None) => {
                return Ok(found);
            },
            Ok(Some(byte)) => byte,
        };
        proof {
            item_advances(reader.cursor());
        }
        let ghost before = found@;
        let made = if bytes::is_space(byte) {
            match reader.take() {
                Err(error) => Err(error),
                Ok(_) => Ok(None),
            }
        } else if byte == '@' as u8 {
            scan_global(reader)
        } else if byte == 'd' as u8 {
            scan_keyword(reader)
        } else {
            match reader.skip_line() {
                Err(error) => Err(error),
                Ok(()) => Ok(None),
            }
        };
        match made {
            Err(error) => {
                return Err(error);
            },
            Ok(None) => {},
            Ok(Some(record)) => {
                found.push(record);
                assert(found@.map_values(view) =~= before.map_values(view).push(record@));
            },
        }
    }
}

/// An optional record and the optional definition that it holds.
pub open spec fn same_definition(
    value: Option<LlvmDefinitionRecord>,
    meant: Option<Definition>,
) -> bool {
    match (value, meant) {
        (Some(record), Some(definition)) => record@ == definition,
        (None, None) => true,
        _ => false,
    }
}

fn scan_global<R: ByteSource>(reader: &mut Stream<R>) -> (result: Result<
    Option<LlvmDefinitionRecord>,
    IndexError,
>)
    requires
        old(reader).well_formed(),
        old(reader).cursor().header is None,
    ensures
        header::moved(*old(reader), *final(reader)),
        stream::agrees(
            result,
            final(reader).cursor(),
            global_item(old(reader).cursor()),
            |value: Option<LlvmDefinitionRecord>, meant: Option<Definition>|
                same_definition(value, meant),
        ),
{
    let start: u64 = reader.offset();
    reader.begin_header(start);
    proof {
        model::required_advances(reader.cursor());
    }
    let symbol = match reader.read_required_token() {
        Err(error) => {
            return Err(error);
        },
        Ok(token) => token,
    };
    proof {
        model::required_advances(reader.cursor());
    }
    match reader.expect_equals() {
        Err(error) => {
            return Err(error);
        },
        Ok(()) => {},
    }
    proof {
        global_advances(reader.cursor());
    }
    let kind = match read_global(reader) {
        Err(error) => {
            return Err(error);
        },
        Ok(None) => {
            return Ok(None);
        },
        Ok(Some(kind)) => kind,
    };
    let symbol = match symbol.decode_symbol() {
        Err(error) => {
            return Err(error);
        },
        Ok(symbol) => symbol,
    };
    match record(start, reader.offset(), symbol, kind) {
        Err(error) => Err(error),
        Ok(record) => Ok(Some(record)),
    }
}

fn record(start: u64, end: u64, symbol: String, kind: LlvmDefinitionKind) -> (result: Result<
    LlvmDefinitionRecord,
    IndexError,
>)
    requires
        start <= end,
    ensures
        match (result, records::definition_fault(symbol@, kind@)) {
            (Ok(record), None) => record@ == (Definition {
                symbol: symbol@,
                start,
                end,
                kind: kind@,
            }),
            (Err(error), Some(fault)) => error == (IndexError::Malformed {
                offset: start,
                fault: record_fault(fault),
            }),
            _ => false,
        },
{
    let range = match ByteRange::new(start, end - start) {
        Ok(range) => range,
        Err(_) => {
            return Err(IndexError::Malformed { offset: start, fault: Fault::OffsetOverflow });
        },
    };
    match LlvmDefinitionRecord::new(symbol, range, kind) {
        Ok(record) => Ok(record),
        Err(InvalidRecord::RangeOverflow) => Err(
            IndexError::Malformed { offset: start, fault: Fault::OffsetOverflow },
        ),
        Err(InvalidRecord::EmptySymbol) => Err(
            IndexError::Malformed { offset: start, fault: Fault::EmptySymbol },
        ),
        Err(InvalidRecord::EmptyTarget) => Err(
            IndexError::Malformed { offset: start, fault: Fault::EmptyTarget },
        ),
    }
}

/// Reads the bytes at the start of a line that tell whether it defines a function.
fn read_prefix<R: ByteSource>(reader: &mut Stream<R>) -> (result: Result<Vec<u8>, IndexError>)
    requires
        old(reader).well_formed(),
        old(reader).cursor().header is None,
    ensures
        final(reader).well_formed(),
        final(reader).peaks() == old(reader).peaks(),
        stream::agrees(
            result,
            final(reader).cursor(),
            probe(old(reader).cursor(), Seq::empty()),
            |value: Vec<u8>, meant: Seq<u8>| value@ == meant,
        ),
{
    let mut prefix: Vec<u8> = Vec::new();
    assert(prefix@ =~= Seq::empty());
    while prefix.len() < 6
        invariant
            reader.well_formed(),
            reader.peaks() == old(reader).peaks(),
            probe(reader.cursor(), prefix@) == probe(old(reader).cursor(), Seq::empty()),
        decreases 6 - prefix@.len(),
    {
        match reader.take() {
            Err(error) => {
                return Err(error);
            },
            Ok(None) => {
                return Ok(prefix);
            },
            Ok(Some(byte)) => {
                prefix.push(byte);
                if byte == 0x0a {
                    return Ok(prefix);
                }
            },
        }
    }
    Ok(prefix)
}

fn scan_keyword<R: ByteSource>(reader: &mut Stream<R>) -> (result: Result<
    Option<LlvmDefinitionRecord>,
    IndexError,
>)
    requires
        old(reader).well_formed(),
        old(reader).cursor().header is None,
        old(reader).cursor().rest.len() > 0,
    ensures
        header::moved(*old(reader), *final(reader)),
        stream::agrees(
            result,
            final(reader).cursor(),
            keyword_item(old(reader).cursor()),
            |value: Option<LlvmDefinitionRecord>, meant: Option<Definition>|
                same_definition(value, meant),
        ),
{
    let start: u64 = reader.offset();
    proof {
        probe_advances(reader.cursor(), Seq::empty());
    }
    // Probe only six bytes before discarding an unrelated line, even when that line contains a very
    // long first token.
    let prefix = match read_prefix(reader) {
        Err(error) => {
            return Err(error);
        },
        Ok(prefix) => prefix,
    };
    if bytes::is_text(&prefix, "define") {
        let boundary = match reader.peek() {
            Err(error) => {
                return Err(error);
            },
            Ok(None) => true,
            Ok(Some(byte)) => bytes::is_space(byte),
        };
        if boundary {
            return scan_function(reader, start, Ghost(old(reader).cursor()));
        }
    }
    if !has_line_feed(&prefix) {
        match reader.skip_line() {
            Err(error) => {
                return Err(error);
            },
            Ok(()) => {},
        }
    }
    Ok(None)
}

fn has_line_feed(prefix: &Vec<u8>) -> (result: bool)
    ensures
        result == prefix@.contains(0x0a),
{
    let mut index: usize = 0;
    while index < prefix.len()
        invariant
            index <= prefix@.len(),
            forall|i: int| 0 <= i < index ==> prefix@[i] != 0x0a,
        decreases prefix.len() - index,
    {
        if prefix[index] == 0x0a {
            return true;
        }
        index += 1;
    }
    false
}

fn scan_function<R: ByteSource>(
    reader: &mut Stream<R>,
    start: u64,
    Ghost(line): Ghost<Cursor>,
) -> (result: Result<Option<LlvmDefinitionRecord>, IndexError>)
    requires
        old(reader).well_formed(),
        old(reader).cursor().header is None,
        line.header is None,
        line.offset == start,
        line.leads_to(old(reader).cursor()),
        0 < line.rest.len() - old(reader).cursor().rest.len() <= 6,
    ensures
        header::moved(*old(reader), *final(reader)),
        stream::agrees(
            result,
            final(reader).cursor(),
            function_item(line, old(reader).cursor()),
            |value: Option<LlvmDefinitionRecord>, meant: Option<Definition>|
                same_definition(value, meant),
        ),
{
    proof {
        function_item_advances(line, reader.cursor());
    }
    reader.begin_header(start);
    let symbol = match read_function(reader) {
        Err(error) => {
            return Err(error);
        },
        Ok(symbol) => symbol,
    };
    reader.end_header();
    proof {
        model::body_advances(reader.cursor(), model::fresh_body());
    }
    match reader.skip_body() {
        Err(error) => {
            return Err(error);
        },
        Ok(()) => {},
    }
    match record(start, reader.offset(), symbol, LlvmDefinitionKind::Function) {
        Err(error) => Err(error),
        Ok(record) => Ok(Some(record)),
    }
}

/// An optional kind and the optional kind that it holds.
pub open spec fn same_kind(value: Option<LlvmDefinitionKind>, meant: Option<DefinitionKind>) -> bool {
    match (value, meant) {
        (Some(kind), Some(expected)) => kind@ == expected,
        (None, None) => true,
        _ => false,
    }
}

/// Reads a global behind its equals sign and ends its header budget.
fn read_global<R: ByteSource>(reader: &mut Stream<R>) -> (result: Result<
    Option<LlvmDefinitionKind>,
    IndexError,
>)
    requires
        old(reader).well_formed(),
        old(reader).cursor().header is Some,
    ensures
        header::moved(*old(reader), *final(reader)),
        stream::agrees(
            result,
            final(reader).cursor(),
            global(old(reader).cursor()),
            |value: Option<LlvmDefinitionKind>, meant: Option<DefinitionKind>|
                same_kind(value, meant),
        ),
{
    // Modifiers precede the kind. Stop before an unrelated initializer.
    loop
        invariant
            header::moved(*old(reader), *reader),
            reader.cursor().header is Some,
            global(reader.cursor()) == global(old(reader).cursor()),
        decreases reader.cursor().rest.len(),
    {
        proof {
            modifier_advances(reader.cursor());
        }
        let token = match reader.read_required_token() {
            Err(error) => {
                return Err(error);
            },
            Ok(token) => token,
        };
        if bytes::is_text(&token.bytes, "global") || bytes::is_text(&token.bytes, "constant") {
            reader.end_header();
            return match reader.skip_line() {
                Err(error) => Err(error),
                Ok(()) => Ok(None),
            };
        }
        if bytes::is_text(&token.bytes, "alias") {
            let target = match read_alias_target(reader) {
                Err(error) => {
                    return Err(error);
                },
                Ok(target) => target,
            };
            reader.end_header();
            return match target {
                Some(target) => Ok(Some(LlvmDefinitionKind::DirectAlias { target })),
                None => Ok(Some(LlvmDefinitionKind::ExpressionAlias)),
            };
        }
        if bytes::is_text(&token.bytes, "ifunc") {
            match read_alias_target(reader) {
                Err(error) => {
                    return Err(error);
                },
                Ok(_) => {},
            }
            reader.end_header();
            return Ok(Some(LlvmDefinitionKind::Ifunc));
        }
        let modifier = if is_global_modifier(&token.bytes) {
            Ok(())
        } else if bytes::is_text(&token.bytes, "addrspace") {
            header::read_parenthesised(reader)
        } else if bytes::is_byte(&token.bytes, '(' as u8) {
            reader.consume_group('(' as u8)
        } else {
            Err(IndexError::Malformed { offset: token.offset, fault: Fault::UnknownGlobal })
        };
        match modifier {
            Err(error) => {
                return Err(error);
            },
            Ok(()) => {},
        }
    }
}

fn is_global_modifier(token: &Vec<u8>) -> (result: bool)
    ensures
        result == global_modifier(token@),
{
    bytes::is_text(token, "private") || bytes::is_text(token, "internal") || bytes::is_text(
        token,
        "available_externally",
    ) || bytes::is_text(token, "linkonce") || bytes::is_text(token, "weak") || bytes::is_text(
        token,
        "common",
    ) || bytes::is_text(token, "appending") || bytes::is_text(token, "extern_weak")
        || bytes::is_text(token, "linkonce_odr") || bytes::is_text(token, "weak_odr")
        || bytes::is_text(token, "external") || bytes::is_text(token, "dso_local")
        || bytes::is_text(token, "dso_preemptable") || bytes::is_text(token, "default")
        || bytes::is_text(token, "hidden") || bytes::is_text(token, "protected") || bytes::is_text(
        token,
        "dllimport",
    ) || bytes::is_text(token, "dllexport") || bytes::is_text(token, "unnamed_addr")
        || bytes::is_text(token, "local_unnamed_addr") || bytes::is_text(
        token,
        "externally_initialized",
    ) || bytes::is_text(token, "thread_local")
}

} // verus!

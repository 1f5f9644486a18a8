//! What holds of every index.

use super::header;
use super::model;
use super::model::{BodyState, BodyStep, Cursor, HEADER_LIMIT};
use super::scanner;
use crate::bytes;
use crate::records::{Definition, DefinitionKind};
use vstd::prelude::*;

verus! {

/// The second cursor stands at the end of the input or just behind a line feed.
pub open spec fn ends_line(c: Cursor, after: Cursor) -> bool {
    after.rest.len() == 0 || (after.rest.len() < c.rest.len() && c.rest[c.rest.len()
        - after.rest.len() - 1] == 0x0a)
}

/// The bytes of a definition in the text behind a cursor.
pub open spec fn excerpt(c: Cursor, d: Definition) -> Seq<u8> {
    c.rest.subrange(d.start - c.offset, d.end - c.offset)
}

/// A definition lies in the text, and its first and last bytes are those of its kind.
pub open spec fn well_placed(c: Cursor, d: Definition) -> bool {
    &&& c.offset <= d.start < d.end <= c.offset + c.rest.len()
    &&& d.symbol.len() > 0
    &&& match d.kind {
        DefinitionKind::Function => {
            let keyword = vstd::utf8::encode_utf8("define"@);
            &&& keyword.len() <= d.end - d.start
            &&& excerpt(c, d).take(keyword.len() as int) == keyword
            &&& excerpt(c, d).last() == '}' as u8
        },
        _ => {
            &&& excerpt(c, d)[0] == '@' as u8
            &&& d.end == c.offset + c.rest.len() || excerpt(c, d).last() == 0x0a
            &&& d.end - d.start <= HEADER_LIMIT
        },
    }
}

proof fn ends_line_from(c: Cursor, middle: Cursor, after: Cursor)
    requires
        c.rest.len() >= middle.rest.len(),
        middle.rest == c.rest.skip(c.rest.len() - middle.rest.len()),
        ends_line(middle, after),
    ensures
        ends_line(c, after),
{
}

proof fn line_ends(c: Cursor)
    ensures
        model::line(c) matches Ok((_, after)) ==> ends_line(c, after),
    decreases c.rest.len(),
{
    model::take_advances(c);
    if let Ok((Some(byte), after)) = model::take(c) {
        if byte != 0x0a {
            line_ends(after);
            if let Ok((_, end)) = model::line(after) {
                ends_line_from(c, after, end);
            }
        }
    }
}

proof fn gap_ends(c: Cursor)
    ensures
        model::gap(c, true) matches Ok((true, after)) ==> ends_line(c, after),
    decreases c.rest.len(),
{
    model::take_advances(c);
    line_ends(c);
    if let Ok(Some(byte)) = model::peek(c) {
        if byte != ';' as u8 && bytes::space(byte) && byte != 0x0a {
            if let Ok((_, after)) = model::take(c) {
                gap_ends(after);
                if let Ok((true, end)) = model::gap(after, true) {
                    ends_line_from(c, after, end);
                }
            }
        }
    }
}

proof fn token_ends(c: Cursor)
    ensures
        model::token(c, true) matches Ok((None, after)) ==> ends_line(c, after),
{
    gap_ends(c);
}

proof fn alias_suffixes_end(c: Cursor)
    ensures
        header::alias_suffixes(c) matches Ok((_, after)) ==> ends_line(c, after),
    decreases c.rest.len(),
{
    token_ends(c);
    model::token_advances(c, true);
    if let Ok((Some(word), after)) = model::token(c, true) {
        header::alias_suffix_advances(after);
        if let Ok((_, behind)) = header::alias_suffix(after) {
            model::leads_to_transitive(c, after, behind);
            alias_suffixes_end(behind);
            if let Ok((_, end)) = header::alias_suffixes(behind) {
                ends_line_from(c, behind, end);
            }
        }
    }
}

proof fn alias_target_ends(c: Cursor)
    ensures
        header::alias_target(c) matches Ok((_, after)) ==> ends_line(c, after),
{
    model::required_advances(c);
    if let Ok((first, after)) = model::required(c) {
        model::group_of_advances(after, first);
        if let Ok((_, begun)) = model::group_of(after, first) {
            model::leads_to_transitive(c, after, begun);
            header::alias_type_advances(begun);
            if let Ok((_, divided)) = header::alias_type(begun) {
                model::leads_to_transitive(c, begun, divided);
                header::alias_operand_advances(divided);
                if let Ok(((operand, typed), read)) = header::alias_operand(divided) {
                    model::leads_to_transitive(c, divided, read);
                    header::alias_value_advances(read, operand, typed);
                    if let Ok((_, valued)) = header::alias_value(read, operand, typed) {
                        model::leads_to_transitive(c, read, valued);
                        alias_suffixes_end(valued);
                        if let Ok((_, behind)) = header::alias_suffixes(valued) {
                            ends_line_from(c, valued, behind);
                        }
                    }
                }
            }
        }
    }
}

proof fn global_ends(c: Cursor)
    requires
        c.valid(),
    ensures
        scanner::global(c) matches Ok((Some(_), after)) ==> ends_line(c, after) && (
        c.header matches Some(start) ==> after.offset - start <= HEADER_LIMIT),
        scanner::global(c) matches Ok((Some(kind), _)) ==> !(kind is Function),
    decreases c.rest.len(),
{
    scanner::modifier_advances(c);
    if let Ok((word, after)) = model::required(c) {
        header::alias_target_advances(after);
        alias_target_ends(after);
        if let Ok((_, behind)) = header::alias_target(after) {
            ends_line_from(c, after, behind);
        }
        if scanner::global_modifier(word.bytes) {
            global_ends(after);
            if let Ok((Some(_), end)) = scanner::global(after) {
                ends_line_from(c, after, end);
            }
        }
        if let Ok((_, behind)) = header::parenthesised(after) {
            global_ends(behind);
            if let Ok((Some(_), end)) = scanner::global(behind) {
                ends_line_from(c, behind, end);
            }
        }
        if let Ok((_, behind)) = model::group(after, seq![')' as u8]) {
            global_ends(behind);
            if let Ok((Some(_), end)) = scanner::global(behind) {
                ends_line_from(c, behind, end);
            }
        }
    }
}

proof fn body_ends(c: Cursor, state: BodyState)
    ensures
        model::body(c, state) matches Ok((_, after)) ==> after.rest.len() < c.rest.len()
            && c.rest[c.rest.len() - after.rest.len() - 1] == '}' as u8,
    decreases c.rest.len(),
{
    model::take_advances(c);
    if let Ok((Some(byte), after)) = model::take(c) {
        if let BodyStep::Within(next) = model::body_step(state, byte) {
            body_ends(after, next);
        }
    }
}

proof fn probe_reads(c: Cursor, read: Seq<u8>)
    ensures
        scanner::probe(c, read) matches Ok((prefix, after)) ==> {
            &&& after.rest.len() <= c.rest.len()
            &&& prefix == read + c.rest.take(c.rest.len() - after.rest.len())
        },
    decreases c.rest.len(),
{
    model::take_advances(c);
    assert(read + c.rest.take(0) =~= read);
    if read.len() < 6 {
        if let Ok((Some(byte), after)) = model::take(c) {
            assert(read.push(byte) =~= read + c.rest.take(1));
            if byte != 0x0a {
                probe_reads(after, read.push(byte));
                if let Ok((prefix, end)) = scanner::probe(after, read.push(byte)) {
                    assert(prefix =~= read + c.rest.take(c.rest.len() - end.rest.len()));
                }
            }
        }
    }
}

proof fn item_is_placed(c: Cursor)
    requires
        c.rest.len() > 0,
        c.header is None,
    ensures
        scanner::item(c) matches Ok((Some(d), after)) ==> {
            &&& well_placed(c, d)
            &&& d.start == c.offset
            &&& d.end == after.offset
        },
{
    scanner::item_advances(c);
    if c.rest[0] == '@' as u8 {
        global_item_is_placed(c);
    }
    if c.rest[0] == 'd' as u8 {
        keyword_item_is_placed(c);
    }
}

proof fn global_item_is_placed(c: Cursor)
    requires
        c.rest.len() > 0,
        c.header is None,
        c.rest[0] == '@' as u8,
    ensures
        scanner::global_item(c) matches Ok((Some(d), after)) ==> {
            &&& well_placed(c, d)
            &&& d.start == c.offset
            &&& d.end == after.offset
        },
{
    let start = c.with_header(Some(c.offset));
    scanner::global_item_advances(c);
    model::required_advances(start);
    if let Ok((word, named)) = model::required(start) {
        model::required_advances(named);
        if let Ok((_, assigned)) = model::expected(
            named,
            '=' as u8,
            super::error::Fault::NotEquals,
        ) {
            model::leads_to_transitive(start, named, assigned);
            global_ends(assigned);
            if let Ok((Some(kind), behind)) = scanner::global(assigned) {
                ends_line_from(c, assigned, behind);
            }
        }
    }
}

#[verifier::rlimit(60)]
proof fn keyword_item_is_placed(c: Cursor)
    requires
        c.rest.len() > 0,
        c.header is None,
        c.rest[0] == 'd' as u8,
    ensures
        scanner::keyword_item(c) matches Ok((Some(d), after)) ==> {
            &&& well_placed(c, d)
            &&& d.start == c.offset
            &&& d.end == after.offset
        },
{
    scanner::probe_advances(c, Seq::empty());
    probe_reads(c, Seq::empty());
    if let Ok((prefix, probed)) = scanner::probe(c, Seq::empty()) {
        scanner::function_item_advances(c, probed);
        let begun = probed.with_header(Some(c.offset));
        header::function_advances(begun);
        if let Ok((name, opened)) = header::function(begun) {
            let inner = opened.with_header(None);
            body_ends(inner, model::fresh_body());
            model::body_advances(inner, model::fresh_body());
            if let Ok((_, after)) = model::body(inner, model::fresh_body()) {
                if let Ok((Some(d), _)) = scanner::function_item(c, probed) {
                    assert(c.leads_to(after));
                    assert(excerpt(c, d).take(prefix.len() as int) =~= c.rest.take(
                        prefix.len() as int,
                    ));
                    assert(prefix =~= c.rest.take(prefix.len() as int));
                }
            }
        }
    }
}

/// Definitions come in input order and do not overlap. Each lies in the text, a function from its
/// keyword to the closing brace of its body, another definition from its sigil through the end of
/// its line and within the header budget. No symbol is empty.
pub proof fn definitions_are_placed(c: Cursor)
    requires
        c.header is None,
    ensures
        scanner::definitions(c, Seq::empty()) matches Ok(list) ==> {
            &&& forall|i: int| 0 <= i < list.len() ==> well_placed(c, #[trigger] list[i])
            &&& forall|i: int, j: int|
                0 <= i < j < list.len() ==> (#[trigger] list[i]).end <= (#[trigger] list[j]).start
        },
{
    model::leads_to_itself(c);
    definitions_are_placed_behind(c, c, Seq::empty());
}

spec fn placed_before(origin: Cursor, c: Cursor, found: Seq<Definition>) -> bool {
    &&& forall|i: int|
        0 <= i < found.len() ==> well_placed(origin, #[trigger] found[i]) && found[i].end
            <= c.offset
    &&& forall|i: int, j: int|
        0 <= i < j < found.len() ==> (#[trigger] found[i]).end <= (#[trigger] found[j]).start
}

proof fn definitions_are_placed_behind(origin: Cursor, c: Cursor, found: Seq<Definition>)
    requires
        origin.leads_to(c),
        c.header is None,
        placed_before(origin, c, found),
    ensures
        scanner::definitions(c, found) matches Ok(list) ==> {
            &&& forall|i: int| 0 <= i < list.len() ==> well_placed(origin, #[trigger] list[i])
            &&& forall|i: int, j: int|
                0 <= i < j < list.len() ==> (#[trigger] list[i]).end <= (#[trigger] list[j]).start
        },
    decreases c.rest.len(),
{
    if let Ok(Some(_)) = model::peek(c) {
        scanner::item_advances(c);
        item_is_placed(c);
        if let Ok((made, after)) = scanner::item(c) {
            model::leads_to_transitive(origin, c, after);
            match made {
                None => {
                    definitions_are_placed_behind(origin, after, found);
                },
                Some(d) => {
                    assert(excerpt(c, d) =~= excerpt(origin, d));
                    assert(well_placed(origin, d));
                    definitions_are_placed_behind(origin, after, found.push(d));
                },
            }
        }
    }
}

} // verus!

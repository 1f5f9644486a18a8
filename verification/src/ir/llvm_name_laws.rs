//! What the lines of a textual module name.

use super::evidence::RecordKind;
use super::llvm;
use super::llvm::Cursor;
use crate::bytes;
use crate::llvm_index::item_laws;
use crate::llvm_index::token_laws;
use crate::text;
use vstd::prelude::*;

verus! {

/// Bytes without the sigil of a global.
pub open spec fn unsigned(front: Seq<u8>) -> bool {
    forall|i: int| 0 <= i < front.len() ==> #[trigger] front[i] != 0x40
}

proof fn sigils_are_found(front: Seq<u8>, rest: Seq<u8>)
    requires
        unsigned(front),
    ensures
        bytes::index_of(front + (seq![0x40u8] + rest), 0x40) == front.len(),
{
    let line = front + (seq![0x40u8] + rest);
    assert forall|i: int| 0 <= i < front.len() implies line[i] != 0x40 by {
        assert(line[i] == front[i]);
    }
    assert(line[front.len() as int] == 0x40);
    bytes::index_of_is(line, 0x40, front.len() as int);
}

proof fn identifiers_end(line: Seq<u8>, at: int, end: int)
    requires
        0 <= at <= end <= line.len(),
        forall|i: int| at <= i < end ==> token_laws::name_byte(#[trigger] line[i]),
        end < line.len() ==> !token_laws::name_byte(line[end]),
    ensures
        llvm::identifier_end(line, at) == end,
    decreases end - at,
{
    if at < end {
        assert(token_laws::name_byte(line[at]));
        identifiers_end(line, at + 1, end);
    }
}

/// The first global of a line is the run of name bytes behind the first sigil.
pub proof fn bare_globals_are_named(front: Seq<u8>, name: Seq<u8>, rest: Seq<u8>)
    requires
        unsigned(front),
        token_laws::name_run(name),
        rest.len() > 0 ==> !token_laws::name_byte(rest[0]),
        name.len() == 0 && rest.len() > 0 ==> rest[0] != 0x22,
    ensures
        llvm::global_text(front + (seq![0x40u8] + (name + rest))) == Some(text::lossy(name)),
{
    let line = front + (seq![0x40u8] + (name + rest));
    sigils_are_found(front, name + rest);
    let start = front.len() as int + 1;
    let end = start + name.len();
    assert forall|i: int| start <= i < end implies token_laws::name_byte(#[trigger] line[i]) by {
        assert(line[i] == name[i - start]);
    }
    if end < line.len() {
        assert(line[end] == rest[0]);
    }
    identifiers_end(line, start, end);
    assert(line.subrange(start, end) =~= name);
    if start < line.len() {
        if name.len() > 0 {
            assert(line[start] == name[0]);
            assert(token_laws::name_byte(name[0]));
        } else {
            assert(line[start] == rest[0]);
        }
    }
}

proof fn quotes_close(line: Seq<u8>, at: int, quote: int)
    requires
        0 <= at <= quote < line.len(),
        forall|i: int| at <= i < quote ==> #[trigger] line[i] != 0x22 && line[i] != 0x5c,
        line[quote] == 0x22,
    ensures
        llvm::closing_quote(line, at) == Some(quote),
    decreases quote - at,
{
    if at < quote {
        assert(line[at] != 0x22 && line[at] != 0x5c);
        quotes_close(line, at + 1, quote);
    }
}

/// A quoted global is what stands between its quotes.
pub proof fn quoted_globals_are_named(front: Seq<u8>, name: Seq<u8>, rest: Seq<u8>)
    requires
        unsigned(front),
        forall|i: int| 0 <= i < name.len() ==> #[trigger] name[i] != 0x22 && name[i] != 0x5c,
    ensures
        llvm::global_text(
            front + (seq![0x40u8] + (seq![0x22u8] + (name + (seq![0x22u8] + rest)))),
        ) == Some(text::lossy(name)),
{
    let line = front + (seq![0x40u8] + (seq![0x22u8] + (name + (seq![0x22u8] + rest))));
    sigils_are_found(front, seq![0x22u8] + (name + (seq![0x22u8] + rest)));
    let start = front.len() as int + 1;
    let quote = start + 1 + name.len();
    assert(line[start] == 0x22);
    assert forall|i: int| start + 1 <= i < quote implies #[trigger] line[i] != 0x22 && line[i]
        != 0x5c by {
        assert(line[i] == name[i - start - 1]);
    }
    assert(line[quote] == 0x22);
    quotes_close(line, start + 1, quote);
    assert(line.subrange(start + 1, quote) =~= name);
}

/// A retained line that starts with `declare` is a declaration, one that starts with a sigil an
/// alias, and any other a definition that ends with its body. Each has the symbol of the first
/// global and starts where its line starts.
pub proof fn retained_lines_have_a_kind(start: int, line: Seq<u8>, after: Cursor)
    ensures
        ({
            let declares = vstd::utf8::encode_utf8("declare "@).is_prefix_of(line);
            let aliases = !declares && line.len() > 0 && line[0] == 0x40;
            let made = llvm::record_at(start, line, after);
            &&& made is Ok ==> {
                let (record, end) = made->Ok_0;
                &&& llvm::global_text(line) == Some(record.raw_symbol)
                &&& record.start == start
                &&& record.end == end.offset
                &&& declares <==> record.kind == RecordKind::Declaration
                &&& aliases <==> record.kind is Alias
                &&& declares || aliases ==> end == after
                &&& !declares && !aliases ==> llvm::body_end(after) == Ok::<
                    Cursor,
                    llvm::ScanError,
                >(end)
                &&& record.demangled == (match llvm::demangled_name(record.raw_symbol) {
                    Some(name) => name,
                    None => record.raw_symbol,
                })
            }
            &&& llvm::global_text(line) is Some && (declares || aliases) ==> made is Ok
            &&& llvm::global_text(line) is None ==> made is Err
        }),
{
}

/// A body ends behind the first line that holds a closing brace, blanks around it and perhaps a
/// comment.
pub proof fn bodies_end_with_a_brace(c: Cursor)
    ensures
        llvm::line_length(c) matches Ok(length) ==> length > 0 ==> {
            &&& llvm::closes(c.rest.take(length)) ==> llvm::body_end(c) == Ok::<
                Cursor,
                llvm::ScanError,
            >(c.skip(length))
            &&& !llvm::closes(c.rest.take(length)) ==> llvm::body_end(c) == llvm::body_end(
                c.skip(length),
            )
        },
        llvm::line_length(c) matches Ok(length) ==> length == 0 ==> llvm::body_end(c) is Err,
{
    if let Ok(length) = llvm::line_length(c) {
        super::llvm_laws::closing_lines_are_recognized(c.rest.take(length));
    }
}

/// A line whose first mark behind leading blanks is a closing brace closes a body if only blanks or
/// a comment follow.
pub proof fn closing_braces_close(front: Seq<u8>, back: Seq<u8>)
    requires
        forall|i: int| 0 <= i < front.len() ==> bytes::space(#[trigger] front[i]),
    ensures
        (forall|i: int| 0 <= i < back.len() ==> bytes::space(#[trigger] back[i])) ==> llvm::closes(
            front + (seq![0x7du8] + back),
        ),
        (back.len() > 0 && back[0] == 0x3b) ==> llvm::closes(front + (seq![0x7du8] + back)),
        (back.len() > 0 && !bytes::space(back[0]) && back[0] != 0x3b) ==> !llvm::closes(
            front + (seq![0x7du8] + back),
        ),
{
    let line = front + (seq![0x7du8] + back);
    blanks_go(front, seq![0x7du8] + back);
    let rest = seq![0x7du8] + back;
    assert(rest.skip(1) =~= back);
    if forall|i: int| 0 <= i < back.len() ==> bytes::space(#[trigger] back[i]) {
        blanks_go(back, Seq::empty());
        assert(back + Seq::<u8>::empty() =~= back);
    }
}

/// Blanks at the start are trimmed.
pub proof fn blanks_go(front: Seq<u8>, rest: Seq<u8>)
    requires
        forall|i: int| 0 <= i < front.len() ==> bytes::space(#[trigger] front[i]),
        rest.len() > 0 ==> !bytes::space(rest[0]),
    ensures
        bytes::trimmed_start(front + rest) == rest,
    decreases front.len(),
{
    if front.len() == 0 {
        assert(front + rest =~= rest);
    } else {
        let tail = front.skip(1);
        assert((front + rest).skip(1) =~= tail + rest);
        assert((front + rest)[0] == front[0]);
        assert forall|i: int| 0 <= i < tail.len() implies bytes::space(#[trigger] tail[i]) by {
            assert(tail[i] == front[i + 1]);
        }
        blanks_go(tail, rest);
    }
}

/// A type without commas and delimiters ends at its comma.
pub proof fn types_end_at_their_comma(kind: Seq<u8>, rest: Seq<u8>)
    requires
        forall|i: int|
            0 <= i < kind.len() ==> token_laws::name_byte(#[trigger] kind[i]) || kind[i] == 0x20
                || kind[i] == 0x25 || kind[i] == 0x2a,
    ensures
        llvm::top_level_value(kind + (seq![0x2cu8] + rest), 0) == Some(rest),
    decreases kind.len(),
{
    let value = kind + (seq![0x2cu8] + rest);
    if kind.len() == 0 {
        assert(value[0] == 0x2c);
        assert(value.skip(1) =~= rest);
    } else {
        let tail = kind.skip(1);
        assert(value[0] == kind[0]);
        assert(value.skip(1) =~= tail + (seq![0x2cu8] + rest));
        assert forall|i: int| 0 <= i < tail.len() implies token_laws::name_byte(#[trigger] tail[i])
            || tail[i] == 0x20 || tail[i] == 0x25 || tail[i] == 0x2a by {
            assert(tail[i] == kind[i + 1]);
        }
        types_end_at_their_comma(tail, rest);
    }
}

proof fn keyword_bytes()
    ensures
        vstd::utf8::encode_utf8(" = alias "@).len() == 9,
        vstd::utf8::encode_utf8(" = alias "@)[0] == 0x20,
        vstd::utf8::encode_utf8("ptr "@).len() == 4,
        vstd::utf8::encode_utf8("ptr "@)[0] == 0x70,
{
    reveal_strlit(" = alias ");
    reveal_strlit("ptr ");
    assert(" = alias "@ =~= seq![' ', '=', ' ', 'a', 'l', 'i', 'a', 's', ' ']);
    assert("ptr "@ =~= seq!['p', 't', 'r', ' ']);
    token_laws::ascii_is_written_as_it_is(" = alias "@);
    token_laws::ascii_is_written_as_it_is("ptr "@);
}

proof fn patterns_are_found(front: Seq<u8>, pattern: Seq<u8>, rest: Seq<u8>)
    requires
        pattern.len() > 0,
        forall|i: int| 0 <= i < front.len() ==> #[trigger] front[i] != pattern[0],
    ensures
        bytes::occurrence(front + (pattern + rest), pattern) == Some(front.len() as int),
    decreases front.len(),
{
    let line = front + (pattern + rest);
    if front.len() == 0 {
        assert(line =~= pattern + rest);
        assert(line.subrange(0, pattern.len() as int) =~= pattern);
    } else {
        let tail = front.skip(1);
        assert(line.skip(1) =~= tail + (pattern + rest));
        assert forall|i: int| 0 <= i < tail.len() implies #[trigger] tail[i] != pattern[0] by {
            assert(tail[i] == front[i + 1]);
        }
        if pattern.is_prefix_of(line) {
            assert(line.subrange(0, pattern.len() as int)[0] == front[0]);
        }
        patterns_are_found(tail, pattern, rest);
    }
}

/// Blanks at the end are trimmed.
pub proof fn ends_are_trimmed(content: Seq<u8>, back: Seq<u8>)
    requires
        forall|i: int| 0 <= i < back.len() ==> bytes::space(#[trigger] back[i]),
        content.len() > 0,
        !bytes::space(content.last()),
    ensures
        bytes::trimmed_end(content + back) == content,
    decreases back.len(),
{
    if back.len() == 0 {
        assert(content + back =~= content);
    } else {
        let start = back.drop_last();
        assert((content + back).drop_last() =~= content + start);
        assert((content + back).last() == back.last());
        assert(back[back.len() - 1] == back.last());
        assert forall|i: int| 0 <= i < start.len() implies bytes::space(#[trigger] start[i]) by {
            assert(start[i] == back[i]);
        }
        ends_are_trimmed(content, start);
    }
}

/// The operand of an alias is the pointer behind its type.
proof fn operands_are_found(
    front: Seq<u8>,
    kind: Seq<u8>,
    operand: Seq<u8>,
    back: Seq<u8>,
)
    requires
        forall|i: int| 0 <= i < front.len() ==> #[trigger] front[i] != 0x20,
        forall|i: int|
            0 <= i < kind.len() ==> token_laws::name_byte(#[trigger] kind[i]) || kind[i] == 0x20
                || kind[i] == 0x25 || kind[i] == 0x2a,
        operand.len() > 0,
        !bytes::space(operand[0]),
        !bytes::space(operand.last()),
        forall|i: int| 0 <= i < back.len() ==> bytes::space(#[trigger] back[i]),
    ensures
        llvm::alias_operand(
            front + (vstd::utf8::encode_utf8(" = alias "@) + (kind + (seq![0x2cu8] + (seq![0x20u8]
                + (vstd::utf8::encode_utf8("ptr "@) + (operand + back)))))),
        ) == Some(operand),
{
    let pattern = vstd::utf8::encode_utf8(" = alias "@);
    let pointer = vstd::utf8::encode_utf8("ptr "@);
    let aliasee = seq![0x20u8] + (pointer + (operand + back));
    let value = kind + (seq![0x2cu8] + aliasee);
    let line = front + (pattern + value);
    keyword_bytes();
    patterns_are_found(front, pattern, value);
    assert(line.skip(front.len() as int + pattern.len()) =~= value);
    types_end_at_their_comma(kind, aliasee);
    let inner = pointer + operand;
    assert(inner.last() == operand.last());
    assert(inner[0] == pointer[0]);
    let blank = seq![0x20u8];
    blanks_go(blank, pointer + (operand + back));
    assert(pointer + (operand + back) =~= inner + back);
    ends_are_trimmed(inner, back);
    assert(llvm::trimmed(aliasee) == inner);
    assert(inner.subrange(0, pointer.len() as int) =~= pointer);
    assert(inner.skip(pointer.len() as int) =~= operand);
    let none = Seq::<u8>::empty();
    blanks_go(none, operand);
    ends_are_trimmed(operand, none);
    assert(none + operand =~= operand);
    assert(operand + none =~= operand);
}

proof fn single_globals_are_listed(name: Seq<u8>)
    requires
        name.len() > 0,
        token_laws::name_run(name),
    ensures
        llvm::global_texts(seq![0x40u8] + name) == seq![text::lossy(name)],
        llvm::name_span(seq![0x40u8] + name) matches Some(span) && span.after == name.len() + 1,
{
    let operand = seq![0x40u8] + name;
    let none = Seq::<u8>::empty();
    sigils_are_found(none, name);
    assert(none + (seq![0x40u8] + name) =~= operand);
    assert forall|i: int| 1 <= i < operand.len() implies token_laws::name_byte(
        #[trigger] operand[i],
    ) by {
        assert(operand[i] == name[i - 1]);
    }
    identifiers_end(operand, 1, operand.len() as int);
    assert(operand[1] == name[0] && token_laws::name_byte(name[0]));
    assert(operand.subrange(1, operand.len() as int) =~= name);
    assert(operand.skip(0) =~= operand);
    assert(operand.skip(operand.len() as int) =~= none);
    assert(llvm::global_texts(none) =~= Seq::<Seq<char>>::empty());
    assert(seq![text::lossy(name)] + Seq::<Seq<char>>::empty() =~= seq![text::lossy(name)]);
}

/// An alias of a pointer to one global has that global as its direct target, unless it is the alias
/// itself.
pub proof fn aliases_have_a_direct_target(
    name: Seq<char>,
    kind: Seq<u8>,
    target: Seq<char>,
    back: Seq<u8>,
    alias: Seq<char>,
)
    requires
        item_laws::plain_name(name),
        item_laws::plain_name(target),
        forall|i: int|
            0 <= i < kind.len() ==> token_laws::name_byte(#[trigger] kind[i]) || kind[i] == 0x20
                || kind[i] == 0x25 || kind[i] == 0x2a,
        forall|i: int| 0 <= i < back.len() ==> bytes::space(#[trigger] back[i]),
    ensures
        ({
            let line = seq![0x40u8] + vstd::utf8::encode_utf8(name) + (vstd::utf8::encode_utf8(
                " = alias "@,
            ) + (kind + (seq![0x2cu8] + (seq![0x20u8] + (vstd::utf8::encode_utf8("ptr "@) + ((seq![
                0x40u8,
            ] + vstd::utf8::encode_utf8(target)) + back))))));
            &&& llvm::alias_symbol(line, alias) == (if target != alias {
                Some(target)
            } else {
                None
            })
        }),
{
    let bytes = vstd::utf8::encode_utf8(target);
    let operand = seq![0x40u8] + bytes;
    let front = seq![0x40u8] + vstd::utf8::encode_utf8(name);
    item_laws::plain_names_are_symbols(name, 0);
    item_laws::plain_names_are_symbols(target, 0);
    assert forall|i: int| 0 <= i < front.len() implies #[trigger] front[i] != 0x20 by {
        if i > 0 {
            assert(front[i] == vstd::utf8::encode_utf8(name)[i - 1]);
            assert(token_laws::name_byte(vstd::utf8::encode_utf8(name)[i - 1]));
        }
    }
    assert(operand.last() == bytes.last());
    assert(token_laws::name_byte(bytes[bytes.len() - 1]));
    operands_are_found(front, kind, operand, back);
    single_globals_are_listed(bytes);
    vstd::utf8::encode_utf8_valid_utf8(target);
    vstd::utf8::encode_utf8_decode_utf8(target);
}

} // verus!

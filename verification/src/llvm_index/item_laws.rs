//! What aliases, functions and unrelated lines add to an index.

use super::header;
use super::line_laws;
use super::model;
use super::model::{Cursor, Word};
use super::scanner;
use super::symbol;
use super::token_laws;
use crate::bytes;
use crate::records::{Definition, DefinitionKind};
use crate::source::SourceError;
use vstd::prelude::*;

verus! {

/// A line that starts neither with a blank, a global name nor the letter of the function keyword
/// adds nothing, whatever it holds.
pub proof fn unrelated_lines_add_nothing(
    content: Seq<u8>,
    text: Seq<u8>,
    ending: Option<SourceError>,
    offset: u64,
    found: Seq<Definition>,
)
    requires
        content.len() > 0,
        content[0] != 0x40,
        content[0] != 0x64,
        content[0] != 0x09,
        content[0] != 0x0c,
        content[0] != 0x0d,
        content[0] != 0x20,
        forall|i: int| 0 <= i < content.len() ==> #[trigger] content[i] != 0x0a,
        offset + content.len() + 1 <= u64::MAX,
    ensures
        scanner::definitions(
            line_laws::outside(content + (seq![0x0au8] + text), ending, offset),
            found,
        ) == scanner::definitions(
            line_laws::outside(text, ending, (offset + content.len() + 1) as u64),
            found,
        ),
{
    let c = line_laws::outside(content + (seq![0x0au8] + text), ending, offset);
    token_laws::written_lines_are_passed(c, content, text);
    assert(c.rest[0] == content[0]);
    let after = token_laws::at(c, text, content.len() as int + 1);
    assert(scanner::item(c) == token_laws::given(None::<Definition>, after));
    line_laws::silent_items_add_nothing(c, after, found);
}

/// Blanks and line feeds between the lines add nothing.
pub proof fn blanks_add_nothing(
    byte: u8,
    text: Seq<u8>,
    ending: Option<SourceError>,
    offset: u64,
    found: Seq<Definition>,
)
    requires
        byte == 0x09 || byte == 0x0a || byte == 0x0c || byte == 0x0d || byte == 0x20,
        offset < u64::MAX,
    ensures
        scanner::definitions(line_laws::outside(seq![byte] + text, ending, offset), found)
            == scanner::definitions(
            line_laws::outside(text, ending, (offset + 1) as u64),
            found,
        ),
{
    let c = line_laws::outside(seq![byte] + text, ending, offset);
    let after = line_laws::outside(text, ending, (offset + 1) as u64);
    assert(c.rest[0] == byte);
    assert(c.rest.skip(1) =~= text);
    assert(c.next() == after);
    assert(model::take(c) == token_laws::given(Some(byte), after));
    assert(scanner::item(c) == token_laws::given(None::<Definition>, after));
    line_laws::silent_items_add_nothing(c, after, found);
}

/// The start of a line is probed byte by byte.
pub proof fn probes_are_read(c: Cursor, read: Seq<u8>, count: int)
    requires
        0 <= count,
        read.len() + count <= 6,
        count <= c.rest.len(),
        forall|i: int| 0 <= i < count ==> #[trigger] c.rest[i] != 0x0a,
        token_laws::room(c, count),
    ensures
        scanner::probe(c, read) == scanner::probe(
            token_laws::forward(c, count),
            read + c.rest.take(count),
        ),
    decreases count,
{
    if count == 0 {
        assert(read + c.rest.take(0) =~= read);
        assert(c.rest.skip(0) =~= c.rest);
    } else {
        let after = c.next();
        assert(c.rest[0] != 0x0a);
        assert(after == token_laws::forward(c, 1));
        assert forall|i: int| 0 <= i < count - 1 implies #[trigger] after.rest[i] != 0x0a by {
            assert(after.rest[i] == c.rest[i + 1]);
        }
        probes_are_read(after, read.push(c.rest[0]), count - 1);
        assert(read.push(c.rest[0]) + after.rest.take(count - 1) =~= read + c.rest.take(count));
        token_laws::forward_twice(c, 1, count - 1);
    }
}

/// A long line that starts with the letter of the function keyword, but not with the keyword and a
/// blank, adds nothing. Declarations are such lines.
pub proof fn declarations_add_nothing(
    content: Seq<u8>,
    text: Seq<u8>,
    ending: Option<SourceError>,
    offset: u64,
    found: Seq<Definition>,
)
    requires
        content.len() >= 6,
        content[0] == 0x64,
        forall|i: int| 0 <= i < content.len() ==> #[trigger] content[i] != 0x0a,
        content.take(6) != vstd::utf8::encode_utf8("define"@) || (content.len() > 6 && content[6]
            != 0x09 && content[6] != 0x0c && content[6] != 0x0d && content[6] != 0x20),
        offset + content.len() + 1 <= u64::MAX,
    ensures
        scanner::definitions(
            line_laws::outside(content + (seq![0x0au8] + text), ending, offset),
            found,
        ) == scanner::definitions(
            line_laws::outside(text, ending, (offset + content.len() + 1) as u64),
            found,
        ),
{
    let c = line_laws::outside(content + (seq![0x0au8] + text), ending, offset);
    let none = Seq::<u8>::empty();
    assert forall|i: int| 0 <= i < 6 implies #[trigger] c.rest[i] != 0x0a by {
        assert(c.rest[i] == content[i]);
    }
    probes_are_read(c, none, 6);
    let probed = token_laws::forward(c, 6);
    let prefix = content.take(6);
    assert(none + c.rest.take(6) =~= prefix);
    assert(scanner::probe(c, none) == token_laws::given(prefix, probed));
    let rest = content.skip(6);
    assert(probed.rest =~= rest + (seq![0x0au8] + text));
    assert forall|i: int| 0 <= i < rest.len() implies #[trigger] rest[i] != 0x0a by {
        assert(rest[i] == content[i + 6]);
    }
    token_laws::written_lines_are_passed(probed, rest, text);
    let after = token_laws::at(c, text, content.len() as int + 1);
    assert(token_laws::at(probed, text, rest.len() as int + 1) == after);
    assert(!prefix.contains(0x0a));
    assert(c.rest[0] == 0x64);
    if content.len() > 6 {
        assert(probed.rest[0] == content[6]);
    }
    other_keywords_are_lines(c, prefix, probed, after);
    line_laws::silent_items_add_nothing(c, after, found);
}

proof fn other_keywords_are_lines(c: Cursor, prefix: Seq<u8>, probed: Cursor, after: Cursor)
    requires
        c.rest.len() > 0,
        c.rest[0] == 0x64,
        scanner::probe(c, Seq::empty()) == token_laws::given(prefix, probed),
        probed.rest.len() > 0,
        prefix != vstd::utf8::encode_utf8("define"@) || !bytes::space(probed.rest[0]),
        !prefix.contains(0x0a),
        model::line(probed) == token_laws::given((), after),
    ensures
        scanner::item(c) == token_laws::given(None::<Definition>, after),
{
}

/// A name that LLVM writes without quotes: letters, digits, underscores, dots, dollar signs and
/// hyphens, with no digit in front.
pub open spec fn plain_name(name: Seq<char>) -> bool {
    &&& name.len() > 0
    &&& !('0' <= name[0] <= '9')
    &&& forall|i: int|
        0 <= i < name.len() ==> 'a' <= #[trigger] name[i] <= 'z' || 'A' <= name[i] <= 'Z' || '0'
            <= name[i] <= '9' || name[i] == '_' || name[i] == '.' || name[i] == '$' || name[i] == '-'
}

/// A plain name behind a sigil is a symbol.
pub proof fn plain_names_are_symbols(name: Seq<char>, offset: u64)
    requires
        plain_name(name),
    ensures
        token_laws::name_run(vstd::utf8::encode_utf8(name)),
        vstd::utf8::encode_utf8(name).len() == name.len(),
        token_laws::bare_token(seq![0x40u8] + vstd::utf8::encode_utf8(name)),
        symbol::symbol(
            Word { bytes: seq![0x40u8] + vstd::utf8::encode_utf8(name), offset },
        ) == Ok::<Seq<char>, super::error::IndexError>(name),
{
    assert(vstd::utf8::is_ascii_chars(name));
    token_laws::ascii_is_written_as_it_is(name);
    let text = vstd::utf8::encode_utf8(name);
    assert forall|i: int| 0 <= i < text.len() implies token_laws::name_byte(
        #[trigger] text[i],
    ) by {
        assert(text[i] == name[i] as u8);
    }
    let token = seq![0x40u8] + text;
    assert(token.skip(1) =~= text);
    assert(token[1] == text[0]);
    assert(text[0] == name[0] as u8);
    assert(token_laws::name_byte(token[1]));
}

/// The operand of a direct alias or of a resolved function: a type, a comma and a pointer to a
/// global.
pub open spec fn pointer_operand(kind: Seq<u8>, target: Seq<char>) -> Seq<u8> {
    seq![0x20u8] + kind + seq![0x2cu8, 0x20u8] + vstd::utf8::encode_utf8("ptr"@) + seq![
        0x20u8,
        0x40u8,
    ] + vstd::utf8::encode_utf8(target)
}

proof fn pointers_are_plain()
    ensures
        token_laws::bare_token(vstd::utf8::encode_utf8("ptr"@)),
        vstd::utf8::encode_utf8("ptr"@).len() == 3,
        vstd::utf8::encode_utf8("addrspace"@)[0] == 0x61,
        vstd::utf8::encode_utf8("addrspace"@).len() == 9,
{
    reveal_strlit("ptr");
    reveal_strlit("addrspace");
    assert("ptr"@ =~= seq!['p', 't', 'r']);
    assert("addrspace"@ =~= seq!['a', 'd', 'd', 'r', 's', 'p', 'a', 'c', 'e']);
    token_laws::ascii_is_written_as_it_is("ptr"@);
    token_laws::ascii_is_written_as_it_is("addrspace"@);
    let word = vstd::utf8::encode_utf8("ptr"@);
    assert(word[0] == 'p' as u8 && word[1] == 't' as u8 && word[2] == 'r' as u8);
    assert forall|i: int| 0 <= i < word.skip(1).len() implies token_laws::name_byte(
        #[trigger] word.skip(1)[i],
    ) by {
        assert(word.skip(1)[i] == word[i + 1]);
    }
}

/// A bare token opens no group.
pub proof fn single_bytes_open_nothing(c: Cursor, word: Word)
    requires
        token_laws::bare_token(word.bytes),
    ensures
        model::group_of(c, word) == token_laws::given((), c),
{
}

/// The parts of a pointer operand, in the order in which they are read.
proof fn operands_are_joined(kind: Seq<u8>, target: Seq<char>, rest: Seq<u8>)
    ensures
        pointer_operand(kind, target) + rest == seq![0x20u8] + (kind + (seq![0x2cu8] + (seq![0x20u8]
            + (vstd::utf8::encode_utf8("ptr"@) + (seq![0x20u8] + ((seq![0x40u8]
            + vstd::utf8::encode_utf8(target)) + rest)))))),
        pointer_operand(kind, target).len() == 4 + kind.len() + vstd::utf8::encode_utf8(
            "ptr"@,
        ).len() + 1 + vstd::utf8::encode_utf8(target).len(),
{
    let pointer = vstd::utf8::encode_utf8("ptr"@);
    let name = vstd::utf8::encode_utf8(target);
    assert(seq![0x20u8] + kind + seq![0x2cu8, 0x20u8] + pointer + seq![0x20u8, 0x40u8] + name + rest
        =~= seq![0x20u8] + (kind + (seq![0x2cu8] + (seq![0x20u8] + (pointer + (seq![0x20u8] + ((seq![
        0x40u8,
    ] + name) + rest)))))));
}

/// The suffixes of an alias end with their line.
pub proof fn line_ends_stop(c: Cursor, text: Seq<u8>)
    requires
        c.rest == seq![0x0au8] + text,
        token_laws::room(c, 1),
    ensures
        header::alias_suffixes(c) == token_laws::given((), token_laws::at(c, text, 1)),
{
    assert(c.rest.skip(1) =~= text);
    assert(c.next() == token_laws::at(c, text, 1));
    assert(model::take(c) == token_laws::given(Some(0x0au8), c.next()));
    assert(model::gap(c, true) == token_laws::given(true, c.next()));
    assert(model::token(c, true) == token_laws::given(None::<Word>, c.next()));
}

#[verifier::spinoff_prover]
#[verifier::rlimit(60)]
proof fn pointer_operands_are_read(c: Cursor, kind: Seq<u8>, target: Seq<char>, text: Seq<u8>)
    requires
        c.rest == pointer_operand(kind, target) + (seq![0x0au8] + text),
        token_laws::bare_token(kind),
        token_laws::name_byte(kind[0]),
        plain_name(target),
        token_laws::room(c, pointer_operand(kind, target).len() as int + 1),
    ensures
        header::alias_target(c) == token_laws::given(
            Some(target),
            token_laws::at(c, text, pointer_operand(kind, target).len() as int + 1),
        ),
{
    let pointer = vstd::utf8::encode_utf8("ptr"@);
    let name = seq![0x40u8] + vstd::utf8::encode_utf8(target);
    let feed = seq![0x0au8] + text;
    let r4 = seq![0x20u8] + (name + feed);
    let r3 = seq![0x20u8] + (pointer + r4);
    let r2 = seq![0x2cu8] + r3;
    let none = Seq::<u8>::empty();
    operands_are_joined(kind, target, feed);
    pointers_are_plain();
    plain_names_are_symbols(target, (c.offset + kind.len() + 4 + pointer.len()) as u64);
    assert(c.rest == seq![0x20u8] + (kind + r2));
    token_laws::written_tokens_are_read(c, seq![0x20u8], kind, r2, false);
    let c1 = token_laws::at(c, r2, 1 + kind.len() as int);
    let first = Word { bytes: kind, offset: (c.offset + 1) as u64 };
    single_bytes_open_nothing(c1, first);
    assert(c1.rest =~= none + (seq![0x2cu8] + r3));
    token_laws::written_tokens_are_read(c1, none, seq![0x2cu8], r3, false);
    let c2 = token_laws::at(c1, r3, 1);
    assert(header::alias_type(c1) == token_laws::given((), c2));
    token_laws::written_tokens_are_read(c2, seq![0x20u8], pointer, r4, false);
    let c3 = token_laws::at(c2, r4, 1 + pointer.len() as int);
    token_laws::written_tokens_are_read(c3, seq![0x20u8], name, feed, false);
    let c4 = token_laws::at(c3, feed, 1 + name.len() as int);
    let operand = Word { bytes: name, offset: (c3.offset + 1) as u64 };
    assert(name[0] == 0x40);
    assert(header::alias_operand(c2) == token_laws::given((operand, true), c4));
    assert(header::alias_value(c4, operand, true) == token_laws::given(Some(target), c4));
    line_ends_stop(c4, text);
    assert(kind != seq![0x2cu8]);
}

/// A line that starts with a global name, an equals sign and any of the keywords, and continues
/// with `alias` and a pointer to another global, adds one definition: the direct alias of that
/// global. It spans the whole line.
#[verifier::spinoff_prover]
#[verifier::rlimit(60)]
pub proof fn aliases_add_their_definition(
    name: Seq<char>,
    words: Seq<Seq<char>>,
    word: Seq<char>,
    kind: Seq<u8>,
    target: Seq<char>,
    text: Seq<u8>,
    ending: Option<SourceError>,
    offset: u64,
    found: Seq<Definition>,
)
    requires
        plain_name(name),
        plain_name(target),
        line_laws::all_keywords(words),
        word == "alias"@ || word == "ifunc"@,
        token_laws::bare_token(kind),
        token_laws::name_byte(kind[0]),
        line_laws::opening(vstd::utf8::encode_utf8(name), words).len() + 7 + pointer_operand(
            kind,
            target,
        ).len() <= 1048576,
        offset + line_laws::opening(vstd::utf8::encode_utf8(name), words).len() + 7
            + pointer_operand(kind, target).len() <= u64::MAX,
    ensures
        ({
            let line = line_laws::opening(vstd::utf8::encode_utf8(name), words) + (seq![0x20u8] + (
            vstd::utf8::encode_utf8(word) + (pointer_operand(kind, target) + seq![0x0au8])));
            let made = Definition {
                symbol: name,
                start: offset,
                end: (offset + line.len()) as u64,
                kind: if word == "alias"@ {
                    DefinitionKind::DirectAlias(target)
                } else {
                    DefinitionKind::Ifunc
                },
            };
            scanner::definitions(line_laws::outside(line + text, ending, offset), found)
                == scanner::definitions(
                line_laws::outside(text, ending, (offset + line.len()) as u64),
                found.push(made),
            )
        }),
{
    let start = line_laws::opening(vstd::utf8::encode_utf8(name), words);
    let operand = pointer_operand(kind, target);
    let bytes = vstd::utf8::encode_utf8(word);
    let line = start + (seq![0x20u8] + (bytes + (operand + seq![0x0au8])));
    line_laws::alias_words(word);
    alias_lines_are_joined(start, bytes, operand, text);
    let c = line_laws::outside(line + text, ending, offset);
    alias_items(c, name, words, word, kind, target, text);
    let end = line_laws::outside(text, ending, (offset + line.len()) as u64);
    assert(token_laws::at(c, text, start.len() as int + 2 + bytes.len() as int + operand.len() as int)
        == end);
    let made = Definition {
        symbol: name,
        start: offset,
        end: (offset + line.len()) as u64,
        kind: if word == "alias"@ {
            DefinitionKind::DirectAlias(target)
        } else {
            DefinitionKind::Ifunc
        },
    };
    line_laws::defining_items_add_theirs(c, made, end, found);
}

/// The parts of an alias line, in the order in which they are read.
pub proof fn alias_lines_are_joined(
    start: Seq<u8>,
    word: Seq<u8>,
    operand: Seq<u8>,
    text: Seq<u8>,
)
    ensures
        start + (seq![0x20u8] + (word + (operand + seq![0x0au8]))) + text == start + (seq![0x20u8] + (
        word + (operand + (seq![0x0au8] + text)))),
        (start + (seq![0x20u8] + (word + (operand + seq![0x0au8])))).len() == start.len() + 2
            + word.len() + operand.len(),
{
    assert(start + (seq![0x20u8] + (word + (operand + seq![0x0au8]))) + text =~= start + (seq![
        0x20u8,
    ] + (word + (operand + (seq![0x0au8] + text)))));
}

#[verifier::spinoff_prover]
#[verifier::rlimit(60)]
proof fn alias_items(
    c: Cursor,
    name: Seq<char>,
    words: Seq<Seq<char>>,
    word: Seq<char>,
    kind: Seq<u8>,
    target: Seq<char>,
    text: Seq<u8>,
)
    requires
        c.header is None,
        c.rest == line_laws::opening(vstd::utf8::encode_utf8(name), words) + (seq![0x20u8] + (
        vstd::utf8::encode_utf8(word) + (pointer_operand(kind, target) + (seq![0x0au8] + text)))),
        plain_name(name),
        plain_name(target),
        line_laws::all_keywords(words),
        word == "alias"@ || word == "ifunc"@,
        token_laws::bare_token(kind),
        token_laws::name_byte(kind[0]),
        line_laws::opening(vstd::utf8::encode_utf8(name), words).len() + 7 + pointer_operand(
            kind,
            target,
        ).len() <= 1048576,
        c.offset + line_laws::opening(vstd::utf8::encode_utf8(name), words).len() + 7
            + pointer_operand(kind, target).len() <= u64::MAX,
    ensures
        ({
            let end = token_laws::at(
                c,
                text,
                line_laws::opening(vstd::utf8::encode_utf8(name), words).len() as int + 2
                    + vstd::utf8::encode_utf8(word).len() as int + pointer_operand(
                    kind,
                    target,
                ).len() as int,
            );
            scanner::item(c) == token_laws::given(
                Some(
                    Definition {
                        symbol: name,
                        start: c.offset,
                        end: end.offset,
                        kind: if word == "alias"@ {
                            DefinitionKind::DirectAlias(target)
                        } else {
                            DefinitionKind::Ifunc
                        },
                    },
                ),
                end,
            )
        }),
{
    let bytes = vstd::utf8::encode_utf8(name);
    let opened = line_laws::opening(bytes, words);
    let operand = pointer_operand(kind, target);
    let tail = operand + (seq![0x0au8] + text);
    let letters = vstd::utf8::encode_utf8(word);
    let rest = seq![0x20u8] + (letters + tail);
    plain_names_are_symbols(name, c.offset);
    line_laws::alias_words(word);
    line_laws::openings_are_joined(bytes, words, rest);
    line_laws::openings_are_passed(c, bytes, words, rest);
    let start = c.with_header(Some(c.offset));
    let before = token_laws::at(start, rest, opened.len() as int);
    let end = token_laws::at(
        c,
        text,
        opened.len() as int + 2 + letters.len() as int + operand.len() as int,
    );
    let made = if word == "alias"@ {
        DefinitionKind::DirectAlias(target)
    } else {
        DefinitionKind::Ifunc
    };
    alias_kinds(before, word, kind, target, text);
    assert(token_laws::at(
        before.with_header(None),
        text,
        2 + letters.len() as int + operand.len() as int,
    ) == end);
    assert(c.rest[0] == 0x40);
    line_laws::globals_are_items(
        c,
        Word { bytes: seq![0x40u8] + bytes, offset: c.offset },
        token_laws::at(
            start,
            seq![0x20u8, 0x3du8] + (line_laws::spelled(words) + rest),
            1 + bytes.len() as int,
        ),
        token_laws::at(start, line_laws::spelled(words) + rest, 3 + bytes.len() as int),
        Some(made),
        end,
    );
}

proof fn alias_kinds(
    before: Cursor,
    word: Seq<char>,
    kind: Seq<u8>,
    target: Seq<char>,
    text: Seq<u8>,
)
    requires
        before.rest == seq![0x20u8] + (vstd::utf8::encode_utf8(word) + (pointer_operand(
            kind,
            target,
        ) + (seq![0x0au8] + text))),
        plain_name(target),
        word == "alias"@ || word == "ifunc"@,
        token_laws::bare_token(kind),
        token_laws::name_byte(kind[0]),
        token_laws::room(before, 7 + pointer_operand(kind, target).len() as int),
    ensures
        scanner::global(before) == token_laws::given(
            Some(
                if word == "alias"@ {
                    DefinitionKind::DirectAlias(target)
                } else {
                    DefinitionKind::Ifunc
                },
            ),
            token_laws::at(
                before.with_header(None),
                text,
                2 + vstd::utf8::encode_utf8(word).len() as int + pointer_operand(
                    kind,
                    target,
                ).len() as int,
            ),
        ),
{
    let letters = vstd::utf8::encode_utf8(word);
    let operand = pointer_operand(kind, target);
    let tail = operand + (seq![0x0au8] + text);
    line_laws::alias_words(word);
    assert(tail[0] == 0x20) by {
        operands_are_joined(kind, target, seq![0x0au8] + text);
    }
    token_laws::written_tokens_are_read(before, seq![0x20u8], letters, tail, false);
    let after = token_laws::at(before, tail, 1 + letters.len() as int);
    pointer_operands_are_read(after, kind, target, text);
    let end = token_laws::at(after, text, operand.len() as int + 1);
    assert(end.with_header(None) == token_laws::at(
        before.with_header(None),
        text,
        2 + letters.len() as int + operand.len() as int,
    ));
}

} // verus!

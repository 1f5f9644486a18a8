//! What may stand between the words of an item, and what may not.

use super::body_laws;
use super::error::{Fault, IndexError};
use super::function_laws;
use super::header;
use super::model;
use super::model::{Cursor, Step, Word};
use super::scanner;
use super::token_laws;
use crate::records::DefinitionKind;
use vstd::prelude::*;

verus! {

/// A comment before a token is passed through the end of its line.
pub proof fn comments_stand_between_tokens(c: Cursor, content: Seq<u8>, rest: Seq<u8>)
    requires
        body_laws::one_line(content),
        c.rest == (seq![0x3bu8] + content) + (seq![0x0au8] + rest),
        token_laws::room(c, content.len() as int + 2),
    ensures
        model::required(c) == model::required(
            token_laws::at(c, rest, content.len() as int + 2),
        ),
        model::token(c, true) == token_laws::given(
            None::<Word>,
            token_laws::at(c, rest, content.len() as int + 2),
        ),
{
    let line = seq![0x3bu8] + content;
    assert forall|i: int| 0 <= i < line.len() implies #[trigger] line[i] != 0x0a by {
        if i > 0 {
            assert(line[i] == content[i - 1]);
        }
    }
    assert(c.rest =~= line + seq![0x0au8] + rest);
    token_laws::written_lines_are_passed(c, line, rest);
    assert(c.rest[0] == 0x3b);
    let end = token_laws::at(c, rest, content.len() as int + 2);
    assert(model::line(c) == token_laws::given((), end));
    assert(model::gap(c, false) == model::gap(end, false));
    assert(model::gap(c, true) == token_laws::given(true, end));
}

/// Blanks, tabs, feeds and returns before a token are passed. A line feed ends a line where that
/// matters.
pub proof fn white_space_stands_between_tokens(c: Cursor)
    requires
        c.rest.len() > 0,
        c.rest[0] == 0x20 || c.rest[0] == 0x09 || c.rest[0] == 0x0a || c.rest[0] == 0x0c
            || c.rest[0] == 0x0d,
        token_laws::room(c, 1),
    ensures
        model::required(c) == model::required(c.next()),
        c.rest[0] == 0x0a ==> model::token(c, true) == token_laws::given(None::<Word>, c.next()),
        c.rest[0] != 0x0a ==> model::token(c, true) == model::token(c.next(), true),
{
    assert(model::take(c) == token_laws::given(Some(c.rest[0]), c.next()));
    assert(model::gap(c, false) == model::gap(c.next(), false));
    if c.rest[0] == 0x0a {
        assert(model::gap(c, true) == token_laws::given(true, c.next()));
    } else {
        assert(model::gap(c, true) == model::gap(c.next(), true));
    }
}

#[verifier::opaque]
spec fn global_at(c: Cursor) -> Step<Option<DefinitionKind>> {
    scanner::global(c)
}

#[verifier::opaque]
spec fn tail_at(c: Cursor) -> Step<()> {
    header::function_tail(c)
}

proof fn the_words_are_written()
    ensures
        token_laws::bare_token(vstd::utf8::encode_utf8("addrspace"@)),
        vstd::utf8::encode_utf8("addrspace"@).len() == 9,
        vstd::utf8::encode_utf8("addrspace"@)[0] == 0x61,
        vstd::utf8::encode_utf8("addrspace"@)[4] == 0x73,
{
    reveal_strlit("addrspace");
    assert("addrspace"@ =~= seq!['a', 'd', 'd', 'r', 's', 'p', 'a', 'c', 'e']);
    token_laws::ascii_is_written_as_it_is("addrspace"@);
    let word = vstd::utf8::encode_utf8("addrspace"@);
    assert forall|i: int| 0 <= i < word.skip(1).len() implies token_laws::name_byte(
        #[trigger] word.skip(1)[i],
    ) by {
        assert(word.skip(1)[i] == "addrspace"@[i + 1] as u8);
    }
}

proof fn address_spaces_are_no_other_words()
    ensures
        vstd::utf8::encode_utf8("addrspace"@) != vstd::utf8::encode_utf8("global"@),
        vstd::utf8::encode_utf8("addrspace"@) != vstd::utf8::encode_utf8("constant"@),
        vstd::utf8::encode_utf8("addrspace"@) != vstd::utf8::encode_utf8("alias"@),
        vstd::utf8::encode_utf8("addrspace"@) != vstd::utf8::encode_utf8("ifunc"@),
        vstd::utf8::encode_utf8("addrspace"@) != vstd::utf8::encode_utf8("appending"@),
        vstd::utf8::encode_utf8("addrspace"@) != vstd::utf8::encode_utf8("protected"@),
        vstd::utf8::encode_utf8("addrspace"@) != vstd::utf8::encode_utf8("dso_local"@),
        vstd::utf8::encode_utf8("addrspace"@) != vstd::utf8::encode_utf8("dllimport"@),
        vstd::utf8::encode_utf8("addrspace"@) != vstd::utf8::encode_utf8("dllexport"@),
        !scanner::global_modifier(vstd::utf8::encode_utf8("addrspace"@)),
{
    reveal_strlit("addrspace");
    decoded("addrspace"@);
    reveal_strlit("global");
    decoded("global"@);
    reveal_strlit("constant");
    decoded("constant"@);
    reveal_strlit("alias");
    decoded("alias"@);
    reveal_strlit("ifunc");
    decoded("ifunc"@);
    reveal_strlit("private");
    decoded("private"@);
    reveal_strlit("internal");
    decoded("internal"@);
    reveal_strlit("available_externally");
    decoded("available_externally"@);
    reveal_strlit("linkonce");
    decoded("linkonce"@);
    reveal_strlit("weak");
    decoded("weak"@);
    reveal_strlit("common");
    decoded("common"@);
    reveal_strlit("appending");
    decoded("appending"@);
    reveal_strlit("extern_weak");
    decoded("extern_weak"@);
    reveal_strlit("linkonce_odr");
    decoded("linkonce_odr"@);
    reveal_strlit("weak_odr");
    decoded("weak_odr"@);
    reveal_strlit("external");
    decoded("external"@);
    reveal_strlit("dso_local");
    decoded("dso_local"@);
    reveal_strlit("dso_preemptable");
    decoded("dso_preemptable"@);
    reveal_strlit("default");
    decoded("default"@);
    reveal_strlit("hidden");
    decoded("hidden"@);
    reveal_strlit("protected");
    decoded("protected"@);
    reveal_strlit("dllimport");
    decoded("dllimport"@);
    reveal_strlit("dllexport");
    decoded("dllexport"@);
    reveal_strlit("unnamed_addr");
    decoded("unnamed_addr"@);
    reveal_strlit("local_unnamed_addr");
    decoded("local_unnamed_addr"@);
    reveal_strlit("externally_initialized");
    decoded("externally_initialized"@);
    reveal_strlit("thread_local");
    decoded("thread_local"@);
    assert("addrspace"@[1] == 'd' && "addrspace"@[2] == 'd');
    assert("appending"@[1] == 'p' && "protected"@[0] == 'p' && "dso_local"@[0] == 'd');
    assert("dllimport"@[0] == 'd' && "dllexport"@[0] == 'd');
}

proof fn decoded(text: Seq<char>)
    ensures
        vstd::utf8::decode_utf8(vstd::utf8::encode_utf8(text)) == text,
{
    vstd::utf8::encode_utf8_decode_utf8(text);
}

proof fn address_words_are_passed(c: Cursor, list: Seq<u8>, end: Cursor)
    requires
        c.rest == seq![0x20u8] + (vstd::utf8::encode_utf8("addrspace"@) + list),
        list.len() > 0,
        list[0] == 0x28,
        token_laws::room(c, 10),
        header::parenthesised(token_laws::at(c, list, 10)) == token_laws::given((), end),
    ensures
        global_at(c) == global_at(end),
{
    reveal(global_at);
    the_words_are_written();
    address_spaces_are_no_other_words();
    let word = vstd::utf8::encode_utf8("addrspace"@);
    token_laws::written_tokens_are_read(c, seq![0x20u8], word, list, false);
}

/// An address space before the kind of a global is passed with its list.
pub proof fn address_spaces_are_passed(c: Cursor, tokens: Seq<Seq<u8>>, rest: Seq<u8>)
    requires
        forall|i: int|
            0 <= i < tokens.len() ==> function_laws::parameter_token(#[trigger] tokens[i]),
        c.rest == seq![0x20u8] + (vstd::utf8::encode_utf8("addrspace"@) + (seq![0x28u8] + (
        function_laws::spaced(tokens) + (seq![0x29u8] + rest)))),
        rest.len() > 0,
        token_laws::room(c, 12 + function_laws::spaced(tokens).len() as int),
    ensures
        scanner::global(c) == scanner::global(
            token_laws::at(c, rest, 12 + function_laws::spaced(tokens).len() as int),
        ),
{
    let list = seq![0x28u8] + (function_laws::spaced(tokens) + (seq![0x29u8] + rest));
    let after = token_laws::at(c, list, 10);
    function_laws::parameter_lists_are_read(after, tokens, rest);
    let end = token_laws::at(after, rest, 2 + function_laws::spaced(tokens).len() as int);
    assert(end == token_laws::at(c, rest, 12 + function_laws::spaced(tokens).len() as int));
    address_words_are_passed(c, list, end);
    reveal(global_at);
}

proof fn parentheses_are_groups(c: Cursor, end: Cursor)
    requires
        c.rest.len() > 1,
        c.rest[0] == 0x28,
        token_laws::room(c, 1),
        header::parenthesised(c) == token_laws::given((), end),
    ensures
        global_at(c) == global_at(end),
        tail_at(c) == tail_at(end),
{
    reveal(global_at);
    reveal(tail_at);
    the_words_are_written();
    let none = Seq::<u8>::empty();
    let rest = c.rest.skip(1);
    assert(c.rest =~= none + (seq![0x28u8] + rest));
    token_laws::written_tokens_are_read(c, none, seq![0x28u8], rest, false);
    parentheses_are_no_words();
}

proof fn parentheses_are_no_words()
    ensures
        !scanner::global_modifier(seq![0x28u8]),
        seq![0x28u8] != vstd::utf8::encode_utf8("global"@),
        seq![0x28u8] != vstd::utf8::encode_utf8("constant"@),
        seq![0x28u8] != vstd::utf8::encode_utf8("alias"@),
        seq![0x28u8] != vstd::utf8::encode_utf8("ifunc"@),
        seq![0x28u8] != vstd::utf8::encode_utf8("addrspace"@),
        seq![0x28u8] != vstd::utf8::encode_utf8("prefix"@),
        seq![0x28u8] != vstd::utf8::encode_utf8("prologue"@),
        seq![0x28u8] != vstd::utf8::encode_utf8("personality"@),
        seq![0x28u8] != vstd::utf8::encode_utf8("define"@),
        seq![0x28u8] != vstd::utf8::encode_utf8("declare"@),
{
    let mark = seq!['('];
    assert(vstd::utf8::is_ascii_chars(mark));
    token_laws::ascii_is_written_as_it_is(mark);
    assert(vstd::utf8::encode_utf8(mark) =~= seq![0x28u8]);
    decoded(mark);
    reveal_strlit("private");
    decoded("private"@);
    reveal_strlit("internal");
    decoded("internal"@);
    reveal_strlit("available_externally");
    decoded("available_externally"@);
    reveal_strlit("linkonce");
    decoded("linkonce"@);
    reveal_strlit("weak");
    decoded("weak"@);
    reveal_strlit("common");
    decoded("common"@);
    reveal_strlit("appending");
    decoded("appending"@);
    reveal_strlit("extern_weak");
    decoded("extern_weak"@);
    reveal_strlit("linkonce_odr");
    decoded("linkonce_odr"@);
    reveal_strlit("weak_odr");
    decoded("weak_odr"@);
    reveal_strlit("external");
    decoded("external"@);
    reveal_strlit("dso_local");
    decoded("dso_local"@);
    reveal_strlit("dso_preemptable");
    decoded("dso_preemptable"@);
    reveal_strlit("default");
    decoded("default"@);
    reveal_strlit("hidden");
    decoded("hidden"@);
    reveal_strlit("protected");
    decoded("protected"@);
    reveal_strlit("dllimport");
    decoded("dllimport"@);
    reveal_strlit("dllexport");
    decoded("dllexport"@);
    reveal_strlit("unnamed_addr");
    decoded("unnamed_addr"@);
    reveal_strlit("local_unnamed_addr");
    decoded("local_unnamed_addr"@);
    reveal_strlit("externally_initialized");
    decoded("externally_initialized"@);
    reveal_strlit("thread_local");
    decoded("thread_local"@);
    reveal_strlit("global");
    decoded("global"@);
    reveal_strlit("constant");
    decoded("constant"@);
    reveal_strlit("alias");
    decoded("alias"@);
    reveal_strlit("ifunc");
    decoded("ifunc"@);
    reveal_strlit("addrspace");
    decoded("addrspace"@);
    reveal_strlit("prefix");
    decoded("prefix"@);
    reveal_strlit("prologue");
    decoded("prologue"@);
    reveal_strlit("personality");
    decoded("personality"@);
    reveal_strlit("define");
    decoded("define"@);
    reveal_strlit("declare");
    decoded("declare"@);
}

/// A parenthesised list before the kind of a global, such as a thread-local model, is passed. So is
/// one behind the parameters of a function.
pub proof fn lists_are_passed(c: Cursor, tokens: Seq<Seq<u8>>, rest: Seq<u8>)
    requires
        forall|i: int|
            0 <= i < tokens.len() ==> function_laws::parameter_token(#[trigger] tokens[i]),
        c.rest == seq![0x28u8] + (function_laws::spaced(tokens) + (seq![0x29u8] + rest)),
        rest.len() > 0,
        token_laws::room(c, 2 + function_laws::spaced(tokens).len() as int),
    ensures
        ({
            let end = token_laws::at(c, rest, 2 + function_laws::spaced(tokens).len() as int);
            &&& scanner::global(c) == scanner::global(end)
            &&& header::function_tail(c) == header::function_tail(end)
        }),
{
    function_laws::parameter_lists_are_read(c, tokens, rest);
    let end = token_laws::at(c, rest, 2 + function_laws::spaced(tokens).len() as int);
    parentheses_are_groups(c, end);
    reveal(global_at);
    reveal(tail_at);
}

/// A header that takes more than a MiB is refused at the byte behind it.
pub proof fn long_headers_are_refused(c: Cursor)
    requires
        c.rest.len() > 0,
        c.header matches Some(start) && c.offset == start + 1048576,
    ensures
        model::take(c) == Err::<(Option<u8>, Cursor), IndexError>(
            IndexError::Malformed { offset: c.offset, fault: Fault::HeaderBudget },
        ),
{
}

/// A group ends with the delimiter that closes it. Another closing delimiter is refused where it
/// stands.
pub proof fn delimiters_are_paired(c: Cursor, open: Seq<u8>, byte: u8, rest: Seq<u8>)
    requires
        open.len() > 0,
        byte == 0x29 || byte == 0x5d || byte == 0x7d || byte == 0x3e,
        c.rest == seq![byte] + rest,
        rest.len() > 0,
        token_laws::room(c, 1),
    ensures
        byte == open.last() ==> model::group(c, open) == model::group(
            token_laws::at(c, rest, 1),
            open.drop_last(),
        ),
        byte != open.last() ==> model::group(c, open) == Err::<((), Cursor), IndexError>(
            IndexError::Malformed { offset: c.offset, fault: Fault::MismatchedDelimiter },
        ),
{
    let none = Seq::<u8>::empty();
    assert(c.rest =~= none + (seq![byte] + rest));
    token_laws::written_tokens_are_read(c, none, seq![byte], rest, false);
}

/// An opening delimiter inside a group opens a group of its own, which its own closing delimiter
/// ends.
pub proof fn groups_nest(c: Cursor, open: Seq<u8>, byte: u8, rest: Seq<u8>)
    requires
        open.len() > 0,
        byte == 0x28 || byte == 0x5b || byte == 0x7b || byte == 0x3c,
        c.rest == seq![byte] + rest,
        rest.len() > 0,
        token_laws::room(c, 1),
    ensures
        model::group(c, open) == model::group(
            token_laws::at(c, rest, 1),
            open.push(
                if byte == 0x28 {
                    0x29u8
                } else if byte == 0x5b {
                    0x5du8
                } else if byte == 0x7b {
                    0x7du8
                } else {
                    0x3eu8
                },
            ),
        ),
{
    let none = Seq::<u8>::empty();
    assert(c.rest =~= none + (seq![byte] + rest));
    token_laws::written_tokens_are_read(c, none, seq![byte], rest, false);
}

/// A header without a name is refused where another item starts, and a header without a body too.
pub proof fn headers_end_before_other_items(c: Cursor, word: Seq<char>, rest: Seq<u8>)
    requires
        word == "define"@ || word == "declare"@,
        c.rest == seq![0x20u8] + (vstd::utf8::encode_utf8(word) + rest),
        rest.len() > 0,
        rest[0] == 0x20,
        token_laws::room(c, 1 + vstd::utf8::encode_utf8(word).len() as int),
    ensures
        header::function_name(c) == Err::<(Seq<char>, Cursor), IndexError>(
            IndexError::Malformed {
                offset: (c.offset + 1) as u64,
                fault: Fault::NoFunctionName,
            },
        ),
        header::function_tail(c) == Err::<((), Cursor), IndexError>(
            IndexError::Malformed {
                offset: (c.offset + 1) as u64,
                fault: Fault::NoFunctionBody,
            },
        ),
{
    let letters = vstd::utf8::encode_utf8(word);
    items_are_written(word);
    token_laws::written_tokens_are_read(c, seq![0x20u8], letters, rest, false);
}

proof fn items_are_written(word: Seq<char>)
    requires
        word == "define"@ || word == "declare"@,
    ensures
        token_laws::bare_token(vstd::utf8::encode_utf8(word)),
        vstd::utf8::encode_utf8(word).len() > 1,
        vstd::utf8::encode_utf8(word)[0] == 0x64,
        vstd::utf8::encode_utf8(word) != vstd::utf8::encode_utf8("prefix"@),
        vstd::utf8::encode_utf8(word) != vstd::utf8::encode_utf8("prologue"@),
        vstd::utf8::encode_utf8(word) != vstd::utf8::encode_utf8("personality"@),
{
    reveal_strlit("define");
    reveal_strlit("declare");
    reveal_strlit("prefix");
    reveal_strlit("prologue");
    reveal_strlit("personality");
    assert("define"@ =~= seq!['d', 'e', 'f', 'i', 'n', 'e']);
    assert("declare"@ =~= seq!['d', 'e', 'c', 'l', 'a', 'r', 'e']);
    assert("prefix"@[0] == 'p' && "prologue"@[0] == 'p' && "personality"@[0] == 'p');
    decoded("prefix"@);
    decoded("prologue"@);
    decoded("personality"@);
    decoded(word);
    token_laws::ascii_is_written_as_it_is(word);
    let letters = vstd::utf8::encode_utf8(word);
    assert forall|i: int| 0 <= i < letters.skip(1).len() implies token_laws::name_byte(
        #[trigger] letters.skip(1)[i],
    ) by {
        assert(letters.skip(1)[i] == word[i + 1] as u8);
    }
}

} // verus!

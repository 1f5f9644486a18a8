//! What each kind of line adds to an index.

use super::error::{Fault, IndexError};
use super::model;
use super::model::{Cursor, Word};
use super::scanner;
use super::symbol;
use super::token_laws;
use crate::records::{Definition, DefinitionKind};
use crate::source::SourceError;
use vstd::prelude::*;

verus! {

/// The keywords that may stand between the equals sign and the kind of a global: its linkage,
/// preemption, visibility, storage class, address and thread-local model.
pub open spec fn keywords() -> Seq<Seq<char>> {
    seq![
        "private"@,
        "internal"@,
        "available_externally"@,
        "linkonce"@,
        "weak"@,
        "common"@,
        "appending"@,
        "extern_weak"@,
        "linkonce_odr"@,
        "weak_odr"@,
        "external"@,
        "dso_local"@,
        "dso_preemptable"@,
        "default"@,
        "hidden"@,
        "protected"@,
        "dllimport"@,
        "dllexport"@,
        "unnamed_addr"@,
        "local_unnamed_addr"@,
        "externally_initialized"@,
        "thread_local"@,
    ]
}

/// Lower-case letters and underscores.
spec fn plain(text: Seq<char>) -> bool {
    &&& text.len() > 0
    &&& forall|i: int| 0 <= i < text.len() ==> #[trigger] text[i] == '_' || 'a' <= text[i] <= 'z'
}

proof fn words_are_plain()
    ensures
        plain("private"@),
        plain("internal"@),
        plain("available_externally"@),
        plain("linkonce"@),
        plain("weak"@),
        plain("common"@),
        plain("appending"@),
        plain("extern_weak"@),
        plain("linkonce_odr"@),
        plain("weak_odr"@),
        plain("external"@),
        plain("dso_local"@),
        plain("dso_preemptable"@),
        plain("default"@),
        plain("hidden"@),
        plain("protected"@),
        plain("dllimport"@),
        plain("dllexport"@),
        plain("unnamed_addr"@),
        plain("local_unnamed_addr"@),
        plain("externally_initialized"@),
        plain("thread_local"@),
        plain("global"@),
        plain("constant"@),
        plain("alias"@),
        plain("ifunc"@),
        plain("define"@),
        plain("declare"@),
        plain("ptr"@),
        plain("addrspace"@),
{
    assert(plain("private"@)) by {
        reveal_strlit("private");
        assert("private"@ =~= seq!['p', 'r', 'i', 'v', 'a', 't', 'e']);
    }
    assert(plain("internal"@)) by {
        reveal_strlit("internal");
        assert("internal"@ =~= seq!['i', 'n', 't', 'e', 'r', 'n', 'a', 'l']);
    }
    assert(plain("available_externally"@)) by {
        reveal_strlit("available_externally");
        assert("available_externally"@ =~= seq!['a', 'v', 'a', 'i', 'l', 'a', 'b', 'l', 'e', '_', 'e', 'x', 't', 'e', 'r', 'n', 'a', 'l', 'l', 'y']);
    }
    assert(plain("linkonce"@)) by {
        reveal_strlit("linkonce");
        assert("linkonce"@ =~= seq!['l', 'i', 'n', 'k', 'o', 'n', 'c', 'e']);
    }
    assert(plain("weak"@)) by {
        reveal_strlit("weak");
        assert("weak"@ =~= seq!['w', 'e', 'a', 'k']);
    }
    assert(plain("common"@)) by {
        reveal_strlit("common");
        assert("common"@ =~= seq!['c', 'o', 'm', 'm', 'o', 'n']);
    }
    assert(plain("appending"@)) by {
        reveal_strlit("appending");
        assert("appending"@ =~= seq!['a', 'p', 'p', 'e', 'n', 'd', 'i', 'n', 'g']);
    }
    assert(plain("extern_weak"@)) by {
        reveal_strlit("extern_weak");
        assert("extern_weak"@ =~= seq!['e', 'x', 't', 'e', 'r', 'n', '_', 'w', 'e', 'a', 'k']);
    }
    assert(plain("linkonce_odr"@)) by {
        reveal_strlit("linkonce_odr");
        assert("linkonce_odr"@ =~= seq!['l', 'i', 'n', 'k', 'o', 'n', 'c', 'e', '_', 'o', 'd', 'r']);
    }
    assert(plain("weak_odr"@)) by {
        reveal_strlit("weak_odr");
        assert("weak_odr"@ =~= seq!['w', 'e', 'a', 'k', '_', 'o', 'd', 'r']);
    }
    assert(plain("external"@)) by {
        reveal_strlit("external");
        assert("external"@ =~= seq!['e', 'x', 't', 'e', 'r', 'n', 'a', 'l']);
    }
    assert(plain("dso_local"@)) by {
        reveal_strlit("dso_local");
        assert("dso_local"@ =~= seq!['d', 's', 'o', '_', 'l', 'o', 'c', 'a', 'l']);
    }
    assert(plain("dso_preemptable"@)) by {
        reveal_strlit("dso_preemptable");
        assert("dso_preemptable"@ =~= seq!['d', 's', 'o', '_', 'p', 'r', 'e', 'e', 'm', 'p', 't', 'a', 'b', 'l', 'e']);
    }
    assert(plain("default"@)) by {
        reveal_strlit("default");
        assert("default"@ =~= seq!['d', 'e', 'f', 'a', 'u', 'l', 't']);
    }
    assert(plain("hidden"@)) by {
        reveal_strlit("hidden");
        assert("hidden"@ =~= seq!['h', 'i', 'd', 'd', 'e', 'n']);
    }
    assert(plain("protected"@)) by {
        reveal_strlit("protected");
        assert("protected"@ =~= seq!['p', 'r', 'o', 't', 'e', 'c', 't', 'e', 'd']);
    }
    assert(plain("dllimport"@)) by {
        reveal_strlit("dllimport");
        assert("dllimport"@ =~= seq!['d', 'l', 'l', 'i', 'm', 'p', 'o', 'r', 't']);
    }
    assert(plain("dllexport"@)) by {
        reveal_strlit("dllexport");
        assert("dllexport"@ =~= seq!['d', 'l', 'l', 'e', 'x', 'p', 'o', 'r', 't']);
    }
    assert(plain("unnamed_addr"@)) by {
        reveal_strlit("unnamed_addr");
        assert("unnamed_addr"@ =~= seq!['u', 'n', 'n', 'a', 'm', 'e', 'd', '_', 'a', 'd', 'd', 'r']);
    }
    assert(plain("local_unnamed_addr"@)) by {
        reveal_strlit("local_unnamed_addr");
        assert("local_unnamed_addr"@ =~= seq!['l', 'o', 'c', 'a', 'l', '_', 'u', 'n', 'n', 'a', 'm', 'e', 'd', '_', 'a', 'd', 'd', 'r']);
    }
    assert(plain("externally_initialized"@)) by {
        reveal_strlit("externally_initialized");
        assert("externally_initialized"@ =~= seq!['e', 'x', 't', 'e', 'r', 'n', 'a', 'l', 'l', 'y', '_', 'i', 'n', 'i', 't', 'i', 'a', 'l', 'i', 'z', 'e', 'd']);
    }
    assert(plain("thread_local"@)) by {
        reveal_strlit("thread_local");
        assert("thread_local"@ =~= seq!['t', 'h', 'r', 'e', 'a', 'd', '_', 'l', 'o', 'c', 'a', 'l']);
    }
    assert(plain("global"@)) by {
        reveal_strlit("global");
        assert("global"@ =~= seq!['g', 'l', 'o', 'b', 'a', 'l']);
    }
    assert(plain("constant"@)) by {
        reveal_strlit("constant");
        assert("constant"@ =~= seq!['c', 'o', 'n', 's', 't', 'a', 'n', 't']);
    }
    assert(plain("alias"@)) by {
        reveal_strlit("alias");
        assert("alias"@ =~= seq!['a', 'l', 'i', 'a', 's']);
    }
    assert(plain("ifunc"@)) by {
        reveal_strlit("ifunc");
        assert("ifunc"@ =~= seq!['i', 'f', 'u', 'n', 'c']);
    }
    assert(plain("define"@)) by {
        reveal_strlit("define");
        assert("define"@ =~= seq!['d', 'e', 'f', 'i', 'n', 'e']);
    }
    assert(plain("declare"@)) by {
        reveal_strlit("declare");
        assert("declare"@ =~= seq!['d', 'e', 'c', 'l', 'a', 'r', 'e']);
    }
    assert(plain("ptr"@)) by {
        reveal_strlit("ptr");
        assert("ptr"@ =~= seq!['p', 't', 'r']);
    }
    assert(plain("addrspace"@)) by {
        reveal_strlit("addrspace");
        assert("addrspace"@ =~= seq!['a', 'd', 'd', 'r', 's', 'p', 'a', 'c', 'e']);
    }
}

proof fn plain_words_are_bare(text: Seq<char>)
    requires
        plain(text),
    ensures
        vstd::utf8::encode_utf8(text).len() == text.len(),
        vstd::utf8::encode_utf8(text)[0] == text[0] as u8,
        token_laws::bare_token(vstd::utf8::encode_utf8(text)),
        token_laws::name_run(vstd::utf8::encode_utf8(text)),
        vstd::utf8::decode_utf8(vstd::utf8::encode_utf8(text)) == text,
{
    token_laws::ascii_is_written_as_it_is(text);
    let word = vstd::utf8::encode_utf8(text);
    assert forall|i: int| 0 <= i < word.len() implies token_laws::name_byte(
        #[trigger] word[i],
    ) by {
        assert(word[i] == text[i] as u8);
    }
    assert forall|i: int| 0 <= i < word.skip(1).len() implies token_laws::name_byte(
        #[trigger] word.skip(1)[i],
    ) by {
        assert(word.skip(1)[i] == word[i + 1]);
    }
}

proof fn keywords_are_modifiers(text: Seq<char>)
    requires
        keywords().contains(text),
    ensures
        plain(text),
        scanner::global_modifier(vstd::utf8::encode_utf8(text)),
        text != "global"@,
        text != "constant"@,
        text != "alias"@,
        text != "ifunc"@,
{
    words_are_plain();
    let all = keywords();
    assert(all[0] == "private"@
        && all[1] == "internal"@
        && all[2] == "available_externally"@
        && all[3] == "linkonce"@
        && all[4] == "weak"@
        && all[5] == "common"@
        && all[6] == "appending"@
        && all[7] == "extern_weak"@
        && all[8] == "linkonce_odr"@
        && all[9] == "weak_odr"@
        && all[10] == "external"@
        && all[11] == "dso_local"@
        && all[12] == "dso_preemptable"@
        && all[13] == "default"@
        && all[14] == "hidden"@
        && all[15] == "protected"@
        && all[16] == "dllimport"@
        && all[17] == "dllexport"@
        && all[18] == "unnamed_addr"@
        && all[19] == "local_unnamed_addr"@
        && all[20] == "externally_initialized"@
        && all[21] == "thread_local"@);
    let i = choose|i: int| 0 <= i < all.len() && all[i] == text;
    assert(text == "private"@
        || text == "internal"@
        || text == "available_externally"@
        || text == "linkonce"@
        || text == "weak"@
        || text == "common"@
        || text == "appending"@
        || text == "extern_weak"@
        || text == "linkonce_odr"@
        || text == "weak_odr"@
        || text == "external"@
        || text == "dso_local"@
        || text == "dso_preemptable"@
        || text == "default"@
        || text == "hidden"@
        || text == "protected"@
        || text == "dllimport"@
        || text == "dllexport"@
        || text == "unnamed_addr"@
        || text == "local_unnamed_addr"@
        || text == "externally_initialized"@
        || text == "thread_local"@);
    reveal_strlit("private");
    reveal_strlit("internal");
    reveal_strlit("available_externally");
    reveal_strlit("linkonce");
    reveal_strlit("weak");
    reveal_strlit("common");
    reveal_strlit("appending");
    reveal_strlit("extern_weak");
    reveal_strlit("linkonce_odr");
    reveal_strlit("weak_odr");
    reveal_strlit("external");
    reveal_strlit("dso_local");
    reveal_strlit("dso_preemptable");
    reveal_strlit("default");
    reveal_strlit("hidden");
    reveal_strlit("protected");
    reveal_strlit("dllimport");
    reveal_strlit("dllexport");
    reveal_strlit("unnamed_addr");
    reveal_strlit("local_unnamed_addr");
    reveal_strlit("externally_initialized");
    reveal_strlit("thread_local");
    reveal_strlit("global");
    reveal_strlit("constant");
    reveal_strlit("alias");
    reveal_strlit("ifunc");
    reveal_strlit("addrspace");
}

proof fn written_words_differ(left: Seq<char>, right: Seq<char>)
    requires
        plain(left),
        plain(right),
        left != right,
    ensures
        vstd::utf8::encode_utf8(left) != vstd::utf8::encode_utf8(right),
{
    plain_words_are_bare(left);
    plain_words_are_bare(right);
}

/// The words for aliases and resolved functions are bare tokens and differ from each other and from
/// those for variables.
pub proof fn alias_words(word: Seq<char>)
    requires
        word == "alias"@ || word == "ifunc"@,
    ensures
        token_laws::bare_token(vstd::utf8::encode_utf8(word)),
        vstd::utf8::encode_utf8(word).len() == 5,
        "alias"@ != "ifunc"@,
        vstd::utf8::encode_utf8("alias"@) != vstd::utf8::encode_utf8("ifunc"@),
        vstd::utf8::encode_utf8(word) != vstd::utf8::encode_utf8("global"@),
        vstd::utf8::encode_utf8(word) != vstd::utf8::encode_utf8("constant"@),
{
    words_are_plain();
    plain_words_are_bare(word);
    reveal_strlit("alias");
    reveal_strlit("ifunc");
    reveal_strlit("global");
    reveal_strlit("constant");
    assert("alias"@[0] == 'a' && "ifunc"@[0] == 'i');
    written_words_differ("alias"@, "ifunc"@);
    written_words_differ(word, "global"@);
    written_words_differ(word, "constant"@);
}

proof fn keyword_tokens(text: Seq<char>)
    requires
        keywords().contains(text),
    ensures
        token_laws::bare_token(vstd::utf8::encode_utf8(text)),
        scanner::global_modifier(vstd::utf8::encode_utf8(text)),
        vstd::utf8::encode_utf8(text) != vstd::utf8::encode_utf8("global"@),
        vstd::utf8::encode_utf8(text) != vstd::utf8::encode_utf8("constant"@),
        vstd::utf8::encode_utf8(text) != vstd::utf8::encode_utf8("alias"@),
        vstd::utf8::encode_utf8(text) != vstd::utf8::encode_utf8("ifunc"@),
{
    keywords_are_modifiers(text);
    plain_words_are_bare(text);
    words_are_plain();
    written_words_differ(text, "global"@);
    written_words_differ(text, "constant"@);
    written_words_differ(text, "alias"@);
    written_words_differ(text, "ifunc"@);
}

#[verifier::opaque]
spec fn global_at(c: Cursor) -> model::Step<Option<DefinitionKind>> {
    scanner::global(c)
}

#[verifier::opaque]
spec fn is_keyword(text: Seq<char>) -> bool {
    keywords().contains(text)
}

proof fn one_keyword_is_passed(c: Cursor, text: Seq<char>, behind: Seq<u8>)
    requires
        is_keyword(text),
        c.rest == seq![0x20u8] + (vstd::utf8::encode_utf8(text) + behind),
        behind.len() > 0,
        behind[0] == 0x20,
        token_laws::room(c, 1 + vstd::utf8::encode_utf8(text).len() as int),
    ensures
        global_at(c) == global_at(
            token_laws::at(c, behind, 1 + vstd::utf8::encode_utf8(text).len() as int),
        ),
{
    reveal(global_at);
    reveal(is_keyword);
    keyword_tokens(text);
    let word = vstd::utf8::encode_utf8(text);
    token_laws::written_tokens_are_read(c, seq![0x20u8], word, behind, false);
}

/// Words, each behind a blank.
pub open spec fn spelled(words: Seq<Seq<char>>) -> Seq<u8>
    decreases words.len(),
{
    if words.len() == 0 {
        Seq::empty()
    } else {
        seq![0x20u8] + vstd::utf8::encode_utf8(words[0]) + spelled(words.skip(1))
    }
}

/// Every word is one of the keywords.
pub open spec fn all_keywords(words: Seq<Seq<char>>) -> bool {
    forall|i: int| 0 <= i < words.len() ==> keywords().contains(#[trigger] words[i])
}

#[verifier::spinoff_prover]
#[verifier::rlimit(40)]
proof fn keywords_are_passed(c: Cursor, words: Seq<Seq<char>>, rest: Seq<u8>)
    requires
        c.rest == spelled(words) + rest,
        rest.len() > 0,
        rest[0] == 0x20,
        forall|i: int| 0 <= i < words.len() ==> is_keyword(#[trigger] words[i]),
        token_laws::room(c, spelled(words).len() as int),
    ensures
        global_at(c) == global_at(token_laws::at(c, rest, spelled(words).len() as int)),
    decreases words.len(),
{
    if words.len() == 0 {
        assert(c.rest =~= rest);
    } else {
        let text = words[0];
        let word = vstd::utf8::encode_utf8(text);
        let tail = words.skip(1);
        let behind = spelled(tail) + rest;
        assert(behind[0] == 0x20) by {
            if tail.len() == 0 {
                assert(behind =~= rest);
            }
        }
        assert(is_keyword(words[0]));
        assert(c.rest =~= seq![0x20u8] + (word + behind));
        one_keyword_is_passed(c, text, behind);
        let after = token_laws::at(c, behind, 1 + word.len() as int);
        assert forall|i: int| 0 <= i < tail.len() implies is_keyword(
            #[trigger] tail[i],
        ) by {
            assert(tail[i] == words[i + 1]);
        }
        keywords_are_passed(after, tail, rest);
        assert(token_laws::at(after, rest, spelled(tail).len() as int) == token_laws::at(
            c,
            rest,
            spelled(words).len() as int,
        ));
    }
}

/// The start of a line that defines a global: its sigil, its name, an equals sign and its keywords.
pub open spec fn opening(name: Seq<u8>, words: Seq<Seq<char>>) -> Seq<u8> {
    seq![0x40u8] + name + seq![0x20u8, 0x3du8] + spelled(words)
}

/// A cursor outside all headers.
pub open spec fn outside(rest: Seq<u8>, ending: Option<SourceError>, offset: u64) -> Cursor {
    Cursor { rest, ending, offset, header: None }
}

proof fn names_are_passed(start: Cursor, name: Seq<u8>, behind: Seq<u8>)
    requires
        start.rest == seq![0x40u8] + name + (seq![0x20u8, 0x3du8] + behind),
        token_laws::name_run(name),
        behind.len() > 0,
        token_laws::room(start, 3 + name.len() as int),
    ensures
        ({
            let named = token_laws::at(
                start,
                seq![0x20u8, 0x3du8] + behind,
                1 + name.len() as int,
            );
            &&& model::required(start) == token_laws::given(
                Word { bytes: seq![0x40u8] + name, offset: start.offset },
                named,
            )
            &&& model::expected(named, 0x3d, Fault::NotEquals) == token_laws::given(
                (),
                token_laws::at(start, behind, 3 + name.len() as int),
            )
        }),
{
    let sign = seq![0x40u8] + name;
    let equals = seq![0x20u8, 0x3du8] + behind;
    let none = Seq::<u8>::empty();
    assert(start.rest =~= none + (sign + equals));
    assert(sign.skip(1) =~= name);
    token_laws::written_tokens_are_read(start, none, sign, equals, false);
    let named = token_laws::at(start, equals, 1 + name.len() as int);
    assert(named.rest =~= seq![0x20u8] + (seq![0x3du8] + behind));
    token_laws::written_tokens_are_read(named, seq![0x20u8], seq![0x3du8], behind, false);
}

/// The parts of an opening, in the order in which they are read.
pub proof fn openings_are_joined(name: Seq<u8>, words: Seq<Seq<char>>, rest: Seq<u8>)
    ensures
        opening(name, words) + rest == seq![0x40u8] + name + (seq![0x20u8, 0x3du8] + (spelled(words)
            + rest)),
        opening(name, words).len() == 3 + name.len() + spelled(words).len(),
{
    let keys = spelled(words);
    assert(seq![0x40u8] + name + seq![0x20u8, 0x3du8] + keys + rest =~= seq![0x40u8] + name + (seq![
        0x20u8,
        0x3du8,
    ] + (keys + rest)));
}

/// The opening of a global line leads to its kind.
pub proof fn openings_are_passed(c: Cursor, name: Seq<u8>, words: Seq<Seq<char>>, rest: Seq<u8>)
    requires
        c.header is None,
        c.rest == opening(name, words) + rest,
        token_laws::name_run(name),
        all_keywords(words),
        rest.len() > 0,
        rest[0] == 0x20,
        opening(name, words).len() <= 1048576,
        c.offset + opening(name, words).len() <= u64::MAX,
    ensures
        ({
            let start = c.with_header(Some(c.offset));
            let named = token_laws::at(
                start,
                seq![0x20u8, 0x3du8] + (spelled(words) + rest),
                1 + name.len() as int,
            );
            let assigned = token_laws::at(start, spelled(words) + rest, 3 + name.len() as int);
            let kind = token_laws::at(start, rest, opening(name, words).len() as int);
            &&& model::required(start) == token_laws::given(
                Word { bytes: seq![0x40u8] + name, offset: c.offset },
                named,
            )
            &&& model::expected(named, 0x3d, Fault::NotEquals) == token_laws::given((), assigned)
            &&& scanner::global(assigned) == scanner::global(kind)
        }),
{
    let start = c.with_header(Some(c.offset));
    let behind = spelled(words) + rest;
    openings_are_joined(name, words, rest);
    names_are_passed(start, name, behind);
    let assigned = token_laws::at(start, behind, 3 + name.len() as int);
    assert forall|i: int| 0 <= i < words.len() implies is_keyword(#[trigger] words[i]) by {
        reveal(is_keyword);
    }
    keywords_are_passed(assigned, words, rest);
    reveal(global_at);
    assert(token_laws::at(assigned, rest, spelled(words).len() as int) == token_laws::at(
        start,
        rest,
        opening(name, words).len() as int,
    ));
}

/// A line that starts with a global name makes what its kind says.
pub proof fn globals_are_items(
    c: Cursor,
    word: Word,
    named: Cursor,
    assigned: Cursor,
    kind: Option<DefinitionKind>,
    end: Cursor,
)
    requires
        c.rest.len() > 0,
        c.rest[0] == 0x40,
        model::required(c.with_header(Some(c.offset))) == token_laws::given(word, named),
        model::expected(named, 0x3d, Fault::NotEquals) == token_laws::given((), assigned),
        scanner::global(assigned) == token_laws::given(kind, end),
    ensures
        kind is None ==> scanner::item(c) == token_laws::given(None::<Definition>, end),
        kind matches Some(kind) ==> scanner::item(c) == (match symbol::symbol(word) {
            Err(error) => Err(error),
            Ok(name) => scanner::definition(c, end, name, kind),
        }),
{
}

/// An item without a definition adds nothing.
pub proof fn silent_items_add_nothing(c: Cursor, after: Cursor, found: Seq<Definition>)
    requires
        c.rest.len() > 0,
        scanner::item(c) == token_laws::given(None::<Definition>, after),
    ensures
        scanner::definitions(c, found) == scanner::definitions(after, found),
{
}

/// An item with a definition adds it.
pub proof fn defining_items_add_theirs(
    c: Cursor,
    made: Definition,
    after: Cursor,
    found: Seq<Definition>,
)
    requires
        c.rest.len() > 0,
        scanner::item(c) == token_laws::given(Some(made), after),
    ensures
        scanner::definitions(c, found) == scanner::definitions(after, found.push(made)),
{
}

proof fn variables_end_with_their_line(
    before: Cursor,
    kind: Seq<char>,
    tail: Seq<u8>,
    text: Seq<u8>,
)
    requires
        before.rest == seq![0x20u8] + (vstd::utf8::encode_utf8(kind) + (tail + (seq![0x0au8]
            + text))),
        kind == "global"@ || kind == "constant"@,
        tail.len() == 0 || tail[0] == 0x20,
        forall|i: int| 0 <= i < tail.len() ==> #[trigger] tail[i] != 0x0a,
        token_laws::room(before, 1 + kind.len() as int),
        before.offset + 2 + kind.len() + tail.len() <= u64::MAX,
    ensures
        scanner::global(before) == token_laws::given(
            None::<DefinitionKind>,
            token_laws::at(
                before.with_header(None),
                text,
                2 + kind.len() as int + tail.len() as int,
            ),
        ),
{
    words_are_plain();
    plain_words_are_bare(kind);
    let word = vstd::utf8::encode_utf8(kind);
    let finish = tail + (seq![0x0au8] + text);
    assert(finish[0] == 0x20 || finish[0] == 0x0a);
    token_laws::written_tokens_are_read(before, seq![0x20u8], word, finish, false);
    let typed = token_laws::at(before, finish, 1 + word.len() as int).with_header(None);
    token_laws::written_lines_are_passed(typed, tail, text);
    assert(token_laws::at(typed, text, tail.len() as int + 1) == token_laws::at(
        before.with_header(None),
        text,
        2 + kind.len() as int + tail.len() as int,
    ));
}

#[verifier::spinoff_prover]
proof fn variable_items(
    c: Cursor,
    name: Seq<u8>,
    words: Seq<Seq<char>>,
    kind: Seq<char>,
    tail: Seq<u8>,
    text: Seq<u8>,
)
    requires
        c.header is None,
        c.rest == opening(name, words) + (seq![0x20u8] + (vstd::utf8::encode_utf8(kind) + (tail + (
        seq![0x0au8] + text)))),
        token_laws::name_run(name),
        all_keywords(words),
        kind == "global"@ || kind == "constant"@,
        tail.len() == 0 || tail[0] == 0x20,
        forall|i: int| 0 <= i < tail.len() ==> #[trigger] tail[i] != 0x0a,
        opening(name, words).len() + 1 + kind.len() <= 1048576,
        c.offset + opening(name, words).len() + 2 + kind.len() + tail.len() <= u64::MAX,
    ensures
        scanner::item(c) == token_laws::given(
            None::<Definition>,
            token_laws::at(
                c,
                text,
                opening(name, words).len() as int + 2 + kind.len() as int + tail.len() as int,
            ),
        ),
{
    let word = vstd::utf8::encode_utf8(kind);
    let rest = seq![0x20u8] + (word + (tail + (seq![0x0au8] + text)));
    openings_are_passed(c, name, words, rest);
    openings_are_joined(name, words, rest);
    let start = c.with_header(Some(c.offset));
    let before = token_laws::at(start, rest, opening(name, words).len() as int);
    variables_end_with_their_line(before, kind, tail, text);
    let end = token_laws::at(
        c,
        text,
        opening(name, words).len() as int + 2 + kind.len() as int + tail.len() as int,
    );
    assert(token_laws::at(
        before.with_header(None),
        text,
        2 + kind.len() as int + tail.len() as int,
    ) == end);
    assert(c.rest[0] == 0x40);
    globals_are_items(
        c,
        Word { bytes: seq![0x40u8] + name, offset: c.offset },
        token_laws::at(
            start,
            seq![0x20u8, 0x3du8] + (spelled(words) + rest),
            1 + name.len() as int,
        ),
        token_laws::at(start, spelled(words) + rest, 3 + name.len() as int),
        None,
        end,
    );
}

proof fn kinds_are_ascii(kind: Seq<char>)
    requires
        kind == "global"@ || kind == "constant"@,
    ensures
        vstd::utf8::encode_utf8(kind).len() == kind.len(),
{
    words_are_plain();
    plain_words_are_bare(kind);
}

proof fn four_parts_are_joined(
    start: Seq<u8>,
    word: Seq<u8>,
    tail: Seq<u8>,
    text: Seq<u8>,
)
    ensures
        start + seq![0x20u8] + word + tail + seq![0x0au8] + text == start + (seq![0x20u8] + (word + (
        tail + (seq![0x0au8] + text)))),
        (start + seq![0x20u8] + word + tail + seq![0x0au8]).len() == start.len() + 2 + word.len()
            + tail.len(),
{
    assert(start + seq![0x20u8] + word + tail + seq![0x0au8] + text =~= start + (seq![0x20u8] + (word
        + (tail + (seq![0x0au8] + text)))));
}

/// A line that starts with a global name, an equals sign, any of the keywords and then `global` or
/// `constant` adds no definition and no error: the definitions are those of the text behind the
/// line.
#[verifier::spinoff_prover]
pub proof fn variables_add_nothing(
    name: Seq<u8>,
    words: Seq<Seq<char>>,
    kind: Seq<char>,
    tail: Seq<u8>,
    text: Seq<u8>,
    ending: Option<SourceError>,
    offset: u64,
    found: Seq<Definition>,
)
    requires
        token_laws::name_run(name),
        all_keywords(words),
        kind == "global"@ || kind == "constant"@,
        tail.len() == 0 || tail[0] == 0x20,
        forall|i: int| 0 <= i < tail.len() ==> #[trigger] tail[i] != 0x0a,
        opening(name, words).len() + 1 + kind.len() <= 1048576,
        offset + opening(name, words).len() + 2 + kind.len() + tail.len() <= u64::MAX,
    ensures
        ({
            let line = opening(name, words) + seq![0x20u8] + vstd::utf8::encode_utf8(kind) + tail
                + seq![0x0au8];
            scanner::definitions(outside(line + text, ending, offset), found)
                == scanner::definitions(
                outside(text, ending, (offset + line.len()) as u64),
                found,
            )
        }),
{
    let word = vstd::utf8::encode_utf8(kind);
    kinds_are_ascii(kind);
    let line = opening(name, words) + seq![0x20u8] + word + tail + seq![0x0au8];
    let c = outside(line + text, ending, offset);
    let start = opening(name, words);
    four_parts_are_joined(start, word, tail, text);
    variable_items(c, name, words, kind, tail, text);
    let end = outside(text, ending, (offset + line.len()) as u64);
    assert(token_laws::at(
        c,
        text,
        start.len() as int + 2 + kind.len() as int + tail.len() as int,
    ) == end);
    silent_items_add_nothing(c, end, found);
}

proof fn decoded(text: Seq<char>)
    ensures
        vstd::utf8::decode_utf8(vstd::utf8::encode_utf8(text)) == text,
{
    vstd::utf8::encode_utf8_decode_utf8(text);
}

proof fn other_words_are_no_keywords(word: Seq<char>)
    requires
        !keywords().contains(word),
        word != "global"@,
        word != "constant"@,
        word != "alias"@,
        word != "ifunc"@,
        word != "addrspace"@,
    ensures
        !scanner::global_modifier(vstd::utf8::encode_utf8(word)),
        vstd::utf8::encode_utf8(word) != vstd::utf8::encode_utf8("global"@),
        vstd::utf8::encode_utf8(word) != vstd::utf8::encode_utf8("constant"@),
        vstd::utf8::encode_utf8(word) != vstd::utf8::encode_utf8("alias"@),
        vstd::utf8::encode_utf8(word) != vstd::utf8::encode_utf8("ifunc"@),
        vstd::utf8::encode_utf8(word) != vstd::utf8::encode_utf8("addrspace"@),
{
    decoded(word);
    decoded("private"@);
    decoded("internal"@);
    decoded("available_externally"@);
    decoded("linkonce"@);
    decoded("weak"@);
    decoded("common"@);
    decoded("appending"@);
    decoded("extern_weak"@);
    decoded("linkonce_odr"@);
    decoded("weak_odr"@);
    decoded("external"@);
    decoded("dso_local"@);
    decoded("dso_preemptable"@);
    decoded("default"@);
    decoded("hidden"@);
    decoded("protected"@);
    decoded("dllimport"@);
    decoded("dllexport"@);
    decoded("unnamed_addr"@);
    decoded("local_unnamed_addr"@);
    decoded("externally_initialized"@);
    decoded("thread_local"@);
    decoded("global"@);
    decoded("constant"@);
    decoded("alias"@);
    decoded("ifunc"@);
    decoded("addrspace"@);
    let all = keywords();
    assert(all[0] == "private"@
        && all[1] == "internal"@
        && all[2] == "available_externally"@
        && all[3] == "linkonce"@
        && all[4] == "weak"@
        && all[5] == "common"@
        && all[6] == "appending"@
        && all[7] == "extern_weak"@
        && all[8] == "linkonce_odr"@
        && all[9] == "weak_odr"@
        && all[10] == "external"@
        && all[11] == "dso_local"@
        && all[12] == "dso_preemptable"@
        && all[13] == "default"@
        && all[14] == "hidden"@
        && all[15] == "protected"@
        && all[16] == "dllimport"@
        && all[17] == "dllexport"@
        && all[18] == "unnamed_addr"@
        && all[19] == "local_unnamed_addr"@
        && all[20] == "externally_initialized"@
        && all[21] == "thread_local"@);
}

/// A line that starts with a global name, an equals sign and any of the keywords, and continues
/// with another word of letters and underscores than those known, is refused at that word.
#[verifier::spinoff_prover]
#[verifier::rlimit(60)]
pub proof fn unknown_words_are_refused(
    name: Seq<u8>,
    words: Seq<Seq<char>>,
    word: Seq<char>,
    text: Seq<u8>,
    ending: Option<SourceError>,
    offset: u64,
    found: Seq<Definition>,
)
    requires
        token_laws::name_run(name),
        all_keywords(words),
        word.len() > 1,
        forall|i: int|
            0 <= i < word.len() ==> #[trigger] word[i] == '_' || 'a' <= word[i] <= 'z',
        !keywords().contains(word),
        word != "global"@,
        word != "constant"@,
        word != "alias"@,
        word != "ifunc"@,
        word != "addrspace"@,
        text.len() > 0,
        text[0] == 0x20 || text[0] == 0x0a,
        opening(name, words).len() + 1 + word.len() <= 1048576,
        offset + opening(name, words).len() + 1 + word.len() <= u64::MAX,
    ensures
        scanner::definitions(
            outside(
                opening(name, words) + (seq![0x20u8] + (vstd::utf8::encode_utf8(word) + text)),
                ending,
                offset,
            ),
            found,
        ) == Err::<Seq<Definition>, IndexError>(
            IndexError::Malformed {
                offset: (offset + opening(name, words).len() + 1) as u64,
                fault: Fault::UnknownGlobal,
            },
        ),
{
    let letters = vstd::utf8::encode_utf8(word);
    let rest = seq![0x20u8] + (letters + text);
    let c = outside(opening(name, words) + rest, ending, offset);
    plain_words_are_bare(word);
    openings_are_joined(name, words, rest);
    openings_are_passed(c, name, words, rest);
    let start = c.with_header(Some(c.offset));
    let before = token_laws::at(start, rest, opening(name, words).len() as int);
    unknown_words_fail(before, word, text);
    assert(c.rest[0] == 0x40);
    failing_globals_fail(
        c,
        Word { bytes: seq![0x40u8] + name, offset: c.offset },
        token_laws::at(
            start,
            seq![0x20u8, 0x3du8] + (spelled(words) + rest),
            1 + name.len() as int,
        ),
        token_laws::at(start, spelled(words) + rest, 3 + name.len() as int),
        IndexError::Malformed {
            offset: (offset + opening(name, words).len() + 1) as u64,
            fault: Fault::UnknownGlobal,
        },
        found,
    );
}

proof fn unknown_words_fail(before: Cursor, word: Seq<char>, text: Seq<u8>)
    requires
        before.rest == seq![0x20u8] + (vstd::utf8::encode_utf8(word) + text),
        plain(word),
        word.len() > 1,
        !keywords().contains(word),
        word != "global"@,
        word != "constant"@,
        word != "alias"@,
        word != "ifunc"@,
        word != "addrspace"@,
        text.len() > 0,
        text[0] == 0x20 || text[0] == 0x0a,
        token_laws::room(before, 1 + word.len() as int),
    ensures
        scanner::global(before) == Err::<(Option<DefinitionKind>, Cursor), IndexError>(
            IndexError::Malformed {
                offset: (before.offset + 1) as u64,
                fault: Fault::UnknownGlobal,
            },
        ),
{
    let letters = vstd::utf8::encode_utf8(word);
    plain_words_are_bare(word);
    token_laws::written_tokens_are_read(before, seq![0x20u8], letters, text, false);
    other_words_are_no_keywords(word);
    assert(letters != seq![0x28u8]);
}

proof fn failing_globals_fail(
    c: Cursor,
    word: Word,
    named: Cursor,
    assigned: Cursor,
    error: IndexError,
    found: Seq<Definition>,
)
    requires
        c.rest.len() > 0,
        c.rest[0] == 0x40,
        model::required(c.with_header(Some(c.offset))) == token_laws::given(word, named),
        model::expected(named, 0x3d, Fault::NotEquals) == token_laws::given((), assigned),
        scanner::global(assigned) == Err::<(Option<DefinitionKind>, Cursor), IndexError>(error),
    ensures
        scanner::definitions(c, found) == Err::<Seq<Definition>, IndexError>(error),
{
}

} // verus!

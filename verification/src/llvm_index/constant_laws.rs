//! Which constants the operand of an alias can be.

use super::error::{Fault, IndexError};
use super::function_laws;
use super::header;
use super::item_laws;
use super::line_laws;
use super::model;
use super::model::{Cursor, Word};
use super::scanner;
use super::symbol_laws;
use super::symbol_laws::NamePart;
use super::token_laws;
use crate::records::{Definition, DefinitionKind};
use crate::source::SourceError;
use vstd::prelude::*;

verus! {

/// The constants that are one word.
pub open spec fn simple_words() -> Seq<Seq<char>> {
    seq![
        "null"@,
        "undef"@,
        "poison"@,
        "zeroinitializer"@,
        "true"@,
        "false"@,
    ]
}

/// The opcodes of constant expressions.
pub open spec fn opcodes() -> Seq<Seq<char>> {
    seq![
        "getelementptr"@,
        "bitcast"@,
        "addrspacecast"@,
        "inttoptr"@,
        "ptrtoint"@,
        "trunc"@,
        "blockaddress"@,
        "ptrauth"@,
        "splat"@,
    ]
}

/// The flags of an address computation.
pub open spec fn flags() -> Seq<Seq<char>> {
    seq![
        "inbounds"@,
        "nuw"@,
        "nusw"@,
    ]
}

/// A text of lower case letters and underscores with a given length.
spec fn written(text: Seq<char>, count: nat) -> bool {
    &&& text.len() == count
    &&& count > 1
    &&& lower(text)
}

/// Lower case letters and underscores.
pub open spec fn lower(text: Seq<char>) -> bool {
    forall|i: int| 0 <= i < text.len() ==> #[trigger] text[i] == '_' || 'a' <= text[i] <= 'z'
}

proof fn spelled_out(text: Seq<char>)
    requires
        text.len() > 1,
        lower(text),
    ensures
        vstd::utf8::encode_utf8(text).len() == text.len(),
        vstd::utf8::encode_utf8(text)[0] == text[0] as u8,
        vstd::utf8::encode_utf8(text)[1] == text[1] as u8,
        token_laws::bare_token(vstd::utf8::encode_utf8(text)),
        token_laws::name_byte(vstd::utf8::encode_utf8(text)[0]),
        vstd::utf8::decode_utf8(vstd::utf8::encode_utf8(text)) == text,
{
    assert(vstd::utf8::is_ascii_chars(text));
    token_laws::ascii_is_written_as_it_is(text);
    let word = vstd::utf8::encode_utf8(text);
    assert forall|i: int| 0 <= i < word.len() implies token_laws::name_byte(
        #[trigger] word[i],
    ) by {
        assert(word[i] == text[i] as u8);
    }
    assert forall|i: int| 0 <= i < word.skip(1).len() implies token_laws::name_byte(
        #[trigger] word.skip(1)[i],
    ) by {
        assert(word.skip(1)[i] == word[i + 1]);
    }
    vstd::utf8::encode_utf8_decode_utf8(text);
}

proof fn words_are_written()
    ensures
        written("null"@, 4),
        written("undef"@, 5),
        written("poison"@, 6),
        written("zeroinitializer"@, 15),
        written("true"@, 4),
        written("false"@, 5),
        written("getelementptr"@, 13),
        written("bitcast"@, 7),
        written("addrspacecast"@, 13),
        written("inttoptr"@, 8),
        written("ptrtoint"@, 8),
        written("trunc"@, 5),
        written("blockaddress"@, 12),
        written("ptrauth"@, 7),
        written("splat"@, 5),
        written("inbounds"@, 8),
        written("nuw"@, 3),
        written("nusw"@, 4),
        written("dso_local_equivalent"@, 20),
        written("no_cfi"@, 6),
        written("partition"@, 9),
        written("ptr"@, 3),
        written("addrspace"@, 9),
{
    reveal_strlit("null");
    reveal_strlit("undef");
    reveal_strlit("poison");
    reveal_strlit("zeroinitializer");
    reveal_strlit("true");
    reveal_strlit("false");
    reveal_strlit("getelementptr");
    reveal_strlit("bitcast");
    reveal_strlit("addrspacecast");
    reveal_strlit("inttoptr");
    reveal_strlit("ptrtoint");
    reveal_strlit("trunc");
    reveal_strlit("blockaddress");
    reveal_strlit("ptrauth");
    reveal_strlit("splat");
    reveal_strlit("inbounds");
    reveal_strlit("nuw");
    reveal_strlit("nusw");
    reveal_strlit("dso_local_equivalent");
    reveal_strlit("no_cfi");
    reveal_strlit("partition");
    reveal_strlit("ptr");
    reveal_strlit("addrspace");
}

proof fn words_are_distinct()
    ensures
        vstd::utf8::encode_utf8("null"@).len() == 4 && vstd::utf8::encode_utf8("null"@)[0] == 0x6e && vstd::utf8::encode_utf8("null"@)[1] == 0x75,
        vstd::utf8::encode_utf8("undef"@).len() == 5 && vstd::utf8::encode_utf8("undef"@)[0] == 0x75 && vstd::utf8::encode_utf8("undef"@)[1] == 0x6e,
        vstd::utf8::encode_utf8("poison"@).len() == 6 && vstd::utf8::encode_utf8("poison"@)[0] == 0x70 && vstd::utf8::encode_utf8("poison"@)[1] == 0x6f,
        vstd::utf8::encode_utf8("zeroinitializer"@).len() == 15 && vstd::utf8::encode_utf8("zeroinitializer"@)[0] == 0x7a && vstd::utf8::encode_utf8("zeroinitializer"@)[1] == 0x65,
        vstd::utf8::encode_utf8("true"@).len() == 4 && vstd::utf8::encode_utf8("true"@)[0] == 0x74 && vstd::utf8::encode_utf8("true"@)[1] == 0x72,
        vstd::utf8::encode_utf8("false"@).len() == 5 && vstd::utf8::encode_utf8("false"@)[0] == 0x66 && vstd::utf8::encode_utf8("false"@)[1] == 0x61,
        vstd::utf8::encode_utf8("getelementptr"@).len() == 13 && vstd::utf8::encode_utf8("getelementptr"@)[0] == 0x67 && vstd::utf8::encode_utf8("getelementptr"@)[1] == 0x65,
        vstd::utf8::encode_utf8("bitcast"@).len() == 7 && vstd::utf8::encode_utf8("bitcast"@)[0] == 0x62 && vstd::utf8::encode_utf8("bitcast"@)[1] == 0x69,
        vstd::utf8::encode_utf8("addrspacecast"@).len() == 13 && vstd::utf8::encode_utf8("addrspacecast"@)[0] == 0x61 && vstd::utf8::encode_utf8("addrspacecast"@)[1] == 0x64,
        vstd::utf8::encode_utf8("inttoptr"@).len() == 8 && vstd::utf8::encode_utf8("inttoptr"@)[0] == 0x69 && vstd::utf8::encode_utf8("inttoptr"@)[1] == 0x6e,
        vstd::utf8::encode_utf8("ptrtoint"@).len() == 8 && vstd::utf8::encode_utf8("ptrtoint"@)[0] == 0x70 && vstd::utf8::encode_utf8("ptrtoint"@)[1] == 0x74,
        vstd::utf8::encode_utf8("trunc"@).len() == 5 && vstd::utf8::encode_utf8("trunc"@)[0] == 0x74 && vstd::utf8::encode_utf8("trunc"@)[1] == 0x72,
        vstd::utf8::encode_utf8("blockaddress"@).len() == 12 && vstd::utf8::encode_utf8("blockaddress"@)[0] == 0x62 && vstd::utf8::encode_utf8("blockaddress"@)[1] == 0x6c,
        vstd::utf8::encode_utf8("ptrauth"@).len() == 7 && vstd::utf8::encode_utf8("ptrauth"@)[0] == 0x70 && vstd::utf8::encode_utf8("ptrauth"@)[1] == 0x74,
        vstd::utf8::encode_utf8("splat"@).len() == 5 && vstd::utf8::encode_utf8("splat"@)[0] == 0x73 && vstd::utf8::encode_utf8("splat"@)[1] == 0x70,
        vstd::utf8::encode_utf8("inbounds"@).len() == 8 && vstd::utf8::encode_utf8("inbounds"@)[0] == 0x69 && vstd::utf8::encode_utf8("inbounds"@)[1] == 0x6e,
        vstd::utf8::encode_utf8("nuw"@).len() == 3 && vstd::utf8::encode_utf8("nuw"@)[0] == 0x6e && vstd::utf8::encode_utf8("nuw"@)[1] == 0x75,
        vstd::utf8::encode_utf8("nusw"@).len() == 4 && vstd::utf8::encode_utf8("nusw"@)[0] == 0x6e && vstd::utf8::encode_utf8("nusw"@)[1] == 0x75,
        vstd::utf8::encode_utf8("dso_local_equivalent"@).len() == 20 && vstd::utf8::encode_utf8("dso_local_equivalent"@)[0] == 0x64 && vstd::utf8::encode_utf8("dso_local_equivalent"@)[1] == 0x73,
        vstd::utf8::encode_utf8("no_cfi"@).len() == 6 && vstd::utf8::encode_utf8("no_cfi"@)[0] == 0x6e && vstd::utf8::encode_utf8("no_cfi"@)[1] == 0x6f,
        vstd::utf8::encode_utf8("partition"@).len() == 9 && vstd::utf8::encode_utf8("partition"@)[0] == 0x70 && vstd::utf8::encode_utf8("partition"@)[1] == 0x61,
        vstd::utf8::encode_utf8("ptr"@).len() == 3 && vstd::utf8::encode_utf8("ptr"@)[0] == 0x70 && vstd::utf8::encode_utf8("ptr"@)[1] == 0x74,
        vstd::utf8::encode_utf8("addrspace"@).len() == 9 && vstd::utf8::encode_utf8("addrspace"@)[0] == 0x61 && vstd::utf8::encode_utf8("addrspace"@)[1] == 0x64,
{
    words_are_written();
    reveal_strlit("null");
    spelled_out("null"@);
    reveal_strlit("undef");
    spelled_out("undef"@);
    reveal_strlit("poison");
    spelled_out("poison"@);
    reveal_strlit("zeroinitializer");
    spelled_out("zeroinitializer"@);
    reveal_strlit("true");
    spelled_out("true"@);
    reveal_strlit("false");
    spelled_out("false"@);
    reveal_strlit("getelementptr");
    spelled_out("getelementptr"@);
    reveal_strlit("bitcast");
    spelled_out("bitcast"@);
    reveal_strlit("addrspacecast");
    spelled_out("addrspacecast"@);
    reveal_strlit("inttoptr");
    spelled_out("inttoptr"@);
    reveal_strlit("ptrtoint");
    spelled_out("ptrtoint"@);
    reveal_strlit("trunc");
    spelled_out("trunc"@);
    reveal_strlit("blockaddress");
    spelled_out("blockaddress"@);
    reveal_strlit("ptrauth");
    spelled_out("ptrauth"@);
    reveal_strlit("splat");
    spelled_out("splat"@);
    reveal_strlit("inbounds");
    spelled_out("inbounds"@);
    reveal_strlit("nuw");
    spelled_out("nuw"@);
    reveal_strlit("nusw");
    spelled_out("nusw"@);
    reveal_strlit("dso_local_equivalent");
    spelled_out("dso_local_equivalent"@);
    reveal_strlit("no_cfi");
    spelled_out("no_cfi"@);
    reveal_strlit("partition");
    spelled_out("partition"@);
    reveal_strlit("ptr");
    spelled_out("ptr"@);
    reveal_strlit("addrspace");
    spelled_out("addrspace"@);
}

/// Each of the constants that are one word ends with it.
pub proof fn simple_words_are_constants(c: Cursor, text: Seq<char>, offset: u64)
    requires
        simple_words().contains(text),
    ensures
        header::constant(c, Word { bytes: vstd::utf8::encode_utf8(text), offset })
            == token_laws::given((), c),
{
    words_are_distinct();
    let list_simple_words = simple_words();
    assert(list_simple_words[0] == "null"@
        && list_simple_words[1] == "undef"@
        && list_simple_words[2] == "poison"@
        && list_simple_words[3] == "zeroinitializer"@
        && list_simple_words[4] == "true"@
        && list_simple_words[5] == "false"@);
}

/// A number is a constant: a token that starts with a digit or with a minus sign.
pub proof fn numbers_are_constants(c: Cursor, token: Seq<u8>, offset: u64)
    requires
        token.len() > 0,
        0x30 <= token[0] <= 0x39 || token[0] == 0x2d,
    ensures
        header::constant(c, Word { bytes: token, offset }) == token_laws::given((), c),
{
    words_are_distinct();
}

/// An opcode and the list of its operands are one constant.
pub proof fn operations_are_constants(
    c: Cursor,
    text: Seq<char>,
    offset: u64,
    tokens: Seq<Seq<u8>>,
    rest: Seq<u8>,
)
    requires
        opcodes().contains(text),
        forall|i: int|
            0 <= i < tokens.len() ==> function_laws::parameter_token(#[trigger] tokens[i]),
        c.rest == seq![0x28u8] + (function_laws::spaced(tokens) + (seq![0x29u8] + rest)),
        rest.len() > 0,
        token_laws::room(c, 2 + function_laws::spaced(tokens).len() as int),
    ensures
        header::constant(c, Word { bytes: vstd::utf8::encode_utf8(text), offset })
            == token_laws::given(
            (),
            token_laws::at(c, rest, 2 + function_laws::spaced(tokens).len() as int),
        ),
{
    words_are_distinct();
    let list_opcodes = opcodes();
    assert(list_opcodes[0] == "getelementptr"@
        && list_opcodes[1] == "bitcast"@
        && list_opcodes[2] == "addrspacecast"@
        && list_opcodes[3] == "inttoptr"@
        && list_opcodes[4] == "ptrtoint"@
        && list_opcodes[5] == "trunc"@
        && list_opcodes[6] == "blockaddress"@
        && list_opcodes[7] == "ptrauth"@
        && list_opcodes[8] == "splat"@);
    function_laws::parameter_lists_are_read(c, tokens, rest);
}

proof fn one_flag_is_passed(c: Cursor, text: Seq<char>, behind: Seq<u8>)
    requires
        flags().contains(text),
        c.rest == seq![0x20u8] + (vstd::utf8::encode_utf8(text) + behind),
        behind.len() > 0,
        behind[0] == 0x20 || behind[0] == 0x28,
        token_laws::room(c, 1 + text.len() as int),
    ensures
        header::operands(c, vstd::utf8::encode_utf8("getelementptr"@)) == header::operands(
            token_laws::at(c, behind, 1 + text.len() as int),
            vstd::utf8::encode_utf8("getelementptr"@),
        ),
{
    words_are_distinct();
    words_are_written();
    let list_flags = flags();
    assert(list_flags[0] == "inbounds"@
        && list_flags[1] == "nuw"@
        && list_flags[2] == "nusw"@);
    spelled_out(text);
    let word = vstd::utf8::encode_utf8(text);
    token_laws::written_tokens_are_read(c, seq![0x20u8], word, behind, false);
    assert(header::address_flag(word));
}

proof fn flags_are_written(text: Seq<char>)
    requires
        flags().contains(text),
    ensures
        vstd::utf8::encode_utf8(text).len() == text.len(),
{
    words_are_written();
    let list_flags = flags();
    spelled_out(text);
}

proof fn computations_are_operands(c: Cursor, offset: u64)
    ensures
        header::constant(
            c,
            Word { bytes: vstd::utf8::encode_utf8("getelementptr"@), offset },
        ) == address_at(c),
{
    reveal(address_at);
    words_are_distinct();
}

#[verifier::opaque]
spec fn address_at(c: Cursor) -> model::Step<()> {
    header::operands(c, vstd::utf8::encode_utf8("getelementptr"@))
}

#[verifier::opaque]
spec fn is_flag(text: Seq<char>) -> bool {
    flags().contains(text)
}

proof fn each_flag_is_passed(c: Cursor, text: Seq<char>, behind: Seq<u8>)
    requires
        is_flag(text),
        c.rest == seq![0x20u8] + (vstd::utf8::encode_utf8(text) + behind),
        behind.len() > 0,
        behind[0] == 0x20 || behind[0] == 0x28,
        token_laws::room(c, 1 + vstd::utf8::encode_utf8(text).len() as int),
    ensures
        address_at(c) == address_at(
            token_laws::at(c, behind, 1 + vstd::utf8::encode_utf8(text).len() as int),
        ),
{
    reveal(address_at);
    reveal(is_flag);
    flags_are_written(text);
    one_flag_is_passed(c, text, behind);
}

proof fn all_flags_are_passed(c: Cursor, words: Seq<Seq<char>>, behind: Seq<u8>)
    requires
        forall|i: int| 0 <= i < words.len() ==> is_flag(#[trigger] words[i]),
        c.rest == line_laws::spelled(words) + behind,
        behind.len() > 0,
        behind[0] == 0x20 || behind[0] == 0x28,
        token_laws::room(c, line_laws::spelled(words).len() as int),
    ensures
        address_at(c) == address_at(
            token_laws::at(c, behind, line_laws::spelled(words).len() as int),
        ),
    decreases words.len(),
{
    if words.len() == 0 {
        assert(c.rest =~= behind);
    } else {
        let tail = words.skip(1);
        let next = line_laws::spelled(tail) + behind;
        let word = vstd::utf8::encode_utf8(words[0]);
        assert(c.rest =~= seq![0x20u8] + (word + next));
        assert(next[0] == 0x20 || next[0] == 0x28) by {
            if tail.len() == 0 {
                assert(next =~= behind);
            }
        }
        assert forall|i: int| 0 <= i < tail.len() implies is_flag(#[trigger] tail[i]) by {
            assert(tail[i] == words[i + 1]);
        }
        each_flag_is_passed(c, words[0], next);
        let after = token_laws::at(c, next, 1 + word.len() as int);
        all_flags_are_passed(after, tail, behind);
        assert(token_laws::at(after, behind, line_laws::spelled(tail).len() as int)
            == token_laws::at(c, behind, line_laws::spelled(words).len() as int));
    }
}

/// The flags of an address computation stand between its opcode and its operands, and change
/// nothing.
pub proof fn flags_change_nothing(
    c: Cursor,
    words: Seq<Seq<char>>,
    offset: u64,
    behind: Seq<u8>,
)
    requires
        forall|i: int| 0 <= i < words.len() ==> flags().contains(#[trigger] words[i]),
        c.rest == line_laws::spelled(words) + behind,
        behind.len() > 0,
        behind[0] == 0x20 || behind[0] == 0x28,
        token_laws::room(c, line_laws::spelled(words).len() as int),
    ensures
        ({
            let opcode = Word { bytes: vstd::utf8::encode_utf8("getelementptr"@), offset };
            header::constant(c, opcode) == header::constant(
                token_laws::at(c, behind, line_laws::spelled(words).len() as int),
                opcode,
            )
        }),
{
    assert forall|i: int| 0 <= i < words.len() implies is_flag(#[trigger] words[i]) by {
        reveal(is_flag);
    }
    all_flags_are_passed(c, words, behind);
    computations_are_operands(c, offset);
    computations_are_operands(
        token_laws::at(c, behind, line_laws::spelled(words).len() as int),
        offset,
    );
}

/// A marked function is a constant: its mark and its name.
pub proof fn marked_functions_are_constants(
    c: Cursor,
    text: Seq<char>,
    offset: u64,
    name: Seq<char>,
    rest: Seq<u8>,
)
    requires
        text == "dso_local_equivalent"@ || text == "no_cfi"@,
        item_laws::plain_name(name),
        c.rest == seq![0x20u8] + ((seq![0x40u8] + vstd::utf8::encode_utf8(name)) + rest),
        rest.len() > 0,
        rest[0] == 0x0a || rest[0] == 0x2c,
        token_laws::room(c, 2 + name.len() as int),
    ensures
        header::constant(c, Word { bytes: vstd::utf8::encode_utf8(text), offset })
            == token_laws::given((), token_laws::at(c, rest, 2 + name.len() as int)),
{
    words_are_distinct();
    item_laws::plain_names_are_symbols(name, (c.offset + 1) as u64);
    let sign = seq![0x40u8] + vstd::utf8::encode_utf8(name);
    token_laws::written_tokens_are_read(c, seq![0x20u8], sign, rest, false);
}

/// A string of bytes is a constant: the letter and the quoted text right behind it.
pub proof fn byte_strings_are_constants(
    c: Cursor,
    offset: u64,
    parts: Seq<NamePart>,
    rest: Seq<u8>,
)
    requires
        forall|i: int|
            0 <= i < parts.len() ==> symbol_laws::proper(#[trigger] parts[i]),
        c.rest == seq![0x22u8] + symbol_laws::spellings(parts) + seq![0x22u8] + rest,
        token_laws::room(c, symbol_laws::spellings(parts).len() as int + 2),
    ensures
        header::constant(c, Word { bytes: seq![0x63u8], offset }) == token_laws::given(
            (),
            token_laws::at(c, rest, symbol_laws::spellings(parts).len() as int + 2),
        ),
{
    words_are_distinct();
    strings_are_tokens(c, parts, rest);
}

proof fn strings_are_tokens(c: Cursor, parts: Seq<NamePart>, rest: Seq<u8>)
    requires
        forall|i: int|
            0 <= i < parts.len() ==> symbol_laws::proper(#[trigger] parts[i]),
        c.rest == seq![0x22u8] + symbol_laws::spellings(parts) + seq![0x22u8] + rest,
        token_laws::room(c, symbol_laws::spellings(parts).len() as int + 2),
    ensures
        model::required(c) == token_laws::given(
            Word {
                bytes: seq![0x22u8] + symbol_laws::spellings(parts) + seq![0x22u8],
                offset: c.offset,
            },
            token_laws::at(c, rest, symbol_laws::spellings(parts).len() as int + 2),
        ),
{
    let inside = c.next();
    assert(c.rest[0] == 0x22);
    assert(inside.rest =~= symbol_laws::spellings(parts) + (seq![0x22u8] + rest));
    symbol_laws::quoted_parts_are_read(inside, seq![0x22u8], parts, rest);
    assert(token_laws::at(inside, rest, symbol_laws::spellings(parts).len() as int + 1)
        == token_laws::at(c, rest, symbol_laws::spellings(parts).len() as int + 2));
    assert(model::gap(c, false) == token_laws::given(false, c));
}

/// Any other word is refused as a constant.
pub proof fn other_words_are_no_constants(c: Cursor, text: Seq<char>, offset: u64)
    requires
        text.len() > 1,
        lower(text),
        !simple_words().contains(text),
        !opcodes().contains(text),
        text != "dso_local_equivalent"@,
        text != "no_cfi"@,
    ensures
        header::constant(c, Word { bytes: vstd::utf8::encode_utf8(text), offset }) == Err::<
            ((), Cursor),
            IndexError,
        >(IndexError::Malformed { offset, fault: Fault::UnknownConstant }),
{
    spelled_out(text);
    let list_simple_words = simple_words();
    assert(list_simple_words[0] == "null"@
        && list_simple_words[1] == "undef"@
        && list_simple_words[2] == "poison"@
        && list_simple_words[3] == "zeroinitializer"@
        && list_simple_words[4] == "true"@
        && list_simple_words[5] == "false"@);
    let list_opcodes = opcodes();
    assert(list_opcodes[0] == "getelementptr"@
        && list_opcodes[1] == "bitcast"@
        && list_opcodes[2] == "addrspacecast"@
        && list_opcodes[3] == "inttoptr"@
        && list_opcodes[4] == "ptrtoint"@
        && list_opcodes[5] == "trunc"@
        && list_opcodes[6] == "blockaddress"@
        && list_opcodes[7] == "ptrauth"@
        && list_opcodes[8] == "splat"@);
    vstd::utf8::encode_utf8_decode_utf8("null"@);
    vstd::utf8::encode_utf8_decode_utf8("undef"@);
    vstd::utf8::encode_utf8_decode_utf8("poison"@);
    vstd::utf8::encode_utf8_decode_utf8("zeroinitializer"@);
    vstd::utf8::encode_utf8_decode_utf8("true"@);
    vstd::utf8::encode_utf8_decode_utf8("false"@);
    vstd::utf8::encode_utf8_decode_utf8("getelementptr"@);
    vstd::utf8::encode_utf8_decode_utf8("bitcast"@);
    vstd::utf8::encode_utf8_decode_utf8("addrspacecast"@);
    vstd::utf8::encode_utf8_decode_utf8("inttoptr"@);
    vstd::utf8::encode_utf8_decode_utf8("ptrtoint"@);
    vstd::utf8::encode_utf8_decode_utf8("trunc"@);
    vstd::utf8::encode_utf8_decode_utf8("blockaddress"@);
    vstd::utf8::encode_utf8_decode_utf8("ptrauth"@);
    vstd::utf8::encode_utf8_decode_utf8("splat"@);
    vstd::utf8::encode_utf8_decode_utf8("dso_local_equivalent"@);
    vstd::utf8::encode_utf8_decode_utf8("no_cfi"@);
}

#[verifier::opaque]
spec fn suffixes_at(c: Cursor) -> model::Step<()> {
    header::alias_suffixes(c)
}

proof fn commas_start_suffixes(c: Cursor, inner: Seq<u8>, behind: Cursor)
    requires
        c.rest == seq![0x2cu8] + inner,
        inner.len() > 0,
        token_laws::room(c, 1),
        header::alias_suffix(token_laws::at(c, inner, 1)) == token_laws::given((), behind),
    ensures
        suffixes_at(c) == suffixes_at(behind),
{
    reveal(suffixes_at);
    let none = Seq::<u8>::empty();
    assert(c.rest =~= none + (seq![0x2cu8] + inner));
    token_laws::written_tokens_are_read(c, none, seq![0x2cu8], inner, true);
}

proof fn one_blank_is_passed(c: Cursor)
    requires
        c.rest.len() > 0,
        c.rest[0] == 0x20,
        token_laws::room(c, 1),
    ensures
        model::required(c) == model::required(c.next()),
{
    assert(model::take(c) == token_laws::given(Some(0x20u8), c.next()));
    assert(model::gap(c, false) == model::gap(c.next(), false));
}

/// A partition: its word, a blank and its name in quotes.
pub open spec fn partition(parts: Seq<NamePart>) -> Seq<u8> {
    vstd::utf8::encode_utf8("partition"@) + seq![0x20u8, 0x22u8] + symbol_laws::spellings(parts)
        + seq![0x22u8]
}

proof fn partition_names_are_read(c: Cursor, parts: Seq<NamePart>, behind: Seq<u8>)
    requires
        forall|i: int|
            0 <= i < parts.len() ==> symbol_laws::proper(#[trigger] parts[i]),
        c.rest == seq![0x20u8] + (partition(parts) + behind),
        token_laws::room(c, 13 + symbol_laws::spellings(parts).len() as int),
    ensures
        header::alias_suffix(c) == token_laws::given(
            (),
            token_laws::at(c, behind, 13 + symbol_laws::spellings(parts).len() as int),
        ),
        partition(parts).len() == 12 + symbol_laws::spellings(parts).len(),
{
    words_are_distinct();
    words_are_written();
    spelled_out("partition"@);
    let word = vstd::utf8::encode_utf8("partition"@);
    let string = seq![0x22u8] + symbol_laws::spellings(parts) + seq![0x22u8] + behind;
    let spaced = seq![0x20u8] + string;
    assert(c.rest =~= seq![0x20u8] + (word + spaced));
    token_laws::written_tokens_are_read(c, seq![0x20u8], word, spaced, false);
    let c2 = token_laws::at(c, spaced, 10);
    one_blank_is_passed(c2);
    let c3 = c2.next();
    assert(c3.rest =~= string);
    strings_are_tokens(c3, parts, behind);
    assert(token_laws::at(c3, behind, symbol_laws::spellings(parts).len() as int + 2)
        == token_laws::at(c, behind, 13 + symbol_laws::spellings(parts).len() as int));
}

/// A partition behind a constant is passed.
pub proof fn partitions_are_passed(c: Cursor, parts: Seq<NamePart>, behind: Seq<u8>)
    requires
        forall|i: int|
            0 <= i < parts.len() ==> symbol_laws::proper(#[trigger] parts[i]),
        c.rest == seq![0x2cu8] + (seq![0x20u8] + (partition(parts) + behind)),
        token_laws::room(c, 14 + symbol_laws::spellings(parts).len() as int),
    ensures
        header::alias_suffixes(c) == header::alias_suffixes(
            token_laws::at(c, behind, 2 + partition(parts).len() as int),
        ),
{
    let inner = seq![0x20u8] + (partition(parts) + behind);
    let c1 = token_laws::at(c, inner, 1);
    partition_names_are_read(c1, parts, behind);
    let end = token_laws::at(c1, behind, 13 + symbol_laws::spellings(parts).len() as int);
    commas_start_suffixes(c, inner, end);
    assert(end == token_laws::at(c, behind, 2 + partition(parts).len() as int));
    reveal(suffixes_at);
}

/// Metadata behind a constant is passed: a name with an exclamation mark and its value.
pub proof fn metadata_is_passed(c: Cursor, name: Seq<u8>, value: Seq<u8>, behind: Seq<u8>)
    requires
        token_laws::bare_token(name),
        name[0] == 0x21,
        token_laws::bare_token(value),
        c.rest == seq![0x2cu8] + (seq![0x20u8] + (name + (seq![0x20u8] + (value + behind)))),
        behind.len() > 0,
        behind[0] == 0x0a || behind[0] == 0x2c,
        token_laws::room(c, 3 + name.len() as int + value.len() as int),
    ensures
        header::alias_suffixes(c) == header::alias_suffixes(
            token_laws::at(c, behind, 3 + name.len() as int + value.len() as int),
        ),
{
    let tail = seq![0x20u8] + (value + behind);
    let inner = seq![0x20u8] + (name + tail);
    let c1 = token_laws::at(c, inner, 1);
    token_laws::written_tokens_are_read(c1, seq![0x20u8], name, tail, false);
    let c2 = token_laws::at(c1, tail, 1 + name.len() as int);
    token_laws::written_tokens_are_read(c2, seq![0x20u8], value, behind, false);
    let end = token_laws::at(c2, behind, 1 + value.len() as int);
    item_laws::single_bytes_open_nothing(
        end,
        Word { bytes: value, offset: (c2.offset + 1) as u64 },
    );
    commas_start_suffixes(c, inner, end);
    assert(end == token_laws::at(c, behind, 3 + name.len() as int + value.len() as int));
    reveal(suffixes_at);
}

/// Anything but a comma behind a constant on its line is refused.
pub proof fn further_operands_are_refused(c: Cursor, token: Seq<u8>, rest: Seq<u8>)
    requires
        token_laws::bare_token(token),
        c.rest == seq![0x20u8] + (token + rest),
        rest.len() > 0,
        rest[0] == 0x20 || rest[0] == 0x0a,
        token_laws::room(c, 1 + token.len() as int),
    ensures
        header::alias_suffixes(c) == Err::<((), Cursor), IndexError>(
            IndexError::Malformed { offset: (c.offset + 1) as u64, fault: Fault::ExtraOperand },
        ),
{
    token_laws::written_tokens_are_read(c, seq![0x20u8], token, rest, true);
    assert(token != seq![0x2cu8]);
}

/// The operand of an alias that is a constant of one word: a type, a comma and the word.
pub open spec fn word_operand(kind: Seq<u8>, value: Seq<char>) -> Seq<u8> {
    seq![0x20u8] + kind + seq![0x2cu8, 0x20u8] + vstd::utf8::encode_utf8(value)
}

proof fn word_operands_are_joined(kind: Seq<u8>, value: Seq<char>, rest: Seq<u8>)
    ensures
        word_operand(kind, value) + rest == seq![0x20u8] + (kind + (seq![0x2cu8] + (seq![0x20u8] + (
        vstd::utf8::encode_utf8(value) + rest)))),
        word_operand(kind, value).len() == 3 + kind.len() + vstd::utf8::encode_utf8(value).len(),
{
    let word = vstd::utf8::encode_utf8(value);
    assert(seq![0x20u8] + kind + seq![0x2cu8, 0x20u8] + word + rest =~= seq![0x20u8] + (kind + (
    seq![0x2cu8] + (seq![0x20u8] + (word + rest)))));
}

#[verifier::spinoff_prover]
#[verifier::rlimit(60)]
proof fn word_operands_are_read(c: Cursor, kind: Seq<u8>, value: Seq<char>, text: Seq<u8>)
    requires
        c.rest == word_operand(kind, value) + (seq![0x0au8] + text),
        token_laws::bare_token(kind),
        token_laws::name_byte(kind[0]),
        simple_words().contains(value),
        token_laws::room(c, word_operand(kind, value).len() as int + 1),
    ensures
        header::alias_target(c) == token_laws::given(
            None::<Seq<char>>,
            token_laws::at(c, text, word_operand(kind, value).len() as int + 1),
        ),
{
    let word = vstd::utf8::encode_utf8(value);
    let feed = seq![0x0au8] + text;
    let r3 = seq![0x20u8] + (word + feed);
    let r2 = seq![0x2cu8] + r3;
    let none = Seq::<u8>::empty();
    simple_words_are_written(value);
    word_operands_are_joined(kind, value, feed);
    assert(c.rest == seq![0x20u8] + (kind + r2));
    token_laws::written_tokens_are_read(c, seq![0x20u8], kind, r2, false);
    let c1 = token_laws::at(c, r2, 1 + kind.len() as int);
    let first = Word { bytes: kind, offset: (c.offset + 1) as u64 };
    item_laws::single_bytes_open_nothing(c1, first);
    assert(c1.rest =~= none + (seq![0x2cu8] + r3));
    token_laws::written_tokens_are_read(c1, none, seq![0x2cu8], r3, false);
    let c2 = token_laws::at(c1, r3, 1);
    assert(header::alias_type(c1) == token_laws::given((), c2));
    token_laws::written_tokens_are_read(c2, seq![0x20u8], word, feed, false);
    let c3 = token_laws::at(c2, feed, 1 + word.len() as int);
    let operand = Word { bytes: word, offset: (c2.offset + 1) as u64 };
    assert(header::alias_operand(c2) == token_laws::given((operand, false), c3));
    simple_words_are_constants(c3, value, operand.offset);
    item_laws::line_ends_stop(c3, text);
    assert(kind != seq![0x2cu8]);
}

proof fn simple_words_are_written(text: Seq<char>)
    requires
        simple_words().contains(text),
    ensures
        vstd::utf8::encode_utf8(text).len() == text.len(),
        token_laws::bare_token(vstd::utf8::encode_utf8(text)),
        vstd::utf8::encode_utf8(text) != vstd::utf8::encode_utf8("ptr"@),
        vstd::utf8::encode_utf8(text)[0] != 0x40,
{
    words_are_distinct();
    words_are_written();
    let list_simple_words = simple_words();
    assert(list_simple_words[0] == "null"@
        && list_simple_words[1] == "undef"@
        && list_simple_words[2] == "poison"@
        && list_simple_words[3] == "zeroinitializer"@
        && list_simple_words[4] == "true"@
        && list_simple_words[5] == "false"@);
    spelled_out(text);
}

/// A line that starts with a global name, an equals sign and any of the keywords, and continues
/// with `alias` and a constant of one word, adds one definition: an alias of an expression. It
/// spans the whole line.
#[verifier::spinoff_prover]
#[verifier::rlimit(60)]
pub proof fn expressions_add_their_definition(
    name: Seq<char>,
    words: Seq<Seq<char>>,
    kind: Seq<u8>,
    value: Seq<char>,
    text: Seq<u8>,
    ending: Option<SourceError>,
    offset: u64,
    found: Seq<Definition>,
)
    requires
        item_laws::plain_name(name),
        simple_words().contains(value),
        line_laws::all_keywords(words),
        token_laws::bare_token(kind),
        token_laws::name_byte(kind[0]),
        line_laws::opening(vstd::utf8::encode_utf8(name), words).len() + 7 + word_operand(
            kind,
            value,
        ).len() <= 1048576,
        offset + line_laws::opening(vstd::utf8::encode_utf8(name), words).len() + 7 + word_operand(
            kind,
            value,
        ).len() <= u64::MAX,
    ensures
        ({
            let line = line_laws::opening(vstd::utf8::encode_utf8(name), words) + (seq![0x20u8] + (
            vstd::utf8::encode_utf8("alias"@) + (word_operand(kind, value) + seq![0x0au8])));
            let made = Definition {
                symbol: name,
                start: offset,
                end: (offset + line.len()) as u64,
                kind: DefinitionKind::ExpressionAlias,
            };
            scanner::definitions(line_laws::outside(line + text, ending, offset), found)
                == scanner::definitions(
                line_laws::outside(text, ending, (offset + line.len()) as u64),
                found.push(made),
            )
        }),
{
    let bytes = vstd::utf8::encode_utf8(name);
    let opened = line_laws::opening(bytes, words);
    let operand = word_operand(kind, value);
    let letters = vstd::utf8::encode_utf8("alias"@);
    let line = opened + (seq![0x20u8] + (letters + (operand + seq![0x0au8])));
    line_laws::alias_words("alias"@);
    item_laws::alias_lines_are_joined(opened, letters, operand, text);
    let c = line_laws::outside(line + text, ending, offset);
    let tail = operand + (seq![0x0au8] + text);
    let rest = seq![0x20u8] + (letters + tail);
    item_laws::plain_names_are_symbols(name, c.offset);
    line_laws::openings_are_joined(bytes, words, rest);
    line_laws::openings_are_passed(c, bytes, words, rest);
    let start = c.with_header(Some(c.offset));
    let before = token_laws::at(start, rest, opened.len() as int);
    let end = line_laws::outside(text, ending, (offset + line.len()) as u64);
    expression_kinds(before, kind, value, text);
    assert(token_laws::at(
        before.with_header(None),
        text,
        2 + letters.len() as int + operand.len() as int,
    ) == end);
    assert(c.rest[0] == 0x40);
    line_laws::globals_are_items(
        c,
        Word { bytes: seq![0x40u8] + bytes, offset: c.offset },
        token_laws::at(
            start,
            seq![0x20u8, 0x3du8] + (line_laws::spelled(words) + rest),
            1 + bytes.len() as int,
        ),
        token_laws::at(start, line_laws::spelled(words) + rest, 3 + bytes.len() as int),
        Some(DefinitionKind::ExpressionAlias),
        end,
    );
    let made = Definition {
        symbol: name,
        start: offset,
        end: (offset + line.len()) as u64,
        kind: DefinitionKind::ExpressionAlias,
    };
    line_laws::defining_items_add_theirs(c, made, end, found);
}

proof fn expression_kinds(before: Cursor, kind: Seq<u8>, value: Seq<char>, text: Seq<u8>)
    requires
        before.rest == seq![0x20u8] + (vstd::utf8::encode_utf8("alias"@) + (word_operand(
            kind,
            value,
        ) + (seq![0x0au8] + text))),
        simple_words().contains(value),
        token_laws::bare_token(kind),
        token_laws::name_byte(kind[0]),
        token_laws::room(before, 7 + word_operand(kind, value).len() as int),
    ensures
        scanner::global(before) == token_laws::given(
            Some(DefinitionKind::ExpressionAlias),
            token_laws::at(
                before.with_header(None),
                text,
                2 + vstd::utf8::encode_utf8("alias"@).len() as int + word_operand(
                    kind,
                    value,
                ).len() as int,
            ),
        ),
{
    let letters = vstd::utf8::encode_utf8("alias"@);
    let operand = word_operand(kind, value);
    let tail = operand + (seq![0x0au8] + text);
    line_laws::alias_words("alias"@);
    assert(tail[0] == 0x20) by {
        word_operands_are_joined(kind, value, seq![0x0au8] + text);
    }
    token_laws::written_tokens_are_read(before, seq![0x20u8], letters, tail, false);
    let after = token_laws::at(before, tail, 1 + letters.len() as int);
    word_operands_are_read(after, kind, value, text);
    let end = token_laws::at(after, text, operand.len() as int + 1);
    assert(end.with_header(None) == token_laws::at(
        before.with_header(None),
        text,
        2 + letters.len() as int + operand.len() as int,
    ));
}

} // verus!

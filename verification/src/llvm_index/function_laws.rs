//! What functions add to an index.

use super::body_laws;
use super::header;
use super::item_laws;
use super::line_laws;
use super::model;
use super::model::{Cursor, Step};
use super::scanner;
use super::token_laws;
use crate::records::{Definition, DefinitionKind};
use crate::source::SourceError;
use vstd::prelude::*;

verus! {

/// Tokens, each behind a blank.
pub open spec fn spaced(tokens: Seq<Seq<u8>>) -> Seq<u8>
    decreases tokens.len(),
{
    if tokens.len() == 0 {
        Seq::empty()
    } else {
        seq![0x20u8] + tokens[0] + spaced(tokens.skip(1))
    }
}

/// A word that can stand in a header: name bytes, and neither the keyword of another item nor that
/// of a constant behind the parameters.
pub open spec fn header_word(token: Seq<u8>) -> bool {
    &&& token.len() > 0
    &&& token_laws::name_run(token)
    &&& token != vstd::utf8::encode_utf8("define"@)
    &&& token != vstd::utf8::encode_utf8("declare"@)
    &&& token != vstd::utf8::encode_utf8("prefix"@)
    &&& token != vstd::utf8::encode_utf8("prologue"@)
    &&& token != vstd::utf8::encode_utf8("personality"@)
}

/// A token that can stand among parameters: a bare token or a comma.
pub open spec fn parameter_token(token: Seq<u8>) -> bool {
    token_laws::bare_token(token) || token == seq![0x2cu8]
}

proof fn header_words_are_bare(token: Seq<u8>)
    requires
        header_word(token),
    ensures
        token_laws::bare_token(token),
        token_laws::name_byte(token[0]),
{
    let rest = token.skip(1);
    assert forall|i: int| 0 <= i < rest.len() implies token_laws::name_byte(#[trigger] rest[i]) by {
        assert(rest[i] == token[i + 1]);
    }
}

#[verifier::opaque]
spec fn name_at(c: Cursor) -> Step<Seq<char>> {
    header::function_name(c)
}

#[verifier::opaque]
spec fn tail_at(c: Cursor) -> Step<()> {
    header::function_tail(c)
}

#[verifier::opaque]
spec fn group_at(c: Cursor) -> Step<()> {
    model::group(c, seq![0x29u8])
}

proof fn one_type_is_passed(c: Cursor, token: Seq<u8>, behind: Seq<u8>)
    requires
        header_word(token),
        c.rest == seq![0x20u8] + (token + behind),
        behind.len() > 0,
        behind[0] == 0x20,
        token_laws::room(c, 1 + token.len() as int),
    ensures
        name_at(c) == name_at(token_laws::at(c, behind, 1 + token.len() as int)),
{
    reveal(name_at);
    header_words_are_bare(token);
    token_laws::written_tokens_are_read(c, seq![0x20u8], token, behind, false);
}

proof fn types_are_passed(c: Cursor, tokens: Seq<Seq<u8>>, rest: Seq<u8>)
    requires
        forall|i: int| 0 <= i < tokens.len() ==> header_word(#[trigger] tokens[i]),
        c.rest == spaced(tokens) + rest,
        rest.len() > 0,
        rest[0] == 0x20,
        token_laws::room(c, spaced(tokens).len() as int),
    ensures
        name_at(c) == name_at(token_laws::at(c, rest, spaced(tokens).len() as int)),
    decreases tokens.len(),
{
    if tokens.len() == 0 {
        assert(c.rest =~= rest);
    } else {
        let tail = tokens.skip(1);
        let behind = spaced(tail) + rest;
        assert(behind[0] == 0x20) by {
            if tail.len() == 0 {
                assert(behind =~= rest);
            }
        }
        assert(c.rest =~= seq![0x20u8] + (tokens[0] + behind));
        one_type_is_passed(c, tokens[0], behind);
        let after = token_laws::at(c, behind, 1 + tokens[0].len() as int);
        assert forall|i: int| 0 <= i < tail.len() implies header_word(#[trigger] tail[i]) by {
            assert(tail[i] == tokens[i + 1]);
        }
        types_are_passed(after, tail, rest);
        assert(token_laws::at(after, rest, spaced(tail).len() as int) == token_laws::at(
            c,
            rest,
            spaced(tokens).len() as int,
        ));
    }
}

proof fn one_attribute_is_passed(c: Cursor, token: Seq<u8>, behind: Seq<u8>)
    requires
        header_word(token),
        c.rest == seq![0x20u8] + (token + behind),
        behind.len() > 0,
        behind[0] == 0x20,
        token_laws::room(c, 1 + token.len() as int),
    ensures
        tail_at(c) == tail_at(token_laws::at(c, behind, 1 + token.len() as int)),
{
    reveal(tail_at);
    header_words_are_bare(token);
    token_laws::written_tokens_are_read(c, seq![0x20u8], token, behind, false);
}

proof fn attributes_are_passed(c: Cursor, tokens: Seq<Seq<u8>>, rest: Seq<u8>)
    requires
        forall|i: int| 0 <= i < tokens.len() ==> header_word(#[trigger] tokens[i]),
        c.rest == spaced(tokens) + rest,
        rest.len() > 0,
        rest[0] == 0x20,
        token_laws::room(c, spaced(tokens).len() as int),
    ensures
        tail_at(c) == tail_at(token_laws::at(c, rest, spaced(tokens).len() as int)),
    decreases tokens.len(),
{
    if tokens.len() == 0 {
        assert(c.rest =~= rest);
    } else {
        let tail = tokens.skip(1);
        let behind = spaced(tail) + rest;
        assert(behind[0] == 0x20) by {
            if tail.len() == 0 {
                assert(behind =~= rest);
            }
        }
        assert(c.rest =~= seq![0x20u8] + (tokens[0] + behind));
        one_attribute_is_passed(c, tokens[0], behind);
        let after = token_laws::at(c, behind, 1 + tokens[0].len() as int);
        assert forall|i: int| 0 <= i < tail.len() implies header_word(#[trigger] tail[i]) by {
            assert(tail[i] == tokens[i + 1]);
        }
        attributes_are_passed(after, tail, rest);
        assert(token_laws::at(after, rest, spaced(tail).len() as int) == token_laws::at(
            c,
            rest,
            spaced(tokens).len() as int,
        ));
    }
}

proof fn one_parameter_is_passed(c: Cursor, token: Seq<u8>, behind: Seq<u8>)
    requires
        parameter_token(token),
        c.rest == seq![0x20u8] + (token + behind),
        behind.len() > 0,
        behind[0] == 0x20 || behind[0] == 0x29,
        token_laws::room(c, 1 + token.len() as int),
    ensures
        group_at(c) == group_at(token_laws::at(c, behind, 1 + token.len() as int)),
{
    reveal(group_at);
    token_laws::written_tokens_are_read(c, seq![0x20u8], token, behind, false);
}

proof fn parameters_are_passed(c: Cursor, tokens: Seq<Seq<u8>>, rest: Seq<u8>)
    requires
        forall|i: int| 0 <= i < tokens.len() ==> parameter_token(#[trigger] tokens[i]),
        c.rest == spaced(tokens) + rest,
        rest.len() > 0,
        rest[0] == 0x29,
        token_laws::room(c, spaced(tokens).len() as int),
    ensures
        group_at(c) == group_at(token_laws::at(c, rest, spaced(tokens).len() as int)),
    decreases tokens.len(),
{
    if tokens.len() == 0 {
        assert(c.rest =~= rest);
    } else {
        let tail = tokens.skip(1);
        let behind = spaced(tail) + rest;
        assert(behind[0] == 0x20 || behind[0] == 0x29) by {
            if tail.len() == 0 {
                assert(behind =~= rest);
            }
        }
        assert(c.rest =~= seq![0x20u8] + (tokens[0] + behind));
        one_parameter_is_passed(c, tokens[0], behind);
        let after = token_laws::at(c, behind, 1 + tokens[0].len() as int);
        assert forall|i: int| 0 <= i < tail.len() implies parameter_token(
            #[trigger] tail[i],
        ) by {
            assert(tail[i] == tokens[i + 1]);
        }
        parameters_are_passed(after, tail, rest);
        assert(token_laws::at(after, rest, spaced(tail).len() as int) == token_laws::at(
            c,
            rest,
            spaced(tokens).len() as int,
        ));
    }
}

/// The parameter list of a function, from its parenthesis through the closing one.
pub proof fn parameter_lists_are_read(c: Cursor, tokens: Seq<Seq<u8>>, rest: Seq<u8>)
    requires
        forall|i: int| 0 <= i < tokens.len() ==> parameter_token(#[trigger] tokens[i]),
        c.rest == seq![0x28u8] + (spaced(tokens) + (seq![0x29u8] + rest)),
        rest.len() > 0,
        token_laws::room(c, 2 + spaced(tokens).len() as int),
    ensures
        header::parenthesised(c) == token_laws::given(
            (),
            token_laws::at(c, rest, 2 + spaced(tokens).len() as int),
        ),
{
    let none = Seq::<u8>::empty();
    let close = seq![0x29u8] + rest;
    let inner = spaced(tokens) + close;
    assert(c.rest =~= none + (seq![0x28u8] + inner));
    assert(inner.len() > 0);
    token_laws::written_tokens_are_read(c, none, seq![0x28u8], inner, false);
    let opened = token_laws::at(c, inner, 1);
    parameters_are_passed(opened, tokens, close);
    let closing = token_laws::at(opened, close, spaced(tokens).len() as int);
    assert(closing.rest =~= none + (seq![0x29u8] + rest));
    token_laws::written_tokens_are_read(closing, none, seq![0x29u8], rest, false);
    reveal(group_at);
    reveal_with_fuel(model::group, 2);
    let end = token_laws::at(closing, rest, 1);
    assert(seq![0x29u8].drop_last() =~= none);
    assert(model::group(end, none) == token_laws::given((), end));
    assert(model::group(closing, seq![0x29u8]) == token_laws::given((), end));
    assert(end == token_laws::at(c, rest, 2 + spaced(tokens).len() as int));
}

/// The header of a function behind its keyword: its result, its name, its parameters and its
/// attributes, through the opening brace.
pub open spec fn function_header(
    types: Seq<Seq<u8>>,
    name: Seq<char>,
    parameters: Seq<Seq<u8>>,
    attributes: Seq<Seq<u8>>,
) -> Seq<u8> {
    spaced(types) + seq![0x20u8] + (seq![0x40u8] + vstd::utf8::encode_utf8(name)) + seq![0x28u8]
        + spaced(parameters) + seq![0x29u8] + spaced(attributes) + seq![0x20u8, 0x7bu8]
}

proof fn headers_are_joined(
    types: Seq<Seq<u8>>,
    name: Seq<char>,
    parameters: Seq<Seq<u8>>,
    attributes: Seq<Seq<u8>>,
    rest: Seq<u8>,
)
    ensures
        function_header(types, name, parameters, attributes) + rest == spaced(types) + (seq![0x20u8]
            + ((seq![0x40u8] + vstd::utf8::encode_utf8(name)) + (seq![0x28u8] + (spaced(parameters)
            + (seq![0x29u8] + (spaced(attributes) + (seq![0x20u8] + (seq![0x7bu8] + rest)))))))),
        function_header(types, name, parameters, attributes).len() == spaced(types).len() + 6
            + vstd::utf8::encode_utf8(name).len() + spaced(parameters).len() + spaced(
            attributes,
        ).len(),
{
    let a = spaced(types);
    let b = seq![0x40u8] + vstd::utf8::encode_utf8(name);
    let p = spaced(parameters);
    let t = spaced(attributes);
    assert(a + seq![0x20u8] + b + seq![0x28u8] + p + seq![0x29u8] + t + seq![0x20u8, 0x7bu8] + rest
        =~= a + (seq![0x20u8] + (b + (seq![0x28u8] + (p + (seq![0x29u8] + (t + (seq![0x20u8] + (
    seq![0x7bu8] + rest)))))))));
}

proof fn names_are_read(c: Cursor, name: Seq<char>, rest: Seq<u8>)
    requires
        item_laws::plain_name(name),
        c.rest == seq![0x20u8] + ((seq![0x40u8] + vstd::utf8::encode_utf8(name)) + rest),
        rest.len() > 0,
        rest[0] == 0x28,
        token_laws::room(c, 2 + vstd::utf8::encode_utf8(name).len() as int),
    ensures
        name_at(c) == token_laws::given(
            name,
            token_laws::at(c, rest, 2 + vstd::utf8::encode_utf8(name).len() as int),
        ),
{
    reveal(name_at);
    let sign = seq![0x40u8] + vstd::utf8::encode_utf8(name);
    item_laws::plain_names_are_symbols(name, (c.offset + 1) as u64);
    token_laws::written_tokens_are_read(c, seq![0x20u8], sign, rest, false);
    assert(sign[0] == 0x40);
}

proof fn braces_are_read(c: Cursor, rest: Seq<u8>)
    requires
        c.rest == seq![0x20u8] + (seq![0x7bu8] + rest),
        rest.len() > 0,
        token_laws::room(c, 2),
    ensures
        tail_at(c) == token_laws::given((), token_laws::at(c, rest, 2)),
{
    reveal(tail_at);
    token_laws::written_tokens_are_read(c, seq![0x20u8], seq![0x7bu8], rest, false);
}

#[verifier::spinoff_prover]
#[verifier::rlimit(40)]
proof fn headers_are_read(
    c: Cursor,
    types: Seq<Seq<u8>>,
    name: Seq<char>,
    parameters: Seq<Seq<u8>>,
    attributes: Seq<Seq<u8>>,
    rest: Seq<u8>,
)
    requires
        forall|i: int| 0 <= i < types.len() ==> header_word(#[trigger] types[i]),
        item_laws::plain_name(name),
        forall|i: int| 0 <= i < parameters.len() ==> parameter_token(#[trigger] parameters[i]),
        forall|i: int| 0 <= i < attributes.len() ==> header_word(#[trigger] attributes[i]),
        c.rest == function_header(types, name, parameters, attributes) + rest,
        rest.len() > 0,
        token_laws::room(c, function_header(types, name, parameters, attributes).len() as int),
    ensures
        header::function(c) == token_laws::given(
            name,
            token_laws::at(
                c,
                rest,
                function_header(types, name, parameters, attributes).len() as int,
            ),
        ),
{
    let sign = seq![0x40u8] + vstd::utf8::encode_utf8(name);
    let r4 = seq![0x20u8] + (seq![0x7bu8] + rest);
    let r3 = spaced(attributes) + r4;
    let r2 = seq![0x28u8] + (spaced(parameters) + (seq![0x29u8] + r3));
    let r1 = seq![0x20u8] + (sign + r2);
    headers_are_joined(types, name, parameters, attributes, rest);
    types_are_passed(c, types, r1);
    let c1 = token_laws::at(c, r1, spaced(types).len() as int);
    names_are_read(c1, name, r2);
    let c2 = token_laws::at(c1, r2, 2 + vstd::utf8::encode_utf8(name).len() as int);
    parameter_lists_are_read(c2, parameters, r3);
    let c3 = token_laws::at(c2, r3, 2 + spaced(parameters).len() as int);
    attributes_are_passed(c3, attributes, r4);
    let c4 = token_laws::at(c3, r4, spaced(attributes).len() as int);
    braces_are_read(c4, rest);
    functions_are_read(c, name, c2, c3, token_laws::at(c4, rest, 2));
}

proof fn functions_are_read(c: Cursor, name: Seq<char>, named: Cursor, listed: Cursor, end: Cursor)
    requires
        name_at(c) == token_laws::given(name, named),
        header::parenthesised(named) == token_laws::given((), listed),
        tail_at(listed) == token_laws::given((), end),
    ensures
        header::function(c) == token_laws::given(name, end),
{
    reveal(name_at);
    reveal(tail_at);
}

proof fn keywords_are_functions(
    c: Cursor,
    probed: Cursor,
    name: Seq<char>,
    opened: Cursor,
    end: Cursor,
)
    requires
        c.rest.len() > 0,
        c.rest[0] == 0x64,
        scanner::probe(c, Seq::empty()) == token_laws::given(
            vstd::utf8::encode_utf8("define"@),
            probed,
        ),
        probed.rest.len() > 0,
        probed.rest[0] == 0x20,
        header::function(probed.with_header(Some(c.offset))) == token_laws::given(name, opened),
        model::body(opened.with_header(None), model::fresh_body()) == token_laws::given((), end),
        name.len() > 0,
    ensures
        scanner::item(c) == token_laws::given(
            Some(
                Definition {
                    symbol: name,
                    start: c.offset,
                    end: end.offset,
                    kind: DefinitionKind::Function,
                },
            ),
            end,
        ),
{
}

proof fn the_keyword_is_plain()
    ensures
        vstd::utf8::encode_utf8("define"@).len() == 6,
        vstd::utf8::encode_utf8("define"@)[0] == 0x64,
        forall|i: int|
            0 <= i < 6 ==> #[trigger] vstd::utf8::encode_utf8("define"@)[i] != 0x0a,
{
    reveal_strlit("define");
    assert("define"@ =~= seq!['d', 'e', 'f', 'i', 'n', 'e']);
    token_laws::ascii_is_written_as_it_is("define"@);
    let word = vstd::utf8::encode_utf8("define"@);
    assert forall|i: int| 0 <= i < 6 implies #[trigger] word[i] != 0x0a by {
        assert(word[i] == "define"@[i] as u8);
    }
}

proof fn definitions_are_joined(word: Seq<u8>, head: Seq<u8>, body: Seq<u8>, text: Seq<u8>)
    ensures
        word + head + body + seq![0x7du8] + text == word + (head + (body + (seq![0x7du8] + text))),
        (word + head + body + seq![0x7du8]).len() == word.len() + head.len() + body.len() + 1,
{
    assert(word + head + body + seq![0x7du8] + text =~= word + (head + (body + (seq![0x7du8]
        + text))));
}

/// A definition of a function adds one record of its name. It spans the bytes from the keyword
/// through the brace that closes the body. Braces inside a string or a comment of the body close
/// nothing, and those inside the body are paired.
#[verifier::spinoff_prover]
#[verifier::rlimit(60)]
pub proof fn functions_add_their_definition(
    types: Seq<Seq<u8>>,
    name: Seq<char>,
    parameters: Seq<Seq<u8>>,
    attributes: Seq<Seq<u8>>,
    pieces: Seq<Seq<u8>>,
    text: Seq<u8>,
    ending: Option<SourceError>,
    offset: u64,
    found: Seq<Definition>,
)
    requires
        forall|i: int| 0 <= i < types.len() ==> header_word(#[trigger] types[i]),
        item_laws::plain_name(name),
        forall|i: int| 0 <= i < parameters.len() ==> parameter_token(#[trigger] parameters[i]),
        forall|i: int| 0 <= i < attributes.len() ==> header_word(#[trigger] attributes[i]),
        forall|i: int| 0 <= i < pieces.len() ==> body_laws::part(#[trigger] pieces[i]),
        6 + function_header(types, name, parameters, attributes).len() <= 1048576,
        offset + 7 + function_header(types, name, parameters, attributes).len() + body_laws::written(pieces).len()
            <= u64::MAX,
    ensures
        ({
            let whole = vstd::utf8::encode_utf8("define"@) + function_header(
                types,
                name,
                parameters,
                attributes,
            ) + body_laws::written(pieces) + seq![0x7du8];
            let made = Definition {
                symbol: name,
                start: offset,
                end: (offset + whole.len()) as u64,
                kind: DefinitionKind::Function,
            };
            scanner::definitions(line_laws::outside(whole + text, ending, offset), found)
                == scanner::definitions(
                line_laws::outside(text, ending, (offset + whole.len()) as u64),
                found.push(made),
            )
        }),
{
    let word = vstd::utf8::encode_utf8("define"@);
    let body = body_laws::written(pieces);
    let head = function_header(types, name, parameters, attributes);
    let whole = word + head + body + seq![0x7du8];
    the_keyword_is_plain();
    definitions_are_joined(word, head, body, text);
    let c = line_laws::outside(whole + text, ending, offset);
    function_items(c, types, name, parameters, attributes, pieces, text);
    let end = line_laws::outside(text, ending, (offset + whole.len()) as u64);
    assert(token_laws::at(c, text, 7 + head.len() as int + body_laws::written(pieces).len() as int) == end);
    let made = Definition {
        symbol: name,
        start: offset,
        end: (offset + whole.len()) as u64,
        kind: DefinitionKind::Function,
    };
    line_laws::defining_items_add_theirs(c, made, end, found);
}

#[verifier::spinoff_prover]
#[verifier::rlimit(60)]
proof fn function_items(
    c: Cursor,
    types: Seq<Seq<u8>>,
    name: Seq<char>,
    parameters: Seq<Seq<u8>>,
    attributes: Seq<Seq<u8>>,
    pieces: Seq<Seq<u8>>,
    text: Seq<u8>,
)
    requires
        c.header is None,
        c.rest == vstd::utf8::encode_utf8("define"@) + (function_header(
            types,
            name,
            parameters,
            attributes,
        ) + (body_laws::written(pieces) + (seq![0x7du8] + text))),
        forall|i: int| 0 <= i < types.len() ==> header_word(#[trigger] types[i]),
        item_laws::plain_name(name),
        forall|i: int| 0 <= i < parameters.len() ==> parameter_token(#[trigger] parameters[i]),
        forall|i: int| 0 <= i < attributes.len() ==> header_word(#[trigger] attributes[i]),
        forall|i: int| 0 <= i < pieces.len() ==> body_laws::part(#[trigger] pieces[i]),
        6 + function_header(types, name, parameters, attributes).len() <= 1048576,
        c.offset + 7 + function_header(types, name, parameters, attributes).len() + body_laws::written(pieces).len()
            <= u64::MAX,
    ensures
        ({
            let end = token_laws::at(
                c,
                text,
                7 + function_header(types, name, parameters, attributes).len() as int
                    + body_laws::written(pieces).len() as int,
            );
            scanner::item(c) == token_laws::given(
                Some(
                    Definition {
                        symbol: name,
                        start: c.offset,
                        end: end.offset,
                        kind: DefinitionKind::Function,
                    },
                ),
                end,
            )
        }),
{
    let word = vstd::utf8::encode_utf8("define"@);
    let body = body_laws::written(pieces);
    let head = function_header(types, name, parameters, attributes);
    let tail = body + (seq![0x7du8] + text);
    the_keyword_is_plain();
    assert forall|i: int| 0 <= i < 6 implies #[trigger] c.rest[i] != 0x0a by {
        assert(c.rest[i] == word[i]);
    }
    let none = Seq::<u8>::empty();
    item_laws::probes_are_read(c, none, 6);
    assert(none + c.rest.take(6) =~= word);
    let probed = token_laws::forward(c, 6);
    assert(probed.rest =~= head + tail);
    assert(scanner::probe(c, none) == token_laws::given(word, probed));
    let started = probed.with_header(Some(c.offset));
    headers_are_read(started, types, name, parameters, attributes, tail);
    let opened = token_laws::at(started, tail, head.len() as int);
    body_laws::bodies_are_passed(opened.with_header(None), pieces, text);
    let end = token_laws::at(c, text, 7 + head.len() as int + body_laws::written(pieces).len() as int);
    assert(token_laws::at(opened.with_header(None), text, body_laws::written(pieces).len() as int + 1) == end);
    assert(c.rest[0] == word[0]);
    assert(probed.rest[0] == 0x20) by {
        headers_are_joined(types, name, parameters, attributes, tail);
        if types.len() > 0 {
            assert(spaced(types)[0] == 0x20);
            assert(probed.rest[0] == spaced(types)[0]);
        } else {
            assert(spaced(types) =~= none);
        }
    }
    keywords_are_functions(c, probed, name, opened, end);
}

} // verus!

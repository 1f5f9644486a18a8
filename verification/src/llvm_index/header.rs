//! Reads function headers and alias operands from LLVM tokens.
//!
//! Delimiter checks establish definition boundaries. The scanner does not verify LLVM types or
//! instruction semantics, which the disassembler already validated.

use super::error::{Fault, IndexError};
use super::model;
use super::model::{Cursor, Step, Word};
use crate::source::ByteSource;
use super::stream;
use super::stream::{is_closing, matching_close, Stream};
use super::symbol;
use super::symbol::Token;
use crate::bytes;
use vstd::prelude::*;

verus! {

/// A token that cannot occur inside a header: the start of another item or a body end.
pub open spec fn foreign(word: Word) -> bool {
    bytes::reads(word.bytes, "define"@) || bytes::reads(word.bytes, "declare"@) || word.bytes
        == seq!['}' as u8]
}

/// The symbol of a token, read at a cursor.
pub open spec fn symbol_at(c: Cursor, word: Word) -> Step<Seq<char>> {
    match symbol::symbol(word) {
        Err(error) => Err(error),
        Ok(name) => Ok((name, c)),
    }
}

/// The name of a function, which stands behind its result type and attributes.
pub open spec fn function_name(c: Cursor) -> Step<Seq<char>>
    decreases c.rest.len(),
{
    match model::required(c) {
        Err(error) => Err(error),
        Ok((word, after)) => if bytes::opens_with(word.bytes, '@' as u8) {
            symbol_at(after, word)
        } else if foreign(word) {
            model::malformed(word.offset, Fault::NoFunctionName)
        } else {
            match model::group_of(after, word) {
                Err(error) => Err(error),
                Ok((_, behind)) => {
                    proof {
                        model::required_advances(c);
                        model::group_of_advances(after, word);
                    }
                    function_name(behind)
                },
            }
        },
    }
}

/// A parenthesised list.
pub open spec fn parenthesised(c: Cursor) -> Step<()> {
    match model::expected(c, '(' as u8, Fault::NotParenthesis) {
        Err(error) => Err(error),
        Ok((_, after)) => model::group(after, seq![')' as u8]),
    }
}

/// What may stand between the parameters of a function and its body.
pub open spec fn function_tail(c: Cursor) -> Step<()>
    decreases c.rest.len(),
{
    match model::required(c) {
        Err(error) => Err(error),
        Ok((word, after)) => {
            let part = if word.bytes == seq!['{' as u8] {
                Ok(((), after))
            } else if bytes::reads(word.bytes, "prefix"@) || bytes::reads(
                word.bytes,
                "prologue"@,
            ) || bytes::reads(word.bytes, "personality"@) {
                typed_constant(after)
            } else if word.bytes == seq!['!' as u8] {
                match model::required(after) {
                    Err(error) => Err(error),
                    Ok((metadata, behind)) => model::group_of(behind, metadata),
                }
            } else if foreign(word) {
                model::malformed(word.offset, Fault::NoFunctionBody)
            } else {
                model::group_of(after, word)
            };
            match part {
                Err(error) => Err(error),
                Ok((_, behind)) => if word.bytes == seq!['{' as u8] {
                    Ok(((), behind))
                } else {
                    proof {
                        tail_part_advances(c);
                    }
                    function_tail(behind)
                },
            }
        },
    }
}

/// A function header from behind its keyword through the opening body brace.
pub open spec fn function(c: Cursor) -> Step<Seq<char>> {
    match function_name(c) {
        Err(error) => Err(error),
        Ok((name, named)) => match parenthesised(named) {
            Err(error) => Err(error),
            Ok((_, after)) => match function_tail(after) {
                Err(error) => Err(error),
                Ok((_, behind)) => Ok((name, behind)),
            },
        },
    }
}

/// A constant that is complete with its first token.
pub open spec fn simple_constant(token: Seq<u8>) -> bool {
    bytes::reads(token, "null"@) || bytes::reads(token, "undef"@) || bytes::reads(token, "poison"@)
        || bytes::reads(token, "zeroinitializer"@) || bytes::reads(token, "true"@) || bytes::reads(
        token,
        "false"@,
    ) || (token.len() > 0 && bytes::digit(token[0])) || bytes::opens_with(token, '-' as u8)
}

/// The opcodes of constant expressions.
pub open spec fn constant_opcode(token: Seq<u8>) -> bool {
    bytes::reads(token, "getelementptr"@) || bytes::reads(token, "bitcast"@) || bytes::reads(
        token,
        "addrspacecast"@,
    ) || bytes::reads(token, "inttoptr"@) || bytes::reads(token, "ptrtoint"@) || bytes::reads(
        token,
        "trunc"@,
    ) || bytes::reads(token, "blockaddress"@) || bytes::reads(token, "ptrauth"@) || bytes::reads(
        token,
        "splat"@,
    )
}

/// The flags of an address computation.
pub open spec fn address_flag(token: Seq<u8>) -> bool {
    bytes::reads(token, "inbounds"@) || bytes::reads(token, "nuw"@) || bytes::reads(token, "nusw"@)
}

/// The first token at or behind the given one that is no address flag.
pub open spec fn behind_flags(c: Cursor, word: Word) -> Step<Word>
    decreases c.rest.len(),
{
    if address_flag(word.bytes) {
        match model::required(c) {
            Err(error) => Err(error),
            Ok((next, after)) => {
                proof {
                    model::required_advances(c);
                }
                behind_flags(after, next)
            },
        }
    } else {
        Ok((word, c))
    }
}

/// The operand list of a constant expression.
pub open spec fn operands(c: Cursor, opcode: Seq<u8>) -> Step<()> {
    match model::required(c) {
        Err(error) => Err(error),
        Ok((first, after)) => {
            let next = if bytes::reads(opcode, "getelementptr"@) {
                behind_flags(after, first)
            } else {
                Ok((first, after))
            };
            match next {
                Err(error) => Err(error),
                Ok((word, behind)) => if word.bytes == seq!['(' as u8] {
                    model::group(behind, seq![')' as u8])
                } else {
                    model::malformed(word.offset, Fault::NoOperands)
                },
            }
        },
    }
}

/// A constant that starts with a token.
pub open spec fn constant(c: Cursor, word: Word) -> Step<()> {
    let token = word.bytes;
    if token.len() == 1 && model::closer(token[0]) is Some {
        model::group(c, seq![model::closer(token[0])->0])
    } else if bytes::opens_with(token, '@' as u8) {
        match symbol::symbol(word) {
            Err(error) => Err(error),
            Ok(_) => Ok(((), c)),
        }
    } else if bytes::reads(token, "dso_local_equivalent"@) || bytes::reads(token, "no_cfi"@) {
        match model::required(c) {
            Err(error) => Err(error),
            Ok((wrapped, after)) => match symbol::symbol(wrapped) {
                Err(error) => Err(error),
                Ok(_) => Ok(((), after)),
            },
        }
    } else if token == seq!['c' as u8] {
        match model::required(c) {
            Err(error) => Err(error),
            Ok((string, after)) => if bytes::opens_with(string.bytes, '"' as u8) {
                Ok(((), after))
            } else {
                model::malformed(string.offset, Fault::NoByteString)
            },
        }
    } else if simple_constant(token) {
        Ok(((), c))
    } else if constant_opcode(token) {
        operands(c, token)
    } else {
        model::malformed(word.offset, Fault::UnknownConstant)
    }
}

/// A constant behind its type.
pub open spec fn typed_constant(c: Cursor) -> Step<()> {
    match model::required(c) {
        Err(error) => Err(error),
        Ok((kind, after)) => match model::group_of(after, kind) {
            Err(error) => Err(error),
            Ok((_, behind)) => match model::required(behind) {
                Err(error) => Err(error),
                Ok((value, valued)) => if bytes::reads(kind.bytes, "ptr"@) && bytes::reads(
                    value.bytes,
                    "addrspace"@,
                ) {
                    match parenthesised(valued) {
                        Err(error) => Err(error),
                        Ok((_, spaced)) => match model::required(spaced) {
                            Err(error) => Err(error),
                            Ok((pointed, end)) => constant(end, pointed),
                        },
                    }
                } else {
                    constant(valued, value)
                },
            },
        },
    }
}

/// The rest of an alias type through its comma.
pub open spec fn alias_type(c: Cursor) -> Step<()>
    decreases c.rest.len(),
{
    match model::required(c) {
        Err(error) => Err(error),
        Ok((word, after)) => if word.bytes == seq![',' as u8] {
            Ok(((), after))
        } else if word.bytes == seq!['=' as u8] || bytes::reads(word.bytes, "define"@)
            || bytes::reads(word.bytes, "declare"@) || bytes::opens_with(word.bytes, '@' as u8) {
            model::malformed(word.offset, Fault::NoAliasComma)
        } else {
            match model::group_of(after, word) {
                Err(error) => Err(error),
                Ok((_, behind)) => {
                    proof {
                        model::required_advances(c);
                        model::group_of_advances(after, word);
                    }
                    alias_type(behind)
                },
            }
        },
    }
}

/// The operand of an alias behind its optional pointer type. The flag tells whether it has one.
pub open spec fn alias_operand(c: Cursor) -> Step<(Word, bool)> {
    match model::required(c) {
        Err(error) => Err(error),
        Ok((first, after)) => if bytes::reads(first.bytes, "ptr"@) {
            match model::required(after) {
                Err(error) => Err(error),
                Ok((second, behind)) => if bytes::reads(second.bytes, "addrspace"@) {
                    match parenthesised(behind) {
                        Err(error) => Err(error),
                        Ok((_, spaced)) => match model::required(spaced) {
                            Err(error) => Err(error),
                            Ok((third, end)) => Ok(((third, true), end)),
                        },
                    }
                } else {
                    Ok(((second, true), behind))
                },
            }
        } else {
            Ok(((first, false), after))
        },
    }
}

/// The direct target of an alias operand, or `None` for a constant expression.
pub open spec fn alias_value(c: Cursor, operand: Word, typed: bool) -> Step<Option<Seq<char>>> {
    if bytes::opens_with(operand.bytes, '@' as u8) {
        if typed {
            match symbol::symbol(operand) {
                Err(error) => Err(error),
                Ok(name) => Ok((Some(name), c)),
            }
        } else {
            model::malformed(operand.offset, Fault::NoPointerType)
        }
    } else {
        match constant(c, operand) {
            Err(error) => Err(error),
            Ok((_, after)) => Ok((None, after)),
        }
    }
}

/// The part of an alias suffix behind its comma.
pub open spec fn alias_suffix(c: Cursor) -> Step<()> {
    match model::required(c) {
        Err(error) => Err(error),
        Ok((suffix, after)) => if bytes::opens_with(suffix.bytes, '!' as u8) {
            match model::required(after) {
                Err(error) => Err(error),
                Ok((metadata, behind)) => model::group_of(behind, metadata),
            }
        } else if bytes::reads(suffix.bytes, "partition"@) {
            match model::required(after) {
                Err(error) => Err(error),
                Ok((name, behind)) => if bytes::opens_with(name.bytes, '"' as u8) {
                    Ok(((), behind))
                } else {
                    model::malformed(name.offset, Fault::NoPartitionString)
                },
            }
        } else {
            model::malformed(suffix.offset, Fault::BadSuffix)
        },
    }
}

/// The suffixes of an alias through the end of their line.
pub open spec fn alias_suffixes(c: Cursor) -> Step<()>
    decreases c.rest.len(),
{
    match model::token(c, true) {
        Err(error) => Err(error),
        Ok((None, after)) => Ok(((), after)),
        Ok((Some(word), after)) => if word.bytes == seq![',' as u8] {
            match alias_suffix(after) {
                Err(error) => Err(error),
                Ok((_, behind)) => {
                    proof {
                        model::token_advances(c, true);
                        alias_suffix_advances(after);
                    }
                    alias_suffixes(behind)
                },
            }
        } else {
            model::malformed(word.offset, Fault::ExtraOperand)
        },
    }
}

/// The type, operand and suffixes of an alias. The value is its direct target, if it has one.
pub open spec fn alias_target(c: Cursor) -> Step<Option<Seq<char>>> {
    match model::required(c) {
        Err(error) => Err(error),
        Ok((first, after)) => if first.bytes == seq![',' as u8] {
            model::malformed(first.offset, Fault::NoAliasType)
        } else {
            match model::group_of(after, first) {
                Err(error) => Err(error),
                Ok((_, begun)) => match alias_type(begun) {
                    Err(error) => Err(error),
                    Ok((_, divided)) => match alias_operand(divided) {
                        Err(error) => Err(error),
                        Ok(((operand, typed), read)) => match alias_value(read, operand, typed) {
                            Err(error) => Err(error),
                            Ok((target, valued)) => match alias_suffixes(valued) {
                                Err(error) => Err(error),
                                Ok((_, behind)) => Ok((target, behind)),
                            },
                        },
                    },
                },
            }
        },
    }
}

/// A parenthesised list moves the cursor.
pub proof fn parenthesised_advances(c: Cursor)
    ensures
        parenthesised(c) matches Ok((_, after)) ==> c.leads_to(after) && after.rest.len()
            < c.rest.len(),
{
    model::required_advances(c);
    if let Ok((_, after)) = model::expected(c, '(' as u8, Fault::NotParenthesis) {
        model::group_advances(after, seq![')' as u8]);
        if let Ok((_, behind)) = model::group(after, seq![')' as u8]) {
            model::leads_to_transitive(c, after, behind);
        }
    }
}

proof fn behind_flags_advances(c: Cursor, word: Word)
    ensures
        behind_flags(c, word) matches Ok((_, after)) ==> c.leads_to(after),
    decreases c.rest.len(),
{
    model::leads_to_itself(c);
    model::required_advances(c);
    if address_flag(word.bytes) {
        if let Ok((next, after)) = model::required(c) {
            behind_flags_advances(after, next);
            if let Ok((_, behind)) = behind_flags(after, next) {
                model::leads_to_transitive(c, after, behind);
            }
        }
    }
}

proof fn operands_advances(c: Cursor, opcode: Seq<u8>)
    ensures
        operands(c, opcode) matches Ok((_, after)) ==> c.leads_to(after),
{
    model::required_advances(c);
    if let Ok((first, after)) = model::required(c) {
        behind_flags_advances(after, first);
        model::leads_to_itself(after);
        let next = if bytes::reads(opcode, "getelementptr"@) {
            behind_flags(after, first)
        } else {
            Ok((first, after))
        };
        if let Ok((_, behind)) = next {
            model::leads_to_transitive(c, after, behind);
            model::group_advances(behind, seq![')' as u8]);
            if let Ok((_, end)) = model::group(behind, seq![')' as u8]) {
                model::leads_to_transitive(c, behind, end);
            }
        }
    }
}

proof fn constant_advances(c: Cursor, word: Word)
    ensures
        constant(c, word) matches Ok((_, after)) ==> c.leads_to(after),
{
    model::leads_to_itself(c);
    model::required_advances(c);
    operands_advances(c, word.bytes);
    if word.bytes.len() == 1 && model::closer(word.bytes[0]) is Some {
        model::group_advances(c, seq![model::closer(word.bytes[0])->0]);
    }
}

proof fn typed_constant_advances(c: Cursor)
    ensures
        typed_constant(c) matches Ok((_, after)) ==> c.leads_to(after),
{
    model::required_advances(c);
    if let Ok((kind, after)) = model::required(c) {
        model::group_of_advances(after, kind);
        if let Ok((_, behind)) = model::group_of(after, kind) {
            model::leads_to_transitive(c, after, behind);
            model::required_advances(behind);
            if let Ok((value, valued)) = model::required(behind) {
                model::leads_to_transitive(c, behind, valued);
                constant_advances(valued, value);
                if let Ok((_, end)) = constant(valued, value) {
                    model::leads_to_transitive(c, valued, end);
                }
                parenthesised_advances(valued);
                if let Ok((_, spaced)) = parenthesised(valued) {
                    model::leads_to_transitive(c, valued, spaced);
                    model::required_advances(spaced);
                    if let Ok((pointed, last)) = model::required(spaced) {
                        model::leads_to_transitive(c, spaced, last);
                        constant_advances(last, pointed);
                        if let Ok((_, end)) = constant(last, pointed) {
                            model::leads_to_transitive(c, last, end);
                        }
                    }
                }
            }
        }
    }
}

/// Each part behind the parameters of a function moves the cursor.
pub proof fn tail_part_advances(c: Cursor)
    ensures
        model::required(c) matches Ok((word, after)) ==> {
            &&& after.rest.len() < c.rest.len()
            &&& c.leads_to(after)
            &&& typed_constant(after) matches Ok((_, behind)) ==> c.leads_to(behind)
                && behind.rest.len() < c.rest.len()
            &&& model::group_of(after, word) matches Ok((_, behind)) ==> c.leads_to(behind)
                && behind.rest.len() < c.rest.len()
            &&& model::required(after) matches Ok((metadata, next)) ==> model::group_of(
                next,
                metadata,
            ) matches Ok((_, behind)) ==> c.leads_to(behind) && behind.rest.len() < c.rest.len()
        },
{
    model::required_advances(c);
    if let Ok((word, after)) = model::required(c) {
        typed_constant_advances(after);
        if let Ok((_, behind)) = typed_constant(after) {
            model::leads_to_transitive(c, after, behind);
        }
        model::group_of_advances(after, word);
        if let Ok((_, behind)) = model::group_of(after, word) {
            model::leads_to_transitive(c, after, behind);
        }
        model::required_advances(after);
        if let Ok((metadata, next)) = model::required(after) {
            model::leads_to_transitive(c, after, next);
            model::group_of_advances(next, metadata);
            if let Ok((_, behind)) = model::group_of(next, metadata) {
                model::leads_to_transitive(c, next, behind);
            }
        }
    }
}

/// An alias suffix moves the cursor.
pub proof fn alias_suffix_advances(c: Cursor)
    ensures
        alias_suffix(c) matches Ok((_, after)) ==> c.leads_to(after),
{
    model::required_advances(c);
    if let Ok((_, after)) = model::required(c) {
        model::required_advances(after);
        if let Ok((metadata, behind)) = model::required(after) {
            model::leads_to_transitive(c, after, behind);
            model::group_of_advances(behind, metadata);
            if let Ok((_, end)) = model::group_of(behind, metadata) {
                model::leads_to_transitive(c, behind, end);
            }
        }
    }
}

proof fn function_name_advances(c: Cursor)
    ensures
        function_name(c) matches Ok((_, after)) ==> c.leads_to(after),
    decreases c.rest.len(),
{
    model::required_advances(c);
    if let Ok((word, after)) = model::required(c) {
        if !bytes::opens_with(word.bytes, '@' as u8) && !foreign(word) {
            model::group_of_advances(after, word);
            if let Ok((_, behind)) = model::group_of(after, word) {
                model::leads_to_transitive(c, after, behind);
                function_name_advances(behind);
                if let Ok((_, end)) = function_name(behind) {
                    model::leads_to_transitive(c, behind, end);
                }
            }
        }
    }
}

proof fn function_tail_advances(c: Cursor)
    ensures
        function_tail(c) matches Ok((_, after)) ==> c.leads_to(after),
    decreases c.rest.len(),
{
    tail_part_advances(c);
    if let Ok((word, after)) = model::required(c) {
        let part = if bytes::reads(word.bytes, "prefix"@) || bytes::reads(
            word.bytes,
            "prologue"@,
        ) || bytes::reads(word.bytes, "personality"@) {
            typed_constant(after)
        } else if word.bytes == seq!['!' as u8] {
            match model::required(after) {
                Err(error) => Err(error),
                Ok((metadata, behind)) => model::group_of(behind, metadata),
            }
        } else {
            model::group_of(after, word)
        };
        if let Ok((_, behind)) = part {
            function_tail_advances(behind);
            if let Ok((_, end)) = function_tail(behind) {
                model::leads_to_transitive(c, behind, end);
            }
        }
    }
}

/// A function header moves the cursor within its budget.
pub proof fn function_advances(c: Cursor)
    ensures
        function(c) matches Ok((_, after)) ==> c.leads_to(after),
{
    function_name_advances(c);
    if let Ok((_, named)) = function_name(c) {
        parenthesised_advances(named);
        if let Ok((_, after)) = parenthesised(named) {
            model::leads_to_transitive(c, named, after);
            function_tail_advances(after);
            if let Ok((_, behind)) = function_tail(after) {
                model::leads_to_transitive(c, after, behind);
            }
        }
    }
}

/// The rest of an alias type moves the cursor.
pub proof fn alias_type_advances(c: Cursor)
    ensures
        alias_type(c) matches Ok((_, after)) ==> c.leads_to(after),
    decreases c.rest.len(),
{
    model::required_advances(c);
    if let Ok((word, after)) = model::required(c) {
        model::group_of_advances(after, word);
        if let Ok((_, behind)) = model::group_of(after, word) {
            model::leads_to_transitive(c, after, behind);
            alias_type_advances(behind);
            if let Ok((_, end)) = alias_type(behind) {
                model::leads_to_transitive(c, behind, end);
            }
        }
    }
}

/// An alias operand moves the cursor.
pub proof fn alias_operand_advances(c: Cursor)
    ensures
        alias_operand(c) matches Ok((_, after)) ==> c.leads_to(after),
{
    model::required_advances(c);
    if let Ok((_, after)) = model::required(c) {
        model::required_advances(after);
        if let Ok((_, behind)) = model::required(after) {
            model::leads_to_transitive(c, after, behind);
            parenthesised_advances(behind);
            if let Ok((_, spaced)) = parenthesised(behind) {
                model::leads_to_transitive(c, behind, spaced);
                model::required_advances(spaced);
                if let Ok((_, end)) = model::required(spaced) {
                    model::leads_to_transitive(c, spaced, end);
                }
            }
        }
    }
}

/// An alias value moves the cursor.
pub proof fn alias_value_advances(c: Cursor, operand: Word, typed: bool)
    ensures
        alias_value(c, operand, typed) matches Ok((_, after)) ==> c.leads_to(after),
{
    model::leads_to_itself(c);
    constant_advances(c, operand);
}

proof fn alias_suffixes_advances(c: Cursor)
    ensures
        alias_suffixes(c) matches Ok((_, after)) ==> c.leads_to(after),
    decreases c.rest.len(),
{
    model::token_advances(c, true);
    if let Ok((Some(word), after)) = model::token(c, true) {
        if word.bytes == seq![',' as u8] {
            alias_suffix_advances(after);
            if let Ok((_, behind)) = alias_suffix(after) {
                model::leads_to_transitive(c, after, behind);
                alias_suffixes_advances(behind);
                if let Ok((_, end)) = alias_suffixes(behind) {
                    model::leads_to_transitive(c, behind, end);
                }
            }
        }
    }
}

/// An alias moves the cursor within its budget.
pub proof fn alias_target_advances(c: Cursor)
    ensures
        alias_target(c) matches Ok((_, after)) ==> c.leads_to(after),
{
    model::required_advances(c);
    if let Ok((first, after)) = model::required(c) {
        model::group_of_advances(after, first);
        if let Ok((_, begun)) = model::group_of(after, first) {
            model::leads_to_transitive(c, after, begun);
            alias_type_advances(begun);
            if let Ok((_, divided)) = alias_type(begun) {
                model::leads_to_transitive(c, begun, divided);
                alias_operand_advances(divided);
                if let Ok(((operand, typed), read)) = alias_operand(divided) {
                    model::leads_to_transitive(c, divided, read);
                    alias_value_advances(read, operand, typed);
                    if let Ok((_, valued)) = alias_value(read, operand, typed) {
                        model::leads_to_transitive(c, read, valued);
                        alias_suffixes_advances(valued);
                        if let Ok((_, behind)) = alias_suffixes(valued) {
                            model::leads_to_transitive(c, valued, behind);
                        }
                    }
                }
            }
        }
    }
}

/// A reading step left the stream valid and its recorded peaks no lower.
pub open spec fn moved<R: ByteSource>(before: Stream<R>, after: Stream<R>) -> bool {
    &&& after.well_formed()
    &&& after.peaks().0 >= before.peaks().0
    &&& after.peaks().1 >= before.peaks().1
}

/// Reads a function name and consumes the opening body brace.
pub fn read_function<R: ByteSource>(reader: &mut Stream<R>) -> (result: Result<String, IndexError>)
    requires
        old(reader).well_formed(),
        old(reader).cursor().header is Some,
    ensures
        moved(*old(reader), *final(reader)),
        stream::agrees(
            result,
            final(reader).cursor(),
            function(old(reader).cursor()),
            |value: String, meant: Seq<char>| value@ == meant,
        ),
        result is Ok ==> old(reader).cursor().leads_to(final(reader).cursor()),
{
    proof {
        function_advances(reader.cursor());
        function_name_advances(reader.cursor());
    }
    let symbol = match read_function_name(reader) {
        Err(error) => {
            return Err(error);
        },
        Ok(symbol) => symbol,
    };
    match read_parenthesised(reader) {
        Err(error) => {
            return Err(error);
        },
        Ok(()) => {},
    }
    match read_function_tail(reader) {
        Err(error) => Err(error),
        Ok(()) => Ok(symbol),
    }
}

/// Reads the tokens of a function header through its name.
fn read_function_name<R: ByteSource>(reader: &mut Stream<R>) -> (result: Result<String, IndexError>)
    requires
        old(reader).well_formed(),
        old(reader).cursor().header is Some,
    ensures
        moved(*old(reader), *final(reader)),
        stream::agrees(
            result,
            final(reader).cursor(),
            function_name(old(reader).cursor()),
            |value: String, meant: Seq<char>| value@ == meant,
        ),
        result is Ok ==> final(reader).cursor().header == old(reader).cursor().header,
{
    loop
        invariant
            moved(*old(reader), *reader),
            reader.cursor().header is Some,
            reader.cursor().header == old(reader).cursor().header,
            function_name(reader.cursor()) == function_name(old(reader).cursor()),
        decreases reader.cursor().rest.len(),
    {
        let token = match reader.read_required_token() {
            Err(error) => {
                return Err(error);
            },
            Ok(token) => token,
        };
        if bytes::first_is(&token.bytes, '@' as u8) {
            return token.decode_symbol();
        }
        if is_foreign(&token) {
            return Err(
                IndexError::Malformed { offset: token.offset, fault: Fault::NoFunctionName },
            );
        }
        match consume_group(reader, &token) {
            Err(error) => {
                return Err(error);
            },
            Ok(()) => {},
        }
    }
}

/// Reads a parenthesised list.
pub(crate) fn read_parenthesised<R: ByteSource>(reader: &mut Stream<R>) -> (result: Result<(), IndexError>)
    requires
        old(reader).well_formed(),
        old(reader).cursor().header is Some,
    ensures
        moved(*old(reader), *final(reader)),
        stream::agrees(
            result,
            final(reader).cursor(),
            parenthesised(old(reader).cursor()),
            |value: (), meant: ()| true,
        ),
        result is Ok ==> old(reader).cursor().leads_to(final(reader).cursor()),
{
    proof {
        parenthesised_advances(reader.cursor());
    }
    match reader.expect_parenthesis() {
        Err(error) => {
            return Err(error);
        },
        Ok(()) => {},
    }
    reader.consume_group('(' as u8)
}

/// Reads from the parameters of a function through its opening body brace.
fn read_function_tail<R: ByteSource>(reader: &mut Stream<R>) -> (result: Result<(), IndexError>)
    requires
        old(reader).well_formed(),
        old(reader).cursor().header is Some,
    ensures
        moved(*old(reader), *final(reader)),
        stream::agrees(
            result,
            final(reader).cursor(),
            function_tail(old(reader).cursor()),
            |value: (), meant: ()| true,
        ),
{
    loop
        invariant
            moved(*old(reader), *reader),
            reader.cursor().header is Some,
            function_tail(reader.cursor()) == function_tail(old(reader).cursor()),
        decreases reader.cursor().rest.len(),
    {
        proof {
            tail_part_advances(reader.cursor());
        }
        let token = match reader.read_required_token() {
            Err(error) => {
                return Err(error);
            },
            Ok(token) => token,
        };
        if bytes::is_byte(&token.bytes, '{' as u8) {
            return Ok(());
        }
        let part = if bytes::is_text(&token.bytes, "prefix") || bytes::is_text(
            &token.bytes,
            "prologue",
        ) || bytes::is_text(&token.bytes, "personality") {
            consume_typed_constant(reader)
        } else if bytes::is_byte(&token.bytes, '!' as u8) {
            match reader.read_required_token() {
                Err(error) => Err(error),
                Ok(metadata) => consume_group(reader, &metadata),
            }
        } else if is_foreign(&token) {
            Err(IndexError::Malformed { offset: token.offset, fault: Fault::NoFunctionBody })
        } else {
            consume_group(reader, &token)
        };
        match part {
            Err(error) => {
                return Err(error);
            },
            Ok(()) => {},
        }
    }
}

/// Reads the alias type and operand, preserving only a direct global target.
pub fn read_alias_target<R: ByteSource>(reader: &mut Stream<R>) -> (result: Result<
    Option<String>,
    IndexError,
>)
    requires
        old(reader).well_formed(),
        old(reader).cursor().header is Some,
    ensures
        moved(*old(reader), *final(reader)),
        stream::agrees(
            result,
            final(reader).cursor(),
            alias_target(old(reader).cursor()),
            |value: Option<String>, meant: Option<Seq<char>>| same_target(value, meant),
        ),
        result is Ok ==> old(reader).cursor().leads_to(final(reader).cursor()),
{
    proof {
        alias_target_advances(reader.cursor());
    }
    let first = match reader.read_required_token() {
        Err(error) => {
            return Err(error);
        },
        Ok(token) => token,
    };
    if bytes::is_byte(&first.bytes, ',' as u8) {
        return Err(IndexError::Malformed { offset: first.offset, fault: Fault::NoAliasType });
    }
    match consume_group(reader, &first) {
        Err(error) => {
            return Err(error);
        },
        Ok(()) => {},
    }
    match consume_alias_type(reader) {
        Err(error) => {
            return Err(error);
        },
        Ok(()) => {},
    }
    let (operand, typed) = match read_alias_operand(reader) {
        Err(error) => {
            return Err(error);
        },
        Ok(operand) => operand,
    };
    let target = match read_alias_value(reader, operand, typed) {
        Err(error) => {
            return Err(error);
        },
        Ok(target) => target,
    };
    match consume_alias_suffixes(reader) {
        Err(error) => Err(error),
        Ok(()) => Ok(target),
    }
}

/// An optional name and the optional text that it holds.
pub open spec fn same_target(value: Option<String>, meant: Option<Seq<char>>) -> bool {
    match (value, meant) {
        (Some(name), Some(text)) => name@ == text,
        (None, None) => true,
        _ => false,
    }
}

fn consume_alias_type<R: ByteSource>(reader: &mut Stream<R>) -> (result: Result<(), IndexError>)
    requires
        old(reader).well_formed(),
        old(reader).cursor().header is Some,
    ensures
        moved(*old(reader), *final(reader)),
        stream::agrees(
            result,
            final(reader).cursor(),
            alias_type(old(reader).cursor()),
            |value: (), meant: ()| true,
        ),
        result is Ok ==> final(reader).cursor().header is Some,
{
    loop
        invariant
            moved(*old(reader), *reader),
            reader.cursor().header is Some,
            alias_type(reader.cursor()) == alias_type(old(reader).cursor()),
        decreases reader.cursor().rest.len(),
    {
        let token = match reader.read_required_token() {
            Err(error) => {
                return Err(error);
            },
            Ok(token) => token,
        };
        if bytes::is_byte(&token.bytes, ',' as u8) {
            return Ok(());
        }
        if bytes::is_byte(&token.bytes, '=' as u8) || bytes::is_text(&token.bytes, "define")
            || bytes::is_text(&token.bytes, "declare") || bytes::first_is(
            &token.bytes,
            '@' as u8,
        ) {
            return Err(IndexError::Malformed { offset: token.offset, fault: Fault::NoAliasComma });
        }
        match consume_group(reader, &token) {
            Err(error) => {
                return Err(error);
            },
            Ok(()) => {},
        }
    }
}

fn read_alias_operand<R: ByteSource>(reader: &mut Stream<R>) -> (result: Result<
    (Token, bool),
    IndexError,
>)
    requires
        old(reader).well_formed(),
        old(reader).cursor().header is Some,
    ensures
        moved(*old(reader), *final(reader)),
        stream::agrees(
            result,
            final(reader).cursor(),
            alias_operand(old(reader).cursor()),
            |value: (Token, bool), meant: (Word, bool)|
                value.0.word() == meant.0 && value.1 == meant.1,
        ),
        result matches Ok((token, _)) ==> token.well_formed() && final(reader).cursor().header
            is Some,
{
    let first = match reader.read_required_token() {
        Err(error) => {
            return Err(error);
        },
        Ok(token) => token,
    };
    // Constant expressions are printed without their type.
    if !bytes::is_text(&first.bytes, "ptr") {
        return Ok((first, false));
    }
    let second = match reader.read_required_token() {
        Err(error) => {
            return Err(error);
        },
        Ok(token) => token,
    };
    if !bytes::is_text(&second.bytes, "addrspace") {
        return Ok((second, true));
    }
    match read_parenthesised(reader) {
        Err(error) => {
            return Err(error);
        },
        Ok(()) => {},
    }
    match reader.read_required_token() {
        Err(error) => Err(error),
        Ok(token) => Ok((token, true)),
    }
}

fn read_alias_value<R: ByteSource>(reader: &mut Stream<R>, operand: Token, typed: bool) -> (result:
    Result<Option<String>, IndexError>)
    requires
        old(reader).well_formed(),
        old(reader).cursor().header is Some,
        operand.well_formed(),
    ensures
        moved(*old(reader), *final(reader)),
        stream::agrees(
            result,
            final(reader).cursor(),
            alias_value(old(reader).cursor(), operand.word(), typed),
            |value: Option<String>, meant: Option<Seq<char>>| same_target(value, meant),
        ),
        result is Ok ==> final(reader).cursor().header is Some,
{
    if bytes::first_is(&operand.bytes, '@' as u8) {
        if !typed {
            return Err(
                IndexError::Malformed { offset: operand.offset, fault: Fault::NoPointerType },
            );
        }
        return match operand.decode_symbol() {
            Err(error) => Err(error),
            Ok(target) => Ok(Some(target)),
        };
    }
    match consume_constant(reader, operand) {
        Err(error) => Err(error),
        Ok(()) => Ok(None),
    }
}

fn consume_alias_suffixes<R: ByteSource>(reader: &mut Stream<R>) -> (result: Result<(), IndexError>)
    requires
        old(reader).well_formed(),
        old(reader).cursor().header is Some,
    ensures
        moved(*old(reader), *final(reader)),
        stream::agrees(
            result,
            final(reader).cursor(),
            alias_suffixes(old(reader).cursor()),
            |value: (), meant: ()| true,
        ),
{
    loop
        invariant
            moved(*old(reader), *reader),
            reader.cursor().header is Some,
            alias_suffixes(reader.cursor()) == alias_suffixes(old(reader).cursor()),
        decreases reader.cursor().rest.len(),
    {
        proof {
            model::token_advances(reader.cursor(), true);
        }
        let token = match reader.read_token(true) {
            Err(error) => {
                return Err(error);
            },
            Ok(None) => {
                return Ok(());
            },
            Ok(Some(token)) => token,
        };
        if !bytes::is_byte(&token.bytes, ',' as u8) {
            return Err(IndexError::Malformed { offset: token.offset, fault: Fault::ExtraOperand });
        }
        match consume_alias_suffix(reader) {
            Err(error) => {
                return Err(error);
            },
            Ok(()) => {},
        }
    }
}

fn consume_alias_suffix<R: ByteSource>(reader: &mut Stream<R>) -> (result: Result<(), IndexError>)
    requires
        old(reader).well_formed(),
        old(reader).cursor().header is Some,
    ensures
        moved(*old(reader), *final(reader)),
        stream::agrees(
            result,
            final(reader).cursor(),
            alias_suffix(old(reader).cursor()),
            |value: (), meant: ()| true,
        ),
        result is Ok ==> old(reader).cursor().leads_to(final(reader).cursor()),
{
    proof {
        alias_suffix_advances(reader.cursor());
    }
    let suffix = match reader.read_required_token() {
        Err(error) => {
            return Err(error);
        },
        Ok(token) => token,
    };
    if bytes::first_is(&suffix.bytes, '!' as u8) {
        return match reader.read_required_token() {
            Err(error) => Err(error),
            Ok(metadata) => consume_group(reader, &metadata),
        };
    }
    if !bytes::is_text(&suffix.bytes, "partition") {
        return Err(IndexError::Malformed { offset: suffix.offset, fault: Fault::BadSuffix });
    }
    match reader.read_required_token() {
        Err(error) => Err(error),
        Ok(name) => {
            if bytes::first_is(&name.bytes, '"' as u8) {
                Ok(())
            } else {
                Err(IndexError::Malformed { offset: name.offset, fault: Fault::NoPartitionString })
            }
        },
    }
}

fn consume_typed_constant<R: ByteSource>(reader: &mut Stream<R>) -> (result: Result<(), IndexError>)
    requires
        old(reader).well_formed(),
        old(reader).cursor().header is Some,
    ensures
        moved(*old(reader), *final(reader)),
        stream::agrees(
            result,
            final(reader).cursor(),
            typed_constant(old(reader).cursor()),
            |value: (), meant: ()| true,
        ),
        result is Ok ==> old(reader).cursor().leads_to(final(reader).cursor()),
{
    proof {
        typed_constant_advances(reader.cursor());
    }
    let kind = match reader.read_required_token() {
        Err(error) => {
            return Err(error);
        },
        Ok(token) => token,
    };
    match consume_group(reader, &kind) {
        Err(error) => {
            return Err(error);
        },
        Ok(()) => {},
    }
    let value = match reader.read_required_token() {
        Err(error) => {
            return Err(error);
        },
        Ok(token) => token,
    };
    if bytes::is_text(&kind.bytes, "ptr") && bytes::is_text(&value.bytes, "addrspace") {
        match read_parenthesised(reader) {
            Err(error) => {
                return Err(error);
            },
            Ok(()) => {},
        }
        return match reader.read_required_token() {
            Err(error) => Err(error),
            Ok(pointed) => consume_constant(reader, pointed),
        };
    }
    consume_constant(reader, value)
}

fn consume_constant<R: ByteSource>(reader: &mut Stream<R>, token: Token) -> (result: Result<
    (),
    IndexError,
>)
    requires
        old(reader).well_formed(),
        old(reader).cursor().header is Some,
        token.well_formed(),
    ensures
        moved(*old(reader), *final(reader)),
        stream::agrees(
            result,
            final(reader).cursor(),
            constant(old(reader).cursor(), token.word()),
            |value: (), meant: ()| true,
        ),
        result is Ok ==> old(reader).cursor().leads_to(final(reader).cursor()),
{
    proof {
        constant_advances(reader.cursor(), token.word());
    }
    if token.bytes.len() == 1 && matching_close(token.bytes[0]).is_some() {
        return reader.consume_group(token.bytes[0]);
    }
    if bytes::first_is(&token.bytes, '@' as u8) {
        return match token.decode_symbol() {
            Err(error) => Err(error),
            Ok(_) => Ok(()),
        };
    }
    if bytes::is_text(&token.bytes, "dso_local_equivalent") || bytes::is_text(
        &token.bytes,
        "no_cfi",
    ) {
        return match reader.read_required_token() {
            Err(error) => Err(error),
            Ok(wrapped) => match wrapped.decode_symbol() {
                Err(error) => Err(error),
                Ok(_) => Ok(()),
            },
        };
    }
    if bytes::is_byte(&token.bytes, 'c' as u8) {
        return match reader.read_required_token() {
            Err(error) => Err(error),
            Ok(string) => {
                if bytes::first_is(&string.bytes, '"' as u8) {
                    Ok(())
                } else {
                    Err(
                        IndexError::Malformed {
                            offset: string.offset,
                            fault: Fault::NoByteString,
                        },
                    )
                }
            },
        };
    }
    if is_simple_constant(&token.bytes) {
        return Ok(());
    }
    // Constant expressions use an opcode and a parenthesised operand list.
    if !is_constant_opcode(&token.bytes) {
        return Err(IndexError::Malformed { offset: token.offset, fault: Fault::UnknownConstant });
    }
    consume_operands(reader, &token.bytes)
}

fn consume_operands<R: ByteSource>(reader: &mut Stream<R>, opcode: &Vec<u8>) -> (result: Result<
    (),
    IndexError,
>)
    requires
        old(reader).well_formed(),
        old(reader).cursor().header is Some,
    ensures
        moved(*old(reader), *final(reader)),
        stream::agrees(
            result,
            final(reader).cursor(),
            operands(old(reader).cursor(), opcode@),
            |value: (), meant: ()| true,
        ),
{
    let mut next = match reader.read_required_token() {
        Err(error) => {
            return Err(error);
        },
        Ok(token) => token,
    };
    if bytes::is_text(opcode, "getelementptr") {
        let ghost start = reader.cursor();
        let ghost first = next.word();
        while is_address_flag(&next.bytes)
            invariant
                moved(*old(reader), *reader),
                reader.cursor().header is Some,
                next.well_formed(),
                bytes::reads(opcode@, "getelementptr"@),
                operands(old(reader).cursor(), opcode@) == (match behind_flags(start, first) {
                    Err(error) => Err(error),
                    Ok((word, behind)) => if word.bytes == seq!['(' as u8] {
                        model::group(behind, seq![')' as u8])
                    } else {
                        model::malformed(word.offset, Fault::NoOperands)
                    },
                }),
                behind_flags(reader.cursor(), next.word()) == behind_flags(start, first),
            decreases reader.cursor().rest.len(),
        {
            next = match reader.read_required_token() {
                Err(error) => {
                    return Err(error);
                },
                Ok(token) => token,
            };
        }
    }
    if !bytes::is_byte(&next.bytes, '(' as u8) {
        return Err(IndexError::Malformed { offset: next.offset, fault: Fault::NoOperands });
    }
    reader.consume_group('(' as u8)
}

/// Consumes the group that a token opens.
fn consume_group<R: ByteSource>(reader: &mut Stream<R>, token: &Token) -> (result: Result<
    (),
    IndexError,
>)
    requires
        old(reader).well_formed(),
        old(reader).cursor().header is Some,
        token.well_formed(),
    ensures
        moved(*old(reader), *final(reader)),
        stream::agrees(
            result,
            final(reader).cursor(),
            model::group_of(old(reader).cursor(), token.word()),
            |value: (), meant: ()| true,
        ),
        result is Ok ==> old(reader).cursor().leads_to(final(reader).cursor()),
{
    proof {
        model::group_of_advances(reader.cursor(), token.word());
    }
    if token.bytes.len() != 1 {
        return Ok(());
    }
    let byte: u8 = token.bytes[0];
    if matching_close(byte).is_some() {
        return reader.consume_group(byte);
    }
    if is_closing(byte) {
        return Err(
            IndexError::Malformed { offset: token.offset, fault: Fault::UnopenedDelimiter },
        );
    }
    Ok(())
}

fn is_foreign(token: &Token) -> (result: bool)
    ensures
        result == foreign(token.word()),
{
    bytes::is_text(&token.bytes, "define") || bytes::is_text(&token.bytes, "declare")
        || bytes::is_byte(&token.bytes, '}' as u8)
}

fn is_simple_constant(token: &Vec<u8>) -> (result: bool)
    ensures
        result == simple_constant(token@),
{
    bytes::is_text(token, "null") || bytes::is_text(token, "undef") || bytes::is_text(
        token,
        "poison",
    ) || bytes::is_text(token, "zeroinitializer") || bytes::is_text(token, "true")
        || bytes::is_text(token, "false") || (token.len() > 0 && bytes::is_digit(token[0]))
        || bytes::first_is(token, '-' as u8)
}

fn is_constant_opcode(token: &Vec<u8>) -> (result: bool)
    ensures
        result == constant_opcode(token@),
{
    bytes::is_text(token, "getelementptr") || bytes::is_text(token, "bitcast") || bytes::is_text(
        token,
        "addrspacecast",
    ) || bytes::is_text(token, "inttoptr") || bytes::is_text(token, "ptrtoint") || bytes::is_text(
        token,
        "trunc",
    ) || bytes::is_text(token, "blockaddress") || bytes::is_text(token, "ptrauth")
        || bytes::is_text(token, "splat")
}

fn is_address_flag(token: &Vec<u8>) -> (result: bool)
    ensures
        result == address_flag(token@),
{
    bytes::is_text(token, "inbounds") || bytes::is_text(token, "nuw") || bytes::is_text(
        token,
        "nusw",
    )
}

} // verus!

//! The names that LLVM tokens spell.
//!
//! LLVM names are bare words, numeric slots, or quoted bytes. A quoted escape encodes one byte with
//! two hexadecimal digits or spells a backslash with a second one.

use super::error::{Fault, IndexError};
use super::model;
use super::model::{Cursor, Word};
use crate::bytes;
use crate::text::utf8_text;
use vstd::prelude::*;

verus! {

/// Every backslash starts a complete escape.
pub open spec fn escapes_complete(content: Seq<u8>) -> bool
    decreases content.len(),
{
    if content.len() == 0 {
        true
    } else if content[0] != '\\' as u8 {
        escapes_complete(content.skip(1))
    } else if content.len() >= 2 && content[1] == '\\' as u8 {
        escapes_complete(content.skip(2))
    } else {
        content.len() >= 3 && bytes::hex_digit(content[1]) && bytes::hex_digit(content[2])
            && escapes_complete(content.skip(3))
    }
}

/// The byte that two hexadecimal digits encode.
pub open spec fn hex_pair(high: u8, low: u8) -> u8 {
    (bytes::hex_value(high) * 16 + bytes::hex_value(low)) as u8
}

/// The bytes that quoted content stands for.
pub open spec fn unescaped(content: Seq<u8>) -> Seq<u8>
    decreases content.len(),
{
    if content.len() == 0 {
        Seq::empty()
    } else if content[0] != '\\' as u8 {
        seq![content[0]] + unescaped(content.skip(1))
    } else if content.len() >= 2 && content[1] == '\\' as u8 {
        seq!['\\' as u8] + unescaped(content.skip(2))
    } else if content.len() >= 3 {
        seq![hex_pair(content[1], content[2])] + unescaped(content.skip(3))
    } else {
        Seq::empty()
    }
}

/// The name of a token is quoted.
pub open spec fn name_is_quoted(token: Seq<u8>) -> bool {
    token.len() > 1 && token[1] == '"' as u8
}

/// A quoted name has its closing quote and complete escapes.
pub open spec fn name_complete(token: Seq<u8>) -> bool {
    name_is_quoted(token) && model::sigil(token[0]) ==> token.len() >= 3 && escapes_complete(
        token.subrange(2, token.len() - 1),
    )
}

/// The bytes of the name behind a sigil.
pub open spec fn name_bytes(token: Seq<u8>) -> Seq<u8> {
    if name_is_quoted(token) {
        unescaped(token.subrange(2, token.len() - 1))
    } else {
        token.skip(1)
    }
}

/// The name that a token spells as a global symbol.
pub open spec fn symbol(word: Word) -> Result<Seq<char>, IndexError> {
    let token = word.bytes;
    if !bytes::opens_with(token, '@' as u8) || token.len() == 1 {
        model::malformed(word.offset, Fault::NotSymbol)
    } else if bytes::digit(token[1]) && !(forall|i: int|
        1 <= i < token.len() ==> bytes::digit(#[trigger] token[i])) {
        model::malformed(word.offset, Fault::NotSlot)
    } else if !vstd::utf8::valid_utf8(name_bytes(token)) {
        model::malformed(word.offset, Fault::NotUtf8)
    } else {
        Ok(vstd::utf8::decode_utf8(name_bytes(token)))
    }
}

/// Content stays complete when complete content follows it.
pub proof fn escapes_concatenate(left: Seq<u8>, right: Seq<u8>)
    requires
        escapes_complete(left),
        escapes_complete(right),
    ensures
        escapes_complete(left + right),
    decreases left.len(),
{
    if left.len() == 0 {
        assert(left + right =~= right);
    } else if left[0] != '\\' as u8 {
        escapes_concatenate(left.skip(1), right);
        assert((left + right).skip(1) =~= left.skip(1) + right);
    } else if left.len() >= 2 && left[1] == '\\' as u8 {
        escapes_concatenate(left.skip(2), right);
        assert((left + right).skip(2) =~= left.skip(2) + right);
    } else {
        escapes_concatenate(left.skip(3), right);
        assert((left + right).skip(3) =~= left.skip(3) + right);
    }
}

/// A quoted token that starts with complete content ends with complete content and a quote.
proof fn quoted_is_complete(c: Cursor, prefix: Seq<u8>, content: Seq<u8>)
    requires
        escapes_complete(content),
    ensures
        model::quoted(c, prefix + content) matches Ok((token, _)) ==> {
            &&& token.len() > prefix.len()
            &&& token.take(prefix.len() as int) == prefix
            &&& token.last() == '"' as u8
            &&& escapes_complete(token.subrange(prefix.len() as int, token.len() - 1))
        },
    decreases c.rest.len(),
{
    let read = prefix + content;
    model::take_advances(c);
    if let Ok((Some(byte), after)) = model::take(c) {
        if byte == '"' as u8 {
            let token = read.push(byte);
            assert(token.take(prefix.len() as int) =~= prefix);
            assert(token.subrange(prefix.len() as int, token.len() - 1) =~= content);
        } else if byte == 0x0a || byte == 0x0d {
        } else if byte == '\\' as u8 {
            if let Ok((escaped, behind)) = model::escape(after) {
                model::escape_advances(after);
                let piece = seq![byte] + escaped;
                reveal_with_fuel(escapes_complete, 2);
                if escaped.len() == 1 {
                    assert(piece.skip(2) =~= Seq::empty());
                } else {
                    assert(piece.skip(3) =~= Seq::empty());
                }
                assert(escapes_complete(piece));
                escapes_concatenate(content, piece);
                assert(read.push(byte) + escaped =~= prefix + (content + piece));
                quoted_is_complete(behind, prefix, content + piece);
            }
        } else {
            let piece = seq![byte];
            reveal_with_fuel(escapes_complete, 2);
            assert(piece.skip(1) =~= Seq::empty());
            escapes_concatenate(content, piece);
            assert(read.push(byte) =~= prefix + (content + piece));
            quoted_is_complete(after, prefix, content + piece);
        }
    }
}

/// A bare word keeps the bytes that it continues.
proof fn bare_extends(c: Cursor, read: Seq<u8>)
    ensures
        model::bare(c, read) matches Ok((token, _)) ==> {
            &&& token.len() >= read.len()
            &&& token.take(read.len() as int) == read
            &&& forall|i: int|
                read.len() <= i < token.len() ==> model::word_byte(#[trigger] token[i])
        },
    decreases c.rest.len(),
{
    assert(read.take(read.len() as int) =~= read);
    if let Ok(Some(byte)) = model::peek(c) {
        if model::word_byte(byte) {
            if let Ok((_, after)) = model::take(c) {
                bare_extends(after, read.push(byte));
                if let Ok((token, _)) = model::bare(after, read.push(byte)) {
                    assert(token.take(read.len() as int) =~= read) by {
                        assert forall|i: int| 0 <= i < read.len() implies token[i] == read[i] by {
                            assert(token[i] == token.take(read.len() as int + 1)[i]);
                            assert(read.push(byte)[i] == read[i]);
                        }
                    }
                    assert(token[read.len() as int] == byte) by {
                        assert(token[read.len() as int] == token.take(
                            read.len() as int + 1,
                        )[read.len() as int]);
                    }
                }
            }
        }
    }
}

/// Every token that the tokenizer accepts has a complete name.
pub proof fn tokens_are_complete(c: Cursor, stop_at_newline: bool)
    ensures
        model::token(c, stop_at_newline) matches Ok((Some(word), _)) ==> {
            &&& word.bytes.len() > 0
            &&& name_complete(word.bytes)
        },
{
    if let Ok((false, start)) = model::gap(c, stop_at_newline) {
        if let Ok((Some(first), after)) = model::take(start) {
            completion_is_complete(after, first);
        }
    }
}

proof fn completion_is_complete(c: Cursor, first: u8)
    ensures
        model::completion(c, first) matches Ok((token, _)) ==> {
            &&& token.len() > 0
            &&& token[0] == first
            &&& name_complete(token)
        },
{
    reveal_with_fuel(escapes_complete, 2);
    let empty = Seq::<u8>::empty();
    if first == '"' as u8 {
        assert(seq![first] + empty =~= seq![first]);
        quoted_is_complete(c, seq![first], empty);
        if let Ok((token, _)) = model::quoted(c, seq![first]) {
            assert(token[0] == token.take(1)[0]);
        }
    } else if model::sigil(first) {
        if let Ok(next) = model::peek(c) {
            if next == Some('"' as u8) {
                if let Ok((_, after)) = model::take(c) {
                    let prefix = seq![first, '"' as u8];
                    assert(prefix + empty =~= prefix);
                    quoted_is_complete(after, prefix, empty);
                    if let Ok((token, _)) = model::quoted(after, prefix) {
                        assert(token[0] == token.take(2)[0]);
                    }
                }
            } else {
                bare_extends(c, seq![first]);
                if let Ok((token, _)) = model::bare(c, seq![first]) {
                    assert(token[0] == token.take(1)[0]);
                    assert(token.len() > 1 ==> model::word_byte(token[1]));
                }
            }
        }
    } else if model::word_byte(first) || first == '!' as u8 {
        bare_extends(c, seq![first]);
        if let Ok((token, _)) = model::bare(c, seq![first]) {
            assert(token[0] == token.take(1)[0]);
        }
    }
}

/// Decoding never expands a name.
pub proof fn unescaped_never_expands(content: Seq<u8>)
    requires
        escapes_complete(content),
    ensures
        unescaped(content).len() <= content.len(),
    decreases content.len(),
{
    if content.len() == 0 {
    } else if content[0] != '\\' as u8 {
        unescaped_never_expands(content.skip(1));
    } else if content.len() >= 2 && content[1] == '\\' as u8 {
        unescaped_never_expands(content.skip(2));
    } else {
        unescaped_never_expands(content.skip(3));
    }
}

/// A header token whose quotes and escapes are complete.
pub struct Token {
    /// The complete token, with its prefix and quotes.
    pub bytes: Vec<u8>,
    /// The offset of the first token byte.
    pub offset: u64,
}

impl Token {
    /// The mathematical token.
    pub open spec fn word(self) -> Word {
        Word { bytes: self.bytes@, offset: self.offset }
    }

    /// The token has the form that the tokenizer accepts.
    pub open spec fn well_formed(self) -> bool {
        self.bytes@.len() > 0 && name_complete(self.bytes@)
    }

    /// Decodes a global name without demangling or lossy UTF-8 conversion.
    pub fn decode_symbol(self) -> (result: Result<String, IndexError>)
        requires
            self.well_formed(),
        ensures
            match (result, symbol(self.word())) {
                (Ok(name), Ok(expected)) => name@ == expected,
                (Err(error), Err(expected)) => error == expected,
                _ => false,
            },
    {
        let offset: u64 = self.offset;
        if !bytes::first_is(&self.bytes, '@' as u8) || self.bytes.len() == 1 {
            return Err(IndexError::Malformed { offset, fault: Fault::NotSymbol });
        }
        if bytes::is_digit(self.bytes[1]) && !self.rest_is_digits() {
            return Err(IndexError::Malformed { offset, fault: Fault::NotSlot });
        }
        let name = self.name();
        match utf8_text(name) {
            Ok(symbol) => Ok(symbol),
            Err(_) => Err(IndexError::Malformed { offset, fault: Fault::NotUtf8 }),
        }
    }

    fn rest_is_digits(&self) -> (result: bool)
        ensures
            result == (forall|i: int|
                1 <= i < self.bytes@.len() ==> bytes::digit(#[trigger] self.bytes@[i])),
    {
        let mut index: usize = 1;
        while index < self.bytes.len()
            invariant
                1 <= index,
                forall|i: int|
                    1 <= i < index && i < self.bytes@.len() ==> bytes::digit(
                        #[trigger] self.bytes@[i],
                    ),
            decreases self.bytes.len() - index,
        {
            if !bytes::is_digit(self.bytes[index]) {
                return false;
            }
            index += 1;
        }
        true
    }

    fn name(&self) -> (result: Vec<u8>)
        requires
            self.well_formed(),
            self.bytes@.len() > 1,
            self.bytes@[0] == '@' as u8,
        ensures
            result@ == name_bytes(self.bytes@),
    {
        let quoted = self.bytes[1] == '"' as u8;
        let mut name: Vec<u8> = Vec::new();
        if !quoted {
            let mut index: usize = 1;
            while index < self.bytes.len()
                invariant
                    1 <= index <= self.bytes@.len(),
                    name@ == self.bytes@.subrange(1, index as int),
                decreases self.bytes.len() - index,
            {
                name.push(self.bytes[index]);
                index += 1;
            }
            assert(name@ =~= self.bytes@.skip(1));
            return name;
        }
        let end: usize = self.bytes.len() - 1;
        let mut read: usize = 2;
        let ghost content = self.bytes@.subrange(2, end as int);
        assert(self.bytes@.subrange(read as int, end as int) =~= content);
        while read < end
            invariant
                2 <= read <= end,
                end + 1 == self.bytes@.len(),
                escapes_complete(self.bytes@.subrange(read as int, end as int)),
                unescaped(content) == name@ + unescaped(
                    self.bytes@.subrange(read as int, end as int),
                ),
            decreases end - read,
        {
            let ghost tail = self.bytes@.subrange(read as int, end as int);
            let ghost before = name@;
            let byte: u8 = self.bytes[read];
            if byte != '\\' as u8 {
                name.push(byte);
                read += 1;
                assert(tail.skip(1) =~= self.bytes@.subrange(read as int, end as int));
            } else if self.bytes[read + 1] == '\\' as u8 {
                assert(tail[1] == '\\' as u8);
                name.push('\\' as u8);
                read += 2;
                assert(tail.skip(2) =~= self.bytes@.subrange(read as int, end as int));
            } else {
                assert(bytes::hex_digit(tail[1]) && bytes::hex_digit(tail[2]));
                let high: u8 = bytes::hex(self.bytes[read + 1]);
                let low: u8 = bytes::hex(self.bytes[read + 2]);
                name.push(high * 16 + low);
                read += 3;
                assert(tail.skip(3) =~= self.bytes@.subrange(read as int, end as int));
            }
            assert(name@ + unescaped(self.bytes@.subrange(read as int, end as int)) =~= before
                + unescaped(tail));
        }
        assert(self.bytes@.subrange(read as int, end as int) =~= Seq::empty());
        assert(name@ =~= unescaped(content));
        name
    }
}

} // verus!

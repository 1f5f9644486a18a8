//! The mathematical reading of disassembled LLVM text.
//!
//! A cursor is a position in the input: the bytes that follow it, what comes after the last byte,
//! and the byte budget of the header around it. Every function here says what one reading step
//! makes of a cursor.

use super::error::{Fault, IndexError};
use crate::source::SourceError;
use crate::bytes;
use vstd::prelude::*;

verus! {

/// The byte budget of one definition header.
pub const HEADER_LIMIT: u64 = 1048576;

/// A position in the input.
pub struct Cursor {
    /// The bytes that follow.
    pub rest: Seq<u8>,
    /// The failure after the last byte, or `None` for an ordinary end.
    pub ending: Option<SourceError>,
    /// The number of bytes before the position.
    pub offset: u64,
    /// Where the header around the position starts, if its budget is active.
    pub header: Option<u64>,
}

/// What a reading step gives: a value and the cursor after it, or the error that stops it.
pub type Step<T> = Result<(T, Cursor), IndexError>;

/// The bytes of a header token and where they start.
pub struct Word {
    /// The complete token, with its prefix and quotes.
    pub bytes: Seq<u8>,
    /// The offset of its first byte.
    pub offset: u64,
}

impl Cursor {
    /// The cursor behind the next byte.
    pub open spec fn next(self) -> Cursor {
        Cursor { rest: self.rest.skip(1), offset: (self.offset + 1) as u64, ..self }
    }

    /// The cursor with another header budget.
    pub open spec fn with_header(self, header: Option<u64>) -> Cursor {
        Cursor { header, ..self }
    }

    /// The header budget is not overdrawn.
    pub open spec fn valid(self) -> bool {
        self.header matches Some(start) ==> start <= self.offset && self.offset - start
            <= HEADER_LIMIT
    }

    /// The second cursor lies at or behind this one in the same input and header.
    pub open spec fn leads_to(self, later: Cursor) -> bool {
        &&& later.rest.len() <= self.rest.len()
        &&& later.rest == self.rest.skip(self.rest.len() - later.rest.len())
        &&& later.offset - self.offset == self.rest.len() - later.rest.len()
        &&& later.ending == self.ending
        &&& later.header == self.header
        &&& self.valid() ==> later.valid()
    }
}

/// A fault at an offset.
pub open spec fn malformed<T>(offset: u64, fault: Fault) -> Result<T, IndexError> {
    Err(IndexError::Malformed { offset, fault })
}

/// The next byte, which stays where it is.
pub open spec fn peek(c: Cursor) -> Result<Option<u8>, IndexError> {
    if c.rest.len() > 0 {
        Ok(Some(c.rest[0]))
    } else {
        match c.ending {
            Some(error) => Err(IndexError::Read(error)),
            None => Ok(None),
        }
    }
}

/// The next byte, taken within the header budget and the range of offsets.
pub open spec fn take(c: Cursor) -> Step<Option<u8>> {
    match peek(c) {
        Err(error) => Err(error),
        Ok(None) => Ok((None, c)),
        Ok(Some(byte)) => if c.header matches Some(start) && c.offset - start == HEADER_LIMIT {
            malformed(c.offset, Fault::HeaderBudget)
        } else if c.offset == u64::MAX {
            malformed(c.offset, Fault::OffsetOverflow)
        } else {
            Ok((Some(byte), c.next()))
        },
    }
}

/// The rest of the line, with its line feed where there is one.
pub open spec fn line(c: Cursor) -> Step<()>
    decreases c.rest.len(),
{
    match take(c) {
        Err(error) => Err(error),
        Ok((None, after)) => Ok(((), after)),
        Ok((Some(byte), after)) => if byte == 0x0a {
            Ok(((), after))
        } else {
            line(after)
        },
    }
}

/// Whitespace and comments before a token. The value tells whether a line end stopped it.
pub open spec fn gap(c: Cursor, stop_at_newline: bool) -> Step<bool>
    decreases c.rest.len(),
{
    match peek(c) {
        Err(error) => Err(error),
        Ok(None) => Ok((false, c)),
        Ok(Some(byte)) => if byte == ';' as u8 {
            match line(c) {
                Err(error) => Err(error),
                Ok(((), after)) => if stop_at_newline {
                    Ok((true, after))
                } else {
                    proof {
                        line_advances(c);
                    }
                    gap(after, stop_at_newline)
                },
            }
        } else if bytes::space(byte) {
            match take(c) {
                Err(error) => Err(error),
                Ok((_, after)) => if stop_at_newline && byte == 0x0a {
                    Ok((true, after))
                } else {
                    gap(after, stop_at_newline)
                },
            }
        } else {
            Ok((false, c))
        },
    }
}

/// The bytes that continue a bare word.
pub open spec fn word_byte(byte: u8) -> bool {
    bytes::letter(byte) || bytes::digit(byte) || byte == '_' as u8 || byte == '.' as u8 || byte
        == '$' as u8 || byte == '-' as u8
}

/// The sigils of global, local and comdat names.
pub open spec fn sigil(byte: u8) -> bool {
    byte == '@' as u8 || byte == '%' as u8 || byte == '$' as u8
}

/// A bare word that continues the bytes read so far.
pub open spec fn bare(c: Cursor, read: Seq<u8>) -> Step<Seq<u8>>
    decreases c.rest.len(),
{
    match peek(c) {
        Err(error) => Err(error),
        Ok(None) => Ok((read, c)),
        Ok(Some(byte)) => if word_byte(byte) {
            match take(c) {
                Err(error) => Err(error),
                Ok((_, after)) => bare(after, read.push(byte)),
            }
        } else {
            Ok((read, c))
        },
    }
}

/// One of the two digits of an escape.
pub open spec fn escape_digit(c: Cursor) -> Step<u8> {
    match take(c) {
        Err(error) => Err(error),
        Ok((None, after)) => malformed(after.offset, Fault::MissingEscapeDigits),
        Ok((Some(digit), after)) => if bytes::hex_digit(digit) {
            Ok((digit, after))
        } else {
            malformed(c.offset, Fault::BadEscape)
        },
    }
}

/// What follows the backslash of an escape: a second backslash or two digits.
pub open spec fn escape(c: Cursor) -> Step<Seq<u8>> {
    match peek(c) {
        Err(error) => Err(error),
        Ok(next) => if next == Some('\\' as u8) {
            match take(c) {
                Err(error) => Err(error),
                Ok((_, after)) => Ok((seq!['\\' as u8], after)),
            }
        } else {
            match escape_digit(c) {
                Err(error) => Err(error),
                Ok((first, middle)) => match escape_digit(middle) {
                    Err(error) => Err(error),
                    Ok((second, after)) => Ok((seq![first, second], after)),
                },
            }
        },
    }
}

/// The rest of a quoted token through its closing quote.
pub open spec fn quoted(c: Cursor, read: Seq<u8>) -> Step<Seq<u8>>
    decreases c.rest.len(),
{
    match take(c) {
        Err(error) => Err(error),
        Ok((None, after)) => malformed(after.offset, Fault::UnclosedQuote),
        Ok((Some(byte), after)) => if byte == '"' as u8 {
            Ok((read.push(byte), after))
        } else if byte == 0x0a || byte == 0x0d {
            malformed(c.offset, Fault::BareNewline)
        } else if byte == '\\' as u8 {
            match escape(after) {
                Err(error) => Err(error),
                Ok((escaped, behind)) => {
                    proof {
                        escape_advances(after);
                    }
                    quoted(behind, read.push(byte) + escaped)
                },
            }
        } else {
            quoted(after, read.push(byte))
        },
    }
}

/// The rest of a token whose first byte is known.
pub open spec fn completion(c: Cursor, first: u8) -> Step<Seq<u8>> {
    if first == '"' as u8 {
        quoted(c, seq![first])
    } else if sigil(first) {
        match peek(c) {
            Err(error) => Err(error),
            Ok(next) => if next == Some('"' as u8) {
                match take(c) {
                    Err(error) => Err(error),
                    Ok((_, after)) => quoted(after, seq![first, '"' as u8]),
                }
            } else {
                bare(c, seq![first])
            },
        }
    } else if word_byte(first) || first == '!' as u8 {
        bare(c, seq![first])
    } else {
        Ok((seq![first], c))
    }
}

/// The next token, or `None` at the end of the input or, if asked for, of the line.
pub open spec fn token(c: Cursor, stop_at_newline: bool) -> Step<Option<Word>> {
    match gap(c, stop_at_newline) {
        Err(error) => Err(error),
        Ok((true, start)) => Ok((None, start)),
        Ok((false, start)) => match take(start) {
            Err(error) => Err(error),
            Ok((None, after)) => Ok((None, after)),
            Ok((Some(first), after)) => match completion(after, first) {
                Err(error) => Err(error),
                Ok((read, behind)) => Ok((Some(Word { bytes: read, offset: start.offset }), behind)),
            },
        },
    }
}

/// The next token, which has to exist.
pub open spec fn required(c: Cursor) -> Step<Word> {
    match token(c, false) {
        Err(error) => Err(error),
        Ok((None, after)) => malformed(after.offset, Fault::MissingToken),
        Ok((Some(word), after)) => Ok((word, after)),
    }
}

/// The next token, which has to be one given byte.
pub open spec fn expected(c: Cursor, byte: u8, fault: Fault) -> Step<()> {
    match required(c) {
        Err(error) => Err(error),
        Ok((word, after)) => if word.bytes == seq![byte] {
            Ok(((), after))
        } else {
            malformed(word.offset, fault)
        },
    }
}

/// The delimiter that closes an opening one.
pub open spec fn closer(byte: u8) -> Option<u8> {
    if byte == '(' as u8 {
        Some(')' as u8)
    } else if byte == '[' as u8 {
        Some(']' as u8)
    } else if byte == '{' as u8 {
        Some('}' as u8)
    } else if byte == '<' as u8 {
        Some('>' as u8)
    } else {
        None
    }
}

/// The closing delimiters.
pub open spec fn closing(byte: u8) -> bool {
    byte == ')' as u8 || byte == ']' as u8 || byte == '}' as u8 || byte == '>' as u8
}

/// The rest of a group whose open delimiters await the given closers, the innermost last.
pub open spec fn group(c: Cursor, open: Seq<u8>) -> Step<()>
    decreases c.rest.len(),
{
    if open.len() == 0 {
        Ok(((), c))
    } else {
        match required(c) {
            Err(error) => Err(error),
            Ok((word, after)) => {
                proof {
                    required_advances(c);
                }
                if word.bytes.len() != 1 {
                    group(after, open)
                } else if closer(word.bytes[0]) is Some {
                    group(after, open.push(closer(word.bytes[0])->0))
                } else if !closing(word.bytes[0]) {
                    group(after, open)
                } else if word.bytes[0] != open.last() {
                    malformed(word.offset, Fault::MismatchedDelimiter)
                } else {
                    group(after, open.drop_last())
                }
            },
        }
    }
}

/// The group that a token opens, if it opens one.
pub open spec fn group_of(c: Cursor, word: Word) -> Step<()> {
    if word.bytes.len() != 1 {
        Ok(((), c))
    } else if closer(word.bytes[0]) is Some {
        group(c, seq![closer(word.bytes[0])->0])
    } else if closing(word.bytes[0]) {
        malformed(word.offset, Fault::UnopenedDelimiter)
    } else {
        Ok(((), c))
    }
}

/// How far a function body has been read.
pub struct BodyState {
    /// The number of open braces.
    pub depth: nat,
    /// The position lies in a quoted string.
    pub quoted: bool,
    /// The position lies in a comment.
    pub comment: bool,
    /// The number of escape digits still to come.
    pub escape_digits: nat,
}

/// What one byte of a body does.
pub enum BodyStep {
    /// The body goes on.
    Within(BodyState),
    /// The byte closes the body.
    Closed,
    /// The byte breaks a rule.
    Broken(Fault),
}

/// The effect of one byte on a body: quotes and comments hide braces.
pub open spec fn body_step(state: BodyState, byte: u8) -> BodyStep {
    if state.comment {
        BodyStep::Within(BodyState { comment: byte != 0x0a, ..state })
    } else if state.escape_digits == 2 && byte == '\\' as u8 {
        BodyStep::Within(BodyState { escape_digits: 0, ..state })
    } else if state.escape_digits != 0 {
        if bytes::hex_digit(byte) {
            BodyStep::Within(
                BodyState { escape_digits: (state.escape_digits - 1) as nat, ..state },
            )
        } else {
            BodyStep::Broken(Fault::BadEscape)
        }
    } else if state.quoted {
        if byte == 0x0a || byte == 0x0d {
            BodyStep::Broken(Fault::BareNewline)
        } else if byte == '"' as u8 {
            BodyStep::Within(BodyState { quoted: false, ..state })
        } else if byte == '\\' as u8 {
            BodyStep::Within(BodyState { escape_digits: 2, ..state })
        } else {
            BodyStep::Within(state)
        }
    } else if byte == ';' as u8 {
        BodyStep::Within(BodyState { comment: true, ..state })
    } else if byte == '"' as u8 {
        BodyStep::Within(BodyState { quoted: true, ..state })
    } else if byte == '{' as u8 {
        BodyStep::Within(BodyState { depth: state.depth + 1, ..state })
    } else if byte == '}' as u8 {
        if state.depth == 1 {
            BodyStep::Closed
        } else {
            BodyStep::Within(BodyState { depth: (state.depth - 1) as nat, ..state })
        }
    } else {
        BodyStep::Within(state)
    }
}

/// The rest of a body through its closing brace.
pub open spec fn body(c: Cursor, state: BodyState) -> Step<()>
    decreases c.rest.len(),
{
    match take(c) {
        Err(error) => Err(error),
        Ok((None, after)) => malformed(after.offset, Fault::UnclosedBody),
        Ok((Some(byte), after)) => match body_step(state, byte) {
            BodyStep::Within(next) => body(after, next),
            BodyStep::Closed => Ok(((), after)),
            BodyStep::Broken(fault) => malformed(c.offset, fault),
        },
    }
}

/// A body just behind its opening brace.
pub open spec fn fresh_body() -> BodyState {
    BodyState { depth: 1, quoted: false, comment: false, escape_digits: 0 }
}

/// One cursor leads to a third by way of a second.
pub proof fn leads_to_transitive(first: Cursor, second: Cursor, third: Cursor)
    requires
        first.leads_to(second),
        second.leads_to(third),
    ensures
        first.leads_to(third),
{
    assert(first.rest.skip(first.rest.len() - second.rest.len()).skip(
        second.rest.len() - third.rest.len(),
    ) =~= first.rest.skip(first.rest.len() - third.rest.len()));
}

/// A cursor leads to itself.
pub proof fn leads_to_itself(c: Cursor)
    ensures
        c.leads_to(c),
{
    assert(c.rest.skip(0) =~= c.rest);
}

/// A taken byte moves the cursor by one.
pub proof fn take_advances(c: Cursor)
    ensures
        take(c) matches Ok((byte, after)) ==> {
            &&& c.leads_to(after)
            &&& byte is Some ==> after == c.next() && after.rest.len() == c.rest.len() - 1
            &&& byte is None ==> after == c
        },
{
    leads_to_itself(c);
}

/// A line moves the cursor, by at least one byte if there is one.
pub proof fn line_advances(c: Cursor)
    ensures
        line(c) matches Ok((_, after)) ==> {
            &&& c.leads_to(after)
            &&& c.rest.len() > 0 ==> after.rest.len() < c.rest.len()
        },
    decreases c.rest.len(),
{
    take_advances(c);
    if let Ok((Some(byte), after)) = take(c) {
        if byte != 0x0a {
            line_advances(after);
            if let Ok((_, end)) = line(after) {
                leads_to_transitive(c, after, end);
            }
        }
    }
}

/// A gap moves the cursor.
pub proof fn gap_advances(c: Cursor, stop_at_newline: bool)
    ensures
        gap(c, stop_at_newline) matches Ok((_, after)) ==> c.leads_to(after),
    decreases c.rest.len(),
{
    leads_to_itself(c);
    take_advances(c);
    line_advances(c);
    if let Ok(Some(byte)) = peek(c) {
        if byte == ';' as u8 {
            if let Ok(((), after)) = line(c) {
                if !stop_at_newline {
                    gap_advances(after, stop_at_newline);
                    if let Ok((_, end)) = gap(after, stop_at_newline) {
                        leads_to_transitive(c, after, end);
                    }
                }
            }
        } else if bytes::space(byte) {
            if let Ok((_, after)) = take(c) {
                if !(stop_at_newline && byte == 0x0a) {
                    gap_advances(after, stop_at_newline);
                    if let Ok((_, end)) = gap(after, stop_at_newline) {
                        leads_to_transitive(c, after, end);
                    }
                }
            }
        }
    }
}

/// A bare word moves the cursor.
pub proof fn bare_advances(c: Cursor, read: Seq<u8>)
    ensures
        bare(c, read) matches Ok((_, after)) ==> c.leads_to(after),
    decreases c.rest.len(),
{
    leads_to_itself(c);
    take_advances(c);
    if let Ok(Some(byte)) = peek(c) {
        if word_byte(byte) {
            if let Ok((_, after)) = take(c) {
                bare_advances(after, read.push(byte));
                if let Ok((_, end)) = bare(after, read.push(byte)) {
                    leads_to_transitive(c, after, end);
                }
            }
        }
    }
}

/// An escape moves the cursor.
pub proof fn escape_advances(c: Cursor)
    ensures
        escape(c) matches Ok((_, after)) ==> c.leads_to(after),
{
    take_advances(c);
    if let Ok((_, middle)) = escape_digit(c) {
        take_advances(middle);
        if let Ok((_, after)) = escape_digit(middle) {
            leads_to_transitive(c, middle, after);
        }
    }
}

/// A quoted token moves the cursor.
pub proof fn quoted_advances(c: Cursor, read: Seq<u8>)
    ensures
        quoted(c, read) matches Ok((_, after)) ==> c.leads_to(after),
    decreases c.rest.len(),
{
    take_advances(c);
    if let Ok((Some(byte), after)) = take(c) {
        if byte == '"' as u8 || byte == 0x0a || byte == 0x0d {
        } else if byte == '\\' as u8 {
            escape_advances(after);
            if let Ok((escaped, behind)) = escape(after) {
                leads_to_transitive(c, after, behind);
                quoted_advances(behind, read.push(byte) + escaped);
                if let Ok((_, end)) = quoted(behind, read.push(byte) + escaped) {
                    leads_to_transitive(c, behind, end);
                }
            }
        } else {
            quoted_advances(after, read.push(byte));
            if let Ok((_, end)) = quoted(after, read.push(byte)) {
                leads_to_transitive(c, after, end);
            }
        }
    }
}

/// The rest of a token moves the cursor.
pub proof fn completion_advances(c: Cursor, first: u8)
    ensures
        completion(c, first) matches Ok((_, after)) ==> c.leads_to(after),
{
    leads_to_itself(c);
    take_advances(c);
    quoted_advances(c, seq![first]);
    bare_advances(c, seq![first]);
    if let Ok((_, after)) = take(c) {
        quoted_advances(after, seq![first, '"' as u8]);
        if let Ok((_, end)) = quoted(after, seq![first, '"' as u8]) {
            leads_to_transitive(c, after, end);
        }
    }
}

/// A token moves the cursor by at least one byte.
pub proof fn token_advances(c: Cursor, stop_at_newline: bool)
    ensures
        token(c, stop_at_newline) matches Ok((word, after)) ==> {
            &&& c.leads_to(after)
            &&& word is Some ==> after.rest.len() < c.rest.len()
            &&& word matches Some(word) ==> c.offset <= word.offset < after.offset
        },
{
    gap_advances(c, stop_at_newline);
    if let Ok((false, start)) = gap(c, stop_at_newline) {
        take_advances(start);
        if let Ok((first, after)) = take(start) {
            leads_to_transitive(c, start, after);
            if first is Some {
                completion_advances(after, first->0);
                if let Ok((_, behind)) = completion(after, first->0) {
                    leads_to_transitive(c, after, behind);
                }
            }
        }
    }
}

/// A required token moves the cursor by at least one byte.
pub proof fn required_advances(c: Cursor)
    ensures
        required(c) matches Ok((word, after)) ==> {
            &&& c.leads_to(after)
            &&& after.rest.len() < c.rest.len()
            &&& c.offset <= word.offset < after.offset
        },
{
    token_advances(c, false);
}

/// A group moves the cursor.
pub proof fn group_advances(c: Cursor, open: Seq<u8>)
    ensures
        group(c, open) matches Ok((_, after)) ==> c.leads_to(after),
    decreases c.rest.len(),
{
    leads_to_itself(c);
    required_advances(c);
    if open.len() > 0 {
        if let Ok((word, after)) = required(c) {
            let next = if word.bytes.len() != 1 {
                open
            } else if closer(word.bytes[0]) is Some {
                open.push(closer(word.bytes[0])->0)
            } else if !closing(word.bytes[0]) {
                open
            } else {
                open.drop_last()
            };
            group_advances(after, next);
            if let Ok((_, end)) = group(after, next) {
                leads_to_transitive(c, after, end);
            }
        }
    }
}

/// The group that a token opens moves the cursor.
pub proof fn group_of_advances(c: Cursor, word: Word)
    ensures
        group_of(c, word) matches Ok((_, after)) ==> c.leads_to(after),
{
    leads_to_itself(c);
    if word.bytes.len() == 1 && closer(word.bytes[0]) is Some {
        group_advances(c, seq![closer(word.bytes[0])->0]);
    }
}

/// A body moves the cursor.
pub proof fn body_advances(c: Cursor, state: BodyState)
    ensures
        body(c, state) matches Ok((_, after)) ==> c.leads_to(after),
    decreases c.rest.len(),
{
    take_advances(c);
    if let Ok((Some(byte), after)) = take(c) {
        if let BodyStep::Within(next) = body_step(state, byte) {
            body_advances(after, next);
            if let Ok((_, end)) = body(after, next) {
                leads_to_transitive(c, after, end);
            }
        }
    }
}

} // verus!

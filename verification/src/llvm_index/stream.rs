//! Reads LLVM header tokens and body boundaries with bounded storage.
//!
//! Header budgets count input bytes, including whitespace and comments. Body scans retain no
//! tokens. The tokenizer validates quoted bytes before symbol decoding relies on their layout.

use super::error::{Fault, IndexError};
use super::model;
use super::model::{BodyState, Cursor, HEADER_LIMIT};
use crate::source::{read_some, ByteSource};
use super::symbol;
use super::symbol::Token;
use crate::bytes;
use vstd::prelude::*;

verus! {

/// The size of the fixed input buffer.
pub const CHUNK_SIZE: usize = 8192;

/// Fixed-buffer input that tracks consumed bytes independently of reader lookahead.
///
/// An active header budget bounds tokens and delimiter stacks. Body scans and unrelated lines use
/// only the fixed chunk. Reading ahead into that chunk does not consume the header budget.
pub struct Stream<R: ByteSource> {
    reader: R,
    chunk: [u8; CHUNK_SIZE],
    /// The next unread chunk index, always at or before the filled length.
    position: usize,
    /// The filled prefix of the fixed chunk.
    length: usize,
    /// The number of bytes consumed from the complete input, not just the current chunk.
    offset: u64,
    /// A consumed header start whose distance from the offset is at most the header limit.
    header_start: Option<u64>,
    /// The largest token buffer so far.
    peak_token_capacity: usize,
    /// The largest delimiter stack so far.
    peak_group_capacity: usize,
}

/// Reports a vector's capacity with `Vec::capacity`, which is never below the vector's length. How
/// far above it lies is up to the allocator.
#[verifier::external_body]
fn allocated(buffer: &Vec<u8>) -> (result: usize)
    ensures
        result >= buffer@.len(),
{
    buffer.capacity()
}

/// A stream step agrees with the mathematical one.
pub open spec fn agrees<T, U>(
    result: Result<T, IndexError>,
    after: Cursor,
    expected: model::Step<U>,
    same: spec_fn(T, U) -> bool,
) -> bool {
    match (result, expected) {
        (Ok(value), Ok((meant, behind))) => same(value, meant) && after == behind,
        (Err(error), Err(meant)) => error == meant,
        _ => false,
    }
}

impl<R: ByteSource> Stream<R> {
    /// The position in the input.
    pub closed spec fn cursor(&self) -> Cursor {
        Cursor {
            rest: self.chunk@.subrange(self.position as int, self.length as int)
                + self.reader.pending(),
            ending: self.reader.failure(),
            offset: self.offset,
            header: self.header_start,
        }
    }

    /// The chunk indices are in order and the header budget is not overdrawn.
    pub closed spec fn well_formed(&self) -> bool {
        &&& self.position <= self.length <= CHUNK_SIZE
        &&& self.cursor().valid()
    }

    /// The largest token buffer and the largest delimiter stack so far.
    pub closed spec fn peaks(&self) -> (usize, usize) {
        (self.peak_token_capacity, self.peak_group_capacity)
    }

    /// Starts an input stream at byte zero with no active header budget.
    pub fn new(reader: R) -> (result: Self)
        ensures
            result.well_formed(),
            result.cursor() == (Cursor {
                rest: reader.pending(),
                ending: reader.failure(),
                offset: 0,
                header: None,
            }),
            result.peaks() == (0usize, 0usize),
    {
        Stream::starting_at(reader, 0)
    }

    /// Starts an input stream at a later byte with no active header budget.
    pub fn starting_at(reader: R, offset: u64) -> (result: Self)
        ensures
            result.well_formed(),
            result.cursor() == (Cursor {
                rest: reader.pending(),
                ending: reader.failure(),
                offset,
                header: None,
            }),
            result.peaks() == (0usize, 0usize),
    {
        let result = Stream {
            reader,
            chunk: [0; CHUNK_SIZE],
            position: 0,
            length: 0,
            offset,
            header_start: None,
            peak_token_capacity: 0,
            peak_group_capacity: 0,
        };
        assert(result.cursor().rest =~= reader.pending());
        result
    }

    /// Returns the offset of the next byte that will be consumed.
    pub fn offset(&self) -> (result: u64)
        ensures
            result == self.cursor().offset,
    {
        self.offset
    }

    /// Starts the header budget, including any prefix already consumed by the scanner.
    ///
    /// The start **must** be at or before [`Self::offset`]. The consumed prefix **must** fit within
    /// [`HEADER_LIMIT`] so subsequent reads can enforce the remaining budget.
    pub fn begin_header(&mut self, start: u64)
        requires
            old(self).well_formed(),
            start <= old(self).cursor().offset,
            old(self).cursor().offset - start <= HEADER_LIMIT,
        ensures
            final(self).well_formed(),
            final(self).cursor() == old(self).cursor().with_header(Some(start)),
            final(self).peaks() == old(self).peaks(),
    {
        self.header_start = Some(start);
    }

    /// Removes the header budget before streaming a body or unrelated line.
    pub fn end_header(&mut self)
        requires
            old(self).well_formed(),
        ensures
            final(self).well_formed(),
            final(self).cursor() == old(self).cursor().with_header(None),
            final(self).peaks() == old(self).peaks(),
    {
        self.header_start = None;
    }

    /// Reads ahead without consuming a byte or changing the header budget.
    pub fn peek(&mut self) -> (result: Result<Option<u8>, IndexError>)
        requires
            old(self).well_formed(),
        ensures
            final(self).well_formed(),
            final(self).cursor() == old(self).cursor(),
            final(self).peaks() == old(self).peaks(),
            result == model::peek(old(self).cursor()),
            result matches Ok(Some(_)) ==> final(self).buffered(),
    {
        if self.position == self.length {
            match self.refill() {
                Ok(()) => {},
                Err(error) => {
                    return Err(error);
                },
            }
        }
        if self.position < self.length {
            assert(self.cursor().rest[0] == self.chunk@[self.position as int]);
            Ok(Some(self.chunk[self.position]))
        } else {
            Ok(None)
        }
    }

    /// At least one byte of the chunk is unread.
    pub closed spec fn buffered(&self) -> bool {
        self.position < self.length
    }

    /// Refills an exhausted chunk without changing the absolute offset or header budget.
    fn refill(&mut self) -> (result: Result<(), IndexError>)
        requires
            old(self).well_formed(),
            old(self).position == old(self).length,
        ensures
            final(self).well_formed(),
            final(self).cursor() == old(self).cursor(),
            final(self).peaks() == old(self).peaks(),
            match result {
                Ok(()) => final(self).position < final(self).length || (
                final(self).cursor().rest.len() == 0 && final(self).cursor().ending is None),
                Err(error) => {
                    &&& old(self).cursor().rest.len() == 0
                    &&& old(self).cursor().ending matches Some(failure)
                    &&& error == IndexError::Read(failure)
                },
            },
    {
        let ghost pending = self.reader.pending();
        assert(self.cursor().rest =~= pending);
        match read_some(&mut self.reader, &mut self.chunk) {
            Ok(count) => {
                self.position = 0;
                self.length = count;
                assert(self.chunk@.subrange(0, count as int) =~= self.chunk@.take(count as int));
                assert(self.cursor().rest =~= pending);
                Ok(())
            },
            Err(error) => {
                assert(self.cursor().rest =~= pending);
                Err(IndexError::Read(error))
            },
        }
    }

    /// Consumes one byte while enforcing the active header and absolute-offset bounds. A refused byte
    /// stays where it is.
    pub fn take(&mut self) -> (result: Result<Option<u8>, IndexError>)
        requires
            old(self).well_formed(),
        ensures
            final(self).well_formed(),
            final(self).peaks() == old(self).peaks(),
            agrees(
                result,
                final(self).cursor(),
                model::take(old(self).cursor()),
                |value: Option<u8>, meant: Option<u8>| value == meant,
            ),
            result is Err ==> final(self).cursor() == old(self).cursor(),
    {
        let byte: u8 = match self.peek() {
            Err(error) => {
                return Err(error);
            },
            Ok(None) => {
                return Ok(None);
            },
            Ok(Some(byte)) => byte,
        };
        let ghost before = self.cursor();
        if let Some(start) = self.header_start {
            if self.offset - start == HEADER_LIMIT {
                return Err(
                    IndexError::Malformed { offset: self.offset, fault: Fault::HeaderBudget },
                );
            }
        }
        if self.offset == u64::MAX {
            return Err(
                IndexError::Malformed { offset: self.offset, fault: Fault::OffsetOverflow },
            );
        }
        self.offset += 1;
        self.position += 1;
        assert(self.cursor().rest =~= before.rest.skip(1));
        Ok(Some(byte))
    }

    /// Consumes through the next newline or EOF without retaining line content.
    pub fn skip_line(&mut self) -> (result: Result<(), IndexError>)
        requires
            old(self).well_formed(),
        ensures
            final(self).well_formed(),
            final(self).peaks() == old(self).peaks(),
            agrees(
                result,
                final(self).cursor(),
                model::line(old(self).cursor()),
                |value: (), meant: ()| true,
            ),
    {
        loop
            invariant
                self.well_formed(),
                self.peaks() == old(self).peaks(),
                model::line(self.cursor()) == model::line(old(self).cursor()),
            decreases self.cursor().rest.len(),
        {
            match self.take() {
                Err(error) => {
                    return Err(error);
                },
                Ok(None) => {
                    return Ok(());
                },
                Ok(Some(byte)) => {
                    if byte == 0x0a {
                        return Ok(());
                    }
                },
            }
        }
    }

    /// Consumes whitespace and comments and tells whether a line end stopped it.
    fn skip_gap(&mut self, stop_at_newline: bool) -> (result: Result<bool, IndexError>)
        requires
            old(self).well_formed(),
        ensures
            final(self).well_formed(),
            final(self).peaks() == old(self).peaks(),
            agrees(
                result,
                final(self).cursor(),
                model::gap(old(self).cursor(), stop_at_newline),
                |value: bool, meant: bool| value == meant,
            ),
    {
        loop
            invariant
                self.well_formed(),
                self.peaks() == old(self).peaks(),
                model::gap(self.cursor(), stop_at_newline) == model::gap(
                    old(self).cursor(),
                    stop_at_newline,
                ),
            decreases self.cursor().rest.len(),
        {
            let byte: u8 = match self.peek() {
                Err(error) => {
                    return Err(error);
                },
                Ok(None) => {
                    return Ok(false);
                },
                Ok(Some(byte)) => byte,
            };
            proof {
                model::line_advances(self.cursor());
            }
            if byte == ';' as u8 {
                match self.skip_line() {
                    Err(error) => {
                        return Err(error);
                    },
                    Ok(()) => {},
                }
                if stop_at_newline {
                    return Ok(true);
                }
            } else if bytes::is_space(byte) {
                match self.take() {
                    Err(error) => {
                        return Err(error);
                    },
                    Ok(_) => {},
                }
                if stop_at_newline && byte == 0x0a {
                    return Ok(true);
                }
            } else {
                return Ok(false);
            }
        }
    }

    /// Reads one token, optionally treating a newline as the end of a header.
    ///
    /// A header budget **must** be active. Comments and whitespace count against that budget even
    /// when they produce no token. Quoted tokens contain only complete, validated escapes.
    pub fn read_token(&mut self, stop_at_newline: bool) -> (result: Result<
        Option<Token>,
        IndexError,
    >)
        requires
            old(self).well_formed(),
            old(self).cursor().header is Some,
        ensures
            final(self).well_formed(),
            final(self).peaks().0 >= old(self).peaks().0,
            final(self).peaks().1 == old(self).peaks().1,
            agrees(
                result,
                final(self).cursor(),
                model::token(old(self).cursor(), stop_at_newline),
                |value: Option<Token>, meant: Option<model::Word>|
                    match (value, meant) {
                        (Some(token), Some(word)) => token.word() == word,
                        (None, None) => true,
                        _ => false,
                    },
            ),
            result matches Ok(Some(token)) ==> token.well_formed() && final(self).peaks().0
                >= token.bytes@.len(),
    {
        proof {
            symbol::tokens_are_complete(self.cursor(), stop_at_newline);
        }
        match self.skip_gap(stop_at_newline) {
            Err(error) => {
                return Err(error);
            },
            Ok(true) => {
                return Ok(None);
            },
            Ok(false) => {},
        }
        let offset: u64 = self.offset;
        let first: u8 = match self.take() {
            Err(error) => {
                return Err(error);
            },
            Ok(None) => {
                return Ok(None);
            },
            Ok(Some(first)) => first,
        };
        let mut bytes: Vec<u8> = Vec::new();
        bytes.push(first);
        assert(bytes@ =~= seq![first]);
        let result = self.complete_token(&mut bytes);
        let capacity: usize = allocated(&bytes);
        if self.peak_token_capacity < capacity {
            self.peak_token_capacity = capacity;
        }
        match result {
            Err(error) => Err(error),
            Ok(()) => Ok(Some(Token { bytes, offset })),
        }
    }

    /// Reads across line boundaries and rejects EOF before the next token.
    pub fn read_required_token(&mut self) -> (result: Result<Token, IndexError>)
        requires
            old(self).well_formed(),
            old(self).cursor().header is Some,
        ensures
            final(self).well_formed(),
            final(self).peaks().0 >= old(self).peaks().0,
            final(self).peaks().1 == old(self).peaks().1,
            agrees(
                result,
                final(self).cursor(),
                model::required(old(self).cursor()),
                |value: Token, meant: model::Word| value.word() == meant,
            ),
            result matches Ok(token) ==> token.well_formed() && final(self).cursor().header
                == old(self).cursor().header && final(self).cursor().rest.len() < old(self).cursor().rest.len(),
    {
        proof {
            model::required_advances(self.cursor());
        }
        match self.read_token(false) {
            Err(error) => Err(error),
            Ok(Some(token)) => Ok(token),
            Ok(None) => Err(
                IndexError::Malformed { offset: self.offset, fault: Fault::MissingToken },
            ),
        }
    }

    /// Consumes one token and requires it to be one exact byte.
    fn expect_byte(&mut self, byte: u8, fault: Fault) -> (result: Result<(), IndexError>)
        requires
            old(self).well_formed(),
            old(self).cursor().header is Some,
        ensures
            final(self).well_formed(),
            final(self).peaks().0 >= old(self).peaks().0,
            final(self).peaks().1 == old(self).peaks().1,
            agrees(
                result,
                final(self).cursor(),
                model::expected(old(self).cursor(), byte, fault),
                |value: (), meant: ()| true,
            ),
            result is Ok ==> final(self).cursor().header == old(self).cursor().header,
    {
        match self.read_required_token() {
            Err(error) => Err(error),
            Ok(token) => {
                if bytes::is_byte(&token.bytes, byte) {
                    Ok(())
                } else {
                    Err(IndexError::Malformed { offset: token.offset, fault })
                }
            },
        }
    }

    /// Consumes one token and requires an opening parenthesis.
    pub fn expect_parenthesis(&mut self) -> (result: Result<(), IndexError>)
        requires
            old(self).well_formed(),
            old(self).cursor().header is Some,
        ensures
            final(self).well_formed(),
            final(self).peaks().0 >= old(self).peaks().0,
            final(self).peaks().1 == old(self).peaks().1,
            agrees(
                result,
                final(self).cursor(),
                model::expected(old(self).cursor(), '(' as u8, Fault::NotParenthesis),
                |value: (), meant: ()| true,
            ),
            result is Ok ==> final(self).cursor().header == old(self).cursor().header,
    {
        self.expect_byte('(' as u8, Fault::NotParenthesis)
    }

    /// Consumes one token and requires an equals sign.
    pub fn expect_equals(&mut self) -> (result: Result<(), IndexError>)
        requires
            old(self).well_formed(),
            old(self).cursor().header is Some,
        ensures
            final(self).well_formed(),
            final(self).peaks().0 >= old(self).peaks().0,
            final(self).peaks().1 == old(self).peaks().1,
            agrees(
                result,
                final(self).cursor(),
                model::expected(old(self).cursor(), '=' as u8, Fault::NotEquals),
                |value: (), meant: ()| true,
            ),
            result is Ok ==> final(self).cursor().header == old(self).cursor().header,
    {
        self.expect_byte('=' as u8, Fault::NotEquals)
    }

    /// Completes a token whose first byte is already present in the buffer.
    fn complete_token(&mut self, bytes: &mut Vec<u8>) -> (result: Result<(), IndexError>)
        requires
            old(self).well_formed(),
            old(bytes)@.len() == 1,
        ensures
            final(self).well_formed(),
            final(self).peaks() == old(self).peaks(),
            ({
                let expected = model::completion(old(self).cursor(), old(bytes)@[0]);
                match (result, expected) {
                    (Ok(()), Ok((read, behind))) => final(bytes)@ == read && final(self).cursor()
                        == behind,
                    (Err(error), Err(meant)) => error == meant,
                    _ => false,
                }
            }),
    {
        let first: u8 = bytes[0];
        assert(bytes@ =~= seq![first]);
        if first == '"' as u8 {
            return self.complete_quoted_token(bytes);
        }
        if first == '@' as u8 || first == '%' as u8 || first == '$' as u8 {
            match self.peek() {
                Err(error) => {
                    return Err(error);
                },
                Ok(next) => {
                    if next == Some('"' as u8) {
                        match self.take() {
                            Err(error) => {
                                return Err(error);
                            },
                            Ok(_) => {},
                        }
                        bytes.push('"' as u8);
                        assert(bytes@ =~= seq![first, '"' as u8]);
                        return self.complete_quoted_token(bytes);
                    }
                },
            }
            return self.complete_bare_token(bytes);
        }
        if is_word(first) || first == '!' as u8 {
            return self.complete_bare_token(bytes);
        }
        Ok(())
    }

    /// Appends the word bytes that follow.
    fn complete_bare_token(&mut self, bytes: &mut Vec<u8>) -> (result: Result<(), IndexError>)
        requires
            old(self).well_formed(),
        ensures
            final(self).well_formed(),
            final(self).peaks() == old(self).peaks(),
            ({
                let expected = model::bare(old(self).cursor(), old(bytes)@);
                match (result, expected) {
                    (Ok(()), Ok((read, behind))) => final(bytes)@ == read && final(self).cursor()
                        == behind,
                    (Err(error), Err(meant)) => error == meant,
                    _ => false,
                }
            }),
    {
        loop
            invariant
                self.well_formed(),
                self.peaks() == old(self).peaks(),
                model::bare(self.cursor(), bytes@) == model::bare(old(self).cursor(), old(bytes)@),
            decreases self.cursor().rest.len(),
        {
            let byte: u8 = match self.peek() {
                Err(error) => {
                    return Err(error);
                },
                Ok(None) => {
                    return Ok(());
                },
                Ok(Some(byte)) => byte,
            };
            if !is_word(byte) {
                return Ok(());
            }
            match self.take() {
                Err(error) => {
                    return Err(error);
                },
                Ok(_) => {},
            }
            bytes.push(byte);
        }
    }

    /// Appends through a closing quote after the caller has consumed the opening quote.
    fn complete_quoted_token(&mut self, bytes: &mut Vec<u8>) -> (result: Result<(), IndexError>)
        requires
            old(self).well_formed(),
        ensures
            final(self).well_formed(),
            final(self).peaks() == old(self).peaks(),
            ({
                let expected = model::quoted(old(self).cursor(), old(bytes)@);
                match (result, expected) {
                    (Ok(()), Ok((read, behind))) => final(bytes)@ == read && final(self).cursor()
                        == behind,
                    (Err(error), Err(meant)) => error == meant,
                    _ => false,
                }
            }),
    {
        loop
            invariant
                self.well_formed(),
                self.peaks() == old(self).peaks(),
                model::quoted(self.cursor(), bytes@) == model::quoted(
                    old(self).cursor(),
                    old(bytes)@,
                ),
            decreases self.cursor().rest.len(),
        {
            let start: u64 = self.offset;
            let ghost before = bytes@;
            let byte: u8 = match self.take() {
                Err(error) => {
                    return Err(error);
                },
                Ok(None) => {
                    return Err(
                        IndexError::Malformed { offset: self.offset, fault: Fault::UnclosedQuote },
                    );
                },
                Ok(Some(byte)) => byte,
            };
            bytes.push(byte);
            if byte == '"' as u8 {
                return Ok(());
            }
            if byte == 0x0a || byte == 0x0d {
                return Err(IndexError::Malformed { offset: start, fault: Fault::BareNewline });
            }
            if byte == '\\' as u8 {
                proof {
                    model::escape_advances(self.cursor());
                }
                match self.complete_quoted_escape(bytes) {
                    Err(error) => {
                        return Err(error);
                    },
                    Ok(()) => {},
                }
            }
        }
    }

    /// Appends the second backslash or two hex digits after a consumed escape marker.
    fn complete_quoted_escape(&mut self, bytes: &mut Vec<u8>) -> (result: Result<(), IndexError>)
        requires
            old(self).well_formed(),
        ensures
            final(self).well_formed(),
            final(self).peaks() == old(self).peaks(),
            ({
                let expected = model::escape(old(self).cursor());
                match (result, expected) {
                    (Ok(()), Ok((read, behind))) => final(bytes)@ == old(bytes)@ + read && final(self).cursor() == behind,
                    (Err(error), Err(meant)) => error == meant,
                    _ => false,
                }
            }),
    {
        match self.peek() {
            Err(error) => {
                return Err(error);
            },
            Ok(next) => {
                if next == Some('\\' as u8) {
                    match self.take() {
                        Err(error) => {
                            return Err(error);
                        },
                        Ok(_) => {},
                    }
                    bytes.push('\\' as u8);
                    assert(bytes@ =~= old(bytes)@ + seq!['\\' as u8]);
                    return Ok(());
                }
            },
        }
        let first: u8 = match self.escape_digit() {
            Err(error) => {
                return Err(error);
            },
            Ok(digit) => digit,
        };
        let second: u8 = match self.escape_digit() {
            Err(error) => {
                return Err(error);
            },
            Ok(digit) => digit,
        };
        bytes.push(first);
        bytes.push(second);
        assert(bytes@ =~= old(bytes)@ + seq![first, second]);
        Ok(())
    }

    fn escape_digit(&mut self) -> (result: Result<u8, IndexError>)
        requires
            old(self).well_formed(),
        ensures
            final(self).well_formed(),
            final(self).peaks() == old(self).peaks(),
            agrees(
                result,
                final(self).cursor(),
                model::escape_digit(old(self).cursor()),
                |value: u8, meant: u8| value == meant,
            ),
    {
        let start: u64 = self.offset;
        match self.take() {
            Err(error) => Err(error),
            Ok(None) => Err(
                IndexError::Malformed { offset: self.offset, fault: Fault::MissingEscapeDigits },
            ),
            Ok(Some(digit)) => {
                if bytes::is_hex_digit(digit) {
                    Ok(digit)
                } else {
                    Err(IndexError::Malformed { offset: start, fault: Fault::BadEscape })
                }
            },
        }
    }

    /// Consumes a balanced header group without recursion.
    ///
    /// The caller **must** consume the opening delimiter first and keep the header budget active.
    pub fn consume_group(&mut self, opening: u8) -> (result: Result<(), IndexError>)
        requires
            old(self).well_formed(),
            old(self).cursor().header is Some,
            model::closer(opening) is Some,
        ensures
            final(self).well_formed(),
            final(self).peaks().0 >= old(self).peaks().0,
            final(self).peaks().1 >= old(self).peaks().1,
            agrees(
                result,
                final(self).cursor(),
                model::group(old(self).cursor(), seq![model::closer(opening)->0]),
                |value: (), meant: ()| true,
            ),
            result is Ok ==> final(self).cursor().header == old(self).cursor().header
                && final(self).cursor().rest.len() <= old(self).cursor().rest.len(),
    {
        let mut closing: Vec<u8> = Vec::new();
        if let Some(close) = matching_close(opening) {
            closing.push(close);
        }
        assert(closing@ =~= seq![model::closer(opening)->0]);
        proof {
            model::group_advances(self.cursor(), closing@);
        }
        loop
            invariant
                self.well_formed(),
                self.cursor().header is Some,
                self.peaks().0 >= old(self).peaks().0,
                self.peaks().1 >= old(self).peaks().1,
                model::group(self.cursor(), closing@) == model::group(
                    old(self).cursor(),
                    seq![model::closer(opening)->0],
                ),
                model::group(old(self).cursor(), seq![model::closer(opening)->0]) matches Ok(
                    (_, after),
                ) ==> old(self).cursor().leads_to(after),
            decreases self.cursor().rest.len(),
        {
            if closing.len() == 0 {
                return Ok(());
            }
            let capacity: usize = allocated(&closing);
            if self.peak_group_capacity < capacity {
                self.peak_group_capacity = capacity;
            }
            let expected: u8 = closing[closing.len() - 1];
            let token = match self.read_required_token() {
                Err(error) => {
                    return Err(error);
                },
                Ok(token) => token,
            };
            if token.bytes.len() == 1 {
                let byte: u8 = token.bytes[0];
                if let Some(close) = matching_close(byte) {
                    closing.push(close);
                } else if is_closing(byte) {
                    if byte != expected {
                        return Err(
                            IndexError::Malformed {
                                offset: token.offset,
                                fault: Fault::MismatchedDelimiter,
                            },
                        );
                    }
                    let ghost before = closing@;
                    closing.pop();
                    assert(closing@ =~= before.drop_last());
                }
            }
        }
    }

    /// Reports the chunk size, the largest token buffer and the largest delimiter stack.
    pub fn buffer_peaks(&self) -> (result: (usize, usize, usize))
        ensures
            result.0 == CHUNK_SIZE,
            (result.1, result.2) == self.peaks(),
    {
        (CHUNK_SIZE, self.peak_token_capacity, self.peak_group_capacity)
    }

    /// Consumes the body after its opening brace and returns just after the closing brace.
    ///
    /// Quotes and comments hide braces from the nesting count. The header budget **must** be off
    /// because function bodies have no size limit. EOF before the closing brace returns an error.
    pub fn skip_body(&mut self) -> (result: Result<(), IndexError>)
        requires
            old(self).well_formed(),
            old(self).cursor().header is None,
        ensures
            final(self).well_formed(),
            final(self).peaks() == old(self).peaks(),
            agrees(
                result,
                final(self).cursor(),
                model::body(old(self).cursor(), model::fresh_body()),
                |value: (), meant: ()| true,
            ),
    {
        let mut depth: u128 = 1;
        let mut quoted = false;
        let mut comment = false;
        // A nonzero count occurs only inside a quote, after an escape's opening backslash.
        let mut escape_digits: u8 = 0;
        loop
            invariant
                self.well_formed(),
                self.peaks() == old(self).peaks(),
                1 <= depth <= 1 + self.cursor().offset,
                escape_digits <= 2,
                escape_digits != 0 ==> quoted,
                model::body(
                    self.cursor(),
                    BodyState {
                        depth: depth as nat,
                        quoted,
                        comment,
                        escape_digits: escape_digits as nat,
                    },
                ) == model::body(old(self).cursor(), model::fresh_body()),
            decreases self.cursor().rest.len(),
        {
            let start: u64 = self.offset;
            let byte: u8 = match self.take() {
                Err(error) => {
                    return Err(error);
                },
                Ok(None) => {
                    return Err(
                        IndexError::Malformed { offset: self.offset, fault: Fault::UnclosedBody },
                    );
                },
                Ok(Some(byte)) => byte,
            };
            if comment {
                comment = byte != 0x0a;
            } else if escape_digits == 2 && byte == '\\' as u8 {
                escape_digits = 0;
            } else if escape_digits != 0 {
                if !bytes::is_hex_digit(byte) {
                    return Err(IndexError::Malformed { offset: start, fault: Fault::BadEscape });
                }
                escape_digits -= 1;
            } else if quoted {
                if byte == 0x0a || byte == 0x0d {
                    return Err(IndexError::Malformed { offset: start, fault: Fault::BareNewline });
                }
                if byte == '"' as u8 {
                    quoted = false;
                } else if byte == '\\' as u8 {
                    escape_digits = 2;
                }
            } else if byte == ';' as u8 {
                comment = true;
            } else if byte == '"' as u8 {
                quoted = true;
            } else if byte == '{' as u8 {
                depth += 1;
            } else if byte == '}' as u8 {
                if depth == 1 {
                    return Ok(());
                }
                depth -= 1;
            }
        }
    }
}

/// Tells whether a byte continues a bare word.
fn is_word(byte: u8) -> (result: bool)
    ensures
        result == model::word_byte(byte),
{
    bytes::is_letter(byte) || bytes::is_digit(byte) || byte == '_' as u8 || byte == '.' as u8
        || byte == '$' as u8 || byte == '-' as u8
}

/// Classifies an opening delimiter without treating another byte as malformed input.
pub fn matching_close(byte: u8) -> (result: Option<u8>)
    ensures
        result == model::closer(byte),
{
    if byte == '(' as u8 {
        Some(')' as u8)
    } else if byte == '[' as u8 {
        Some(']' as u8)
    } else if byte == '{' as u8 {
        Some('}' as u8)
    } else if byte == '<' as u8 {
        Some('>' as u8)
    } else {
        None
    }
}

/// Classifies a closing delimiter.
pub fn is_closing(byte: u8) -> (result: bool)
    ensures
        result == model::closing(byte),
{
    byte == ')' as u8 || byte == ']' as u8 || byte == '}' as u8 || byte == '>' as u8
}

} // verus!

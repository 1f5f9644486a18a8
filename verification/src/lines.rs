//! Reads a byte source line by line.

use crate::bytes;
use crate::bytes::{find_byte, head, part};
use crate::source;
use crate::source::{ByteSource, SourceError};
use crate::wire::{put_bytes, Input};
use vstd::prelude::*;

verus! {

/// The length of the next line with its line feed. A last line without one needs an ordinary end.
pub open spec fn line_length(input: Input) -> Result<int, SourceError> {
    let feed = bytes::index_of(input.rest, 0x0a);
    if feed < input.rest.len() {
        Ok(feed + 1)
    } else {
        match input.ending {
            Some(error) => Err(error),
            None => Ok(input.rest.len() as int),
        }
    }
}

/// A line has at least one byte, unless the input is at its end.
pub proof fn line_length_bounds(input: Input)
    ensures
        line_length(input) matches Ok(length) ==> 0 <= length <= input.rest.len() && (
        input.rest.len() > 0 ==> length > 0),
{
    bytes::index_of_bounds(input.rest, 0x0a);
}

/// The input behind some bytes.
pub open spec fn behind(input: Input, count: int) -> Input {
    Input { rest: input.rest.skip(count), ..input }
}

/// The input of a source up to its next interruption, which ends it.
pub open spec fn prompt<R: ByteSource>(source: R) -> Input {
    Input {
        rest: source::ready(source),
        ending: source::stop(source),
        interruptions: Seq::empty(),
    }
}

/// The input of a source whose interrupted reads are repeated.
pub open spec fn patient<R: ByteSource>(source: R) -> Input {
    Input { rest: source.pending(), ending: source.failure(), interruptions: Seq::empty() }
}

/// Reads lines through a fixed buffer. Interrupted reads are reported.
pub struct LineReader<R: ByteSource> {
    source: R,
    chunk: Vec<u8>,
    position: usize,
    length: usize,
}

impl<R: ByteSource> LineReader<R> {
    /// What the reader has yet to give.
    pub closed spec fn input(&self) -> Input {
        Input {
            rest: self.chunk@.subrange(self.position as int, self.length as int) + source::ready(
                self.source,
            ),
            ending: source::stop(self.source),
            interruptions: Seq::empty(),
        }
    }

    /// The number of bytes to come, those behind interruptions too.
    pub closed spec fn left(&self) -> nat {
        (self.length - self.position + self.source.pending().len()) as nat
    }

    /// The chunk indices are in order.
    pub closed spec fn well_formed(&self) -> bool {
        &&& self.chunk@.len() == 8192
        &&& self.position <= self.length <= self.chunk@.len()
    }

    /// Starts to read a source.
    pub fn new(source: R) -> (result: Self)
        ensures
            result.well_formed(),
            result.input() == prompt(source),
            result.left() == source.pending().len(),
            result.input().rest.len() <= result.left(),
    {
        let result = LineReader { source, chunk: vec![0; 8192], position: 0, length: 0 };
        assert(result.input().rest =~= source::ready(source));
        result
    }

    /// Reads the next piece of the current line and tells whether it ends the line.
    pub fn read_piece(&mut self) -> (result: Result<Option<(Vec<u8>, bool)>, SourceError>)
        requires
            old(self).well_formed(),
        ensures
            final(self).well_formed(),
            final(self).input().rest.len() <= final(self).left(),
            match result {
                Err(error) => {
                    &&& old(self).input().rest.len() == 0
                    &&& old(self).input().ending == Some(error)
                    &&& final(self).left() == old(self).left()
                },
                Ok(None) => {
                    &&& old(self).input().rest.len() == 0
                    &&& old(self).input().ending is None
                    &&& final(self).input() == old(self).input()
                    &&& final(self).left() == old(self).left()
                },
                Ok(Some((piece, ended))) => {
                    &&& 0 < piece@.len() <= old(self).input().rest.len()
                    &&& piece@ == old(self).input().rest.take(piece@.len() as int)
                    &&& final(self).input() == behind(old(self).input(), piece@.len() as int)
                    &&& final(self).left() == old(self).left() - piece@.len()
                    &&& ended == (piece@.last() == 0x0a)
                    &&& forall|i: int| 0 <= i < piece@.len() - 1 ==> piece@[i] != 0x0a
                },
            },
    {
        let ghost start = self.input();
        if self.position == self.length {
            let ghost pending = source::ready(self.source);
            assert(start.rest =~= pending);
            match self.source.read(&mut self.chunk) {
                Err(error) => {
                    return Err(error);
                },
                Ok(count) => {
                    self.position = 0;
                    self.length = count;
                    assert(self.chunk@.subrange(0, count as int) =~= self.chunk@.take(
                        count as int,
                    ));
                    assert(self.input().rest =~= pending);
                    assert(self.input() == start);
                },
            }
        }
        if self.position == self.length {
            assert(self.input().rest =~= start.rest);
            return Ok(None);
        }
        let available = part(self.chunk.as_slice(), self.position, self.length);
        let feed: usize = find_byte(available, 0x0a);
        let ended = feed < available.len();
        let count: usize = if ended { feed + 1 } else { feed };
        let mut piece: Vec<u8> = Vec::new();
        proof {
            bytes::index_of_bounds(available@, 0x0a);
            assert(available@ =~= start.rest.take(available@.len() as int));
        }
        put_bytes(&mut piece, head(available, count));
        self.position = self.position + count;
        proof {
            assert(piece@ =~= available@.take(count as int));
            assert(piece@ =~= start.rest.take(count as int));
            assert(self.input().rest =~= start.rest.skip(count as int));
            assert forall|i: int| 0 <= i < piece@.len() - 1 implies piece@[i] != 0x0a by {
                assert(piece@[i] == available@[i]);
            }
            assert(piece@.last() == available@[count - 1]);
        }
        Ok(Some((piece, ended)))
    }

    /// Reads the next line with its line feed, or nothing at the end.
    pub fn read_line(&mut self) -> (result: Result<Vec<u8>, SourceError>)
        requires
            old(self).well_formed(),
        ensures
            final(self).well_formed(),
            match (result, line_length(old(self).input())) {
                (Ok(line), Ok(length)) => {
                    &&& line@ == old(self).input().rest.take(length)
                    &&& final(self).input() == behind(old(self).input(), length)
                },
                (Err(error), Err(expected)) => error == expected,
                _ => false,
            },
    {
        let mut line: Vec<u8> = Vec::new();
        let ghost start = self.input();
        assert(start.rest.skip(0) =~= start.rest);
        assert(start.rest.take(0) =~= Seq::empty());
        assert(line@ =~= Seq::empty());
        loop
            invariant
                self.well_formed(),
                start == old(self).input(),
                line@.len() <= start.rest.len(),
                line@ == start.rest.take(line@.len() as int),
                self.input() == behind(start, line@.len() as int),
                forall|i: int| 0 <= i < line@.len() ==> start.rest[i] != 0x0a,
            decreases self.input().rest.len(),
        {
            match self.read_piece() {
                Err(error) => {
                    proof {
                        bytes::index_of_is(start.rest, 0x0a, line@.len() as int);
                    }
                    return Err(error);
                },
                Ok(None) => {
                    proof {
                        bytes::index_of_is(start.rest, 0x0a, line@.len() as int);
                    }
                    return Ok(line);
                },
                Ok(Some((piece, ended))) => {
                    let ghost before = line@.len() as int;
                    put_bytes(&mut line, piece.as_slice());
                    proof {
                        let total = line@.len() as int;
                        assert(line@ =~= start.rest.take(total));
                        assert(start.rest.skip(before).skip(piece@.len() as int)
                            =~= start.rest.skip(total));
                        assert forall|i: int| 0 <= i < total - 1 implies start.rest[i] != 0x0a by {
                            if i >= before {
                                assert(piece@[i - before] == start.rest[i]);
                            }
                        }
                        assert(start.rest[total - 1] == piece@.last());
                        if ended {
                            bytes::index_of_is(start.rest, 0x0a, total - 1);
                        }
                    }
                    if ended {
                        return Ok(line);
                    }
                },
            }
        }
    }
}

} // verus!

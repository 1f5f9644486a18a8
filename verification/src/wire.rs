//! The little-endian encoding that the compiler manifests share.
//!
//! Numbers have four or eight bytes. A text is its byte length in four bytes and its UTF-8 bytes.

use crate::source;
use crate::source::{read_some, ByteSource, SourceError};
use vstd::bytes::*;
use vstd::prelude::*;

verus! {

/// The bytes that an input has yet to give, and what follows them.
pub struct Input {
    /// The bytes that follow.
    pub rest: Seq<u8>,
    /// The failure after the last byte, or `None` for an ordinary end.
    pub ending: Option<SourceError>,
    /// The interruptions to come: the number of bytes that are left, and the error.
    pub interruptions: Seq<(nat, SourceError)>,
}

/// What a source has yet to give.
pub open spec fn input_of<R: ByteSource>(source: R) -> Input {
    Input {
        rest: source.pending(),
        ending: source.failure(),
        interruptions: source::remaining(source.interruptions(), source.pending().len()),
    }
}

/// The input behind some bytes. Reading bytes repeats the reads that were interrupted before the
/// last of them.
pub open spec fn behind(input: Input, count: nat) -> Input {
    Input {
        rest: input.rest.skip(count as int),
        interruptions: source::remaining(input.interruptions, (input.rest.len() - count) as nat),
        ..input
    }
}

/// Without interruptions the input behind some bytes differs in its bytes alone.
pub proof fn behind_uninterrupted(input: Input, count: nat)
    requires
        input.interruptions == Seq::<(nat, SourceError)>::empty(),
        count <= input.rest.len(),
    ensures
        behind(input, count) == (Input { rest: input.rest.skip(count as int), ..input }),
{
    source::remaining_all(input.interruptions, (input.rest.len() - count) as nat);
}

/// Bytes can be read in two pieces.
pub proof fn behind_twice(input: Input, first: nat, second: nat)
    requires
        first + second <= input.rest.len(),
    ensures
        behind(behind(input, first), second) == behind(input, first + second),
{
    source::remaining_twice(
        input.interruptions,
        (input.rest.len() - first) as nat,
        (input.rest.len() - first - second) as nat,
    );
    assert(input.rest.skip(first as int).skip(second as int) =~= input.rest.skip(
        (first + second) as int,
    ));
}

/// Why a number of bytes could not be read.
pub enum ReadFault {
    /// The input ends too early.
    Truncated,
    /// The source failed.
    Failed(SourceError),
}

/// The next bytes of an input.
pub open spec fn exact(input: Input, count: nat) -> Result<(Seq<u8>, Input), ReadFault> {
    if count <= input.rest.len() {
        Ok((input.rest.take(count as int), behind(input, count)))
    } else {
        match input.ending {
            Some(error) => Err(ReadFault::Failed(error)),
            None => Err(ReadFault::Truncated),
        }
    }
}

/// The next four bytes as a number.
pub open spec fn small(input: Input) -> Result<(u32, Input), ReadFault> {
    match exact(input, 4) {
        Ok((bytes, after)) => Ok((spec_u32_from_le_bytes(bytes), after)),
        Err(fault) => Err(fault),
    }
}

/// The next eight bytes as a number.
pub open spec fn large(input: Input) -> Result<(u64, Input), ReadFault> {
    match exact(input, 8) {
        Ok((bytes, after)) => Ok((spec_u64_from_le_bytes(bytes), after)),
        Err(fault) => Err(fault),
    }
}

/// Whether an input ends here. The question is asked once: an interruption is an error.
pub open spec fn ended(input: Input) -> Result<bool, SourceError> {
    if source::interrupts(input.interruptions, input.rest.len()) {
        Err(input.interruptions[0].1)
    } else if input.rest.len() > 0 {
        Ok(false)
    } else {
        match input.ending {
            Some(error) => Err(error),
            None => Ok(true),
        }
    }
}

/// The encoding of a text.
pub open spec fn text_bytes(text: Seq<char>) -> Seq<u8> {
    let bytes = vstd::utf8::encode_utf8(text);
    spec_u32_to_le_bytes(bytes.len() as u32) + bytes
}

/// A text is short enough for its length field.
pub open spec fn text_fits(text: Seq<char>) -> bool {
    vstd::utf8::encode_utf8(text).len() <= u32::MAX
}

/// Concatenation is associative.
pub proof fn regroup(first: Seq<u8>, second: Seq<u8>, third: Seq<u8>)
    ensures
        (first + second) + third == first + (second + third),
{
    assert((first + second) + third =~= first + (second + third));
}

/// An input that starts with some bytes gives them back.
pub proof fn exact_gives_back(input: Input, bytes: Seq<u8>, rest: Seq<u8>)
    requires
        input.rest == bytes + rest,
    ensures
        exact(input, bytes.len()) == Ok::<(Seq<u8>, Input), ReadFault>(
            (bytes, behind(input, bytes.len())),
        ),
        behind(input, bytes.len()).rest == rest,
{
    assert((bytes + rest).take(bytes.len() as int) =~= bytes);
    assert(behind(input, bytes.len()).rest =~= rest);
}

/// A written four-byte number reads back.
pub proof fn small_gives_back(input: Input, value: u32, rest: Seq<u8>)
    requires
        input.rest == spec_u32_to_le_bytes(value) + rest,
    ensures
        small(input) == Ok::<(u32, Input), ReadFault>((value, behind(input, 4))),
        behind(input, 4).rest == rest,
{
    lemma_auto_spec_u32_to_from_le_bytes();
    exact_gives_back(input, spec_u32_to_le_bytes(value), rest);
}

/// A written eight-byte number reads back.
pub proof fn large_gives_back(input: Input, value: u64, rest: Seq<u8>)
    requires
        input.rest == spec_u64_to_le_bytes(value) + rest,
    ensures
        large(input) == Ok::<(u64, Input), ReadFault>((value, behind(input, 8))),
        behind(input, 8).rest == rest,
{
    lemma_auto_spec_u64_to_from_le_bytes();
    exact_gives_back(input, spec_u64_to_le_bytes(value), rest);
}

/// Reads encoded values from a byte source.
pub struct Reader<R: ByteSource> {
    source: R,
}

impl<R: ByteSource> Reader<R> {
    /// What the reader has yet to give.
    pub closed spec fn input(&self) -> Input {
        input_of(self.source)
    }

    /// Starts to read a source.
    pub fn new(source: R) -> (result: Self)
        ensures
            result.input() == input_of(source),
    {
        Reader { source }
    }

    /// Reads a number of bytes.
    pub fn read_exact(&mut self, count: usize) -> (result: Result<Vec<u8>, ReadFault>)
        ensures
            match (result, exact(old(self).input(), count as nat)) {
                (Ok(bytes), Ok((expected, after))) => bytes@ == expected && final(self).input()
                    == after,
                (Err(fault), Err(expected)) => fault == expected,
                _ => false,
            },
    {
        let mut bytes: Vec<u8> = Vec::new();
        proof {
            let left = self.source.pending().len();
            assert(bytes@ =~= self.input().rest.take(0));
            assert(self.input().rest.skip(0) =~= self.input().rest);
            source::remaining_twice(self.source.interruptions(), left, left);
        }
        while bytes.len() < count
            invariant
                bytes@.len() <= count,
                bytes@.len() <= old(self).input().rest.len(),
                bytes@ == old(self).input().rest.take(bytes@.len() as int),
                self.input() == behind(old(self).input(), bytes@.len()),
            decreases count - bytes.len(),
        {
            let missing: usize = count - bytes.len();
            let size: usize = if missing < 8192 { missing } else { 8192 };
            let mut piece: Vec<u8> = vec![0; size];
            let ghost before = bytes@;
            let ghost start = self.input();
            let ghost unread = self.source;
            match read_some(&mut self.source, &mut piece) {
                Err(error) => {
                    return Err(ReadFault::Failed(error));
                },
                Ok(read) => {
                    if read == 0 {
                        return Err(ReadFault::Truncated);
                    }
                    append(&mut bytes, &piece, read);
                    proof {
                        let all = old(self).input().rest;
                        assert(start.rest =~= all.skip(before.len() as int));
                        assert(start.rest.take(read as int) =~= all.subrange(
                            before.len() as int,
                            before.len() + read,
                        ));
                        assert(bytes@ =~= all.take(before.len() + read));
                        let left = self.source.pending().len();
                        source::remaining_twice(
                            unread.interruptions(),
                            unread.pending().len(),
                            left,
                        );
                        source::remaining_twice(unread.interruptions(), left, left);
                        assert(self.input() == behind(start, read as nat));
                        behind_twice(old(self).input(), before.len(), read as nat);
                    }
                },
            }
        }
        Ok(bytes)
    }

    /// Reads a four-byte number.
    pub fn read_u32(&mut self) -> (result: Result<u32, ReadFault>)
        ensures
            match (result, small(old(self).input())) {
                (Ok(value), Ok((expected, after))) => value == expected && final(self).input()
                    == after,
                (Err(fault), Err(expected)) => fault == expected,
                _ => false,
            },
    {
        match self.read_exact(4) {
            Err(fault) => Err(fault),
            Ok(bytes) => Ok(u32_from_le_bytes(bytes.as_slice())),
        }
    }

    /// Reads an eight-byte number.
    pub fn read_u64(&mut self) -> (result: Result<u64, ReadFault>)
        ensures
            match (result, large(old(self).input())) {
                (Ok(value), Ok((expected, after))) => value == expected && final(self).input()
                    == after,
                (Err(fault), Err(expected)) => fault == expected,
                _ => false,
            },
    {
        match self.read_exact(8) {
            Err(fault) => Err(fault),
            Ok(bytes) => Ok(u64_from_le_bytes(bytes.as_slice())),
        }
    }

    /// Tells whether the input ends here. An interrupted read is reported.
    pub fn at_end(&mut self) -> (result: Result<bool, SourceError>)
        ensures
            result == ended(old(self).input()),
            result matches Ok(true) ==> final(self).input() == old(self).input(),
    {
        let mut piece: Vec<u8> = vec![0; 1];
        proof {
            source::remaining_all(self.source.interruptions(), self.source.pending().len());
        }
        match self.source.read(&mut piece) {
            Err(error) => Err(error),
            Ok(read) => {
                assert(read == 0 ==> self.input().rest =~= old(self).input().rest);
                Ok(read == 0)
            },
        }
    }
}

/// Appends the front of a piece.
fn append(bytes: &mut Vec<u8>, piece: &Vec<u8>, count: usize)
    requires
        count <= piece@.len(),
    ensures
        final(bytes)@ == old(bytes)@ + piece@.take(count as int),
{
    let mut index: usize = 0;
    assert(bytes@ =~= old(bytes)@ + piece@.take(0));
    while index < count
        invariant
            index <= count <= piece@.len(),
            bytes@ == old(bytes)@ + piece@.take(index as int),
        decreases count - index,
    {
        bytes.push(piece[index]);
        index += 1;
        assert(bytes@ =~= old(bytes)@ + piece@.take(index as int));
    }
}

/// Appends bytes.
pub fn put_bytes(out: &mut Vec<u8>, bytes: &[u8])
    ensures
        final(out)@ == old(out)@ + bytes@,
{
    let mut index: usize = 0;
    assert(out@ =~= old(out)@ + bytes@.take(0));
    while index < bytes.len()
        invariant
            index <= bytes@.len(),
            out@ == old(out)@ + bytes@.take(index as int),
        decreases bytes.len() - index,
    {
        out.push(bytes[index]);
        index += 1;
        assert(out@ =~= old(out)@ + bytes@.take(index as int));
    }
    assert(bytes@.take(bytes@.len() as int) =~= bytes@);
}

/// Appends a four-byte number.
pub fn put_u32(out: &mut Vec<u8>, value: u32)
    ensures
        final(out)@ == old(out)@ + spec_u32_to_le_bytes(value),
{
    let bytes = u32_to_le_bytes(value);
    put_bytes(out, bytes.as_slice());
}

/// Appends an eight-byte number.
pub fn put_u64(out: &mut Vec<u8>, value: u64)
    ensures
        final(out)@ == old(out)@ + spec_u64_to_le_bytes(value),
{
    let bytes = u64_to_le_bytes(value);
    put_bytes(out, bytes.as_slice());
}

/// Appends a text, unless its length does not fit its field.
pub fn put_text(out: &mut Vec<u8>, text: &str) -> (result: Result<(), usize>)
    ensures
        match result {
            Ok(()) => text_fits(text@) && final(out)@ == old(out)@ + text_bytes(text@),
            Err(length) => !text_fits(text@) && length == vstd::utf8::encode_utf8(text@).len()
                && final(out)@ == old(out)@,
        },
{
    let bytes = text.as_bytes();
    if bytes.len() > u32::MAX as usize {
        return Err(bytes.len());
    }
    put_u32(out, bytes.len() as u32);
    put_bytes(out, bytes);
    assert(out@ =~= old(out)@ + text_bytes(text@));
    Ok(())
}

} // verus!

//! Byte sources that the parsers and decoders read from.

use vstd::prelude::*;

verus! {

/// The reasons for which a read can fail.
#[derive(Clone, Copy, Debug, PartialEq, Eq, Structural)]
pub enum FailureKind {
    /// The data is malformed.
    InvalidData,
    /// The data ends too early.
    UnexpectedEof,
    /// The file does not exist.
    NotFound,
    /// Access was refused.
    PermissionDenied,
    /// The other end of a pipe went away.
    BrokenPipe,
    /// A signal interrupted the read, which can be repeated.
    Interrupted,
    /// Any other reason.
    Other,
}

/// A failure of the source itself, passed through unchanged.
#[derive(Debug)]
pub struct SourceError {
    /// Why the read failed.
    pub kind: FailureKind,
    /// The reader's own description.
    pub message: String,
}

impl Clone for SourceError {
    fn clone(&self) -> (result: Self)
        ensures
            result == *self,
    {
        SourceError { kind: self.kind, message: self.message.clone() }
    }
}

/// A sequence of bytes that arrives in pieces and then ends or fails.
pub trait ByteSource: Sized {
    /// The bytes that reads have yet to deliver.
    spec fn pending(&self) -> Seq<u8>;

    /// The failure that follows the last byte, or `None` for an ordinary end.
    spec fn failure(&self) -> Option<SourceError>;

    /// The interruptions still to come, in order: the number of bytes that are pending when a read
    /// is interrupted, and the error of that read.
    spec fn interruptions(&self) -> Seq<(nat, SourceError)>;

    /// Delivers some of the pending bytes into the front of the buffer.
    ///
    /// A count of zero into a non-empty buffer means the end of the input. An interrupted read
    /// delivers nothing and can be repeated. No read goes past the place of an interruption.
    fn read(&mut self, buffer: &mut [u8]) -> (result: Result<usize, SourceError>)
        ensures
            final(buffer)@.len() == old(buffer)@.len(),
            final(self).failure() == old(self).failure(),
            match result {
                Ok(count) => {
                    &&& count <= old(buffer)@.len()
                    &&& count <= old(self).pending().len()
                    &&& old(buffer)@.len() > 0 ==> !interrupts(
                        old(self).interruptions(),
                        old(self).pending().len(),
                    )
                    &&& count == 0 && old(buffer)@.len() > 0 ==> old(self).pending().len() == 0
                        && old(self).failure() is None
                    &&& final(buffer)@.take(count as int) == old(self).pending().take(count as int)
                    &&& final(self).pending() == old(self).pending().skip(count as int)
                    &&& final(self).interruptions() == old(self).interruptions()
                    &&& final(self).interruptions().len() > 0 ==> final(self).interruptions()[0].0
                        <= final(self).pending().len()
                },
                Err(error) => {
                    &&& final(self).pending() == old(self).pending()
                    &&& if interrupts(old(self).interruptions(), old(self).pending().len()) {
                        &&& error.kind == FailureKind::Interrupted
                        &&& error == old(self).interruptions()[0].1
                        &&& final(self).interruptions() == old(self).interruptions().skip(1)
                    } else {
                        &&& error.kind != FailureKind::Interrupted
                        &&& old(self).pending().len() == 0
                        &&& old(self).failure() == Some(error)
                        &&& final(self).interruptions() == old(self).interruptions()
                        &&& old(self).interruptions().len() > 0 ==> old(self).interruptions()[0].0
                            <= old(self).pending().len()
                    }
                },
            },
    ;
}

/// The first interruption comes while so many bytes are pending.
pub open spec fn interrupts(interruptions: Seq<(nat, SourceError)>, left: nat) -> bool {
    interruptions.len() > 0 && interruptions[0].0 == left
}

/// The bytes that come before the next interruption.
pub open spec fn ready<R: ByteSource>(source: R) -> Seq<u8> {
    if source.interruptions().len() > 0 && source.interruptions()[0].0 <= source.pending().len() {
        source.pending().take(source.pending().len() - source.interruptions()[0].0)
    } else {
        source.pending()
    }
}

/// What follows the bytes before the next interruption.
pub open spec fn stop<R: ByteSource>(source: R) -> Option<SourceError> {
    if source.interruptions().len() > 0 && source.interruptions()[0].0 <= source.pending().len() {
        Some(source.interruptions()[0].1)
    } else {
        source.failure()
    }
}

/// The interruptions that are left once no more than so many bytes are pending.
#[verifier::opaque]
pub open spec fn remaining(interruptions: Seq<(nat, SourceError)>, left: nat) -> Seq<
    (nat, SourceError),
>
    decreases interruptions.len(),
{
    if interruptions.len() > 0 && interruptions[0].0 > left {
        remaining(interruptions.skip(1), left)
    } else {
        interruptions
    }
}

/// An interruption that has yet to come is left.
pub proof fn remaining_all(interruptions: Seq<(nat, SourceError)>, left: nat)
    ensures
        interruptions.len() == 0 || interruptions[0].0 <= left ==> remaining(interruptions, left)
            == interruptions,
{
    reveal(remaining);
}

/// What is left of the interruptions at one place can be found in two steps.
pub proof fn remaining_twice(interruptions: Seq<(nat, SourceError)>, first: nat, second: nat)
    requires
        second <= first,
    ensures
        remaining(remaining(interruptions, first), second) == remaining(interruptions, second),
    decreases interruptions.len(),
{
    reveal(remaining);
    if interruptions.len() > 0 && interruptions[0].0 > first {
        remaining_twice(interruptions.skip(1), first, second);
    }
}

/// Reads once, repeating interrupted reads.
pub fn read_some<R: ByteSource>(source: &mut R, buffer: &mut [u8]) -> (result: Result<
    usize,
    SourceError,
>)
    ensures
        final(buffer)@.len() == old(buffer)@.len(),
        final(source).failure() == old(source).failure(),
        match result {
            Ok(count) => {
                &&& count <= old(buffer)@.len()
                &&& count <= old(source).pending().len()
                &&& count == 0 && old(buffer)@.len() > 0 ==> old(source).pending().len() == 0
                    && old(source).failure() is None
                &&& final(buffer)@.take(count as int) == old(source).pending().take(count as int)
                &&& final(source).pending() == old(source).pending().skip(count as int)
                &&& count > 0 ==> final(source).interruptions() == remaining(
                    old(source).interruptions(),
                    final(source).pending().len(),
                )
            },
            Err(error) => {
                &&& final(source).pending() == old(source).pending()
                &&& old(source).pending().len() == 0
                &&& old(source).failure() == Some(error)
                &&& error.kind != FailureKind::Interrupted
            },
        },
{
    loop
        invariant
            buffer@.len() == old(buffer)@.len(),
            source.failure() == old(source).failure(),
            source.pending() == old(source).pending(),
            forall|left: nat|
                left < source.pending().len() ==> #[trigger] remaining(source.interruptions(), left)
                    == remaining(old(source).interruptions(), left),
        decreases source.interruptions().len(),
    {
        let ghost before = source.interruptions();
        match source.read(buffer) {
            Ok(count) => {
                proof {
                    let left = source.pending().len();
                    if count > 0 {
                        assert(remaining(before, left) == remaining(
                            old(source).interruptions(),
                            left,
                        ));
                    }
                    remaining_all(before, left);
                }
                return Ok(count);
            },
            Err(error) => {
                if error.kind != FailureKind::Interrupted {
                    return Err(error);
                }
                assert forall|left: nat| left < source.pending().len() implies #[trigger] remaining(
                    source.interruptions(),
                    left,
                ) == remaining(old(source).interruptions(), left) by {
                    reveal(remaining);
                    assert(remaining(before, left) == remaining(before.skip(1), left));
                }
            },
        }
    }
}

/// Restricts reads from memory to a positive byte limit.
pub struct ShortReader<'a> {
    input: &'a [u8],
    position: usize,
    max_read: usize,
    failure: Option<SourceError>,
    interruptions: Vec<(usize, SourceError)>,
    passed: usize,
}

/// The mathematical interruptions of a list.
pub open spec fn interruption_views(list: Seq<(usize, SourceError)>) -> Seq<(nat, SourceError)> {
    list.map_values(|interruption: (usize, SourceError)| (interruption.0 as nat, interruption.1))
}

/// Interruptions come in the order of a reading of so many bytes.
pub open spec fn in_order(list: Seq<(usize, SourceError)>, left: nat) -> bool {
    &&& forall|i: int|
        0 <= i < list.len() ==> (#[trigger] list[i]).0 <= left && list[i].1.kind
            == FailureKind::Interrupted
    &&& forall|i: int, j: int|
        0 <= i < j < list.len() ==> (#[trigger] list[j]).0 <= (#[trigger] list[i]).0
}

impl<'a> ShortReader<'a> {
    #[verifier::type_invariant]
    spec fn valid(self) -> bool {
        &&& self.max_read > 0
        &&& self.position <= self.input@.len()
        &&& self.failure matches Some(error) ==> error.kind != FailureKind::Interrupted
        &&& self.passed <= self.interruptions@.len()
        &&& in_order(
            self.interruptions@.skip(self.passed as int),
            (self.input@.len() - self.position) as nat,
        )
    }

    /// Reads the whole input and then ends.
    ///
    /// The limit is positive so that remaining input cannot look like the end.
    pub fn new(input: &'a [u8], max_read: usize) -> (result: Self)
        requires
            max_read > 0,
        ensures
            result.pending() == input@,
            result.failure() is None,
            result.interruptions() == Seq::<(nat, SourceError)>::empty(),
    {
        ShortReader::with(input, max_read, None, Vec::new())
    }

    /// Reads the whole input and then fails.
    pub fn failing(input: &'a [u8], max_read: usize, failure: SourceError) -> (result: Self)
        requires
            max_read > 0,
            failure.kind != FailureKind::Interrupted,
        ensures
            result.pending() == input@,
            result.failure() == Some(failure),
            result.interruptions() == Seq::<(nat, SourceError)>::empty(),
    {
        ShortReader::with(input, max_read, Some(failure), Vec::new())
    }

    /// Reads the whole input with interruptions: the number of bytes that are left, and the error.
    pub fn interrupted(
        input: &'a [u8],
        max_read: usize,
        interruptions: Vec<(usize, SourceError)>,
    ) -> (result: Self)
        requires
            max_read > 0,
            in_order(interruptions@, input@.len()),
        ensures
            result.pending() == input@,
            result.failure() is None,
            result.interruptions() == interruption_views(interruptions@),
    {
        ShortReader::with(input, max_read, None, interruptions)
    }

    fn with(
        input: &'a [u8],
        max_read: usize,
        failure: Option<SourceError>,
        interruptions: Vec<(usize, SourceError)>,
    ) -> (result: Self)
        requires
            max_read > 0,
            failure matches Some(error) ==> error.kind != FailureKind::Interrupted,
            in_order(interruptions@, input@.len()),
        ensures
            result.pending() == input@,
            result.failure() == failure,
            result.interruptions() == interruption_views(interruptions@),
    {
        assert(interruptions@.skip(0) =~= interruptions@);
        let result = ShortReader {
            input,
            position: 0,
            max_read,
            failure,
            interruptions,
            passed: 0,
        };
        assert(result.pending() =~= input@);
        assert(result.interruptions() =~= interruption_views(interruptions@));
        result
    }
}

impl<'a> ByteSource for ShortReader<'a> {
    closed spec fn pending(&self) -> Seq<u8> {
        self.input@.skip(self.position as int)
    }

    closed spec fn failure(&self) -> Option<SourceError> {
        self.failure
    }

    closed spec fn interruptions(&self) -> Seq<(nat, SourceError)> {
        interruption_views(self.interruptions@.skip(self.passed as int))
    }

    fn read(&mut self, buffer: &mut [u8]) -> (result: Result<usize, SourceError>) {
        proof {
            use_type_invariant(&*self);
        }
        let left: usize = self.input.len() - self.position;
        let mut stop: usize = 0;
        let ghost coming = self.interruptions@.skip(self.passed as int);
        if self.passed < self.interruptions.len() {
            assert(coming[0] == self.interruptions@[self.passed as int]);
            stop = self.interruptions[self.passed].0;
            if stop == left && buffer.len() > 0 {
                let error = self.interruptions[self.passed].1.clone();
                proof {
                    let later = self.interruptions@.skip(self.passed + 1);
                    assert(later =~= coming.skip(1));
                    assert(in_order(later, left as nat));
                    assert(interruption_views(later) =~= interruption_views(coming).skip(1));
                }
                self.passed = self.passed + 1;
                return Err(error);
            }
        }
        if left == 0 && buffer.len() > 0 {
            if let Some(error) = &self.failure {
                return Err(error.clone());
            }
        }
        let ready: usize = left - stop;
        let mut count: usize = if ready < self.max_read { ready } else { self.max_read };
        if buffer.len() < count {
            count = buffer.len();
        }
        let ghost start = self.position as int;
        let mut index: usize = 0;
        while index < count
            invariant
                index <= count,
                count <= buffer@.len(),
                buffer@.len() == old(buffer)@.len(),
                start + count <= self.input.len(),
                start == self.position,
                forall|i: int| 0 <= i < index ==> buffer@[i] == self.input@[start + i],
            decreases count - index,
        {
            buffer[index] = self.input[self.position + index];
            index += 1;
        }
        assert(buffer@.take(count as int) =~= self.input@.skip(start).take(count as int));
        assert(in_order(coming, (left - count) as nat)) by {
            assert forall|i: int| 0 <= i < coming.len() implies (#[trigger] coming[i]).0 <= left
                - count && coming[i].1.kind == FailureKind::Interrupted by {
                if i > 0 {
                    assert(coming[i].0 <= coming[0].0);
                }
            }
        }
        self.position += count;
        assert(self.input@.skip(start).skip(count as int) =~= self.input@.skip(start + count));
        Ok(count)
    }
}

/// Gives bytes that were read before, and then what ended that reading.
pub struct LoadedReader {
    input: Vec<u8>,
    position: usize,
    failure: Option<SourceError>,
}

impl LoadedReader {
    #[verifier::type_invariant]
    spec fn valid(self) -> bool {
        &&& self.position <= self.input@.len()
        &&& self.failure matches Some(error) ==> error.kind != FailureKind::Interrupted
    }

    /// Reads the whole input, and then ends or fails.
    pub fn new(input: Vec<u8>, failure: Option<SourceError>) -> (result: Self)
        requires
            failure matches Some(error) ==> error.kind != FailureKind::Interrupted,
        ensures
            result.pending() == input@,
            result.failure() == failure,
            result.interruptions() == Seq::<(nat, SourceError)>::empty(),
    {
        let result = LoadedReader { input, position: 0, failure };
        assert(result.pending() =~= input@);
        result
    }
}

impl ByteSource for LoadedReader {
    closed spec fn pending(&self) -> Seq<u8> {
        self.input@.skip(self.position as int)
    }

    closed spec fn failure(&self) -> Option<SourceError> {
        self.failure
    }

    closed spec fn interruptions(&self) -> Seq<(nat, SourceError)> {
        Seq::empty()
    }

    fn read(&mut self, buffer: &mut [u8]) -> (result: Result<usize, SourceError>) {
        proof {
            use_type_invariant(&*self);
        }
        let left: usize = self.input.len() - self.position;
        if left == 0 && buffer.len() > 0 {
            if let Some(error) = &self.failure {
                return Err(error.clone());
            }
        }
        let count: usize = if buffer.len() < left { buffer.len() } else { left };
        let ghost start = self.position as int;
        let mut index: usize = 0;
        while index < count
            invariant
                index <= count,
                count <= buffer@.len(),
                buffer@.len() == old(buffer)@.len(),
                start + count <= self.input.len(),
                start == self.position,
                forall|i: int| 0 <= i < index ==> buffer@[i] == self.input@[start + i],
            decreases count - index,
        {
            buffer[index] = self.input[self.position + index];
            index += 1;
        }
        assert(buffer@.take(count as int) =~= self.input@.skip(start).take(count as int));
        self.position += count;
        assert(self.input@.skip(start).skip(count as int) =~= self.input@.skip(start + count));
        Ok(count)
    }
}

/// Ends another source after a number of bytes. Interrupted reads are repeated.
pub struct Limited<R: ByteSource> {
    source: R,
    left: u64,
}

impl<R: ByteSource> Limited<R> {
    /// Reads at most a number of bytes.
    pub fn new(source: R, limit: u64) -> (result: Self)
        ensures
            result.interruptions() == Seq::<(nat, SourceError)>::empty(),
            result.pending() == limited(source.pending(), limit),
            result.failure() == (if source.pending().len() >= limit {
                None
            } else {
                source.failure()
            }),
    {
        Limited { source, left: limit }
    }
}

/// The front of some bytes, up to a number of them.
pub open spec fn limited(bytes: Seq<u8>, limit: u64) -> Seq<u8> {
    if bytes.len() >= limit {
        bytes.take(limit as int)
    } else {
        bytes
    }
}

impl<R: ByteSource> ByteSource for Limited<R> {
    closed spec fn pending(&self) -> Seq<u8> {
        limited(self.source.pending(), self.left)
    }

    closed spec fn failure(&self) -> Option<SourceError> {
        if self.source.pending().len() >= self.left {
            None
        } else {
            self.source.failure()
        }
    }

    closed spec fn interruptions(&self) -> Seq<(nat, SourceError)> {
        Seq::empty()
    }

    fn read(&mut self, buffer: &mut [u8]) -> (result: Result<usize, SourceError>) {
        let ghost before = self.source.pending();
        let ghost left = self.left as int;
        let size: usize = if self.left < buffer.len() as u64 {
            self.left as usize
        } else {
            buffer.len()
        };
        if size == 0 {
            assert(self.pending() =~= self.pending().skip(0));
            assert(buffer@.take(0) =~= self.pending().take(0));
            return Ok(0);
        }
        let (front, _) = buffer.split_at_mut(size);
        match read_some(&mut self.source, front) {
            Err(error) => Err(error),
            Ok(count) => {
                self.left = self.left - count as u64;
                proof {
                    assert(limited(before.skip(count as int), (left - count) as u64) =~= limited(
                        before,
                        left as u64,
                    ).skip(count as int));
                    assert(limited(before, left as u64).take(count as int) =~= before.take(
                        count as int,
                    ));
                }
                Ok(count)
            },
        }
    }
}

} // verus!

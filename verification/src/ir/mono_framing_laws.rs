//! What holds of the framing of every identity manifest: it ends exactly where its end record ends.

use super::mono;
use super::mono::{Field, InstanceData};
use crate::wire;
use crate::wire::Input;
use vstd::prelude::*;

verus! {

/// An input without interruptions that ends ordinarily.
pub open spec fn stream(rest: Seq<u8>) -> Input {
    Input { rest, ending: None, interruptions: Seq::empty() }
}

/// An input with more bytes behind it.
pub open spec fn longer(part: Input, tail: Seq<u8>) -> Input {
    stream(part.rest + tail)
}

/// What a step gives on a stream and on the same stream with more bytes behind it: the same value
/// and equally many bytes taken, or too few bytes on the shorter one.
pub open spec fn alike<T>(whole: mono::Step<T>, part: mono::Step<T>, tail: Seq<u8>) -> bool {
    match (whole, part) {
        (Ok((value, after)), Ok((got, rest))) => {
            &&& got == value
            &&& rest == stream(rest.rest)
            &&& after == longer(rest, tail)
        },
        (Ok(_), Err(fault)) => fault is Truncated,
        (Err(_), Ok(_)) => false,
        (Err(_), Err(_)) => true,
    }
}

proof fn exact_alike(part: Input, tail: Seq<u8>, count: nat, field: Field)
    requires
        part == stream(part.rest),
    ensures
        alike(mono::exact(longer(part, tail), count, field), mono::exact(part, count, field), tail),
{
    if count <= part.rest.len() {
        assert((part.rest + tail).take(count as int) =~= part.rest.take(count as int));
        assert((part.rest + tail).skip(count as int) =~= part.rest.skip(count as int) + tail);
        wire::behind_uninterrupted(part, count);
        wire::behind_uninterrupted(stream(part.rest + tail), count);
    }
}

proof fn number_alike(part: Input, tail: Seq<u8>, field: Field)
    requires
        part == stream(part.rest),
    ensures
        alike(mono::number(longer(part, tail), field), mono::number(part, field), tail),
{
    exact_alike(part, tail, 4, field);
}

proof fn long_alike(part: Input, tail: Seq<u8>, field: Field)
    requires
        part == stream(part.rest),
    ensures
        alike(mono::long(longer(part, tail), field), mono::long(part, field), tail),
{
    exact_alike(part, tail, 8, field);
}

proof fn length_alike(part: Input, tail: Seq<u8>, field: Field, maximum: u32)
    requires
        part == stream(part.rest),
    ensures
        alike(
            mono::length(longer(part, tail), field, maximum),
            mono::length(part, field, maximum),
            tail,
        ),
{
    number_alike(part, tail, field);
}

proof fn text_alike(part: Input, tail: Seq<u8>, field: Field)
    requires
        part == stream(part.rest),
    ensures
        alike(mono::text(longer(part, tail), field), mono::text(part, field), tail),
{
    length_alike(part, tail, field, mono::MAX_STRING_BYTES);
    if let Ok((count, after)) = mono::length(part, field, mono::MAX_STRING_BYTES) {
        exact_alike(after, tail, count as nat, field);
    }
}

proof fn flag_alike(part: Input, tail: Seq<u8>, field: Field)
    requires
        part == stream(part.rest),
    ensures
        alike(mono::flag(longer(part, tail), field), mono::flag(part, field), tail),
{
    number_alike(part, tail, field);
}

proof fn size_alike(part: Input, tail: Seq<u8>, field: Field)
    requires
        part == stream(part.rest),
    ensures
        alike(mono::size(longer(part, tail), field), mono::size(part, field), tail),
{
    long_alike(part, tail, field);
}

proof fn header_alike(part: Input, tail: Seq<u8>, commit: Seq<char>)
    requires
        part == stream(part.rest),
    ensures
        alike(mono::header(longer(part, tail), commit), mono::header(part, commit), tail),
{
    exact_alike(part, tail, 16, Field::ManifestHeader);
    if let Ok((_, i1)) = mono::exact(part, 16, Field::ManifestHeader) {
        number_alike(i1, tail, Field::ProtocolVersion);
        if let Ok((_, i2)) = mono::number(i1, Field::ProtocolVersion) {
            text_alike(i2, tail, Field::RustcCommit);
        }
    }
}

proof fn arguments_alike(part: Input, tail: Seq<u8>, count: nat, read: Seq<Seq<char>>)
    requires
        part == stream(part.rest),
    ensures
        alike(
            mono::arguments(longer(part, tail), count, read),
            mono::arguments(part, count, read),
            tail,
        ),
    decreases count,
{
    if count > 0 {
        text_alike(part, tail, Field::RustcArgument);
        if let Ok((argument, after)) = mono::text(part, Field::RustcArgument) {
            arguments_alike(after, tail, (count - 1) as nat, read.push(argument));
        }
    }
}

proof fn preamble_alike(part: Input, tail: Seq<u8>, commit: Seq<char>)
    requires
        part == stream(part.rest),
    ensures
        alike(mono::preamble(longer(part, tail), commit), mono::preamble(part, commit), tail),
{
    header_alike(part, tail, commit);
    if let Ok((_, i1)) = mono::header(part, commit) {
        length_alike(i1, tail, Field::ArgumentCount, mono::MAX_ARGUMENTS);
        if let Ok((count, i2)) = mono::length(i1, Field::ArgumentCount, mono::MAX_ARGUMENTS) {
            arguments_alike(i2, tail, count as nat, Seq::empty());
        }
    }
}

proof fn positions_alike(
    part: Input,
    tail: Seq<u8>,
    file_name: Seq<char>,
    byte_start: u64,
    byte_end: u64,
)
    requires
        part == stream(part.rest),
    ensures
        alike(
            mono::positions(longer(part, tail), file_name, byte_start, byte_end),
            mono::positions(part, file_name, byte_start, byte_end),
            tail,
        ),
{
    size_alike(part, tail, Field::LineStart);
    if let Ok((_, i1)) = mono::size(part, Field::LineStart) {
        size_alike(i1, tail, Field::ColumnStart);
        if let Ok((_, i2)) = mono::size(i1, Field::ColumnStart) {
            size_alike(i2, tail, Field::LineEnd);
            if let Ok((_, i3)) = mono::size(i2, Field::LineEnd) {
                size_alike(i3, tail, Field::ColumnEnd);
            }
        }
    }
}

proof fn span_alike(part: Input, tail: Seq<u8>)
    requires
        part == stream(part.rest),
    ensures
        alike(mono::span(longer(part, tail)), mono::span(part), tail),
{
    flag_alike(part, tail, Field::SpanPresence);
    if let Ok((_, i0)) = mono::flag(part, Field::SpanPresence) {
        text_alike(i0, tail, Field::SourceFileName);
        if let Ok((file_name, i1)) = mono::text(i0, Field::SourceFileName) {
            long_alike(i1, tail, Field::ByteStart);
            if let Ok((byte_start, i2)) = mono::long(i1, Field::ByteStart) {
                long_alike(i2, tail, Field::ByteEnd);
                if let Ok((byte_end, i3)) = mono::long(i2, Field::ByteEnd) {
                    positions_alike(i3, tail, file_name, byte_start, byte_end);
                }
            }
        }
    }
}

proof fn identity_alike(part: Input, tail: Seq<u8>)
    requires
        part == stream(part.rest),
    ensures
        alike(mono::identity(longer(part, tail)), mono::identity(part), tail),
{
    text_alike(part, tail, Field::DefinitionCrate);
    if let Ok((_, i1)) = mono::text(part, Field::DefinitionCrate) {
        text_alike(i1, tail, Field::DefinitionPath);
        if let Ok((_, i2)) = mono::text(i1, Field::DefinitionPath) {
            span_alike(i2, tail);
            if let Ok((_, i3)) = mono::span(i2) {
                text_alike(i3, tail, Field::DisplayName);
                if let Ok((_, i4)) = mono::text(i3, Field::DisplayName) {
                    text_alike(i4, tail, Field::RawSymbol);
                }
            }
        }
    }
}

proof fn place_alike(part: Input, tail: Seq<u8>)
    requires
        part == stream(part.rest),
    ensures
        alike(mono::place(longer(part, tail)), mono::place(part), tail),
{
    text_alike(part, tail, Field::CodegenUnit);
    if let Ok((_, i1)) = mono::text(part, Field::CodegenUnit) {
        text_alike(i1, tail, Field::Linkage);
        if let Ok((_, i2)) = mono::text(i1, Field::Linkage) {
            text_alike(i2, tail, Field::Visibility);
            if let Ok((_, i3)) = mono::text(i2, Field::Visibility) {
                flag_alike(i3, tail, Field::LocalCopy);
                if let Ok((_, i4)) = mono::flag(i3, Field::LocalCopy) {
                    size_alike(i4, tail, Field::SizeEstimate);
                }
            }
        }
    }
}

proof fn placement_alike(part: Input, tail: Seq<u8>)
    requires
        part == stream(part.rest),
    ensures
        alike(mono::placement(longer(part, tail)), mono::placement(part), tail),
{
    identity_alike(part, tail);
    if let Ok((_, i1)) = mono::identity(part) {
        place_alike(i1, tail);
    }
}

proof fn records_end_once(part: Input, tail: Seq<u8>, count: usize)
    requires
        part == stream(part.rest),
        tail.len() > 0,
    ensures
        match mono::record(part, count) {
            Ok((None, _)) => mono::record(longer(part, tail), count) is Err && mono::record(
                longer(part, tail),
                count,
            )->Err_0 is TrailingBytes,
            Ok((Some(record), rest)) => rest == stream(rest.rest) && mono::record(
                longer(part, tail),
                count,
            ) == Ok::<(Option<mono::RecordData>, Input), mono::SpecFault>(
                (Some(record), longer(rest, tail)),
            ),
            Err(fault) => mono::record(longer(part, tail), count) is Ok ==> fault is Truncated,
        },
{
    number_alike(part, tail, Field::RecordKind);
    if let Ok((_, after)) = mono::number(part, Field::RecordKind) {
        placement_alike(after, tail);
    }
}

proof fn instances_end_once(
    part: Input,
    tail: Seq<u8>,
    count: usize,
    instances: Seq<InstanceData>,
)
    requires
        part == stream(part.rest),
        tail.len() > 0,
    ensures
        mono::instances_from(longer(part, tail), count, instances) is Ok ==> {
            &&& mono::instances_from(part, count, instances) is Err
            &&& mono::instances_from(part, count, instances)->Err_0 is Truncated
        },
        mono::instances_from(part, count, instances) is Ok ==> {
            &&& mono::instances_from(longer(part, tail), count, instances) is Err
            &&& mono::instances_from(longer(part, tail), count, instances)->Err_0 is TrailingBytes
        },
    decreases part.rest.len(),
{
    records_end_once(part, tail, count);
    if let Ok((Some(record), after)) = mono::record(part, count) {
        mono::record_shortens(part, count);
        if let Ok(more) = mono::with_record(instances, record) {
            instances_end_once(after, tail, (count + 1) as usize, more);
        }
    }
}

/// A manifest without regard to its length.
spec fn read_all(input: Input, commit: Seq<char>) -> Result<Seq<InstanceData>, mono::SpecFault> {
    match mono::preamble(input, commit) {
        Err(fault) => Err(fault),
        Ok((_, after)) => mono::instances_from(after, 0, Seq::empty()),
    }
}

proof fn manifests_end_once(part: Input, tail: Seq<u8>, commit: Seq<char>)
    requires
        part == stream(part.rest),
        tail.len() > 0,
    ensures
        read_all(longer(part, tail), commit) is Ok ==> {
            &&& read_all(part, commit) is Err
            &&& read_all(part, commit)->Err_0 is Truncated
        },
        read_all(part, commit) is Ok ==> {
            &&& read_all(longer(part, tail), commit) is Err
            &&& read_all(longer(part, tail), commit)->Err_0 is TrailingBytes
        },
{
    preamble_alike(part, tail, commit);
    if let Ok((_, after)) = mono::preamble(part, commit) {
        instances_end_once(after, tail, 0, Seq::empty());
    }
}

/// Every shorter part of a valid identity manifest is refused as truncated.
pub proof fn strict_prefixes_are_truncated(
    bytes: Seq<u8>,
    count: int,
    commit: Seq<char>,
    maximum: u64,
)
    requires
        bytes.len() <= u64::MAX,
        mono::manifest(stream(bytes), bytes.len() as u64, commit, maximum) is Ok,
        0 <= count < bytes.len(),
    ensures
        mono::manifest(stream(bytes.take(count)), count as u64, commit, maximum) is Err,
        mono::manifest(stream(bytes.take(count)), count as u64, commit, maximum)->Err_0
            is Truncated,
{
    let part = stream(bytes.take(count));
    let tail = bytes.skip(count);
    assert(bytes.take(count) + tail =~= bytes);
    manifests_end_once(part, tail, commit);
}

/// Every extension of a valid identity manifest is refused for its trailing bytes, or for its length
/// if that is more than the maximum.
pub proof fn extensions_are_trailing(
    bytes: Seq<u8>,
    tail: Seq<u8>,
    commit: Seq<char>,
    maximum: u64,
)
    requires
        bytes.len() + tail.len() <= u64::MAX,
        mono::manifest(stream(bytes), bytes.len() as u64, commit, maximum) is Ok,
        tail.len() > 0,
    ensures
        ({
            let extended = mono::manifest(
                stream(bytes + tail),
                (bytes.len() + tail.len()) as u64,
                commit,
                maximum,
            );
            &&& extended is Err
            &&& if bytes.len() + tail.len() <= maximum {
                extended->Err_0 is TrailingBytes
            } else {
                extended->Err_0 is FileLength
            }
        }),
{
    let part = stream(bytes);
    manifests_end_once(part, tail, commit);
}

} // verus!

//! What the bytes of an identity manifest mean.

use super::mono;
use super::mono::{Fault, Field, IdentityData, PlaceData, RecordData, SpanData, SpecFault};
use super::mono_framing_laws;
use crate::wire;
use crate::wire::Input;
use vstd::bytes::*;
use vstd::prelude::*;

verus! {

/// A step that gives a value and leaves the rest.
pub open spec fn gives<T>(value: T, rest: Seq<u8>) -> mono::Step<T> {
    Ok((value, mono_framing_laws::stream(rest)))
}

/// The bytes of a flag.
pub open spec fn flag_bytes(value: bool) -> Seq<u8> {
    spec_u32_to_le_bytes(if value { 1u32 } else { 0u32 })
}

/// A text is short enough for an identity manifest, in which a text has one mebibyte at most.
pub open spec fn fits(text: Seq<char>) -> bool {
    vstd::utf8::encode_utf8(text).len() <= 1048576
}

proof fn number_gives(value: u32, field: Field, rest: Seq<u8>)
    ensures
        mono::number(mono_framing_laws::stream(spec_u32_to_le_bytes(value) + rest), field) == gives(
            value,
            rest,
        ),
{
    let input = mono_framing_laws::stream(spec_u32_to_le_bytes(value) + rest);
    wire::small_gives_back(input, value, rest);
    lemma_auto_spec_u32_to_from_le_bytes();
    wire::behind_uninterrupted(input, 4);
}

proof fn long_gives(value: u64, field: Field, rest: Seq<u8>)
    ensures
        mono::long(mono_framing_laws::stream(spec_u64_to_le_bytes(value) + rest), field) == gives(
            value,
            rest,
        ),
{
    let input = mono_framing_laws::stream(spec_u64_to_le_bytes(value) + rest);
    wire::large_gives_back(input, value, rest);
    lemma_auto_spec_u64_to_from_le_bytes();
    wire::behind_uninterrupted(input, 8);
}

proof fn size_gives(value: usize, field: Field, rest: Seq<u8>)
    ensures
        mono::size(
            mono_framing_laws::stream(spec_u64_to_le_bytes(value as u64) + rest),
            field,
        ) == gives(value, rest),
{
    long_gives(value as u64, field, rest);
}

proof fn flag_gives(value: bool, field: Field, rest: Seq<u8>)
    ensures
        mono::flag(mono_framing_laws::stream(flag_bytes(value) + rest), field) == gives(value, rest),
{
    number_gives(if value { 1u32 } else { 0u32 }, field, rest);
}

proof fn text_gives(value: Seq<char>, field: Field, rest: Seq<u8>)
    requires
        fits(value),
    ensures
        mono::text(mono_framing_laws::stream(wire::text_bytes(value) + rest), field) == gives(
            value,
            rest,
        ),
{
    let bytes = vstd::utf8::encode_utf8(value);
    let length = spec_u32_to_le_bytes(bytes.len() as u32);
    assert(wire::text_bytes(value) + rest =~= length + (bytes + rest));
    number_gives(bytes.len() as u32, field, bytes + rest);
    wire::exact_gives_back(mono_framing_laws::stream(bytes + rest), bytes, rest);
    wire::behind_uninterrupted(mono_framing_laws::stream(bytes + rest), bytes.len());
    vstd::utf8::encode_utf8_valid_utf8(value);
    vstd::utf8::encode_utf8_decode_utf8(value);
}

/// The bytes of an optional source span, in front of further bytes.
#[verifier::opaque]
pub open spec fn with_span(span: Option<SpanData>, rest: Seq<u8>) -> Seq<u8> {
    match span {
        None => flag_bytes(false) + rest,
        Some(span) => flag_bytes(true) + (wire::text_bytes(span.file_name) + (spec_u64_to_le_bytes(
            span.byte_start,
        ) + (spec_u64_to_le_bytes(span.byte_end) + (spec_u64_to_le_bytes(span.line_start as u64) + (
        spec_u64_to_le_bytes(span.column_start as u64) + (spec_u64_to_le_bytes(span.line_end as u64)
            + (spec_u64_to_le_bytes(span.column_end as u64) + rest))))))),
    }
}

/// The bytes of an identity, in front of further bytes: the crate and the path of the definition,
/// its span, the name of the instance and its symbol.
#[verifier::opaque]
pub open spec fn with_identity(identity: IdentityData, rest: Seq<u8>) -> Seq<u8> {
    wire::text_bytes(identity.origin.crate_name) + (wire::text_bytes(
        identity.origin.definition_path,
    ) + with_span(
        identity.origin.source,
        wire::text_bytes(identity.display_name) + (wire::text_bytes(identity.raw_symbol) + rest),
    ))
}

/// The bytes of a placement, in front of further bytes: the codegen unit, its linkage and
/// visibility, whether it is a local copy, and its size.
#[verifier::opaque]
pub open spec fn with_place(place: PlaceData, rest: Seq<u8>) -> Seq<u8> {
    wire::text_bytes(place.codegen_unit) + (wire::text_bytes(place.linkage) + (wire::text_bytes(
        place.visibility,
    ) + (flag_bytes(place.local_copy) + (spec_u64_to_le_bytes(place.size_estimate as u64)
        + rest))))
}

proof fn spans_are_read(span: Option<SpanData>, rest: Seq<u8>)
    requires
        span matches Some(span) ==> fits(span.file_name),
    ensures
        mono::span(mono_framing_laws::stream(with_span(span, rest))) == gives(span, rest),
{
    reveal(with_span);
    match span {
        None => {
            flag_gives(false, Field::SpanPresence, rest);
        },
        Some(span) => {
            let r6 = spec_u64_to_le_bytes(span.column_end as u64) + rest;
            let r5 = spec_u64_to_le_bytes(span.line_end as u64) + r6;
            let r4 = spec_u64_to_le_bytes(span.column_start as u64) + r5;
            let r3 = spec_u64_to_le_bytes(span.line_start as u64) + r4;
            let r2 = spec_u64_to_le_bytes(span.byte_end) + r3;
            let r1 = spec_u64_to_le_bytes(span.byte_start) + r2;
            let r0 = wire::text_bytes(span.file_name) + r1;
            flag_gives(true, Field::SpanPresence, r0);
            text_gives(span.file_name, Field::SourceFileName, r1);
            long_gives(span.byte_start, Field::ByteStart, r2);
            long_gives(span.byte_end, Field::ByteEnd, r3);
            size_gives(span.line_start, Field::LineStart, r4);
            size_gives(span.column_start, Field::ColumnStart, r5);
            size_gives(span.line_end, Field::LineEnd, r6);
            size_gives(span.column_end, Field::ColumnEnd, rest);
        },
    }
}

proof fn identities_are_read(identity: IdentityData, rest: Seq<u8>)
    requires
        fits(identity.origin.crate_name),
        fits(identity.origin.definition_path),
        fits(identity.display_name),
        fits(identity.raw_symbol),
        identity.origin.source matches Some(span) ==> fits(span.file_name),
    ensures
        mono::identity(mono_framing_laws::stream(with_identity(identity, rest))) == gives(
            identity,
            rest,
        ),
{
    reveal(with_identity);
    let r4 = wire::text_bytes(identity.raw_symbol) + rest;
    let r3 = wire::text_bytes(identity.display_name) + r4;
    let r2 = with_span(identity.origin.source, r3);
    let r1 = wire::text_bytes(identity.origin.definition_path) + r2;
    text_gives(identity.origin.crate_name, Field::DefinitionCrate, r1);
    text_gives(identity.origin.definition_path, Field::DefinitionPath, r2);
    spans_are_read(identity.origin.source, r3);
    text_gives(identity.display_name, Field::DisplayName, r4);
    text_gives(identity.raw_symbol, Field::RawSymbol, rest);
    identity_steps(
        mono_framing_laws::stream(with_identity(identity, rest)),
        mono_framing_laws::stream(r1),
        mono_framing_laws::stream(r2),
        mono_framing_laws::stream(r3),
        mono_framing_laws::stream(r4),
        mono_framing_laws::stream(rest),
        identity,
    );
}

proof fn identity_steps(
    i0: Input,
    i1: Input,
    i2: Input,
    i3: Input,
    i4: Input,
    i5: Input,
    identity: IdentityData,
)
    requires
        mono::text(i0, Field::DefinitionCrate) == Ok::<(Seq<char>, Input), mono::SpecFault>(
            (identity.origin.crate_name, i1),
        ),
        mono::text(i1, Field::DefinitionPath) == Ok::<(Seq<char>, Input), mono::SpecFault>(
            (identity.origin.definition_path, i2),
        ),
        mono::span(i2) == Ok::<(Option<SpanData>, Input), mono::SpecFault>(
            (identity.origin.source, i3),
        ),
        mono::text(i3, Field::DisplayName) == Ok::<(Seq<char>, Input), mono::SpecFault>(
            (identity.display_name, i4),
        ),
        mono::text(i4, Field::RawSymbol) == Ok::<(Seq<char>, Input), mono::SpecFault>(
            (identity.raw_symbol, i5),
        ),
    ensures
        mono::identity(i0) == Ok::<(IdentityData, Input), mono::SpecFault>((identity, i5)),
{
}

proof fn places_are_read(place: PlaceData, rest: Seq<u8>)
    requires
        fits(place.codegen_unit),
        fits(place.linkage),
        fits(place.visibility),
    ensures
        mono::place(mono_framing_laws::stream(with_place(place, rest))) == gives(place, rest),
{
    reveal(with_place);
    let r4 = spec_u64_to_le_bytes(place.size_estimate as u64) + rest;
    let r3 = flag_bytes(place.local_copy) + r4;
    let r2 = wire::text_bytes(place.visibility) + r3;
    let r1 = wire::text_bytes(place.linkage) + r2;
    text_gives(place.codegen_unit, Field::CodegenUnit, r1);
    text_gives(place.linkage, Field::Linkage, r2);
    text_gives(place.visibility, Field::Visibility, r3);
    flag_gives(place.local_copy, Field::LocalCopy, r4);
    size_gives(place.size_estimate, Field::SizeEstimate, rest);
}

/// A record whose kind is one holds one placement: the bytes of its identity and of its place, field
/// by field. No more than four million are read.
pub proof fn written_records_are_read(record: RecordData, count: usize, rest: Seq<u8>)
    requires
        count < 4000000,
        fits(record.identity.origin.crate_name),
        fits(record.identity.origin.definition_path),
        fits(record.identity.display_name),
        fits(record.identity.raw_symbol),
        record.identity.origin.source matches Some(span) ==> fits(span.file_name),
        fits(record.place.codegen_unit),
        fits(record.place.linkage),
        fits(record.place.visibility),
    ensures
        mono::record(
            mono_framing_laws::stream(
                spec_u32_to_le_bytes(1) + with_identity(
                    record.identity,
                    with_place(record.place, rest),
                ),
            ),
            count,
        ) == gives(Some(record), rest),
{
    let placed = with_place(record.place, rest);
    number_gives(1, Field::RecordKind, with_identity(record.identity, placed));
    identities_are_read(record.identity, placed);
    places_are_read(record.place, rest);
    record_steps(
        mono_framing_laws::stream(
            spec_u32_to_le_bytes(1) + with_identity(record.identity, placed),
        ),
        mono_framing_laws::stream(with_identity(record.identity, placed)),
        mono_framing_laws::stream(placed),
        mono_framing_laws::stream(rest),
        record,
        count,
    );
}

proof fn record_steps(
    i0: Input,
    i1: Input,
    i2: Input,
    i3: Input,
    record: RecordData,
    count: usize,
)
    requires
        count < 4000000,
        mono::number(i0, Field::RecordKind) == Ok::<(u32, Input), mono::SpecFault>((1u32, i1)),
        mono::identity(i1) == Ok::<(IdentityData, Input), mono::SpecFault>((record.identity, i2)),
        mono::place(i2) == Ok::<(PlaceData, Input), mono::SpecFault>((record.place, i3)),
    ensures
        mono::record(i0, count) == Ok::<(Option<RecordData>, Input), mono::SpecFault>(
            (Some(record), i3),
        ),
{
}

/// A record whose kind is zero ends the manifest, and nothing may follow it. Any other kind but one
/// is refused.
pub proof fn manifests_end_with_their_record(kind: u32, count: usize, rest: Seq<u8>)
    requires
        kind != 1,
    ensures
        ({
            let read = mono::record(
                mono_framing_laws::stream(spec_u32_to_le_bytes(kind) + rest),
                count,
            );
            &&& kind == 0 && rest.len() == 0 ==> read == gives(None::<RecordData>, rest)
            &&& kind == 0 && rest.len() > 0 ==> read is Err && read->Err_0 is TrailingBytes
            &&& kind > 1 ==> read is Err && read->Err_0 is RecordKind
        }),
{
    number_gives(kind, Field::RecordKind, rest);
}

/// The bytes of texts, in front of further bytes.
pub open spec fn with_texts(texts: Seq<Seq<char>>, rest: Seq<u8>) -> Seq<u8>
    decreases texts.len(),
{
    if texts.len() == 0 {
        rest
    } else {
        wire::text_bytes(texts[0]) + with_texts(texts.skip(1), rest)
    }
}

proof fn texts_are_read(texts: Seq<Seq<char>>, read: Seq<Seq<char>>, rest: Seq<u8>)
    requires
        forall|i: int| 0 <= i < texts.len() ==> fits(#[trigger] texts[i]),
    ensures
        mono::arguments(mono_framing_laws::stream(with_texts(texts, rest)), texts.len(), read)
            == gives(read + texts, rest),
    decreases texts.len(),
{
    if texts.len() == 0 {
        assert(read + texts =~= read);
    } else {
        let tail = texts.skip(1);
        text_gives(texts[0], Field::RustcArgument, with_texts(tail, rest));
        assert forall|i: int| 0 <= i < tail.len() implies fits(#[trigger] tail[i]) by {
            assert(tail[i] == texts[i + 1]);
        }
        texts_are_read(tail, read.push(texts[0]), rest);
        assert(read.push(texts[0]) + tail =~= read + texts);
    }
}

/// The magic bytes of an identity manifest.
pub open spec fn magic() -> Seq<u8> {
    seq![67u8, 65, 82, 71, 79, 95, 79, 80, 84, 73, 67, 95, 73, 68, 0, 0]
}

/// A manifest starts with its magic bytes, the version three, the compiler's revision and the
/// arguments of the compiler. They are read back if the revision is the expected one.
pub proof fn written_preambles_are_read(
    commit: Seq<char>,
    arguments: Seq<Seq<char>>,
    rest: Seq<u8>,
)
    requires
        fits(commit),
        arguments.len() <= 65536,
        forall|i: int| 0 <= i < arguments.len() ==> fits(#[trigger] arguments[i]),
    ensures
        mono::preamble(
            mono_framing_laws::stream(
                magic() + (spec_u32_to_le_bytes(3) + (wire::text_bytes(commit) + (
                spec_u32_to_le_bytes(arguments.len() as u32) + with_texts(arguments, rest)))),
            ),
            commit,
        ) == gives(arguments, rest),
{
    let r3 = with_texts(arguments, rest);
    let r2 = spec_u32_to_le_bytes(arguments.len() as u32) + r3;
    let r1 = wire::text_bytes(commit) + r2;
    let r0 = spec_u32_to_le_bytes(3) + r1;
    assert(mono::MANIFEST_MAGIC@ =~= magic());
    wire::exact_gives_back(mono_framing_laws::stream(magic() + r0), magic(), r0);
    wire::behind_uninterrupted(mono_framing_laws::stream(magic() + r0), 16);
    number_gives(3, Field::ProtocolVersion, r1);
    text_gives(commit, Field::RustcCommit, r2);
    number_gives(arguments.len() as u32, Field::ArgumentCount, r3);
    texts_are_read(arguments, Seq::empty(), rest);
    assert(Seq::<Seq<char>>::empty() + arguments =~= arguments);
}

/// A manifest of another compiler revision is refused, whatever follows.
pub proof fn other_revisions_are_refused(
    commit: Seq<char>,
    expected: Seq<char>,
    rest: Seq<u8>,
)
    requires
        fits(commit),
        commit != expected,
    ensures
        mono::preamble(
            mono_framing_laws::stream(
                magic() + (spec_u32_to_le_bytes(3) + (wire::text_bytes(commit) + rest)),
            ),
            expected,
        ) is Err,
{
    let r1 = wire::text_bytes(commit) + rest;
    let r0 = spec_u32_to_le_bytes(3) + r1;
    assert(mono::MANIFEST_MAGIC@ =~= magic());
    wire::exact_gives_back(mono_framing_laws::stream(magic() + r0), magic(), r0);
    wire::behind_uninterrupted(mono_framing_laws::stream(magic() + r0), 16);
    number_gives(3, Field::ProtocolVersion, r1);
    text_gives(commit, Field::RustcCommit, rest);
}

/// A manifest that starts with other bytes, that has another version or that another compiler wrote
/// is refused for that reason.
pub proof fn foreign_manifests_are_refused(
    start: Seq<u8>,
    version: u32,
    commit: Seq<char>,
    expected: Seq<char>,
    rest: Seq<u8>,
)
    requires
        start.len() == 16,
        fits(commit),
    ensures
        start != magic() ==> mono::preamble(mono_framing_laws::stream(start + rest), expected)
            == Err::<(Seq<Seq<char>>, Input), SpecFault>(Fault::Magic),
        version != 3 ==> mono::preamble(
            mono_framing_laws::stream(magic() + (spec_u32_to_le_bytes(version) + rest)),
            expected,
        ) == Err::<(Seq<Seq<char>>, Input), SpecFault>(Fault::Version { got: version }),
        commit != expected ==> mono::preamble(
            mono_framing_laws::stream(
                magic() + (spec_u32_to_le_bytes(3) + (wire::text_bytes(commit) + rest)),
            ),
            expected,
        ) == Err::<(Seq<Seq<char>>, Input), SpecFault>(Fault::Commit { expected, got: commit }),
{
    assert(mono::MANIFEST_MAGIC@ =~= magic());
    wire::exact_gives_back(mono_framing_laws::stream(start + rest), start, rest);
    let r0 = spec_u32_to_le_bytes(version) + rest;
    wire::exact_gives_back(mono_framing_laws::stream(magic() + r0), magic(), r0);
    wire::behind_uninterrupted(mono_framing_laws::stream(magic() + r0), 16);
    number_gives(version, Field::ProtocolVersion, rest);
    let r2 = wire::text_bytes(commit) + rest;
    let r1 = spec_u32_to_le_bytes(3) + r2;
    wire::exact_gives_back(mono_framing_laws::stream(magic() + r1), magic(), r1);
    wire::behind_uninterrupted(mono_framing_laws::stream(magic() + r1), 16);
    number_gives(3, Field::ProtocolVersion, r2);
    text_gives(commit, Field::RustcCommit, rest);
}

/// A record is either a placement, of which there are four million at most, or the end. Any other
/// kind is refused.
pub proof fn other_kinds_are_refused(kind: u32, rest: Seq<u8>, count: usize)
    ensures
        kind != 0 && kind != 1 ==> mono::record(
            mono_framing_laws::stream(spec_u32_to_le_bytes(kind) + rest),
            count,
        ) == Err::<(Option<RecordData>, Input), SpecFault>(Fault::RecordKind { got: kind }),
        kind == 1 && 4000000 <= count < usize::MAX ==> mono::record(
            mono_framing_laws::stream(spec_u32_to_le_bytes(kind) + rest),
            count,
        ) == Err::<(Option<RecordData>, Input), SpecFault>(
            Fault::Placements { got: (count + 1) as usize },
        ),
        kind == 0 && rest.len() > 0 ==> mono::record(
            mono_framing_laws::stream(spec_u32_to_le_bytes(kind) + rest),
            count,
        ) == Err::<(Option<RecordData>, Input), SpecFault>(Fault::TrailingBytes),
{
    number_gives(kind, Field::RecordKind, rest);
}

/// A flag is 0 or 1, and a text has at most the bytes that are allowed.
pub proof fn fields_are_checked(value: u32, rest: Seq<u8>, field: Field, maximum: u32)
    ensures
        value > 1 ==> mono::flag(
            mono_framing_laws::stream(spec_u32_to_le_bytes(value) + rest),
            field,
        ) == Err::<(bool, Input), SpecFault>(Fault::Flag { field, got: value }),
        value <= 1 ==> mono::flag(
            mono_framing_laws::stream(spec_u32_to_le_bytes(value) + rest),
            field,
        ) == Ok::<(bool, Input), SpecFault>((value == 1, mono_framing_laws::stream(rest))),
        value > maximum ==> mono::length(
            mono_framing_laws::stream(spec_u32_to_le_bytes(value) + rest),
            field,
            maximum,
        ) == Err::<(u32, Input), SpecFault>(Fault::Length { field, maximum, got: value }),
{
    number_gives(value, field, rest);
}

} // verus!

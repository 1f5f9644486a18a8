//! What holds of the framing of every manifest: it ends exactly where its end record ends, and its
//! header belongs to one analysis.

use super::fault;
use super::fault::{Fault, Field};
use super::manifest;
use super::manifest::Collected;
use super::manifest_laws;
use super::protocol;
use super::protocol::{MANIFEST_MAGIC, PROTOCOL_VERSION};
use crate::paths::Part;
use crate::records::LlvmLto;
use crate::wire;
use crate::wire::Input;
use vstd::bytes::*;
use vstd::prelude::*;

verus! {

/// A text holds a phrase.
pub open spec fn mentions(text: Seq<char>, phrase: Seq<char>) -> bool {
    exists|before: Seq<char>, after: Seq<char>| text == #[trigger] (before + phrase + after)
}

/// What a step gives on a stream and on the same stream with more bytes behind it: the same value
/// and equally many bytes taken, or too few bytes on the shorter one.
pub open spec fn alike<T>(
    whole: manifest::Step<T>,
    part: manifest::Step<T>,
    tail: Seq<u8>,
) -> bool {
    match (whole, part) {
        (Ok((value, after)), Ok((got, rest))) => {
            &&& got == value
            &&& rest == manifest_laws::stream(rest.rest)
            &&& after == manifest_laws::stream(rest.rest + tail)
        },
        (Ok(_), Err(fault)) => fault is Truncated,
        (Err(_), Ok(_)) => false,
        (Err(_), Err(_)) => true,
    }
}

proof fn exact_alike(part: Input, tail: Seq<u8>, count: nat, field: Field)
    requires
        part == manifest_laws::stream(part.rest),
    ensures
        alike(
            manifest::exact(manifest_laws::stream(part.rest + tail), count, field),
            manifest::exact(part, count, field),
            tail,
        ),
{
    if count <= part.rest.len() {
        assert((part.rest + tail).take(count as int) =~= part.rest.take(count as int));
        assert((part.rest + tail).skip(count as int) =~= part.rest.skip(count as int) + tail);
        wire::behind_uninterrupted(part, count);
        wire::behind_uninterrupted(manifest_laws::stream(part.rest + tail), count);
    }
}

proof fn number_alike(part: Input, tail: Seq<u8>, field: Field)
    requires
        part == manifest_laws::stream(part.rest),
    ensures
        alike(
            manifest::number(manifest_laws::stream(part.rest + tail), field),
            manifest::number(part, field),
            tail,
        ),
{
    exact_alike(part, tail, 4, field);
}

proof fn long_alike(part: Input, tail: Seq<u8>, field: Field)
    requires
        part == manifest_laws::stream(part.rest),
    ensures
        alike(
            manifest::long(manifest_laws::stream(part.rest + tail), field),
            manifest::long(part, field),
            tail,
        ),
{
    exact_alike(part, tail, 8, field);
}

proof fn text_alike(part: Input, tail: Seq<u8>, field: Field)
    requires
        part == manifest_laws::stream(part.rest),
    ensures
        alike(
            manifest::text(manifest_laws::stream(part.rest + tail), field),
            manifest::text(part, field),
            tail,
        ),
{
    number_alike(part, tail, field);
    if let Ok((length, after)) = manifest::number(part, field) {
        exact_alike(after, tail, length as nat, field);
    }
}

proof fn flag_alike(part: Input, tail: Seq<u8>, field: Field)
    requires
        part == manifest_laws::stream(part.rest),
    ensures
        alike(
            manifest::flag(manifest_laws::stream(part.rest + tail), field),
            manifest::flag(part, field),
            tail,
        ),
{
    number_alike(part, tail, field);
}

proof fn header_alike(part: Input, tail: Seq<u8>, marker: Seq<char>)
    requires
        part == manifest_laws::stream(part.rest),
    ensures
        alike(
            manifest::header(manifest_laws::stream(part.rest + tail), marker),
            manifest::header(part, marker),
            tail,
        ),
{
    exact_alike(part, tail, 16, Field::ManifestHeader);
    if let Ok((_, tagged)) = manifest::exact(part, 16, Field::ManifestHeader) {
        number_alike(tagged, tail, Field::ProtocolVersion);
        if let Ok((_, versioned)) = manifest::number(tagged, Field::ProtocolVersion) {
            text_alike(versioned, tail, Field::SelectedMarker);
        }
    }
}

proof fn flags_alike(
    part: Input,
    tail: Seq<u8>,
    backend: Seq<char>,
    target: Seq<char>,
    optimization: Seq<char>,
    lto: LlvmLto,
)
    requires
        part == manifest_laws::stream(part.rest),
    ensures
        alike(
            manifest::configuration_flags(
                manifest_laws::stream(part.rest + tail),
                backend,
                target,
                optimization,
                lto,
            ),
            manifest::configuration_flags(part, backend, target, optimization, lto),
            tail,
        ),
{
    flag_alike(part, tail, Field::Incremental);
    if let Ok((_, i1)) = manifest::flag(part, Field::Incremental) {
        flag_alike(i1, tail, Field::LinkerPlugin);
        if let Ok((_, i2)) = manifest::flag(i1, Field::LinkerPlugin) {
            number_alike(i2, tail, Field::CodegenUnits);
            if let Ok((_, i3)) = manifest::number(i2, Field::CodegenUnits) {
                number_alike(i3, tail, Field::Recipe);
                if let Ok((_, i4)) = manifest::number(i3, Field::Recipe) {
                    number_alike(i4, tail, Field::Support);
                }
            }
        }
    }
}

proof fn configuration_alike(part: Input, tail: Seq<u8>)
    requires
        part == manifest_laws::stream(part.rest),
    ensures
        alike(
            manifest::configuration(manifest_laws::stream(part.rest + tail)),
            manifest::configuration(part),
            tail,
        ),
{
    number_alike(part, tail, Field::ConfigurationKind);
    if let Ok((_, i0)) = manifest::number(part, Field::ConfigurationKind) {
        text_alike(i0, tail, Field::Backend);
        if let Ok((backend, i1)) = manifest::text(i0, Field::Backend) {
            text_alike(i1, tail, Field::Target);
            if let Ok((target, i2)) = manifest::text(i1, Field::Target) {
                text_alike(i2, tail, Field::Optimization);
                if let Ok((optimization, i3)) = manifest::text(i2, Field::Optimization) {
                    number_alike(i3, tail, Field::Lto);
                    if let Ok((code, i4)) = manifest::number(i3, Field::Lto) {
                        if let Some(lto) = protocol::lto_of(code) {
                            flags_alike(i4, tail, backend, target, optimization, lto);
                        }
                    }
                }
            }
        }
    }
}

proof fn key_alike(part: Input, tail: Seq<u8>)
    requires
        part == manifest_laws::stream(part.rest),
    ensures
        alike(
            manifest::key(manifest_laws::stream(part.rest + tail)),
            manifest::key(part),
            tail,
        ),
{
    text_alike(part, tail, Field::DefinitionCrate);
    if let Ok((_, i1)) = manifest::text(part, Field::DefinitionCrate) {
        text_alike(i1, tail, Field::DefinitionPath);
        if let Ok((_, i2)) = manifest::text(i1, Field::DefinitionPath) {
            text_alike(i2, tail, Field::DisplayName);
            if let Ok((_, i3)) = manifest::text(i2, Field::DisplayName) {
                text_alike(i3, tail, Field::RawSymbol);
            }
        }
    }
}

proof fn placement_alike(part: Input, tail: Seq<u8>)
    requires
        part == manifest_laws::stream(part.rest),
    ensures
        alike(
            manifest::placement(manifest_laws::stream(part.rest + tail)),
            manifest::placement(part),
            tail,
        ),
{
    text_alike(part, tail, Field::CodegenUnit);
    if let Ok((_, i1)) = manifest::text(part, Field::CodegenUnit) {
        text_alike(i1, tail, Field::Linkage);
        if let Ok((_, i2)) = manifest::text(i1, Field::Linkage) {
            text_alike(i2, tail, Field::Visibility);
            if let Ok((_, i3)) = manifest::text(i2, Field::Visibility) {
                flag_alike(i3, tail, Field::LocalCopy);
                if let Ok((_, i4)) = manifest::flag(i3, Field::LocalCopy) {
                    long_alike(i4, tail, Field::SizeEstimate);
                }
            }
        }
    }
}

proof fn available_source_alike(part: Input, tail: Seq<u8>)
    requires
        part == manifest_laws::stream(part.rest),
    ensures
        alike(
            manifest::available_source(manifest_laws::stream(part.rest + tail)),
            manifest::available_source(part),
            tail,
        ),
{
    long_alike(part, tail, Field::SourceArtifact);
    if let Ok((_, i1)) = manifest::long(part, Field::SourceArtifact) {
        long_alike(i1, tail, Field::SourceStart);
        if let Ok((_, i2)) = manifest::long(i1, Field::SourceStart) {
            long_alike(i2, tail, Field::SourceLength);
            if let Ok((_, i3)) = manifest::long(i2, Field::SourceLength) {
                text_alike(i3, tail, Field::SourcePath);
                if let Ok((_, i4)) = manifest::text(i3, Field::SourcePath) {
                    long_alike(i4, tail, Field::SourceLine);
                }
            }
        }
    }
}

proof fn source_alike(part: Input, tail: Seq<u8>)
    requires
        part == manifest_laws::stream(part.rest),
    ensures
        alike(
            manifest::source(manifest_laws::stream(part.rest + tail)),
            manifest::source(part),
            tail,
        ),
{
    number_alike(part, tail, Field::SourceAvailability);
    if let Ok((_, after)) = manifest::number(part, Field::SourceAvailability) {
        available_source_alike(after, tail);
    }
}

proof fn placement_entry_alike(part: Input, tail: Seq<u8>)
    requires
        part == manifest_laws::stream(part.rest),
    ensures
        alike(
            manifest::placement_entry(manifest_laws::stream(part.rest + tail)),
            manifest::placement_entry(part),
            tail,
        ),
{
    key_alike(part, tail);
    if let Ok((_, i1)) = manifest::key(part) {
        placement_alike(i1, tail);
        if let Ok((_, i2)) = manifest::placement(i1) {
            source_alike(i2, tail);
        }
    }
}

proof fn file_and_module_alike(part: Input, tail: Seq<u8>)
    requires
        part == manifest_laws::stream(part.rest),
    ensures
        alike(
            manifest::source_file_entry(manifest_laws::stream(part.rest + tail)),
            manifest::source_file_entry(part),
            tail,
        ),
        alike(
            manifest::module_entry(manifest_laws::stream(part.rest + tail)),
            manifest::module_entry(part),
            tail,
        ),
{
    long_alike(part, tail, Field::SourceFileId);
    if let Ok((_, i1)) = manifest::long(part, Field::SourceFileId) {
        long_alike(i1, tail, Field::SourceFileLength);
    }
    text_alike(part, tail, Field::ModuleName);
    if let Ok((_, i1)) = manifest::text(part, Field::ModuleName) {
        text_alike(i1, tail, Field::ModulePath);
    }
}

proof fn entry_alike(part: Input, tail: Seq<u8>)
    requires
        part == manifest_laws::stream(part.rest),
    ensures
        alike(
            manifest::entry(manifest_laws::stream(part.rest + tail)),
            manifest::entry(part),
            tail,
        ),
{
    number_alike(part, tail, Field::RecordKind);
    if let Ok((_, after)) = manifest::number(part, Field::RecordKind) {
        placement_entry_alike(after, tail);
        file_and_module_alike(after, tail);
    }
}

proof fn entries_end_once(
    part: Input,
    tail: Seq<u8>,
    collected: Collected,
    unsupported: bool,
    directory: Seq<Part>,
)
    requires
        part == manifest_laws::stream(part.rest),
        tail.len() > 0,
    ensures
        manifest::entries(
            manifest_laws::stream(part.rest + tail),
            collected,
            unsupported,
            directory,
        ) is Ok ==> manifest::entries(part, collected, unsupported, directory) is Err
            && manifest::entries(part, collected, unsupported, directory)->Err_0 is Truncated,
        manifest::entries(part, collected, unsupported, directory) is Ok ==> manifest::entries(
            manifest_laws::stream(part.rest + tail),
            collected,
            unsupported,
            directory,
        ) == Err::<Collected, fault::SpecFault>(Fault::TrailingBytes),
    decreases part.rest.len(),
{
    entry_alike(part, tail);
    if let Ok((Some(next), after)) = manifest::entry(part) {
        manifest::entry_shortens(part);
        if let Ok(more) = manifest::accepted(collected, next, unsupported, directory) {
            entries_end_once(after, tail, more, unsupported, directory);
        }
    }
}

proof fn manifests_end_once(bytes: Seq<u8>, tail: Seq<u8>, path: Seq<char>, marker: Seq<char>)
    requires
        tail.len() > 0,
    ensures
        manifest::manifest(manifest_laws::stream(bytes + tail), path, marker) is Ok ==> {
            &&& manifest::manifest(manifest_laws::stream(bytes), path, marker) is Err
            &&& manifest::manifest(manifest_laws::stream(bytes), path, marker)->Err_0 is Truncated
        },
        manifest::manifest(manifest_laws::stream(bytes), path, marker) is Ok ==> {
            &&& manifest::manifest(manifest_laws::stream(bytes + tail), path, marker) is Err
            &&& manifest::manifest(manifest_laws::stream(bytes + tail), path, marker)->Err_0
                is TrailingBytes
        },
{
    let part = manifest_laws::stream(bytes);
    header_alike(part, tail, marker);
    if let Ok((_, i1)) = manifest::header(part, marker) {
        configuration_alike(i1, tail);
        if let Ok((configuration, i2)) = manifest::configuration(i1) {
            entries_end_once(
                i2,
                tail,
                manifest::nothing(),
                configuration.unsupported is Some,
                manifest::llvm_directory(path),
            );
        }
    }
}

proof fn truncation_is_named(found: fault::SpecFault)
    requires
        found is Truncated,
    ensures
        mentions(fault::sentence(found), "truncated"@),
{
    let before = found->Truncated_0.name() + " must not be "@;
    let after = ", got end of file"@;
    reveal_strlit(" must not be ");
    reveal_strlit(", got end of file");
    reveal_strlit("truncated");
    reveal_strlit(" must not be truncated, got end of file");
    assert(" must not be truncated, got end of file"@ =~= " must not be "@ + "truncated"@ + after);
    assert(fault::sentence(found) =~= before + "truncated"@ + after);
}

proof fn trailing_bytes_are_named(found: fault::SpecFault)
    requires
        found is TrailingBytes,
    ensures
        mentions(fault::sentence(found), "trailing bytes"@),
{
    let before = "manifest must not contain "@;
    let after = ", got at least one trailing byte"@;
    reveal_strlit("manifest must not contain ");
    reveal_strlit(", got at least one trailing byte");
    reveal_strlit("trailing bytes");
    reveal_strlit("manifest must not contain trailing bytes, got at least one trailing byte");
    assert(fault::sentence(found) =~= before + "trailing bytes"@ + after);
}

/// Every shorter part of a valid manifest is refused as truncated.
pub proof fn strict_prefixes_are_truncated(
    bytes: Seq<u8>,
    count: int,
    path: Seq<char>,
    marker: Seq<char>,
)
    requires
        manifest::manifest(manifest_laws::stream(bytes), path, marker) is Ok,
        0 <= count < bytes.len(),
    ensures
        manifest::manifest(manifest_laws::stream(bytes.take(count)), path, marker) is Err,
        manifest::manifest(manifest_laws::stream(bytes.take(count)), path, marker)->Err_0
            is Truncated,
        mentions(
            fault::sentence(
                manifest::manifest(manifest_laws::stream(bytes.take(count)), path, marker)->Err_0,
            ),
            "truncated"@,
        ),
{
    assert(bytes.take(count) + bytes.skip(count) =~= bytes);
    manifests_end_once(bytes.take(count), bytes.skip(count), path, marker);
    truncation_is_named(
        manifest::manifest(manifest_laws::stream(bytes.take(count)), path, marker)->Err_0,
    );
}

/// Every extension of a valid manifest is refused for its trailing bytes.
pub proof fn extensions_are_trailing(
    bytes: Seq<u8>,
    tail: Seq<u8>,
    path: Seq<char>,
    marker: Seq<char>,
)
    requires
        manifest::manifest(manifest_laws::stream(bytes), path, marker) is Ok,
        tail.len() > 0,
    ensures
        manifest::manifest(manifest_laws::stream(bytes + tail), path, marker) is Err,
        manifest::manifest(manifest_laws::stream(bytes + tail), path, marker)->Err_0
            is TrailingBytes,
        mentions(
            fault::sentence(
                manifest::manifest(manifest_laws::stream(bytes + tail), path, marker)->Err_0,
            ),
            "trailing bytes"@,
        ),
{
    manifests_end_once(bytes, tail, path, marker);
    trailing_bytes_are_named(
        manifest::manifest(manifest_laws::stream(bytes + tail), path, marker)->Err_0,
    );
}

/// An input starts with some bytes.
pub open spec fn starts_with(input: Input, bytes: Seq<u8>) -> bool {
    bytes.len() <= input.rest.len() && input.rest.take(bytes.len() as int) == bytes
}

proof fn foreign_header_gives(input: Input, written: Seq<char>, marker: Seq<char>)
    requires
        wire::text_fits(written),
        starts_with(input, protocol::header_bytes(written)),
    ensures
        match manifest::header(input, marker) {
            Ok((_, after)) => written == marker && after == wire::behind(
                input,
                protocol::header_bytes(written).len(),
            ),
            Err(fault) => written != marker && fault == Fault::<Seq<u8>, Seq<char>>::Marker {
                got: written,
            },
        },
{
    let version = spec_u32_to_le_bytes(PROTOCOL_VERSION);
    let bytes = vstd::utf8::encode_utf8(written);
    let length = spec_u32_to_le_bytes(bytes.len() as u32);
    let header = protocol::header_bytes(written);
    let rest = input.rest.skip(header.len() as int);
    assert(input.rest =~= header + rest);
    assert(header + rest =~= MANIFEST_MAGIC@ + (version + (length + (bytes + rest))));
    let tagged = wire::behind(input, 16);
    let versioned = wire::behind(tagged, 4);
    let marked = wire::behind(versioned, 4);
    wire::exact_gives_back(input, MANIFEST_MAGIC@, version + (length + (bytes + rest)));
    wire::small_gives_back(tagged, PROTOCOL_VERSION, length + (bytes + rest));
    wire::small_gives_back(versioned, bytes.len() as u32, bytes + rest);
    wire::exact_gives_back(marked, bytes, rest);
    lemma_auto_spec_u32_to_from_le_bytes();
    wire::behind_twice(input, 16, 4);
    wire::behind_twice(input, 20, 4);
    wire::behind_twice(input, 24, bytes.len());
    vstd::utf8::encode_utf8_valid_utf8(written);
    vstd::utf8::encode_utf8_decode_utf8(written);
}

/// A header is accepted exactly if the input starts with the header of the expected marker, and then
/// exactly its bytes are taken.
pub proof fn headers_belong_to_their_marker(input: Input, marker: Seq<char>)
    requires
        wire::text_fits(marker),
    ensures
        manifest::header(input, marker) is Ok <==> starts_with(
            input,
            protocol::header_bytes(marker),
        ),
        manifest::header(input, marker) matches Ok((_, after)) ==> after == wire::behind(
            input,
            protocol::header_bytes(marker).len(),
        ) && after.rest == input.rest.skip(protocol::header_bytes(marker).len() as int),
{
    if starts_with(input, protocol::header_bytes(marker)) {
        foreign_header_gives(input, marker, marker);
    }
    if let Ok((_, after)) = manifest::header(input, marker) {
        lemma_auto_spec_u32_to_from_le_bytes();
        let version = spec_u32_to_le_bytes(PROTOCOL_VERSION);
        let tagged = input.rest.skip(16);
        let versioned = tagged.skip(4);
        let length = spec_u32_from_le_bytes(versioned.take(4));
        let bytes = versioned.skip(4).take(length as int);
        vstd::utf8::decode_utf8_encode_utf8(bytes);
        assert(spec_u32_to_le_bytes(spec_u32_from_le_bytes(tagged.take(4))) == tagged.take(4));
        assert(spec_u32_to_le_bytes(length) == versioned.take(4));
        assert(vstd::utf8::encode_utf8(marker) == bytes);
        let header = protocol::header_bytes(marker);
        assert(header =~= input.rest.take(16) + tagged.take(4) + (versioned.take(4) + bytes));
        assert(input.rest.take(header.len() as int) =~= header);
    }
}

/// The header of another analysis is refused for its marker.
pub proof fn foreign_headers_are_refused(input: Input, written: Seq<char>, marker: Seq<char>)
    requires
        wire::text_fits(written),
        written != marker,
        starts_with(input, protocol::header_bytes(written)),
    ensures
        manifest::header(input, marker) == Err::<((), Input), fault::SpecFault>(
            Fault::Marker { got: written },
        ),
        mentions(
            fault::sentence(Fault::Marker { got: written }),
            "selected marker must match"@,
        ),
{
    foreign_header_gives(input, written, marker);
    let before = Seq::<char>::empty();
    let after = " this analysis, got "@ + crate::text::debugged(written);
    reveal_strlit(" this analysis, got ");
    reveal_strlit("selected marker must match");
    reveal_strlit("selected marker must match this analysis, got ");
    assert(fault::sentence(Fault::Marker { got: written }) =~= before
        + "selected marker must match"@ + after);
}

} // verus!

//! What holds of every manifest: what a writer wrote is what a reader reads.

use super::fault::{Field, SpecFault};
use super::manifest;
use super::manifest::{Collected, ConfigurationData, Entry, ManifestData};
use super::protocol;
use super::protocol::{
    CONFIGURATION_RECORD, END_RECORD, LLVM_RECIPE_REVISION, MANIFEST_MAGIC, MODULE_RECORD,
    PLACEMENT_RECORD, PROTOCOL_VERSION, SOURCE_AVAILABLE, SOURCE_FILE_RECORD,
};
use super::writer;
use crate::paths::Part;
use crate::records;
use crate::records::{KeyData, PlacementData, SourceData};
use crate::wire;
use crate::wire::Input;
use vstd::bytes::*;
use vstd::prelude::*;

verus! {

/// An input without interruptions that ends ordinarily.
pub open spec fn stream(rest: Seq<u8>) -> Input {
    Input { rest, ending: None, interruptions: Seq::empty() }
}

/// A step that gives a value and leaves the rest.
pub open spec fn gives<T>(value: T, rest: Seq<u8>) -> manifest::Step<T> {
    Ok((value, stream(rest)))
}

proof fn number_gives(value: u32, field: Field, rest: Seq<u8>)
    ensures
        manifest::number(stream(spec_u32_to_le_bytes(value) + rest), field) == gives(value, rest),
{
    let input = stream(spec_u32_to_le_bytes(value) + rest);
    wire::small_gives_back(input, value, rest);
    lemma_auto_spec_u32_to_from_le_bytes();
    wire::behind_uninterrupted(input, 4);
}

proof fn long_gives(value: u64, field: Field, rest: Seq<u8>)
    ensures
        manifest::long(stream(spec_u64_to_le_bytes(value) + rest), field) == gives(value, rest),
{
    let input = stream(spec_u64_to_le_bytes(value) + rest);
    wire::large_gives_back(input, value, rest);
    lemma_auto_spec_u64_to_from_le_bytes();
    wire::behind_uninterrupted(input, 8);
}

proof fn flag_gives(value: bool, field: Field, rest: Seq<u8>)
    ensures
        manifest::flag(stream(writer::flag_bytes(value) + rest), field) == gives(value, rest),
{
    number_gives(if value { 1u32 } else { 0u32 }, field, rest);
}

proof fn text_gives(value: Seq<char>, field: Field, rest: Seq<u8>)
    requires
        wire::text_fits(value),
    ensures
        manifest::text(stream(wire::text_bytes(value) + rest), field) == gives(value, rest),
{
    let bytes = vstd::utf8::encode_utf8(value);
    let length = spec_u32_to_le_bytes(bytes.len() as u32);
    assert(wire::text_bytes(value) + rest =~= length + (bytes + rest));
    number_gives(bytes.len() as u32, field, bytes + rest);
    wire::exact_gives_back(stream(bytes + rest), bytes, rest);
    wire::behind_uninterrupted(stream(bytes + rest), bytes.len());
    vstd::utf8::encode_utf8_valid_utf8(value);
    vstd::utf8::encode_utf8_decode_utf8(value);
}

proof fn header_gives(marker: Seq<char>, rest: Seq<u8>)
    requires
        wire::text_fits(marker),
    ensures
        manifest::header(stream(protocol::header_bytes(marker) + rest), marker) == gives((), rest),
{
    let version = spec_u32_to_le_bytes(PROTOCOL_VERSION);
    let text = wire::text_bytes(marker);
    assert(protocol::header_bytes(marker) + rest =~= MANIFEST_MAGIC@ + (version + (text + rest)));
    let tail = version + (text + rest);
    wire::exact_gives_back(stream(MANIFEST_MAGIC@ + tail), MANIFEST_MAGIC@, tail);
    wire::behind_uninterrupted(stream(MANIFEST_MAGIC@ + tail), MANIFEST_MAGIC@.len());
    number_gives(PROTOCOL_VERSION, Field::ProtocolVersion, text + rest);
    text_gives(marker, Field::SelectedMarker, rest);
}

proof fn configuration_numbers_give(c: ConfigurationData, rest: Seq<u8>)
    ensures
        manifest::number(stream(writer::configuration_numbers(c) + rest), Field::Lto) == gives(
            protocol::lto_code(c.lto),
            (writer::flag_bytes(c.incremental) + (writer::flag_bytes(c.linker_plugin) + (
            spec_u32_to_le_bytes(c.codegen_units) + (spec_u32_to_le_bytes(LLVM_RECIPE_REVISION)
                + spec_u32_to_le_bytes(protocol::support_code(c.unsupported)))))) + rest,
        ),
        manifest::configuration_flags(
            stream(
                (writer::flag_bytes(c.incremental) + (writer::flag_bytes(c.linker_plugin) + (
                spec_u32_to_le_bytes(c.codegen_units) + (spec_u32_to_le_bytes(LLVM_RECIPE_REVISION)
                    + spec_u32_to_le_bytes(protocol::support_code(c.unsupported)))))) + rest,
            ),
            c.backend,
            c.target,
            c.optimization,
            c.lto,
        ) == gives(c, rest),
{
    let t5 = spec_u32_to_le_bytes(protocol::support_code(c.unsupported));
    let t4 = spec_u32_to_le_bytes(LLVM_RECIPE_REVISION) + t5;
    let t3 = spec_u32_to_le_bytes(c.codegen_units) + t4;
    let t2 = writer::flag_bytes(c.linker_plugin) + t3;
    let t1 = writer::flag_bytes(c.incremental) + t2;
    wire::regroup(spec_u32_to_le_bytes(protocol::lto_code(c.lto)), t1, rest);
    wire::regroup(writer::flag_bytes(c.incremental), t2, rest);
    wire::regroup(writer::flag_bytes(c.linker_plugin), t3, rest);
    wire::regroup(spec_u32_to_le_bytes(c.codegen_units), t4, rest);
    wire::regroup(spec_u32_to_le_bytes(LLVM_RECIPE_REVISION), t5, rest);
    number_gives(protocol::lto_code(c.lto), Field::Lto, t1 + rest);
    flag_gives(c.incremental, Field::Incremental, t2 + rest);
    flag_gives(c.linker_plugin, Field::LinkerPlugin, t3 + rest);
    number_gives(c.codegen_units, Field::CodegenUnits, t4 + rest);
    number_gives(LLVM_RECIPE_REVISION, Field::Recipe, t5 + rest);
    number_gives(protocol::support_code(c.unsupported), Field::Support, rest);
}

proof fn configuration_gives(c: ConfigurationData, rest: Seq<u8>)
    requires
        writer::configuration_fits(c),
    ensures
        manifest::configuration(stream(writer::configuration_bytes(c) + rest)) == gives(c, rest),
{
    let numbers = writer::configuration_numbers(c) + rest;
    let t3 = wire::text_bytes(c.optimization);
    let t2 = wire::text_bytes(c.target) + t3;
    let t1 = wire::text_bytes(c.backend) + t2;
    wire::regroup(writer::configuration_texts(c), writer::configuration_numbers(c), rest);
    wire::regroup(spec_u32_to_le_bytes(CONFIGURATION_RECORD), t1, numbers);
    wire::regroup(wire::text_bytes(c.backend), t2, numbers);
    wire::regroup(wire::text_bytes(c.target), t3, numbers);
    number_gives(CONFIGURATION_RECORD, Field::ConfigurationKind, t1 + numbers);
    text_gives(c.backend, Field::Backend, t2 + numbers);
    text_gives(c.target, Field::Target, t3 + numbers);
    text_gives(c.optimization, Field::Optimization, numbers);
    configuration_numbers_give(c, rest);
}

proof fn key_gives(key: KeyData, rest: Seq<u8>)
    requires
        wire::text_fits(key.definition_crate),
        wire::text_fits(key.definition_path),
        wire::text_fits(key.display_name),
        wire::text_fits(key.raw_symbol),
    ensures
        manifest::key(stream(writer::key_bytes(key) + rest)) == gives(key, rest),
{
    let r3 = wire::text_bytes(key.raw_symbol) + rest;
    let r2 = wire::text_bytes(key.display_name) + r3;
    let r1 = wire::text_bytes(key.definition_path) + r2;
    assert(writer::key_bytes(key) + rest =~= wire::text_bytes(key.definition_crate) + r1);
    text_gives(key.definition_crate, Field::DefinitionCrate, r1);
    text_gives(key.definition_path, Field::DefinitionPath, r2);
    text_gives(key.display_name, Field::DisplayName, r3);
    text_gives(key.raw_symbol, Field::RawSymbol, rest);
}

proof fn placement_gives(p: PlacementData, rest: Seq<u8>)
    requires
        wire::text_fits(p.codegen_unit),
        wire::text_fits(p.linkage),
        wire::text_fits(p.visibility),
    ensures
        manifest::placement(stream(writer::placement_bytes(p) + rest)) == gives(p, rest),
{
    let r4 = spec_u64_to_le_bytes(p.size_estimate) + rest;
    let r3 = writer::flag_bytes(p.local_copy) + r4;
    let r2 = wire::text_bytes(p.visibility) + r3;
    let r1 = wire::text_bytes(p.linkage) + r2;
    assert(writer::placement_bytes(p) + rest =~= wire::text_bytes(p.codegen_unit) + r1);
    text_gives(p.codegen_unit, Field::CodegenUnit, r1);
    text_gives(p.linkage, Field::Linkage, r2);
    text_gives(p.visibility, Field::Visibility, r3);
    flag_gives(p.local_copy, Field::LocalCopy, r4);
    long_gives(p.size_estimate, Field::SizeEstimate, rest);
}

/// A source range ends within the offsets of its file.
pub open spec fn source_valid(source: SourceData) -> bool {
    source matches SourceData::Available { start, length, .. } ==> start + length <= u64::MAX
}

proof fn source_gives(source: SourceData, rest: Seq<u8>)
    requires
        source_valid(source),
        source matches SourceData::Available { path, .. } ==> wire::text_fits(path),
    ensures
        manifest::source(stream(writer::source_bytes(source) + rest)) == gives(source, rest),
{
    match source {
        SourceData::Available { artifact, start, length, path, line } => {
            let r5 = spec_u64_to_le_bytes(line) + rest;
            let r4 = wire::text_bytes(path) + r5;
            let r3 = spec_u64_to_le_bytes(length) + r4;
            let r2 = spec_u64_to_le_bytes(start) + r3;
            let r1 = spec_u64_to_le_bytes(artifact) + r2;
            assert(writer::source_bytes(source) + rest =~= spec_u32_to_le_bytes(SOURCE_AVAILABLE)
                + r1);
            number_gives(SOURCE_AVAILABLE, Field::SourceAvailability, r1);
            long_gives(artifact, Field::SourceArtifact, r2);
            long_gives(start, Field::SourceStart, r3);
            long_gives(length, Field::SourceLength, r4);
            text_gives(path, Field::SourcePath, r5);
            long_gives(line, Field::SourceLine, rest);
        },
        SourceData::Unavailable(reason) => {
            number_gives(protocol::unavailable_code(reason), Field::SourceAvailability, rest);
        },
    }
}

/// A record can be written and read back.
pub open spec fn entry_valid(entry: Entry) -> bool {
    &&& writer::entry_fits(entry)
    &&& entry matches Entry::Placement { source, .. } ==> source_valid(source)
}

#[verifier::rlimit(60)]
proof fn placement_entry_gives(
    key: KeyData,
    placement: PlacementData,
    source: SourceData,
    rest: Seq<u8>,
)
    requires
        entry_valid(Entry::Placement { key, placement, source }),
    ensures
        manifest::placement_entry(
            stream(
                (writer::key_bytes(key) + (writer::placement_bytes(placement)
                    + writer::source_bytes(source))) + rest,
            ),
        ) == gives(Some(Entry::Placement { key, placement, source }), rest),
{
    let t2 = writer::placement_bytes(placement) + writer::source_bytes(source);
    wire::regroup(writer::key_bytes(key), t2, rest);
    wire::regroup(writer::placement_bytes(placement), writer::source_bytes(source), rest);
    key_gives(key, t2 + rest);
    placement_gives(placement, writer::source_bytes(source) + rest);
    source_gives(source, rest);
}

proof fn source_file_entry_gives(id: u64, length: u64, rest: Seq<u8>)
    ensures
        manifest::source_file_entry(
            stream((spec_u64_to_le_bytes(id) + spec_u64_to_le_bytes(length)) + rest),
        ) == gives(Some(Entry::SourceFile { id, length }), rest),
{
    wire::regroup(spec_u64_to_le_bytes(id), spec_u64_to_le_bytes(length), rest);
    long_gives(id, Field::SourceFileId, spec_u64_to_le_bytes(length) + rest);
    long_gives(length, Field::SourceFileLength, rest);
}

proof fn module_entry_gives(name: Seq<char>, path: Seq<char>, rest: Seq<u8>)
    requires
        wire::text_fits(name),
        wire::text_fits(path),
    ensures
        manifest::module_entry(
            stream((wire::text_bytes(name) + wire::text_bytes(path)) + rest),
        ) == gives(Some(Entry::Module { name, path }), rest),
{
    wire::regroup(wire::text_bytes(name), wire::text_bytes(path), rest);
    text_gives(name, Field::ModuleName, wire::text_bytes(path) + rest);
    text_gives(path, Field::ModulePath, rest);
}

proof fn entry_gives(entry: Entry, rest: Seq<u8>)
    requires
        entry_valid(entry),
    ensures
        manifest::entry(stream(writer::entry_bytes(entry) + rest)) == gives(Some(entry), rest),
{
    let (kind, fields) = match entry {
        Entry::Placement { key, placement, source } => (
            PLACEMENT_RECORD,
            writer::key_bytes(key) + (writer::placement_bytes(placement) + writer::source_bytes(
                source,
            )),
        ),
        Entry::SourceFile { id, length } => (
            SOURCE_FILE_RECORD,
            spec_u64_to_le_bytes(id) + spec_u64_to_le_bytes(length),
        ),
        Entry::Module { name, path } => (
            MODULE_RECORD,
            wire::text_bytes(name) + wire::text_bytes(path),
        ),
    };
    assert(writer::entry_bytes(entry) == spec_u32_to_le_bytes(kind) + fields);
    wire::regroup(spec_u32_to_le_bytes(kind), fields, rest);
    number_gives(kind, Field::RecordKind, fields + rest);
    match entry {
        Entry::Placement { key, placement, source } => {
            placement_entry_gives(key, placement, source, rest);
        },
        Entry::SourceFile { id, length } => {
            source_file_entry_gives(id, length, rest);
        },
        Entry::Module { name, path } => {
            module_entry_gives(name, path, rest);
        },
    }
}

/// The encoding of a list of records.
pub open spec fn entries_bytes(list: Seq<Entry>) -> Seq<u8>
    decreases list.len(),
{
    if list.len() == 0 {
        Seq::empty()
    } else {
        writer::entry_bytes(list[0]) + entries_bytes(list.skip(1))
    }
}

/// The records that a list adds to others, or the first rule that it breaks.
pub open spec fn all_accepted(
    collected: Collected,
    list: Seq<Entry>,
    unsupported: bool,
    directory: Seq<Part>,
) -> Result<Collected, SpecFault>
    decreases list.len(),
{
    if list.len() == 0 {
        Ok(collected)
    } else {
        match manifest::accepted(collected, list[0], unsupported, directory) {
            Err(fault) => Err(fault),
            Ok(more) => all_accepted(more, list.skip(1), unsupported, directory),
        }
    }
}

proof fn entries_give(
    collected: Collected,
    list: Seq<Entry>,
    unsupported: bool,
    directory: Seq<Part>,
)
    requires
        forall|i: int| 0 <= i < list.len() ==> entry_valid(#[trigger] list[i]),
    ensures
        manifest::entries(
            stream(entries_bytes(list) + spec_u32_to_le_bytes(END_RECORD)),
            collected,
            unsupported,
            directory,
        ) == all_accepted(collected, list, unsupported, directory),
    decreases list.len(),
{
    let end = spec_u32_to_le_bytes(END_RECORD);
    if list.len() == 0 {
        assert(entries_bytes(list) + end =~= end + Seq::<u8>::empty());
        number_gives(END_RECORD, Field::RecordKind, Seq::empty());
    } else {
        let tail = entries_bytes(list.skip(1)) + end;
        assert(entry_valid(list[0]));
        assert(entries_bytes(list) + end =~= writer::entry_bytes(list[0]) + tail);
        entry_gives(list[0], tail);
        if let Ok(more) = manifest::accepted(collected, list[0], unsupported, directory) {
            entries_give(more, list.skip(1), unsupported, directory);
        }
    }
}

/// A reader gives back what a writer wrote: the configuration, and the records grouped and checked
/// in the order of writing. The first record that breaks a rule gives its fault.
pub proof fn manifests_read_back(
    path: Seq<char>,
    marker: Seq<char>,
    configuration: ConfigurationData,
    list: Seq<Entry>,
)
    requires
        wire::text_fits(marker),
        writer::configuration_fits(configuration),
        forall|i: int| 0 <= i < list.len() ==> entry_valid(#[trigger] list[i]),
    ensures
        manifest::manifest(
            stream(
                protocol::header_bytes(marker) + writer::configuration_bytes(configuration)
                    + entries_bytes(list) + spec_u32_to_le_bytes(END_RECORD),
            ),
            path,
            marker,
        ) == (match all_accepted(
            manifest::nothing(),
            list,
            configuration.unsupported is Some,
            manifest::llvm_directory(path),
        ) {
            Err(fault) => Err(fault),
            Ok(collected) => Ok(ManifestData { configuration, collected }),
        }),
{
    let tail = entries_bytes(list) + spec_u32_to_le_bytes(END_RECORD);
    let middle = writer::configuration_bytes(configuration) + tail;
    assert(protocol::header_bytes(marker) + writer::configuration_bytes(configuration)
        + entries_bytes(list) + spec_u32_to_le_bytes(END_RECORD) =~= protocol::header_bytes(marker)
        + middle);
    header_gives(marker, middle);
    configuration_gives(configuration, tail);
    entries_give(
        manifest::nothing(),
        list,
        configuration.unsupported is Some,
        manifest::llvm_directory(path),
    );
}

/// The placements of one identity in a list of records, in order.
pub open spec fn placements_of(list: Seq<Entry>, key: KeyData) -> Seq<PlacementData>
    decreases list.len(),
{
    if list.len() == 0 {
        Seq::empty()
    } else {
        let before = placements_of(list.drop_last(), key);
        match list.last() {
            Entry::Placement { key: other, placement, .. } => if other == key {
                before.push(placement)
            } else {
                before
            },
            _ => before,
        }
    }
}

/// The records that a list adds to none.
pub open spec fn collected(list: Seq<Entry>, unsupported: bool, directory: Seq<Part>) -> Result<
    Collected,
    SpecFault,
>
    decreases list.len(),
{
    if list.len() == 0 {
        Ok(manifest::nothing())
    } else {
        match collected(list.drop_last(), unsupported, directory) {
            Err(fault) => Err(fault),
            Ok(before) => manifest::accepted(before, list.last(), unsupported, directory),
        }
    }
}

proof fn accepted_in_order(
    before: Seq<Entry>,
    list: Seq<Entry>,
    unsupported: bool,
    directory: Seq<Part>,
)
    requires
        collected(before, unsupported, directory) is Ok,
    ensures
        all_accepted(collected(before, unsupported, directory)->Ok_0, list, unsupported, directory)
            == collected(before + list, unsupported, directory),
    decreases list.len(),
{
    if list.len() == 0 {
        assert(before + list =~= before);
    } else {
        let next = before.push(list[0]);
        assert(next.drop_last() =~= before);
        assert(next + list.skip(1) =~= before + list);
        let step = manifest::accepted(
            collected(before, unsupported, directory)->Ok_0,
            list[0],
            unsupported,
            directory,
        );
        if step is Ok {
            accepted_in_order(next, list.skip(1), unsupported, directory);
        } else {
            fault_stays(next, list.skip(1), unsupported, directory);
        }
    }
}

proof fn fault_stays(
    before: Seq<Entry>,
    list: Seq<Entry>,
    unsupported: bool,
    directory: Seq<Part>,
)
    requires
        collected(before, unsupported, directory) is Err,
    ensures
        collected(before + list, unsupported, directory) == collected(
            before,
            unsupported,
            directory,
        ),
    decreases list.len(),
{
    if list.len() == 0 {
        assert(before + list =~= before);
    } else {
        assert((before + list).drop_last() =~= before + list.drop_last());
        fault_stays(before, list.drop_last(), unsupported, directory);
    }
}

/// Grouping loses nothing and repeats nothing: the instances are strictly ordered by identity, each
/// holds exactly the placements of its identity in stream order, and every placed identity has its
/// instance. Source files have distinct identities. Modules have distinct names and paths in the
/// private directory, and there are none for an unsupported configuration.
pub proof fn collections_are_grouped(list: Seq<Entry>, unsupported: bool, directory: Seq<Part>)
    ensures
        all_accepted(manifest::nothing(), list, unsupported, directory) matches Ok(all) ==> {
            &&& manifest::ordered(all.groups)
            &&& forall|i: int|
                0 <= i < all.groups.len() ==> (#[trigger] all.groups[i]).placements
                    == placements_of(list, all.groups[i].key) && all.groups[i].placements.len() > 0
            &&& forall|key: KeyData|
                placements_of(list, key).len() > 0 ==> exists|i: int|
                    0 <= i < all.groups.len() && (#[trigger] all.groups[i]).key == key
            &&& forall|i: int, j: int|
                0 <= i < j < all.artifacts.len() ==> (#[trigger] all.artifacts[i]).id != (
                #[trigger] all.artifacts[j]).id
            &&& forall|i: int, j: int|
                0 <= i < j < all.modules.len() ==> (#[trigger] all.modules[i]).name != (
                #[trigger] all.modules[j]).name
            &&& forall|i: int|
                0 <= i < all.modules.len() ==> manifest::immediate_file(
                    (#[trigger] all.modules[i]).path,
                    directory,
                )
            &&& unsupported ==> all.modules.len() == 0
        },
{
    accepted_in_order(Seq::empty(), list, unsupported, directory);
    assert(Seq::<Entry>::empty() + list =~= list);
    collected_is_grouped(list, unsupported, directory);
}

spec fn grouped(
    list: Seq<Entry>,
    all: Collected,
    unsupported: bool,
    directory: Seq<Part>,
) -> bool {
    &&& manifest::ordered(all.groups)
    &&& forall|i: int|
        0 <= i < all.groups.len() ==> (#[trigger] all.groups[i]).placements == placements_of(
            list,
            all.groups[i].key,
        ) && all.groups[i].placements.len() > 0
    &&& forall|key: KeyData|
        #![trigger placements_of(list, key)]
        placements_of(list, key).len() > 0 ==> exists|i: int|
            0 <= i < all.groups.len() && (#[trigger] all.groups[i]).key == key
    &&& forall|i: int, j: int|
        0 <= i < j < all.artifacts.len() ==> (#[trigger] all.artifacts[i]).id != (
        #[trigger] all.artifacts[j]).id
    &&& forall|i: int, j: int|
        0 <= i < j < all.modules.len() ==> (#[trigger] all.modules[i]).name != (
        #[trigger] all.modules[j]).name
    &&& forall|i: int|
        0 <= i < all.modules.len() ==> manifest::immediate_file(
            (#[trigger] all.modules[i]).path,
            directory,
        )
    &&& unsupported ==> all.modules.len() == 0
}

proof fn collected_is_grouped(list: Seq<Entry>, unsupported: bool, directory: Seq<Part>)
    ensures
        collected(list, unsupported, directory) matches Ok(all) ==> grouped(
            list,
            all,
            unsupported,
            directory,
        ),
    decreases list.len(),
{
    if list.len() > 0 {
        let rest = list.drop_last();
        collected_is_grouped(rest, unsupported, directory);
        if let Ok(before) = collected(rest, unsupported, directory) {
            if let Ok(all) = manifest::accepted(before, list.last(), unsupported, directory) {
                match list.last() {
                    Entry::Placement { key, placement, source } => {
                        placement_is_grouped(list, before, all, unsupported, directory);
                    },
                    Entry::SourceFile { id, length } => {
                        assert forall|key: KeyData| #[trigger]
                            placements_of(list, key) == placements_of(rest, key) by {}
                        assert forall|i: int, j: int|
                            0 <= i < j < all.artifacts.len() implies (#[trigger] all.artifacts[i]).id
                            != (#[trigger] all.artifacts[j]).id by {
                            assert(all.artifacts[i] == before.artifacts[i]);
                        }
                    },
                    Entry::Module { name, path } => {
                        assert forall|key: KeyData| #[trigger]
                            placements_of(list, key) == placements_of(rest, key) by {}
                        assert forall|i: int, j: int|
                            0 <= i < j < all.modules.len() implies (#[trigger] all.modules[i]).name
                            != (#[trigger] all.modules[j]).name by {
                            assert(all.modules[i] == before.modules[i]);
                        }
                    },
                }
            }
        }
    }
}

proof fn placement_is_grouped(
    list: Seq<Entry>,
    before: Collected,
    all: Collected,
    unsupported: bool,
    directory: Seq<Part>,
)
    requires
        list.len() > 0,
        list.last() is Placement,
        grouped(list.drop_last(), before, unsupported, directory),
        manifest::accepted(before, list.last(), unsupported, directory) == Ok::<
            Collected,
            SpecFault,
        >(all),
    ensures
        grouped(list, all, unsupported, directory),
{
    let rest = list.drop_last();
    let key = list.last()->key;
    let placement = list.last()->placement;
    let source = list.last()->source;
    let groups = before.groups;
    let more = all.groups;
    let at = manifest::rank(groups, key);
    manifest::rank_bounds(groups, key);
    manifest::placement_keeps_order(groups, key, placement, source);
    if at < groups.len() && groups[at].key == key {
        assert forall|i: int| 0 <= i < more.len() implies (#[trigger] more[i]).placements
            == placements_of(list, more[i].key) && more[i].placements.len() > 0 by {
            assert(groups[i].key == more[i].key);
            if i != at {
                assert(groups[i].key != key) by {
                    records::key_less_is_strict(groups[i].key, key);
                    records::key_less_is_strict(key, groups[i].key);
                }
            }
        }
        assert forall|other: KeyData| #[trigger]
            placements_of(list, other).len() > 0 implies exists|i: int|
            0 <= i < more.len() && (#[trigger] more[i]).key == other by {
            if other == key {
                assert(more[at].key == key);
            } else {
                assert(placements_of(rest, other).len() > 0);
                let i = choose|i: int| 0 <= i < groups.len() && (#[trigger] groups[i]).key == other;
                assert(more[i].key == other);
            }
        }
    } else {
        assert(forall|i: int| 0 <= i < groups.len() ==> (#[trigger] groups[i]).key != key) by {
            assert forall|i: int| 0 <= i < groups.len() implies (#[trigger] groups[i]).key
                != key by {
                records::key_less_is_strict(groups[i].key, key);
                if i > at {
                    records::key_less_is_strict(groups[at].key, key);
                    records::key_less_is_transitive(key, groups[at].key, groups[i].key);
                    records::key_less_is_strict(key, groups[i].key);
                }
            }
        }
        if placements_of(rest, key).len() > 0 {
            let i = choose|i: int| 0 <= i < groups.len() && (#[trigger] groups[i]).key == key;
            assert(false);
        }
        assert(placements_of(rest, key) =~= Seq::empty());
        assert forall|i: int| 0 <= i < more.len() implies (#[trigger] more[i]).placements
            == placements_of(list, more[i].key) && more[i].placements.len() > 0 by {
            if i == at {
                assert(more[i].placements =~= seq![placement]);
                assert(placements_of(list, key) =~= seq![placement]);
            } else {
                let from = if i < at { i } else { i - 1 };
                assert(more[i] == groups[from]);
            }
        }
        assert forall|other: KeyData| #[trigger]
            placements_of(list, other).len() > 0 implies exists|i: int|
            0 <= i < more.len() && (#[trigger] more[i]).key == other by {
            if other == key {
                assert(more[at].key == key);
            } else {
                assert(placements_of(rest, other).len() > 0);
                let i = choose|i: int| 0 <= i < groups.len() && (#[trigger] groups[i]).key == other;
                let to = if i < at { i } else { i + 1 };
                assert(more[to].key == other);
            }
        }
    }
}

} // verus!

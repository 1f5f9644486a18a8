//! Decodes and validates the private compiler-manifest byte stream.
//!
//! The methods of [`ManifestDecoder`] follow the wire format from header to end marker. A syntactic
//! step reads one entry, a semantic step checks it and groups repeated placements by instance.

use super::fault::{Fault, Field, ManifestFault, SpecFault};
use super::framing_laws;
use super::protocol;
use super::protocol::{
    decode_lto, decode_support, decode_unavailable, CONFIGURATION_RECORD, END_RECORD,
    LLVM_RECIPE_REVISION, MANIFEST_MAGIC, MODULE_RECORD, PLACEMENT_RECORD, PROTOCOL_VERSION,
    SOURCE_AVAILABLE, SOURCE_FILE_RECORD,
};
use crate::order::is_text_less;
use crate::paths;
use crate::paths::{components, same_components, Component, Part};
use crate::records;
use crate::records::{
    sources_agree, ArtifactKind, ArtifactRecord, ByteRange, GroupData, InstanceRecord, KeyData,
    LlvmLto, PlacementData, PlacementRecord, SourceAvailability, SourceData, SourceRecord,
    UnsupportedLlvmConfiguration,
};
use crate::source::ByteSource;
use crate::text::{same_text, utf8_text};
use crate::wire;
use crate::wire::{Input, ReadFault, Reader};
use vstd::prelude::*;

verus! {

/// What a decoding step gives: a value and the input behind it, or the fault that stops it.
pub type Step<T> = Result<(T, Input), SpecFault>;

/// A fault of the input, at a field.
pub open spec fn read_fault(fault: ReadFault, field: Field) -> SpecFault {
    match fault {
        ReadFault::Truncated => Fault::Truncated(field),
        ReadFault::Failed(error) => Fault::Read(error),
    }
}

/// A field of some bytes.
pub open spec fn exact(input: Input, count: nat, field: Field) -> Step<Seq<u8>> {
    match wire::exact(input, count) {
        Ok(step) => Ok(step),
        Err(fault) => Err(read_fault(fault, field)),
    }
}

/// A field of four bytes.
pub open spec fn number(input: Input, field: Field) -> Step<u32> {
    match wire::small(input) {
        Ok(step) => Ok(step),
        Err(fault) => Err(read_fault(fault, field)),
    }
}

/// A field of eight bytes.
pub open spec fn long(input: Input, field: Field) -> Step<u64> {
    match wire::large(input) {
        Ok(step) => Ok(step),
        Err(fault) => Err(read_fault(fault, field)),
    }
}

/// A field of text.
pub open spec fn text(input: Input, field: Field) -> Step<Seq<char>> {
    match number(input, field) {
        Err(fault) => Err(fault),
        Ok((length, after)) => match exact(after, length as nat, field) {
            Err(fault) => Err(fault),
            Ok((bytes, behind)) => if vstd::utf8::valid_utf8(bytes) {
                Ok((vstd::utf8::decode_utf8(bytes), behind))
            } else {
                Err(Fault::NotUtf8 { field, problem: crate::text::utf8_problem(bytes) })
            },
        },
    }
}

/// A field that is zero or one.
pub open spec fn flag(input: Input, field: Field) -> Step<bool> {
    match number(input, field) {
        Err(fault) => Err(fault),
        Ok((got, after)) => if got == 0 {
            Ok((false, after))
        } else if got == 1 {
            Ok((true, after))
        } else {
            Err(Fault::Flag { field, got })
        },
    }
}

/// The header of a stream that belongs to one analysis.
pub open spec fn header(input: Input, marker: Seq<char>) -> Step<()> {
    match exact(input, 16, Field::ManifestHeader) {
        Err(fault) => Err(fault),
        Ok((magic, tagged)) => if magic != MANIFEST_MAGIC@ {
            Err(Fault::Magic { got: magic })
        } else {
            match number(tagged, Field::ProtocolVersion) {
                Err(fault) => Err(fault),
                Ok((version, versioned)) => if version != PROTOCOL_VERSION {
                    Err(Fault::Version { got: version })
                } else {
                    match text(versioned, Field::SelectedMarker) {
                        Err(fault) => Err(fault),
                        Ok((got, after)) => if got != marker {
                            Err(Fault::Marker { got })
                        } else {
                            Ok(((), after))
                        },
                    }
                },
            }
        },
    }
}

/// The mathematical configuration.
pub struct ConfigurationData {
    /// The name of the backend.
    pub backend: Seq<char>,
    /// The target.
    pub target: Seq<char>,
    /// The optimisation level.
    pub optimization: Seq<char>,
    /// The link-time optimisation.
    pub lto: LlvmLto,
    /// Incremental compilation.
    pub incremental: bool,
    /// Link-time optimisation by the linker plugin.
    pub linker_plugin: bool,
    /// The configured number of codegen units.
    pub codegen_units: u32,
    /// Why optimised LLVM is not collected.
    pub unsupported: Option<UnsupportedLlvmConfiguration>,
}

/// The configuration record.
pub open spec fn configuration(input: Input) -> Step<ConfigurationData> {
    match number(input, Field::ConfigurationKind) {
        Err(fault) => Err(fault),
        Ok((kind, i0)) => if kind != CONFIGURATION_RECORD {
            Err(Fault::FirstRecord { got: kind })
        } else {
            match text(i0, Field::Backend) {
                Err(fault) => Err(fault),
                Ok((backend, i1)) => match text(i1, Field::Target) {
                    Err(fault) => Err(fault),
                    Ok((target, i2)) => match text(i2, Field::Optimization) {
                        Err(fault) => Err(fault),
                        Ok((optimization, i3)) => match number(i3, Field::Lto) {
                            Err(fault) => Err(fault),
                            Ok((lto, i4)) => match protocol::lto_of(lto) {
                                None => Err(Fault::Lto { got: lto }),
                                Some(lto) => configuration_flags(
                                    i4,
                                    backend,
                                    target,
                                    optimization,
                                    lto,
                                ),
                            },
                        },
                    },
                },
            }
        },
    }
}

/// The configuration record behind its link-time optimisation.
pub open spec fn configuration_flags(
    input: Input,
    backend: Seq<char>,
    target: Seq<char>,
    optimization: Seq<char>,
    lto: LlvmLto,
) -> Step<ConfigurationData> {
    match flag(input, Field::Incremental) {
        Err(fault) => Err(fault),
        Ok((incremental, i1)) => match flag(i1, Field::LinkerPlugin) {
            Err(fault) => Err(fault),
            Ok((linker_plugin, i2)) => match number(i2, Field::CodegenUnits) {
                Err(fault) => Err(fault),
                Ok((codegen_units, i3)) => match number(i3, Field::Recipe) {
                    Err(fault) => Err(fault),
                    Ok((recipe, i4)) => if recipe != LLVM_RECIPE_REVISION {
                        Err(Fault::Recipe { got: recipe })
                    } else {
                        match number(i4, Field::Support) {
                            Err(fault) => Err(fault),
                            Ok((support, i5)) => match protocol::support_of(support) {
                                None => Err(Fault::Support { got: support }),
                                Some(unsupported) => Ok(
                                    (
                                        ConfigurationData {
                                            backend,
                                            target,
                                            optimization,
                                            lto,
                                            incremental,
                                            linker_plugin,
                                            codegen_units,
                                            unsupported,
                                        },
                                        i5,
                                    ),
                                ),
                            },
                        }
                    },
                },
            },
        },
    }
}

/// One record of the stream behind its configuration.
pub enum Entry {
    /// A placement of an instance.
    Placement {
        /// The identity of the instance.
        key: KeyData,
        /// The placement.
        placement: PlacementData,
        /// The source relationship of the instance.
        source: SourceData,
    },
    /// A source file.
    SourceFile {
        /// The identity of the file.
        id: u64,
        /// The number of bytes.
        length: u64,
    },
    /// An expected module.
    Module {
        /// The name of the module.
        name: Seq<char>,
        /// The path of its bitcode.
        path: Seq<char>,
    },
}

/// The identity of an instance.
pub open spec fn key(input: Input) -> Step<KeyData> {
    match text(input, Field::DefinitionCrate) {
        Err(fault) => Err(fault),
        Ok((definition_crate, i1)) => match text(i1, Field::DefinitionPath) {
            Err(fault) => Err(fault),
            Ok((definition_path, i2)) => match text(i2, Field::DisplayName) {
                Err(fault) => Err(fault),
                Ok((display_name, i3)) => match text(i3, Field::RawSymbol) {
                    Err(fault) => Err(fault),
                    Ok((raw_symbol, i4)) => Ok(
                        (KeyData { definition_crate, definition_path, display_name, raw_symbol }, i4),
                    ),
                },
            },
        },
    }
}

/// The placement of an instance.
pub open spec fn placement(input: Input) -> Step<PlacementData> {
    match text(input, Field::CodegenUnit) {
        Err(fault) => Err(fault),
        Ok((codegen_unit, i1)) => match text(i1, Field::Linkage) {
            Err(fault) => Err(fault),
            Ok((linkage, i2)) => match text(i2, Field::Visibility) {
                Err(fault) => Err(fault),
                Ok((visibility, i3)) => match flag(i3, Field::LocalCopy) {
                    Err(fault) => Err(fault),
                    Ok((local_copy, i4)) => match long(i4, Field::SizeEstimate) {
                        Err(fault) => Err(fault),
                        Ok((size_estimate, i5)) => Ok(
                            (
                                PlacementData {
                                    codegen_unit,
                                    linkage,
                                    visibility,
                                    local_copy,
                                    size_estimate,
                                },
                                i5,
                            ),
                        ),
                    },
                },
            },
        },
    }
}

/// The source relationship of an instance.
pub open spec fn source(input: Input) -> Step<SourceData> {
    match number(input, Field::SourceAvailability) {
        Err(fault) => Err(fault),
        Ok((code, after)) => if code == SOURCE_AVAILABLE {
            available_source(after)
        } else {
            match protocol::unavailable_of(code) {
                None => Err(Fault::Source { got: code }),
                Some(reason) => Ok((SourceData::Unavailable(reason), after)),
            }
        },
    }
}

/// The fields of an available source.
pub open spec fn available_source(input: Input) -> Step<SourceData> {
    match long(input, Field::SourceArtifact) {
        Err(fault) => Err(fault),
        Ok((artifact, i1)) => match long(i1, Field::SourceStart) {
            Err(fault) => Err(fault),
            Ok((start, i2)) => match long(i2, Field::SourceLength) {
                Err(fault) => Err(fault),
                Ok((length, i3)) => match text(i3, Field::SourcePath) {
                    Err(fault) => Err(fault),
                    Ok((path, i4)) => match long(i4, Field::SourceLine) {
                        Err(fault) => Err(fault),
                        Ok((line, i5)) => if start + length > u64::MAX {
                            Err(Fault::Range)
                        } else {
                            Ok((SourceData::Available { artifact, start, length, path, line }, i5))
                        },
                    },
                },
            },
        },
    }
}

/// A placement record behind its kind.
pub open spec fn placement_entry(input: Input) -> Step<Option<Entry>> {
    match key(input) {
        Err(fault) => Err(fault),
        Ok((key, i1)) => match placement(i1) {
            Err(fault) => Err(fault),
            Ok((placement, i2)) => match source(i2) {
                Err(fault) => Err(fault),
                Ok((source, i3)) => Ok((Some(Entry::Placement { key, placement, source }), i3)),
            },
        },
    }
}

/// A source-file record behind its kind.
pub open spec fn source_file_entry(input: Input) -> Step<Option<Entry>> {
    match long(input, Field::SourceFileId) {
        Err(fault) => Err(fault),
        Ok((id, i1)) => match long(i1, Field::SourceFileLength) {
            Err(fault) => Err(fault),
            Ok((length, i2)) => Ok((Some(Entry::SourceFile { id, length }), i2)),
        },
    }
}

/// A module record behind its kind.
pub open spec fn module_entry(input: Input) -> Step<Option<Entry>> {
    match text(input, Field::ModuleName) {
        Err(fault) => Err(fault),
        Ok((name, i1)) => match text(i1, Field::ModulePath) {
            Err(fault) => Err(fault),
            Ok((path, i2)) => Ok((Some(Entry::Module { name, path }), i2)),
        },
    }
}

/// The next record, or `None` for the end record.
pub open spec fn entry(input: Input) -> Step<Option<Entry>> {
    match number(input, Field::RecordKind) {
        Err(fault) => Err(fault),
        Ok((kind, after)) => if kind == END_RECORD {
            Ok((None, after))
        } else if kind == PLACEMENT_RECORD {
            placement_entry(after)
        } else if kind == SOURCE_FILE_RECORD {
            source_file_entry(after)
        } else if kind == MODULE_RECORD {
            module_entry(after)
        } else {
            Err(Fault::RecordKind { got: kind })
        },
    }
}

/// An expected module.
pub struct ModuleData {
    /// The name of the module.
    pub name: Seq<char>,
    /// The path of its bitcode.
    pub path: Seq<char>,
}

/// The records read so far.
pub struct Collected {
    /// The instances, ordered by identity.
    pub groups: Seq<GroupData>,
    /// The source files, in stream order.
    pub artifacts: Seq<ArtifactRecord>,
    /// The modules, in stream order.
    pub modules: Seq<ModuleData>,
}

/// The number of leading instances before an identity.
pub open spec fn rank(groups: Seq<GroupData>, key: KeyData) -> int
    decreases groups.len(),
{
    if groups.len() > 0 && records::key_less(groups[0].key, key) {
        1 + rank(groups.skip(1), key)
    } else {
        0
    }
}

/// The instances with one more placement, unless its source conflicts with an earlier one.
pub open spec fn with_placement(
    groups: Seq<GroupData>,
    key: KeyData,
    placement: PlacementData,
    source: SourceData,
) -> Option<Seq<GroupData>> {
    let at = rank(groups, key);
    if at < groups.len() && groups[at].key == key {
        let group = groups[at];
        if records::same_source(group.source, source) {
            Some(
                groups.update(
                    at,
                    GroupData { placements: group.placements.push(placement), ..group },
                ),
            )
        } else {
            None
        }
    } else {
        Some(groups.insert(at, GroupData { key, placements: seq![placement], source }))
    }
}

/// A path names an immediate file of a directory.
pub open spec fn immediate_file(path: Seq<char>, directory: Seq<Part>) -> bool {
    let parts = paths::text_parts(path);
    parts.len() > 0 && parts.last() is Normal && parts.drop_last() == directory
}

/// A module repeats the name or the path of an earlier one.
pub open spec fn repeats(modules: Seq<ModuleData>, name: Seq<char>, path: Seq<char>) -> bool {
    exists|i: int|
        0 <= i < modules.len() && ((#[trigger] modules[i]).name == name || paths::text_parts(
            modules[i].path,
        ) == paths::text_parts(path))
}

/// A source file repeats an earlier identity.
pub open spec fn repeats_id(artifacts: Seq<ArtifactRecord>, id: u64) -> bool {
    exists|i: int| 0 <= i < artifacts.len() && (#[trigger] artifacts[i]).id == id
}

/// The records with one more entry, unless it breaks a rule.
pub open spec fn accepted(
    collected: Collected,
    entry: Entry,
    unsupported: bool,
    directory: Seq<Part>,
) -> Result<Collected, SpecFault> {
    match entry {
        Entry::Placement { key, placement, source } => match with_placement(
            collected.groups,
            key,
            placement,
            source,
        ) {
            None => Err(Fault::ConflictingSources),
            Some(groups) => Ok(Collected { groups, ..collected }),
        },
        Entry::SourceFile { id, length } => if repeats_id(collected.artifacts, id) {
            Err(Fault::DuplicateArtifact)
        } else {
            Ok(
                Collected {
                    artifacts: collected.artifacts.push(
                        ArtifactRecord { id, kind: ArtifactKind::Source, length },
                    ),
                    ..collected
                },
            )
        },
        Entry::Module { name, path } => if unsupported {
            Err(Fault::UnsupportedModule)
        } else if name.len() == 0 || !immediate_file(path, directory) {
            Err(Fault::ModulePath { got: path })
        } else if repeats(collected.modules, name, path) {
            Err(Fault::DuplicateModule)
        } else {
            Ok(Collected { modules: collected.modules.push(ModuleData { name, path }), ..collected })
        },
    }
}

/// The entries of a stream through its end, on top of the records read so far.
pub open spec fn entries(
    input: Input,
    collected: Collected,
    unsupported: bool,
    directory: Seq<Part>,
) -> Result<Collected, SpecFault>
    decreases input.rest.len(),
{
    match entry(input) {
        Err(fault) => Err(fault),
        Ok((None, after)) => match wire::ended(after) {
            Err(error) => Err(Fault::Read(error)),
            Ok(false) => Err(Fault::TrailingBytes),
            Ok(true) => Ok(collected),
        },
        Ok((Some(next), after)) => match accepted(collected, next, unsupported, directory) {
            Err(fault) => Err(fault),
            Ok(more) => {
                proof {
                    entry_shortens(input);
                }
                entries(after, more, unsupported, directory)
            },
        },
    }
}

/// No records yet.
pub open spec fn nothing() -> Collected {
    Collected { groups: Seq::empty(), artifacts: Seq::empty(), modules: Seq::empty() }
}

/// The private directory of the attempt that a manifest lies in.
pub open spec fn llvm_directory(path: Seq<char>) -> Seq<Part> {
    if has_parent(path) {
        paths::text_parts(path).drop_last().push(Part::Normal(vstd::utf8::encode_utf8("llvm"@)))
    } else {
        Seq::empty()
    }
}

/// A path names something in a directory.
pub open spec fn has_parent(path: Seq<char>) -> bool {
    let parts = paths::text_parts(path);
    parts.len() > 0 && !(parts.last() is Root)
}

/// Behind the records read so far a module of a supported configuration is read.
pub open spec fn module_follows(input: Input, collected: Collected, unsupported: bool) -> bool
    decreases input.rest.len(),
{
    match entry(input) {
        Err(_) => false,
        Ok((None, _)) => false,
        Ok((Some(Entry::Module { .. }), _)) => !unsupported,
        Ok((Some(next), after)) => match accepted(collected, next, unsupported, Seq::empty()) {
            Err(_) => false,
            Ok(more) => {
                proof {
                    entry_shortens(input);
                }
                module_follows(after, more, unsupported)
            },
        },
    }
}

/// A module of a supported configuration is read from a stream. Only then does the place of the
/// manifest count.
pub open spec fn reads_module(input: Input, marker: Seq<char>) -> bool {
    match header(input, marker) {
        Err(_) => false,
        Ok((_, i1)) => match configuration(i1) {
            Err(_) => false,
            Ok((configuration, i2)) => module_follows(
                i2,
                nothing(),
                configuration.unsupported is Some,
            ),
        },
    }
}

/// A complete manifest.
pub struct ManifestData {
    /// The effective configuration.
    pub configuration: ConfigurationData,
    /// The records behind it.
    pub collected: Collected,
}

/// The manifest that a stream holds.
pub open spec fn manifest(input: Input, path: Seq<char>, marker: Seq<char>) -> Result<
    ManifestData,
    SpecFault,
> {
    match header(input, marker) {
        Err(fault) => Err(fault),
        Ok((_, i1)) => match configuration(i1) {
            Err(fault) => Err(fault),
            Ok((configuration, i2)) => match entries(
                i2,
                nothing(),
                configuration.unsupported is Some,
                llvm_directory(path),
            ) {
                Err(fault) => Err(fault),
                Ok(collected) => Ok(ManifestData { configuration, collected }),
            },
        },
    }
}

/// An entry takes at least its kind from the input.
pub proof fn entry_shortens(input: Input)
    ensures
        entry(input) matches Ok((_, after)) ==> after.rest.len() < input.rest.len(),
{
}

/// Private transport metadata of one compiler session.
#[derive(Debug)]
pub struct Configuration {
    /// The initialized backend's reported name.
    pub backend: String,
    /// The effective target tuple or target-specification identity.
    pub target: String,
    /// The compiler's effective optimization level, not the Cargo profile name.
    pub optimization: String,
    /// The LTO mode computed by the selected compiler session.
    pub lto: LlvmLto,
    /// Whether this invocation has an incremental compilation directory.
    pub incremental: bool,
    /// Whether this invocation delegates LTO to the linker plugin.
    pub linker_plugin: bool,
    /// The configured CGU count, not the count of expected modules.
    pub codegen_units: u32,
    /// A reason classified before extra temporary files were requested.
    pub unsupported: Option<UnsupportedLlvmConfiguration>,
}

impl View for Configuration {
    type V = ConfigurationData;

    open spec fn view(&self) -> ConfigurationData {
        ConfigurationData {
            backend: self.backend@,
            target: self.target@,
            optimization: self.optimization@,
            lto: self.lto,
            incremental: self.incremental,
            linker_plugin: self.linker_plugin,
            codegen_units: self.codegen_units,
            unsupported: self.unsupported,
        }
    }
}

/// One expected regular codegen unit.
#[derive(Debug)]
pub struct ExpectedModule {
    /// The regular CGU identity.
    pub name: String,
    /// One expected file in the attempt's private LLVM directory.
    pub path: String,
}

impl View for ExpectedModule {
    type V = ModuleData;

    open spec fn view(&self) -> ModuleData {
        ModuleData { name: self.name@, path: self.path@ }
    }
}

/// A decoded manifest.
#[derive(Debug)]
pub struct CompilerManifest {
    /// Grouped instances with their required source relationship.
    pub instances: Vec<InstanceRecord>,
    /// Source snapshots already written to generated filenames in the attempt directory.
    pub artifacts: Vec<ArtifactRecord>,
    /// Effective compiler configuration before conversion to durable provenance.
    pub configuration: Configuration,
    /// Every expected regular compiler module, independent of the function placements.
    pub modules: Vec<ExpectedModule>,
}

/// The mathematical instances of a list.
pub open spec fn group_views(instances: Seq<InstanceRecord>) -> Seq<GroupData> {
    instances.map_values(|instance: InstanceRecord| instance@)
}

/// The mathematical modules of a list.
pub open spec fn module_views(modules: Seq<ExpectedModule>) -> Seq<ModuleData> {
    modules.map_values(|module: ExpectedModule| module@)
}

impl View for CompilerManifest {
    type V = ManifestData;

    open spec fn view(&self) -> ManifestData {
        ManifestData {
            configuration: self.configuration@,
            collected: Collected {
                groups: group_views(self.instances@),
                artifacts: self.artifacts@,
                modules: module_views(self.modules@),
            },
        }
    }
}

/// A decoding step agrees with the mathematical one.
pub open spec fn agrees<T, U>(
    result: Result<T, ManifestFault>,
    after: Input,
    expected: Step<U>,
    same: spec_fn(T, U) -> bool,
) -> bool {
    match (result, expected) {
        (Ok(value), Ok((meant, behind))) => same(value, meant) && after == behind,
        (Err(fault), Err(meant)) => fault@ == meant,
        _ => false,
    }
}

/// The instances are strictly ordered by identity.
pub open spec fn ordered(groups: Seq<GroupData>) -> bool {
    forall|i: int, j: int|
        0 <= i < j < groups.len() ==> records::key_less(
            (#[trigger] groups[i]).key,
            (#[trigger] groups[j]).key,
        )
}

/// In an ordered list the rank is where the smaller identities end.
pub proof fn rank_is(groups: Seq<GroupData>, key: KeyData, at: int)
    requires
        0 <= at <= groups.len(),
        forall|i: int| 0 <= i < at ==> records::key_less((#[trigger] groups[i]).key, key),
        at < groups.len() ==> !records::key_less(groups[at].key, key),
    ensures
        rank(groups, key) == at,
    decreases groups.len(),
{
    if at > 0 {
        assert(records::key_less(groups[0].key, key));
        let tail = groups.skip(1);
        assert forall|i: int| 0 <= i < at - 1 implies records::key_less(
            (#[trigger] tail[i]).key,
            key,
        ) by {
            assert(tail[i] == groups[i + 1]);
        }
        rank_is(tail, key, at - 1);
    }
}

/// The rank lies in the list, behind the smaller identities.
pub proof fn rank_bounds(groups: Seq<GroupData>, key: KeyData)
    ensures
        0 <= rank(groups, key) <= groups.len(),
        forall|i: int|
            0 <= i < rank(groups, key) ==> records::key_less(
                (#[trigger] groups[i]).key,
                key,
            ),
        rank(groups, key) < groups.len() ==> !records::key_less(
            groups[rank(groups, key)].key,
            key,
        ),
    decreases groups.len(),
{
    if groups.len() > 0 && records::key_less(groups[0].key, key) {
        let tail = groups.skip(1);
        rank_bounds(tail, key);
        assert forall|i: int| 0 <= i < rank(groups, key) implies records::key_less(
            (#[trigger] groups[i]).key,
            key,
        ) by {
            if i > 0 {
                assert(tail[i - 1] == groups[i]);
            }
        }
    }
}

/// A further placement keeps the instances ordered.
pub proof fn placement_keeps_order(
    groups: Seq<GroupData>,
    key: KeyData,
    placement: PlacementData,
    source: SourceData,
)
    requires
        ordered(groups),
    ensures
        with_placement(groups, key, placement, source) matches Some(more) ==> ordered(more),
{
    let at = rank(groups, key);
    rank_bounds(groups, key);
    if at < groups.len() && groups[at].key == key {
        if let Some(more) = with_placement(groups, key, placement, source) {
            assert forall|i: int, j: int| 0 <= i < j < more.len() implies records::key_less(
                (#[trigger] more[i]).key,
                (#[trigger] more[j]).key,
            ) by {
                assert(more[i].key == groups[i].key);
                assert(more[j].key == groups[j].key);
            }
        }
    } else {
        let group = GroupData { key, placements: seq![placement], source };
        let more = groups.insert(at, group);
        assert forall|i: int| at <= i < groups.len() implies records::key_less(
            key,
            (#[trigger] groups[i]).key,
        ) by {
            records::key_less_is_strict(groups[at].key, key);
            if i > at {
                records::key_less_is_transitive(key, groups[at].key, groups[i].key);
            }
        }
        assert forall|i: int, j: int| 0 <= i < j < more.len() implies records::key_less(
            (#[trigger] more[i]).key,
            (#[trigger] more[j]).key,
        ) by {
            let from = |k: int| if k < at { k } else { k - 1 };
            if i != at {
                assert(more[i] == groups[from(i)]);
            }
            if j != at {
                assert(more[j] == groups[from(j)]);
            }
        }
    }
}

/// Decodes one invocation's stream.
pub struct ManifestDecoder<R: ByteSource> {
    directory: Vec<Component>,
    in_attempt: bool,
    reader: Reader<R>,
    marker: String,
}

/// An instance identity with its texts.
struct InstanceKey {
    definition_crate: String,
    definition_path: String,
    display_name: String,
    raw_symbol: String,
}

impl InstanceKey {
    spec fn key(self) -> KeyData {
        KeyData {
            definition_crate: self.definition_crate@,
            definition_path: self.definition_path@,
            display_name: self.display_name@,
            raw_symbol: self.raw_symbol@,
        }
    }
}

impl<R: ByteSource> ManifestDecoder<R> {
    /// What the decoder has yet to read.
    pub closed spec fn input(&self) -> Input {
        self.reader.input()
    }

    /// The private directory of the attempt.
    pub closed spec fn private_directory(&self) -> Seq<Part> {
        paths::views(self.directory@)
    }

    /// The manifest lies inside an attempt directory.
    pub closed spec fn has_directory(&self) -> bool {
        self.in_attempt
    }

    /// The marker of the analysis.
    pub closed spec fn expected_marker(&self) -> Seq<char> {
        self.marker@
    }

    /// Associates a stream with the manifest path and selected marker of its collection attempt.
    ///
    /// The path **must** lie inside the attempt directory if modules are read.
    pub fn new(path: &str, source: R, marker: &str) -> (result: Self)
        ensures
            result.has_directory() == has_parent(path@),
            result.input() == wire::input_of(source),
            result.private_directory() == llvm_directory(path@),
            result.expected_marker() == marker@,
    {
        let mut directory = components(path);
        let ghost before = directory@;
        let in_attempt = match directory.pop() {
            None => false,
            Some(last) => !matches!(last, Component::Root),
        };
        if in_attempt {
            assert(paths::views(directory@) =~= paths::views(before).drop_last());
            let name: Vec<u8> = bytes_of("llvm");
            directory.push(Component::Normal(name));
        } else {
            directory = Vec::new();
        }
        assert(paths::views(directory@) =~= llvm_directory(path@));
        let reader = Reader::new(source);
        ManifestDecoder { directory, in_attempt, reader, marker: marker.to_owned() }
    }

    /// Reads one complete manifest and rejects partial or trailing data.
    pub fn read(self) -> (result: Result<CompilerManifest, ManifestFault>)
        requires
            self.has_directory() || !reads_module(self.input(), self.expected_marker()),
        ensures
            match (result, decoded(self)) {
                (Ok(manifest), Ok(expected)) => manifest@ == expected,
                (Err(fault), Err(expected)) => fault@ == expected,
                _ => false,
            },
    {
        let mut decoder = self;
        match decoder.read_header() {
            Err(fault) => {
                return Err(fault);
            },
            Ok(()) => {},
        }
        let configuration = match decoder.read_configuration() {
            Err(fault) => {
                return Err(fault);
            },
            Ok(configuration) => configuration,
        };
        decoder.read_entries(configuration)
    }

    fn read_entries(self, configuration: Configuration) -> (result: Result<
        CompilerManifest,
        ManifestFault,
    >)
        requires
            self.has_directory() || !module_follows(
                self.input(),
                nothing(),
                configuration@.unsupported is Some,
            ),
        ensures
            match (
                result,
                entries(
                    self.input(),
                    nothing(),
                    configuration@.unsupported is Some,
                    self.private_directory(),
                ),
            ) {
                (Ok(manifest), Ok(expected)) => manifest@ == (ManifestData {
                    configuration: configuration@,
                    collected: expected,
                }),
                (Err(fault), Err(expected)) => fault@ == expected,
                _ => false,
            },
    {
        let mut decoder = self;
        let mut instances: Vec<InstanceRecord> = Vec::new();
        let mut artifacts: Vec<ArtifactRecord> = Vec::new();
        let mut modules: Vec<ExpectedModule> = Vec::new();
        let ghost unsupported = configuration.unsupported is Some;
        let ghost directory = decoder.private_directory();
        assert(group_views(instances@) =~= Seq::empty());
        assert(module_views(modules@) =~= Seq::empty());
        assert(artifacts@ =~= Seq::empty());
        loop
            invariant
                decoder.private_directory() == directory,
                directory == self.private_directory(),
                decoder.has_directory() || !module_follows(
                    decoder.input(),
                    Collected {
                        groups: group_views(instances@),
                        artifacts: artifacts@,
                        modules: module_views(modules@),
                    },
                    unsupported,
                ),
                unsupported == (configuration.unsupported is Some),
                ordered(group_views(instances@)),
                entries(
                    decoder.input(),
                    Collected {
                        groups: group_views(instances@),
                        artifacts: artifacts@,
                        modules: module_views(modules@),
                    },
                    unsupported,
                    directory,
                ) == entries(self.input(), nothing(), unsupported, directory),
            decreases decoder.input().rest.len(),
        {
            proof {
                entry_shortens(decoder.input());
            }
            let kind: u32 = match decoder.read_u32(Field::RecordKind) {
                Err(fault) => {
                    return Err(fault);
                },
                Ok(kind) => kind,
            };
            if kind == END_RECORD {
                return match decoder.reader.at_end() {
                    Err(error) => Err(Fault::Read(error)),
                    Ok(false) => Err(Fault::TrailingBytes),
                    Ok(true) => Ok(CompilerManifest { instances, artifacts, configuration, modules }),
                };
            }
            if kind == PLACEMENT_RECORD {
                match decoder.read_instance_placement(&mut instances) {
                    Err(fault) => {
                        return Err(fault);
                    },
                    Ok(()) => {},
                }
            } else if kind == SOURCE_FILE_RECORD {
                match decoder.read_source_file(&mut artifacts) {
                    Err(fault) => {
                        return Err(fault);
                    },
                    Ok(()) => {},
                }
            } else if kind == MODULE_RECORD {
                match decoder.read_expected_module(
                    configuration.unsupported.is_some(),
                    &mut modules,
                ) {
                    Err(fault) => {
                        return Err(fault);
                    },
                    Ok(()) => {},
                }
            } else {
                return Err(Fault::RecordKind { got: kind });
            }
        }
    }

    fn read_instance_placement(&mut self, instances: &mut Vec<InstanceRecord>) -> (result: Result<
        (),
        ManifestFault,
    >)
        requires
            ordered(group_views(old(instances)@)),
        ensures
            final(self).private_directory() == old(self).private_directory(),
            final(self).has_directory() == old(self).has_directory(),
            ordered(group_views(final(instances)@)),
            match placement_entry(old(self).input()) {
                Err(expected) => result matches Err(fault) && fault@ == expected,
                Ok((entry, after)) => match with_placement(
                    group_views(old(instances)@),
                    entry->0->key,
                    entry->0->placement,
                    entry->0->source,
                ) {
                    None => result matches Err(fault) && fault@ == SpecFault::ConflictingSources,
                    Some(groups) => result is Ok && group_views(final(instances)@) == groups
                        && final(self).input() == after,
                },
            },
    {
        let key = match self.read_key() {
            Err(fault) => {
                return Err(fault);
            },
            Ok(key) => key,
        };
        let placement = match self.read_placement() {
            Err(fault) => {
                return Err(fault);
            },
            Ok(placement) => placement,
        };
        let source = match self.read_source() {
            Err(fault) => {
                return Err(fault);
            },
            Ok(source) => source,
        };
        if add_placement(instances, key, placement, source) {
            Ok(())
        } else {
            Err(Fault::ConflictingSources)
        }
    }

    fn read_source_file(&mut self, artifacts: &mut Vec<ArtifactRecord>) -> (result: Result<
        (),
        ManifestFault,
    >)
        ensures
            final(self).private_directory() == old(self).private_directory(),
            final(self).has_directory() == old(self).has_directory(),
            match source_file_entry(old(self).input()) {
                Err(expected) => result matches Err(fault) && fault@ == expected,
                Ok((entry, after)) => if repeats_id(old(artifacts)@, entry->0->id) {
                    result matches Err(fault) && fault@ == SpecFault::DuplicateArtifact
                } else {
                    &&& result is Ok
                    &&& final(artifacts)@ == old(artifacts)@.push(
                        ArtifactRecord {
                            id: entry->0->id,
                            kind: ArtifactKind::Source,
                            length: entry->0->length,
                        },
                    )
                    &&& final(self).input() == after
                },
            },
    {
        let id: u64 = match self.read_u64(Field::SourceFileId) {
            Err(fault) => {
                return Err(fault);
            },
            Ok(id) => id,
        };
        let length: u64 = match self.read_u64(Field::SourceFileLength) {
            Err(fault) => {
                return Err(fault);
            },
            Ok(length) => length,
        };
        let mut index: usize = 0;
        while index < artifacts.len()
            invariant
                index <= artifacts@.len(),
                artifacts@ == old(artifacts)@,
                self.private_directory() == old(self).private_directory(),
                self.has_directory() == old(self).has_directory(),
                source_file_entry(old(self).input()) == Ok::<(Option<Entry>, Input), SpecFault>(
                    (Some(Entry::SourceFile { id, length }), self.input()),
                ),
                forall|i: int| 0 <= i < index ==> (#[trigger] artifacts@[i]).id != id,
            decreases artifacts.len() - index,
        {
            if artifacts[index].id == id {
                assert(repeats_id(artifacts@, id));
                return Err(Fault::DuplicateArtifact);
            }
            index += 1;
        }
        artifacts.push(ArtifactRecord { id, kind: ArtifactKind::Source, length });
        Ok(())
    }

    fn read_expected_module(
        &mut self,
        unsupported: bool,
        modules: &mut Vec<ExpectedModule>,
    ) -> (result: Result<(), ManifestFault>)
        requires
            old(self).has_directory() || unsupported || module_entry(old(self).input()) is Err,
        ensures
            final(self).private_directory() == old(self).private_directory(),
            final(self).has_directory() == old(self).has_directory(),
            match module_entry(old(self).input()) {
                Err(expected) => result matches Err(fault) && fault@ == expected,
                Ok((entry, after)) => {
                    let name = entry->0->name;
                    let path = entry->0->Module_path;
                    if unsupported {
                        result matches Err(fault) && fault@ == SpecFault::UnsupportedModule
                    } else if name.len() == 0 || !immediate_file(
                        path,
                        old(self).private_directory(),
                    ) {
                        result matches Err(fault) && fault@ == (SpecFault::ModulePath { got: path })
                    } else if repeats(module_views(old(modules)@), name, path) {
                        result matches Err(fault) && fault@ == SpecFault::DuplicateModule
                    } else {
                        &&& result is Ok
                        &&& module_views(final(modules)@) == module_views(old(modules)@).push(
                            ModuleData { name, path },
                        )
                        &&& final(self).input() == after
                    }
                },
            },
    {
        let name = match self.read_string(Field::ModuleName) {
            Err(fault) => {
                return Err(fault);
            },
            Ok(name) => name,
        };
        let path = match self.read_string(Field::ModulePath) {
            Err(fault) => {
                return Err(fault);
            },
            Ok(path) => path,
        };
        if unsupported {
            return Err(Fault::UnsupportedModule);
        }
        if name.as_str().is_empty() || !is_immediate_file(path.as_str(), &self.directory) {
            return Err(Fault::ModulePath { got: path });
        }
        if is_repeated(modules, name.as_str(), path.as_str()) {
            return Err(Fault::DuplicateModule);
        }
        let ghost before = modules@;
        let module = ExpectedModule { name, path };
        modules.push(module);
        assert(module_views(modules@) =~= module_views(before).push(module@));
        Ok(())
    }

    fn read_configuration(&mut self) -> (result: Result<Configuration, ManifestFault>)
        ensures
            final(self).private_directory() == old(self).private_directory(),
            final(self).has_directory() == old(self).has_directory(),
            agrees(
                result,
                final(self).input(),
                configuration(old(self).input()),
                |value: Configuration, meant: ConfigurationData| value@ == meant,
            ),
    {
        let kind: u32 = match self.read_u32(Field::ConfigurationKind) {
            Err(fault) => {
                return Err(fault);
            },
            Ok(kind) => kind,
        };
        if kind != CONFIGURATION_RECORD {
            return Err(Fault::FirstRecord { got: kind });
        }
        let backend = match self.read_string(Field::Backend) {
            Err(fault) => {
                return Err(fault);
            },
            Ok(backend) => backend,
        };
        let target = match self.read_string(Field::Target) {
            Err(fault) => {
                return Err(fault);
            },
            Ok(target) => target,
        };
        let optimization = match self.read_string(Field::Optimization) {
            Err(fault) => {
                return Err(fault);
            },
            Ok(optimization) => optimization,
        };
        let code: u32 = match self.read_u32(Field::Lto) {
            Err(fault) => {
                return Err(fault);
            },
            Ok(code) => code,
        };
        let lto = match decode_lto(code) {
            None => {
                return Err(Fault::Lto { got: code });
            },
            Some(lto) => lto,
        };
        self.read_configuration_flags(backend, target, optimization, lto)
    }

    fn read_configuration_flags(
        &mut self,
        backend: String,
        target: String,
        optimization: String,
        lto: LlvmLto,
    ) -> (result: Result<Configuration, ManifestFault>)
        ensures
            final(self).private_directory() == old(self).private_directory(),
            final(self).has_directory() == old(self).has_directory(),
            agrees(
                result,
                final(self).input(),
                configuration_flags(old(self).input(), backend@, target@, optimization@, lto),
                |value: Configuration, meant: ConfigurationData| value@ == meant,
            ),
    {
        let incremental = match self.read_bool(Field::Incremental) {
            Err(fault) => {
                return Err(fault);
            },
            Ok(incremental) => incremental,
        };
        let linker_plugin = match self.read_bool(Field::LinkerPlugin) {
            Err(fault) => {
                return Err(fault);
            },
            Ok(linker_plugin) => linker_plugin,
        };
        let codegen_units: u32 = match self.read_u32(Field::CodegenUnits) {
            Err(fault) => {
                return Err(fault);
            },
            Ok(codegen_units) => codegen_units,
        };
        let recipe: u32 = match self.read_u32(Field::Recipe) {
            Err(fault) => {
                return Err(fault);
            },
            Ok(recipe) => recipe,
        };
        if recipe != LLVM_RECIPE_REVISION {
            return Err(Fault::Recipe { got: recipe });
        }
        let code: u32 = match self.read_u32(Field::Support) {
            Err(fault) => {
                return Err(fault);
            },
            Ok(code) => code,
        };
        match decode_support(code) {
            None => Err(Fault::Support { got: code }),
            Some(unsupported) => Ok(
                Configuration {
                    backend,
                    target,
                    optimization,
                    lto,
                    incremental,
                    linker_plugin,
                    codegen_units,
                    unsupported,
                },
            ),
        }
    }

    fn read_source(&mut self) -> (result: Result<SourceAvailability, ManifestFault>)
        ensures
            final(self).private_directory() == old(self).private_directory(),
            final(self).has_directory() == old(self).has_directory(),
            agrees(
                result,
                final(self).input(),
                source(old(self).input()),
                |value: SourceAvailability, meant: SourceData| value@ == meant,
            ),
    {
        let code: u32 = match self.read_u32(Field::SourceAvailability) {
            Err(fault) => {
                return Err(fault);
            },
            Ok(code) => code,
        };
        if code != SOURCE_AVAILABLE {
            return match decode_unavailable(code) {
                None => Err(Fault::Source { got: code }),
                Some(reason) => Ok(SourceAvailability::Unavailable(reason)),
            };
        }
        let artifact: u64 = match self.read_u64(Field::SourceArtifact) {
            Err(fault) => {
                return Err(fault);
            },
            Ok(artifact) => artifact,
        };
        let start: u64 = match self.read_u64(Field::SourceStart) {
            Err(fault) => {
                return Err(fault);
            },
            Ok(start) => start,
        };
        let length: u64 = match self.read_u64(Field::SourceLength) {
            Err(fault) => {
                return Err(fault);
            },
            Ok(length) => length,
        };
        let path = match self.read_string(Field::SourcePath) {
            Err(fault) => {
                return Err(fault);
            },
            Ok(path) => path,
        };
        let line: u64 = match self.read_u64(Field::SourceLine) {
            Err(fault) => {
                return Err(fault);
            },
            Ok(line) => line,
        };
        match ByteRange::new(start, length) {
            Err(_) => Err(Fault::Range),
            Ok(range) => Ok(
                SourceAvailability::Available(SourceRecord { artifact, range, path, line }),
            ),
        }
    }

    /// Reads the header, which belongs to exactly one analysis.
    pub fn read_header(&mut self) -> (result: Result<(), ManifestFault>)
        ensures
            final(self).private_directory() == old(self).private_directory(),
            final(self).has_directory() == old(self).has_directory(),
            final(self).expected_marker() == old(self).expected_marker(),
            agrees(
                result,
                final(self).input(),
                header(old(self).input(), old(self).expected_marker()),
                |value: (), meant: ()| true,
            ),
            wire::text_fits(old(self).expected_marker()) ==> (result is Ok
                <==> framing_laws::starts_with(
                old(self).input(),
                protocol::header_bytes(old(self).expected_marker()),
            )),
            wire::text_fits(old(self).expected_marker()) && result is Ok ==> final(self).input()
                == wire::behind(
                old(self).input(),
                protocol::header_bytes(old(self).expected_marker()).len(),
            ),
            forall|written: Seq<char>|
                wire::text_fits(written) && written != old(self).expected_marker()
                    && framing_laws::starts_with(
                    old(self).input(),
                    #[trigger] protocol::header_bytes(written),
                ) ==> result is Err && result->Err_0@ == (SpecFault::Marker { got: written }),
    {
        let ghost input = self.input();
        let ghost marker = self.expected_marker();
        proof {
            if wire::text_fits(marker) {
                framing_laws::headers_belong_to_their_marker(input, marker);
            }
            assert forall|written: Seq<char>|
                wire::text_fits(written) && written != marker && framing_laws::starts_with(
                    input,
                    #[trigger] protocol::header_bytes(written),
                ) implies header(input, marker) == Err::<((), Input), SpecFault>(
                SpecFault::Marker { got: written },
            ) by {
                framing_laws::foreign_headers_are_refused(input, written, marker);
            }
        }
        self.decode_header()
    }

    fn decode_header(&mut self) -> (result: Result<(), ManifestFault>)
        ensures
            final(self).expected_marker() == old(self).expected_marker(),
            final(self).private_directory() == old(self).private_directory(),
            final(self).has_directory() == old(self).has_directory(),
            agrees(
                result,
                final(self).input(),
                header(old(self).input(), old(self).expected_marker()),
                |value: (), meant: ()| true,
            ),
    {
        let magic = match self.read_exact(16, Field::ManifestHeader) {
            Err(fault) => {
                return Err(fault);
            },
            Ok(magic) => magic,
        };
        if !crate::bytes::same(&magic, &MANIFEST_MAGIC) {
            return Err(Fault::Magic { got: magic });
        }
        let version: u32 = match self.read_u32(Field::ProtocolVersion) {
            Err(fault) => {
                return Err(fault);
            },
            Ok(version) => version,
        };
        if version != PROTOCOL_VERSION {
            return Err(Fault::Version { got: version });
        }
        let marker = match self.read_string(Field::SelectedMarker) {
            Err(fault) => {
                return Err(fault);
            },
            Ok(marker) => marker,
        };
        if marker != self.marker {
            return Err(Fault::Marker { got: marker });
        }
        Ok(())
    }

    fn read_key(&mut self) -> (result: Result<InstanceKey, ManifestFault>)
        ensures
            final(self).private_directory() == old(self).private_directory(),
            final(self).has_directory() == old(self).has_directory(),
            agrees(
                result,
                final(self).input(),
                key(old(self).input()),
                |value: InstanceKey, meant: KeyData| value.key() == meant,
            ),
    {
        let definition_crate = match self.read_string(Field::DefinitionCrate) {
            Err(fault) => {
                return Err(fault);
            },
            Ok(text) => text,
        };
        let definition_path = match self.read_string(Field::DefinitionPath) {
            Err(fault) => {
                return Err(fault);
            },
            Ok(text) => text,
        };
        let display_name = match self.read_string(Field::DisplayName) {
            Err(fault) => {
                return Err(fault);
            },
            Ok(text) => text,
        };
        match self.read_string(Field::RawSymbol) {
            Err(fault) => Err(fault),
            Ok(raw_symbol) => Ok(
                InstanceKey { definition_crate, definition_path, display_name, raw_symbol },
            ),
        }
    }

    fn read_placement(&mut self) -> (result: Result<PlacementRecord, ManifestFault>)
        ensures
            final(self).private_directory() == old(self).private_directory(),
            final(self).has_directory() == old(self).has_directory(),
            agrees(
                result,
                final(self).input(),
                placement(old(self).input()),
                |value: PlacementRecord, meant: PlacementData| value@ == meant,
            ),
    {
        let codegen_unit = match self.read_string(Field::CodegenUnit) {
            Err(fault) => {
                return Err(fault);
            },
            Ok(text) => text,
        };
        let linkage = match self.read_string(Field::Linkage) {
            Err(fault) => {
                return Err(fault);
            },
            Ok(text) => text,
        };
        let visibility = match self.read_string(Field::Visibility) {
            Err(fault) => {
                return Err(fault);
            },
            Ok(text) => text,
        };
        let local_copy = match self.read_bool(Field::LocalCopy) {
            Err(fault) => {
                return Err(fault);
            },
            Ok(local_copy) => local_copy,
        };
        match self.read_u64(Field::SizeEstimate) {
            Err(fault) => Err(fault),
            Ok(size_estimate) => Ok(
                PlacementRecord { codegen_unit, linkage, visibility, local_copy, size_estimate },
            ),
        }
    }

    fn read_string(&mut self, field: Field) -> (result: Result<String, ManifestFault>)
        ensures
            final(self).private_directory() == old(self).private_directory(),
            final(self).has_directory() == old(self).has_directory(),
            final(self).expected_marker() == old(self).expected_marker(),
            agrees(
                result,
                final(self).input(),
                text(old(self).input(), field),
                |value: String, meant: Seq<char>| value@ == meant,
            ),
    {
        let length: u32 = match self.read_u32(field) {
            Err(fault) => {
                return Err(fault);
            },
            Ok(length) => length,
        };
        let bytes = match self.read_exact(length as usize, field) {
            Err(fault) => {
                return Err(fault);
            },
            Ok(bytes) => bytes,
        };
        match utf8_text(bytes) {
            Ok(text) => Ok(text),
            Err(problem) => Err(Fault::NotUtf8 { field, problem }),
        }
    }

    fn read_bool(&mut self, field: Field) -> (result: Result<bool, ManifestFault>)
        ensures
            final(self).private_directory() == old(self).private_directory(),
            final(self).has_directory() == old(self).has_directory(),
            agrees(
                result,
                final(self).input(),
                flag(old(self).input(), field),
                |value: bool, meant: bool| value == meant,
            ),
    {
        match self.read_u32(field) {
            Err(fault) => Err(fault),
            Ok(got) => if got == 0 {
                Ok(false)
            } else if got == 1 {
                Ok(true)
            } else {
                Err(Fault::Flag { field, got })
            },
        }
    }

    fn read_u32(&mut self, field: Field) -> (result: Result<u32, ManifestFault>)
        ensures
            final(self).private_directory() == old(self).private_directory(),
            final(self).has_directory() == old(self).has_directory(),
            final(self).expected_marker() == old(self).expected_marker(),
            agrees(
                result,
                final(self).input(),
                number(old(self).input(), field),
                |value: u32, meant: u32| value == meant,
            ),
    {
        match self.reader.read_u32() {
            Ok(value) => Ok(value),
            Err(ReadFault::Truncated) => Err(Fault::Truncated(field)),
            Err(ReadFault::Failed(error)) => Err(Fault::Read(error)),
        }
    }

    fn read_u64(&mut self, field: Field) -> (result: Result<u64, ManifestFault>)
        ensures
            final(self).private_directory() == old(self).private_directory(),
            final(self).has_directory() == old(self).has_directory(),
            agrees(
                result,
                final(self).input(),
                long(old(self).input(), field),
                |value: u64, meant: u64| value == meant,
            ),
    {
        match self.reader.read_u64() {
            Ok(value) => Ok(value),
            Err(ReadFault::Truncated) => Err(Fault::Truncated(field)),
            Err(ReadFault::Failed(error)) => Err(Fault::Read(error)),
        }
    }

    fn read_exact(&mut self, count: usize, field: Field) -> (result: Result<
        Vec<u8>,
        ManifestFault,
    >)
        ensures
            final(self).private_directory() == old(self).private_directory(),
            final(self).has_directory() == old(self).has_directory(),
            final(self).expected_marker() == old(self).expected_marker(),
            agrees(
                result,
                final(self).input(),
                exact(old(self).input(), count as nat, field),
                |value: Vec<u8>, meant: Seq<u8>| value@ == meant,
            ),
    {
        match self.reader.read_exact(count) {
            Ok(bytes) => Ok(bytes),
            Err(ReadFault::Truncated) => Err(Fault::Truncated(field)),
            Err(ReadFault::Failed(error)) => Err(Fault::Read(error)),
        }
    }
}

/// The manifest that the rest of a decoder's stream holds.
pub open spec fn decoded<R: ByteSource>(decoder: ManifestDecoder<R>) -> Result<
    ManifestData,
    SpecFault,
> {
    match header(decoder.input(), decoder.expected_marker()) {
        Err(fault) => Err(fault),
        Ok((_, i1)) => match configuration(i1) {
            Err(fault) => Err(fault),
            Ok((configuration, i2)) => match entries(
                i2,
                nothing(),
                configuration.unsupported is Some,
                decoder.private_directory(),
            ) {
                Err(fault) => Err(fault),
                Ok(collected) => Ok(ManifestData { configuration, collected }),
            },
        },
    }
}

/// Decodes the manifest of a source.
pub fn read_manifest<R: ByteSource>(source: R, path: &str, marker: &str) -> (result: Result<
    CompilerManifest,
    ManifestFault,
>)
    requires
        has_parent(path@) || !reads_module(wire::input_of(source), marker@),
    ensures
        match (
            result,
            manifest(
                wire::input_of(source),
                path@,
                marker@,
            ),
        ) {
            (Ok(manifest), Ok(expected)) => manifest@ == expected,
            (Err(fault), Err(expected)) => fault@ == expected,
            _ => false,
        },
{
    ManifestDecoder::new(path, source, marker).read()
}

fn bytes_of(text: &str) -> (result: Vec<u8>)
    ensures
        result@ == vstd::utf8::encode_utf8(text@),
{
    let mut bytes: Vec<u8> = Vec::new();
    wire::put_bytes(&mut bytes, text.as_bytes());
    assert(bytes@ =~= vstd::utf8::encode_utf8(text@));
    bytes
}

fn is_immediate_file(path: &str, directory: &Vec<Component>) -> (result: bool)
    ensures
        result == immediate_file(path@, paths::views(directory@)),
{
    let mut parts = components(path);
    let ghost before = parts@;
    match parts.pop() {
        Some(Component::Normal(_)) => {
            assert(paths::views(before).last() is Normal);
            assert(paths::views(parts@) =~= paths::views(before).drop_last());
            same_components(&parts, directory)
        },
        Some(_) => {
            assert(!(paths::views(before).last() is Normal));
            false
        },
        None => false,
    }
}

fn is_repeated(modules: &Vec<ExpectedModule>, name: &str, path: &str) -> (result: bool)
    ensures
        result == repeats(module_views(modules@), name@, path@),
{
    let parts = components(path);
    let mut index: usize = 0;
    while index < modules.len()
        invariant
            index <= modules@.len(),
            paths::views(parts@) == paths::text_parts(path@),
            forall|i: int|
                0 <= i < index ==> (#[trigger] module_views(modules@)[i]).name != name@
                    && paths::text_parts(module_views(modules@)[i].path) != paths::text_parts(
                    path@,
                ),
        decreases modules.len() - index,
    {
        if crate::bytes::same(modules[index].name.as_str().as_bytes(), name.as_bytes()) {
            proof {
                vstd::utf8::encode_utf8_decode_utf8(name@);
                vstd::utf8::encode_utf8_decode_utf8(modules@[index as int].name@);
                assert(module_views(modules@)[index as int].name == name@);
            }
            return true;
        }
        if same_components(&components(modules[index].path.as_str()), &parts) {
            assert(paths::text_parts(module_views(modules@)[index as int].path)
                == paths::text_parts(path@));
            return true;
        }
        index += 1;
    }
    false
}

fn is_before(instance: &InstanceRecord, key: &InstanceKey) -> (result: bool)
    ensures
        result == records::key_less(instance@.key, key.key()),
{
    if !same_text(instance.definition_crate.as_str(), key.definition_crate.as_str()) {
        is_text_less(instance.definition_crate.as_str(), key.definition_crate.as_str())
    } else if !same_text(instance.definition_path.as_str(), key.definition_path.as_str()) {
        is_text_less(instance.definition_path.as_str(), key.definition_path.as_str())
    } else if !same_text(instance.display_name.as_str(), key.display_name.as_str()) {
        is_text_less(instance.display_name.as_str(), key.display_name.as_str())
    } else {
        is_text_less(instance.raw_symbol.as_str(), key.raw_symbol.as_str())
    }
}

fn is_identified(instance: &InstanceRecord, key: &InstanceKey) -> (result: bool)
    ensures
        result == (instance@.key == key.key()),
{
    same_text(instance.definition_crate.as_str(), key.definition_crate.as_str()) && same_text(
        instance.definition_path.as_str(),
        key.definition_path.as_str(),
    ) && same_text(instance.display_name.as_str(), key.display_name.as_str()) && same_text(
        instance.raw_symbol.as_str(),
        key.raw_symbol.as_str(),
    )
}

/// Finds where an identity stands or belongs among ordered instances.
fn find(instances: &Vec<InstanceRecord>, key: &InstanceKey) -> (result: usize)
    requires
        ordered(group_views(instances@)),
    ensures
        result == rank(group_views(instances@), key.key()),
        result <= instances@.len(),
{
    let ghost groups = group_views(instances@);
    let mut low: usize = 0;
    let mut high: usize = instances.len();
    while low < high
        invariant
            low <= high <= instances@.len(),
            groups == group_views(instances@),
            ordered(groups),
            forall|i: int|
                0 <= i < low ==> records::key_less((#[trigger] groups[i]).key, key.key()),
            forall|i: int|
                high <= i < groups.len() ==> !records::key_less(
                    (#[trigger] groups[i]).key,
                    key.key(),
                ),
        decreases high - low,
    {
        let middle: usize = low + (high - low) / 2;
        assert(groups[middle as int] == instances@[middle as int]@);
        if is_before(&instances[middle], key) {
            proof {
                assert forall|i: int| 0 <= i < middle + 1 implies records::key_less(
                    (#[trigger] groups[i]).key,
                    key.key(),
                ) by {
                    if i < middle {
                        records::key_less_is_transitive(
                            groups[i].key,
                            groups[middle as int].key,
                            key.key(),
                        );
                    }
                }
            }
            low = middle + 1;
        } else {
            proof {
                assert forall|i: int| middle <= i < groups.len() implies !records::key_less(
                    (#[trigger] groups[i]).key,
                    key.key(),
                ) by {
                    if i > middle && records::key_less(groups[i].key, key.key()) {
                        records::key_less_is_transitive(
                            groups[middle as int].key,
                            groups[i].key,
                            key.key(),
                        );
                    }
                }
            }
            high = middle;
        }
    }
    proof {
        rank_is(groups, key.key(), low as int);
    }
    low
}

/// Adds a placement to its instance and tells whether its source agrees with earlier ones.
fn add_placement(
    instances: &mut Vec<InstanceRecord>,
    key: InstanceKey,
    placement: PlacementRecord,
    source: SourceAvailability,
) -> (result: bool)
    requires
        ordered(group_views(old(instances)@)),
    ensures
        ordered(group_views(final(instances)@)),
        match with_placement(group_views(old(instances)@), key.key(), placement@, source@) {
            Some(groups) => result && group_views(final(instances)@) == groups,
            None => !result,
        },
{
    proof {
        placement_keeps_order(group_views(instances@), key.key(), placement@, source@);
    }
    let at: usize = find(instances, &key);
    let ghost groups = group_views(instances@);
    if at < instances.len() {
        assert(groups[at as int] == instances@[at as int]@);
        if is_identified(&instances[at], &key) {
            if !sources_agree(&instances[at].source, &source) {
                return false;
            }
            let ghost before = instances@[at as int];
            instances[at].placements.push(placement);
            proof {
                assert(records::placement_views(instances@[at as int].placements@) =~= records::placement_views(
                    before.placements@,
                ).push(placement@));
                assert(group_views(instances@) =~= groups.update(
                    at as int,
                    GroupData {
                        placements: groups[at as int].placements.push(placement@),
                        ..groups[at as int]
                    },
                ));
            }
            return true;
        }
    }
    let mut placements: Vec<PlacementRecord> = Vec::new();
    placements.push(placement);
    assert(records::placement_views(placements@) =~= seq![placement@]);
    let instance = InstanceRecord {
        definition_crate: key.definition_crate,
        definition_path: key.definition_path,
        display_name: key.display_name,
        raw_symbol: key.raw_symbol,
        placements,
        source,
    };
    instances.insert(at, instance);
    assert(group_views(instances@) =~= groups.insert(at as int, instance@));
    true
}

} // verus!

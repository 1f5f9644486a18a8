//! Materializes every expected optimized module into immutable textual artifacts.
//!
//! The driver supplies regular codegen-unit identities and exact bitcode paths. Nothing here scans
//! output directories or infers modules from function placements. Unsupported configurations retain
//! source evidence without requesting any additional LLVM artifacts.

use super::driver::FileFacts;
use super::error;
use super::error::{
    filesystem_failure, invalid_environment, EnvironmentProblem, Error, ErrorData, Failure,
};
use super::manifest;
use super::manifest::{CompilerManifest, ExpectedModule, ManifestData, ModuleData};
use super::protocol;
use super::toolchain;
use super::toolchain::{run_program, CompilerIdentity, CompilerIdentityData};
use crate::chars;
use crate::chars::{lines, split_once, strip_prefix, trim};
use crate::llvm_index::model::Cursor;
use crate::llvm_index::scanner;
use crate::llvm_index::scanner::index;
use crate::paths;
use crate::paths::join;
use crate::process::ProcessOutput;
use crate::records::{
    ArtifactKind, ArtifactRecord, Definition, GroupData, InstanceRecord, LlvmDefinitionRecord,
    LlvmLto, UnsupportedLlvmConfiguration,
};
use crate::source::{ByteSource, SourceError};
use crate::text::{push_hex, same_text};
use vstd::prelude::*;
use vstd::string::StringExecFns;

verus! {

/// Effective compiler settings and the matching LLVM version.
#[derive(Debug, PartialEq, Eq)]
pub struct LlvmProvenance {
    /// The backend.
    pub backend: String,
    /// The LLVM version of an LLVM backend.
    pub llvm_version: Option<String>,
    /// The target.
    pub target: String,
    /// The effective optimization level.
    pub optimization: String,
    /// The effective LTO mode.
    pub lto: LlvmLto,
    /// The compilation is incremental.
    pub incremental: bool,
    /// LTO is left to the linker plugin.
    pub linker_plugin_lto: bool,
    /// The configured number of codegen units.
    pub codegen_units: u32,
    /// The revision of the collection recipe.
    pub recipe_revision: u32,
}

/// The mathematical counterpart of [`LlvmProvenance`].
pub struct LlvmProvenanceData {
    /// The backend.
    pub backend: Seq<char>,
    /// The LLVM version of an LLVM backend.
    pub llvm_version: Option<Seq<char>>,
    /// The target.
    pub target: Seq<char>,
    /// The effective optimization level.
    pub optimization: Seq<char>,
    /// The effective LTO mode.
    pub lto: LlvmLto,
    /// The compilation is incremental.
    pub incremental: bool,
    /// LTO is left to the linker plugin.
    pub linker_plugin_lto: bool,
    /// The configured number of codegen units.
    pub codegen_units: u32,
    /// The revision of the collection recipe.
    pub recipe_revision: u32,
}

impl View for LlvmProvenance {
    type V = LlvmProvenanceData;

    open spec fn view(&self) -> LlvmProvenanceData {
        LlvmProvenanceData {
            backend: self.backend@,
            llvm_version: crate::chars::option_view(self.llvm_version),
            target: self.target@,
            optimization: self.optimization@,
            lto: self.lto,
            incremental: self.incremental,
            linker_plugin_lto: self.linker_plugin_lto,
            codegen_units: self.codegen_units,
            recipe_revision: self.recipe_revision,
        }
    }
}

/// The stage at which a module was retained.
#[derive(Clone, Copy, Debug, PartialEq, Eq, Structural)]
pub enum LlvmStage {
    /// Optimized without LTO.
    NoLtoOptimized,
    /// Behind the pass manager of local ThinLTO.
    LocalThinLtoPostPassManager,
}

/// One complete optimized module.
#[derive(Debug)]
pub struct LlvmModuleRecord {
    /// The artifact with the text of the module.
    pub artifact: u64,
    /// The name of the module.
    pub name: String,
    /// The stage at which it was retained.
    pub stage: LlvmStage,
    /// The definitions in its text.
    pub definitions: Vec<LlvmDefinitionRecord>,
}

/// The mathematical counterpart of [`LlvmModuleRecord`].
pub struct LlvmModuleRecordData {
    /// The artifact with the text of the module.
    pub artifact: u64,
    /// The name of the module.
    pub name: Seq<char>,
    /// The stage at which it was retained.
    pub stage: LlvmStage,
    /// The definitions in its text.
    pub definitions: Seq<Definition>,
}

impl View for LlvmModuleRecord {
    type V = LlvmModuleRecordData;

    open spec fn view(&self) -> LlvmModuleRecordData {
        LlvmModuleRecordData {
            artifact: self.artifact,
            name: self.name@,
            stage: self.stage,
            definitions: self.definitions@.map_values(|record: LlvmDefinitionRecord| record@),
        }
    }
}

/// The mathematical counterparts of a list.
pub open spec fn llvm_module_record_list(values: Seq<LlvmModuleRecord>) -> Seq<LlvmModuleRecordData> {
    values.map_values(|value: LlvmModuleRecord| value@)
}

/// Complete optimized modules or the reason no LLVM was requested.
#[derive(Debug)]
pub enum LlvmCollection {
    /// Every expected module.
    Collected(Vec<LlvmModuleRecord>),
    /// Why there are none.
    NotCaptured(UnsupportedLlvmConfiguration),
}

/// The mathematical counterpart of [`LlvmCollection`].
pub enum LlvmCollectionData {
    /// Every expected module.
    Collected(Seq<LlvmModuleRecordData>),
    /// Why there are none.
    NotCaptured(UnsupportedLlvmConfiguration),
}

impl View for LlvmCollection {
    type V = LlvmCollectionData;

    open spec fn view(&self) -> LlvmCollectionData {
        match self {
            LlvmCollection::Collected(modules) => LlvmCollectionData::Collected(
                llvm_module_record_list(modules@),
            ),
            LlvmCollection::NotCaptured(reason) => LlvmCollectionData::NotCaptured(*reason),
        }
    }
}

/// Manifest metadata behind source checks and optimized-module materialization.
#[derive(Debug)]
pub struct CollectedEvidence {
    /// Concrete instances with checked source relationships.
    pub instances: Vec<InstanceRecord>,
    /// Generated source and textual LLVM files retained in the attempt directory.
    pub artifacts: Vec<ArtifactRecord>,
    /// Effective compiler settings and the matching LLVM version.
    pub provenance: LlvmProvenance,
    /// Complete optimized modules or the reason no LLVM was requested.
    pub llvm: LlvmCollection,
}

/// The mathematical counterpart of [`CollectedEvidence`].
pub struct EvidenceData {
    /// Concrete instances with checked source relationships.
    pub instances: Seq<GroupData>,
    /// Generated source and textual LLVM files retained in the attempt directory.
    pub artifacts: Seq<ArtifactRecord>,
    /// Effective compiler settings and the matching LLVM version.
    pub provenance: LlvmProvenanceData,
    /// Complete optimized modules or the reason no LLVM was requested.
    pub llvm: LlvmCollectionData,
}

impl View for CollectedEvidence {
    type V = EvidenceData;

    open spec fn view(&self) -> EvidenceData {
        EvidenceData {
            instances: manifest::group_views(self.instances@),
            artifacts: self.artifacts@,
            provenance: self.provenance@,
            llvm: self.llvm@,
        }
    }
}

/// The generated name of an artifact file.
pub open spec fn artifact_name(id: u64) -> Seq<char> {
    "artifact-"@ + crate::text::hex_digits(id as nat, 16)
}

/// Returns the generated name of an artifact file.
pub fn artifact_file_name(id: u64) -> (result: String)
    ensures
        result@ == artifact_name(id),
{
    let mut name = String::from_str("artifact-");
    push_hex(&mut name, id, 16);
    name
}

/// The path of an artifact file.
pub open spec fn artifact_path(directory: Seq<char>, id: u64) -> Seq<char> {
    paths::joined(directory, artifact_name(id))
}

fn path_of_artifact(directory: &str, id: u64) -> (result: String)
    ensures
        result@ == artifact_path(directory@, id),
{
    let name = artifact_file_name(id);
    join(directory, name.as_str())
}

/// The first line behind a prefix.
pub open spec fn first_behind(lines: Seq<Seq<char>>, prefix: Seq<char>) -> Option<Seq<char>>
    decreases lines.len(),
{
    if lines.len() == 0 {
        None
    } else if chars::behind(lines[0], prefix) is Some {
        chars::behind(lines[0], prefix)
    } else {
        first_behind(lines.skip(1), prefix)
    }
}

/// The LLVM version that a compiler reports.
pub open spec fn compiler_llvm_version(text: Seq<char>) -> Option<Seq<char>> {
    first_behind(chars::lines_of(text), "LLVM version: "@)
}

/// Finds the LLVM version that a compiler reports.
pub fn llvm_version(text: &str) -> (result: Option<String>)
    ensures
        chars::option_view(result) == compiler_llvm_version(text@),
{
    let list = lines(text);
    let ghost all = chars::lines_of(text@);
    let mut index: usize = 0;
    assert(all.skip(0) =~= all);
    while index < list.len()
        invariant
            index <= list@.len(),
            chars::views(list@) == all,
            all == chars::lines_of(text@),
            compiler_llvm_version(text@) == first_behind(
                all.skip(index as int),
                "LLVM version: "@,
            ),
        decreases list.len() - index,
    {
        assert(all.skip(index as int)[0] == list@[index as int]@);
        assert(all.skip(index as int).skip(1) =~= all.skip(index + 1));
        if let Some(version) = strip_prefix(list[index].as_str(), "LLVM version: ") {
            return Some(version);
        }
        index += 1;
    }
    None
}

/// The text before the first dash.
pub open spec fn before_dash(text: Seq<char>) -> Seq<char> {
    match chars::split_first(text, "-"@) {
        Some((before, _)) => before,
        None => text,
    }
}

/// The lines without surrounding white space.
pub open spec fn trimmed_lines(text: Seq<char>) -> Seq<Seq<char>> {
    chars::lines_of(text).map_values(|line: Seq<char>| chars::trimmed(line))
}

/// The LLVM version that a disassembler reports.
pub open spec fn tool_version(text: Seq<char>) -> Option<Seq<char>> {
    match first_behind(trimmed_lines(text), "LLVM version "@) {
        Some(version) => Some(before_dash(version)),
        None => None,
    }
}

/// Finds the LLVM version that a disassembler reports.
///
/// The tools of a Rust distribution append their release label to LLVM's numeric version.
pub fn disassembler_version(text: &str) -> (result: Option<String>)
    ensures
        chars::option_view(result) == tool_version(text@),
{
    let list = lines(text);
    let ghost all = trimmed_lines(text@);
    let mut index: usize = 0;
    assert(all.skip(0) =~= all);
    while index < list.len()
        invariant
            index <= list@.len(),
            chars::views(list@) == chars::lines_of(text@),
            all == trimmed_lines(text@),
            all.len() == list@.len(),
            first_behind(all, "LLVM version "@) == first_behind(
                all.skip(index as int),
                "LLVM version "@,
            ),
        decreases list.len() - index,
    {
        assert(chars::lines_of(text@)[index as int] == list@[index as int]@);
        assert(all.skip(index as int)[0] == chars::trimmed(list@[index as int]@));
        assert(all.skip(index as int).skip(1) =~= all.skip(index + 1));
        let line = trim(list[index].as_str());
        if let Some(version) = strip_prefix(line.as_str(), "LLVM version ") {
            return match split_once(version.as_str(), "-") {
                Some((before, _)) => Some(before),
                None => Some(version),
            };
        }
        index += 1;
    }
    None
}

/// The verdict on a compiler artifact: its length.
pub open spec fn regular_length(path: Seq<char>, found: Result<FileFacts, SourceError>) -> Result<
    u64,
    ErrorData,
> {
    match found {
        Err(source) => Err(error::filesystem("inspect compiler artifact"@, path, source)),
        Ok(facts) => if !facts.is_file {
            Err(Failure::NotRegular { path })
        } else {
            Ok(facts.length)
        },
    }
}

/// Requires a regular file and returns its length.
pub fn regular_file(path: &str, found: Result<FileFacts, SourceError>) -> (result: Result<u64, Error>)
    ensures
        match (result, regular_length(path@, found)) {
            (Ok(length), Ok(expected)) => length == expected,
            (Err(error), Err(expected)) => error@ == expected,
            _ => false,
        },
{
    match found {
        Err(source) => Err(filesystem_failure("inspect compiler artifact", path, source)),
        Ok(facts) => if !facts.is_file {
            Err(Failure::NotRegular { path: String::from_str(path) })
        } else {
            Ok(facts.length)
        },
    }
}

/// The disassembler of a compiler.
pub open spec fn disassembler_of(compiler: CompilerIdentityData) -> Seq<char> {
    paths::joined(
        paths::joined(paths::joined(compiler.sysroot, "lib/rustlib"@), compiler.host),
        "bin/llvm-dis"@,
    )
}

/// Returns the disassembler of a compiler.
pub fn disassembler(compiler: &CompilerIdentity) -> (result: String)
    ensures
        result@ == disassembler_of(compiler@),
{
    let lib = join(compiler.sysroot.as_str(), "lib/rustlib");
    let host = join(lib.as_str(), compiler.host.as_str());
    join(host.as_str(), "bin/llvm-dis")
}

/// The stage of an LTO mode.
pub open spec fn stage_of(lto: LlvmLto) -> Option<LlvmStage> {
    match lto {
        LlvmLto::Off => Some(LlvmStage::NoLtoOptimized),
        LlvmLto::LocalThin => Some(LlvmStage::LocalThinLtoPostPassManager),
        _ => None,
    }
}

/// The highest identity of artifacts.
pub open spec fn highest(artifacts: Seq<ArtifactRecord>) -> Option<u64>
    decreases artifacts.len(),
{
    if artifacts.len() == 0 {
        None
    } else {
        match highest(artifacts.drop_last()) {
            None => Some(artifacts.last().id),
            Some(id) => Some(
                if artifacts.last().id >= id {
                    artifacts.last().id
                } else {
                    id
                },
            ),
        }
    }
}

fn highest_id(artifacts: &Vec<ArtifactRecord>) -> (result: Option<u64>)
    ensures
        result == highest(artifacts@),
{
    let mut best: Option<u64> = None;
    let mut index: usize = 0;
    assert(artifacts@.take(0) =~= Seq::<ArtifactRecord>::empty());
    while index < artifacts.len()
        invariant
            index <= artifacts@.len(),
            best == highest(artifacts@.take(index as int)),
        decreases artifacts.len() - index,
    {
        let id: u64 = artifacts[index].id;
        assert(artifacts@.take(index + 1).drop_last() =~= artifacts@.take(index as int));
        best =
        match best {
            None => Some(id),
            Some(other) => if id >= other {
                Some(id)
            } else {
                Some(other)
            },
        };
        index += 1;
    }
    assert(artifacts@.take(artifacts@.len() as int) =~= artifacts@);
    best
}

/// The outside step that a materialization waits for.
#[derive(Clone, Copy, Debug, PartialEq, Eq, Structural)]
pub enum CollectStep {
    /// The compiler prints its version.
    Version,
    /// The source snapshot with an index is inspected.
    Snapshot(usize),
    /// The disassembler is looked for.
    FindTool,
    /// The disassembler prints its version.
    ToolVersion,
    /// The bitcode of the module with an index is inspected.
    Bitcode(usize),
    /// The module with an index is disassembled.
    Disassemble(usize),
    /// The text of the module with an index is inspected.
    Text(usize),
    /// The text of the module with an index, of this length, is opened.
    Open(usize, u64),
    /// Nothing: every module is there, or none was requested.
    Done,
}

/// A materialization in progress.
pub struct Materialization {
    instances: Vec<InstanceRecord>,
    artifacts: Vec<ArtifactRecord>,
    provenance: LlvmProvenance,
    unsupported: Option<UnsupportedLlvmConfiguration>,
    expected: Vec<ExpectedModule>,
    modules: Vec<LlvmModuleRecord>,
    next_id: u64,
    step: CollectStep,
}

/// The mathematical counterpart of [`Materialization`].
pub struct MaterializationData {
    /// Concrete instances.
    pub instances: Seq<GroupData>,
    /// The artifacts so far.
    pub artifacts: Seq<ArtifactRecord>,
    /// Effective compiler settings.
    pub provenance: LlvmProvenanceData,
    /// Why no LLVM was requested.
    pub unsupported: Option<UnsupportedLlvmConfiguration>,
    /// The expected modules.
    pub expected: Seq<ModuleData>,
    /// The modules so far.
    pub modules: Seq<LlvmModuleRecordData>,
    /// The identity of the next artifact.
    pub next_id: u64,
    /// The outside step to do next.
    pub step: CollectStep,
}

impl View for Materialization {
    type V = MaterializationData;

    closed spec fn view(&self) -> MaterializationData {
        MaterializationData {
            instances: manifest::group_views(self.instances@),
            artifacts: self.artifacts@,
            provenance: self.provenance@,
            unsupported: self.unsupported,
            expected: manifest::module_views(self.expected@),
            modules: llvm_module_record_list(self.modules@),
            next_id: self.next_id,
            step: self.step,
        }
    }
}

/// The step fits the data.
pub open spec fn fits(data: MaterializationData) -> bool {
    match data.step {
        CollectStep::Snapshot(index) => index < data.artifacts.len(),
        CollectStep::FindTool | CollectStep::ToolVersion => stage_of(data.provenance.lto) is Some,
        CollectStep::Bitcode(index) => {
            &&& index < data.expected.len()
            &&& stage_of(data.provenance.lto) is Some
        },
        CollectStep::Disassemble(index) | CollectStep::Text(index) | CollectStep::Open(
            index,
            _,
        ) => {
            &&& index < data.expected.len()
            &&& data.next_id < u64::MAX
            &&& stage_of(data.provenance.lto) is Some
        },
        _ => true,
    }
}

/// What an outside step of a materialization gave.
pub enum CollectReply<R: ByteSource> {
    /// A program ran.
    Ran(Result<ProcessOutput, SourceError>),
    /// A file was inspected without following a link.
    Inspected(Result<FileFacts, SourceError>),
    /// The disassembler is a file.
    Found(bool),
    /// A text was opened.
    Opened(Result<R, SourceError>),
}

/// The materialization at another step.
pub open spec fn at(data: MaterializationData, step: CollectStep) -> MaterializationData {
    MaterializationData { step, ..data }
}

/// The materialization that turns to the snapshot with an index, or to the modules.
pub open spec fn at_snapshot(data: MaterializationData, index: int) -> Result<
    MaterializationData,
    ErrorData,
> {
    if index < data.artifacts.len() {
        Ok(at(data, CollectStep::Snapshot(index as usize)))
    } else if data.unsupported is Some {
        Ok(at(data, CollectStep::Done))
    } else if data.provenance.backend != "llvm"@ || data.provenance.incremental
        || data.provenance.linker_plugin_lto {
        Err(error::environment(EnvironmentProblem::ConflictingMetadata))
    } else if stage_of(data.provenance.lto) is None {
        Err(error::environment(EnvironmentProblem::OtherLto))
    } else {
        Ok(at(data, CollectStep::FindTool))
    }
}

/// The materialization that turns to the module with an index, or is done.
pub open spec fn at_module(data: MaterializationData, index: int) -> MaterializationData {
    if index < data.expected.len() {
        at(data, CollectStep::Bitcode(index as usize))
    } else {
        at(data, CollectStep::Done)
    }
}

/// The materialization before its first step.
pub open spec fn beginning(manifest: ManifestData) -> MaterializationData {
    MaterializationData {
        instances: manifest.collected.groups,
        artifacts: manifest.collected.artifacts,
        provenance: LlvmProvenanceData {
            backend: manifest.configuration.backend,
            llvm_version: None,
            target: manifest.configuration.target,
            optimization: manifest.configuration.optimization,
            lto: manifest.configuration.lto,
            incremental: manifest.configuration.incremental,
            linker_plugin_lto: manifest.configuration.linker_plugin,
            codegen_units: manifest.configuration.codegen_units,
            recipe_revision: protocol::LLVM_RECIPE_REVISION,
        },
        unsupported: manifest.configuration.unsupported,
        expected: manifest.collected.modules,
        modules: Seq::empty(),
        next_id: 0,
        step: CollectStep::Version,
    }
}

/// The first step of a materialization. Only an LLVM backend is asked for its version.
pub open spec fn begun(manifest: ManifestData) -> Result<MaterializationData, ErrorData> {
    if manifest.configuration.backend == "llvm"@ {
        Ok(beginning(manifest))
    } else {
        at_snapshot(beginning(manifest), 0)
    }
}

/// The definitions in the text of a module.
pub open spec fn module_definitions<R: ByteSource>(reader: R) -> Result<
    Seq<Definition>,
    crate::llvm_index::error::IndexError,
> {
    scanner::definitions(
        Cursor { rest: reader.pending(), ending: reader.failure(), offset: 0, header: None },
        Seq::empty(),
    )
}

/// The materialization with one more module.
pub open spec fn with_module(
    data: MaterializationData,
    index: int,
    length: u64,
    definitions: Seq<Definition>,
) -> MaterializationData {
    MaterializationData {
        modules: data.modules.push(
            LlvmModuleRecordData {
                artifact: data.next_id,
                name: data.expected[index].name,
                stage: stage_of(data.provenance.lto)->Some_0,
                definitions,
            },
        ),
        artifacts: data.artifacts.push(
            ArtifactRecord { id: data.next_id, kind: ArtifactKind::Llvm, length },
        ),
        next_id: (data.next_id + 1) as u64,
        ..data
    }
}

/// The materialization behind the version of the compiler.
pub open spec fn after_version(
    compiler: CompilerIdentityData,
    data: MaterializationData,
    launched: Result<ProcessOutput, SourceError>,
) -> Result<MaterializationData, ErrorData> {
    match toolchain::program_text(launched, compiler.rustc) {
        Err(error) => Err(error),
        Ok(text) => match compiler_llvm_version(text) {
            None => Err(error::environment(EnvironmentProblem::NoLlvmVersion)),
            Some(version) => at_snapshot(
                MaterializationData {
                    provenance: LlvmProvenanceData {
                        llvm_version: Some(version),
                        ..data.provenance
                    },
                    ..data
                },
                0,
            ),
        },
    }
}

/// The materialization behind the snapshot with an index.
pub open spec fn after_snapshot(
    directory: Seq<char>,
    data: MaterializationData,
    index: int,
    found: Result<FileFacts, SourceError>,
) -> Result<MaterializationData, ErrorData> {
    let path = artifact_path(directory, data.artifacts[index].id);
    match regular_length(path, found) {
        Err(error) => Err(error),
        Ok(length) => if length != data.artifacts[index].length {
            Err(error::environment(EnvironmentProblem::SnapshotLength { path }))
        } else {
            at_snapshot(data, index + 1)
        },
    }
}

/// The materialization behind the search for the disassembler.
pub open spec fn after_search(
    compiler: CompilerIdentityData,
    data: MaterializationData,
    found: bool,
) -> Result<MaterializationData, ErrorData> {
    if found {
        Ok(at(data, CollectStep::ToolVersion))
    } else {
        Err(
            error::environment(
                EnvironmentProblem::NoDisassembler { path: disassembler_of(compiler) },
            ),
        )
    }
}

/// The materialization behind the version of the disassembler.
pub open spec fn after_tool(
    compiler: CompilerIdentityData,
    data: MaterializationData,
    launched: Result<ProcessOutput, SourceError>,
) -> Result<MaterializationData, ErrorData> {
    match toolchain::program_text(launched, disassembler_of(compiler)) {
        Err(error) => Err(error),
        Ok(text) => if tool_version(text) != data.provenance.llvm_version {
            Err(
                error::environment(
                    EnvironmentProblem::DisassemblerVersion { actual: tool_version(text) },
                ),
            )
        } else {
            match highest(data.artifacts) {
                Some(id) => if id == u64::MAX {
                    Err(error::environment(EnvironmentProblem::NoFreeId))
                } else {
                    Ok(at_module(MaterializationData { next_id: (id + 1) as u64, ..data }, 0))
                },
                None => Ok(at_module(MaterializationData { next_id: 0, ..data }, 0)),
            }
        },
    }
}

/// The materialization behind the inspection of bitcode.
pub open spec fn after_bitcode(
    data: MaterializationData,
    index: usize,
    found: Result<FileFacts, SourceError>,
) -> Result<MaterializationData, ErrorData> {
    let path = data.expected[index as int].path;
    match regular_length(path, found) {
        Err(error) => Err(error),
        Ok(length) => if length == 0 {
            Err(error::environment(EnvironmentProblem::EmptyBitcode { path }))
        } else if data.next_id == u64::MAX {
            Err(error::environment(EnvironmentProblem::IdOverflow))
        } else {
            Ok(at(data, CollectStep::Disassemble(index)))
        },
    }
}

/// The materialization behind the disassembly of a module.
pub open spec fn after_disassembly(
    compiler: CompilerIdentityData,
    data: MaterializationData,
    index: usize,
    launched: Result<ProcessOutput, SourceError>,
) -> Result<MaterializationData, ErrorData> {
    match toolchain::program_text(launched, disassembler_of(compiler)) {
        Err(error) => Err(
            Failure::Disassembly {
                path: data.expected[index as int].path,
                cause: error::sentence(error),
            },
        ),
        Ok(_) => Ok(at(data, CollectStep::Text(index))),
    }
}

/// The materialization behind the inspection of a text.
pub open spec fn after_text(
    directory: Seq<char>,
    data: MaterializationData,
    index: usize,
    found: Result<FileFacts, SourceError>,
) -> Result<MaterializationData, ErrorData> {
    match regular_length(artifact_path(directory, data.next_id), found) {
        Err(error) => Err(error),
        Ok(length) => Ok(at(data, CollectStep::Open(index, length))),
    }
}

/// The materialization behind an opened text.
pub open spec fn after_opening<R: ByteSource>(
    directory: Seq<char>,
    data: MaterializationData,
    index: usize,
    length: u64,
    opened: Result<R, SourceError>,
) -> Result<MaterializationData, ErrorData> {
    let path = artifact_path(directory, data.next_id);
    match opened {
        Err(source) => Err(error::filesystem("open optimized LLVM artifact"@, path, source)),
        Ok(reader) => match module_definitions(reader) {
            Err(error) => Err(Failure::Index { path, error }),
            Ok(definitions) => Ok(
                at_module(with_module(data, index as int, length, definitions), index + 1),
            ),
        },
    }
}

/// The materialization behind a reply. Another reply changes nothing.
pub open spec fn materialized<R: ByteSource>(
    compiler: CompilerIdentityData,
    directory: Seq<char>,
    data: MaterializationData,
    reply: CollectReply<R>,
) -> Result<MaterializationData, ErrorData> {
    match (data.step, reply) {
        (CollectStep::Version, CollectReply::Ran(launched)) => after_version(
            compiler,
            data,
            launched,
        ),
        (CollectStep::Snapshot(index), CollectReply::Inspected(found)) => after_snapshot(
            directory,
            data,
            index as int,
            found,
        ),
        (CollectStep::FindTool, CollectReply::Found(found)) => after_search(
            compiler,
            data,
            found,
        ),
        (CollectStep::ToolVersion, CollectReply::Ran(launched)) => after_tool(
            compiler,
            data,
            launched,
        ),
        (CollectStep::Bitcode(index), CollectReply::Inspected(found)) => after_bitcode(
            data,
            index,
            found,
        ),
        (CollectStep::Disassemble(index), CollectReply::Ran(launched)) => after_disassembly(
            compiler,
            data,
            index,
            launched,
        ),
        (CollectStep::Text(index), CollectReply::Inspected(found)) => after_text(
            directory,
            data,
            index,
            found,
        ),
        (CollectStep::Open(index, length), CollectReply::Opened(opened)) => after_opening(
            directory,
            data,
            index,
            length,
            opened,
        ),
        _ => Ok(data),
    }
}

/// A materialization or an error agrees with the expected one.
pub open spec fn materialization_agrees(
    result: Result<Materialization, Error>,
    expected: Result<MaterializationData, ErrorData>,
) -> bool {
    match (result, expected) {
        (Ok(state), Ok(meant)) => state@ == meant,
        (Err(error), Err(meant)) => error@ == meant,
        _ => false,
    }
}

/// What has to be done outside.
#[derive(Debug)]
pub enum CollectWork {
    /// Run a program with one argument.
    Run {
        /// The program.
        program: String,
        /// The argument.
        argument: String,
    },
    /// Inspect a file without following a link.
    Inspect {
        /// The path.
        path: String,
    },
    /// Tell whether a path is a file.
    Find {
        /// The path.
        path: String,
    },
    /// Disassemble a module.
    Disassemble {
        /// The disassembler.
        program: String,
        /// The bitcode.
        input: String,
        /// The text.
        output: String,
    },
    /// Open a text.
    Open {
        /// The path.
        path: String,
    },
    /// Nothing.
    Finished,
}

/// The mathematical counterpart of [`CollectWork`].
pub enum CollectWorkData {
    /// Run a program with one argument.
    Run {
        /// The program.
        program: Seq<char>,
        /// The argument.
        argument: Seq<char>,
    },
    /// Inspect a file without following a link.
    Inspect {
        /// The path.
        path: Seq<char>,
    },
    /// Tell whether a path is a file.
    Find {
        /// The path.
        path: Seq<char>,
    },
    /// Disassemble a module.
    Disassemble {
        /// The disassembler.
        program: Seq<char>,
        /// The bitcode.
        input: Seq<char>,
        /// The text.
        output: Seq<char>,
    },
    /// Open a text.
    Open {
        /// The path.
        path: Seq<char>,
    },
    /// Nothing.
    Finished,
}

impl View for CollectWork {
    type V = CollectWorkData;

    open spec fn view(&self) -> CollectWorkData {
        match self {
            CollectWork::Run { program, argument } => CollectWorkData::Run {
                program: program@,
                argument: argument@,
            },
            CollectWork::Inspect { path } => CollectWorkData::Inspect { path: path@ },
            CollectWork::Find { path } => CollectWorkData::Find { path: path@ },
            CollectWork::Disassemble { program, input, output } => CollectWorkData::Disassemble {
                program: program@,
                input: input@,
                output: output@,
            },
            CollectWork::Open { path } => CollectWorkData::Open { path: path@ },
            CollectWork::Finished => CollectWorkData::Finished,
        }
    }
}

/// The work of a step.
pub open spec fn work_of(
    compiler: CompilerIdentityData,
    directory: Seq<char>,
    data: MaterializationData,
) -> CollectWorkData {
    let tool = disassembler_of(compiler);
    match data.step {
        CollectStep::Version => CollectWorkData::Run {
            program: compiler.rustc,
            argument: "-vV"@,
        },
        CollectStep::Snapshot(index) => CollectWorkData::Inspect {
            path: artifact_path(directory, data.artifacts[index as int].id),
        },
        CollectStep::FindTool => CollectWorkData::Find { path: tool },
        CollectStep::ToolVersion => CollectWorkData::Run { program: tool, argument: "--version"@ },
        CollectStep::Bitcode(index) => CollectWorkData::Inspect {
            path: data.expected[index as int].path,
        },
        CollectStep::Disassemble(index) => CollectWorkData::Disassemble {
            program: tool,
            input: data.expected[index as int].path,
            output: artifact_path(directory, data.next_id),
        },
        CollectStep::Text(_) => CollectWorkData::Inspect {
            path: artifact_path(directory, data.next_id),
        },
        CollectStep::Open(_, _) => CollectWorkData::Open {
            path: artifact_path(directory, data.next_id),
        },
        CollectStep::Done => CollectWorkData::Finished,
    }
}

/// The evidence behind the last step.
pub open spec fn evidence_of(data: MaterializationData) -> EvidenceData {
    EvidenceData {
        instances: data.instances,
        artifacts: data.artifacts,
        provenance: data.provenance,
        llvm: match data.unsupported {
            Some(reason) => LlvmCollectionData::NotCaptured(reason),
            None => LlvmCollectionData::Collected(data.modules),
        },
    }
}

impl Materialization {
    #[verifier::type_invariant]
    spec fn well_formed(self) -> bool {
        fits(self@)
    }

    fn at(self, step: CollectStep) -> (result: Self)
        requires
            fits(at(self@, step)),
        ensures
            result@ == at(self@, step),
    {
        Materialization {
            instances: self.instances,
            artifacts: self.artifacts,
            provenance: self.provenance,
            unsupported: self.unsupported,
            expected: self.expected,
            modules: self.modules,
            next_id: self.next_id,
            step,
        }
    }

    fn at_snapshot(self, index: usize) -> (result: Result<Self, Error>)
        ensures
            materialization_agrees(result, at_snapshot(self@, index as int)),
    {
        if index < self.artifacts.len() {
            return Ok(self.at(CollectStep::Snapshot(index)));
        }
        if self.unsupported.is_some() {
            return Ok(self.at(CollectStep::Done));
        }
        if !same_text(self.provenance.backend.as_str(), "llvm") || self.provenance.incremental
            || self.provenance.linker_plugin_lto {
            return Err(invalid_environment(EnvironmentProblem::ConflictingMetadata));
        }
        match self.provenance.lto {
            LlvmLto::Off | LlvmLto::LocalThin => Ok(self.at(CollectStep::FindTool)),
            _ => Err(invalid_environment(EnvironmentProblem::OtherLto)),
        }
    }

    fn at_module(self, index: usize) -> (result: Self)
        requires
            stage_of(self@.provenance.lto) is Some,
        ensures
            result@ == at_module(self@, index as int),
    {
        assert(self@.expected.len() == self.expected@.len());
        if index < self.expected.len() {
            self.at(CollectStep::Bitcode(index))
        } else {
            self.at(CollectStep::Done)
        }
    }

    /// Starts with a decoded manifest.
    pub fn begin(manifest: CompilerManifest) -> (result: Result<Self, Error>)
        ensures
            materialization_agrees(result, begun(manifest@)),
    {
        let asks = same_text(manifest.configuration.backend.as_str(), "llvm");
        let ghost data = beginning(manifest@);
        let provenance = LlvmProvenance {
            backend: manifest.configuration.backend,
            llvm_version: None,
            target: manifest.configuration.target,
            optimization: manifest.configuration.optimization,
            lto: manifest.configuration.lto,
            incremental: manifest.configuration.incremental,
            linker_plugin_lto: manifest.configuration.linker_plugin,
            codegen_units: manifest.configuration.codegen_units,
            recipe_revision: protocol::LLVM_RECIPE_REVISION,
        };
        let state = Materialization {
            instances: manifest.instances,
            artifacts: manifest.artifacts,
            provenance,
            unsupported: manifest.configuration.unsupported,
            expected: manifest.modules,
            modules: Vec::new(),
            next_id: 0,
            step: CollectStep::Version,
        };
        assert(state@.modules =~= data.modules);
        assert(state@ == data);
        if asks {
            Ok(state)
        } else {
            state.at_snapshot(0)
        }
    }

    /// Returns the work that has to be done outside.
    pub fn work(&self, compiler: &CompilerIdentity, directory: &str) -> (result: CollectWork)
        ensures
            result@ == work_of(compiler@, directory@, self@),
    {
        proof {
            use_type_invariant(self);
        }
        match self.step {
            CollectStep::Version => CollectWork::Run {
                program: compiler.rustc.clone(),
                argument: String::from_str("-vV"),
            },
            CollectStep::Snapshot(index) => CollectWork::Inspect {
                path: path_of_artifact(directory, self.artifacts[index].id),
            },
            CollectStep::FindTool => CollectWork::Find { path: disassembler(compiler) },
            CollectStep::ToolVersion => CollectWork::Run {
                program: disassembler(compiler),
                argument: String::from_str("--version"),
            },
            CollectStep::Bitcode(index) => CollectWork::Inspect {
                path: self.expected[index].path.clone(),
            },
            CollectStep::Disassemble(index) => CollectWork::Disassemble {
                program: disassembler(compiler),
                input: self.expected[index].path.clone(),
                output: path_of_artifact(directory, self.next_id),
            },
            CollectStep::Text(_) | CollectStep::Open(_, _) => {
                let path = path_of_artifact(directory, self.next_id);
                match self.step {
                    CollectStep::Text(_) => CollectWork::Inspect { path },
                    _ => CollectWork::Open { path },
                }
            },
            CollectStep::Done => CollectWork::Finished,
        }
    }

    fn record_version(
        self,
        compiler: &CompilerIdentity,
        launched: Result<ProcessOutput, SourceError>,
    ) -> (result: Result<Self, Error>)
        ensures
            materialization_agrees(result, after_version(compiler@, self@, launched)),
    {
        let text = match run_program(launched, compiler.rustc.as_str()) {
            Err(error) => {
                return Err(error);
            },
            Ok(text) => text,
        };
        match llvm_version(text.as_str()) {
            None => Err(invalid_environment(EnvironmentProblem::NoLlvmVersion)),
            Some(version) => {
                let ghost before = self@;
                proof {
                    use_type_invariant(&self);
                }
                let provenance = LlvmProvenance {
                    backend: self.provenance.backend,
                    llvm_version: Some(version),
                    target: self.provenance.target,
                    optimization: self.provenance.optimization,
                    lto: self.provenance.lto,
                    incremental: self.provenance.incremental,
                    linker_plugin_lto: self.provenance.linker_plugin_lto,
                    codegen_units: self.provenance.codegen_units,
                    recipe_revision: self.provenance.recipe_revision,
                };
                let state = Materialization {
                    instances: self.instances,
                    artifacts: self.artifacts,
                    provenance,
                    unsupported: self.unsupported,
                    expected: self.expected,
                    modules: self.modules,
                    next_id: self.next_id,
                    step: self.step,
                };
                state.at_snapshot(0)
            },
        }
    }

    fn start_modules(
        self,
        compiler: &CompilerIdentity,
        launched: Result<ProcessOutput, SourceError>,
    ) -> (result: Result<Self, Error>)
        requires
            self@.step == CollectStep::ToolVersion,
        ensures
            materialization_agrees(result, after_tool(compiler@, self@, launched)),
    {
        proof {
            use_type_invariant(&self);
        }
        let tool = disassembler(compiler);
        let text = match run_program(launched, tool.as_str()) {
            Err(error) => {
                return Err(error);
            },
            Ok(text) => text,
        };
        let actual = disassembler_version(text.as_str());
        let same = match (&actual, &self.provenance.llvm_version) {
            (Some(actual), Some(expected)) => same_text(actual.as_str(), expected.as_str()),
            (None, None) => true,
            _ => false,
        };
        if !same {
            return Err(invalid_environment(EnvironmentProblem::DisassemblerVersion { actual }));
        }
        let next_id = match highest_id(&self.artifacts) {
            Some(id) => if id == u64::MAX {
                return Err(invalid_environment(EnvironmentProblem::NoFreeId));
            } else {
                id + 1
            },
            None => 0,
        };
        let state = Materialization {
            instances: self.instances,
            artifacts: self.artifacts,
            provenance: self.provenance,
            unsupported: self.unsupported,
            expected: self.expected,
            modules: self.modules,
            next_id,
            step: self.step,
        };
        Ok(state.at_module(0))
    }

    fn push_module(self, module: usize, length: u64, definitions: Vec<LlvmDefinitionRecord>) -> (result:
        Self)
        requires
            self@.step == CollectStep::Open(module, length),
        ensures
            result@ == at_module(
                with_module(
                    self@,
                    module as int,
                    length,
                    definitions@.map_values(|record: LlvmDefinitionRecord| record@),
                ),
                module + 1,
            ),
    {
        proof {
            use_type_invariant(&self);
        }
        let ghost before = self@;
        let count: usize = self.expected.len();
        assert(before.expected.len() == count);
        let stage = match self.provenance.lto {
            LlvmLto::LocalThin => LlvmStage::LocalThinLtoPostPassManager,
            _ => LlvmStage::NoLtoOptimized,
        };
        let name = self.expected[module].name.clone();
        let mut modules = self.modules;
        let ghost earlier = modules@;
        let record = LlvmModuleRecord { artifact: self.next_id, name, stage, definitions };
        modules.push(record);
        assert(llvm_module_record_list(modules@) =~= llvm_module_record_list(earlier).push(
            record@,
        ));
        let mut artifacts = self.artifacts;
        artifacts.push(
            ArtifactRecord { id: self.next_id, kind: ArtifactKind::Llvm, length },
        );
        let state = Materialization {
            instances: self.instances,
            artifacts,
            provenance: self.provenance,
            unsupported: self.unsupported,
            expected: self.expected,
            modules,
            next_id: self.next_id + 1,
            step: CollectStep::Version,
        };
        assert(state@ == at(
            with_module(
                before,
                module as int,
                length,
                definitions@.map_values(|record: LlvmDefinitionRecord| record@),
            ),
            CollectStep::Version,
        ));
        if module + 1 < count {
            state.at(CollectStep::Bitcode(module + 1))
        } else {
            state.at(CollectStep::Done)
        }
    }

    fn check_snapshot(
        self,
        directory: &str,
        index: usize,
        found: Result<FileFacts, SourceError>,
    ) -> (result: Result<Self, Error>)
        requires
            self@.step == CollectStep::Snapshot(index),
        ensures
            materialization_agrees(result, after_snapshot(directory@, self@, index as int, found)),
    {
        proof {
            use_type_invariant(&self);
        }
        let count: usize = self.artifacts.len();
        assert(index < count);
        let path = path_of_artifact(directory, self.artifacts[index].id);
        match regular_file(path.as_str(), found) {
            Err(error) => Err(error),
            Ok(length) => if length != self.artifacts[index].length {
                Err(invalid_environment(EnvironmentProblem::SnapshotLength { path }))
            } else {
                self.at_snapshot(index + 1)
            },
        }
    }

    fn check_bitcode(self, index: usize, found: Result<FileFacts, SourceError>) -> (result: Result<
        Self,
        Error,
    >)
        requires
            self@.step == CollectStep::Bitcode(index),
        ensures
            materialization_agrees(result, after_bitcode(self@, index, found)),
    {
        proof {
            use_type_invariant(&self);
        }
        let path = self.expected[index].path.clone();
        match regular_file(path.as_str(), found) {
            Err(error) => Err(error),
            Ok(length) => if length == 0 {
                Err(invalid_environment(EnvironmentProblem::EmptyBitcode { path }))
            } else if self.next_id == u64::MAX {
                Err(invalid_environment(EnvironmentProblem::IdOverflow))
            } else {
                Ok(self.at(CollectStep::Disassemble(index)))
            },
        }
    }

    fn check_disassembly(
        self,
        compiler: &CompilerIdentity,
        index: usize,
        launched: Result<ProcessOutput, SourceError>,
    ) -> (result: Result<Self, Error>)
        requires
            self@.step == CollectStep::Disassemble(index),
        ensures
            materialization_agrees(result, after_disassembly(compiler@, self@, index, launched)),
    {
        proof {
            use_type_invariant(&self);
        }
        let tool = disassembler(compiler);
        match run_program(launched, tool.as_str()) {
            Err(error) => Err(
                Failure::Disassembly {
                    path: self.expected[index].path.clone(),
                    cause: error.message(),
                },
            ),
            Ok(_) => Ok(self.at(CollectStep::Text(index))),
        }
    }

    fn check_text(
        self,
        directory: &str,
        index: usize,
        found: Result<FileFacts, SourceError>,
    ) -> (result: Result<Self, Error>)
        requires
            self@.step == CollectStep::Text(index),
        ensures
            materialization_agrees(result, after_text(directory@, self@, index, found)),
    {
        proof {
            use_type_invariant(&self);
        }
        let path = path_of_artifact(directory, self.next_id);
        match regular_file(path.as_str(), found) {
            Err(error) => Err(error),
            Ok(length) => Ok(self.at(CollectStep::Open(index, length))),
        }
    }

    fn index_text<R: ByteSource>(
        self,
        directory: &str,
        module: usize,
        length: u64,
        opened: Result<R, SourceError>,
    ) -> (result: Result<Self, Error>)
        requires
            self@.step == CollectStep::Open(module, length),
        ensures
            materialization_agrees(
                result,
                after_opening(directory@, self@, module, length, opened),
            ),
    {
        let path = path_of_artifact(directory, self.next_id);
        match opened {
            Err(source) => Err(
                filesystem_failure("open optimized LLVM artifact", path.as_str(), source),
            ),
            Ok(reader) => match index(reader) {
                Err(error) => Err(Failure::Index { path, error }),
                Ok(definitions) => Ok(self.push_module(module, length, definitions)),
            },
        }
    }

    /// Takes the reply to the outside step that the materialization waits for.
    pub fn collect<R: ByteSource>(
        self,
        compiler: &CompilerIdentity,
        directory: &str,
        reply: CollectReply<R>,
    ) -> (result: Result<Self, Error>)
        ensures
            materialization_agrees(result, materialized(compiler@, directory@, self@, reply)),
    {
        match (self.step, reply) {
            (CollectStep::Version, CollectReply::Ran(launched)) => self.record_version(
                compiler,
                launched,
            ),
            (CollectStep::Snapshot(index), CollectReply::Inspected(found)) => self.check_snapshot(
                directory,
                index,
                found,
            ),
            (CollectStep::FindTool, CollectReply::Found(found)) => if found {
                proof {
                    use_type_invariant(&self);
                }
                Ok(self.at(CollectStep::ToolVersion))
            } else {
                let path = disassembler(compiler);
                Err(invalid_environment(EnvironmentProblem::NoDisassembler { path }))
            },
            (CollectStep::ToolVersion, CollectReply::Ran(launched)) => self.start_modules(
                compiler,
                launched,
            ),
            (CollectStep::Bitcode(index), CollectReply::Inspected(found)) => self.check_bitcode(
                index,
                found,
            ),
            (CollectStep::Disassemble(index), CollectReply::Ran(launched)) =>
                self.check_disassembly(compiler, index, launched),
            (CollectStep::Text(index), CollectReply::Inspected(found)) => self.check_text(
                directory,
                index,
                found,
            ),
            (CollectStep::Open(module, length), CollectReply::Opened(opened)) => self.index_text(
                directory,
                module,
                length,
                opened,
            ),
            _ => Ok(self),
        }
    }

    /// Tells whether no outside step is left.
    pub fn is_done(&self) -> (result: bool)
        ensures
            result == (self@.step == CollectStep::Done),
    {
        match self.step {
            CollectStep::Done => true,
            _ => false,
        }
    }

    /// Returns the evidence, unless an outside step is left.
    pub fn finish(self) -> (result: Option<CollectedEvidence>)
        ensures
            match result {
                Some(evidence) => self@.step == CollectStep::Done && evidence@ == evidence_of(
                    self@,
                ),
                None => self@.step != CollectStep::Done,
            },
    {
        match self.step {
            CollectStep::Done => {
                let llvm = match self.unsupported {
                    Some(reason) => LlvmCollection::NotCaptured(reason),
                    None => LlvmCollection::Collected(self.modules),
                };
                Some(
                    CollectedEvidence {
                        instances: self.instances,
                        artifacts: self.artifacts,
                        provenance: self.provenance,
                        llvm,
                    },
                )
            },
            _ => None,
        }
    }
}

/// The number of modules that a step has behind it.
pub open spec fn modules_behind(data: MaterializationData) -> int {
    match data.step {
        CollectStep::Bitcode(index) | CollectStep::Disassemble(index) | CollectStep::Text(index)
        | CollectStep::Open(index, _) => index as int,
        CollectStep::Done => if data.unsupported is Some {
            0
        } else {
            data.expected.len() as int
        },
        _ => 0,
    }
}

/// The modules of a materialization are the leading expected modules of a manifest, and their
/// artifacts follow the source snapshots.
pub open spec fn follows(manifest: ManifestData, data: MaterializationData) -> bool {
    let sources = manifest.collected.artifacts;
    &&& fits(data)
    &&& data.instances == manifest.collected.groups
    &&& data.unsupported == manifest.configuration.unsupported
    &&& wants_modules(data.step) ==> data.unsupported is None
    &&& data.expected == manifest.collected.modules
    &&& data.provenance.lto == manifest.configuration.lto
    &&& data.modules.len() == modules_behind(data)
    &&& data.modules.len() <= data.expected.len()
    &&& data.artifacts.len() == sources.len() + data.modules.len()
    &&& data.artifacts.take(sources.len() as int) == sources
    &&& data.modules.len() > 0 || past_sources(data.step) ==> {
        &&& data.next_id == first_id(sources) + data.modules.len()
    }
    &&& forall|i: int|
        0 <= i < data.modules.len() ==> {
            &&& (#[trigger] data.modules[i]).name == data.expected[i].name
            &&& Some(data.modules[i].stage) == stage_of(manifest.configuration.lto)
            &&& data.modules[i].artifact == first_id(sources) + i
            &&& data.artifacts[sources.len() + i].id == data.modules[i].artifact
            &&& data.artifacts[sources.len() + i].kind == ArtifactKind::Llvm
        }
}

/// The step leads to a module.
pub open spec fn wants_modules(step: CollectStep) -> bool {
    step == CollectStep::FindTool || step == CollectStep::ToolVersion || past_sources(step)
}

/// The step works on a module.
pub open spec fn past_sources(step: CollectStep) -> bool {
    match step {
        CollectStep::Bitcode(_) | CollectStep::Disassemble(_) | CollectStep::Text(_)
        | CollectStep::Open(_, _) => true,
        _ => false,
    }
}

/// The identity of the first module.
pub open spec fn first_id(sources: Seq<ArtifactRecord>) -> int {
    match highest(sources) {
        Some(id) => id + 1,
        None => 0,
    }
}

/// Materialization starts without modules.
pub proof fn materializations_start_empty(manifest: ManifestData)
    ensures
        begun(manifest) matches Ok(data) ==> follows(manifest, data),
{
    let sources = manifest.collected.artifacts;
    assert(sources.take(sources.len() as int) =~= sources);
}

/// Every step keeps the modules complete up to its index: none is left out, reordered or renamed,
/// and each has the stage of the configuration and an artifact of its own behind the source
/// snapshots. A finished materialization has every expected module.
#[verifier::rlimit(50)]
pub proof fn no_partial_collections<R: ByteSource>(
    compiler: CompilerIdentityData,
    directory: Seq<char>,
    manifest: ManifestData,
    data: MaterializationData,
    reply: CollectReply<R>,
)
    requires
        follows(manifest, data),
        manifest.collected.modules.len() <= usize::MAX,
        manifest.collected.artifacts.len() <= usize::MAX,
    ensures
        materialized(compiler, directory, data, reply) matches Ok(next) ==> follows(manifest, next),
        data.step == CollectStep::Done && data.unsupported is None ==> data.modules.len()
            == manifest.collected.modules.len(),
{
    if let CollectStep::Open(index, length) = data.step {
        if let CollectReply::Opened(Ok(reader)) = reply {
            if let Ok(definitions) = module_definitions(reader) {
                modules_grow_in_order(manifest, data, index, length, definitions);
            }
        }
    } else if !past_sources(data.step) && data.step != CollectStep::Done {
        assert(data.artifacts =~= manifest.collected.artifacts);
    }
}

/// A step adds at most one module, and what is there stays as it is. A new artifact has the length of
/// the regular file that was inspected, and its module the definitions of the opened text.
pub proof fn modules_hold_what_was_read<R: ByteSource>(
    compiler: CompilerIdentityData,
    directory: Seq<char>,
    data: MaterializationData,
    reply: CollectReply<R>,
)
    ensures
        materialized(compiler, directory, data, reply) matches Ok(next) ==> {
            &&& next.step matches CollectStep::Open(_, length) ==> next.step == data.step || (reply
                matches CollectReply::Inspected(Ok(facts)) && facts.is_file && facts.length
                == length)
            &&& (next.modules == data.modules && next.artifacts == data.artifacts) || {
                &&& data.step matches CollectStep::Open(_, length)
                &&& next.modules.drop_last() == data.modules
                &&& next.artifacts.drop_last() == data.artifacts
                &&& next.artifacts.last().length == length
                &&& (reply matches CollectReply::Opened(Ok(reader)) && module_definitions(reader)
                    == Ok::<Seq<Definition>, crate::llvm_index::error::IndexError>(
                    next.modules.last().definitions,
                ))
            }
        },
{
    if let (CollectStep::Open(index, length), CollectReply::Opened(Ok(reader))) = (data.step, reply) {
        if let Ok(definitions) = module_definitions(reader) {
            let grown = with_module(data, index as int, length, definitions);
            assert(grown.modules.drop_last() =~= data.modules);
            assert(grown.artifacts.drop_last() =~= data.artifacts);
        }
    }
}

proof fn modules_grow_in_order(
    manifest: ManifestData,
    data: MaterializationData,
    index: usize,
    length: u64,
    definitions: Seq<Definition>,
)
    requires
        follows(manifest, data),
        manifest.collected.modules.len() <= usize::MAX,
        data.step == CollectStep::Open(index, length),
    ensures
        follows(
            manifest,
            at_module(with_module(data, index as int, length, definitions), index + 1),
        ),
{
    let sources = manifest.collected.artifacts;
    let next = at_module(with_module(data, index as int, length, definitions), index + 1);
    assert(next.artifacts.take(sources.len() as int) =~= data.artifacts.take(
        sources.len() as int,
    ));
    assert forall|i: int| 0 <= i < next.modules.len() implies {
        &&& (#[trigger] next.modules[i]).name == next.expected[i].name
        &&& Some(next.modules[i].stage) == stage_of(manifest.configuration.lto)
        &&& next.modules[i].artifact == first_id(sources) + i
        &&& next.artifacts[sources.len() + i].id == next.modules[i].artifact
        &&& next.artifacts[sources.len() + i].kind == ArtifactKind::Llvm
    } by {
        if i < data.modules.len() {
            assert(next.modules[i] == data.modules[i]);
        }
    }
}

} // verus!

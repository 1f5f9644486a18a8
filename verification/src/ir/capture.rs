//! Describes one Cargo analysis: its command line, its environment and its artifacts.

use super::cargo_output;
use super::error::{Error, ErrorData, Failure, IdentityProblem};
use super::evidence::{BodyRange, LlvmAlias, LlvmDeclaration, ModuleRecord, RecordData};
use super::mono;
use super::mono::CompilerPlacement;
use super::remarks::{OptimizationRemark, RemarkData};
use super::request::{
    BuildRequest, BuildRequestData, CaptureProfile, CaptureProfileData, CargoTarget,
    CargoTargetData,
};
use super::toolchain::{Toolchain, ToolchainData};
use super::wrapper;
use super::wrapper::temps_argument;
use crate::bytes::tail;
use crate::chars;
use crate::chars::{
    add_text, contains, copy_texts, ends_with, join, no_texts, rsplit_once, starts_with,
    strip_suffix,
};
use crate::order;
use crate::order::is_text_less;
use crate::paths;
use crate::paths::file_name;
use crate::sorting::{sort, Ranked};
use crate::source::SourceError;
use crate::text::same_text;
use crate::wire::put_bytes;
use vstd::prelude::*;
use vstd::string::StringExecFns;

verus! {

/// The name of the identity manifest in the analysis directory.
pub open spec fn manifest_name() -> Seq<char> {
    "identity-v3.bin"@
}

/// The largest number of bytes of disassembler diagnostics that are kept.
pub const MAX_DISASSEMBLER_DIAGNOSTIC_BYTES: usize = 1048576;

/// How an artifact was obtained.
#[derive(Clone, Copy, Debug, PartialEq, Eq, Structural)]
pub enum CaptureMethod {
    /// Rustc wrote the artifact because saved temporaries were enabled.
    SavedTemporary,
}

/// The link-time optimization scope implied by an artifact stage.
#[derive(Clone, Copy, Debug, PartialEq, Eq, Structural)]
pub enum LtoScope {
    /// The artifact is outside an LTO pipeline.
    NoLto,
    /// The artifact belongs to ThinLTO.
    Thin,
    /// The filename does not establish an LTO scope.
    Unknown,
}

/// A supported stage of the LLVM compilation pipeline.
#[derive(Clone, Copy, Debug, PartialEq, Eq, Structural)]
pub enum LlvmStage {
    /// LLVM IR before the LLVM optimization pipeline.
    PreOptimization,
    /// LLVM IR after the LLVM optimization pipeline.
    Optimized,
}

impl LlvmStage {
    /// The stable catalog name for this stage.
    pub open spec fn name(self) -> Seq<char> {
        match self {
            LlvmStage::PreOptimization => "llvm-pre-optimization"@,
            LlvmStage::Optimized => "llvm-optimized"@,
        }
    }

    /// Returns the stable catalog name for this stage.
    #[must_use]
    pub fn as_str(self) -> (result: &'static str)
        ensures
            result@ == self.name(),
    {
        match self {
            LlvmStage::PreOptimization => "llvm-pre-optimization",
            LlvmStage::Optimized => "llvm-optimized",
        }
    }
}

/// Exact compiler provenance for one LLVM artifact.
#[derive(Clone, Debug, PartialEq, Eq)]
pub struct ArtifactProvenance {
    /// The normalized stage, when the compiler stage is understood.
    pub stage: Option<LlvmStage>,
    /// The exact saved-temporary stage suffix emitted by rustc.
    pub compiler_stage: String,
    /// The codegen unit inferred from the compiler-owned filename, when present.
    pub codegen_unit: Option<String>,
    /// The LTO scope implied by the exact compiler stage.
    pub lto: LtoScope,
    /// The mechanism that produced the artifact.
    pub capture_method: CaptureMethod,
}

/// The mathematical counterpart of [`ArtifactProvenance`].
pub struct ArtifactProvenanceData {
    /// The normalized stage, when the compiler stage is understood.
    pub stage: Option<LlvmStage>,
    /// The exact saved-temporary stage suffix emitted by rustc.
    pub compiler_stage: Seq<char>,
    /// The codegen unit inferred from the compiler-owned filename, when present.
    pub codegen_unit: Option<Seq<char>>,
    /// The LTO scope implied by the exact compiler stage.
    pub lto: LtoScope,
    /// The mechanism that produced the artifact.
    pub capture_method: CaptureMethod,
}

impl View for ArtifactProvenance {
    type V = ArtifactProvenanceData;

    open spec fn view(&self) -> ArtifactProvenanceData {
        ArtifactProvenanceData {
            stage: self.stage,
            compiler_stage: self.compiler_stage@,
            codegen_unit: crate::chars::option_view(self.codegen_unit),
            lto: self.lto,
            capture_method: self.capture_method,
        }
    }
}

/// One raw LLVM optimization-remark file and its parsed records.
#[derive(Clone, Debug, PartialEq, Eq)]
pub struct RemarkEvidence {
    /// The normalized compiler-owned path relative to the remark directory.
    pub name: String,
    /// The compiler-owned YAML file.
    pub raw_path: String,
    /// The typed records parsed from the raw YAML document stream.
    pub records: Vec<OptimizationRemark>,
}

/// Metadata for one module before its symbol records are streamed.
#[derive(Clone, Debug, PartialEq, Eq)]
pub struct ModuleStart {
    /// The compiler-owned artifact file name.
    pub name: String,
    /// The compiler stage and collection method for this artifact.
    pub provenance: ArtifactProvenance,
    /// The saved LLVM bitcode path.
    pub bitcode_path: String,
    /// The matching textual LLVM module path.
    pub text_path: String,
}

/// The mathematical counterpart of [`ModuleStart`].
pub struct ModuleStartData {
    /// The compiler-owned artifact file name.
    pub name: Seq<char>,
    /// The compiler stage and collection method for this artifact.
    pub provenance: ArtifactProvenanceData,
    /// The saved LLVM bitcode path.
    pub bitcode_path: Seq<char>,
    /// The matching textual LLVM module path.
    pub text_path: Seq<char>,
}

impl View for ModuleStart {
    type V = ModuleStartData;

    open spec fn view(&self) -> ModuleStartData {
        ModuleStartData {
            name: self.name@,
            provenance: self.provenance@,
            bitcode_path: self.bitcode_path@,
            text_path: self.text_path@,
        }
    }
}

/// Metadata for one optimization-remark file before its records are streamed.
#[derive(Clone, Debug, PartialEq, Eq)]
pub struct RemarkFileStart {
    /// The normalized compiler-owned path relative to the remark directory.
    pub name: String,
    /// The compiler-owned YAML file.
    pub raw_path: String,
}

/// The mathematical counterpart of [`RemarkFileStart`].
pub struct RemarkFileStartData {
    /// The normalized compiler-owned path relative to the remark directory.
    pub name: Seq<char>,
    /// The compiler-owned YAML file.
    pub raw_path: Seq<char>,
}

impl View for RemarkFileStart {
    type V = RemarkFileStartData;

    open spec fn view(&self) -> RemarkFileStartData {
        RemarkFileStartData {
            name: self.name@,
            raw_path: self.raw_path@,
        }
    }
}

/// One bounded record in a retained compiler-evidence stream.
#[derive(Clone, Debug, PartialEq, Eq)]
pub enum EvidenceEvent {
    /// One rustc monomorphization placement.
    Placement {
        /// The placement record.
        record: CompilerPlacement,
    },
    /// The start of one disassembled LLVM module.
    ModuleStarted {
        /// The module metadata.
        module: ModuleStart,
    },
    /// One function definition range in the current module.
    Body {
        /// The indexed function body.
        body: BodyRange,
    },
    /// One function declaration range in the current module.
    Declaration {
        /// The indexed declaration.
        declaration: LlvmDeclaration,
    },
    /// One LLVM alias range in the current module.
    Alias {
        /// The indexed alias.
        alias: LlvmAlias,
    },
    /// The start of one raw optimization-remark file.
    RemarkFileStarted {
        /// The remark-file metadata.
        file: RemarkFileStart,
    },
    /// One optimization-remark document in the current file.
    Remark {
        /// The parsed remark.
        remark: OptimizationRemark,
    },
}

/// The mathematical counterpart of [`EvidenceEvent`].
pub enum EvidenceEventData {
    /// One rustc monomorphization placement.
    Placement(mono::RecordData),
    /// The start of one disassembled LLVM module.
    ModuleStarted(ModuleStartData),
    /// One symbol record in the current module.
    Symbol(RecordData),
    /// The start of one raw optimization-remark file.
    RemarkFileStarted(RemarkFileStartData),
    /// One optimization-remark document in the current file.
    Remark(RemarkData),
}

impl View for EvidenceEvent {
    type V = EvidenceEventData;

    open spec fn view(&self) -> EvidenceEventData {
        match self {
            EvidenceEvent::Placement { record } => EvidenceEventData::Placement(record@),
            EvidenceEvent::ModuleStarted { module } => EvidenceEventData::ModuleStarted(module@),
            EvidenceEvent::Body { body } => EvidenceEventData::Symbol(
                ModuleRecord::Body(*body)@,
            ),
            EvidenceEvent::Declaration { declaration } => EvidenceEventData::Symbol(
                ModuleRecord::Declaration(*declaration)@,
            ),
            EvidenceEvent::Alias { alias } => EvidenceEventData::Symbol(
                ModuleRecord::Alias(*alias)@,
            ),
            EvidenceEvent::RemarkFileStarted { file } => EvidenceEventData::RemarkFileStarted(
                file@,
            ),
            EvidenceEvent::Remark { remark } => EvidenceEventData::Remark(remark@),
        }
    }
}

/// The event for a symbol record.
pub open spec fn symbol_event(record: ModuleRecord) -> EvidenceEvent {
    match record {
        ModuleRecord::Body(body) => EvidenceEvent::Body { body },
        ModuleRecord::Declaration(declaration) => EvidenceEvent::Declaration { declaration },
        ModuleRecord::Alias(alias) => EvidenceEvent::Alias { alias },
    }
}

/// Reports a symbol record.
pub fn record_event(record: ModuleRecord) -> (result: EvidenceEvent)
    ensures
        result == symbol_event(record),
        result@ == EvidenceEventData::Symbol(record@),
{
    match record {
        ModuleRecord::Body(body) => EvidenceEvent::Body { body },
        ModuleRecord::Declaration(declaration) => EvidenceEvent::Declaration { declaration },
        ModuleRecord::Alias(alias) => EvidenceEvent::Alias { alias },
    }
}

/// One subprocess command involved in a capture.
#[derive(Debug, PartialEq, Eq)]
pub struct CommandInvocation {
    /// The executable passed to the operating system.
    pub program: String,
    /// The exact Unicode arguments supplied to the executable.
    pub arguments: Vec<String>,
}

/// The mathematical counterpart of [`CommandInvocation`].
pub struct CommandInvocationData {
    /// The executable passed to the operating system.
    pub program: Seq<char>,
    /// The exact Unicode arguments supplied to the executable.
    pub arguments: Seq<Seq<char>>,
}

impl View for CommandInvocation {
    type V = CommandInvocationData;

    open spec fn view(&self) -> CommandInvocationData {
        CommandInvocationData {
            program: self.program@,
            arguments: crate::chars::views(self.arguments@),
        }
    }
}

impl Clone for CommandInvocation {
    fn clone(&self) -> (result: Self)
        ensures
            result@ == self@,
    {
        CommandInvocation {
            program: self.program.clone(),
            arguments: copy_texts(&self.arguments),
        }
    }
}

/// The mathematical counterpart of an optional value.
pub open spec fn command_invocation_option(value: Option<CommandInvocation>) -> Option<CommandInvocationData> {
    match value {
        Some(value) => Some(value@),
        None => None,
    }
}

fn copy_command_invocation_option(value: &Option<CommandInvocation>) -> (result: Option<CommandInvocation>)
    ensures
        command_invocation_option(result) == command_invocation_option(*value),
{
    match value {
        Some(value) => Some(value.clone()),
        None => None,
    }
}

/// One non-secret compiler environment variable that can affect code generation.
#[derive(Debug, PartialEq, Eq)]
pub struct EnvironmentVariable {
    /// The variable name.
    pub name: String,
    /// The variable value.
    pub value: String,
}

/// The mathematical counterpart of [`EnvironmentVariable`].
pub struct EnvironmentVariableData {
    /// The variable name.
    pub name: Seq<char>,
    /// The variable value.
    pub value: Seq<char>,
}

impl View for EnvironmentVariable {
    type V = EnvironmentVariableData;

    open spec fn view(&self) -> EnvironmentVariableData {
        EnvironmentVariableData {
            name: self.name@,
            value: self.value@,
        }
    }
}

impl Clone for EnvironmentVariable {
    fn clone(&self) -> (result: Self)
        ensures
            result@ == self@,
    {
        EnvironmentVariable {
            name: self.name.clone(),
            value: self.value.clone(),
        }
    }
}

/// The mathematical counterparts of a list.
pub open spec fn environment_variable_list(values: Seq<EnvironmentVariable>) -> Seq<EnvironmentVariableData> {
    values.map_values(|value: EnvironmentVariable| value@)
}

fn copy_environment_variable_list(values: &Vec<EnvironmentVariable>) -> (result: Vec<EnvironmentVariable>)
    ensures
        environment_variable_list(result@) == environment_variable_list(values@),
{
    let mut result: Vec<EnvironmentVariable> = Vec::new();
    let mut index: usize = 0;
    while index < values.len()
        invariant
            index <= values@.len(),
            environment_variable_list(result@) == environment_variable_list(values@).take(index as int),
        decreases values.len() - index,
    {
        let value = values[index].clone();
        let ghost before = result@;
        result.push(value);
        assert(environment_variable_list(result@) =~= environment_variable_list(before).push(value@));
        assert(environment_variable_list(result@) =~= environment_variable_list(values@).take(index + 1));
        index += 1;
    }
    assert(environment_variable_list(result@) =~= environment_variable_list(values@));
    result
}

/// One unstable-access mechanism that Optic can use in a bounded compiler subprocess.
#[derive(Clone, Copy, Debug, PartialEq, Eq, Structural)]
pub enum UnstableAccessMechanism {
    /// Optic set `RUSTC_BOOTSTRAP=1` for a bounded child process.
    RustcBootstrap,
}

/// One child-process scope in which Optic is authorized to enable unstable compiler access.
#[derive(Clone, Copy, Debug, PartialEq, Eq, Structural)]
pub enum UnstableAccessScope {
    /// Reading Cargo's merged configuration.
    CargoConfigDiscovery,
    /// Building the exact-version rustc-private driver.
    DriverBuild,
    /// Running rustc for the selected Cargo target.
    SelectedTarget,
}

/// The bounded unstable-access policy for one capture.
#[derive(Debug, PartialEq, Eq)]
pub struct UnstableAccess {
    /// The mechanism available to each authorized scope.
    pub mechanism: UnstableAccessMechanism,
    /// The only child-process scopes in which Optic can use the mechanism.
    ///
    /// A scope can be authorized without running. For example, Optic does not build a cached
    /// compiler driver again.
    pub authorized_scopes: Vec<UnstableAccessScope>,
}

/// The mathematical counterpart of [`UnstableAccess`].
pub struct UnstableAccessData {
    /// The mechanism available to each authorized scope.
    pub mechanism: UnstableAccessMechanism,
    /// The authorized scopes.
    pub authorized_scopes: Seq<UnstableAccessScope>,
}

impl View for UnstableAccess {
    type V = UnstableAccessData;

    open spec fn view(&self) -> UnstableAccessData {
        UnstableAccessData {
            mechanism: self.mechanism,
            authorized_scopes: self.authorized_scopes@,
        }
    }
}

impl Clone for UnstableAccess {
    fn clone(&self) -> (result: Self)
        ensures
            result@ == self@,
    {
        let mut scopes: Vec<UnstableAccessScope> = Vec::new();
        let mut index: usize = 0;
        while index < self.authorized_scopes.len()
            invariant
                index <= self.authorized_scopes@.len(),
                scopes@ == self.authorized_scopes@.take(index as int),
            decreases self.authorized_scopes.len() - index,
        {
            scopes.push(self.authorized_scopes[index]);
            assert(scopes@ =~= self.authorized_scopes@.take(index + 1));
            index += 1;
        }
        assert(scopes@ =~= self.authorized_scopes@);
        UnstableAccess { mechanism: self.mechanism, authorized_scopes: scopes }
    }
}

/// The policy of every capture.
pub open spec fn capture_access() -> UnstableAccessData {
    UnstableAccessData {
        mechanism: UnstableAccessMechanism::RustcBootstrap,
        authorized_scopes: seq![
            UnstableAccessScope::CargoConfigDiscovery,
            UnstableAccessScope::DriverBuild,
            UnstableAccessScope::SelectedTarget,
        ],
    }
}

fn bounded_access() -> (result: UnstableAccess)
    ensures
        result@ == capture_access(),
{
    let mut scopes: Vec<UnstableAccessScope> = Vec::new();
    scopes.push(UnstableAccessScope::CargoConfigDiscovery);
    scopes.push(UnstableAccessScope::DriverBuild);
    scopes.push(UnstableAccessScope::SelectedTarget);
    assert(scopes@ =~= capture_access().authorized_scopes);
    UnstableAccess {
        mechanism: UnstableAccessMechanism::RustcBootstrap,
        authorized_scopes: scopes,
    }
}

/// The request and effective process metadata for one Cargo analysis.
#[derive(Debug, PartialEq, Eq)]
pub struct CaptureInvocation {
    /// The normalized request.
    pub request: BuildRequest,
    /// The exact Cargo command.
    pub cargo: CommandInvocation,
    /// The selected rustc command, when Cargo invoked rustc.
    pub rustc: Option<CommandInvocation>,
    /// The effective outer-to-inner wrapper chain.
    pub wrapper_chain: Vec<String>,
    /// Codegen-related environment variables inherited by Cargo.
    pub environment: Vec<EnvironmentVariable>,
    /// Compiler arguments injected to collect evidence or implement the capture profile.
    pub injected_rustc_arguments: Vec<String>,
    /// The bounded policy for unstable compiler access.
    pub unstable_access: UnstableAccess,
}

/// The mathematical counterpart of [`CaptureInvocation`].
pub struct CaptureInvocationData {
    /// The normalized request.
    pub request: BuildRequestData,
    /// The exact Cargo command.
    pub cargo: CommandInvocationData,
    /// The selected rustc command, when Cargo invoked rustc.
    pub rustc: Option<CommandInvocationData>,
    /// The effective outer-to-inner wrapper chain.
    pub wrapper_chain: Seq<Seq<char>>,
    /// Codegen-related environment variables inherited by Cargo.
    pub environment: Seq<EnvironmentVariableData>,
    /// Compiler arguments injected to collect evidence or implement the capture profile.
    pub injected_rustc_arguments: Seq<Seq<char>>,
    /// The bounded policy for unstable compiler access.
    pub unstable_access: UnstableAccessData,
}

impl View for CaptureInvocation {
    type V = CaptureInvocationData;

    open spec fn view(&self) -> CaptureInvocationData {
        CaptureInvocationData {
            request: self.request@,
            cargo: self.cargo@,
            rustc: command_invocation_option(self.rustc),
            wrapper_chain: crate::chars::views(self.wrapper_chain@),
            environment: environment_variable_list(self.environment@),
            injected_rustc_arguments: crate::chars::views(self.injected_rustc_arguments@),
            unstable_access: self.unstable_access@,
        }
    }
}

impl Clone for CaptureInvocation {
    fn clone(&self) -> (result: Self)
        ensures
            result@ == self@,
    {
        CaptureInvocation {
            request: self.request.clone(),
            cargo: self.cargo.clone(),
            rustc: copy_command_invocation_option(&self.rustc),
            wrapper_chain: copy_texts(&self.wrapper_chain),
            environment: copy_environment_variable_list(&self.environment),
            injected_rustc_arguments: copy_texts(&self.injected_rustc_arguments),
            unstable_access: self.unstable_access.clone(),
        }
    }
}

/// Metadata retained between compiler execution and evidence ingestion.
#[derive(Clone, Debug, PartialEq, Eq)]
pub struct CompiledCapture {
    /// The request and effective compiler invocation.
    pub invocation: CaptureInvocation,
    /// The exact analyzed compiler.
    pub toolchain: Toolchain,
}

/// The mathematical counterpart of [`CompiledCapture`].
pub struct CompiledCaptureData {
    /// The request and effective compiler invocation.
    pub invocation: CaptureInvocationData,
    /// The exact analyzed compiler.
    pub toolchain: ToolchainData,
}

impl View for CompiledCapture {
    type V = CompiledCaptureData;

    open spec fn view(&self) -> CompiledCaptureData {
        CompiledCaptureData {
            invocation: self.invocation@,
            toolchain: self.toolchain@,
        }
    }
}

/// Capture metadata that is available before evidence records are streamed.
#[derive(Clone, Debug, PartialEq, Eq)]
pub struct EvidenceMetadata {
    /// The request and effective compiler invocation.
    pub invocation: CaptureInvocation,
    /// The exact analyzed compiler.
    pub toolchain: Toolchain,
    /// Whether the capture requested optimization remarks.
    pub remarks_captured: bool,
}

/// The mathematical counterpart of [`EvidenceMetadata`].
pub struct EvidenceMetadataData {
    /// The request and effective compiler invocation.
    pub invocation: CaptureInvocationData,
    /// The exact analyzed compiler.
    pub toolchain: ToolchainData,
    /// Whether the capture requested optimization remarks.
    pub remarks_captured: bool,
}

impl View for EvidenceMetadata {
    type V = EvidenceMetadataData;

    open spec fn view(&self) -> EvidenceMetadataData {
        EvidenceMetadataData {
            invocation: self.invocation@,
            toolchain: self.toolchain@,
            remarks_captured: self.remarks_captured,
        }
    }
}

/// The result of asking Cargo for evidence.
#[derive(Clone, Debug, PartialEq, Eq)]
pub enum CompileOutcome {
    /// Cargo invoked rustc and new evidence was collected.
    Compiled {
        /// Metadata needed to ingest the retained compiler artifacts.
        compilation: CompiledCapture,
    },
    /// Cargo completed without invoking the selected rustc driver and reported fresh artifacts.
    Fresh {
        /// Request and Cargo invocation metadata. `rustc` is absent.
        invocation: CaptureInvocation,
        /// The number of fresh compiler-artifact events that Cargo reported.
        artifact_count: usize,
    },
}

/// The mathematical counterpart of [`CompileOutcome`].
pub enum CompileOutcomeData {
    /// Cargo invoked rustc and new evidence was collected.
    Compiled {
        /// Metadata needed to ingest the retained compiler artifacts.
        compilation: CompiledCaptureData,
    },
    /// Cargo completed without invoking the selected rustc driver and reported fresh artifacts.
    Fresh {
        /// Request and Cargo invocation metadata. `rustc` is absent.
        invocation: CaptureInvocationData,
        /// The number of fresh compiler-artifact events that Cargo reported.
        artifact_count: usize,
    },
}

impl View for CompileOutcome {
    type V = CompileOutcomeData;

    open spec fn view(&self) -> CompileOutcomeData {
        match self {
            CompileOutcome::Compiled { compilation } => CompileOutcomeData::Compiled { compilation: compilation@ },
            CompileOutcome::Fresh { invocation, artifact_count } => CompileOutcomeData::Fresh { invocation: invocation@, artifact_count: *artifact_count },
        }
    }
}

/// A flag with an optional value.
pub open spec fn valued(flag: Seq<char>, value: Option<Seq<char>>) -> Seq<Seq<char>> {
    match value {
        Some(value) => seq![flag, value],
        None => Seq::empty(),
    }
}

/// An optional flag.
pub open spec fn flagged(flag: Seq<char>, on: bool) -> Seq<Seq<char>> {
    if on {
        seq![flag]
    } else {
        Seq::empty()
    }
}

/// The arguments that select a target.
pub open spec fn target_arguments(target: Option<CargoTargetData>) -> Seq<Seq<char>> {
    match target {
        Some(CargoTargetData::Library) => seq!["--lib"@],
        Some(CargoTargetData::Binary(name)) => seq!["--bin"@, name],
        Some(CargoTargetData::Benchmark(name)) => seq!["--bench"@, name],
        Some(CargoTargetData::Example(name)) => seq!["--example"@, name],
        None => Seq::empty(),
    }
}

/// The arguments that select features.
pub open spec fn feature_arguments(features: Seq<Seq<char>>) -> Seq<Seq<char>> {
    if features.len() > 0 {
        seq!["--features"@, chars::joined(features, ","@)]
    } else {
        Seq::empty()
    }
}

/// The directory for optimization remarks.
pub open spec fn remarks_path(analysis_directory: Seq<char>) -> Seq<char> {
    paths::joined(analysis_directory, "remarks"@)
}

/// The compiler arguments that save temporaries.
pub open spec fn evidence_arguments(analysis_directory: Seq<char>) -> Seq<Seq<char>> {
    seq!["-C"@, "save-temps"@, "-Z"@, wrapper::temps_text(analysis_directory)]
}

/// The compiler arguments that emit optimization remarks.
pub open spec fn remark_arguments(analysis_directory: Seq<char>, on: bool) -> Seq<Seq<char>> {
    if on {
        seq![
            "-C"@,
            "remark=all"@,
            "-Z"@,
            "remark-dir="@ + remarks_path(analysis_directory),
        ]
    } else {
        Seq::empty()
    }
}

/// The compiler arguments of a capture profile.
pub open spec fn profile_arguments(profile: CaptureProfileData) -> Seq<Seq<char>> {
    match profile {
        CaptureProfileData::Faithful => Seq::empty(),
        CaptureProfileData::Enriched => seq![
            "-C"@,
            "symbol-mangling-version=v0"@,
            "-C"@,
            "debuginfo=line-tables-only"@,
        ],
        CaptureProfileData::Experiment { rustc_arguments } => rustc_arguments,
    }
}

/// The compiler arguments of a capture.
pub open spec fn injected_arguments(request: BuildRequestData) -> Seq<Seq<char>> {
    evidence_arguments(request.analysis_directory) + remark_arguments(
        request.analysis_directory,
        request.capture_remarks,
    ) + profile_arguments(request.capture_profile)
}

/// The arguments of Cargo.
pub open spec fn cargo_arguments(request: BuildRequestData) -> Seq<Seq<char>> {
    seq!["rustc"@, "--message-format=json-render-diagnostics"@] + valued(
        "--manifest-path"@,
        request.manifest_path,
    ) + valued("--package"@, request.package) + target_arguments(request.target) + valued(
        "--profile"@,
        request.profile,
    ) + feature_arguments(request.features) + flagged("--all-features"@, request.all_features)
        + flagged("--no-default-features"@, request.no_default_features) + valued(
        "--target"@,
        request.target_triple,
    ) + flagged("--locked"@, request.locked) + flagged("--offline"@, request.offline) + flagged(
        "--frozen"@,
        request.frozen,
    ) + seq!["--"@] + injected_arguments(request)
}

fn add_valued(arguments: &mut Vec<String>, flag: &str, value: &Option<String>)
    ensures
        chars::views(final(arguments)@) == chars::views(old(arguments)@) + valued(
            flag@,
            chars::option_view(*value),
        ),
{
    if let Some(value) = value {
        add_text(arguments, flag);
        add_text(arguments, value.as_str());
    }
    assert(chars::views(arguments@) =~= chars::views(old(arguments)@) + valued(
        flag@,
        chars::option_view(*value),
    ));
}

fn add_flag(arguments: &mut Vec<String>, flag: &str, on: bool)
    ensures
        chars::views(final(arguments)@) == chars::views(old(arguments)@) + flagged(flag@, on),
{
    if on {
        add_text(arguments, flag);
    }
    assert(chars::views(arguments@) =~= chars::views(old(arguments)@) + flagged(flag@, on));
}

fn add_all(arguments: &mut Vec<String>, more: &Vec<String>)
    ensures
        chars::views(final(arguments)@) == chars::views(old(arguments)@) + chars::views(more@),
{
    let ghost before = chars::views(arguments@);
    let ghost all = chars::views(more@);
    let mut index: usize = 0;
    assert(chars::views(arguments@) =~= before + all.take(0));
    while index < more.len()
        invariant
            index <= more@.len(),
            all == chars::views(more@),
            chars::views(arguments@) == before + all.take(index as int),
        decreases more.len() - index,
    {
        add_text(arguments, more[index].as_str());
        assert(all[index as int] == more@[index as int]@);
        assert(chars::views(arguments@) =~= before + all.take(index + 1));
        index += 1;
    }
    assert(all.take(all.len() as int) =~= all);
}

fn add_target(arguments: &mut Vec<String>, target: &Option<CargoTarget>)
    ensures
        chars::views(final(arguments)@) == chars::views(old(arguments)@) + target_arguments(
            super::request::cargo_target_option(*target),
        ),
{
    if let Some(target) = target {
        match target {
            CargoTarget::Library => {
                add_text(arguments, "--lib");
            },
            CargoTarget::Binary(name) => {
                add_text(arguments, "--bin");
                add_text(arguments, name.as_str());
            },
            CargoTarget::Benchmark(name) => {
                add_text(arguments, "--bench");
                add_text(arguments, name.as_str());
            },
            CargoTarget::Example(name) => {
                add_text(arguments, "--example");
                add_text(arguments, name.as_str());
            },
        }
    }
    assert(chars::views(arguments@) =~= chars::views(old(arguments)@) + target_arguments(
        super::request::cargo_target_option(*target),
    ));
}

fn add_features(arguments: &mut Vec<String>, features: &Vec<String>)
    ensures
        chars::views(final(arguments)@) == chars::views(old(arguments)@) + feature_arguments(
            chars::views(features@),
        ),
{
    if features.len() > 0 {
        add_text(arguments, "--features");
        let list = join(features, ",");
        add_text(arguments, list.as_str());
    }
    assert(chars::views(arguments@) =~= chars::views(old(arguments)@) + feature_arguments(
        chars::views(features@),
    ));
}

/// Returns the directory for optimization remarks.
pub fn remarks_directory(analysis_directory: &str) -> (result: String)
    ensures
        result@ == remarks_path(analysis_directory@),
{
    paths::join(analysis_directory, "remarks")
}

/// Lists the compiler arguments of a capture.
pub fn injected_rustc_arguments(request: &BuildRequest) -> (result: Vec<String>)
    ensures
        chars::views(result@) == injected_arguments(request@),
{
    let directory = request.analysis_directory.as_str();
    let mut arguments = no_texts();
    add_text(&mut arguments, "-C");
    add_text(&mut arguments, "save-temps");
    add_text(&mut arguments, "-Z");
    let temps = temps_argument(directory);
    add_text(&mut arguments, temps.as_str());
    assert(chars::views(arguments@) =~= evidence_arguments(directory@));
    let ghost saved = chars::views(arguments@);
    if request.capture_remarks {
        add_text(&mut arguments, "-C");
        add_text(&mut arguments, "remark=all");
        add_text(&mut arguments, "-Z");
        let mut argument = String::from_str("remark-dir=");
        argument.append(remarks_directory(directory).as_str());
        add_text(&mut arguments, argument.as_str());
    }
    assert(chars::views(arguments@) =~= saved + remark_arguments(
        directory@,
        request.capture_remarks,
    ));
    let ghost emitted = chars::views(arguments@);
    match &request.capture_profile {
        CaptureProfile::Faithful => {},
        CaptureProfile::Enriched => {
            add_text(&mut arguments, "-C");
            add_text(&mut arguments, "symbol-mangling-version=v0");
            add_text(&mut arguments, "-C");
            add_text(&mut arguments, "debuginfo=line-tables-only");
        },
        CaptureProfile::Experiment { rustc_arguments } => {
            add_all(&mut arguments, rustc_arguments);
        },
    }
    assert(chars::views(arguments@) =~= emitted + profile_arguments(request@.capture_profile));
    arguments
}

/// Lists the arguments of Cargo.
pub fn cargo_command(request: &BuildRequest) -> (result: Vec<String>)
    ensures
        chars::views(result@) == cargo_arguments(request@),
{
    let mut arguments = no_texts();
    add_text(&mut arguments, "rustc");
    add_text(&mut arguments, "--message-format=json-render-diagnostics");
    assert(chars::views(arguments@) =~= seq![
        "rustc"@,
        "--message-format=json-render-diagnostics"@,
    ]);
    add_valued(&mut arguments, "--manifest-path", &request.manifest_path);
    add_valued(&mut arguments, "--package", &request.package);
    add_target(&mut arguments, &request.target);
    add_valued(&mut arguments, "--profile", &request.profile);
    add_features(&mut arguments, &request.features);
    add_flag(&mut arguments, "--all-features", request.all_features);
    add_flag(&mut arguments, "--no-default-features", request.no_default_features);
    add_valued(&mut arguments, "--target", &request.target_triple);
    add_flag(&mut arguments, "--locked", request.locked);
    add_flag(&mut arguments, "--offline", request.offline);
    add_flag(&mut arguments, "--frozen", request.frozen);
    let ghost before = chars::views(arguments@);
    add_text(&mut arguments, "--");
    assert(chars::views(arguments@) =~= before + seq!["--"@]);
    let injected = injected_rustc_arguments(request);
    add_all(&mut arguments, &injected);
    arguments
}

/// A faithful capture adds exactly the arguments that emit evidence. Another profile adds its own
/// arguments behind those.
pub proof fn faithful_captures_only_emit_evidence(request: BuildRequestData)
    ensures
        request.capture_profile is Faithful && !request.capture_remarks ==> injected_arguments(
            request,
        ) == evidence_arguments(request.analysis_directory),
        request.capture_profile is Faithful ==> injected_arguments(request)
            == evidence_arguments(request.analysis_directory) + remark_arguments(
            request.analysis_directory,
            request.capture_remarks,
        ),
        ({
            let faithful = BuildRequestData {
                capture_profile: CaptureProfileData::Faithful,
                ..request
            };
            injected_arguments(request) == injected_arguments(faithful) + profile_arguments(
                request.capture_profile,
            )
        }),
{
    let emitted = evidence_arguments(request.analysis_directory) + remark_arguments(
        request.analysis_directory,
        request.capture_remarks,
    );
    assert(emitted + Seq::<Seq<char>>::empty() =~= emitted);
    if !request.capture_remarks {
        assert(emitted =~= evidence_arguments(request.analysis_directory));
    }
}

/// A command split into its program and its arguments.
pub open spec fn invocation_of(arguments: Seq<Seq<char>>) -> Result<
    CommandInvocationData,
    ErrorData,
> {
    if arguments.len() == 0 {
        Err(
            Failure::InvalidIdentityManifest {
                path: manifest_name(),
                problem: IdentityProblem::NoCompiler,
            },
        )
    } else {
        Ok(CommandInvocationData { program: arguments[0], arguments: arguments.skip(1) })
    }
}

/// Splits the recorded compiler command.
pub fn compiler_invocation(arguments: &[String]) -> (result: Result<CommandInvocation, Error>)
    ensures
        match (result, invocation_of(chars::views(arguments@))) {
            (Ok(invocation), Ok(expected)) => invocation@ == expected,
            (Err(error), Err(expected)) => error@ == expected,
            _ => false,
        },
{
    if arguments.len() == 0 {
        return Err(
            Failure::InvalidIdentityManifest {
                path: String::from_str("identity-v3.bin"),
                problem: IdentityProblem::NoCompiler,
            },
        );
    }
    let ghost all = chars::views(arguments@);
    let program = arguments[0].clone();
    let mut rest = no_texts();
    let mut index: usize = 1;
    assert(chars::views(rest@) =~= all.take(1).skip(1));
    while index < arguments.len()
        invariant
            1 <= index <= arguments@.len(),
            all == chars::views(arguments@),
            chars::views(rest@) == all.take(index as int).skip(1),
        decreases arguments.len() - index,
    {
        add_text(&mut rest, arguments[index].as_str());
        assert(all[index as int] == arguments@[index as int]@);
        assert(chars::views(rest@) =~= all.take(index + 1).skip(1));
        index += 1;
    }
    assert(chars::views(rest@) =~= all.skip(1));
    assert(all[0] == arguments@[0]@);
    Ok(CommandInvocation { program, arguments: rest })
}

/// A variable that can affect code generation.
pub open spec fn compiler_variable(name: Seq<char>) -> bool {
    ||| name == "CARGO_BUILD_RUSTC"@
    ||| name == "CARGO_BUILD_RUSTC_WRAPPER"@
    ||| name == "CARGO_BUILD_RUSTC_WORKSPACE_WRAPPER"@
    ||| name == "CARGO_ENCODED_RUSTFLAGS"@
    ||| name == "CARGO_TARGET_DIR"@
    ||| name == "RUSTC"@
    ||| name == "RUSTC_WRAPPER"@
    ||| name == "RUSTC_WORKSPACE_WRAPPER"@
    ||| name == "RUSTFLAGS"@
    ||| "CARGO_PROFILE_"@.is_prefix_of(name)
    ||| "CARGO_TARGET_"@.is_prefix_of(name)
}

/// Tells whether a variable can affect code generation.
pub fn is_compiler_environment(name: &str) -> (result: bool)
    ensures
        result == compiler_variable(name@),
{
    same_text(name, "CARGO_BUILD_RUSTC") || same_text(name, "CARGO_BUILD_RUSTC_WRAPPER")
        || same_text(name, "CARGO_BUILD_RUSTC_WORKSPACE_WRAPPER") || same_text(
        name,
        "CARGO_ENCODED_RUSTFLAGS",
    ) || same_text(name, "CARGO_TARGET_DIR") || same_text(name, "RUSTC") || same_text(
        name,
        "RUSTC_WRAPPER",
    ) || same_text(name, "RUSTC_WORKSPACE_WRAPPER") || same_text(name, "RUSTFLAGS")
        || starts_with(name, "CARGO_PROFILE_") || starts_with(name, "CARGO_TARGET_")
}

/// Variables are sorted by their names.
impl Ranked for EnvironmentVariable {
    open spec fn before(self, other: Self) -> bool {
        order::text_less(self.name@, other.name@)
    }

    proof fn asymmetric(left: Self, right: Self) {
        order::text_less_is_strict(left.name@, right.name@);
    }

    proof fn negatively_transitive(first: Self, second: Self, third: Self) {
        <String as Ranked>::negatively_transitive(first.name, second.name, third.name);
    }

    fn is_before(&self, other: &Self) -> (result: bool) {
        is_text_less(self.name.as_str(), other.name.as_str())
    }
}

/// The variables that can affect code generation.
pub open spec fn compiler_variables(variables: Seq<EnvironmentVariable>) -> Seq<
    EnvironmentVariable,
> {
    variables.filter(|variable: EnvironmentVariable| compiler_variable(variable.name@))
}

/// Keeps the variables that can affect code generation, sorted by name.
pub fn compiler_environment(variables: Vec<EnvironmentVariable>) -> (result: Vec<
    EnvironmentVariable,
>)
    ensures
        crate::sorting::ordered(result@),
        result@.to_multiset() == compiler_variables(variables@).to_multiset(),
{
    let ghost keep = |variable: EnvironmentVariable| compiler_variable(variable.name@);
    let ghost all = variables@;
    let mut rest = variables;
    let mut kept: Vec<EnvironmentVariable> = Vec::new();
    proof {
        assert(all.skip(all.len() as int) =~= Seq::<EnvironmentVariable>::empty());
        reveal(Seq::filter);
        assert(kept@.reverse() =~= all.skip(all.len() as int).filter(keep));
    }
    while rest.len() > 0
        invariant
            rest@.len() <= all.len(),
            rest@ == all.take(rest@.len() as int),
            keep == (|variable: EnvironmentVariable| compiler_variable(variable.name@)),
            kept@.reverse() == all.skip(rest@.len() as int).filter(keep),
        decreases rest.len(),
    {
        let ghost before = rest@;
        match rest.pop() {
            None => {},
            Some(variable) => {
                let ghost position = rest@.len() as int;
                let ghost known = kept@;
                proof {
                    assert(variable == all[position]);
                    assert(rest@ =~= all.take(position));
                    let suffix = all.skip(position);
                    assert(suffix =~= seq![variable] + all.skip(position + 1));
                    Seq::filter_distributes_over_add(
                        seq![variable],
                        all.skip(position + 1),
                        keep,
                    );
                    reveal_with_fuel(Seq::filter, 2);
                    assert(seq![variable].drop_last() =~= Seq::<EnvironmentVariable>::empty());
                    assert(seq![variable].last() == variable);
                    assert(seq![variable].filter(keep) =~= if keep(variable) {
                        seq![variable]
                    } else {
                        Seq::empty()
                    });
                }
                if is_compiler_environment(variable.name.as_str()) {
                    kept.push(variable);
                    assert(kept@.reverse() =~= seq![variable] + known.reverse());
                } else {
                    assert(kept@.reverse() =~= Seq::empty() + known.reverse());
                }
            },
        }
    }
    proof {
        assert(all.skip(0) =~= all);
        kept@.lemma_reverse_to_multiset();
    }
    sort(kept)
}

/// The stage suffix of a file with an unknown stage.
pub open spec fn unknown_stage(name: Seq<char>) -> Seq<char> {
    let stem = match chars::before(name, ".bc"@) {
        Some(stem) => stem,
        None => name,
    };
    match chars::split_last(stem, ".rcgu."@) {
        Some((_, stage)) => stage,
        None => stem,
    }
}

/// The stage of a file.
pub open spec fn stage_of(name: Seq<char>) -> (Seq<char>, Option<LlvmStage>, LtoScope) {
    if ".no-opt.bc"@.is_suffix_of(name) {
        ("no-opt"@, Some(LlvmStage::PreOptimization), LtoScope::NoLto)
    } else if ".thin-lto-input.bc"@.is_suffix_of(name) {
        ("thin-lto-input"@, None, LtoScope::Thin)
    } else if ".thin-lto-after-import.bc"@.is_suffix_of(name) {
        ("thin-lto-after-import"@, None, LtoScope::Thin)
    } else if ".thin-lto-after-internalize.bc"@.is_suffix_of(name) {
        ("thin-lto-after-internalize"@, None, LtoScope::Thin)
    } else if ".thin-lto-after-pm.bc"@.is_suffix_of(name) {
        ("thin-lto-after-pm"@, Some(LlvmStage::Optimized), LtoScope::Thin)
    } else if chars::has(name, ".thin-lto-"@) {
        (unknown_stage(name), None, LtoScope::Thin)
    } else if ".rcgu.bc"@.is_suffix_of(name) {
        ("rcgu"@, Some(LlvmStage::Optimized), LtoScope::NoLto)
    } else {
        (unknown_stage(name), None, LtoScope::Unknown)
    }
}

/// The codegen unit of a file with a stage.
pub open spec fn unit_of(name: Seq<char>, stage: Seq<char>) -> Option<Seq<char>> {
    match chars::before(name, "."@ + stage + ".bc"@) {
        None => None,
        Some(prefix) => match chars::before(prefix, ".rcgu"@) {
            Some(unit) => Some(unit),
            None => Some(prefix),
        },
    }
}

/// The provenance of a file.
pub open spec fn provenance_of(name: Seq<char>) -> ArtifactProvenanceData {
    let (compiler_stage, stage, lto) = stage_of(name);
    ArtifactProvenanceData {
        stage,
        compiler_stage,
        codegen_unit: unit_of(name, compiler_stage),
        lto,
        capture_method: CaptureMethod::SavedTemporary,
    }
}

fn unknown_compiler_stage(name: &str) -> (result: String)
    ensures
        result@ == unknown_stage(name@),
{
    let stem = match strip_suffix(name, ".bc") {
        Some(stem) => stem,
        None => String::from_str(name),
    };
    match rsplit_once(stem.as_str(), ".rcgu.") {
        Some((_, stage)) => stage,
        None => stem,
    }
}

fn codegen_unit(name: &str, compiler_stage: &str) -> (result: Option<String>)
    ensures
        chars::option_view(result) == unit_of(name@, compiler_stage@),
{
    let mut suffix = String::from_str(".");
    suffix.append(compiler_stage);
    suffix.append(".bc");
    match strip_suffix(name, suffix.as_str()) {
        None => None,
        Some(prefix) => match strip_suffix(prefix.as_str(), ".rcgu") {
            Some(unit) => Some(unit),
            None => Some(prefix),
        },
    }
}

/// Derives the provenance of a file from its compiler-owned name.
pub fn artifact_provenance(name: &str) -> (result: ArtifactProvenance)
    ensures
        result@ == provenance_of(name@),
{
    let (compiler_stage, stage, lto) = if ends_with(name, ".no-opt.bc") {
        (String::from_str("no-opt"), Some(LlvmStage::PreOptimization), LtoScope::NoLto)
    } else if ends_with(name, ".thin-lto-input.bc") {
        (String::from_str("thin-lto-input"), None, LtoScope::Thin)
    } else if ends_with(name, ".thin-lto-after-import.bc") {
        (String::from_str("thin-lto-after-import"), None, LtoScope::Thin)
    } else if ends_with(name, ".thin-lto-after-internalize.bc") {
        (String::from_str("thin-lto-after-internalize"), None, LtoScope::Thin)
    } else if ends_with(name, ".thin-lto-after-pm.bc") {
        (String::from_str("thin-lto-after-pm"), Some(LlvmStage::Optimized), LtoScope::Thin)
    } else if contains(name, ".thin-lto-") {
        (unknown_compiler_stage(name), None, LtoScope::Thin)
    } else if ends_with(name, ".rcgu.bc") {
        (String::from_str("rcgu"), Some(LlvmStage::Optimized), LtoScope::NoLto)
    } else {
        (unknown_compiler_stage(name), None, LtoScope::Unknown)
    };
    let unit = codegen_unit(name, compiler_stage.as_str());
    ArtifactProvenance {
        stage,
        compiler_stage,
        codegen_unit: unit,
        lto,
        capture_method: CaptureMethod::SavedTemporary,
    }
}

/// The start of a module whose bitcode has a name.
pub open spec fn module_of(
    bitcode_path: Seq<char>,
    name: Seq<char>,
    analysis_directory: Seq<char>,
) -> ModuleStartData {
    ModuleStartData {
        name,
        provenance: provenance_of(name),
        bitcode_path,
        text_path: paths::joined(analysis_directory, name + ".ll"@),
    }
}

/// Plans the disassembly of a bitcode file into the analysis directory.
pub fn disassemble_module(bitcode_path: &str, analysis_directory: &str) -> (result: ModuleStart)
    requires
        paths::name_of(bitcode_path@) is Some,
    ensures
        result@ == module_of(
            bitcode_path@,
            paths::name_of(bitcode_path@)->Some_0,
            analysis_directory@,
        ),
{
    let name = match file_name(bitcode_path) {
        Some(name) => name,
        None => String::new(),
    };
    let mut text_name = name.clone();
    text_name.append(".ll");
    ModuleStart {
        provenance: artifact_provenance(name.as_str()),
        name,
        bitcode_path: String::from_str(bitcode_path),
        text_path: paths::join(analysis_directory, text_name.as_str()),
    }
}

/// Appends disassembler diagnostics and keeps only their end.
pub fn extend_diagnostics(diagnostics: &mut Vec<u8>, piece: &[u8])
    ensures
        final(diagnostics)@ == cargo_output::ending(
            old(diagnostics)@ + piece@,
            MAX_DISASSEMBLER_DIAGNOSTIC_BYTES as int,
        ),
{
    put_bytes(diagnostics, piece);
    if diagnostics.len() > MAX_DISASSEMBLER_DIAGNOSTIC_BYTES {
        let mut kept: Vec<u8> = Vec::new();
        let excess: usize = diagnostics.len() - MAX_DISASSEMBLER_DIAGNOSTIC_BYTES;
        put_bytes(&mut kept, tail(diagnostics.as_slice(), excess));
        assert(kept@ =~= cargo_output::ending(
            old(diagnostics)@ + piece@,
            MAX_DISASSEMBLER_DIAGNOSTIC_BYTES as int,
        ));
        *diagnostics = kept;
    }
}

/// Whether generated text was removed. A missing file counts as removed.
pub open spec fn removal_of(text_path: Seq<char>, removed: Result<(), SourceError>) -> Result<
    (),
    ErrorData,
> {
    match removed {
        Ok(()) => Ok(()),
        Err(source) => if source.kind == crate::source::FailureKind::NotFound {
            Ok(())
        } else {
            Err(Failure::Filesystem { operation: "remove"@, path: text_path, source })
        },
    }
}

/// Ends the use of generated LLVM text. An earlier error stays; otherwise the text has to be gone.
pub fn remove_generated_llvm_text<T>(
    text_path: &str,
    result: Result<T, Error>,
    removed: Result<(), SourceError>,
) -> (outcome: Result<T, Error>)
    ensures
        match result {
            Err(error) => outcome == Err::<T, Error>(error),
            Ok(value) => match (removal_of(text_path@, removed), outcome) {
                (Ok(()), Ok(kept)) => kept == value,
                (Err(expected), Err(error)) => error@ == expected,
                _ => false,
            },
        },
{
    match result {
        Err(error) => Err(error),
        Ok(value) => match removed {
            Ok(()) => Ok(value),
            Err(source) => if source.kind == crate::source::FailureKind::NotFound {
                Ok(value)
            } else {
                Err(super::error::filesystem_failure("remove", text_path, source))
            },
        },
    }
}

/// The metadata of a capture.
pub open spec fn described(
    request: BuildRequestData,
    cargo: Seq<char>,
    wrapper_chain: Seq<Seq<char>>,
    environment: Seq<EnvironmentVariableData>,
) -> CaptureInvocationData {
    CaptureInvocationData {
        request,
        cargo: CommandInvocationData { program: cargo, arguments: cargo_arguments(request) },
        rustc: None,
        wrapper_chain,
        environment,
        injected_rustc_arguments: injected_arguments(request),
        unstable_access: capture_access(),
    }
}

/// Describes a capture before it runs.
pub fn describe(
    request: &BuildRequest,
    cargo: &str,
    wrapper_chain: Vec<String>,
    environment: Vec<EnvironmentVariable>,
) -> (result: CaptureInvocation)
    ensures
        result@ == described(
            request@,
            cargo@,
            chars::views(wrapper_chain@),
            environment_variable_list(environment@),
        ),
{
    CaptureInvocation {
        request: request.clone(),
        cargo: CommandInvocation {
            program: String::from_str(cargo),
            arguments: cargo_command(request),
        },
        rustc: None,
        wrapper_chain,
        environment,
        injected_rustc_arguments: injected_rustc_arguments(request),
        unstable_access: bounded_access(),
    }
}

} // verus!

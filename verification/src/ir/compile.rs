//! Runs one Cargo analysis and collects supported LLVM modules.
//!
//! [`compile_with_events`] names the outside steps of an analysis one after the other and decides
//! what follows from each. The selected target has a separate Cargo identity because saved compiler
//! temporaries are part of Cargo's fingerprint. [`check_fresh`] asks Cargo without compiling.

use super::capture;
use super::capture::{
    describe, CaptureInvocation, CaptureInvocationData, CompileOutcome, CompileOutcomeData,
    CompiledCapture, CompiledCaptureData, EnvironmentVariable, EnvironmentVariableData,
};
use super::cargo_output;
use super::cargo_output::{
    CargoProcessEvent, CargoRun, CargoRunState, EventData, ReaderMessage, RunData,
};
use super::driver;
use super::driver::{
    cached_driver, cargo_home, driver_cache_directory, require_inactive, require_rustc_dev,
    CachePlan, CachePlanData, CacheReply, CacheStep, EnvironmentChange, EnvironmentChangeData,
    RustcDriver, RustcDriverData,
};
use super::error::{filesystem_failure, Error, ErrorData, Failure};
use super::remark_files::DirectoryEntry;
use super::request::{BuildRequest, BuildRequestData};
use super::toolchain;
use super::toolchain::{
    inspect_workspace_toolchain, CargoContext, CargoContextData, Inspection, InspectionData,
    InspectionReply, ToolEnvironment, ToolEnvironmentData, Toolchain, ToolchainData,
};
use crate::chars;
use crate::chars::{contains, ends_with};
use crate::paths;
use crate::sorting::{ordered, sort, PathItem};
use crate::process::ExitReport;
use crate::source::SourceError;
use crate::text::same_text;
use vstd::prelude::*;
use vstd::string::StringExecFns;

verus! {

/// What provisioning a driver reads from its surroundings.
#[derive(Debug, PartialEq, Eq)]
pub struct DriverEnvironment {
    /// The value of `OPTIC_RUSTC_WRAPPER_ACTIVE`.
    pub wrapper_active: Option<String>,
    /// The value of `CARGO_HOME`.
    pub cargo_home: Option<String>,
    /// The value of `HOME`.
    pub home: Option<String>,
    /// The source of the driver.
    pub driver_source: String,
}

/// The mathematical counterpart of [`DriverEnvironment`].
pub struct DriverEnvironmentData {
    /// The value of `OPTIC_RUSTC_WRAPPER_ACTIVE`.
    pub wrapper_active: Option<Seq<char>>,
    /// The value of `CARGO_HOME`.
    pub cargo_home: Option<Seq<char>>,
    /// The value of `HOME`.
    pub home: Option<Seq<char>>,
    /// The source of the driver.
    pub driver_source: Seq<char>,
}

impl View for DriverEnvironment {
    type V = DriverEnvironmentData;

    open spec fn view(&self) -> DriverEnvironmentData {
        DriverEnvironmentData {
            wrapper_active: crate::chars::option_view(self.wrapper_active),
            cargo_home: crate::chars::option_view(self.cargo_home),
            home: crate::chars::option_view(self.home),
            driver_source: self.driver_source@,
        }
    }
}

/// What a capture reads from its surroundings.
#[derive(Debug, PartialEq, Eq)]
pub struct CaptureInputs {
    /// The variables that select tools.
    pub tools: ToolEnvironment,
    /// What provisioning a driver reads.
    pub driver: DriverEnvironment,
    /// The variables that can affect code generation, sorted by name.
    pub variables: Vec<EnvironmentVariable>,
}

/// The mathematical counterpart of [`CaptureInputs`].
pub struct CaptureInputsData {
    /// The variables that select tools.
    pub tools: ToolEnvironmentData,
    /// What provisioning a driver reads.
    pub driver: DriverEnvironmentData,
    /// The variables that can affect code generation, sorted by name.
    pub variables: Seq<EnvironmentVariableData>,
}

impl View for CaptureInputs {
    type V = CaptureInputsData;

    open spec fn view(&self) -> CaptureInputsData {
        CaptureInputsData {
            tools: self.tools@,
            driver: self.driver@,
            variables: capture::environment_variable_list(self.variables@),
        }
    }
}

/// How far the preparation of a driver has come.
pub enum Preparation {
    /// The library directory of the toolchain is listed.
    Listing,
    /// A step of provisioning the cached driver is done.
    Caching(CachePlan, CacheStep),
    /// The driver can be used.
    Ready(RustcDriver),
}

/// The mathematical counterpart of [`Preparation`].
pub enum PreparationData {
    /// The library directory of the toolchain is listed.
    Listing,
    /// A step of provisioning the cached driver is done.
    Caching(CachePlanData, CacheStep),
    /// The driver can be used.
    Ready(RustcDriverData),
}

impl View for Preparation {
    type V = PreparationData;

    open spec fn view(&self) -> PreparationData {
        match self {
            Preparation::Listing => PreparationData::Listing,
            Preparation::Caching(plan, step) => PreparationData::Caching(plan@, *step),
            Preparation::Ready(driver) => PreparationData::Ready(driver@),
        }
    }
}

/// What an outside step of a preparation gave.
pub enum PreparationReply {
    /// The library directory was listed.
    Listed(Result<Vec<Result<String, SourceError>>, SourceError>),
    /// A step of provisioning ended.
    Cache(CacheReply),
}

/// A preparation starts unless a wrapper is active.
pub open spec fn preparation_start(active: Option<Seq<char>>) -> Result<
    PreparationData,
    ErrorData,
> {
    if active is Some {
        Err(
            Failure::CompilerEnvironment {
                problem: super::error::EnvironmentProblem::WrapperActive,
            },
        )
    } else {
        Ok(PreparationData::Listing)
    }
}

/// The preparation behind a reply. Another reply changes nothing.
pub open spec fn preparation_after(
    environment: DriverEnvironmentData,
    cargo: CargoContextData,
    toolchain: ToolchainData,
    state: PreparationData,
    reply: PreparationReply,
) -> Result<PreparationData, ErrorData> {
    match (state, reply) {
        (PreparationData::Listing, PreparationReply::Listed(listing)) => match
            driver::rustc_dev_verdict(toolchain, listing) {
            Err(error) => Err(error),
            Ok(()) => match driver::home_of(environment.cargo_home, environment.home) {
                Err(error) => Err(error),
                Ok(home) => Ok(
                    PreparationData::Caching(
                        driver::plan_of(
                            driver::cache_directory(home, toolchain, environment.driver_source),
                        ),
                        CacheStep::CreateDirectory,
                    ),
                ),
            },
        },
        (PreparationData::Caching(plan, step), PreparationReply::Cache(reply)) => match
            driver::cache_after(plan, toolchain.rustc, step, reply) {
            Err(error) => Err(error),
            Ok(CacheStep::Ready) => Ok(
                PreparationData::Ready(driver::composed(plan.executable, cargo)),
            ),
            Ok(step) => Ok(PreparationData::Caching(plan, step)),
        },
        _ => Ok(state),
    }
}

/// A preparation or an error agrees with the expected one.
pub open spec fn preparation_agrees(
    result: Result<Preparation, Error>,
    expected: Result<PreparationData, ErrorData>,
) -> bool {
    match (result, expected) {
        (Ok(state), Ok(meant)) => state@ == meant,
        (Err(error), Err(meant)) => error@ == meant,
        _ => false,
    }
}

impl Preparation {
    /// Starts a preparation.
    pub fn start(active: &Option<String>) -> (result: Result<Self, Error>)
        ensures
            preparation_agrees(result, preparation_start(chars::option_view(*active))),
    {
        match require_inactive(active) {
            Err(error) => Err(error),
            Ok(()) => Ok(Preparation::Listing),
        }
    }

    /// Takes the reply to an outside step.
    pub fn accept(
        self,
        environment: &DriverEnvironment,
        cargo: &CargoContext,
        toolchain: &Toolchain,
        reply: PreparationReply,
    ) -> (result: Result<Self, Error>)
        ensures
            preparation_agrees(
                result,
                preparation_after(environment@, cargo@, toolchain@, self@, reply),
            ),
    {
        match (self, reply) {
            (Preparation::Listing, PreparationReply::Listed(listing)) => {
                match require_rustc_dev(toolchain, listing) {
                    Err(error) => {
                        return Err(error);
                    },
                    Ok(()) => {},
                }
                match cargo_home(&environment.cargo_home, &environment.home) {
                    Err(error) => Err(error),
                    Ok(home) => {
                        let directory = driver_cache_directory(
                            home.as_str(),
                            toolchain,
                            environment.driver_source.as_str(),
                        );
                        Ok(
                            Preparation::Caching(
                                CachePlan::new(directory),
                                CacheStep::CreateDirectory,
                            ),
                        )
                    },
                }
            },
            (Preparation::Caching(plan, step), PreparationReply::Cache(reply)) => match
                cached_driver(&plan, toolchain.rustc.as_str(), step, reply) {
                Err(error) => Err(error),
                Ok(CacheStep::Ready) => Ok(
                    Preparation::Ready(RustcDriver::compose(plan.executable, cargo)),
                ),
                Ok(step) => Ok(Preparation::Caching(plan, step)),
            },
            (state, _) => Ok(state),
        }
    }
}

/// How far a compilation has come. Each state but the last waits for one outside step.
pub enum Compilation {
    /// The toolchain is inspected.
    Inspecting(Inspection),
    /// The analysis directory is created with its parents.
    Creating(CargoContext, Toolchain),
    /// The first entry of the analysis directory is looked for.
    Listing(CargoContext, Toolchain),
    /// The remark directory is created.
    CreatingRemarks(CargoContext, Toolchain),
    /// The driver is prepared.
    Preparing(CargoContext, Toolchain, Preparation),
    /// Cargo is started in the workspace with a changed environment.
    Running(CaptureInvocation, Toolchain, Vec<EnvironmentChange>),
    /// The output of Cargo is read up to its end.
    Reading(CaptureInvocation, Toolchain, CargoRunState),
    /// The manifest is looked for, and Cargo reported this many fresh artifacts.
    Finding(CaptureInvocation, Toolchain, Option<usize>),
    /// The manifest and the bitcode are looked for.
    Requiring(CaptureInvocation, Toolchain),
    /// The compilation is over.
    Finished(Result<CompileOutcome, Error>),
}

/// The mathematical counterpart of [`Compilation`].
pub enum CompilationData {
    /// The toolchain is inspected.
    Inspecting(InspectionData),
    /// The analysis directory is created with its parents.
    Creating(CargoContextData, ToolchainData),
    /// The first entry of the analysis directory is looked for.
    Listing(CargoContextData, ToolchainData),
    /// The remark directory is created.
    CreatingRemarks(CargoContextData, ToolchainData),
    /// The driver is prepared.
    Preparing(CargoContextData, ToolchainData, PreparationData),
    /// Cargo is started in the workspace with a changed environment.
    Running(CaptureInvocationData, ToolchainData, Seq<EnvironmentChangeData>),
    /// The output of Cargo is read up to its end.
    Reading(CaptureInvocationData, ToolchainData, RunData),
    /// The manifest is looked for, and Cargo reported this many fresh artifacts.
    Finding(CaptureInvocationData, ToolchainData, Option<usize>),
    /// The manifest and the bitcode are looked for.
    Requiring(CaptureInvocationData, ToolchainData),
    /// The compilation is over.
    Finished(Result<CompileOutcomeData, ErrorData>),
}

impl View for Compilation {
    type V = CompilationData;

    open spec fn view(&self) -> CompilationData {
        match self {
            Compilation::Inspecting(inspection) => CompilationData::Inspecting(inspection@),
            Compilation::Creating(cargo, toolchain) => CompilationData::Creating(
                cargo@,
                toolchain@,
            ),
            Compilation::Listing(cargo, toolchain) => CompilationData::Listing(cargo@, toolchain@),
            Compilation::CreatingRemarks(cargo, toolchain) => CompilationData::CreatingRemarks(
                cargo@,
                toolchain@,
            ),
            Compilation::Preparing(cargo, toolchain, preparation) => CompilationData::Preparing(
                cargo@,
                toolchain@,
                preparation@,
            ),
            Compilation::Running(invocation, toolchain, changes) => CompilationData::Running(
                invocation@,
                toolchain@,
                driver::environment_change_list(changes@),
            ),
            Compilation::Reading(invocation, toolchain, run) => CompilationData::Reading(
                invocation@,
                toolchain@,
                run.data(),
            ),
            Compilation::Finding(invocation, toolchain, fresh) => CompilationData::Finding(
                invocation@,
                toolchain@,
                *fresh,
            ),
            Compilation::Requiring(invocation, toolchain) => CompilationData::Requiring(
                invocation@,
                toolchain@,
            ),
            Compilation::Finished(Ok(outcome)) => CompilationData::Finished(Ok(outcome@)),
            Compilation::Finished(Err(error)) => CompilationData::Finished(Err(error@)),
        }
    }
}

/// What an outside step of a compilation gave.
pub enum CompileReply {
    /// A step of the inspection ended.
    Inspection(InspectionReply),
    /// An operation ended.
    Done(Result<(), SourceError>),
    /// A directory was opened and its first entry, if any, was read.
    FirstEntry(Result<Option<Result<(), SourceError>>, SourceError>),
    /// A step of the preparation ended.
    Preparation(PreparationReply),
    /// Cargo was started.
    Started(Result<(), SourceError>),
    /// Cargo wrote output.
    Output(ReaderMessage),
    /// All output of Cargo was read, and Cargo ended.
    Ended(Result<ExitReport, SourceError>),
    /// Cargo ran and its output was read.
    Ran(Result<CargoRun, Error>),
    /// A regular file was looked for.
    Found(bool),
    /// The manifest was looked for, and the bitcode files were listed.
    Evidence(bool, Result<Vec<PathItem>, Error>),
}

/// The path of the identity manifest.
pub open spec fn manifest_path(request: BuildRequestData) -> Seq<char> {
    paths::joined(request.analysis_directory, capture::manifest_name())
}

/// Returns the path of the identity manifest.
pub fn manifest_file(request: &BuildRequest) -> (result: String)
    ensures
        result@ == manifest_path(request@),
{
    paths::join(request.analysis_directory.as_str(), "identity-v3.bin")
}

/// The state in which a driver preparation starts.
pub open spec fn preparing(
    inputs: CaptureInputsData,
    cargo: CargoContextData,
    toolchain: ToolchainData,
) -> CompilationData {
    match preparation_start(inputs.driver.wrapper_active) {
        Err(error) => CompilationData::Finished(Err(error)),
        Ok(preparation) => CompilationData::Preparing(cargo, toolchain, preparation),
    }
}

/// The state behind a prepared analysis directory.
pub open spec fn directory_ready(
    inputs: CaptureInputsData,
    request: BuildRequestData,
    cargo: CargoContextData,
    toolchain: ToolchainData,
) -> CompilationData {
    if request.capture_remarks {
        CompilationData::CreatingRemarks(cargo, toolchain)
    } else {
        preparing(inputs, cargo, toolchain)
    }
}

/// The state behind a step of the inspection.
pub open spec fn inspected(state: InspectionData) -> CompilationData {
    match state {
        InspectionData::Finished(Err(error)) => CompilationData::Finished(Err(error)),
        InspectionData::Finished(Ok((cargo, toolchain))) => CompilationData::Creating(
            cargo,
            toolchain,
        ),
        _ => CompilationData::Inspecting(state),
    }
}

/// The error of a process that ended with a report, if it failed.
pub open spec fn report_failure(report: ExitReport, run: RunData, program: Seq<char>) -> Option<
    ErrorData,
> {
    if report.success {
        None
    } else {
        Some(
            Failure::ProcessFailed {
                program,
                status: report.status@,
                diagnostics: cargo_output::tail_text(run.kept, run.truncated),
            },
        )
    }
}

/// The error of a failed Cargo process, if it failed.
pub open spec fn run_failure(run: CargoRun, program: Seq<char>) -> Option<ErrorData> {
    report_failure(run.report(), run.data(), program)
}

/// The state behind the end of Cargo.
pub open spec fn cargo_ended(
    invocation: CaptureInvocationData,
    toolchain: ToolchainData,
    run: RunData,
    ended: Result<ExitReport, SourceError>,
) -> CompilationData {
    match (cargo_output::run_result(run, "cargo rustc"@, ended), ended) {
        (Ok(()), Ok(report)) => match report_failure(report, run, "cargo rustc"@) {
            Some(error) => CompilationData::Finished(Err(error)),
            None => CompilationData::Finding(
                invocation,
                toolchain,
                cargo_output::fresh_artifacts(run.artifacts, run.stale),
            ),
        },
        (outcome, _) => CompilationData::Finished(Err(outcome->Err_0)),
    }
}

/// Whether the required artifacts exist.
pub open spec fn evidence_verdict(
    manifest: bool,
    bitcode: Result<Vec<PathItem>, Error>,
) -> Result<(), ErrorData> {
    if !manifest {
        Err(Failure::MissingEvidence)
    } else {
        match bitcode {
            Err(error) => Err(error@),
            Ok(files) => if files@.len() == 0 {
                Err(Failure::MissingEvidence)
            } else {
                Ok(())
            },
        }
    }
}

/// The compilation behind a reply. Another reply changes nothing.
pub open spec fn compilation_after(
    request: BuildRequestData,
    inputs: CaptureInputsData,
    state: CompilationData,
    reply: CompileReply,
) -> CompilationData {
    match (state, reply) {
        (CompilationData::Inspecting(inspection), CompileReply::Inspection(reply)) => inspected(
            toolchain::inspection_after(request.workspace_root, inputs.tools, inspection, reply),
        ),
        (CompilationData::Creating(cargo, toolchain), CompileReply::Done(done)) => match done {
            Err(source) => CompilationData::Finished(
                Err(
                    Failure::Filesystem {
                        operation: "create"@,
                        path: request.analysis_directory,
                        source,
                    },
                ),
            ),
            Ok(()) => CompilationData::Listing(cargo, toolchain),
        },
        (CompilationData::Listing(cargo, toolchain), CompileReply::FirstEntry(listed)) => match
            listed {
            Err(source) => CompilationData::Finished(
                Err(
                    Failure::Filesystem {
                        operation: "read"@,
                        path: request.analysis_directory,
                        source,
                    },
                ),
            ),
            Ok(None) => directory_ready(inputs, request, cargo, toolchain),
            Ok(Some(Ok(()))) => CompilationData::Finished(
                Err(Failure::AnalysisDirectoryNotEmpty { path: request.analysis_directory }),
            ),
            Ok(Some(Err(source))) => CompilationData::Finished(
                Err(
                    Failure::Filesystem {
                        operation: "read"@,
                        path: request.analysis_directory,
                        source,
                    },
                ),
            ),
        },
        (CompilationData::CreatingRemarks(cargo, toolchain), CompileReply::Done(done)) => match
            done {
            Err(source) => CompilationData::Finished(
                Err(
                    Failure::Filesystem {
                        operation: "create"@,
                        path: capture::remarks_path(request.analysis_directory),
                        source,
                    },
                ),
            ),
            Ok(()) => preparing(inputs, cargo, toolchain),
        },
        (
            CompilationData::Preparing(cargo, toolchain, preparation),
            CompileReply::Preparation(reply),
        ) => match preparation_after(inputs.driver, cargo, toolchain, preparation, reply) {
            Err(error) => CompilationData::Finished(Err(error)),
            Ok(PreparationData::Ready(driver)) => CompilationData::Running(
                capture::described(
                    request,
                    cargo.cargo,
                    driver::chain_of(driver),
                    inputs.variables,
                ),
                toolchain,
                driver::driver_environment(
                    driver,
                    request.analysis_directory,
                    manifest_path(request),
                    toolchain.commit_hash,
                ),
            ),
            Ok(preparation) => CompilationData::Preparing(cargo, toolchain, preparation),
        },
        (CompilationData::Running(invocation, toolchain, _), CompileReply::Started(started)) =>
            match started {
            Err(source) => CompilationData::Finished(
                Err(Failure::StartProcess { program: "cargo rustc"@, source }),
            ),
            Ok(()) => CompilationData::Reading(invocation, toolchain, cargo_output::run_start()),
        },
        (CompilationData::Reading(invocation, toolchain, run), CompileReply::Output(message)) =>
            CompilationData::Reading(
            invocation,
            toolchain,
            cargo_output::run_step(run, message@),
        ),
        (CompilationData::Reading(invocation, toolchain, run), CompileReply::Ended(ended)) =>
            cargo_ended(invocation, toolchain, run, ended),
        (CompilationData::Finding(invocation, toolchain, fresh), CompileReply::Found(found)) =>
            if found {
            CompilationData::Requiring(invocation, toolchain)
        } else {
            match fresh {
                Some(artifact_count) => CompilationData::Finished(
                    Ok(CompileOutcomeData::Fresh { invocation, artifact_count }),
                ),
                None => CompilationData::Finished(Err(Failure::MissingEvidence)),
            }
        },
        (
            CompilationData::Requiring(invocation, toolchain),
            CompileReply::Evidence(manifest, bitcode),
        ) => match evidence_verdict(manifest, bitcode) {
            Err(error) => CompilationData::Finished(Err(error)),
            Ok(()) => CompilationData::Finished(
                Ok(
                    CompileOutcomeData::Compiled {
                        compilation: CompiledCaptureData { invocation, toolchain },
                    },
                ),
            ),
        },
        _ => state,
    }
}

fn begin_preparation(inputs: &CaptureInputs, cargo: CargoContext, toolchain: Toolchain) -> (result:
    Compilation)
    ensures
        result@ == preparing(inputs@, cargo@, toolchain@),
{
    match Preparation::start(&inputs.driver.wrapper_active) {
        Err(error) => Compilation::Finished(Err(error)),
        Ok(preparation) => Compilation::Preparing(cargo, toolchain, preparation),
    }
}

/// The user-visible output that a reply brings to an analysis.
pub open spec fn reported(state: CompilationData, reply: CompileReply) -> Option<EventData> {
    match (state, reply) {
        (
            CompilationData::Reading(_, _, _),
            CompileReply::Output(ReaderMessage::Event(event)),
        ) => Some(event@),
        _ => None,
    }
}

/// The mathematical counterpart of an optional event.
pub open spec fn output_view(event: Option<CargoProcessEvent>) -> Option<EventData> {
    match event {
        Some(event) => Some(event@),
        None => None,
    }
}

impl Compilation {
    /// Starts one analysis for the selected Cargo target.
    pub fn start() -> (result: Self)
        ensures
            result@ == CompilationData::Inspecting(InspectionData::Configuring),
    {
        Compilation::Inspecting(Inspection::Configuring)
    }
}

/// Takes the reply to the outside step that an analysis waits for, and drops user-visible output.
///
/// The analysis fails as that of [`compile_with_events`].
pub fn compile(
    request: &BuildRequest,
    inputs: &CaptureInputs,
    state: Compilation,
    reply: CompileReply,
) -> (result: Compilation)
    ensures
        result@ == compilation_after(request@, inputs@, state@, reply),
{
    let (next, _) = compile_with_events(request, inputs, state, reply);
    next
}

/// Takes the reply to the outside step that an analysis waits for, and reports user-visible output
/// as it arrives.
///
/// The analysis fails if the toolchain is unsupported, the analysis directory is not empty, Cargo
/// fails, Cargo exceeds an output bound, or the required artifacts are absent.
pub fn compile_with_events(
    request: &BuildRequest,
    inputs: &CaptureInputs,
    state: Compilation,
    reply: CompileReply,
) -> (result: (Compilation, Option<CargoProcessEvent>))
    ensures
        result.0@ == compilation_after(request@, inputs@, state@, reply),
        output_view(result.1) == reported(state@, reply),
{
    match (state, reply) {
        (Compilation::Reading(invocation, toolchain, run), CompileReply::Output(message)) => {
            let (run, event) = run.accept(message);
            (Compilation::Reading(invocation, toolchain, run), event)
        },
        (state, reply) => (next_state(request, inputs, state, reply), None),
    }
}

fn end_cargo(
    invocation: CaptureInvocation,
    toolchain: Toolchain,
    run: CargoRunState,
    ended: Result<ExitReport, SourceError>,
) -> (result: Compilation)
    ensures
        result@ == cargo_ended(invocation@, toolchain@, run.data(), ended),
{
    match run.finish("cargo rustc", ended) {
        Err(error) => Compilation::Finished(Err(error)),
        Ok(run) => match require_run(&run, "cargo rustc") {
            Err(error) => Compilation::Finished(Err(error)),
            Ok(()) => Compilation::Finding(invocation, toolchain, run.fresh_artifact_count()),
        },
    }
}

fn next_state(
    request: &BuildRequest,
    inputs: &CaptureInputs,
    state: Compilation,
    reply: CompileReply,
) -> (result: Compilation)
    requires
        !(state is Reading && reply is Output),
    ensures
        result@ == compilation_after(request@, inputs@, state@, reply),
{
    match (state, reply) {
        (Compilation::Inspecting(inspection), CompileReply::Inspection(reply)) => {
            match inspect_workspace_toolchain(
                request.workspace_root.as_str(),
                &inputs.tools,
                inspection,
                reply,
            ) {
                Inspection::Finished(Err(error)) => Compilation::Finished(Err(error)),
                Inspection::Finished(Ok((cargo, toolchain))) => Compilation::Creating(
                    cargo,
                    toolchain,
                ),
                inspection => Compilation::Inspecting(inspection),
            }
        },
        (Compilation::Creating(cargo, toolchain), CompileReply::Done(done)) => match done {
            Err(source) => Compilation::Finished(
                Err(filesystem_failure("create", request.analysis_directory.as_str(), source)),
            ),
            Ok(()) => Compilation::Listing(cargo, toolchain),
        },
        (Compilation::Listing(cargo, toolchain), CompileReply::FirstEntry(listed)) => {
            match prepare_analysis_directory(request.analysis_directory.as_str(), listed) {
                Err(error) => Compilation::Finished(Err(error)),
                Ok(()) => if request.capture_remarks {
                    Compilation::CreatingRemarks(cargo, toolchain)
                } else {
                    begin_preparation(inputs, cargo, toolchain)
                },
            }
        },
        (Compilation::CreatingRemarks(cargo, toolchain), CompileReply::Done(done)) => match done {
            Err(source) => {
                let path = capture::remarks_directory(request.analysis_directory.as_str());
                Compilation::Finished(Err(filesystem_failure("create", path.as_str(), source)))
            },
            Ok(()) => begin_preparation(inputs, cargo, toolchain),
        },
        (
            Compilation::Preparing(cargo, toolchain, preparation),
            CompileReply::Preparation(reply),
        ) => match preparation.accept(&inputs.driver, &cargo, &toolchain, reply) {
            Err(error) => Compilation::Finished(Err(error)),
            Ok(Preparation::Ready(driver)) => {
                let manifest = manifest_file(request);
                let changes = driver.configure(
                    request.analysis_directory.as_str(),
                    manifest.as_str(),
                    toolchain.commit_hash.as_str(),
                );
                let invocation = describe(
                    request,
                    cargo.cargo.as_str(),
                    driver.wrapper_chain(),
                    copy_variables(&inputs.variables),
                );
                Compilation::Running(invocation, toolchain, changes)
            },
            Ok(preparation) => Compilation::Preparing(cargo, toolchain, preparation),
        },
        (Compilation::Running(invocation, toolchain, _), CompileReply::Started(started)) => match
            started {
            Err(source) => Compilation::Finished(
                Err(Failure::StartProcess { program: String::from_str("cargo rustc"), source }),
            ),
            Ok(()) => Compilation::Reading(invocation, toolchain, CargoRunState::new()),
        },
        (Compilation::Reading(invocation, toolchain, run), CompileReply::Ended(ended)) => end_cargo(
            invocation,
            toolchain,
            run,
            ended,
        ),
        (Compilation::Finding(invocation, toolchain, fresh), CompileReply::Found(found)) => {
            if found {
                Compilation::Requiring(invocation, toolchain)
            } else {
                match fresh {
                    Some(artifact_count) => Compilation::Finished(
                        Ok(CompileOutcome::Fresh { invocation, artifact_count }),
                    ),
                    None => Compilation::Finished(Err(Failure::MissingEvidence)),
                }
            }
        },
        (
            Compilation::Requiring(invocation, toolchain),
            CompileReply::Evidence(manifest, bitcode),
        ) => match require_compiled_evidence(manifest, bitcode) {
            Err(error) => Compilation::Finished(Err(error)),
            Ok(()) => Compilation::Finished(
                Ok(
                    CompileOutcome::Compiled {
                        compilation: CompiledCapture { invocation, toolchain },
                    },
                ),
            ),
        },
        (state, _) => state,
    }
}

fn copy_variables(variables: &Vec<EnvironmentVariable>) -> (result: Vec<EnvironmentVariable>)
    ensures
        capture::environment_variable_list(result@) == capture::environment_variable_list(
            variables@,
        ),
{
    let ghost all = capture::environment_variable_list(variables@);
    let mut result: Vec<EnvironmentVariable> = Vec::new();
    let mut index: usize = 0;
    while index < variables.len()
        invariant
            index <= variables@.len(),
            all == capture::environment_variable_list(variables@),
            capture::environment_variable_list(result@) == all.take(index as int),
        decreases variables.len() - index,
    {
        let variable = variables[index].clone();
        let ghost before = result@;
        result.push(variable);
        assert(capture::environment_variable_list(result@)
            =~= capture::environment_variable_list(before).push(variable@));
        assert(capture::environment_variable_list(result@) =~= all.take(index + 1));
        index += 1;
    }
    assert(capture::environment_variable_list(result@) =~= all);
    result
}

/// The verdict on the first entry of the analysis directory.
pub open spec fn directory_verdict(
    path: Seq<char>,
    listed: Result<Option<Result<(), SourceError>>, SourceError>,
) -> Result<(), ErrorData> {
    match listed {
        Err(source) => Err(Failure::Filesystem { operation: "read"@, path, source }),
        Ok(None) => Ok(()),
        Ok(Some(Ok(()))) => Err(Failure::AnalysisDirectoryNotEmpty { path }),
        Ok(Some(Err(source))) => Err(Failure::Filesystem { operation: "read"@, path, source }),
    }
}

/// Requires an empty analysis directory.
pub fn prepare_analysis_directory(
    path: &str,
    listed: Result<Option<Result<(), SourceError>>, SourceError>,
) -> (result: Result<(), Error>)
    ensures
        driver::verdict_agrees(result, directory_verdict(path@, listed)),
{
    match listed {
        Err(source) => Err(filesystem_failure("read", path, source)),
        Ok(None) => Ok(()),
        Ok(Some(Ok(()))) => Err(
            Failure::AnalysisDirectoryNotEmpty { path: String::from_str(path) },
        ),
        Ok(Some(Err(source))) => Err(filesystem_failure("read", path, source)),
    }
}

fn require_run(run: &CargoRun, program: &str) -> (result: Result<(), Error>)
    ensures
        match (result, run_failure(*run, program@)) {
            (Ok(()), None) => true,
            (Err(error), Some(expected)) => error@ == expected,
            _ => false,
        },
{
    if run.status().success {
        Ok(())
    } else {
        Err(
            Failure::ProcessFailed {
                program: String::from_str(program),
                status: run.status().status.clone(),
                diagnostics: run.diagnostics(),
            },
        )
    }
}

/// Confirms that a successful compiler run left the identity manifest and supported bitcode.
pub fn require_compiled_evidence(manifest: bool, bitcode: Result<Vec<PathItem>, Error>) -> (result:
    Result<(), Error>)
    ensures
        driver::verdict_agrees(result, evidence_verdict(manifest, bitcode)),
{
    if !manifest {
        return Err(Failure::MissingEvidence);
    }
    match bitcode {
        Err(error) => Err(error),
        Ok(files) => if files.len() == 0 {
            Err(Failure::MissingEvidence)
        } else {
            Ok(())
        },
    }
}

/// A bitcode file among directory entries.
pub open spec fn bitcode_entry(entry: DirectoryEntry) -> bool {
    entry.is_file && ".bc"@.is_suffix_of(entry.name@)
}

/// The bitcode files among directory entries, or the first failure of the walk.
pub open spec fn bitcode_of(entries: Seq<Result<DirectoryEntry, SourceError>>) -> Result<
    Seq<PathItem>,
    SourceError,
>
    decreases entries.len(),
{
    if entries.len() == 0 {
        Ok(Seq::empty())
    } else {
        match bitcode_of(entries.drop_last()) {
            Err(source) => Err(source),
            Ok(files) => match entries.last() {
                Err(source) => Err(source),
                Ok(entry) => if bitcode_entry(entry) {
                    Ok(files.push(PathItem { path: entry.path }))
                } else {
                    Ok(files)
                },
            },
        }
    }
}

proof fn failed_walk_stays(entries: Seq<Result<DirectoryEntry, SourceError>>, count: int)
    requires
        0 <= count <= entries.len(),
        bitcode_of(entries.take(count)) is Err,
    ensures
        bitcode_of(entries) == bitcode_of(entries.take(count)),
    decreases entries.len() - count,
{
    if count < entries.len() {
        assert(entries.take(count + 1).drop_last() =~= entries.take(count));
        failed_walk_stays(entries, count + 1);
    } else {
        assert(entries.take(count) =~= entries);
    }
}

/// Lists the bitcode files of the analysis directory in the order of their paths.
pub fn supported_bitcode(directory: &str, entries: Vec<Result<DirectoryEntry, SourceError>>) -> (result:
    Result<Vec<PathItem>, Error>)
    ensures
        match (result, bitcode_of(entries@)) {
            (Ok(files), Ok(expected)) => ordered(files@) && files@.to_multiset()
                == expected.to_multiset(),
            (Err(error), Err(source)) => error@ == (Failure::Filesystem {
                operation: "walk"@,
                path: directory@,
                source,
            }),
            _ => false,
        },
{
    let ghost all = entries@;
    let mut files: Vec<PathItem> = Vec::new();
    let mut index: usize = 0;
    assert(files@ =~= Seq::<PathItem>::empty());
    while index < entries.len()
        invariant
            index <= entries@.len(),
            all == entries@,
            bitcode_of(all.take(index as int)) == Ok::<Seq<PathItem>, SourceError>(files@),
        decreases entries.len() - index,
    {
        proof {
            assert(all.take(index + 1).drop_last() =~= all.take(index as int));
            assert(all.take(index + 1).last() == all[index as int]);
        }
        match &entries[index] {
            Err(source) => {
                proof {
                    failed_walk_stays(all, index + 1);
                }
                return Err(filesystem_failure("walk", directory, source.clone()));
            },
            Ok(entry) => {
                if entry.is_file && ends_with(entry.name.as_str(), ".bc") {
                    files.push(PathItem { path: entry.path.clone() });
                }
            },
        }
        index += 1;
    }
    assert(all.take(all.len() as int) =~= all);
    Ok(sort(files))
}

/// How far a freshness check has come. Each state but the last waits for one outside step.
pub enum FreshnessCheck {
    /// The toolchain is inspected.
    Inspecting(Inspection),
    /// The driver is prepared.
    Preparing(CargoContext, Toolchain, Preparation),
    /// Cargo runs in the workspace with a changed environment.
    Running(CargoContext, Vec<EnvironmentChange>),
    /// The check is over.
    Finished(Result<bool, Error>),
}

/// The mathematical counterpart of [`FreshnessCheck`].
pub enum FreshnessData {
    /// The toolchain is inspected.
    Inspecting(InspectionData),
    /// The driver is prepared.
    Preparing(CargoContextData, ToolchainData, PreparationData),
    /// Cargo runs in the workspace with a changed environment.
    Running(CargoContextData, Seq<EnvironmentChangeData>),
    /// The check is over.
    Finished(Result<bool, ErrorData>),
}

impl View for FreshnessCheck {
    type V = FreshnessData;

    open spec fn view(&self) -> FreshnessData {
        match self {
            FreshnessCheck::Inspecting(inspection) => FreshnessData::Inspecting(inspection@),
            FreshnessCheck::Preparing(cargo, toolchain, preparation) => FreshnessData::Preparing(
                cargo@,
                toolchain@,
                preparation@,
            ),
            FreshnessCheck::Running(cargo, changes) => FreshnessData::Running(
                cargo@,
                driver::environment_change_list(changes@),
            ),
            FreshnessCheck::Finished(Ok(fresh)) => FreshnessData::Finished(Ok(*fresh)),
            FreshnessCheck::Finished(Err(error)) => FreshnessData::Finished(Err(error@)),
        }
    }
}

/// What a Cargo run says about freshness.
pub open spec fn freshness_of(run: CargoRun) -> Result<bool, ErrorData> {
    match run_failure(run, "cargo rustc freshness check"@) {
        Some(error) => if chars::has(
            cargo_output::tail_text(run.data().kept, run.data().truncated),
            "cargo-optic selected target is not fresh"@,
        ) {
            Ok(false)
        } else {
            Err(error)
        },
        None => Ok(
            cargo_output::fresh_artifacts(run.data().artifacts, run.data().stale) is Some,
        ),
    }
}

/// The check behind a reply. Another reply changes nothing.
pub open spec fn freshness_after(
    request: BuildRequestData,
    expected: ToolchainData,
    inputs: CaptureInputsData,
    state: FreshnessData,
    reply: CompileReply,
) -> FreshnessData {
    match (state, reply) {
        (FreshnessData::Inspecting(inspection), CompileReply::Inspection(reply)) => match
            toolchain::inspection_after(request.workspace_root, inputs.tools, inspection, reply) {
            InspectionData::Finished(Err(error)) => FreshnessData::Finished(Err(error)),
            InspectionData::Finished(Ok((cargo, toolchain))) => if toolchain != expected {
                FreshnessData::Finished(Ok(false))
            } else {
                match preparation_start(inputs.driver.wrapper_active) {
                    Err(error) => FreshnessData::Finished(Err(error)),
                    Ok(preparation) => FreshnessData::Preparing(cargo, toolchain, preparation),
                }
            },
            inspection => FreshnessData::Inspecting(inspection),
        },
        (
            FreshnessData::Preparing(cargo, toolchain, preparation),
            CompileReply::Preparation(reply),
        ) => match preparation_after(inputs.driver, cargo, toolchain, preparation, reply) {
            Err(error) => FreshnessData::Finished(Err(error)),
            Ok(PreparationData::Ready(driver)) => FreshnessData::Running(
                cargo,
                driver::driver_environment(
                    driver,
                    request.analysis_directory,
                    manifest_path(request),
                    toolchain.commit_hash,
                ).push(driver::variable("OPTIC_FRESHNESS_CHECK"@, "1"@)),
            ),
            Ok(preparation) => FreshnessData::Preparing(cargo, toolchain, preparation),
        },
        (FreshnessData::Running(_, _), CompileReply::Ran(ran)) => match ran {
            Err(error) => FreshnessData::Finished(Err(error@)),
            Ok(run) => FreshnessData::Finished(freshness_of(run)),
        },
        _ => state,
    }
}

fn same_option(left: &Option<String>, right: &Option<String>) -> (result: bool)
    ensures
        result == (chars::option_view(*left) == chars::option_view(*right)),
{
    match (left, right) {
        (Some(left), Some(right)) => same_text(left.as_str(), right.as_str()),
        (None, None) => true,
        _ => false,
    }
}

fn same_toolchain(left: &Toolchain, right: &Toolchain) -> (result: bool)
    ensures
        result == (left@ == right@),
{
    same_text(left.rustc.as_str(), right.rustc.as_str()) && same_text(
        left.release.as_str(),
        right.release.as_str(),
    ) && same_text(left.commit_hash.as_str(), right.commit_hash.as_str()) && same_text(
        left.host.as_str(),
        right.host.as_str(),
    ) && same_text(left.llvm_version.as_str(), right.llvm_version.as_str()) && same_text(
        left.sysroot.as_str(),
        right.sysroot.as_str(),
    ) && same_text(left.rustc_private_lib.as_str(), right.rustc_private_lib.as_str()) && same_text(
        left.llvm_dis.as_str(),
        right.llvm_dis.as_str(),
    ) && same_option(&left.rustup_toolchain, &right.rustup_toolchain)
}

/// Decides whether a Cargo run shows fresh artifacts.
pub fn run_freshness(run: &CargoRun) -> (result: Result<bool, Error>)
    ensures
        match (result, freshness_of(*run)) {
            (Ok(fresh), Ok(expected)) => fresh == expected,
            (Err(error), Err(expected)) => error@ == expected,
            _ => false,
        },
{
    match require_run(run, "cargo rustc freshness check") {
        Err(error) => {
            let diagnostics = run.diagnostics();
            if contains(diagnostics.as_str(), "cargo-optic selected target is not fresh") {
                Ok(false)
            } else {
                Err(error)
            }
        },
        Ok(()) => Ok(run.fresh_artifact_count().is_some()),
    }
}

/// Takes the reply to the outside step that a freshness check waits for.
///
/// This check never compiles the selected target. The wrapper stops a stale target before rustc
/// starts, so retained compiler artifacts remain unchanged.
pub fn check_fresh(
    request: &BuildRequest,
    expected_toolchain: &Toolchain,
    inputs: &CaptureInputs,
    state: FreshnessCheck,
    reply: CompileReply,
) -> (result: FreshnessCheck)
    ensures
        result@ == freshness_after(request@, expected_toolchain@, inputs@, state@, reply),
{
    match (state, reply) {
        (FreshnessCheck::Inspecting(inspection), CompileReply::Inspection(reply)) => {
            match inspect_workspace_toolchain(
                request.workspace_root.as_str(),
                &inputs.tools,
                inspection,
                reply,
            ) {
                Inspection::Finished(Err(error)) => FreshnessCheck::Finished(Err(error)),
                Inspection::Finished(Ok((cargo, toolchain))) => {
                    if !same_toolchain(&toolchain, expected_toolchain) {
                        return FreshnessCheck::Finished(Ok(false));
                    }
                    match Preparation::start(&inputs.driver.wrapper_active) {
                        Err(error) => FreshnessCheck::Finished(Err(error)),
                        Ok(preparation) => FreshnessCheck::Preparing(
                            cargo,
                            toolchain,
                            preparation,
                        ),
                    }
                },
                inspection => FreshnessCheck::Inspecting(inspection),
            }
        },
        (
            FreshnessCheck::Preparing(cargo, toolchain, preparation),
            CompileReply::Preparation(reply),
        ) => match preparation.accept(&inputs.driver, &cargo, &toolchain, reply) {
            Err(error) => FreshnessCheck::Finished(Err(error)),
            Ok(Preparation::Ready(prepared)) => {
                let manifest = manifest_file(request);
                let mut changes = prepared.configure(
                    request.analysis_directory.as_str(),
                    manifest.as_str(),
                    toolchain.commit_hash.as_str(),
                );
                let ghost before = changes@;
                changes.push(
                    EnvironmentChange::Assign {
                        name: String::from_str("OPTIC_FRESHNESS_CHECK"),
                        value: String::from_str("1"),
                    },
                );
                assert(driver::environment_change_list(changes@)
                    =~= driver::environment_change_list(before).push(
                    driver::variable("OPTIC_FRESHNESS_CHECK"@, "1"@),
                ));
                FreshnessCheck::Running(cargo, changes)
            },
            Ok(preparation) => FreshnessCheck::Preparing(cargo, toolchain, preparation),
        },
        (FreshnessCheck::Running(cargo, changes), CompileReply::Ran(ran)) => match ran {
            Err(error) => FreshnessCheck::Finished(Err(error)),
            Ok(run) => FreshnessCheck::Finished(run_freshness(&run)),
        },
        (state, _) => state,
    }
}

/// The analysis behind a sequence of replies.
pub open spec fn compiled_run(
    request: BuildRequestData,
    inputs: CaptureInputsData,
    state: CompilationData,
    replies: Seq<CompileReply>,
) -> CompilationData
    decreases replies.len(),
{
    if replies.len() == 0 {
        state
    } else {
        let earlier = compiled_run(request, inputs, state, replies.drop_last());
        compilation_after(request, inputs, earlier, replies.last())
    }
}

/// The analysis behind a sequence of replies with the output that it reported.
pub open spec fn watched_run(
    request: BuildRequestData,
    inputs: CaptureInputsData,
    state: CompilationData,
    replies: Seq<CompileReply>,
) -> (CompilationData, Seq<EventData>)
    decreases replies.len(),
{
    if replies.len() == 0 {
        (state, Seq::empty())
    } else {
        let (earlier, events) = watched_run(request, inputs, state, replies.drop_last());
        (
            compilation_after(request, inputs, earlier, replies.last()),
            match reported(earlier, replies.last()) {
                Some(event) => events.push(event),
                None => events,
            },
        )
    }
}

/// Watching an analysis does not change it: behind the same replies [`compile`] and
/// [`compile_with_events`] have come equally far, and end with the same outcome.
pub proof fn watched_analyses_have_the_same_outcome(
    request: BuildRequestData,
    inputs: CaptureInputsData,
    state: CompilationData,
    replies: Seq<CompileReply>,
)
    ensures
        watched_run(request, inputs, state, replies).0 == compiled_run(
            request,
            inputs,
            state,
            replies,
        ),
    decreases replies.len(),
{
    if replies.len() > 0 {
        watched_analyses_have_the_same_outcome(request, inputs, state, replies.drop_last());
    }
}

/// A target counts as fresh only behind a successful Cargo run that reported at least one artifact
/// and no stale one.
pub proof fn freshness_is_affirmative(
    request: BuildRequestData,
    expected: ToolchainData,
    inputs: CaptureInputsData,
    state: FreshnessData,
    reply: CompileReply,
)
    requires
        !(state is Finished),
        freshness_after(request, expected, inputs, state, reply) == FreshnessData::Finished(
            Ok(true),
        ),
    ensures
        reply matches CompileReply::Ran(Ok(run)) && run.report().success && run.data().artifacts > 0
            && !run.data().stale,
{
}

/// A compilation ends with fresh artifacts only if Cargo left no manifest and reported at least one
/// artifact.
pub proof fn fresh_compilations_have_no_manifest(
    request: BuildRequestData,
    inputs: CaptureInputsData,
    state: CompilationData,
    reply: CompileReply,
    outcome: CompileOutcomeData,
)
    requires
        !(state is Finished),
        compilation_after(request, inputs, state, reply) == CompilationData::Finished(Ok(outcome)),
    ensures
        match outcome {
            CompileOutcomeData::Fresh { invocation, artifact_count } => {
                &&& reply matches CompileReply::Found(found) && !found
                &&& state matches CompilationData::Finding(_, _, fresh) && fresh == Some(
                    artifact_count,
                )
            },
            CompileOutcomeData::Compiled { compilation } => {
                reply matches CompileReply::Evidence(manifest, Ok(files)) && manifest
                    && files@.len() > 0
            },
        },
{
}

} // verus!

//! Prepares one request identity and separates stopped probing from new collection.
//!
//! The request key partitions candidate captures. Cargo alone decides whether tracked inputs are
//! fresh. Published tokens are used only by probes, which stop if Cargo requests compilation.

use super::attempt;
use super::attempt::{EndedAttempt, EndedData};
use super::digest;
use super::digest::request_key;
use super::driver;
use super::driver::{
    cargo_home, configure, plan_driver, DriverPlan, DriverPlanData, DriverSource, DriverSourceData,
    EntryFile, FileFacts, Provision, ProvisionData, ProvisionReply,
};
use super::error;
use super::error::{
    filesystem_failure, invalid_environment, process_failure, EnvironmentProblem, Error, ErrorData,
    Failure,
};
use super::fault;
use super::features;
use super::manifest;
use super::manifest::{read_manifest, CompilerManifest, ManifestData};
use super::metadata;
use super::metadata::{
    ArtifactData, CargoArtifactRecord, Package, PackageData, PackageTarget, PackageTargetData,
};
use super::observation;
use super::protocol;
use super::protocol::header;
use super::request;
use super::request::{BuildRequest, CargoTargetKind, RequestData};
use super::resolution;
use super::resolution::{cargo_arguments, resolve_package, resolve_target};
use super::toolchain;
use super::toolchain::{
    CompilerContext, CompilerContextData, CompilerIdentity, CompilerIdentityData,
    CompilerInspection, CompilerReply, CompilerVariables, CompilerVariablesData, InspectionData,
};
use super::workspace;
use super::workspace::{Workspace, WorkspaceData};
use crate::bytes::same;
use crate::chars;
use crate::chars::{add_text, copy_texts, replace_char};
use crate::ir;
use crate::ir::driver::{assign, EnvironmentChange, EnvironmentChangeData};
use crate::paths;
use crate::paths::join;
use crate::process::{require_success, ProcessOutput};
use crate::source::{ByteSource, FailureKind, SourceError};
use crate::text::same_text;
use crate::wire;
use vstd::prelude::*;
use vstd::string::StringExecFns;

verus! {

/// Cargo's result for a candidate whose analysis token was never compiled by the probe.
#[derive(Clone, Copy, Debug, PartialEq, Eq, Structural)]
pub enum Freshness {
    /// Cargo positively reported one matching fresh selected artifact.
    Fresh,
    /// The selected wrapper verified its invocation and stopped before compiler analysis.
    Stale,
}

/// The selected target of a build.
#[derive(Debug, PartialEq, Eq)]
pub struct TargetRecord {
    /// The name.
    pub name: String,
    /// The kind.
    pub kind: CargoTargetKind,
}

/// The mathematical counterpart of [`TargetRecord`].
pub struct TargetRecordData {
    /// The name.
    pub name: Seq<char>,
    /// The kind.
    pub kind: CargoTargetKind,
}

impl View for TargetRecord {
    type V = TargetRecordData;

    open spec fn view(&self) -> TargetRecordData {
        TargetRecordData {
            name: self.name@,
            kind: self.kind,
        }
    }
}

impl Clone for TargetRecord {
    fn clone(&self) -> (result: Self)
        ensures
            result@ == self@,
    {
        TargetRecord {
            name: self.name.clone(),
            kind: self.kind,
        }
    }
}

/// The explicit inputs of a build.
#[derive(Debug, PartialEq, Eq)]
pub struct BuildRecord {
    /// The package.
    pub package: String,
    /// The version of the package.
    pub version: String,
    /// The target.
    pub target: TargetRecord,
    /// The profile.
    pub profile: String,
    /// The Cargo program.
    pub cargo: String,
    /// The directory in which Cargo runs.
    pub invocation_directory: String,
    /// The arguments of Cargo.
    pub cargo_arguments: Vec<String>,
}

/// The mathematical counterpart of [`BuildRecord`].
pub struct BuildRecordData {
    /// The package.
    pub package: Seq<char>,
    /// The version of the package.
    pub version: Seq<char>,
    /// The target.
    pub target: TargetRecordData,
    /// The profile.
    pub profile: Seq<char>,
    /// The Cargo program.
    pub cargo: Seq<char>,
    /// The directory in which Cargo runs.
    pub invocation_directory: Seq<char>,
    /// The arguments of Cargo.
    pub cargo_arguments: Seq<Seq<char>>,
}

impl View for BuildRecord {
    type V = BuildRecordData;

    open spec fn view(&self) -> BuildRecordData {
        BuildRecordData {
            package: self.package@,
            version: self.version@,
            target: self.target@,
            profile: self.profile@,
            cargo: self.cargo@,
            invocation_directory: self.invocation_directory@,
            cargo_arguments: crate::chars::views(self.cargo_arguments@),
        }
    }
}

impl Clone for BuildRecord {
    fn clone(&self) -> (result: Self)
        ensures
            result@ == self@,
    {
        BuildRecord {
            package: self.package.clone(),
            version: self.version.clone(),
            target: self.target.clone(),
            profile: self.profile.clone(),
            cargo: self.cargo.clone(),
            invocation_directory: self.invocation_directory.clone(),
            cargo_arguments: copy_texts(&self.cargo_arguments),
        }
    }
}

/// The analysis of a complete capture.
#[derive(Debug, PartialEq, Eq)]
pub struct CaptureAnalysis {
    /// The key of the request.
    pub request_key: String,
    /// The analysis token.
    pub token: String,
    /// The selected artifact.
    pub artifact: CargoArtifactRecord,
}

/// The mathematical counterpart of [`CaptureAnalysis`].
pub struct CaptureAnalysisData {
    /// The key of the request.
    pub request_key: Seq<char>,
    /// The analysis token.
    pub token: Seq<char>,
    /// The selected artifact.
    pub artifact: ArtifactData,
}

impl View for CaptureAnalysis {
    type V = CaptureAnalysisData;

    open spec fn view(&self) -> CaptureAnalysisData {
        CaptureAnalysisData {
            request_key: self.request_key@,
            token: self.token@,
            artifact: self.artifact@,
        }
    }
}

/// The package and the target of a request.
#[derive(Debug, PartialEq, Eq)]
pub struct SelectedPackage {
    /// The name of the package.
    pub name: String,
    /// The version of the package.
    pub version: String,
    /// The identity of the package.
    pub id: String,
    /// The manifest of the package.
    pub manifest_path: String,
    /// The target.
    pub target: PackageTarget,
    /// The workspace root that Cargo reported with the package.
    pub workspace_root: String,
}

/// The mathematical counterpart of [`SelectedPackage`].
pub struct SelectedPackageData {
    /// The name of the package.
    pub name: Seq<char>,
    /// The version of the package.
    pub version: Seq<char>,
    /// The identity of the package.
    pub id: Seq<char>,
    /// The manifest of the package.
    pub manifest_path: Seq<char>,
    /// The target.
    pub target: PackageTargetData,
    /// The workspace root that Cargo reported with the package.
    pub workspace_root: Seq<char>,
}

impl View for SelectedPackage {
    type V = SelectedPackageData;

    open spec fn view(&self) -> SelectedPackageData {
        SelectedPackageData {
            name: self.name@,
            version: self.version@,
            id: self.id@,
            manifest_path: self.manifest_path@,
            target: self.target@,
            workspace_root: self.workspace_root@,
        }
    }
}

/// The marker of an analysis token.
pub open spec fn marker_of(token: Seq<char>) -> Seq<char> {
    "--cfg=cargo_optic_selected_target="@ + "\""@ + token + "\""@
}

/// Returns the marker of an analysis token.
pub fn selected_target_marker(token: &str) -> (result: String)
    ensures
        result@ == marker_of(token@),
{
    let mut marker = String::from_str(protocol::MARKER_PREFIX);
    marker.append("\"");
    marker.append(token);
    marker.append("\"");
    marker
}

/// The outside step that the verification of a receipt waits for.
#[derive(Clone, Copy, Debug, PartialEq, Eq, Structural)]
pub enum ReceiptStep {
    /// Inspect the receipt without following a link.
    Inspect,
    /// Read the receipt.
    Read,
    /// Nothing: there is this attempt's receipt, or none.
    Known(bool),
}

/// What an outside step of the verification of a receipt gave.
pub enum ReceiptReply {
    /// The receipt was inspected.
    Inspected(Result<FileFacts, SourceError>),
    /// The receipt was read.
    Contents(Result<Vec<u8>, SourceError>),
}

/// The verification behind a reply. Another reply changes nothing.
pub open spec fn receipt_after(
    path: Seq<char>,
    marker: Seq<char>,
    step: ReceiptStep,
    reply: ReceiptReply,
) -> Result<ReceiptStep, ErrorData> {
    match (step, reply) {
        (ReceiptStep::Inspect, ReceiptReply::Inspected(found)) => match found {
            Err(source) => if source.kind == FailureKind::NotFound {
                Ok(ReceiptStep::Known(false))
            } else {
                Err(error::filesystem("inspect stale receipt"@, path, source))
            },
            Ok(facts) => if !facts.is_file || facts.length != protocol::header_bytes(marker).len() {
                Err(error::environment(EnvironmentProblem::ReceiptShape))
            } else {
                Ok(ReceiptStep::Read)
            },
        },
        (ReceiptStep::Read, ReceiptReply::Contents(contents)) => match contents {
            Err(source) => Err(error::filesystem("read stale receipt"@, path, source)),
            Ok(bytes) => if bytes@ != protocol::header_bytes(marker) {
                Err(error::environment(EnvironmentProblem::ReceiptContent))
            } else {
                Ok(ReceiptStep::Known(true))
            },
        },
        _ => Ok(step),
    }
}

/// Takes the reply to the outside step that the verification of a receipt waits for.
///
/// Only this attempt's exact receipt is accepted. A present receipt has to be a regular file with
/// the exact protocol header and token. Wrong file kinds, malformed bytes and filesystem failures
/// are errors instead of an absent receipt.
pub fn verified_stale_receipt(path: &str, marker: &str, step: ReceiptStep, reply: ReceiptReply) -> (result:
    Result<ReceiptStep, Error>)
    requires
        wire::text_fits(marker@),
    ensures
        match (result, receipt_after(path@, marker@, step, reply)) {
            (Ok(step), Ok(meant)) => step == meant,
            (Err(error), Err(meant)) => error@ == meant,
            _ => false,
        },
{
    match (step, reply) {
        (ReceiptStep::Inspect, ReceiptReply::Inspected(found)) => match found {
            Err(source) => if source.kind == FailureKind::NotFound {
                Ok(ReceiptStep::Known(false))
            } else {
                Err(filesystem_failure("inspect stale receipt", path, source))
            },
            Ok(facts) => {
                let expected = header(marker);
                if !facts.is_file || facts.length != expected.len() as u64 {
                    Err(invalid_environment(EnvironmentProblem::ReceiptShape))
                } else {
                    Ok(ReceiptStep::Read)
                }
            },
        },
        (ReceiptStep::Read, ReceiptReply::Contents(contents)) => match contents {
            Err(source) => Err(filesystem_failure("read stale receipt", path, source)),
            Ok(bytes) => {
                let expected = header(marker);
                if !same(bytes.as_slice(), expected.as_slice()) {
                    Err(invalid_environment(EnvironmentProblem::ReceiptContent))
                } else {
                    Ok(ReceiptStep::Known(true))
                }
            },
        },
        (step, _) => Ok(step),
    }
}

/// A whole verification, from the facts about a receipt and its contents.
pub open spec fn receipt_verdict(
    path: Seq<char>,
    marker: Seq<char>,
    found: Result<FileFacts, SourceError>,
    contents: Result<Vec<u8>, SourceError>,
) -> Result<ReceiptStep, ErrorData> {
    match receipt_after(path, marker, ReceiptStep::Inspect, ReceiptReply::Inspected(found)) {
        Err(error) => Err(error),
        Ok(step) => receipt_after(path, marker, step, ReceiptReply::Contents(contents)),
    }
}

/// A receipt counts exactly if it is a regular file that holds this attempt's header. It is absent
/// exactly if there is no file. Everything else is an error.
pub proof fn receipts_are_exact(
    path: Seq<char>,
    marker: Seq<char>,
    found: Result<FileFacts, SourceError>,
    contents: Result<Vec<u8>, SourceError>,
)
    ensures
        receipt_verdict(path, marker, found, contents) == Ok::<ReceiptStep, ErrorData>(
            ReceiptStep::Known(true),
        ) <==> {
            &&& found matches Ok(facts) && facts.is_file && facts.length
                == protocol::header_bytes(marker).len()
            &&& contents matches Ok(bytes) && bytes@ == protocol::header_bytes(marker)
        },
        receipt_verdict(path, marker, found, contents) == Ok::<ReceiptStep, ErrorData>(
            ReceiptStep::Known(false),
        ) <==> (found matches Err(source) && source.kind == FailureKind::NotFound),
        receipt_verdict(path, marker, found, contents) matches Ok(step) ==> step is Known,
{
}

/// The receipts of two attempts with different markers differ, so that the receipt of one attempt
/// never counts for another.
pub proof fn receipts_belong_to_one_attempt(
    path: Seq<char>,
    marker: Seq<char>,
    other: Seq<char>,
    found: Result<FileFacts, SourceError>,
    contents: Result<Vec<u8>, SourceError>,
)
    requires
        wire::text_fits(marker),
        wire::text_fits(other),
        marker != other,
        contents matches Ok(bytes) && bytes@ == protocol::header_bytes(other),
    ensures
        receipt_verdict(path, marker, found, contents) != Ok::<ReceiptStep, ErrorData>(
            ReceiptStep::Known(true),
        ),
{
    let (left, right) = (protocol::header_bytes(marker), protocol::header_bytes(other));
    let start = protocol::MANIFEST_MAGIC@ + vstd::bytes::spec_u32_to_le_bytes(
        protocol::PROTOCOL_VERSION,
    );
    let (first, second) = (
        vstd::utf8::encode_utf8(marker),
        vstd::utf8::encode_utf8(other),
    );
    vstd::bytes::lemma_auto_spec_u32_to_from_le_bytes();
    if left == right {
        let count = start.len() as int;
        assert(left.skip(count + 4) =~= first);
        assert(right.skip(count + 4) =~= second);
        vstd::utf8::encode_utf8_decode_utf8(marker);
        vstd::utf8::encode_utf8_decode_utf8(other);
    }
}

/// The mathematical counterpart of an optional attempt.
pub open spec fn ended_attempt_option(attempt: Option<EndedAttempt>) -> Option<EndedData> {
    match attempt {
        Some(attempt) => Some(attempt@),
        None => None,
    }
}

/// A resolved request and cached exact-version driver for one probe and collection.
pub struct PreparedBuild {
    /// The Cargo program.
    pub cargo: String,
    /// The directory in which Cargo runs.
    pub invocation_directory: String,
    /// The explicit inputs.
    pub build: BuildRecord,
    /// The compiler.
    pub compiler: CompilerIdentity,
    /// The identity of the package.
    pub package: String,
    /// The canonical selected package root, not the broader workspace root.
    pub package_root: String,
    /// The target.
    pub target: PackageTarget,
    /// The driver executable.
    pub driver: String,
    /// The key of the request.
    pub request_key: String,
    /// The diagnostics of a stopped probe, until the subsequent collection succeeds or fails.
    pub stopped_probe: Option<EndedAttempt>,
}

/// The mathematical counterpart of [`PreparedBuild`].
pub struct PreparedBuildData {
    /// The Cargo program.
    pub cargo: Seq<char>,
    /// The directory in which Cargo runs.
    pub invocation_directory: Seq<char>,
    /// The explicit inputs.
    pub build: BuildRecordData,
    /// The compiler.
    pub compiler: CompilerIdentityData,
    /// The identity of the package.
    pub package: Seq<char>,
    /// The canonical selected package root, not the broader workspace root.
    pub package_root: Seq<char>,
    /// The target.
    pub target: PackageTargetData,
    /// The driver executable.
    pub driver: Seq<char>,
    /// The key of the request.
    pub request_key: Seq<char>,
    /// The diagnostics of a stopped probe, until the subsequent collection succeeds or fails.
    pub stopped_probe: Option<EndedData>,
}

impl View for PreparedBuild {
    type V = PreparedBuildData;

    open spec fn view(&self) -> PreparedBuildData {
        PreparedBuildData {
            cargo: self.cargo@,
            invocation_directory: self.invocation_directory@,
            build: self.build@,
            compiler: self.compiler@,
            package: self.package@,
            package_root: self.package_root@,
            target: self.target@,
            driver: self.driver@,
            request_key: self.request_key@,
            stopped_probe: ended_attempt_option(self.stopped_probe),
        }
    }
}

/// A Cargo invocation of an attempt.
pub struct CargoCommand {
    /// The Cargo program.
    pub program: String,
    /// The directory in which Cargo runs.
    pub directory: String,
    /// The arguments of Cargo.
    pub arguments: Vec<String>,
    /// The changes of the environment.
    pub environment: Vec<EnvironmentChange>,
}

/// The mathematical counterpart of [`CargoCommand`].
pub struct CommandData {
    /// The Cargo program.
    pub program: Seq<char>,
    /// The directory in which Cargo runs.
    pub directory: Seq<char>,
    /// The arguments of Cargo.
    pub arguments: Seq<Seq<char>>,
    /// The changes of the environment.
    pub environment: Seq<EnvironmentChangeData>,
}

impl View for CargoCommand {
    type V = CommandData;

    open spec fn view(&self) -> CommandData {
        CommandData {
            program: self.program@,
            directory: self.directory@,
            arguments: chars::views(self.arguments@),
            environment: ir::driver::environment_change_list(self.environment@),
        }
    }
}

/// What a Cargo invocation is for.
#[derive(Clone, Copy, Debug, PartialEq, Eq, Structural)]
pub enum AttemptMode {
    /// Stop if Cargo requests compilation.
    Probe,
    /// Collect evidence.
    Collect,
}

/// The name of a mode.
pub open spec fn mode_name(mode: AttemptMode) -> Seq<char> {
    match mode {
        AttemptMode::Probe => "probe"@,
        AttemptMode::Collect => "collect"@,
    }
}

/// The environment of an attempt.
pub open spec fn attempt_environment(
    prepared: PreparedBuildData,
    marker: Seq<char>,
    directory: Seq<char>,
    source: Seq<char>,
    mode: AttemptMode,
) -> Seq<EnvironmentChangeData> {
    seq![
        ir::driver::variable("RUSTC"@, prepared.compiler.rustc),
        ir::driver::variable("OPTIC_SELECTED_RUSTC"@, prepared.compiler.rustc),
        ir::driver::variable("OPTIC_SELECTED_SOURCE"@, source),
        ir::driver::variable("OPTIC_SELECTED_PACKAGE_ROOT"@, prepared.package_root),
        ir::driver::variable(
            "OPTIC_SELECTED_CRATE_NAME"@,
            chars::replaced(prepared.target.name, '-', '_'),
        ),
        ir::driver::variable("OPTIC_STALE_RECEIPT"@, paths::joined(directory, "stale"@)),
    ] + driver::driver_environment(prepared.driver, marker, paths::joined(directory, "manifest"@))
        + seq![ir::driver::variable("OPTIC_COMPILER_MODE"@, mode_name(mode))]
}

/// The Cargo invocation of an attempt, or why there is none.
pub open spec fn attempt_command(
    prepared: PreparedBuildData,
    marker: Seq<char>,
    directory: Seq<char>,
    source: Result<String, SourceError>,
    mode: AttemptMode,
) -> Result<CommandData, ErrorData> {
    match source {
        Err(failure) => Err(
            error::filesystem("resolve selected source"@, prepared.target.src_path, failure),
        ),
        Ok(source) => Ok(
            CommandData {
                program: prepared.cargo,
                directory: prepared.invocation_directory,
                arguments: prepared.build.cargo_arguments + seq![
                    "--message-format=json"@,
                    "--"@,
                    marker,
                ],
                environment: attempt_environment(prepared, marker, directory, source@, mode),
            },
        ),
    }
}

/// A verdict on a freshness agrees with the expected one.
pub open spec fn freshness_agrees(
    result: Result<Freshness, Error>,
    expected: Result<Freshness, ErrorData>,
) -> bool {
    match (result, expected) {
        (Ok(freshness), Ok(meant)) => freshness == meant,
        (Err(error), Err(meant)) => error@ == meant,
        _ => false,
    }
}

/// The classification of a probe.
pub open spec fn probe_verdict(
    prepared: PreparedBuildData,
    attempt: EndedData,
    candidate: CaptureAnalysisData,
    directory: Seq<char>,
    stale: bool,
    manifest_exists: Result<bool, SourceError>,
) -> Result<Freshness, ErrorData> {
    match manifest_exists {
        Err(source) => Err(
            error::filesystem(
                "inspect probe manifest"@,
                paths::joined(directory, "manifest"@),
                source,
            ),
        ),
        Ok(exists) => if exists {
            Err(error::environment(EnvironmentProblem::ProbeManifest))
        } else if !attempt.report.success {
            if stale && attempt.observation.selected.len() == 0 {
                Ok(Freshness::Stale)
            } else {
                Err(attempt::attempt_failure(attempt, prepared.cargo))
            }
        } else if stale {
            Err(error::environment(EnvironmentProblem::SuccessfulReceipt))
        } else {
            match observation::completion_verdict(attempt.observation, prepared.target, true) {
                Err(error) => Err(error),
                Ok(artifact) => if artifact != candidate.artifact {
                    Err(error::environment(EnvironmentProblem::OtherArtifact))
                } else {
                    Ok(Freshness::Fresh)
                },
            }
        },
    }
}

/// The verdict on a collecting attempt: its selected artifact.
pub open spec fn collection_verdict(
    prepared: PreparedBuildData,
    attempt: EndedData,
    stale: bool,
) -> Result<ArtifactData, ErrorData> {
    if !attempt.report.success {
        Err(attempt::attempt_failure(attempt, prepared.cargo))
    } else if stale {
        Err(error::environment(EnvironmentProblem::CollectedReceipt))
    } else {
        observation::completion_verdict(attempt.observation, prepared.target, false)
    }
}

/// What follows the classification of a probe.
pub struct ProbeEnd {
    /// The diagnostics to write.
    pub texts: Vec<String>,
    /// The stderr of Cargo is to be written behind them.
    pub replays_stderr: bool,
    /// The attempt is to be retained.
    pub retains: bool,
}

impl PreparedBuild {
    /// Returns the conservative request partition, which does not establish Cargo freshness.
    pub fn request_key(&self) -> (result: &str)
        ensures
            result@ == self@.request_key,
    {
        self.request_key.as_str()
    }

    /// Checks that a candidate can be probed, and returns the marker of its probe.
    pub fn probe(&self, candidate: &CaptureAnalysis) -> (result: Result<String, Error>)
        ensures
            error::text_agrees(
                result,
                if candidate@.request_key != self@.request_key {
                    Err(error::environment(EnvironmentProblem::OtherCandidate))
                } else if self@.stopped_probe is Some {
                    Err(error::environment(EnvironmentProblem::StoppedProbe))
                } else {
                    Ok(marker_of(candidate@.token))
                },
            ),
    {
        if !same_text(candidate.request_key.as_str(), self.request_key.as_str()) {
            return Err(invalid_environment(EnvironmentProblem::OtherCandidate));
        }
        if self.stopped_probe.is_some() {
            return Err(invalid_environment(EnvironmentProblem::StoppedProbe));
        }
        Ok(selected_target_marker(candidate.token.as_str()))
    }

    /// Composes the Cargo invocation of an attempt from the canonical selected source.
    pub fn command(
        &self,
        marker: &str,
        directory: &str,
        source: Result<String, SourceError>,
        mode: AttemptMode,
    ) -> (result: Result<CargoCommand, Error>)
        ensures
            match (result, attempt_command(self@, marker@, directory@, source, mode)) {
                (Ok(command), Ok(expected)) => command@ == expected,
                (Err(error), Err(expected)) => error@ == expected,
                _ => false,
            },
    {
        let source = match source {
            Err(failure) => {
                return Err(
                    filesystem_failure(
                        "resolve selected source",
                        self.target.src_path.as_str(),
                        failure,
                    ),
                );
            },
            Ok(source) => source,
        };
        let mut arguments = copy_texts(&self.build.cargo_arguments);
        add_text(&mut arguments, "--message-format=json");
        add_text(&mut arguments, "--");
        add_text(&mut arguments, marker);
        assert(chars::views(arguments@) =~= self@.build.cargo_arguments + seq![
            "--message-format=json"@,
            "--"@,
            marker@,
        ]);
        let crate_name = replace_char(self.target.name.as_str(), '-', '_');
        let receipt = join(directory, "stale");
        let manifest_path = join(directory, "manifest");
        let mut environment: Vec<EnvironmentChange> = Vec::new();
        assert(ir::driver::environment_change_list(environment@) =~= Seq::empty());
        assign(&mut environment, "RUSTC", self.compiler.rustc.as_str());
        assign(&mut environment, protocol::RUSTC_ENV, self.compiler.rustc.as_str());
        assign(&mut environment, protocol::SOURCE_ENV, source.as_str());
        assign(&mut environment, protocol::PACKAGE_ROOT_ENV, self.package_root.as_str());
        assign(&mut environment, protocol::CRATE_NAME_ENV, crate_name.as_str());
        assign(&mut environment, protocol::STALE_RECEIPT_ENV, receipt.as_str());
        configure(&mut environment, self.driver.as_str(), marker, manifest_path.as_str());
        let name = match mode {
            AttemptMode::Probe => "probe",
            AttemptMode::Collect => "collect",
        };
        assign(&mut environment, protocol::MODE_ENV, name);
        assert(ir::driver::environment_change_list(environment@) =~= attempt_environment(
            self@,
            marker@,
            directory@,
            source@,
            mode,
        ));
        Ok(
            CargoCommand {
                program: self.cargo.clone(),
                directory: self.invocation_directory.clone(),
                arguments,
                environment,
            },
        )
    }

    /// Classifies a probe whose receipt was verified.
    pub fn classify_probe(
        &self,
        attempt: &EndedAttempt,
        candidate: &CaptureAnalysis,
        directory: &str,
        stale: bool,
        manifest_exists: Result<bool, SourceError>,
    ) -> (result: Result<Freshness, Error>)
        ensures
            freshness_agrees(
                result,
                probe_verdict(
                    self@,
                    attempt@,
                    candidate@,
                    directory@,
                    stale,
                    manifest_exists,
                ),
            ),
    {
        match manifest_exists {
            Err(source) => {
                let path = join(directory, "manifest");
                return Err(filesystem_failure("inspect probe manifest", path.as_str(), source));
            },
            Ok(exists) => if exists {
                return Err(invalid_environment(EnvironmentProblem::ProbeManifest));
            },
        }
        assert(attempt@.observation.selected.len() == attempt.observation.selected@.len());
        if !attempt.report.success {
            if stale && attempt.observation.selected.len() == 0 {
                return Ok(Freshness::Stale);
            }
            return Err(attempt.failure(self.cargo.as_str()));
        }
        if stale {
            return Err(invalid_environment(EnvironmentProblem::SuccessfulReceipt));
        }
        match attempt.observation.completed(&self.target, true) {
            Err(error) => Err(error),
            Ok(artifact) => if !artifact.is_same(&candidate.artifact) {
                Err(invalid_environment(EnvironmentProblem::OtherArtifact))
            } else {
                Ok(Freshness::Fresh)
            },
        }
    }

    /// Decides what follows a probe. A stale result writes only its warnings now and retains its
    /// other diagnostics for the following collection.
    pub fn end_probe(attempt: &mut EndedAttempt, classified: &Result<Freshness, Error>) -> (result:
        ProbeEnd)
        ensures
            final(attempt)@ == attempt::relayed(old(attempt)@),
            result.retains == (*classified == Ok::<Freshness, Error>(Freshness::Stale)),
            result.replays_stderr == !result.retains,
            chars::views(result.texts@) == (if result.retains {
                old(attempt)@.warnings
            } else {
                old(attempt)@.warnings + old(attempt)@.diagnostics
            }),
    {
        match classified {
            Ok(Freshness::Stale) => ProbeEnd {
                texts: attempt.relay_warnings(),
                replays_stderr: false,
                retains: true,
            },
            _ => ProbeEnd { texts: attempt.replay(), replays_stderr: true, retains: false },
        }
    }

    /// Retains a stopped probe.
    pub fn retain(&mut self, attempt: EndedAttempt)
        ensures
            final(self)@ == (PreparedBuildData { stopped_probe: Some(attempt@), ..old(self)@ }),
    {
        self.stopped_probe = Some(attempt);
    }

    /// Takes the diagnostics of a stopped probe that are to be written behind a failed collection.
    /// The stderr of its Cargo follows them.
    pub fn failed_collection(&mut self) -> (result: Option<Vec<String>>)
        ensures
            match (result, old(self)@.stopped_probe) {
                (Some(texts), Some(probe)) => {
                    &&& chars::views(texts@) == probe.warnings + probe.diagnostics
                    &&& final(self)@ == (PreparedBuildData {
                        stopped_probe: Some(attempt::relayed(probe)),
                        ..old(self)@
                    })
                },
                (None, None) => final(self)@ == old(self)@,
                _ => false,
            },
    {
        let mut probe = None;
        std::mem::swap(&mut probe, &mut self.stopped_probe);
        match probe {
            Some(attempt) => {
                let mut attempt = attempt;
                let texts = attempt.replay();
                self.stopped_probe = Some(attempt);
                Some(texts)
            },
            None => None,
        }
    }

    /// Requires that the Cargo of a collecting attempt succeeded.
    pub fn require_success(&self, attempt: &EndedAttempt) -> (result: Result<(), Error>)
        ensures
            error::unit_agrees(
                result,
                if attempt@.report.success {
                    Ok(())
                } else {
                    Err(attempt::attempt_failure(attempt@, self@.cargo))
                },
            ),
    {
        if attempt.report.success {
            Ok(())
        } else {
            Err(attempt.failure(self.cargo.as_str()))
        }
    }

    /// Takes the newly compiled artifact of a collecting attempt whose receipt was verified.
    pub fn collect(&self, attempt: &EndedAttempt, stale: bool) -> (result: Result<
        CargoArtifactRecord,
        Error,
    >)
        ensures
            match (result, collection_verdict(self@, attempt@, stale)) {
                (Ok(record), Ok(expected)) => record@ == expected,
                (Err(error), Err(expected)) => error@ == expected,
                _ => false,
            },
    {
        if !attempt.report.success {
            return Err(attempt.failure(self.cargo.as_str()));
        }
        if stale {
            return Err(invalid_environment(EnvironmentProblem::CollectedReceipt));
        }
        attempt.observation.completed(&self.target, false)
    }
}

/// The manifest of a source, or why there is none.
pub open spec fn loaded<R: ByteSource>(
    opened: Result<R, SourceError>,
    path: Seq<char>,
    marker: Seq<char>,
) -> Result<ManifestData, ErrorData> {
    match opened {
        Err(source) => Err(error::filesystem("open compiler manifest"@, path, source)),
        Ok(reader) => match manifest::manifest(
            wire::input_of(reader),
            path,
            marker,
        ) {
            Ok(data) => Ok(data),
            Err(fault) => Err(manifest_problem(path, fault)),
        },
    }
}

/// The error of a broken manifest. A failed read stays what it is.
pub open spec fn manifest_problem(path: Seq<char>, fault: fault::SpecFault) -> ErrorData {
    match fault {
        fault::Fault::Read(source) => error::filesystem("read compiler manifest"@, path, source),
        other => Failure::InvalidManifest { path, fault: other },
    }
}

/// Decodes the manifest of an attempt.
pub fn load_manifest<R: ByteSource>(opened: Result<R, SourceError>, path: &str, marker: &str) -> (result:
    Result<CompilerManifest, Error>)
    requires
        manifest::has_parent(path@) || (opened matches Ok(reader) ==> !manifest::reads_module(
            wire::input_of(reader),
            marker@,
        )),
    ensures
        match (result, loaded(opened, path@, marker@)) {
            (Ok(manifest), Ok(expected)) => manifest@ == expected,
            (Err(error), Err(expected)) => error@ == expected,
            _ => false,
        },
{
    match opened {
        Err(source) => Err(filesystem_failure("open compiler manifest", path, source)),
        Ok(reader) => match read_manifest(reader, path, marker) {
            Ok(manifest) => Ok(manifest),
            Err(fault::Fault::Read(source)) => Err(
                filesystem_failure("read compiler manifest", path, source),
            ),
            Err(other) => Err(
                Failure::InvalidManifest { path: String::from_str(path), fault: other },
            ),
        },
    }
}

/// A probe is fresh exactly if Cargo succeeded without a receipt or a manifest and reported one
/// fresh artifact that equals the stored one. It is stale exactly if Cargo failed behind this
/// attempt's receipt without any selected artifact.
pub proof fn probes_are_affirmative(
    prepared: PreparedBuildData,
    attempt: EndedData,
    candidate: CaptureAnalysisData,
    directory: Seq<char>,
    stale: bool,
    manifest_exists: Result<bool, SourceError>,
)
    ensures
        probe_verdict(prepared, attempt, candidate, directory, stale, manifest_exists) == Ok::<
            Freshness,
            ErrorData,
        >(Freshness::Fresh) <==> {
            &&& manifest_exists == Ok::<bool, SourceError>(false)
            &&& attempt.report.success
            &&& !stale
            &&& observation::completion_verdict(attempt.observation, prepared.target, true) == Ok::<
                ArtifactData,
                ErrorData,
            >(candidate.artifact)
        },
        probe_verdict(prepared, attempt, candidate, directory, stale, manifest_exists) == Ok::<
            Freshness,
            ErrorData,
        >(Freshness::Stale) <==> {
            &&& manifest_exists == Ok::<bool, SourceError>(false)
            &&& !attempt.report.success
            &&& stale
            &&& attempt.observation.selected.len() == 0
        },
{
}

/// The environment variables that a preparation reads.
pub struct PreparationVariables {
    /// The variables that configure a compiler.
    pub compiler: CompilerVariables,
    /// The value of `CARGO_HOME`.
    pub cargo_home: Option<String>,
    /// The value of `HOME`.
    pub home: Option<String>,
}

/// The mathematical counterpart of [`PreparationVariables`].
pub struct PreparationVariablesData {
    /// The variables that configure a compiler.
    pub compiler: CompilerVariablesData,
    /// The value of `CARGO_HOME`.
    pub cargo_home: Option<Seq<char>>,
    /// The value of `HOME`.
    pub home: Option<Seq<char>>,
}

impl View for PreparationVariables {
    type V = PreparationVariablesData;

    open spec fn view(&self) -> PreparationVariablesData {
        PreparationVariablesData {
            compiler: self.compiler@,
            cargo_home: chars::option_view(self.cargo_home),
            home: chars::option_view(self.home),
        }
    }
}

/// How far a preparation has come. Each state but the last waits for one outside step.
pub enum Preparation {
    /// Cargo reports the workspace members.
    Metadata,
    /// The directory of the selected manifest is made canonical.
    PackageRoot(SelectedPackage),
    /// The default compiler is inspected.
    Compiler(SelectedPackage, String, CompilerInspection),
    /// The driver is provisioned.
    Driver(SelectedPackage, String, CompilerContext, DriverPlan, Provision),
    /// Cargo prints its version.
    CargoVersion(SelectedPackage, String, CompilerContext, DriverPlan),
    /// The Cargo home is made canonical.
    Home(SelectedPackage, String, CompilerContext, DriverPlan, Vec<u8>),
    /// The explicit inputs are serialized.
    Inputs(SelectedPackage, String, CompilerContext, DriverPlan, Vec<u8>, String),
    /// The request can be probed and collected.
    Prepared(PreparedBuild),
}

/// The mathematical counterpart of [`Preparation`].
pub enum PreparationData {
    /// Cargo reports the workspace members.
    Metadata,
    /// The directory of the selected manifest is made canonical.
    PackageRoot(SelectedPackageData),
    /// The default compiler is inspected.
    Compiler(SelectedPackageData, Seq<char>, InspectionData),
    /// The driver is provisioned.
    Driver(SelectedPackageData, Seq<char>, CompilerContextData, DriverPlanData, ProvisionData),
    /// Cargo prints its version.
    CargoVersion(SelectedPackageData, Seq<char>, CompilerContextData, DriverPlanData),
    /// The Cargo home is made canonical.
    Home(SelectedPackageData, Seq<char>, CompilerContextData, DriverPlanData, Seq<u8>),
    /// The explicit inputs are serialized.
    Inputs(SelectedPackageData, Seq<char>, CompilerContextData, DriverPlanData, Seq<u8>, Seq<char>),
    /// The request can be probed and collected.
    Prepared(PreparedBuildData),
}

impl View for Preparation {
    type V = PreparationData;

    open spec fn view(&self) -> PreparationData {
        match self {
            Preparation::Metadata => PreparationData::Metadata,
            Preparation::PackageRoot(selected) => PreparationData::PackageRoot(selected@),
            Preparation::Compiler(selected, root, inspection) => PreparationData::Compiler(
                selected@,
                root@,
                inspection@,
            ),
            Preparation::Driver(selected, root, context, plan, provision) =>
                PreparationData::Driver(selected@, root@, context@, plan@, provision@),
            Preparation::CargoVersion(selected, root, context, plan) =>
                PreparationData::CargoVersion(selected@, root@, context@, plan@),
            Preparation::Home(selected, root, context, plan, version) => PreparationData::Home(
                selected@,
                root@,
                context@,
                plan@,
                version@,
            ),
            Preparation::Inputs(selected, root, context, plan, version, home) =>
                PreparationData::Inputs(selected@, root@, context@, plan@, version@, home@),
            Preparation::Prepared(prepared) => PreparationData::Prepared(prepared@),
        }
    }
}

/// What Cargo reports about a workspace.
pub struct WorkspaceMembers {
    /// The workspace root.
    pub root: String,
    /// The workspace members.
    pub packages: Vec<Package>,
}

/// What an outside step of a preparation gave.
pub enum PreparationReply {
    /// Cargo reported the workspace, or why it did not.
    Members(Result<WorkspaceMembers, String>),
    /// A path was made canonical.
    Resolved(Result<String, SourceError>),
    /// A step of the inspection of the compiler ended.
    Compiler(CompilerReply),
    /// A step of the provisioning of the driver ended.
    Driver(ProvisionReply),
    /// Cargo ran.
    Ran(Result<ProcessOutput, SourceError>),
    /// The explicit inputs were serialized, or why they were not.
    Serialized(Result<Vec<u8>, String>),
}

/// The package and the target of a request among workspace members.
pub open spec fn selected(
    members: Seq<PackageData>,
    root: Seq<char>,
    request: RequestData,
) -> Result<SelectedPackageData, ErrorData> {
    let package = resolution::member_index(members, request.package);
    if package >= members.len() {
        Err(Failure::PackageNotFound { package: request.package })
    } else {
        let targets = members[package].targets;
        let target = resolution::target_index(targets, request.target);
        if target >= targets.len() {
            Err(
                Failure::TargetNotFound {
                    package: members[package].name,
                    target: request::description(request.target),
                },
            )
        } else {
            Ok(
                SelectedPackageData {
                    name: members[package].name,
                    version: members[package].version,
                    id: members[package].id,
                    manifest_path: members[package].manifest_path,
                    target: targets[target],
                    workspace_root: root,
                },
            )
        }
    }
}

/// Selects the package and the target of a request among workspace members.
pub fn select(members: WorkspaceMembers, request: &BuildRequest) -> (result: Result<
    SelectedPackage,
    Error,
>)
    ensures
        match (
            result,
            selected(metadata::package_list(members.packages@), members.root@, request@),
        ) {
            (Ok(package), Ok(expected)) => package@ == expected,
            (Err(error), Err(expected)) => error@ == expected,
            _ => false,
        },
{
    match resolve_package(&members.packages, request.package()) {
        Err(error) => Err(error),
        Ok(package) => match resolve_target(package, request.target()) {
            Err(error) => Err(error),
            Ok(target) => Ok(
                SelectedPackage {
                    name: package.name.clone(),
                    version: package.version.clone(),
                    id: package.id.clone(),
                    manifest_path: package.manifest_path.clone(),
                    target: target.clone(),
                    workspace_root: members.root.clone(),
                },
            ),
        },
    }
}

/// The explicit inputs of a build. How its features are written, ordered and repeated is no part of
/// them.
pub open spec fn build_of(
    workspace: WorkspaceData,
    request: RequestData,
    package: SelectedPackageData,
) -> BuildRecordData {
    BuildRecordData {
        package: package.name,
        version: package.version,
        target: TargetRecordData {
            name: package.target.name,
            kind: request::kind_of(request.target),
        },
        profile: request.profile,
        cargo: workspace.cargo,
        invocation_directory: workspace.invocation_directory,
        cargo_arguments: resolution::arguments_of(request::normal_request(request)),
    }
}

/// Records the explicit inputs of a build.
pub fn record_build(workspace: &Workspace, request: &BuildRequest, package: &SelectedPackage) -> (result:
    BuildRecord)
    ensures
        result@ == build_of(workspace@, request@, package@),
{
    let selection = request.normalized();
    BuildRecord {
        package: package.name.clone(),
        version: package.version.clone(),
        target: TargetRecord { name: package.target.name.clone(), kind: request.target().kind() },
        profile: String::from_str(request.profile()),
        cargo: String::from_str(workspace.cargo()),
        invocation_directory: String::from_str(workspace.invocation_directory()),
        cargo_arguments: cargo_arguments(&selection),
    }
}

/// What identifies a request besides its places, its Cargo version and its driver. These values are
/// serialized in this order.
pub struct IdentityInputs {
    /// The explicit inputs of the build.
    pub build: BuildRecord,
    /// The identity of the package.
    pub package: String,
    /// The target.
    pub target: PackageTarget,
    /// The directory of the artifacts.
    pub target_directory: String,
    /// The directory of the intermediate files.
    pub build_directory: String,
}

/// The mathematical counterpart of [`IdentityInputs`].
pub struct IdentityInputsData {
    /// The explicit inputs of the build.
    pub build: BuildRecordData,
    /// The identity of the package.
    pub package: Seq<char>,
    /// The target.
    pub target: PackageTargetData,
    /// The directory of the artifacts.
    pub target_directory: Seq<char>,
    /// The directory of the intermediate files.
    pub build_directory: Seq<char>,
}

impl View for IdentityInputs {
    type V = IdentityInputsData;

    open spec fn view(&self) -> IdentityInputsData {
        IdentityInputsData {
            build: self.build@,
            package: self.package@,
            target: self.target@,
            target_directory: self.target_directory@,
            build_directory: self.build_directory@,
        }
    }
}

/// The identity of a request. Without a directory of their own, the intermediate files lie among the
/// artifacts.
pub open spec fn identity_of(
    build: BuildRecordData,
    package: SelectedPackageData,
    target_directory: Seq<char>,
    build_directory: Option<Seq<char>>,
) -> IdentityInputsData {
    IdentityInputsData {
        build,
        package: package.id,
        target: package.target,
        target_directory,
        build_directory: match build_directory {
            Some(directory) => directory,
            None => target_directory,
        },
    }
}

/// Selects what identifies a request.
pub fn identity_inputs(
    build: &BuildRecord,
    package: &SelectedPackage,
    target_directory: &str,
    build_directory: &Option<String>,
) -> (result: IdentityInputs)
    ensures
        result@ == identity_of(
            build@,
            package@,
            target_directory@,
            chars::option_view(*build_directory),
        ),
{
    IdentityInputs {
        build: build.clone(),
        package: package.id.clone(),
        target: package.target.clone(),
        target_directory: String::from_str(target_directory),
        build_directory: match build_directory {
            Some(directory) => directory.clone(),
            None => String::from_str(target_directory),
        },
    }
}

/// Requests that differ only in how the same features are written, ordered and repeated have the
/// same explicit inputs, so they have one identity.
pub proof fn equal_selections_have_one_identity(
    workspace: WorkspaceData,
    left: RequestData,
    right: RequestData,
    package: SelectedPackageData,
)
    requires
        left == (RequestData { features: left.features, ..right }),
        forall|name: Seq<char>| #[trigger]
            features::names_of(left.features).contains(name) <==> features::names_of(
                right.features,
            ).contains(name),
    ensures
        build_of(workspace, left, package) == build_of(workspace, right, package),
{
    features::equal_selections_have_one_form(left.features, right.features);
}

/// The state behind an inspection: it goes on, fails, or leads to the driver.
pub open spec fn behind_inspection(
    workspace: WorkspaceData,
    variables: PreparationVariablesData,
    sources: Seq<DriverSourceData>,
    package: SelectedPackageData,
    root: Seq<char>,
    inspection: InspectionData,
) -> Result<PreparationData, ErrorData> {
    match inspection {
        InspectionData::Finished(Err(error)) => Err(error),
        InspectionData::Finished(Ok(context)) => match driver::home_of(
            workspace.invocation_directory,
            variables.cargo_home,
            variables.home,
        ) {
            Err(error) => Err(error),
            Ok(home) => Ok(
                PreparationData::Driver(
                    package,
                    root,
                    context,
                    driver::plan_of(home, context.identity, sources),
                    ProvisionData::CreatingRoot,
                ),
            ),
        },
        other => Ok(PreparationData::Compiler(package, root, other)),
    }
}

/// The raw output of a program, or why there is none.
pub open spec fn program_bytes(launched: Result<ProcessOutput, SourceError>, program: Seq<char>) -> Result<
    Seq<u8>,
    ErrorData,
> {
    match toolchain::program_text(launched, program) {
        Err(error) => Err(error),
        Ok(_) => Ok(launched->Ok_0.stdout@),
    }
}

/// The prepared build of explicit inputs with a key.
pub open spec fn prepared_of(
    workspace: WorkspaceData,
    request: RequestData,
    package: SelectedPackageData,
    root: Seq<char>,
    context: CompilerContextData,
    plan: DriverPlanData,
    key: Seq<char>,
) -> PreparedBuildData {
    PreparedBuildData {
        cargo: workspace.cargo,
        invocation_directory: workspace.invocation_directory,
        build: build_of(workspace, request, package),
        compiler: context.identity,
        package: package.id,
        package_root: root,
        target: package.target,
        driver: driver::entry_path(plan.entry, EntryFile::Executable),
        request_key: key,
        stopped_probe: None,
    }
}

/// The preparation behind a reply. Another reply changes nothing.
pub open spec fn preparation_after(
    workspace: WorkspaceData,
    request: RequestData,
    variables: PreparationVariablesData,
    sources: Seq<DriverSourceData>,
    state: PreparationData,
    reply: PreparationReply,
) -> Result<PreparationData, ErrorData> {
    match (state, reply) {
        (PreparationData::Metadata, PreparationReply::Members(members)) => match members {
            Err(problem) => Err(workspace::no_metadata(problem@)),
            Ok(members) => match selected(
                metadata::package_list(members.packages@),
                members.root@,
                request,
            ) {
                Err(error) => Err(error),
                Ok(package) => Ok(PreparationData::PackageRoot(package)),
            },
        },
        (PreparationData::PackageRoot(package), PreparationReply::Resolved(resolved)) => match
            resolved {
            Err(source) => Err(
                error::filesystem(
                    "resolve selected package root"@,
                    package.manifest_path,
                    source,
                ),
            ),
            Ok(root) => Ok(
                PreparationData::Compiler(package, root@, InspectionData::Configuring),
            ),
        },
        (
            PreparationData::Compiler(package, root, inspection),
            PreparationReply::Compiler(reply),
        ) => behind_inspection(
            workspace,
            variables,
            sources,
            package,
            root,
            toolchain::inspection_after(workspace.cargo, variables.compiler, inspection, reply),
        ),
        (
            PreparationData::Driver(package, root, context, plan, provision),
            PreparationReply::Driver(reply),
        ) => match driver::provision_after(
            plan,
            context.identity.rustc,
            sources,
            provision,
            reply,
        ) {
            Err(error) => Err(error),
            Ok(ProvisionData::Ready) => Ok(
                PreparationData::CargoVersion(package, root, context, plan),
            ),
            Ok(provision) => Ok(PreparationData::Driver(package, root, context, plan, provision)),
        },
        (
            PreparationData::CargoVersion(package, root, context, plan),
            PreparationReply::Ran(launched),
        ) => match program_bytes(launched, workspace.cargo) {
            Err(error) => Err(error),
            Ok(version) => Ok(PreparationData::Home(package, root, context, plan, version)),
        },
        (
            PreparationData::Home(package, root, context, plan, version),
            PreparationReply::Resolved(resolved),
        ) => match resolved {
            Err(source) => Err(
                error::filesystem("resolve Cargo home"@, workspace.invocation_directory, source),
            ),
            Ok(home) => Ok(
                PreparationData::Inputs(package, root, context, plan, version, home@),
            ),
        },
        (
            PreparationData::Inputs(package, root, context, plan, version, home),
            PreparationReply::Serialized(inputs),
        ) => match digest::request_key_of(
            package.workspace_root,
            home,
            version,
            plan.key,
            digest::inputs_view(inputs),
        ) {
            Err(error) => Err(error),
            Ok(key) => Ok(
                PreparationData::Prepared(
                    prepared_of(workspace, request, package, root, context, plan, key),
                ),
            ),
        },
        _ => Ok(state),
    }
}

/// A preparation or an error agrees with the expected one.
pub open spec fn preparation_agrees(
    result: Result<Preparation, Error>,
    expected: Result<PreparationData, ErrorData>,
) -> bool {
    match (result, expected) {
        (Ok(state), Ok(meant)) => state@ == meant,
        (Err(error), Err(meant)) => error@ == meant,
        _ => false,
    }
}

fn pass_inspection(
    workspace: &Workspace,
    variables: &PreparationVariables,
    sources: &Vec<DriverSource>,
    package: SelectedPackage,
    root: String,
    inspection: CompilerInspection,
) -> (result: Result<Preparation, Error>)
    ensures
        preparation_agrees(
            result,
            behind_inspection(
                workspace@,
                variables@,
                driver::driver_source_list(sources@),
                package@,
                root@,
                inspection@,
            ),
        ),
{
    match inspection {
        CompilerInspection::Finished(Err(error)) => Err(error),
        CompilerInspection::Finished(Ok(context)) => match cargo_home(
            workspace.invocation_directory(),
            &variables.cargo_home,
            &variables.home,
        ) {
            Err(error) => Err(error),
            Ok(home) => {
                let plan = plan_driver(home.as_str(), &context.identity, sources);
                Ok(Preparation::Driver(package, root, context, plan, Provision::CreatingRoot))
            },
        },
        other => Ok(Preparation::Compiler(package, root, other)),
    }
}

fn finish_preparation(
    workspace: &Workspace,
    request: &BuildRequest,
    package: SelectedPackage,
    root: String,
    context: CompilerContext,
    plan: DriverPlan,
    key: String,
) -> (result: PreparedBuild)
    ensures
        result@ == prepared_of(
            workspace@,
            request@,
            package@,
            root@,
            context@,
            plan@,
            key@,
        ),
{
    let build = record_build(workspace, request, &package);
    let driver = driver::path_in_entry(plan.entry.as_str(), EntryFile::Executable);
    PreparedBuild {
        cargo: String::from_str(workspace.cargo()),
        invocation_directory: String::from_str(workspace.invocation_directory()),
        build,
        compiler: context.identity,
        package: package.id,
        package_root: root,
        target: package.target,
        driver,
        request_key: key,
        stopped_probe: None,
    }
}

/// Takes the reply to the outside step that a preparation waits for.
///
/// The request is resolved and its driver provisioned without compiling the selected Cargo target.
pub fn prepare_build(
    workspace: &Workspace,
    request: &BuildRequest,
    variables: &PreparationVariables,
    sources: &Vec<DriverSource>,
    state: Preparation,
    reply: PreparationReply,
) -> (result: Result<Preparation, Error>)
    ensures
        preparation_agrees(
            result,
            preparation_after(
                workspace@,
                request@,
                variables@,
                driver::driver_source_list(sources@),
                state@,
                reply,
            ),
        ),
{
    match (state, reply) {
        (Preparation::Metadata, PreparationReply::Members(members)) => match members {
            Err(problem) => Err(Failure::Metadata { problem }),
            Ok(members) => match select(members, request) {
                Err(error) => Err(error),
                Ok(package) => Ok(Preparation::PackageRoot(package)),
            },
        },
        (Preparation::PackageRoot(package), PreparationReply::Resolved(resolved)) => match resolved {
            Err(source) => Err(
                filesystem_failure(
                    "resolve selected package root",
                    package.manifest_path.as_str(),
                    source,
                ),
            ),
            Ok(root) => Ok(Preparation::Compiler(package, root, CompilerInspection::Configuring)),
        },
        (
            Preparation::Compiler(package, root, inspection),
            PreparationReply::Compiler(reply),
        ) => {
            let inspection = inspection.discover(workspace.cargo(), &variables.compiler, reply);
            pass_inspection(workspace, variables, sources, package, root, inspection)
        },
        (
            Preparation::Driver(package, root, context, plan, provision),
            PreparationReply::Driver(reply),
        ) => match provision.provision(&plan, context.identity.rustc.as_str(), sources, reply) {
            Err(error) => Err(error),
            Ok(Provision::Ready) => Ok(Preparation::CargoVersion(package, root, context, plan)),
            Ok(provision) => Ok(Preparation::Driver(package, root, context, plan, provision)),
        },
        (
            Preparation::CargoVersion(package, root, context, plan),
            PreparationReply::Ran(launched),
        ) => match require_success(launched) {
            Err(fault) => Err(process_failure(workspace.cargo(), fault)),
            Ok(version) => Ok(Preparation::Home(package, root, context, plan, version)),
        },
        (
            Preparation::Home(package, root, context, plan, version),
            PreparationReply::Resolved(resolved),
        ) => match resolved {
            Err(source) => Err(
                filesystem_failure("resolve Cargo home", workspace.invocation_directory(), source),
            ),
            Ok(home) => Ok(Preparation::Inputs(package, root, context, plan, version, home)),
        },
        (
            Preparation::Inputs(package, root, context, plan, version, home),
            PreparationReply::Serialized(inputs),
        ) => match request_key(
            package.workspace_root.as_str(),
            home.as_str(),
            version.as_slice(),
            plan.key.as_str(),
            inputs,
        ) {
            Err(error) => Err(error),
            Ok(key) => Ok(
                Preparation::Prepared(
                    finish_preparation(workspace, request, package, root, context, plan, key),
                ),
            ),
        },
        (state, _) => Ok(state),
    }
}

/// The warnings for disabled wrappers.
pub open spec fn wrapper_warnings(wrappers_configured: bool) -> Seq<Seq<char>> {
    if wrappers_configured {
        seq![
            "warning: Cargo Optic does not support configured rustc wrappers; disabling them for this capture"@,
            "warning: the captured compiler output can differ from a normal wrapped build"@,
        ]
    } else {
        Seq::empty()
    }
}

/// Lists the lines that warn of disabled wrappers.
pub fn warn_of_wrappers(context: &CompilerContext) -> (result: Vec<String>)
    ensures
        chars::views(result@) == wrapper_warnings(context@.wrappers_configured),
{
    let mut lines = chars::no_texts();
    if context.wrappers_configured {
        add_text(
            &mut lines,
            "warning: Cargo Optic does not support configured rustc wrappers; disabling them for this capture",
        );
        add_text(
            &mut lines,
            "warning: the captured compiler output can differ from a normal wrapped build",
        );
    }
    assert(chars::views(lines@) =~= wrapper_warnings(context.wrappers_configured));
    lines
}

} // verus!

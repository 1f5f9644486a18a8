//! Keeps compiler failures distinct from invalid requests and record failures.
//!
//! Callers need this boundary to identify the failed phase without parsing an error message.

use super::fault;
use crate::process::ProcessFault;
use crate::llvm_index::error::IndexError;
use crate::source::SourceError;
use crate::text::{debug_text, push_decimal};
use vstd::prelude::*;
use vstd::string::StringExecFns;

verus! {

/// An optional text as the standard `Debug` formatting of `Option` gives it.
pub open spec fn option_text(text: Option<Seq<char>>) -> Seq<char> {
    match text {
        Some(text) => "Some("@ + crate::text::debugged(text) + ")"@,
        None => "None"@,
    }
}

fn print_option(text: &Option<String>) -> (result: String)
    ensures
        result@ == option_text(crate::chars::option_view(*text)),
{
    match text {
        Some(text) => {
            let mut result = String::from_str("Some(");
            result.append(debug_text(text.as_str()).as_str());
            result.append(")");
            result
        },
        None => String::from_str("None"),
    }
}

/// The name of a truth value.
pub open spec fn flag_text(flag: bool) -> Seq<char> {
    if flag {
        "true"@
    } else {
        "false"@
    }
}

fn print_flag(flag: bool) -> (result: String)
    ensures
        result@ == flag_text(flag),
{
    if flag {
        String::from_str("true")
    } else {
        String::from_str("false")
    }
}

/// Why the compiler environment is not supported for collection.
#[derive(Debug)]
#[allow(inconsistent_fields)]
pub enum EnvironmentProblem<S> {
    /// There is no Cargo home.
    NoCargoHome,
    /// A cache entry has another kind.
    CacheKind {
        /// The path.
        path: S,
    },
    /// A cached driver cannot run.
    CacheExecutable {
        /// The path.
        path: S,
    },
    /// A cache entry was made by another recipe.
    CacheIdentity {
        /// The path.
        path: S,
    },
    /// A cached driver reports another key.
    CacheKey {
        /// The path.
        path: S,
    },
    /// The LLVM version is unknown.
    NoLlvmVersion,
    /// A source snapshot has another length.
    SnapshotLength {
        /// The path.
        path: S,
    },
    /// LLVM was collected from an unsupported configuration.
    ConflictingMetadata,
    /// LLVM was collected in another LTO mode.
    OtherLto,
    /// There is no disassembler.
    NoDisassembler {
        /// The expected path.
        path: S,
    },
    /// The disassembler has another version.
    DisassemblerVersion {
        /// The reported version.
        actual: Option<S>,
    },
    /// No artifact ID is left for modules.
    NoFreeId,
    /// No artifact ID is left for another module.
    IdOverflow,
    /// An expected module is empty.
    EmptyBitcode {
        /// The path.
        path: S,
    },
    /// A candidate belongs to another request.
    OtherCandidate,
    /// A stopped probe was not followed by a collection.
    StoppedProbe,
    /// A collection left a receipt.
    CollectedReceipt,
    /// A probe left a manifest.
    ProbeManifest,
    /// A successful probe left a receipt.
    SuccessfulReceipt,
    /// A fresh artifact differs from the stored one.
    OtherArtifact,
    /// A receipt has another shape.
    ReceiptShape,
    /// A receipt belongs to another attempt.
    ReceiptContent,
    /// The request has no identity.
    Identity {
        /// What went wrong.
        problem: S,
    },
    /// Cargo did not finish successfully.
    Unfinished,
    /// There is not one selected artifact.
    ArtifactCount {
        /// The number of selected artifacts.
        count: usize,
    },
    /// The selected artifact has another freshness.
    OtherFreshness {
        /// The expected freshness.
        expected: bool,
        /// The freshness.
        got: bool,
    },
    /// The selected artifact belongs to another target.
    OtherTarget,
    /// The compiler is configured.
    CustomRustc,
    /// The compiler does not report a field.
    NoField {
        /// The field.
        field: S,
    },
}

/// A mathematical failure.
pub type EnvironmentData = EnvironmentProblem<Seq<char>>;

/// Why the compiler environment is not supported for collection.
pub type Environment = EnvironmentProblem<String>;

impl View for EnvironmentProblem<String> {
    type V = EnvironmentData;

    open spec fn view(&self) -> EnvironmentData {
        match self {
            EnvironmentProblem::NoCargoHome => EnvironmentProblem::NoCargoHome,
            EnvironmentProblem::CacheKind { path } => EnvironmentProblem::CacheKind {
                path: path@,
            },
            EnvironmentProblem::CacheExecutable { path } => EnvironmentProblem::CacheExecutable {
                path: path@,
            },
            EnvironmentProblem::CacheIdentity { path } => EnvironmentProblem::CacheIdentity {
                path: path@,
            },
            EnvironmentProblem::CacheKey { path } => EnvironmentProblem::CacheKey {
                path: path@,
            },
            EnvironmentProblem::NoLlvmVersion => EnvironmentProblem::NoLlvmVersion,
            EnvironmentProblem::SnapshotLength { path } => EnvironmentProblem::SnapshotLength {
                path: path@,
            },
            EnvironmentProblem::ConflictingMetadata => EnvironmentProblem::ConflictingMetadata,
            EnvironmentProblem::OtherLto => EnvironmentProblem::OtherLto,
            EnvironmentProblem::NoDisassembler { path } => EnvironmentProblem::NoDisassembler {
                path: path@,
            },
            EnvironmentProblem::DisassemblerVersion { actual } => EnvironmentProblem::DisassemblerVersion {
                actual: crate::chars::option_view(*actual),
            },
            EnvironmentProblem::NoFreeId => EnvironmentProblem::NoFreeId,
            EnvironmentProblem::IdOverflow => EnvironmentProblem::IdOverflow,
            EnvironmentProblem::EmptyBitcode { path } => EnvironmentProblem::EmptyBitcode {
                path: path@,
            },
            EnvironmentProblem::OtherCandidate => EnvironmentProblem::OtherCandidate,
            EnvironmentProblem::StoppedProbe => EnvironmentProblem::StoppedProbe,
            EnvironmentProblem::CollectedReceipt => EnvironmentProblem::CollectedReceipt,
            EnvironmentProblem::ProbeManifest => EnvironmentProblem::ProbeManifest,
            EnvironmentProblem::SuccessfulReceipt => EnvironmentProblem::SuccessfulReceipt,
            EnvironmentProblem::OtherArtifact => EnvironmentProblem::OtherArtifact,
            EnvironmentProblem::ReceiptShape => EnvironmentProblem::ReceiptShape,
            EnvironmentProblem::ReceiptContent => EnvironmentProblem::ReceiptContent,
            EnvironmentProblem::Identity { problem } => EnvironmentProblem::Identity {
                problem: problem@,
            },
            EnvironmentProblem::Unfinished => EnvironmentProblem::Unfinished,
            EnvironmentProblem::ArtifactCount { count } => EnvironmentProblem::ArtifactCount {
                count: *count,
            },
            EnvironmentProblem::OtherFreshness { expected, got } => EnvironmentProblem::OtherFreshness {
                expected: *expected,
                got: *got,
            },
            EnvironmentProblem::OtherTarget => EnvironmentProblem::OtherTarget,
            EnvironmentProblem::CustomRustc => EnvironmentProblem::CustomRustc,
            EnvironmentProblem::NoField { field } => EnvironmentProblem::NoField {
                field: field@,
            },
        }
    }
}

/// The sentence that describes a failure.
pub open spec fn environment_sentence(failure: EnvironmentData) -> Seq<char> {
    match failure {
        EnvironmentProblem::NoCargoHome => "Cargo home requires CARGO_HOME or HOME, got neither"@,
        EnvironmentProblem::CacheKind { path } => "driver cache requires regular files and directories, got "@ + path,
        EnvironmentProblem::CacheExecutable { path } => "driver cache requires a nonempty executable, got "@ + path,
        EnvironmentProblem::CacheIdentity { path } => "driver identity must match the current recipe, got "@ + path,
        EnvironmentProblem::CacheKey { path } => "cached executable must report the prepared driver key, got "@ + path,
        EnvironmentProblem::NoLlvmVersion => "the LLVM backend requires an exact compiler LLVM version, got none"@,
        EnvironmentProblem::SnapshotLength { path } => "source snapshot length must match the compiler manifest, got "@ + path,
        EnvironmentProblem::ConflictingMetadata => "collected LLVM requires a supported effective configuration, got conflicting metadata"@,
        EnvironmentProblem::OtherLto => "collected LLVM requires no LTO or local ThinLTO, got another mode"@,
        EnvironmentProblem::NoDisassembler { path } => "optimized LLVM collection requires "@ + path + ". Install the matching component with rustup component add llvm-tools"@,
        EnvironmentProblem::DisassemblerVersion { actual } => "llvm-dis must match the compiler's LLVM version, got "@ + option_text(actual),
        EnvironmentProblem::NoFreeId => "artifact IDs must leave space for LLVM modules, got u64::MAX"@,
        EnvironmentProblem::IdOverflow => "artifact IDs must fit in u64, got overflow"@,
        EnvironmentProblem::EmptyBitcode { path } => "expected bitcode must not be empty, got "@ + path,
        EnvironmentProblem::OtherCandidate => "candidate request key must match the prepared request, got another key"@,
        EnvironmentProblem::StoppedProbe => "a stopped probe requires collection, got another probe"@,
        EnvironmentProblem::CollectedReceipt => "collection requires no stale receipt, got a stopped probe receipt"@,
        EnvironmentProblem::ProbeManifest => "probe requires no selected analysis manifest, got a compiler manifest"@,
        EnvironmentProblem::SuccessfulReceipt => "successful probe requires no stale receipt, got a stopped invocation"@,
        EnvironmentProblem::OtherArtifact => "fresh selected artifact must match the stored observation, got different Cargo artifact fields"@,
        EnvironmentProblem::ReceiptShape => "stale receipt must contain exactly this attempt's header, got an invalid file"@,
        EnvironmentProblem::ReceiptContent => "stale receipt must match this analysis token and protocol, got a different header"@,
        EnvironmentProblem::Identity { problem } => "request identity requires serializable Cargo paths, got "@ + problem,
        EnvironmentProblem::Unfinished => "successful Cargo completion requires one successful build-finished message and no compiler errors"@,
        EnvironmentProblem::ArtifactCount { count } => "Cargo requires one matching selected artifact, got "@ + crate::text::decimal(count as nat),
        EnvironmentProblem::OtherFreshness { expected, got } => "selected artifact freshness must be "@ + flag_text(expected) + ", got "@ + flag_text(got),
        EnvironmentProblem::OtherTarget => "selected artifact must match the prepared Cargo target, got a conflicting target"@,
        EnvironmentProblem::CustomRustc => "custom rustc selection is not supported; use the default rustc from PATH"@,
        EnvironmentProblem::NoField { field } => "rustc -vV must report "@ + field + ", got no value"@,
    }
}

impl EnvironmentProblem<String> {
    /// Describes the failure.
    pub fn message(&self) -> (result: String)
        ensures
            result@ == environment_sentence(self@),
    {
        match self {
            EnvironmentProblem::NoCargoHome => String::from_str("Cargo home requires CARGO_HOME or HOME, got neither"),
            EnvironmentProblem::CacheKind { path } => {
                let mut text = String::from_str("driver cache requires regular files and directories, got ");
                text.append(path.as_str());
                text
            },
            EnvironmentProblem::CacheExecutable { path } => {
                let mut text = String::from_str("driver cache requires a nonempty executable, got ");
                text.append(path.as_str());
                text
            },
            EnvironmentProblem::CacheIdentity { path } => {
                let mut text = String::from_str("driver identity must match the current recipe, got ");
                text.append(path.as_str());
                text
            },
            EnvironmentProblem::CacheKey { path } => {
                let mut text = String::from_str("cached executable must report the prepared driver key, got ");
                text.append(path.as_str());
                text
            },
            EnvironmentProblem::NoLlvmVersion => String::from_str("the LLVM backend requires an exact compiler LLVM version, got none"),
            EnvironmentProblem::SnapshotLength { path } => {
                let mut text = String::from_str("source snapshot length must match the compiler manifest, got ");
                text.append(path.as_str());
                text
            },
            EnvironmentProblem::ConflictingMetadata => String::from_str("collected LLVM requires a supported effective configuration, got conflicting metadata"),
            EnvironmentProblem::OtherLto => String::from_str("collected LLVM requires no LTO or local ThinLTO, got another mode"),
            EnvironmentProblem::NoDisassembler { path } => {
                let mut text = String::from_str("optimized LLVM collection requires ");
                text.append(path.as_str());
                text.append(". Install the matching component with rustup component add llvm-tools");
                text
            },
            EnvironmentProblem::DisassemblerVersion { actual } => {
                let mut text = String::from_str("llvm-dis must match the compiler's LLVM version, got ");
                text.append(print_option(actual).as_str());
                text
            },
            EnvironmentProblem::NoFreeId => String::from_str("artifact IDs must leave space for LLVM modules, got u64::MAX"),
            EnvironmentProblem::IdOverflow => String::from_str("artifact IDs must fit in u64, got overflow"),
            EnvironmentProblem::EmptyBitcode { path } => {
                let mut text = String::from_str("expected bitcode must not be empty, got ");
                text.append(path.as_str());
                text
            },
            EnvironmentProblem::OtherCandidate => String::from_str("candidate request key must match the prepared request, got another key"),
            EnvironmentProblem::StoppedProbe => String::from_str("a stopped probe requires collection, got another probe"),
            EnvironmentProblem::CollectedReceipt => String::from_str("collection requires no stale receipt, got a stopped probe receipt"),
            EnvironmentProblem::ProbeManifest => String::from_str("probe requires no selected analysis manifest, got a compiler manifest"),
            EnvironmentProblem::SuccessfulReceipt => String::from_str("successful probe requires no stale receipt, got a stopped invocation"),
            EnvironmentProblem::OtherArtifact => String::from_str("fresh selected artifact must match the stored observation, got different Cargo artifact fields"),
            EnvironmentProblem::ReceiptShape => String::from_str("stale receipt must contain exactly this attempt's header, got an invalid file"),
            EnvironmentProblem::ReceiptContent => String::from_str("stale receipt must match this analysis token and protocol, got a different header"),
            EnvironmentProblem::Identity { problem } => {
                let mut text = String::from_str("request identity requires serializable Cargo paths, got ");
                text.append(problem.as_str());
                text
            },
            EnvironmentProblem::Unfinished => String::from_str("successful Cargo completion requires one successful build-finished message and no compiler errors"),
            EnvironmentProblem::ArtifactCount { count } => {
                let mut text = String::from_str("Cargo requires one matching selected artifact, got ");
                push_decimal(&mut text, *count as u64);
                text
            },
            EnvironmentProblem::OtherFreshness { expected, got } => {
                let mut text = String::from_str("selected artifact freshness must be ");
                text.append(print_flag(*expected).as_str());
                text.append(", got ");
                text.append(print_flag(*got).as_str());
                text
            },
            EnvironmentProblem::OtherTarget => String::from_str("selected artifact must match the prepared Cargo target, got a conflicting target"),
            EnvironmentProblem::CustomRustc => String::from_str("custom rustc selection is not supported; use the default rustc from PATH"),
            EnvironmentProblem::NoField { field } => {
                let mut text = String::from_str("rustc -vV must report ");
                text.append(field.as_str());
                text.append(", got no value");
                text
            },
        }
    }
}

/// Diagnostics behind a line feed, if there are any.
pub open spec fn trailing(diagnostics: Option<Seq<char>>) -> Seq<char> {
    match diagnostics {
        Some(diagnostics) => if diagnostics.len() > 0 {
            "\n"@ + diagnostics
        } else {
            ""@
        },
        None => ""@,
    }
}

fn print_trailing(diagnostics: &Option<String>) -> (result: String)
    ensures
        result@ == trailing(crate::chars::option_view(*diagnostics)),
{
    match diagnostics {
        Some(diagnostics) => if !diagnostics.as_str().is_empty() {
            let mut text = String::from_str("\n");
            text.append(diagnostics.as_str());
            text
        } else {
            String::from_str("")
        },
        None => String::from_str(""),
    }
}

/// Explains why selected-target compiler evidence could not be produced for a request.
#[derive(Debug)]
#[allow(inconsistent_fields)]
pub enum Failure<S, F> {
    /// The invocation directory was not absolute.
    InvocationDirectoryNotAbsolute {
        /// The relative invocation directory.
        path: S,
    },
    /// Cargo metadata could not describe the requested workspace.
    Metadata {
        /// The Cargo metadata error.
        problem: S,
    },
    /// The compiler environment is not supported for collection.
    CompilerEnvironment {
        /// The invalid configuration or missing compiler fact.
        problem: EnvironmentProblem<S>,
    },
    /// A local compiler file or manifest operation failed.
    Filesystem {
        /// The operation that failed.
        operation: S,
        /// The affected path.
        path: S,
        /// The filesystem error.
        source: SourceError,
    },
    /// A compiler artifact is not a regular file.
    NotRegular {
        /// The affected path.
        path: S,
    },
    /// An expected module could not be disassembled.
    Disassembly {
        /// The module.
        path: S,
        /// What the disassembler reported.
        cause: S,
    },
    /// A disassembled module could not be indexed.
    Index {
        /// The disassembled module.
        path: S,
        /// The broken rule or the read error.
        error: IndexError,
    },
    /// The selected compiler wrote an invalid instance manifest.
    InvalidManifest {
        /// The rejected manifest path.
        path: S,
        /// The violated protocol requirement.
        fault: F,
    },
    /// The requested package was not a workspace member.
    PackageNotFound {
        /// The requested package name.
        package: S,
    },
    /// The requested package did not contain the selected target.
    TargetNotFound {
        /// The resolved package name.
        package: S,
        /// The requested target description.
        target: S,
    },
    /// Cargo or rustc could not start.
    StartProcess {
        /// The process executable.
        program: S,
        /// The process-start error.
        source: SourceError,
    },
    /// Cargo or rustc exited unsuccessfully.
    ProcessFailed {
        /// The process executable.
        program: S,
        /// The unsuccessful process status.
        status: S,
        /// Process diagnostics, when the caller captured them.
        diagnostics: Option<S>,
    },
}

/// A mathematical failure.
pub type ErrorData = Failure<Seq<char>, fault::SpecFault>;

/// Explains why selected-target compiler evidence could not be produced for a request.
pub type Error = Failure<String, fault::ManifestFault>;

impl View for Failure<String, fault::ManifestFault> {
    type V = ErrorData;

    open spec fn view(&self) -> ErrorData {
        match self {
            Failure::InvocationDirectoryNotAbsolute { path } => Failure::InvocationDirectoryNotAbsolute {
                path: path@,
            },
            Failure::Metadata { problem } => Failure::Metadata {
                problem: problem@,
            },
            Failure::CompilerEnvironment { problem } => Failure::CompilerEnvironment {
                problem: problem@,
            },
            Failure::Filesystem { operation, path, source } => Failure::Filesystem {
                operation: operation@,
                path: path@,
                source: *source,
            },
            Failure::NotRegular { path } => Failure::NotRegular {
                path: path@,
            },
            Failure::Disassembly { path, cause } => Failure::Disassembly {
                path: path@,
                cause: cause@,
            },
            Failure::Index { path, error } => Failure::Index {
                path: path@,
                error: *error,
            },
            Failure::InvalidManifest { path, fault } => Failure::InvalidManifest {
                path: path@,
                fault: fault@,
            },
            Failure::PackageNotFound { package } => Failure::PackageNotFound {
                package: package@,
            },
            Failure::TargetNotFound { package, target } => Failure::TargetNotFound {
                package: package@,
                target: target@,
            },
            Failure::StartProcess { program, source } => Failure::StartProcess {
                program: program@,
                source: *source,
            },
            Failure::ProcessFailed { program, status, diagnostics } => Failure::ProcessFailed {
                program: program@,
                status: status@,
                diagnostics: crate::chars::option_view(*diagnostics),
            },
        }
    }
}

/// The sentence that describes a failure.
pub open spec fn sentence(failure: ErrorData) -> Seq<char> {
    match failure {
        Failure::InvocationDirectoryNotAbsolute { path } => "invocation directory must be absolute, got "@ + path,
        Failure::Metadata { .. } => "failed to read Cargo metadata"@,
        Failure::CompilerEnvironment { problem } => "invalid compiler environment: "@ + environment_sentence(problem),
        Failure::Filesystem { operation, path, .. } => "failed to "@ + operation + " "@ + path,
        Failure::NotRegular { path } => "failed to read regular compiler artifact "@ + path,
        Failure::Disassembly { path, .. } => "failed to disassemble expected bitcode module "@ + path,
        Failure::Index { path, .. } => "failed to index optimized LLVM artifact "@ + path,
        Failure::InvalidManifest { path, fault } => "invalid compiler manifest at "@ + path + ": "@ + fault::sentence(fault),
        Failure::PackageNotFound { package } => "package must name a workspace member, got "@ + package,
        Failure::TargetNotFound { package, target } => "package "@ + package + " must contain the selected "@ + target + " target, got no match"@,
        Failure::StartProcess { program, .. } => "failed to start "@ + program,
        Failure::ProcessFailed { program, status, diagnostics } => program + " must complete successfully, got "@ + status + trailing(diagnostics),
    }
}

impl Failure<String, fault::ManifestFault> {
    /// Describes the failure.
    pub fn message(&self) -> (result: String)
        ensures
            result@ == sentence(self@),
    {
        match self {
            Failure::InvocationDirectoryNotAbsolute { path } => {
                let mut text = String::from_str("invocation directory must be absolute, got ");
                text.append(path.as_str());
                text
            },
            Failure::Metadata { .. } => String::from_str("failed to read Cargo metadata"),
            Failure::CompilerEnvironment { problem } => {
                let mut text = String::from_str("invalid compiler environment: ");
                text.append(problem.message().as_str());
                text
            },
            Failure::Filesystem { operation, path, .. } => {
                let mut text = String::from_str("failed to ");
                text.append(operation.as_str());
                text.append(" ");
                text.append(path.as_str());
                text
            },
            Failure::NotRegular { path } => {
                let mut text = String::from_str("failed to read regular compiler artifact ");
                text.append(path.as_str());
                text
            },
            Failure::Disassembly { path, .. } => {
                let mut text = String::from_str("failed to disassemble expected bitcode module ");
                text.append(path.as_str());
                text
            },
            Failure::Index { path, .. } => {
                let mut text = String::from_str("failed to index optimized LLVM artifact ");
                text.append(path.as_str());
                text
            },
            Failure::InvalidManifest { path, fault } => {
                let mut text = String::from_str("invalid compiler manifest at ");
                text.append(path.as_str());
                text.append(": ");
                text.append(fault.message().as_str());
                text
            },
            Failure::PackageNotFound { package } => {
                let mut text = String::from_str("package must name a workspace member, got ");
                text.append(package.as_str());
                text
            },
            Failure::TargetNotFound { package, target } => {
                let mut text = String::from_str("package ");
                text.append(package.as_str());
                text.append(" must contain the selected ");
                text.append(target.as_str());
                text.append(" target, got no match");
                text
            },
            Failure::StartProcess { program, .. } => {
                let mut text = String::from_str("failed to start ");
                text.append(program.as_str());
                text
            },
            Failure::ProcessFailed { program, status, diagnostics } => {
                let mut text = String::from_str(program.as_str());
                text.append(" must complete successfully, got ");
                text.append(status.as_str());
                text.append(print_trailing(diagnostics).as_str());
                text
            },
        }
    }
}

/// The failure of a program that gave no output.
pub open spec fn of_process(program: Seq<char>, fault: ProcessFault) -> ErrorData {
    match fault {
        ProcessFault::Start(source) => Failure::StartProcess { program, source },
        ProcessFault::Failed { status, diagnostics } => Failure::ProcessFailed {
            program,
            status: status@,
            diagnostics: Some(diagnostics@),
        },
    }
}

/// Names the program that gave no output.
pub fn process_failure(program: &str, fault: ProcessFault) -> (result: Error)
    ensures
        result@ == of_process(program@, fault),
{
    let program = String::from_str(program);
    match fault {
        ProcessFault::Start(source) => Failure::StartProcess { program, source },
        ProcessFault::Failed { status, diagnostics } => Failure::ProcessFailed {
            program,
            status,
            diagnostics: Some(diagnostics),
        },
    }
}

/// The failure of an operation on a path.
pub open spec fn filesystem(operation: Seq<char>, path: Seq<char>, source: SourceError) -> ErrorData {
    Failure::Filesystem { operation, path, source }
}

/// Names the path on which an operation failed.
pub fn filesystem_failure(operation: &str, path: &str, source: SourceError) -> (result: Error)
    ensures
        result@ == filesystem(operation@, path@, source),
{
    Failure::Filesystem {
        operation: String::from_str(operation),
        path: String::from_str(path),
        source,
    }
}

/// The error for an unsupported environment.
pub open spec fn environment(problem: EnvironmentData) -> ErrorData {
    Failure::CompilerEnvironment { problem }
}

/// Reports an unsupported environment.
pub fn invalid_environment(problem: Environment) -> (result: Error)
    ensures
        result@ == environment(problem@),
{
    Failure::CompilerEnvironment { problem }
}

/// An outcome without a value agrees with the expected one.
pub open spec fn unit_agrees(result: Result<(), Error>, expected: Result<(), ErrorData>) -> bool {
    match (result, expected) {
        (Ok(()), Ok(())) => true,
        (Err(error), Err(meant)) => error@ == meant,
        _ => false,
    }
}

/// An outcome with a text agrees with the expected one.
pub open spec fn text_agrees(
    result: Result<String, Error>,
    expected: Result<Seq<char>, ErrorData>,
) -> bool {
    match (result, expected) {
        (Ok(text), Ok(meant)) => text@ == meant,
        (Err(error), Err(meant)) => error@ == meant,
        _ => false,
    }
}

/// An outcome with a truth value agrees with the expected one.
pub open spec fn flag_agrees(
    result: Result<bool, Error>,
    expected: Result<bool, ErrorData>,
) -> bool {
    match (result, expected) {
        (Ok(flag), Ok(meant)) => flag == meant,
        (Err(error), Err(meant)) => error@ == meant,
        _ => false,
    }
}

} // verus!

//! Errors of compiler-evidence operations.
//!
//! These errors preserve the failed program, compiler diagnostics, and affected filesystem path.

use super::llvm::ScanError;
use super::mono;
use super::remarks::RemarkFault;
use crate::process::ProcessFault;
use crate::source::SourceError;
use crate::text::push_decimal;
use vstd::prelude::*;
use vstd::string::StringExecFns;

verus! {

/// Why the compiler environment cannot support an exact capture.
#[derive(Debug)]
#[allow(inconsistent_fields)]
pub enum EnvironmentProblem<S> {
    /// Cargo reports no origin of a value.
    NoOrigin {
        /// The configuration field.
        field: S,
    },
    /// Cargo reports a value that is no text.
    InvalidValue {
        /// The configuration field.
        field: S,
        /// What is wrong with the value.
        problem: S,
    },
    /// A capture runs inside a capture.
    WrapperActive,
    /// A new driver reports another version.
    DriverVersion {
        /// The expected version.
        version: S,
    },
    /// There is no Cargo home.
    NoCargoHome {
        /// The variable that names the home directory.
        home: S,
    },
}

/// A mathematical failure.
pub type EnvironmentData = EnvironmentProblem<Seq<char>>;

/// Why the compiler environment cannot support an exact capture.
pub type Environment = EnvironmentProblem<String>;

impl View for EnvironmentProblem<String> {
    type V = EnvironmentData;

    open spec fn view(&self) -> EnvironmentData {
        match self {
            EnvironmentProblem::NoOrigin { field } => EnvironmentProblem::NoOrigin {
                field: field@,
            },
            EnvironmentProblem::InvalidValue { field, problem } => EnvironmentProblem::InvalidValue {
                field: field@,
                problem: problem@,
            },
            EnvironmentProblem::WrapperActive => EnvironmentProblem::WrapperActive,
            EnvironmentProblem::DriverVersion { version } => EnvironmentProblem::DriverVersion {
                version: version@,
            },
            EnvironmentProblem::NoCargoHome { home } => EnvironmentProblem::NoCargoHome {
                home: home@,
            },
        }
    }
}

/// The sentence that describes a failure.
pub open spec fn environment_sentence(failure: EnvironmentData) -> Seq<char> {
    match failure {
        EnvironmentProblem::NoOrigin { field } => "Cargo configuration did not report an origin for "@ + field,
        EnvironmentProblem::InvalidValue { field, problem } => "Cargo returned an invalid value for "@ + field + ": "@ + problem,
        EnvironmentProblem::WrapperActive => "a Cargo Optic rustc wrapper is already active"@,
        EnvironmentProblem::DriverVersion { version } => "compiled rustc driver did not report protocol version "@ + version,
        EnvironmentProblem::NoCargoHome { home } => "CARGO_HOME and "@ + home + " are not set"@,
    }
}

impl EnvironmentProblem<String> {
    /// Describes the failure.
    pub fn message(&self) -> (result: String)
        ensures
            result@ == environment_sentence(self@),
    {
        match self {
            EnvironmentProblem::NoOrigin { field } => {
                let mut text = String::from_str("Cargo configuration did not report an origin for ");
                text.append(field.as_str());
                text
            },
            EnvironmentProblem::InvalidValue { field, problem } => {
                let mut text = String::from_str("Cargo returned an invalid value for ");
                text.append(field.as_str());
                text.append(": ");
                text.append(problem.as_str());
                text
            },
            EnvironmentProblem::WrapperActive => String::from_str("a Cargo Optic rustc wrapper is already active"),
            EnvironmentProblem::DriverVersion { version } => {
                let mut text = String::from_str("compiled rustc driver did not report protocol version ");
                text.append(version.as_str());
                text
            },
            EnvironmentProblem::NoCargoHome { home } => {
                let mut text = String::from_str("CARGO_HOME and ");
                text.append(home.as_str());
                text.append(" are not set");
                text
            },
        }
    }
}

/// Why optimization remarks were refused.
#[derive(Debug)]
#[allow(inconsistent_fields)]
pub enum RemarkProblem {
    /// One file is malformed.
    File {
        /// The broken rule.
        fault: RemarkFault,
    },
    /// There are too many files.
    FileCount {
        /// The largest number.
        maximum: usize,
        /// The number.
        got: usize,
    },
    /// The files are too long.
    TotalLength {
        /// The largest length.
        maximum: u64,
        /// The length.
        got: u64,
    },
    /// There are too many remarks.
    TotalRecords {
        /// The largest number.
        maximum: usize,
        /// The number.
        got: usize,
    },
    /// A file lies in another directory.
    Elsewhere,
    /// A relative path has other components than names.
    Irregular,
    /// A relative path is not valid UTF-8.
    NotUtf8,
    /// A relative path is empty.
    Nameless,
}

/// The sentence that describes a failure.
pub open spec fn remark_sentence(failure: RemarkProblem) -> Seq<char> {
    match failure {
        RemarkProblem::File { fault } => fault.sentence(),
        RemarkProblem::FileCount { maximum, got } => "file count exceeds "@ + crate::text::decimal(maximum as nat) + ", got "@ + crate::text::decimal(got as nat),
        RemarkProblem::TotalLength { maximum, got } => "aggregate file length exceeds "@ + crate::text::decimal(maximum as nat) + " bytes, got "@ + crate::text::decimal(got as nat),
        RemarkProblem::TotalRecords { maximum, got } => "aggregate record count exceeds "@ + crate::text::decimal(maximum as nat) + ", got "@ + crate::text::decimal(got as nat),
        RemarkProblem::Elsewhere => "remark path must be below the remark directory"@,
        RemarkProblem::Irregular => "remark path must contain only normal relative components"@,
        RemarkProblem::NotUtf8 => "remark path must be valid UTF-8"@,
        RemarkProblem::Nameless => "remark path must contain a file name"@,
    }
}

impl RemarkProblem {
    /// Describes the failure.
    pub fn message(&self) -> (result: String)
        ensures
            result@ == remark_sentence(*self),
    {
        match self {
            RemarkProblem::File { fault } => String::from_str(fault.message().as_str()),
            RemarkProblem::FileCount { maximum, got } => {
                let mut text = String::from_str("file count exceeds ");
                push_decimal(&mut text, *maximum as u64);
                text.append(", got ");
                push_decimal(&mut text, *got as u64);
                text
            },
            RemarkProblem::TotalLength { maximum, got } => {
                let mut text = String::from_str("aggregate file length exceeds ");
                push_decimal(&mut text, *maximum as u64);
                text.append(" bytes, got ");
                push_decimal(&mut text, *got as u64);
                text
            },
            RemarkProblem::TotalRecords { maximum, got } => {
                let mut text = String::from_str("aggregate record count exceeds ");
                push_decimal(&mut text, *maximum as u64);
                text.append(", got ");
                push_decimal(&mut text, *got as u64);
                text
            },
            RemarkProblem::Elsewhere => String::from_str("remark path must be below the remark directory"),
            RemarkProblem::Irregular => String::from_str("remark path must contain only normal relative components"),
            RemarkProblem::NotUtf8 => String::from_str("remark path must be valid UTF-8"),
            RemarkProblem::Nameless => String::from_str("remark path must contain a file name"),
        }
    }
}

/// Why a compiler identity manifest was refused.
#[derive(Debug)]
#[allow(inconsistent_fields)]
pub enum IdentityProblem<S> {
    /// The manifest breaks its protocol.
    Manifest {
        /// The broken rule.
        fault: mono::Fault<S>,
    },
    /// The recorded invocation is empty.
    NoCompiler,
}

/// A mathematical failure.
pub type IdentityData = IdentityProblem<Seq<char>>;

/// Why a compiler identity manifest was refused.
pub type Identity = IdentityProblem<String>;

impl View for IdentityProblem<String> {
    type V = IdentityData;

    open spec fn view(&self) -> IdentityData {
        match self {
            IdentityProblem::Manifest { fault } => IdentityProblem::Manifest {
                fault: fault@,
            },
            IdentityProblem::NoCompiler => IdentityProblem::NoCompiler,
        }
    }
}

/// The sentence that describes a failure.
pub open spec fn identity_sentence(failure: IdentityData) -> Seq<char> {
    match failure {
        IdentityProblem::Manifest { fault } => mono::sentence(fault),
        IdentityProblem::NoCompiler => "rustc invocation does not contain a compiler path"@,
    }
}

impl IdentityProblem<String> {
    /// Describes the failure.
    pub fn message(&self) -> (result: String)
        ensures
            result@ == identity_sentence(self@),
    {
        match self {
            IdentityProblem::Manifest { fault } => String::from_str(fault.message().as_str()),
            IdentityProblem::NoCompiler => String::from_str("rustc invocation does not contain a compiler path"),
        }
    }
}

/// Why Cargo output was refused.
#[derive(Debug)]
#[allow(inconsistent_fields)]
pub enum OutputProblem<S> {
    /// A message is too long.
    MessageLength {
        /// The largest length.
        maximum: usize,
        /// The length.
        got: usize,
    },
    /// A pipe failed.
    Read {
        /// What went wrong.
        problem: S,
    },
    /// The end of the process is unknown.
    Wait {
        /// What went wrong.
        problem: S,
    },
}

/// A mathematical failure.
pub type OutputData = OutputProblem<Seq<char>>;

/// Why Cargo output was refused.
pub type Output = OutputProblem<String>;

impl View for OutputProblem<String> {
    type V = OutputData;

    open spec fn view(&self) -> OutputData {
        match self {
            OutputProblem::MessageLength { maximum, got } => OutputProblem::MessageLength {
                maximum: *maximum,
                got: *got,
            },
            OutputProblem::Read { problem } => OutputProblem::Read {
                problem: problem@,
            },
            OutputProblem::Wait { problem } => OutputProblem::Wait {
                problem: problem@,
            },
        }
    }
}

/// The sentence that describes a failure.
pub open spec fn output_sentence(failure: OutputData) -> Seq<char> {
    match failure {
        OutputProblem::MessageLength { maximum, got } => "Cargo JSON messages must not exceed "@ + crate::text::decimal(maximum as nat) + " bytes, got "@ + crate::text::decimal(got as nat),
        OutputProblem::Read { problem } => "failed to read Cargo output: "@ + problem,
        OutputProblem::Wait { problem } => "failed to wait for the child process: "@ + problem,
    }
}

impl OutputProblem<String> {
    /// Describes the failure.
    pub fn message(&self) -> (result: String)
        ensures
            result@ == output_sentence(self@),
    {
        match self {
            OutputProblem::MessageLength { maximum, got } => {
                let mut text = String::from_str("Cargo JSON messages must not exceed ");
                push_decimal(&mut text, *maximum as u64);
                text.append(" bytes, got ");
                push_decimal(&mut text, *got as u64);
                text
            },
            OutputProblem::Read { problem } => {
                let mut text = String::from_str("failed to read Cargo output: ");
                text.append(problem.as_str());
                text
            },
            OutputProblem::Wait { problem } => {
                let mut text = String::from_str("failed to wait for the child process: ");
                text.append(problem.as_str());
                text
            },
        }
    }
}

/// The command that installs a missing compiler component.
pub open spec fn advice(install_command: Option<Seq<char>>) -> Seq<char> {
    match install_command {
        Some(command) => command,
        None => "rustup component add --toolchain nightly rustc-dev"@,
    }
}

fn advised(install_command: &Option<String>) -> (result: String)
    ensures
        result@ == advice(crate::chars::option_view(*install_command)),
{
    match install_command {
        Some(command) => command.clone(),
        None => String::from_str("rustup component add --toolchain nightly rustc-dev"),
    }
}

/// A compiler-evidence failure.
#[derive(Debug)]
#[allow(inconsistent_fields)]
pub enum Failure<S> {
    /// The compiler environment cannot support an exact capture.
    CompilerEnvironment {
        /// The failed environment requirement.
        problem: EnvironmentProblem<S>,
    },
    /// Cargo or rustc could not be started.
    StartProcess {
        /// The program that could not be started.
        program: S,
        /// The operating-system error.
        source: SourceError,
    },
    /// A compiler subprocess returned an error.
    ProcessFailed {
        /// The failed program.
        program: S,
        /// The printable exit status.
        status: S,
        /// Human-readable subprocess diagnostics.
        diagnostics: S,
    },
    /// The active compiler is not supported.
    StableCompiler {
        /// The unsupported compiler release.
        release: S,
    },
    /// A required value was absent from compiler version output.
    MissingToolchainField {
        /// The missing field name.
        field: S,
    },
    /// The analyzed toolchain does not contain `llvm-dis`.
    MissingLlvmDis {
        /// The compiler release.
        release: S,
        /// The compiler commit.
        commit_hash: S,
        /// The expected path.
        path: S,
        /// The command that installs the component, if the toolchain is known.
        install_command: Option<S>,
    },
    /// The active toolchain does not contain compiler libraries for a separate driver.
    MissingRustcDev {
        /// The compiler release.
        release: S,
        /// The compiler commit.
        commit_hash: S,
        /// The expected path.
        path: S,
        /// The command that installs the component, if the toolchain is known.
        install_command: Option<S>,
    },
    /// A filesystem operation failed.
    Filesystem {
        /// The attempted operation.
        operation: S,
        /// The affected path.
        path: S,
        /// The operating-system error.
        source: SourceError,
    },
    /// The analysis directory contains files from an earlier operation.
    AnalysisDirectoryNotEmpty {
        /// The directory that contains existing files.
        path: S,
    },
    /// An LLVM module was not structurally complete.
    InvalidLlvm {
        /// The invalid textual module.
        path: S,
        /// The structural error.
        fault: ScanError,
    },
    /// A compiler identity manifest did not satisfy its protocol.
    InvalidIdentityManifest {
        /// The invalid manifest path.
        path: S,
        /// The failed protocol requirement.
        problem: IdentityProblem<S>,
    },
    /// Optimization remarks were malformed or exceeded a limit.
    InvalidOptimizationRemarks {
        /// The invalid file or directory.
        path: S,
        /// The failed requirement.
        problem: RemarkProblem,
    },
    /// Cargo output could not be read completely.
    CargoOutput {
        /// The program that wrote the output.
        program: S,
        /// The failed requirement.
        problem: OutputProblem<S>,
    },
    /// Cargo completed a compilation without the required artifacts.
    MissingEvidence,
}

/// A mathematical failure.
pub type ErrorData = Failure<Seq<char>>;

/// A compiler-evidence failure.
pub type Error = Failure<String>;

impl View for Failure<String> {
    type V = ErrorData;

    open spec fn view(&self) -> ErrorData {
        match self {
            Failure::CompilerEnvironment { problem } => Failure::CompilerEnvironment {
                problem: problem@,
            },
            Failure::StartProcess { program, source } => Failure::StartProcess {
                program: program@,
                source: *source,
            },
            Failure::ProcessFailed { program, status, diagnostics } => Failure::ProcessFailed {
                program: program@,
                status: status@,
                diagnostics: diagnostics@,
            },
            Failure::StableCompiler { release } => Failure::StableCompiler {
                release: release@,
            },
            Failure::MissingToolchainField { field } => Failure::MissingToolchainField {
                field: field@,
            },
            Failure::MissingLlvmDis { release, commit_hash, path, install_command } => Failure::MissingLlvmDis {
                release: release@,
                commit_hash: commit_hash@,
                path: path@,
                install_command: crate::chars::option_view(*install_command),
            },
            Failure::MissingRustcDev { release, commit_hash, path, install_command } => Failure::MissingRustcDev {
                release: release@,
                commit_hash: commit_hash@,
                path: path@,
                install_command: crate::chars::option_view(*install_command),
            },
            Failure::Filesystem { operation, path, source } => Failure::Filesystem {
                operation: operation@,
                path: path@,
                source: *source,
            },
            Failure::AnalysisDirectoryNotEmpty { path } => Failure::AnalysisDirectoryNotEmpty {
                path: path@,
            },
            Failure::InvalidLlvm { path, fault } => Failure::InvalidLlvm {
                path: path@,
                fault: *fault,
            },
            Failure::InvalidIdentityManifest { path, problem } => Failure::InvalidIdentityManifest {
                path: path@,
                problem: problem@,
            },
            Failure::InvalidOptimizationRemarks { path, problem } => Failure::InvalidOptimizationRemarks {
                path: path@,
                problem: *problem,
            },
            Failure::CargoOutput { program, problem } => Failure::CargoOutput {
                program: program@,
                problem: problem@,
            },
            Failure::MissingEvidence => Failure::MissingEvidence,
        }
    }
}

/// The sentence that describes a failure.
pub open spec fn sentence(failure: ErrorData) -> Seq<char> {
    match failure {
        Failure::CompilerEnvironment { problem } => "invalid compiler environment: "@ + environment_sentence(problem),
        Failure::StartProcess { program, source } => "failed to start "@ + program + ": "@ + source.message@,
        Failure::ProcessFailed { program, status, diagnostics } => program + " failed with status "@ + status + "\n"@ + diagnostics,
        Failure::StableCompiler { release } => "cargo-optic requires an active nightly rustc, got "@ + release,
        Failure::MissingToolchainField { field } => "rustc -vV did not report "@ + field,
        Failure::MissingLlvmDis { path, .. } => "the active toolchain does not contain llvm-dis at "@ + path + "; install its llvm-tools component"@,
        Failure::MissingRustcDev { path, install_command, .. } => "the active toolchain does not contain rustc-dev libraries at "@ + path + "; run `"@ + advice(install_command) + "`"@,
        Failure::Filesystem { operation, path, source } => "failed to "@ + operation + " "@ + path + ": "@ + source.message@,
        Failure::AnalysisDirectoryNotEmpty { path } => "analysis directory must be empty, got "@ + path,
        Failure::InvalidLlvm { path, fault } => "invalid LLVM IR in "@ + path + ": "@ + fault.sentence(),
        Failure::InvalidIdentityManifest { path, problem } => "invalid compiler identity manifest in "@ + path + ": "@ + identity_sentence(problem),
        Failure::InvalidOptimizationRemarks { path, problem } => "invalid optimization remarks in "@ + path + ": "@ + remark_sentence(problem),
        Failure::CargoOutput { program, problem } => "invalid output from "@ + program + ": "@ + output_sentence(problem),
        Failure::MissingEvidence => "Cargo compiled the selected target but produced no supported LLVM artifacts"@,
    }
}

impl Failure<String> {
    /// Describes the failure.
    pub fn message(&self) -> (result: String)
        ensures
            result@ == sentence(self@),
    {
        match self {
            Failure::CompilerEnvironment { problem } => {
                let mut text = String::from_str("invalid compiler environment: ");
                text.append(problem.message().as_str());
                text
            },
            Failure::StartProcess { program, source } => {
                let mut text = String::from_str("failed to start ");
                text.append(program.as_str());
                text.append(": ");
                text.append(source.message.as_str());
                text
            },
            Failure::ProcessFailed { program, status, diagnostics } => {
                let mut text = String::from_str(program.as_str());
                text.append(" failed with status ");
                text.append(status.as_str());
                text.append("\n");
                text.append(diagnostics.as_str());
                text
            },
            Failure::StableCompiler { release } => {
                let mut text = String::from_str("cargo-optic requires an active nightly rustc, got ");
                text.append(release.as_str());
                text
            },
            Failure::MissingToolchainField { field } => {
                let mut text = String::from_str("rustc -vV did not report ");
                text.append(field.as_str());
                text
            },
            Failure::MissingLlvmDis { path, .. } => {
                let mut text = String::from_str("the active toolchain does not contain llvm-dis at ");
                text.append(path.as_str());
                text.append("; install its llvm-tools component");
                text
            },
            Failure::MissingRustcDev { path, install_command, .. } => {
                let mut text = String::from_str("the active toolchain does not contain rustc-dev libraries at ");
                text.append(path.as_str());
                text.append("; run `");
                text.append(advised(install_command).as_str());
                text.append("`");
                text
            },
            Failure::Filesystem { operation, path, source } => {
                let mut text = String::from_str("failed to ");
                text.append(operation.as_str());
                text.append(" ");
                text.append(path.as_str());
                text.append(": ");
                text.append(source.message.as_str());
                text
            },
            Failure::AnalysisDirectoryNotEmpty { path } => {
                let mut text = String::from_str("analysis directory must be empty, got ");
                text.append(path.as_str());
                text
            },
            Failure::InvalidLlvm { path, fault } => {
                let mut text = String::from_str("invalid LLVM IR in ");
                text.append(path.as_str());
                text.append(": ");
                text.append(fault.message().as_str());
                text
            },
            Failure::InvalidIdentityManifest { path, problem } => {
                let mut text = String::from_str("invalid compiler identity manifest in ");
                text.append(path.as_str());
                text.append(": ");
                text.append(problem.message().as_str());
                text
            },
            Failure::InvalidOptimizationRemarks { path, problem } => {
                let mut text = String::from_str("invalid optimization remarks in ");
                text.append(path.as_str());
                text.append(": ");
                text.append(problem.message().as_str());
                text
            },
            Failure::CargoOutput { program, problem } => {
                let mut text = String::from_str("invalid output from ");
                text.append(program.as_str());
                text.append(": ");
                text.append(problem.message().as_str());
                text
            },
            Failure::MissingEvidence => String::from_str("Cargo compiled the selected target but produced no supported LLVM artifacts"),
        }
    }
}

/// The failure of a program that gave no output.
pub open spec fn of_process(program: Seq<char>, fault: ProcessFault) -> ErrorData {
    match fault {
        ProcessFault::Start(source) => Failure::StartProcess { program, source },
        ProcessFault::Failed { status, diagnostics } => Failure::ProcessFailed {
            program,
            status: status@,
            diagnostics: diagnostics@,
        },
    }
}

/// Names the program that gave no output.
pub fn process_failure(program: &str, fault: ProcessFault) -> (result: Error)
    ensures
        result@ == of_process(program@, fault),
{
    let program = String::from_str(program);
    match fault {
        ProcessFault::Start(source) => Failure::StartProcess { program, source },
        ProcessFault::Failed { status, diagnostics } => Failure::ProcessFailed {
            program,
            status,
            diagnostics,
        },
    }
}

/// Names the path on which an operation failed.
pub fn filesystem_failure(operation: &str, path: &str, source: SourceError) -> (result: Error)
    ensures
        result@ == (Failure::Filesystem { operation: operation@, path: path@, source }),
{
    Failure::Filesystem {
        operation: String::from_str(operation),
        path: String::from_str(path),
        source,
    }
}

/// The failure of a scan of textual LLVM.
pub open spec fn of_scan(path: Seq<char>, fault: ScanError) -> ErrorData {
    match fault {
        ScanError::Read(source) => Failure::Filesystem { operation: "read"@, path, source },
        _ => Failure::InvalidLlvm { path, fault },
    }
}

/// Names the module that could not be scanned.
pub fn scan_failure(path: &str, fault: ScanError) -> (result: Error)
    ensures
        result@ == of_scan(path@, fault),
{
    match fault {
        ScanError::Read(source) => filesystem_failure("read", path, source),
        _ => Failure::InvalidLlvm { path: String::from_str(path), fault },
    }
}

/// The failure of an identity manifest.
pub open spec fn of_manifest(path: Seq<char>, fault: mono::SpecFault) -> ErrorData {
    match fault {
        mono::Fault::Read(source) => Failure::Filesystem { operation: "read"@, path, source },
        _ => Failure::InvalidIdentityManifest {
            path,
            problem: IdentityProblem::Manifest { fault },
        },
    }
}

/// Names the identity manifest that was refused.
pub fn manifest_failure(path: &str, fault: mono::IdentityFault) -> (result: Error)
    ensures
        result@ == of_manifest(path@, fault@),
{
    match fault {
        mono::Fault::Read(source) => filesystem_failure("read", path, source),
        _ => Failure::InvalidIdentityManifest {
            path: String::from_str(path),
            problem: IdentityProblem::Manifest { fault },
        },
    }
}

/// The failure of a remark file.
pub open spec fn of_remarks(path: Seq<char>, fault: RemarkFault) -> ErrorData {
    match fault {
        RemarkFault::Read(source) => Failure::Filesystem { operation: "read"@, path, source },
        _ => Failure::InvalidOptimizationRemarks { path, problem: RemarkProblem::File { fault } },
    }
}

/// Names the remark file that was refused.
pub fn remarks_failure(path: &str, fault: RemarkFault) -> (result: Error)
    ensures
        result@ == of_remarks(path@, fault),
{
    match fault {
        RemarkFault::Read(source) => filesystem_failure("read", path, source),
        _ => Failure::InvalidOptimizationRemarks {
            path: String::from_str(path),
            problem: RemarkProblem::File { fault },
        },
    }
}

} // verus!

//! Selects the default compiler used for collection.
//!
//! Only `rustc` from `PATH` is used. Compiler overrides are rejected and configured wrappers are
//! disabled instead of reproducing Cargo's complete compiler configuration.

use super::error;
use super::error::{
    filesystem_failure, invalid_environment, process_failure, EnvironmentProblem, Error, ErrorData,
    Failure,
};
use crate::chars;
use crate::chars::{lines, split_once, trim};
use crate::ir::toolchain;
use crate::ir::toolchain::find_field;
use crate::paths;
use crate::paths::join;
use crate::process::{require_success, ProcessOutput};
use crate::source::SourceError;
use crate::text::{lossy_text, same_text};
use vstd::prelude::*;
use vstd::string::StringExecFns;

verus! {

/// The identity of an exact compiler.
#[derive(Debug, PartialEq, Eq)]
pub struct CompilerIdentity {
    /// The canonical compiler executable.
    pub rustc: String,
    /// The release string.
    pub release: String,
    /// The commit hash.
    pub commit_hash: String,
    /// The host triple.
    pub host: String,
    /// The canonical sysroot.
    pub sysroot: String,
}

/// The mathematical counterpart of [`CompilerIdentity`].
pub struct CompilerIdentityData {
    /// The canonical compiler executable.
    pub rustc: Seq<char>,
    /// The release string.
    pub release: Seq<char>,
    /// The commit hash.
    pub commit_hash: Seq<char>,
    /// The host triple.
    pub host: Seq<char>,
    /// The canonical sysroot.
    pub sysroot: Seq<char>,
}

impl View for CompilerIdentity {
    type V = CompilerIdentityData;

    open spec fn view(&self) -> CompilerIdentityData {
        CompilerIdentityData {
            rustc: self.rustc@,
            release: self.release@,
            commit_hash: self.commit_hash@,
            host: self.host@,
            sysroot: self.sysroot@,
        }
    }
}

impl Clone for CompilerIdentity {
    fn clone(&self) -> (result: Self)
        ensures
            result@ == self@,
    {
        CompilerIdentity {
            rustc: self.rustc.clone(),
            release: self.release.clone(),
            commit_hash: self.commit_hash.clone(),
            host: self.host.clone(),
            sysroot: self.sysroot.clone(),
        }
    }
}

/// The environment variables that configure a compiler.
#[derive(Debug, PartialEq, Eq)]
pub struct CompilerVariables {
    /// The value of `RUSTC`.
    pub rustc: Option<String>,
    /// The value of `CARGO_BUILD_RUSTC`.
    pub build_rustc: Option<String>,
    /// The value of `RUSTC_WRAPPER`.
    pub wrapper: Option<String>,
    /// The value of `CARGO_BUILD_RUSTC_WRAPPER`.
    pub build_wrapper: Option<String>,
    /// The value of `RUSTC_WORKSPACE_WRAPPER`.
    pub workspace_wrapper: Option<String>,
    /// The value of `CARGO_BUILD_RUSTC_WORKSPACE_WRAPPER`.
    pub build_workspace_wrapper: Option<String>,
}

/// The mathematical counterpart of [`CompilerVariables`].
pub struct CompilerVariablesData {
    /// The value of `RUSTC`.
    pub rustc: Option<Seq<char>>,
    /// The value of `CARGO_BUILD_RUSTC`.
    pub build_rustc: Option<Seq<char>>,
    /// The value of `RUSTC_WRAPPER`.
    pub wrapper: Option<Seq<char>>,
    /// The value of `CARGO_BUILD_RUSTC_WRAPPER`.
    pub build_wrapper: Option<Seq<char>>,
    /// The value of `RUSTC_WORKSPACE_WRAPPER`.
    pub workspace_wrapper: Option<Seq<char>>,
    /// The value of `CARGO_BUILD_RUSTC_WORKSPACE_WRAPPER`.
    pub build_workspace_wrapper: Option<Seq<char>>,
}

impl View for CompilerVariables {
    type V = CompilerVariablesData;

    open spec fn view(&self) -> CompilerVariablesData {
        CompilerVariablesData {
            rustc: crate::chars::option_view(self.rustc),
            build_rustc: crate::chars::option_view(self.build_rustc),
            wrapper: crate::chars::option_view(self.wrapper),
            build_wrapper: crate::chars::option_view(self.build_wrapper),
            workspace_wrapper: crate::chars::option_view(self.workspace_wrapper),
            build_workspace_wrapper: crate::chars::option_view(self.build_workspace_wrapper),
        }
    }
}

/// The default compiler and whether collection must bypass a configured wrapper.
#[derive(Debug, PartialEq, Eq)]
pub struct CompilerContext {
    /// The compiler.
    pub identity: CompilerIdentity,
    /// A wrapper is configured.
    pub wrappers_configured: bool,
}

/// The mathematical counterpart of [`CompilerContext`].
pub struct CompilerContextData {
    /// The compiler.
    pub identity: CompilerIdentityData,
    /// A wrapper is configured.
    pub wrappers_configured: bool,
}

impl View for CompilerContext {
    type V = CompilerContextData;

    open spec fn view(&self) -> CompilerContextData {
        CompilerContextData {
            identity: self.identity@,
            wrappers_configured: self.wrappers_configured,
        }
    }
}

/// What the compiler reports about itself.
#[derive(Debug, PartialEq, Eq)]
pub struct VersionFacts {
    /// The release string.
    pub release: String,
    /// The commit hash.
    pub commit_hash: String,
    /// The host triple.
    pub host: String,
}

/// The mathematical counterpart of [`VersionFacts`].
pub struct VersionFactsData {
    /// The release string.
    pub release: Seq<char>,
    /// The commit hash.
    pub commit_hash: Seq<char>,
    /// The host triple.
    pub host: Seq<char>,
}

impl View for VersionFacts {
    type V = VersionFactsData;

    open spec fn view(&self) -> VersionFactsData {
        VersionFactsData {
            release: self.release@,
            commit_hash: self.commit_hash@,
            host: self.host@,
        }
    }
}

/// The compiler fields that Cargo configuration sets.
#[derive(Clone, Copy, Debug, PartialEq, Eq, Structural)]
pub struct CompilerConfiguration {
    /// The compiler is set.
    pub rustc: bool,
    /// The wrapper of every compiler invocation is set.
    pub global_wrapper: bool,
    /// The wrapper of workspace invocations is set.
    pub workspace_wrapper: bool,
}

/// A line of Cargo output sets a field.
pub open spec fn sets(line: Seq<char>, field: Seq<char>) -> bool {
    match chars::split_first(line, " = "@) {
        Some((name, _)) => name == field,
        None => false,
    }
}

/// Some line of Cargo output sets a field.
pub open spec fn any_sets(lines: Seq<Seq<char>>, field: Seq<char>) -> bool {
    exists|i: int| 0 <= i < lines.len() && sets(#[trigger] lines[i], field)
}

/// The compiler fields that Cargo output sets.
pub open spec fn configured_fields(output: Seq<char>) -> CompilerConfiguration {
    let lines = chars::lines_of(output);
    CompilerConfiguration {
        rustc: any_sets(lines, "build.rustc"@),
        global_wrapper: any_sets(lines, "build.rustc-wrapper"@),
        workspace_wrapper: any_sets(lines, "build.rustc-workspace-wrapper"@),
    }
}

fn parse_configuration(output: &str) -> (result: CompilerConfiguration)
    ensures
        result == configured_fields(output@),
{
    let mut configuration = CompilerConfiguration {
        rustc: false,
        global_wrapper: false,
        workspace_wrapper: false,
    };
    let list = lines(output);
    let ghost all = chars::lines_of(output@);
    let mut index: usize = 0;
    while index < list.len()
        invariant
            index <= list@.len(),
            all == chars::views(list@),
            all.len() == list@.len(),
            configuration.rustc == any_sets(all.take(index as int), "build.rustc"@),
            configuration.global_wrapper == any_sets(
                all.take(index as int),
                "build.rustc-wrapper"@,
            ),
            configuration.workspace_wrapper == any_sets(
                all.take(index as int),
                "build.rustc-workspace-wrapper"@,
            ),
        decreases list.len() - index,
    {
        proof {
            assert(all[index as int] == list@[index as int]@);
            any_sets_grows(all, index as int, "build.rustc"@);
            any_sets_grows(all, index as int, "build.rustc-wrapper"@);
            any_sets_grows(all, index as int, "build.rustc-workspace-wrapper"@);
            reveal_strlit("build.rustc");
            reveal_strlit("build.rustc-wrapper");
            reveal_strlit("build.rustc-workspace-wrapper");
            assert("build.rustc"@.len() != "build.rustc-wrapper"@.len());
            assert("build.rustc"@.len() != "build.rustc-workspace-wrapper"@.len());
            assert("build.rustc-wrapper"@.len() != "build.rustc-workspace-wrapper"@.len());
        }
        if let Some((field, _)) = split_once(list[index].as_str(), " = ") {
            if same_text(field.as_str(), "build.rustc") {
                configuration.rustc = true;
            } else if same_text(field.as_str(), "build.rustc-wrapper") {
                configuration.global_wrapper = true;
            } else if same_text(field.as_str(), "build.rustc-workspace-wrapper") {
                configuration.workspace_wrapper = true;
            }
        }
        index += 1;
    }
    assert(all.take(all.len() as int) =~= all);
    configuration
}

proof fn any_sets_grows(lines: Seq<Seq<char>>, index: int, field: Seq<char>)
    requires
        0 <= index < lines.len(),
    ensures
        any_sets(lines.take(index + 1), field) == (any_sets(lines.take(index), field) || sets(
            lines[index],
            field,
        )),
{
    let (before, after) = (lines.take(index), lines.take(index + 1));
    if any_sets(before, field) {
        let i = choose|i: int| 0 <= i < before.len() && sets(#[trigger] before[i], field);
        assert(after[i] == before[i]);
    }
    if sets(lines[index], field) {
        assert(after[index] == lines[index]);
    }
    if any_sets(after, field) {
        let i = choose|i: int| 0 <= i < after.len() && sets(#[trigger] after[i], field);
        if i < index {
            assert(before[i] == after[i]);
        }
    }
}

/// The readable output of a program, or why there is none.
pub open spec fn program_text(launched: Result<ProcessOutput, SourceError>, program: Seq<char>) -> Result<
    Seq<char>,
    ErrorData,
> {
    match launched {
        Err(source) => Err(Failure::StartProcess { program, source }),
        Ok(output) => if output.report.success {
            Ok(crate::text::lossy(output.stdout@))
        } else {
            Err(
                Failure::ProcessFailed {
                    program,
                    status: output.report.status@,
                    diagnostics: Some(crate::text::lossy(output.stderr@)),
                },
            )
        },
    }
}

/// Takes what a program printed.
pub fn run_program(launched: Result<ProcessOutput, SourceError>, program: &str) -> (result: Result<
    String,
    Error,
>)
    ensures
        error::text_agrees(result, program_text(launched, program@)),
{
    match require_success(launched) {
        Err(fault) => Err(process_failure(program, fault)),
        Ok(stdout) => Ok(lossy_text(stdout.as_slice())),
    }
}

/// A wrapper is in effect. The first variable that is set decides, and an empty one disables it.
pub open spec fn wrapper_set(
    first: Option<Seq<char>>,
    second: Option<Seq<char>>,
    configured: bool,
) -> bool {
    match (first, second) {
        (Some(value), _) => value.len() > 0,
        (None, Some(value)) => value.len() > 0,
        (None, None) => configured,
    }
}

/// Tells whether a wrapper is in effect.
pub fn wrapper_is_configured(first: &Option<String>, second: &Option<String>, configured: bool) -> (result:
    bool)
    ensures
        result == wrapper_set(chars::option_view(*first), chars::option_view(*second), configured),
{
    match (first, second) {
        (Some(value), _) => !value.as_str().is_empty(),
        (None, Some(value)) => !value.as_str().is_empty(),
        (None, None) => configured,
    }
}

/// Whether a wrapper has to be bypassed, or why the compiler is not supported.
pub open spec fn selection(
    variables: CompilerVariablesData,
    configuration: CompilerConfiguration,
) -> Result<bool, ErrorData> {
    if variables.rustc is Some || variables.build_rustc is Some || configuration.rustc {
        Err(error::environment(EnvironmentProblem::CustomRustc))
    } else {
        Ok(
            wrapper_set(
                variables.wrapper,
                variables.build_wrapper,
                configuration.global_wrapper,
            ) || wrapper_set(
                variables.workspace_wrapper,
                variables.build_workspace_wrapper,
                configuration.workspace_wrapper,
            ),
        )
    }
}

/// Rejects explicit compiler selection, and tells whether a wrapper has to be bypassed.
pub fn select_default(
    variables: &CompilerVariables,
    configuration: CompilerConfiguration,
) -> (result: Result<bool, Error>)
    ensures
        error::flag_agrees(result, selection(variables@, configuration)),
{
    if variables.rustc.is_some() || variables.build_rustc.is_some() || configuration.rustc {
        return Err(invalid_environment(EnvironmentProblem::CustomRustc));
    }
    Ok(
        wrapper_is_configured(
            &variables.wrapper,
            &variables.build_wrapper,
            configuration.global_wrapper,
        ) || wrapper_is_configured(
            &variables.workspace_wrapper,
            &variables.build_workspace_wrapper,
            configuration.workspace_wrapper,
        ),
    )
}

/// A field that the compiler has to report.
pub open spec fn required_field(verbose: Seq<char>, name: Seq<char>) -> Result<
    Seq<char>,
    ErrorData,
> {
    match toolchain::field_of(verbose, name) {
        Some(value) => Ok(value),
        None => Err(error::environment(EnvironmentProblem::NoField { field: name })),
    }
}

/// Requires a field that the compiler has to report.
pub fn compiler_field(verbose: &str, name: &str) -> (result: Result<String, Error>)
    ensures
        error::text_agrees(result, required_field(verbose@, name@)),
{
    match find_field(verbose, name) {
        Some(value) => Ok(value),
        None => Err(
            invalid_environment(EnvironmentProblem::NoField { field: String::from_str(name) }),
        ),
    }
}

/// What the compiler reports about itself.
pub open spec fn version_of(verbose: Seq<char>) -> Result<VersionFactsData, ErrorData> {
    match required_field(verbose, "release"@) {
        Err(error) => Err(error),
        Ok(release) => match required_field(verbose, "commit-hash"@) {
            Err(error) => Err(error),
            Ok(commit_hash) => match required_field(verbose, "host"@) {
                Err(error) => Err(error),
                Ok(host) => Ok(VersionFactsData { release, commit_hash, host }),
            },
        },
    }
}

fn version_facts(verbose: &str) -> (result: Result<VersionFacts, Error>)
    ensures
        match (result, version_of(verbose@)) {
            (Ok(facts), Ok(expected)) => facts@ == expected,
            (Err(error), Err(expected)) => error@ == expected,
            _ => false,
        },
{
    let release = match compiler_field(verbose, "release") {
        Err(error) => {
            return Err(error);
        },
        Ok(value) => value,
    };
    let commit_hash = match compiler_field(verbose, "commit-hash") {
        Err(error) => {
            return Err(error);
        },
        Ok(value) => value,
    };
    match compiler_field(verbose, "host") {
        Err(error) => Err(error),
        Ok(host) => Ok(VersionFacts { release, commit_hash, host }),
    }
}

/// How far the inspection of the default compiler has come. Each state but the last waits for one
/// outside step in the invocation directory.
pub enum CompilerInspection {
    /// Cargo prints its configuration with `-Z unstable-options config get`.
    Configuring,
    /// `rustc -vV` runs. A wrapper has to be bypassed or not.
    Versioning(bool),
    /// `rustc --print sysroot` runs.
    Locating(bool, VersionFacts),
    /// The reported sysroot is made canonical.
    ResolvingSysroot(bool, VersionFacts, String),
    /// The executable in the sysroot is made canonical.
    ResolvingRustc(bool, VersionFacts, String),
    /// The inspection is over.
    Finished(Result<CompilerContext, Error>),
}

/// The mathematical counterpart of [`CompilerInspection`].
pub enum InspectionData {
    /// Cargo prints its configuration.
    Configuring,
    /// The compiler prints its version.
    Versioning(bool),
    /// The compiler prints its sysroot.
    Locating(bool, VersionFactsData),
    /// The reported sysroot is made canonical.
    ResolvingSysroot(bool, VersionFactsData, Seq<char>),
    /// The executable in the sysroot is made canonical.
    ResolvingRustc(bool, VersionFactsData, Seq<char>),
    /// The inspection is over.
    Finished(Result<CompilerContextData, ErrorData>),
}

impl View for CompilerInspection {
    type V = InspectionData;

    open spec fn view(&self) -> InspectionData {
        match self {
            CompilerInspection::Configuring => InspectionData::Configuring,
            CompilerInspection::Versioning(wrapped) => InspectionData::Versioning(*wrapped),
            CompilerInspection::Locating(wrapped, facts) => InspectionData::Locating(
                *wrapped,
                facts@,
            ),
            CompilerInspection::ResolvingSysroot(wrapped, facts, path) =>
                InspectionData::ResolvingSysroot(*wrapped, facts@, path@),
            CompilerInspection::ResolvingRustc(wrapped, facts, path) =>
                InspectionData::ResolvingRustc(*wrapped, facts@, path@),
            CompilerInspection::Finished(Ok(context)) => InspectionData::Finished(Ok(context@)),
            CompilerInspection::Finished(Err(error)) => InspectionData::Finished(Err(error@)),
        }
    }
}

/// What an outside step of an inspection gave.
pub enum CompilerReply {
    /// A program ran.
    Ran(Result<ProcessOutput, SourceError>),
    /// A path was made canonical.
    Resolved(Result<String, SourceError>),
}

/// The compiler executable in a sysroot.
pub open spec fn sysroot_rustc(sysroot: Seq<char>) -> Seq<char> {
    paths::joined(paths::joined(sysroot, "bin"@), "rustc"@)
}

/// Returns the compiler executable in a sysroot.
pub fn rustc_in(sysroot: &str) -> (result: String)
    ensures
        result@ == sysroot_rustc(sysroot@),
{
    let bin = join(sysroot, "bin");
    join(bin.as_str(), "rustc")
}

/// The inspection behind a reply. Another reply changes nothing.
pub open spec fn inspection_after(
    cargo: Seq<char>,
    variables: CompilerVariablesData,
    state: InspectionData,
    reply: CompilerReply,
) -> InspectionData {
    match (state, reply) {
        (InspectionData::Configuring, CompilerReply::Ran(launched)) => match program_text(
            launched,
            cargo,
        ) {
            Err(error) => InspectionData::Finished(Err(error)),
            Ok(output) => match selection(variables, configured_fields(output)) {
                Err(error) => InspectionData::Finished(Err(error)),
                Ok(wrapped) => InspectionData::Versioning(wrapped),
            },
        },
        (InspectionData::Versioning(wrapped), CompilerReply::Ran(launched)) => match program_text(
            launched,
            "rustc"@,
        ) {
            Err(error) => InspectionData::Finished(Err(error)),
            Ok(verbose) => match version_of(verbose) {
                Err(error) => InspectionData::Finished(Err(error)),
                Ok(facts) => InspectionData::Locating(wrapped, facts),
            },
        },
        (InspectionData::Locating(wrapped, facts), CompilerReply::Ran(launched)) => match
            program_text(launched, "rustc"@) {
            Err(error) => InspectionData::Finished(Err(error)),
            Ok(text) => InspectionData::ResolvingSysroot(wrapped, facts, chars::trimmed(text)),
        },
        (
            InspectionData::ResolvingSysroot(wrapped, facts, reported),
            CompilerReply::Resolved(resolution),
        ) => match resolution {
            Err(source) => InspectionData::Finished(
                Err(error::filesystem("resolve rustc sysroot"@, reported, source)),
            ),
            Ok(sysroot) => InspectionData::ResolvingRustc(wrapped, facts, sysroot@),
        },
        (
            InspectionData::ResolvingRustc(wrapped, facts, sysroot),
            CompilerReply::Resolved(resolution),
        ) => match resolution {
            Err(source) => InspectionData::Finished(
                Err(
                    error::filesystem(
                        "resolve rustc executable"@,
                        sysroot_rustc(sysroot),
                        source,
                    ),
                ),
            ),
            Ok(rustc) => InspectionData::Finished(
                Ok(
                    CompilerContextData {
                        identity: CompilerIdentityData {
                            rustc: rustc@,
                            release: facts.release,
                            commit_hash: facts.commit_hash,
                            host: facts.host,
                            sysroot,
                        },
                        wrappers_configured: wrapped,
                    },
                ),
            ),
        },
        _ => state,
    }
}

impl CompilerInspection {
    /// Takes the reply to the outside step that the inspection waits for.
    pub fn discover(
        self,
        cargo: &str,
        variables: &CompilerVariables,
        reply: CompilerReply,
    ) -> (result: Self)
        ensures
            result@ == inspection_after(cargo@, variables@, self@, reply),
    {
        match (self, reply) {
            (CompilerInspection::Configuring, CompilerReply::Ran(launched)) => match run_program(
                launched,
                cargo,
            ) {
                Err(error) => CompilerInspection::Finished(Err(error)),
                Ok(output) => match select_default(
                    variables,
                    parse_configuration(output.as_str()),
                ) {
                    Err(error) => CompilerInspection::Finished(Err(error)),
                    Ok(wrapped) => CompilerInspection::Versioning(wrapped),
                },
            },
            (CompilerInspection::Versioning(wrapped), CompilerReply::Ran(launched)) => match
                run_program(launched, "rustc") {
                Err(error) => CompilerInspection::Finished(Err(error)),
                Ok(verbose) => match version_facts(verbose.as_str()) {
                    Err(error) => CompilerInspection::Finished(Err(error)),
                    Ok(facts) => CompilerInspection::Locating(wrapped, facts),
                },
            },
            (CompilerInspection::Locating(wrapped, facts), CompilerReply::Ran(launched)) => match
                run_program(launched, "rustc") {
                Err(error) => CompilerInspection::Finished(Err(error)),
                Ok(text) => CompilerInspection::ResolvingSysroot(
                    wrapped,
                    facts,
                    trim(text.as_str()),
                ),
            },
            (
                CompilerInspection::ResolvingSysroot(wrapped, facts, reported),
                CompilerReply::Resolved(resolution),
            ) => match resolution {
                Err(source) => CompilerInspection::Finished(
                    Err(filesystem_failure("resolve rustc sysroot", reported.as_str(), source)),
                ),
                Ok(sysroot) => CompilerInspection::ResolvingRustc(wrapped, facts, sysroot),
            },
            (
                CompilerInspection::ResolvingRustc(wrapped, facts, sysroot),
                CompilerReply::Resolved(resolution),
            ) => match resolution {
                Err(source) => {
                    let path = rustc_in(sysroot.as_str());
                    CompilerInspection::Finished(
                        Err(filesystem_failure("resolve rustc executable", path.as_str(), source)),
                    )
                },
                Ok(rustc) => CompilerInspection::Finished(
                    Ok(
                        CompilerContext {
                            identity: CompilerIdentity {
                                rustc,
                                release: facts.release,
                                commit_hash: facts.commit_hash,
                                host: facts.host,
                                sysroot,
                            },
                            wrappers_configured: wrapped,
                        },
                    ),
                ),
            },
            (state, _) => state,
        }
    }
}

} // verus!

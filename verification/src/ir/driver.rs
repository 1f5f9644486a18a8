//! Provisions the exact-version rustc driver and preserves Cargo wrapper composition.
//!
//! The driver is a small, dependency-free program. Cargo's selected compiler builds it once for
//! each rustc commit, sysroot, and source revision. Cargo then uses it as the outer global wrapper
//! without changing workspace artifact hashes.

use super::error::{
    filesystem_failure, process_failure, EnvironmentProblem, Error, ErrorData, Failure,
};
use super::toolchain;
use super::toolchain::{component_command, CargoContext, CargoContextData, Toolchain, ToolchainData};
use crate::chars;
use crate::chars::{add_text, copy_option, ends_with, no_texts, starts_with, trim};
use crate::digests::blake3_hex;
use crate::paths;
use crate::paths::join;
use crate::process::{require_success, ProcessOutput};
use crate::source::{FailureKind, SourceError};
use crate::text::{lossy_text, same_text};
use vstd::prelude::*;
use vstd::string::StringExecFns;

verus! {

/// The protocol version that the driver reports.
pub open spec fn protocol_version() -> Seq<char> {
    "3"@
}

/// A driver executable and the wrappers that it composes with.
#[derive(Debug, PartialEq, Eq)]
pub struct RustcDriver {
    /// The driver executable.
    pub executable: String,
    /// The configured wrapper of every compiler invocation.
    pub original_global_wrapper: Option<String>,
    /// The configured wrapper of workspace invocations.
    pub workspace_wrapper: Option<String>,
}

/// The mathematical counterpart of [`RustcDriver`].
pub struct RustcDriverData {
    /// The driver executable.
    pub executable: Seq<char>,
    /// The configured wrapper of every compiler invocation.
    pub original_global_wrapper: Option<Seq<char>>,
    /// The configured wrapper of workspace invocations.
    pub workspace_wrapper: Option<Seq<char>>,
}

impl View for RustcDriver {
    type V = RustcDriverData;

    open spec fn view(&self) -> RustcDriverData {
        RustcDriverData {
            executable: self.executable@,
            original_global_wrapper: crate::chars::option_view(self.original_global_wrapper),
            workspace_wrapper: crate::chars::option_view(self.workspace_wrapper),
        }
    }
}

/// A change to the environment of a child process.
#[derive(Debug, PartialEq, Eq)]
pub enum EnvironmentChange {
    /// A variable gets a value.
    Assign {
        /// The variable.
        name: String,
        /// The value.
        value: String,
    },
    /// A variable is removed.
    Remove {
        /// The variable.
        name: String,
    },
}

/// The mathematical counterpart of [`EnvironmentChange`].
pub enum EnvironmentChangeData {
    /// A variable gets a value.
    Assign {
        /// The variable.
        name: Seq<char>,
        /// The value.
        value: Seq<char>,
    },
    /// A variable is removed.
    Remove {
        /// The variable.
        name: Seq<char>,
    },
}

impl View for EnvironmentChange {
    type V = EnvironmentChangeData;

    open spec fn view(&self) -> EnvironmentChangeData {
        match self {
            EnvironmentChange::Assign { name, value } => EnvironmentChangeData::Assign { name: name@, value: value@ },
            EnvironmentChange::Remove { name } => EnvironmentChangeData::Remove { name: name@ },
        }
    }
}

/// The mathematical counterparts of a list.
pub open spec fn environment_change_list(values: Seq<EnvironmentChange>) -> Seq<EnvironmentChangeData> {
    values.map_values(|value: EnvironmentChange| value@)
}

/// Adds a variable with a value.
pub fn assign(changes: &mut Vec<EnvironmentChange>, name: &str, value: &str)
    ensures
        environment_change_list(final(changes)@) == environment_change_list(old(changes)@).push(
            EnvironmentChangeData::Assign { name: name@, value: value@ },
        ),
{
    changes.push(
        EnvironmentChange::Assign { name: String::from_str(name), value: String::from_str(value) },
    );
    assert(environment_change_list(changes@) =~= environment_change_list(old(changes)@).push(
        EnvironmentChangeData::Assign { name: name@, value: value@ },
    ));
}

/// Adds the removal of a variable.
pub fn remove(changes: &mut Vec<EnvironmentChange>, name: &str)
    ensures
        environment_change_list(final(changes)@) == environment_change_list(old(changes)@).push(
            EnvironmentChangeData::Remove { name: name@ },
        ),
{
    changes.push(EnvironmentChange::Remove { name: String::from_str(name) });
    assert(environment_change_list(changes@) =~= environment_change_list(old(changes)@).push(
        EnvironmentChangeData::Remove { name: name@ },
    ));
}

/// A variable with a value.
pub open spec fn variable(name: Seq<char>, value: Seq<char>) -> EnvironmentChangeData {
    EnvironmentChangeData::Assign { name, value }
}

/// No variable.
pub open spec fn no_variable(name: Seq<char>) -> EnvironmentChangeData {
    EnvironmentChangeData::Remove { name }
}

/// The environment in which Cargo finds the driver.
pub open spec fn driver_environment(
    driver: RustcDriverData,
    analysis_directory: Seq<char>,
    manifest_path: Seq<char>,
    rustc_commit: Seq<char>,
) -> Seq<EnvironmentChangeData> {
    seq![
        no_variable("RUSTC_BOOTSTRAP"@),
        variable("RUSTC_WRAPPER"@, driver.executable),
        variable("OPTIC_RUSTC_WRAPPER_ACTIVE"@, "1"@),
        variable("OPTIC_SELECTED_TEMPS_DIR"@, analysis_directory),
        variable("OPTIC_IDENTITY_MANIFEST"@, manifest_path),
        variable("OPTIC_RUSTC_COMMIT"@, rustc_commit),
        no_variable("OPTIC_RUSTC_DRIVER_INNER"@),
        match driver.original_global_wrapper {
            Some(wrapper) => variable("OPTIC_ORIGINAL_RUSTC_WRAPPER"@, wrapper),
            None => no_variable("OPTIC_ORIGINAL_RUSTC_WRAPPER"@),
        },
        if driver.workspace_wrapper is Some {
            variable("OPTIC_HAS_WORKSPACE_WRAPPER"@, "1"@)
        } else {
            no_variable("OPTIC_HAS_WORKSPACE_WRAPPER"@)
        },
    ]
}

/// The wrappers of the compiler, from the outermost to the innermost.
pub open spec fn chain_of(driver: RustcDriverData) -> Seq<Seq<char>> {
    let outer = seq![driver.executable];
    let middle = match driver.original_global_wrapper {
        Some(wrapper) => outer.push(wrapper),
        None => outer,
    };
    match driver.workspace_wrapper {
        Some(wrapper) => middle.push(wrapper),
        None => middle,
    }
}

impl RustcDriver {
    /// Composes a driver executable with the configured wrappers.
    pub fn compose(executable: String, cargo: &CargoContext) -> (result: Self)
        ensures
            result@ == composed(executable@, cargo@),
    {
        RustcDriver {
            executable,
            original_global_wrapper: copy_option(&cargo.global_wrapper),
            workspace_wrapper: copy_option(&cargo.workspace_wrapper),
        }
    }

    /// Lists the changes to the environment of Cargo.
    pub fn configure(
        &self,
        analysis_directory: &str,
        manifest_path: &str,
        rustc_commit: &str,
    ) -> (result: Vec<EnvironmentChange>)
        ensures
            environment_change_list(result@) == driver_environment(
                self@,
                analysis_directory@,
                manifest_path@,
                rustc_commit@,
            ),
    {
        let mut changes: Vec<EnvironmentChange> = Vec::new();
        remove(&mut changes, "RUSTC_BOOTSTRAP");
        assign(&mut changes, "RUSTC_WRAPPER", self.executable.as_str());
        assign(&mut changes, "OPTIC_RUSTC_WRAPPER_ACTIVE", "1");
        assign(&mut changes, "OPTIC_SELECTED_TEMPS_DIR", analysis_directory);
        assign(&mut changes, "OPTIC_IDENTITY_MANIFEST", manifest_path);
        assign(&mut changes, "OPTIC_RUSTC_COMMIT", rustc_commit);
        remove(&mut changes, "OPTIC_RUSTC_DRIVER_INNER");
        match &self.original_global_wrapper {
            Some(wrapper) => assign(&mut changes, "OPTIC_ORIGINAL_RUSTC_WRAPPER", wrapper.as_str()),
            None => remove(&mut changes, "OPTIC_ORIGINAL_RUSTC_WRAPPER"),
        }
        if self.workspace_wrapper.is_some() {
            assign(&mut changes, "OPTIC_HAS_WORKSPACE_WRAPPER", "1");
        } else {
            remove(&mut changes, "OPTIC_HAS_WORKSPACE_WRAPPER");
        }
        assert(environment_change_list(changes@) =~= driver_environment(
            self@,
            analysis_directory@,
            manifest_path@,
            rustc_commit@,
        ));
        changes
    }

    /// Lists the wrappers of the compiler, from the outermost to the innermost.
    pub fn wrapper_chain(&self) -> (result: Vec<String>)
        ensures
            chars::views(result@) == chain_of(self@),
    {
        let mut wrappers = no_texts();
        add_text(&mut wrappers, self.executable.as_str());
        if let Some(wrapper) = &self.original_global_wrapper {
            add_text(&mut wrappers, wrapper.as_str());
        }
        if let Some(wrapper) = &self.workspace_wrapper {
            add_text(&mut wrappers, wrapper.as_str());
        }
        assert(chars::views(wrappers@) =~= chain_of(self@));
        wrappers
    }
}

/// A driver with the configured wrappers.
pub open spec fn composed(executable: Seq<char>, cargo: CargoContextData) -> RustcDriverData {
    RustcDriverData {
        executable,
        original_global_wrapper: cargo.global_wrapper,
        workspace_wrapper: cargo.workspace_wrapper,
    }
}

/// A capture inside a capture is refused.
pub fn require_inactive(active: &Option<String>) -> (result: Result<(), Error>)
    ensures
        match result {
            Ok(()) => active is None,
            Err(error) => active is Some && error@ == (Failure::CompilerEnvironment {
                problem: EnvironmentProblem::<Seq<char>>::WrapperActive,
            }),
        },
{
    if active.is_some() {
        return Err(
            Failure::CompilerEnvironment { problem: EnvironmentProblem::WrapperActive },
        );
    }
    Ok(())
}

/// A file of the compiler's private libraries.
pub open spec fn middle_library(name: Seq<char>) -> bool {
    "librustc_middle-"@.is_prefix_of(name) && (".rlib"@.is_suffix_of(name)
        || ".rmeta"@.is_suffix_of(name))
}

/// The error for a toolchain without private libraries.
pub open spec fn no_rustc_dev(toolchain: ToolchainData) -> ErrorData {
    Failure::MissingRustcDev {
        release: toolchain.release,
        commit_hash: toolchain.commit_hash,
        path: toolchain.rustc_private_lib,
        install_command: toolchain::install_command(toolchain.rustup_toolchain, "rustc-dev"@),
    }
}

/// The verdict on the entries of the library directory.
pub open spec fn entries_verdict(
    toolchain: ToolchainData,
    entries: Seq<Result<String, SourceError>>,
) -> Result<(), ErrorData>
    decreases entries.len(),
{
    if entries.len() == 0 {
        Err(no_rustc_dev(toolchain))
    } else {
        match entries[0] {
            Err(source) => Err(
                Failure::Filesystem {
                    operation: "read entry in"@,
                    path: toolchain.rustc_private_lib,
                    source,
                },
            ),
            Ok(name) => if middle_library(name@) {
                Ok(())
            } else {
                entries_verdict(toolchain, entries.skip(1))
            },
        }
    }
}

/// The verdict on the library directory.
pub open spec fn rustc_dev_verdict(
    toolchain: ToolchainData,
    listing: Result<Vec<Result<String, SourceError>>, SourceError>,
) -> Result<(), ErrorData> {
    match listing {
        Err(source) => if source.kind == FailureKind::NotFound {
            Err(no_rustc_dev(toolchain))
        } else {
            Err(
                Failure::Filesystem {
                    operation: "read"@,
                    path: toolchain.rustc_private_lib,
                    source,
                },
            )
        },
        Ok(entries) => entries_verdict(toolchain, entries@),
    }
}

/// A verdict agrees with the expected one.
pub open spec fn verdict_agrees(
    result: Result<(), Error>,
    expected: Result<(), ErrorData>,
) -> bool {
    match (result, expected) {
        (Ok(()), Ok(())) => true,
        (Err(error), Err(meant)) => error@ == meant,
        _ => false,
    }
}

fn missing_rustc_dev(toolchain: &Toolchain) -> (result: Error)
    ensures
        result@ == no_rustc_dev(toolchain@),
{
    Failure::MissingRustcDev {
        release: toolchain.release.clone(),
        commit_hash: toolchain.commit_hash.clone(),
        path: toolchain.rustc_private_lib.clone(),
        install_command: component_command(&toolchain.rustup_toolchain, "rustc-dev"),
    }
}

/// Requires compiler libraries in the listing of the library directory.
pub fn require_rustc_dev(
    toolchain: &Toolchain,
    listing: Result<Vec<Result<String, SourceError>>, SourceError>,
) -> (result: Result<(), Error>)
    ensures
        verdict_agrees(result, rustc_dev_verdict(toolchain@, listing)),
{
    let entries = match listing {
        Err(source) => {
            if source.kind == FailureKind::NotFound {
                return Err(missing_rustc_dev(toolchain));
            }
            return Err(filesystem_failure("read", toolchain.rustc_private_lib.as_str(), source));
        },
        Ok(entries) => entries,
    };
    let mut index: usize = 0;
    assert(entries@.skip(0) =~= entries@);
    while index < entries.len()
        invariant
            index <= entries@.len(),
            entries_verdict(toolchain@, entries@.skip(index as int)) == entries_verdict(
                toolchain@,
                entries@,
            ),
            rustc_dev_verdict(toolchain@, listing) == entries_verdict(toolchain@, entries@),
        decreases entries.len() - index,
    {
        assert(entries@.skip(index as int)[0] == entries@[index as int]);
        assert(entries@.skip(index as int).skip(1) =~= entries@.skip(index + 1));
        match &entries[index] {
            Err(source) => {
                return Err(
                    filesystem_failure(
                        "read entry in",
                        toolchain.rustc_private_lib.as_str(),
                        source.clone(),
                    ),
                );
            },
            Ok(name) => {
                if starts_with(name.as_str(), "librustc_middle-") && (ends_with(
                    name.as_str(),
                    ".rlib",
                ) || ends_with(name.as_str(), ".rmeta")) {
                    return Ok(());
                }
            },
        }
        index += 1;
    }
    assert(entries@.skip(index as int).len() == 0);
    Err(missing_rustc_dev(toolchain))
}

/// The cache directory of the driver for a toolchain and a driver source.
pub open spec fn cache_directory(
    cargo_home: Seq<char>,
    toolchain: ToolchainData,
    source: Seq<char>,
) -> Seq<char> {
    let drivers = paths::joined(paths::joined(cargo_home, "optic"@), "drivers"@);
    let compiler = paths::joined(paths::joined(drivers, toolchain.host), toolchain.commit_hash);
    let sysroot = paths::joined(
        compiler,
        crate::digests::blake3_digest(vstd::utf8::encode_utf8(toolchain.sysroot)),
    );
    paths::joined(
        paths::joined(sysroot, crate::digests::blake3_digest(vstd::utf8::encode_utf8(source))),
        protocol_version(),
    )
}

/// Returns the cache directory of the driver for a toolchain and a driver source.
pub fn driver_cache_directory(cargo_home: &str, toolchain: &Toolchain, source: &str) -> (result:
    String)
    ensures
        result@ == cache_directory(cargo_home@, toolchain@, source@),
{
    let source_digest = blake3_hex(source.as_bytes());
    let sysroot_digest = blake3_hex(toolchain.sysroot.as_str().as_bytes());
    let optic = join(cargo_home, "optic");
    let drivers = join(optic.as_str(), "drivers");
    let host = join(drivers.as_str(), toolchain.host.as_str());
    let compiler = join(host.as_str(), toolchain.commit_hash.as_str());
    let sysroot = join(compiler.as_str(), sysroot_digest.as_str());
    let revision = join(sysroot.as_str(), source_digest.as_str());
    join(revision.as_str(), "3")
}

/// The Cargo home that the environment names.
pub open spec fn home_of(cargo_home: Option<Seq<char>>, home: Option<Seq<char>>) -> Result<
    Seq<char>,
    ErrorData,
> {
    let missing = Err(
        Failure::CompilerEnvironment { problem: EnvironmentProblem::NoCargoHome { home: "HOME"@ } },
    );
    match (cargo_home, home) {
        (Some(path), home) => if path.len() > 0 {
            Ok(path)
        } else {
            match home {
                Some(home) => if home.len() > 0 {
                    Ok(paths::joined(home, ".cargo"@))
                } else {
                    missing
                },
                None => missing,
            }
        },
        (None, Some(home)) => if home.len() > 0 {
            Ok(paths::joined(home, ".cargo"@))
        } else {
            missing
        },
        (None, None) => missing,
    }
}

/// Selects the Cargo home. Empty variables do not count.
pub fn cargo_home(configured: &Option<String>, home: &Option<String>) -> (result: Result<
    String,
    Error,
>)
    ensures
        match (result, home_of(chars::option_view(*configured), chars::option_view(*home))) {
            (Ok(path), Ok(expected)) => path@ == expected,
            (Err(error), Err(expected)) => error@ == expected,
            _ => false,
        },
{
    if let Some(path) = configured {
        if !path.as_str().is_empty() {
            return Ok(path.clone());
        }
    }
    if let Some(home) = home {
        if !home.as_str().is_empty() {
            return Ok(join(home.as_str(), ".cargo"));
        }
    }
    Err(
        Failure::CompilerEnvironment {
            problem: EnvironmentProblem::NoCargoHome { home: String::from_str("HOME") },
        },
    )
}

/// A driver that reports this protocol version.
pub open spec fn compatible(launched: Result<ProcessOutput, SourceError>) -> bool {
    match launched {
        Ok(output) => output.report.success && chars::trimmed(crate::text::lossy(output.stdout@))
            == protocol_version(),
        Err(_) => false,
    }
}

/// Tells whether a driver reports this protocol version when asked with `--optic-version`.
pub fn driver_is_compatible(launched: Result<ProcessOutput, SourceError>) -> (result: bool)
    ensures
        result == compatible(launched),
{
    match launched {
        Ok(output) => output.report.success && same_text(
            trim(lossy_text(output.stdout.as_slice()).as_str()).as_str(),
            "3",
        ),
        Err(_) => false,
    }
}

/// The paths that building a driver touches.
#[derive(Debug, PartialEq, Eq)]
pub struct CachePlan {
    /// The private cache directory.
    pub directory: String,
    /// The lock file.
    pub lock: String,
    /// The driver executable.
    pub executable: String,
    /// The driver source.
    pub source: String,
    /// The unpublished executable.
    pub temporary: String,
}

/// The mathematical counterpart of [`CachePlan`].
pub struct CachePlanData {
    /// The private cache directory.
    pub directory: Seq<char>,
    /// The lock file.
    pub lock: Seq<char>,
    /// The driver executable.
    pub executable: Seq<char>,
    /// The driver source.
    pub source: Seq<char>,
    /// The unpublished executable.
    pub temporary: Seq<char>,
}

impl View for CachePlan {
    type V = CachePlanData;

    open spec fn view(&self) -> CachePlanData {
        CachePlanData {
            directory: self.directory@,
            lock: self.lock@,
            executable: self.executable@,
            source: self.source@,
            temporary: self.temporary@,
        }
    }
}

/// The paths in a cache directory.
pub open spec fn plan_of(directory: Seq<char>) -> CachePlanData {
    CachePlanData {
        directory,
        lock: paths::joined(directory, "build.lock"@),
        executable: paths::joined(directory, "optic-rustc-driver"@),
        source: paths::joined(directory, "driver.rs"@),
        temporary: paths::joined(directory, "optic-rustc-driver.tmp"@),
    }
}

impl CachePlan {
    /// Names the paths in a cache directory.
    pub fn new(directory: String) -> (result: Self)
        ensures
            result@ == plan_of(directory@),
    {
        CachePlan {
            lock: join(directory.as_str(), "build.lock"),
            executable: join(directory.as_str(), "optic-rustc-driver"),
            source: join(directory.as_str(), "driver.rs"),
            temporary: join(directory.as_str(), "optic-rustc-driver.tmp"),
            directory,
        }
    }

    /// Lists the arguments of the compiler that builds the driver.
    pub fn build_arguments(&self) -> (result: Vec<String>)
        ensures
            chars::views(result@) == driver_arguments(self@),
    {
        let mut arguments = no_texts();
        add_text(&mut arguments, self.source.as_str());
        add_text(&mut arguments, "--crate-name");
        add_text(&mut arguments, "optic_rustc_driver");
        add_text(&mut arguments, "--edition=2024");
        add_text(&mut arguments, "-D");
        add_text(&mut arguments, "warnings");
        add_text(&mut arguments, "-C");
        add_text(&mut arguments, "prefer-dynamic");
        add_text(&mut arguments, "-C");
        add_text(&mut arguments, "rpath");
        add_text(&mut arguments, "-o");
        add_text(&mut arguments, self.temporary.as_str());
        assert(chars::views(arguments@) =~= driver_arguments(self@));
        arguments
    }
}

/// The arguments of the compiler that builds the driver.
pub open spec fn driver_arguments(plan: CachePlanData) -> Seq<Seq<char>> {
    seq![
        plan.source,
        "--crate-name"@,
        "optic_rustc_driver"@,
        "--edition=2024"@,
        "-D"@,
        "warnings"@,
        "-C"@,
        "prefer-dynamic"@,
        "-C"@,
        "rpath"@,
        "-o"@,
        plan.temporary,
    ]
}

/// The outside step that provisioning a driver waits for.
#[derive(Clone, Copy, Debug, PartialEq, Eq, Structural)]
pub enum CacheStep {
    /// Create the cache directory with its parents.
    CreateDirectory,
    /// Restrict the cache directory to its owner.
    RestrictDirectory,
    /// Open the lock file.
    OpenLock,
    /// Lock the lock file.
    Lock,
    /// Look for a regular executable.
    FindExecutable,
    /// Ask the cached executable for its version.
    AskCached,
    /// Look for anything at the path of the executable.
    FindAnything,
    /// Remove what is there.
    RemoveStale,
    /// Write the driver source.
    WriteSource,
    /// Look for an unpublished executable of an earlier attempt.
    FindTemporary,
    /// Remove it.
    RemoveTemporary,
    /// Compile the driver.
    Compile,
    /// Publish the executable.
    Publish,
    /// Ask the new executable for its version.
    AskNew,
    /// Nothing: the driver can be used.
    Ready,
}

/// What an outside step of provisioning gave.
pub enum CacheReply {
    /// An operation ended.
    Done(Result<(), SourceError>),
    /// A path was looked for.
    Found(bool),
    /// A program ran.
    Ran(Result<ProcessOutput, SourceError>),
}

/// The next step, or why there is none.
pub open spec fn done_or(
    done: Result<(), SourceError>,
    operation: Seq<char>,
    path: Seq<char>,
    next: CacheStep,
) -> Result<CacheStep, ErrorData> {
    match done {
        Ok(()) => Ok(next),
        Err(source) => Err(Failure::Filesystem { operation, path, source }),
    }
}

/// The step behind the reply to a step. Another reply changes nothing.
pub open spec fn cache_after(
    plan: CachePlanData,
    rustc: Seq<char>,
    step: CacheStep,
    reply: CacheReply,
) -> Result<CacheStep, ErrorData> {
    match (step, reply) {
        (CacheStep::CreateDirectory, CacheReply::Done(done)) => done_or(
            done,
            "create"@,
            plan.directory,
            CacheStep::RestrictDirectory,
        ),
        (CacheStep::RestrictDirectory, CacheReply::Done(done)) => done_or(
            done,
            "set permissions on"@,
            plan.directory,
            CacheStep::OpenLock,
        ),
        (CacheStep::OpenLock, CacheReply::Done(done)) => done_or(
            done,
            "open"@,
            plan.lock,
            CacheStep::Lock,
        ),
        (CacheStep::Lock, CacheReply::Done(done)) => done_or(
            done,
            "lock"@,
            plan.lock,
            CacheStep::FindExecutable,
        ),
        (CacheStep::FindExecutable, CacheReply::Found(found)) => Ok(
            if found {
                CacheStep::AskCached
            } else {
                CacheStep::FindAnything
            },
        ),
        (CacheStep::AskCached, CacheReply::Ran(launched)) => Ok(
            if compatible(launched) {
                CacheStep::Ready
            } else {
                CacheStep::FindAnything
            },
        ),
        (CacheStep::FindAnything, CacheReply::Found(found)) => Ok(
            if found {
                CacheStep::RemoveStale
            } else {
                CacheStep::WriteSource
            },
        ),
        (CacheStep::RemoveStale, CacheReply::Done(done)) => done_or(
            done,
            "remove"@,
            plan.executable,
            CacheStep::WriteSource,
        ),
        (CacheStep::WriteSource, CacheReply::Done(done)) => done_or(
            done,
            "write"@,
            plan.source,
            CacheStep::FindTemporary,
        ),
        (CacheStep::FindTemporary, CacheReply::Found(found)) => Ok(
            if found {
                CacheStep::RemoveTemporary
            } else {
                CacheStep::Compile
            },
        ),
        (CacheStep::RemoveTemporary, CacheReply::Done(done)) => done_or(
            done,
            "remove"@,
            plan.temporary,
            CacheStep::Compile,
        ),
        (CacheStep::Compile, CacheReply::Ran(launched)) => match toolchain::rustc_text(
            launched,
            rustc,
        ) {
            Err(error) => Err(error),
            Ok(_) => Ok(CacheStep::Publish),
        },
        (CacheStep::Publish, CacheReply::Done(done)) => done_or(
            done,
            "publish"@,
            plan.executable,
            CacheStep::AskNew,
        ),
        (CacheStep::AskNew, CacheReply::Ran(launched)) => if compatible(launched) {
            Ok(CacheStep::Ready)
        } else {
            Err(
                Failure::CompilerEnvironment {
                    problem: EnvironmentProblem::DriverVersion { version: protocol_version() },
                },
            )
        },
        _ => Ok(step),
    }
}

/// A step or an error agrees with the expected one.
pub open spec fn step_agrees(
    result: Result<CacheStep, Error>,
    expected: Result<CacheStep, ErrorData>,
) -> bool {
    match (result, expected) {
        (Ok(step), Ok(meant)) => step == meant,
        (Err(error), Err(meant)) => error@ == meant,
        _ => false,
    }
}

fn next_step(done: Result<(), SourceError>, operation: &str, path: &str, next: CacheStep) -> (result:
    Result<CacheStep, Error>)
    ensures
        step_agrees(result, done_or(done, operation@, path@, next)),
{
    match done {
        Ok(()) => Ok(next),
        Err(source) => Err(filesystem_failure(operation, path, source)),
    }
}

/// Takes the reply to the step that provisioning a cached driver waits for.
pub fn cached_driver(plan: &CachePlan, rustc: &str, step: CacheStep, reply: CacheReply) -> (result:
    Result<CacheStep, Error>)
    ensures
        step_agrees(result, cache_after(plan@, rustc@, step, reply)),
{
    match (step, reply) {
        (CacheStep::CreateDirectory, CacheReply::Done(done)) => next_step(
            done,
            "create",
            plan.directory.as_str(),
            CacheStep::RestrictDirectory,
        ),
        (CacheStep::RestrictDirectory, CacheReply::Done(done)) => next_step(
            done,
            "set permissions on",
            plan.directory.as_str(),
            CacheStep::OpenLock,
        ),
        (CacheStep::OpenLock, CacheReply::Done(done)) => next_step(
            done,
            "open",
            plan.lock.as_str(),
            CacheStep::Lock,
        ),
        (CacheStep::Lock, CacheReply::Done(done)) => next_step(
            done,
            "lock",
            plan.lock.as_str(),
            CacheStep::FindExecutable,
        ),
        (CacheStep::FindExecutable, CacheReply::Found(found)) => Ok(
            if found {
                CacheStep::AskCached
            } else {
                CacheStep::FindAnything
            },
        ),
        (CacheStep::AskCached, CacheReply::Ran(launched)) => Ok(
            if driver_is_compatible(launched) {
                CacheStep::Ready
            } else {
                CacheStep::FindAnything
            },
        ),
        (CacheStep::FindAnything, CacheReply::Found(found)) => Ok(
            if found {
                CacheStep::RemoveStale
            } else {
                CacheStep::WriteSource
            },
        ),
        (CacheStep::RemoveStale, CacheReply::Done(done)) => next_step(
            done,
            "remove",
            plan.executable.as_str(),
            CacheStep::WriteSource,
        ),
        (CacheStep::WriteSource, CacheReply::Done(done)) => next_step(
            done,
            "write",
            plan.source.as_str(),
            CacheStep::FindTemporary,
        ),
        (CacheStep::FindTemporary, CacheReply::Found(found)) => Ok(
            if found {
                CacheStep::RemoveTemporary
            } else {
                CacheStep::Compile
            },
        ),
        (CacheStep::RemoveTemporary, CacheReply::Done(done)) => next_step(
            done,
            "remove",
            plan.temporary.as_str(),
            CacheStep::Compile,
        ),
        (CacheStep::Compile, CacheReply::Ran(launched)) => match require_success(launched) {
            Err(fault) => Err(process_failure(rustc, fault)),
            Ok(_) => Ok(CacheStep::Publish),
        },
        (CacheStep::Publish, CacheReply::Done(done)) => next_step(
            done,
            "publish",
            plan.executable.as_str(),
            CacheStep::AskNew,
        ),
        (CacheStep::AskNew, CacheReply::Ran(launched)) => if driver_is_compatible(launched) {
            Ok(CacheStep::Ready)
        } else {
            Err(
                Failure::CompilerEnvironment {
                    problem: EnvironmentProblem::DriverVersion { version: String::from_str("3") },
                },
            )
        },
        (step, _) => Ok(step),
    }
}

/// A driver is used only behind the answer of an executable that reports this protocol version.
pub proof fn ready_drivers_are_compatible(
    plan: CachePlanData,
    rustc: Seq<char>,
    step: CacheStep,
    reply: CacheReply,
)
    requires
        step != CacheStep::Ready,
        cache_after(plan, rustc, step, reply) == Ok::<CacheStep, ErrorData>(CacheStep::Ready),
    ensures
        step == CacheStep::AskCached || step == CacheStep::AskNew,
        reply matches CacheReply::Ran(launched) && compatible(launched),
{
}

} // verus!

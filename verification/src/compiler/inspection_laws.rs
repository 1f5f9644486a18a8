//! How the compiler of a workspace is found, and what its programs report.

use super::artifacts;
use super::attempt;
use super::attempt::{EndedData, ReplayReply, StartReply};
use super::driver::FileFacts;
use super::error::{ErrorData, Failure};
use super::prepared;
use super::toolchain;
use super::toolchain::{CompilerReply, CompilerVariablesData, InspectionData};
use crate::paths;
use crate::process::ProcessOutput;
use crate::source::SourceError;
use vstd::prelude::*;

verus! {

/// The text of a program is what it wrote to its output, if it ended with success. A program that
/// failed is reported with its status and what it wrote about its failure.
pub proof fn failed_programs_are_reported(
    launched: Result<ProcessOutput, SourceError>,
    program: Seq<char>,
)
    ensures
        match launched {
            Err(source) => toolchain::program_text(launched, program) == Err::<
                Seq<char>,
                ErrorData,
            >(Failure::StartProcess { program, source }),
            Ok(output) => if output.report.success {
                toolchain::program_text(launched, program) == Ok::<Seq<char>, ErrorData>(
                    crate::text::lossy(output.stdout@),
                )
            } else {
                toolchain::program_text(launched, program) == Err::<Seq<char>, ErrorData>(
                    Failure::ProcessFailed {
                        program,
                        status: output.report.status@,
                        diagnostics: Some(crate::text::lossy(output.stderr@)),
                    },
                )
            },
        },
{
}

/// A wrapper variable decides whether there is a wrapper, and an empty one says that there is none.
/// The configuration decides only without a variable.
pub proof fn wrapper_variables_decide(
    first: Option<Seq<char>>,
    second: Option<Seq<char>>,
    configured: bool,
)
    ensures
        first matches Some(value) ==> toolchain::wrapper_set(first, second, configured) == (
        value.len() > 0),
        first is None && second is Some ==> toolchain::wrapper_set(first, second, configured) == (
        second->Some_0.len() > 0),
        first is None && second is None ==> toolchain::wrapper_set(first, second, configured)
            == configured,
{
}

/// A program that fails ends the inspection with its failure, whatever step it was run for.
pub proof fn failed_programs_end_the_inspection(
    cargo: Seq<char>,
    variables: CompilerVariablesData,
    state: InspectionData,
    launched: Result<ProcessOutput, SourceError>,
)
    requires
        launched matches Ok(output) ==> !output.report.success,
        state is Configuring || state is Versioning || state is Locating,
    ensures
        ({
            let program = if state is Configuring {
                cargo
            } else {
                "rustc"@
            };
            let after = toolchain::inspection_after(
                cargo,
                variables,
                state,
                CompilerReply::Ran(launched),
            );
            after == InspectionData::Finished(Err(toolchain::program_text(launched, program)->Err_0))
        }),
{
}

/// The compiler of an inspection is the resolved executable in the resolved sysroot, with the facts
/// that it reported.
pub proof fn compilers_are_located(
    cargo: Seq<char>,
    variables: CompilerVariablesData,
    state: InspectionData,
    resolution: Result<String, SourceError>,
)
    requires
        state is ResolvingRustc,
    ensures
        ({
            let wrapped = state->ResolvingRustc_0;
            let facts = state->ResolvingRustc_1;
            let sysroot = state->ResolvingRustc_2;
            let after = toolchain::inspection_after(
                cargo,
                variables,
                state,
                CompilerReply::Resolved(resolution),
            );
            match resolution {
                Err(source) => after == InspectionData::Finished(
                    Err(
                        Failure::Filesystem {
                            operation: "resolve rustc executable"@,
                            path: paths::joined(paths::joined(sysroot, "bin"@), "rustc"@),
                            source,
                        },
                    ),
                ),
                Ok(rustc) => {
                    &&& after is Finished
                    &&& (after->Finished_0) is Ok
                    &&& after->Finished_0->Ok_0.identity.rustc == rustc@
                    &&& after->Finished_0->Ok_0.identity.sysroot == sysroot
                    &&& after->Finished_0->Ok_0.identity.release == facts.release
                    &&& after->Finished_0->Ok_0.identity.commit_hash == facts.commit_hash
                    &&& after->Finished_0->Ok_0.identity.host == facts.host
                    &&& after->Finished_0->Ok_0.wrappers_configured == wrapped
                },
            }
        }),
{
}

/// The reported sysroot is resolved without the blanks around it, and the compiler is looked for in
/// what it resolves to.
pub proof fn sysroots_are_resolved(
    cargo: Seq<char>,
    variables: CompilerVariablesData,
    state: InspectionData,
    resolution: Result<String, SourceError>,
)
    requires
        state is ResolvingSysroot,
    ensures
        ({
            let after = toolchain::inspection_after(
                cargo,
                variables,
                state,
                CompilerReply::Resolved(resolution),
            );
            match resolution {
                Err(source) => after == InspectionData::Finished(
                    Err(
                        Failure::Filesystem {
                            operation: "resolve rustc sysroot"@,
                            path: state->ResolvingSysroot_2,
                            source,
                        },
                    ),
                ),
                Ok(sysroot) => after == InspectionData::ResolvingRustc(
                    state->ResolvingSysroot_0,
                    state->ResolvingSysroot_1,
                    sysroot@,
                ),
            }
        }),
{
}

/// A capture that disables configured wrappers says so in two warnings. Any other is silent.
pub proof fn disabled_wrappers_are_announced(wrappers_configured: bool)
    ensures
        !wrappers_configured ==> prepared::wrapper_warnings(wrappers_configured).len() == 0,
        wrappers_configured ==> prepared::wrapper_warnings(wrappers_configured) == seq![
            "warning: Cargo Optic does not support configured rustc wrappers; disabling them for this capture"@,
            "warning: the captured compiler output can differ from a normal wrapped build"@,
        ],
{
}

/// Only a regular file has the length of an artifact.
pub proof fn artifacts_are_regular_files(path: Seq<char>, found: Result<FileFacts, SourceError>)
    ensures
        match found {
            Err(source) => artifacts::regular_length(path, found) == Err::<u64, ErrorData>(
                Failure::Filesystem { operation: "inspect compiler artifact"@, path, source },
            ),
            Ok(facts) => if facts.is_file {
                artifacts::regular_length(path, found) == Ok::<u64, ErrorData>(facts.length)
            } else {
                artifacts::regular_length(path, found) == Err::<u64, ErrorData>(
                    Failure::NotRegular { path },
                )
            },
        },
{
}

/// An attempt starts unless its diagnostic file cannot be created or its program cannot be started.
pub proof fn failed_starts_are_reported(
    program: Seq<char>,
    directory: Seq<char>,
    source: SourceError,
)
    ensures
        attempt::start_verdict(program, directory, StartReply::Created(Err(source))) == Err::<
            (),
            ErrorData,
        >(
            Failure::Filesystem {
                operation: "create Cargo diagnostic file"@,
                path: paths::joined(directory, "stderr"@),
                source,
            },
        ),
        attempt::start_verdict(program, directory, StartReply::Spawned(Err(source))) == Err::<
            (),
            ErrorData,
        >(Failure::StartProcess { program, source }),
        attempt::start_verdict(program, directory, StartReply::Created(Ok(()))) is Ok,
        attempt::start_verdict(program, directory, StartReply::Spawned(Ok(()))) is Ok,
{
}

/// Diagnostics that cannot be replayed are reported.
pub proof fn failed_replays_are_reported(directory: Seq<char>, source: SourceError)
    ensures
        attempt::replay_verdict(directory, ReplayReply::Wrote(Err(source))) == Err::<(), ErrorData>(
            Failure::Filesystem {
                operation: "write Cargo diagnostics to"@,
                path: "stderr"@,
                source,
            },
        ),
        attempt::replay_verdict(directory, ReplayReply::Opened(Err(source))) == Err::<
            (),
            ErrorData,
        >(
            Failure::Filesystem {
                operation: "open Cargo diagnostic file"@,
                path: paths::joined(directory, "stderr"@),
                source,
            },
        ),
        attempt::replay_verdict(directory, ReplayReply::Copied(Err(source))) == Err::<
            (),
            ErrorData,
        >(
            Failure::Filesystem {
                operation: "replay Cargo diagnostics from"@,
                path: paths::joined(directory, "stderr"@),
                source,
            },
        ),
        attempt::replay_verdict(directory, ReplayReply::Wrote(Ok(()))) is Ok,
        attempt::replay_verdict(directory, ReplayReply::Opened(Ok(()))) is Ok,
        attempt::replay_verdict(directory, ReplayReply::Copied(Ok(()))) is Ok,
{
}

/// An attempt that failed is reported with the status of Cargo, and relaying its warnings changes
/// nothing else about it.
pub proof fn failed_attempts_are_reported(ended: EndedData, cargo: Seq<char>)
    ensures
        attempt::attempt_failure(ended, cargo) matches Failure::ProcessFailed {
            program,
            status,
            diagnostics,
        } && program == cargo && status == ended.report.status@ && diagnostics is None,
        attempt::relayed(ended).warnings.len() == 0,
        attempt::relayed(ended).diagnostics == ended.diagnostics,
        attempt::relayed(ended).observation == ended.observation,
        attempt::relayed(ended).report == ended.report,
        attempt::relayed(ended).failure == ended.failure,
{
}

} // verus!

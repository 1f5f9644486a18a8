//! What the phases of a capture take, keep and refuse.

use super::capture;
use super::capture::{
    CompileOutcomeData, EnvironmentVariableData, UnstableAccessMechanism, UnstableAccessScope,
};
use super::cargo_output;
use super::cargo_output::{EventData, MessageData, RunData};
use super::compile;
use super::compile::{
    CaptureInputsData, CompilationData, CompileReply, FreshnessData, PreparationData,
};
use super::disassembly;
use super::disassembly::{DisassemblyData, DisassemblyReply};
use super::driver;
use super::error::{EnvironmentProblem, ErrorData, Failure, OutputProblem, RemarkProblem};
use super::remark_files;
use super::remark_files::{DirectoryEntry, RemarkCollectionLimits};
use super::request::BuildRequestData;
use super::toolchain;
use super::toolchain::ToolchainData;
use crate::chars;
use crate::paths;
use crate::paths::Part;
use crate::source::{FailureKind, SourceError};
use crate::text_laws;
use vstd::prelude::*;

verus! {

/// The walk over a directory takes exactly the regular files whose names end as remark files do,
/// up to the limit. Other entries are passed over, and one file more than allowed is refused.
pub proof fn remark_files_are_taken(
    directory: Seq<char>,
    limits: RemarkCollectionLimits,
    count: usize,
    entry: DirectoryEntry,
)
    requires
        count < usize::MAX,
    ensures
        ({
            let remarks = entry.is_file && ".opt.opt.yaml"@.is_suffix_of(entry.name@);
            let verdict = remark_files::entry_verdict(directory, limits, count as nat, Ok(entry));
            &&& !remarks ==> verdict == Ok::<Option<Seq<char>>, ErrorData>(None)
            &&& remarks && count < limits.max_files ==> verdict == Ok::<
                Option<Seq<char>>,
                ErrorData,
            >(Some(entry.path@))
            &&& remarks && count >= limits.max_files ==> verdict == Err::<
                Option<Seq<char>>,
                ErrorData,
            >(
                Failure::InvalidOptimizationRemarks {
                    path: directory,
                    problem: RemarkProblem::FileCount {
                        maximum: limits.max_files,
                        got: (count + 1) as usize,
                    },
                },
            )
        }),
{
}

/// An entry that cannot be read ends the walk.
pub proof fn unreadable_entries_are_refused(
    directory: Seq<char>,
    limits: RemarkCollectionLimits,
    count: nat,
    source: SourceError,
)
    ensures
        remark_files::entry_verdict(directory, limits, count, Err(source)) == Err::<
            Option<Seq<char>>,
            ErrorData,
        >(Failure::Filesystem { operation: "walk"@, path: directory, source }),
{
}

/// The lengths of the files add up, and their sum is bounded.
pub proof fn lengths_add_up(
    directory: Seq<char>,
    limits: RemarkCollectionLimits,
    total: u64,
    path: Seq<char>,
    length: u64,
)
    requires
        total + length <= u64::MAX,
    ensures
        total + length <= limits.max_bytes ==> remark_files::length_verdict(
            directory,
            limits,
            total,
            path,
            Ok(length),
        ) == Ok::<u64, ErrorData>((total + length) as u64),
        total + length > limits.max_bytes ==> remark_files::length_verdict(
            directory,
            limits,
            total,
            path,
            Ok(length),
        ) == Err::<u64, ErrorData>(
            Failure::InvalidOptimizationRemarks {
                path: directory,
                problem: RemarkProblem::TotalLength {
                    maximum: limits.max_bytes,
                    got: (total + length) as u64,
                },
            },
        ),
{
}

/// A remark file is named by its components behind the directory, joined with slashes. A path that
/// does not stand below the directory has no name, and neither has the directory itself.
pub proof fn remark_files_are_named_below_their_directory(
    directory: Seq<char>,
    path: Seq<char>,
    names: Seq<Seq<char>>,
)
    requires
        paths::text_parts(path) == paths::text_parts(directory) + names.map_values(
            |name: Seq<char>| Part::Normal(vstd::utf8::encode_utf8(name)),
        ),
    ensures
        names.len() > 0 ==> remark_files::relative_name(directory, path) == Ok::<
            Seq<char>,
            RemarkProblem,
        >(chars::joined(names, "/"@)),
        names.len() == 0 ==> remark_files::relative_name(directory, path) == Err::<
            Seq<char>,
            RemarkProblem,
        >(RemarkProblem::Nameless),
{
    let base = paths::text_parts(directory);
    let more = names.map_values(|name: Seq<char>| Part::Normal(vstd::utf8::encode_utf8(name)));
    assert((base + more).skip(base.len() as int) =~= more);
    assert((base + more).subrange(0, base.len() as int) =~= base);
    components_are_named(names);
}

/// A path elsewhere has no name.
pub proof fn other_paths_have_no_name(directory: Seq<char>, path: Seq<char>)
    requires
        !paths::text_parts(directory).is_prefix_of(paths::text_parts(path)),
    ensures
        remark_files::relative_name(directory, path) == Err::<Seq<char>, RemarkProblem>(
            RemarkProblem::Elsewhere,
        ),
{
}

proof fn components_are_named(names: Seq<Seq<char>>)
    ensures
        remark_files::names_of(
            names.map_values(|name: Seq<char>| Part::Normal(vstd::utf8::encode_utf8(name))),
        ) == Ok::<Seq<Seq<char>>, RemarkProblem>(names),
    decreases names.len(),
{
    let more = names.map_values(|name: Seq<char>| Part::Normal(vstd::utf8::encode_utf8(name)));
    if names.len() == 0 {
        assert(names =~= Seq::empty());
    } else {
        let fewer = names.drop_last();
        components_are_named(fewer);
        assert(more.drop_last() =~= fewer.map_values(
            |name: Seq<char>| Part::Normal(vstd::utf8::encode_utf8(name)),
        ));
        vstd::utf8::encode_utf8_valid_utf8(names.last());
        vstd::utf8::encode_utf8_decode_utf8(names.last());
        assert(fewer.push(names.last()) =~= names);
    }
}

/// The remarks of all files are bounded.
pub proof fn remark_counts_are_bounded(
    directory: Seq<char>,
    limits: RemarkCollectionLimits,
    total: usize,
)
    ensures
        remark_files::count_verdict(directory, limits, total) is Ok <==> total
            <= limits.max_records,
        total > limits.max_records ==> remark_files::count_verdict(directory, limits, total)
            == Err::<(), ErrorData>(
            Failure::InvalidOptimizationRemarks {
                path: directory,
                problem: RemarkProblem::TotalRecords { maximum: limits.max_records, got: total },
            },
        ),
{
}

/// A capture allows 4096 remark files of 4 GiB and five million remarks in all, and in one file
/// 256 MiB, a million remarks, 4 MiB in a document, 64 KiB in a text and 4096 arguments.
pub proof fn the_limits_of_a_capture()
    ensures
        ({
            let limits = remark_files::default_limits();
            &&& limits.max_files == 4096
            &&& limits.max_bytes == 4 * 1024 * 1024 * 1024
            &&& limits.max_records == 5000000
            &&& limits.parse.max_file_bytes == 256 * 1024 * 1024
            &&& limits.parse.max_document_bytes == 4 * 1024 * 1024
            &&& limits.parse.max_records == 1000000
            &&& limits.parse.max_string_bytes == 64 * 1024
            &&& limits.parse.max_arguments == 4096
        }),
{
}

/// Forwarded output is kept for a failure, in its order. Nothing is left out while it fits.
pub proof fn output_is_kept(run: RunData, bytes: Seq<u8>)
    requires
        run.kept.len() + bytes.len() < 1048576,
    ensures
        ({
            let after = RunData { kept: run.kept + bytes, ..run };
            &&& cargo_output::run_step(run, MessageData::Event(EventData::Stdout(bytes))) == after
            &&& cargo_output::run_step(run, MessageData::Event(EventData::Stderr(bytes))) == after
            &&& cargo_output::run_step(
                run,
                MessageData::Event(EventData::CompilerDiagnostic(bytes)),
            ) == after
        }),
{
}

/// Of longer output the last bytes are kept, and the text says that the others are gone.
pub proof fn long_output_is_truncated(run: RunData, bytes: Seq<u8>)
    requires
        run.kept.len() + bytes.len() > 1048576,
    ensures
        ({
            let after = cargo_output::run_step(run, MessageData::Event(EventData::Stderr(bytes)));
            &&& after.truncated
            &&& after.kept.len() == 1048576
            &&& after.kept.is_suffix_of(run.kept + bytes)
            &&& after.artifacts == run.artifacts
            &&& after.stale == run.stale
            &&& after.problem == run.problem
            &&& cargo_output::tail_text(after.kept, after.truncated)
                == "[earlier Cargo output was truncated]\n"@ + crate::text::lossy(after.kept)
        }),
{
}

/// Each artifact is counted. One that is not fresh makes the run stale for good.
pub proof fn artifacts_are_counted(run: RunData, fresh: bool)
    requires
        run.artifacts < usize::MAX,
    ensures
        cargo_output::run_step(run, MessageData::Artifact(fresh)) == (RunData {
            artifacts: (run.artifacts + 1) as usize,
            stale: run.stale || !fresh,
            ..run
        }),
        fresh ==> cargo_output::run_step(run, MessageData::Artifact(fresh)).stale == run.stale,
        !fresh ==> cargo_output::run_step(run, MessageData::Artifact(fresh)).stale,
{
}

/// The first problem of the output is the one that is reported.
pub proof fn first_problems_are_kept(run: RunData, message: MessageData)
    ensures
        run.problem is Some ==> cargo_output::run_step(run, message).problem == run.problem,
        run.problem is None ==> match message {
            MessageData::MessageLimit(actual) => cargo_output::run_step(run, message).problem
                == Some(OutputProblem::<Seq<char>>::MessageLength { maximum: 1048576, got: actual }),
            MessageData::ReadError(problem) => cargo_output::run_step(run, message).problem == Some(
                OutputProblem::Read { problem },
            ),
            _ => cargo_output::run_step(run, message).problem is None,
        },
{
}

/// A disassembler that ends with success is done. One that fails is reported with its status and
/// its last output.
pub proof fn disassemblers_end(program: Seq<char>, diagnostics: Seq<u8>, reply: DisassemblyReply)
    requires
        reply is Ended,
    ensures
        ({
            let after = disassembly::disassembly_after(
                program,
                DisassemblyData::Waiting(diagnostics),
                reply,
            );
            match reply->Ended_0 {
                Err(source) => after == Err::<DisassemblyData, ErrorData>(
                    Failure::Filesystem { operation: "wait for"@, path: program, source },
                ),
                Ok(report) => if report.success {
                    after == Ok::<DisassemblyData, ErrorData>(DisassemblyData::Done)
                } else {
                    after == Err::<DisassemblyData, ErrorData>(
                        Failure::ProcessFailed {
                            program,
                            status: report.status@,
                            diagnostics: crate::text::lossy(diagnostics),
                        },
                    )
                },
            }
        }),
{
}

/// The output of a disassembler is read to its end, and its last MiB is kept.
pub proof fn disassembler_output_is_kept(program: Seq<char>, diagnostics: Seq<u8>, piece: Vec<u8>)
    ensures
        ({
            let after = disassembly::disassembly_after(
                program,
                DisassemblyData::Reading(diagnostics),
                DisassemblyReply::Read(Ok(piece)),
            );
            &&& piece@.len() == 0 ==> after == Ok::<DisassemblyData, ErrorData>(
                DisassemblyData::Waiting(diagnostics),
            )
            &&& piece@.len() > 0 && diagnostics.len() + piece@.len() <= 1048576 ==> after == Ok::<
                DisassemblyData,
                ErrorData,
            >(DisassemblyData::Reading(diagnostics + piece@))
            &&& piece@.len() > 0 && diagnostics.len() + piece@.len() > 1048576 ==> {
                let last = (diagnostics + piece@).skip(diagnostics.len() + piece@.len() - 1048576);
                after == Ok::<DisassemblyData, ErrorData>(DisassemblyData::Reading(last))
            }
        }),
{
}

/// Under another compiler wrapper of its own nothing is prepared.
pub proof fn active_wrappers_are_refused(active: Option<Seq<char>>)
    ensures
        active is None ==> compile::preparation_start(active) == Ok::<PreparationData, ErrorData>(
            PreparationData::Listing,
        ),
        active is Some ==> compile::preparation_start(active) == Err::<PreparationData, ErrorData>(
            Failure::CompilerEnvironment { problem: EnvironmentProblem::WrapperActive },
        ),
{
}

/// A build that fails is reported with its status and its output. One that succeeds goes on to look
/// for its evidence, and one that cannot be waited for is reported.
pub proof fn failed_builds_are_reported(
    request: BuildRequestData,
    inputs: CaptureInputsData,
    state: CompilationData,
    reply: CompileReply,
)
    requires
        state is Reading,
        reply is Ended,
    ensures
        ({
            let invocation = state->Reading_0;
            let toolchain = state->Reading_1;
            let run = state->Reading_2;
            let after = compile::compilation_after(request, inputs, state, reply);
            match (reply->Ended_0, run.problem) {
                (Err(source), _) => after == CompilationData::Finished(
                    Err(
                        Failure::CargoOutput {
                            program: "cargo rustc"@,
                            problem: OutputProblem::Wait { problem: source.message@ },
                        },
                    ),
                ),
                (Ok(_), Some(problem)) => after == CompilationData::Finished(
                    Err(Failure::CargoOutput { program: "cargo rustc"@, problem }),
                ),
                (Ok(report), None) => if report.success {
                    after == CompilationData::Finding(
                        invocation,
                        toolchain,
                        if run.artifacts > 0 && !run.stale {
                            Some(run.artifacts)
                        } else {
                            None
                        },
                    )
                } else {
                    after == CompilationData::Finished(
                        Err(
                            Failure::ProcessFailed {
                                program: "cargo rustc"@,
                                status: report.status@,
                                diagnostics: cargo_output::tail_text(run.kept, run.truncated),
                            },
                        ),
                    )
                },
            }
        }),
{
}

/// A build without a manifest is fresh if all of its artifacts were, and lacks its evidence
/// otherwise.
pub proof fn builds_without_a_manifest_are_fresh(
    request: BuildRequestData,
    inputs: CaptureInputsData,
    state: CompilationData,
    found: bool,
)
    requires
        state is Finding,
    ensures
        ({
            let invocation = state->Finding_0;
            let after = compile::compilation_after(
                request,
                inputs,
                state,
                CompileReply::Found(found),
            );
            match (found, state->Finding_2) {
                (true, _) => after == CompilationData::Requiring(invocation, state->Finding_1),
                (false, Some(artifact_count)) => after == CompilationData::Finished(
                    Ok(CompileOutcomeData::Fresh { invocation, artifact_count }),
                ),
                (false, None) => after == CompilationData::Finished(Err(Failure::MissingEvidence)),
            }
        }),
{
}

/// A check of freshness runs the driver as the build does, with one variable more that tells it to
/// refuse instead of compiling.
pub proof fn freshness_checks_are_marked(
    request: BuildRequestData,
    expected: ToolchainData,
    inputs: CaptureInputsData,
    state: FreshnessData,
    reply: CompileReply,
)
    requires
        state is Preparing,
        reply is Preparation,
        compile::preparation_after(
            inputs.driver,
            state->Preparing_0,
            state->Preparing_1,
            state->Preparing_2,
            reply->Preparation_0,
        ) is Ok,
        (compile::preparation_after(
            inputs.driver,
            state->Preparing_0,
            state->Preparing_1,
            state->Preparing_2,
            reply->Preparation_0,
        )->Ok_0) is Ready,
    ensures
        ({
            let cargo = state->Preparing_0;
            let toolchain = state->Preparing_1;
            let after = compile::freshness_after(request, expected, inputs, state, reply);
            let built = compile::compilation_after(
                request,
                inputs,
                CompilationData::Preparing(cargo, toolchain, state->Preparing_2),
                reply,
            );
            &&& built is Running
            &&& after == FreshnessData::Running(
                cargo,
                built->Running_2.push(driver::variable("OPTIC_FRESHNESS_CHECK"@, "1"@)),
            )
        }),
{
}

/// A disassembled text that is already gone counts as removed.
pub proof fn missing_texts_are_removed(path: Seq<char>, removed: Result<(), SourceError>)
    ensures
        match removed {
            Ok(()) => capture::removal_of(path, removed) is Ok,
            Err(source) => if source.kind == FailureKind::NotFound {
                capture::removal_of(path, removed) is Ok
            } else {
                capture::removal_of(path, removed) == Err::<(), ErrorData>(
                    Failure::Filesystem { operation: "remove"@, path, source },
                )
            },
        },
{
}

/// The description of a capture holds the request, the arguments that it gives to Cargo and to the
/// compiler, and what was effective around them. The compiler's own invocation is not known yet.
pub proof fn captures_are_described(
    request: BuildRequestData,
    cargo: Seq<char>,
    wrapper_chain: Seq<Seq<char>>,
    environment: Seq<EnvironmentVariableData>,
)
    ensures
        ({
            let made = capture::described(request, cargo, wrapper_chain, environment);
            &&& made.request == request
            &&& made.cargo.program == cargo
            &&& made.cargo.arguments == capture::cargo_arguments(request)
            &&& made.rustc is None
            &&& made.wrapper_chain == wrapper_chain
            &&& made.environment == environment
            &&& made.injected_rustc_arguments == capture::injected_arguments(request)
            &&& made.unstable_access.mechanism == UnstableAccessMechanism::RustcBootstrap
            &&& made.unstable_access.authorized_scopes == seq![
                UnstableAccessScope::CargoConfigDiscovery,
                UnstableAccessScope::DriverBuild,
                UnstableAccessScope::SelectedTarget,
            ]
        }),
{
}

/// A toolchain has a name exactly if its sysroot stands in a directory `toolchains`: the name of
/// the sysroot itself.
pub proof fn managed_toolchains_are_named(base: Seq<char>, directory: Seq<char>, name: Seq<char>)
    requires
        text_laws::plain(directory),
        text_laws::plain(name),
        base.len() > 0,
        base.last() != '/',
        paths::trimmed(base) == base,
        paths::trimmed(paths::joined(base, directory)) == paths::joined(base, directory),
    ensures
        directory == "toolchains"@ ==> toolchain::toolchain_name(
            paths::joined(paths::joined(base, directory), name),
        ) == Some(name),
        directory != "toolchains"@ ==> toolchain::toolchain_name(
            paths::joined(paths::joined(base, directory), name),
        ) is None,
{
    text_laws::joined_paths_come_apart(base, directory);
    assert(directory.contains(directory[directory.len() - 1]));
    text_laws::joined_paths_come_apart(paths::joined(base, directory), name);
}

/// A capture needs the private libraries of its compiler: without their directory, or without the
/// one library in it, the component is missing. A directory that cannot be read is an error of its
/// own.
pub proof fn private_libraries_are_required(
    toolchain: ToolchainData,
    listing: Result<Vec<Result<String, SourceError>>, SourceError>,
)
    ensures
        match listing {
            Err(source) => if source.kind == FailureKind::NotFound {
                driver::rustc_dev_verdict(toolchain, listing) matches Err(
                    Failure::MissingRustcDev { release, commit_hash, path, install_command },
                ) && release == toolchain.release && commit_hash == toolchain.commit_hash && path
                    == toolchain.rustc_private_lib && install_command
                    == super::toolchain::install_command(
                    toolchain.rustup_toolchain,
                    "rustc-dev"@,
                )
            } else {
                driver::rustc_dev_verdict(toolchain, listing) == Err::<(), ErrorData>(
                    Failure::Filesystem {
                        operation: "read"@,
                        path: toolchain.rustc_private_lib,
                        source,
                    },
                )
            },
            Ok(entries) => entries@.len() == 0 ==> driver::rustc_dev_verdict(toolchain, listing)
                matches Err(Failure::MissingRustcDev { .. }),
        },
{
}

} // verus!

//! What a build is prepared from and what its attempts run.

use super::artifacts;
use super::artifacts::{CollectStep, LlvmStage, MaterializationData};
use super::attempt;
use super::attempt::{AttemptData, CargoMessage, DiagnosticLevel, EndedData};
use super::driver;
use super::driver::{EntryFile, FileFacts};
use super::error::ErrorData;
use super::manifest;
use super::manifest::{Collected, Entry};
use super::metadata::{PackageData, PackageTargetData};
use super::prepared;
use super::prepared::{AttemptMode, PreparedBuildData, SelectedPackageData};
use super::request::{CargoTargetKind, RequestData, TargetData};
use super::resolution;
use super::toolchain;
use super::toolchain::{CompilerConfiguration, CompilerVariablesData};
use super::workspace;
use super::workspace::WorkspaceData;
use super::writer;
use super::writer::{Linkage, OptLevel, Visibility};
use crate::chars;
use crate::ir::driver::EnvironmentChangeData;
use crate::paths;
use crate::paths::Part;
use crate::records::{ArtifactKind, ArtifactRecord, LlvmLto};
use crate::source::SourceError;
use vstd::prelude::*;

verus! {

/// A diagnostic of Cargo is kept with its rendered text, or with its message and a line feed. A
/// warning is kept apart. Errors, compiler failures and failure notes mark the attempt as failed;
/// notes and help do not.
pub proof fn diagnostics_are_kept(
    before: AttemptData,
    level: DiagnosticLevel,
    rendered: Option<String>,
    message: String,
    package: Seq<char>,
    target: PackageTargetData,
)
    ensures
        ({
            let after = attempt::attempt_after(
                before,
                CargoMessage::Diagnostic { level, rendered, message },
                package,
                target,
            );
            let text = match rendered {
                Some(rendered) => rendered@,
                None => message@ + "\n"@,
            };
            &&& after.observation.selected == before.observation.selected
            &&& after.observation.finished == before.observation.finished
            &&& after.read_error == before.read_error
            &&& level == DiagnosticLevel::Warning ==> {
                &&& after.warnings == before.warnings.push(text)
                &&& after.diagnostics == before.diagnostics
                &&& after.observation.has_errors == before.observation.has_errors
            }
            &&& level != DiagnosticLevel::Warning ==> {
                &&& after.warnings == before.warnings
                &&& after.diagnostics == before.diagnostics.push(text)
            }
            &&& level == DiagnosticLevel::Error || level == DiagnosticLevel::Ice || level
                == DiagnosticLevel::FailureNote ==> after.observation.has_errors
            &&& level == DiagnosticLevel::Note || level == DiagnosticLevel::Help
                ==> after.observation.has_errors == before.observation.has_errors
        }),
{
}

/// A plain line of Cargo output is kept with a line feed, unless it is empty. A completion status is
/// added, and of failures to read only the first is kept.
pub proof fn other_messages_are_kept(
    before: AttemptData,
    line: String,
    success: bool,
    failure: SourceError,
    package: Seq<char>,
    target: PackageTargetData,
)
    ensures
        attempt::attempt_after(before, CargoMessage::Text(line), package, target) == (if line@.len()
            == 0 {
            before
        } else {
            AttemptData { diagnostics: before.diagnostics.push(line@ + "\n"@), ..before }
        }),
        ({
            let after = attempt::attempt_after(
                before,
                CargoMessage::Finished(success),
                package,
                target,
            );
            &&& after.observation.finished == before.observation.finished.push(success)
            &&& after.observation.selected == before.observation.selected
            &&& after.observation.has_errors == before.observation.has_errors
            &&& after.diagnostics == before.diagnostics
            &&& after.warnings == before.warnings
            &&& after.read_error == before.read_error
        }),
        attempt::attempt_after(before, CargoMessage::Other, package, target) == before,
        attempt::attempt_after(
            before,
            CargoMessage::Unreadable(failure),
            package,
            target,
        ).read_error == (match before.read_error {
            Some(first) => Some(first),
            None => Some(failure),
        }),
{
}

/// An ended attempt keeps what was observed. A failure to read the messages is its failure.
pub proof fn attempts_end(
    before: AttemptData,
    program: Seq<char>,
    directory: Seq<char>,
    report: crate::process::ExitReport,
)
    ensures
        attempt::ending(before, program, directory, Ok(report)) matches Ok(ended) && {
            &&& ended.report == report
            &&& ended.observation == before.observation
            &&& ended.diagnostics == before.diagnostics
            &&& ended.warnings == before.warnings
            &&& ended.failure is Some <==> before.read_error is Some
        },
{
}

/// A workspace is discovered exactly from an absolute directory, with the configured Cargo or
/// `cargo`, and without any feature selection.
pub proof fn discoveries_start_anywhere_absolute(start: Seq<char>, cargo: Option<Seq<char>>)
    ensures
        workspace::discovery(start, cargo) is Ok <==> start.len() > 0 && start[0] == '/',
        workspace::discovery(start, cargo) matches Ok(query) ==> {
            &&& query.directory == start
            &&& query.features.len() == 0
            &&& !query.all_features
            &&& !query.no_default_features
            &&& query.cargo == (match cargo {
                Some(cargo) => if cargo.len() > 0 {
                    cargo
                } else {
                    "cargo"@
                },
                None => "cargo"@,
            })
        },
{
}

/// Metadata for a request is asked with the same feature selection as the build.
pub proof fn queries_follow_the_request(place: WorkspaceData, request: RequestData)
    ensures
        ({
            let query = workspace::request_query(place, request);
            &&& query.cargo == place.cargo
            &&& query.directory == place.invocation_directory
            &&& query.features == request.features
            &&& query.all_features == request.all_features
            &&& query.no_default_features == request.no_default_features
        }),
{
}

/// An explicit compiler is refused, however it is set. Otherwise a wrapper counts if the first
/// variable that is set is not empty, or if none is set and Cargo configures one.
pub proof fn explicit_compilers_are_refused(
    variables: CompilerVariablesData,
    configuration: CompilerConfiguration,
)
    ensures
        toolchain::selection(variables, configuration) is Err <==> variables.rustc is Some
            || variables.build_rustc is Some || configuration.rustc,
        toolchain::selection(variables, configuration) matches Ok(wrapped) ==> wrapped == ({
            ||| match variables.wrapper {
                Some(value) => value.len() > 0,
                None => match variables.build_wrapper {
                    Some(value) => value.len() > 0,
                    None => configuration.global_wrapper,
                },
            }
            ||| match variables.workspace_wrapper {
                Some(value) => value.len() > 0,
                None => match variables.build_workspace_wrapper {
                    Some(value) => value.len() > 0,
                    None => configuration.workspace_wrapper,
                },
            }
        }),
{
}

/// The output of Cargo configures a compiler or a wrapper exactly if one of its lines assigns the
/// field.
pub proof fn configured_fields_are_found(output: Seq<char>)
    ensures
        ({
            let lines = chars::lines_of(output);
            let found = toolchain::configured_fields(output);
            &&& found.rustc <==> exists|i: int|
                0 <= i < lines.len() && (chars::split_first(#[trigger] lines[i], " = "@)
                    matches Some((field, _)) && field == "build.rustc"@)
            &&& found.global_wrapper <==> exists|i: int|
                0 <= i < lines.len() && (chars::split_first(#[trigger] lines[i], " = "@)
                    matches Some((field, _)) && field == "build.rustc-wrapper"@)
            &&& found.workspace_wrapper <==> exists|i: int|
                0 <= i < lines.len() && (chars::split_first(#[trigger] lines[i], " = "@)
                    matches Some((field, _)) && field == "build.rustc-workspace-wrapper"@)
        }),
{
}

/// A compiler reports its version with the fields `release`, `commit-hash` and `host`.
pub proof fn versions_have_three_fields(verbose: Seq<char>)
    ensures
        toolchain::version_of(verbose) is Ok <==> crate::ir::toolchain::field_of(
            verbose,
            "release"@,
        ) is Some && crate::ir::toolchain::field_of(verbose, "commit-hash"@) is Some
            && crate::ir::toolchain::field_of(verbose, "host"@) is Some,
        toolchain::version_of(verbose) matches Ok(facts) ==> {
            &&& crate::ir::toolchain::field_of(verbose, "release"@) == Some(facts.release)
            &&& crate::ir::toolchain::field_of(verbose, "commit-hash"@) == Some(facts.commit_hash)
            &&& crate::ir::toolchain::field_of(verbose, "host"@) == Some(facts.host)
        },
{
}

/// A file of a cached driver is valid exactly if it is there, is no link, and is a directory or a
/// file as it should be. The executable has to be executable and not empty.
pub proof fn cached_files_are_checked(
    entry: Seq<char>,
    file: EntryFile,
    found: Result<FileFacts, SourceError>,
)
    ensures
        driver::file_verdict(entry, file, found) is Ok <==> (found matches Ok(facts) && {
            &&& !facts.is_symlink
            &&& file == EntryFile::Directory ==> facts.is_directory
            &&& file != EntryFile::Directory ==> facts.is_file
            &&& file == EntryFile::Executable ==> facts.length > 0 && facts.mode & 0o111 != 0
        }),
{
}

/// The files of a cached driver have fixed names. Its identity names the key of the recipe.
pub proof fn cached_files_are_named(entry: Seq<char>, key: Seq<char>)
    ensures
        driver::entry_path(entry, EntryFile::Directory) == entry,
        driver::entry_path(entry, EntryFile::Identity) == paths::joined(entry, "identity"@),
        driver::entry_path(entry, EntryFile::Executable) == paths::joined(
            entry,
            "optic-rustc-driver"@,
        ),
        driver::identity_bytes(key) == vstd::utf8::encode_utf8(
            "optic-driver-1\n"@ + key + "\n"@,
        ),
{
}

/// The driver is compiled with fixed options against its own sysroot.
pub proof fn builds_have_fixed_options(
    source: Seq<char>,
    sysroot: Seq<char>,
    executable: Seq<char>,
)
    ensures
        driver::build_arguments(source, sysroot, executable) == seq![
            source,
            "--crate-name"@,
            "optic_rustc_driver"@,
            "--edition=2024"@,
            "-C"@,
            "prefer-dynamic"@,
            "-C"@,
            "rpath"@,
            "--sysroot"@,
            sysroot,
            "-o"@,
            executable,
        ],
{
    assert(driver::build_arguments(source, sysroot, executable) =~= seq![
        source,
        "--crate-name"@,
        "optic_rustc_driver"@,
        "--edition=2024"@,
        "-C"@,
        "prefer-dynamic"@,
        "-C"@,
        "rpath"@,
        "--sysroot"@,
        sysroot,
        "-o"@,
        executable,
    ]);
}

/// The home of Cargo is its own variable, or `.cargo` in the user's home if that is unset or empty,
/// in each case below the invocation directory unless it is absolute.
pub proof fn homes_are_found(
    directory: Seq<char>,
    cargo_home: Option<Seq<char>>,
    home: Option<Seq<char>>,
)
    ensures
        (cargo_home matches Some(path) ==> path.len() > 0 ==> driver::home_of(
            directory,
            cargo_home,
            home,
        ) == Ok::<Seq<char>, ErrorData>(paths::joined(directory, path))),
        (cargo_home matches Some(path) ==> path.len() == 0) ==> match home {
            Some(home) => driver::home_of(directory, cargo_home, Some(home)) == Ok::<
                Seq<char>,
                ErrorData,
            >(paths::joined(directory, paths::joined(home, ".cargo"@))),
            None => driver::home_of(directory, cargo_home, home) is Err,
        },
{
}

/// The marker of an attempt quotes its token behind the reserved option.
pub proof fn markers_quote_their_token(token: Seq<char>, other: Seq<char>)
    ensures
        prepared::marker_of(token) == "--cfg=cargo_optic_selected_target=\""@ + token + "\""@,
        prepared::marker_of(token) == prepared::marker_of(other) ==> token == other,
{
    reveal_strlit("--cfg=cargo_optic_selected_target=");
    reveal_strlit("--cfg=cargo_optic_selected_target=\"");
    reveal_strlit("\"");
    assert("--cfg=cargo_optic_selected_target="@ + "\""@
        =~= "--cfg=cargo_optic_selected_target=\""@);
    let front = "--cfg=cargo_optic_selected_target=\""@;
    assert((front + token + "\""@).subrange(
        front.len() as int,
        (front.len() + token.len()) as int,
    ) =~= token);
    assert((front + other + "\""@).subrange(
        front.len() as int,
        (front.len() + other.len()) as int,
    ) =~= other);
    assert((front + token + "\""@).len() == front.len() + token.len() + 1);
    assert((front + other + "\""@).len() == front.len() + other.len() + 1);
}

/// An attempt runs the prepared Cargo command in the invocation directory with JSON messages, and
/// hands the marker to the compiler of the selected target alone.
pub proof fn attempts_run_the_prepared_command(
    build: PreparedBuildData,
    marker: Seq<char>,
    directory: Seq<char>,
    source: Result<String, SourceError>,
    mode: AttemptMode,
)
    ensures
        prepared::attempt_command(build, marker, directory, source, mode) is Ok <==> source is Ok,
        prepared::attempt_command(build, marker, directory, source, mode) matches Ok(command) ==> {
            let count = build.build.cargo_arguments.len() as int;
            &&& command.program == build.cargo
            &&& command.directory == build.invocation_directory
            &&& command.arguments.len() == count + 3
            &&& command.arguments.take(count) == build.build.cargo_arguments
            &&& command.arguments[count] == "--message-format=json"@
            &&& command.arguments[count + 1] == "--"@
            &&& command.arguments[count + 2] == marker
        },
{
    if let Ok(command) = prepared::attempt_command(build, marker, directory, source, mode) {
        let count = build.build.cargo_arguments.len() as int;
        assert(command.arguments.take(count) =~= build.build.cargo_arguments);
    }
}

/// A variable is given a value.
pub open spec fn assigned(name: Seq<char>, value: Seq<char>) -> EnvironmentChangeData {
    EnvironmentChangeData::Assign { name, value }
}

/// A variable is taken away.
pub open spec fn removed(name: Seq<char>) -> EnvironmentChangeData {
    EnvironmentChangeData::Remove { name }
}

/// The driver of an attempt learns from its environment which compiler, source, package and crate
/// were selected, where its files go, and whether it probes or collects. Other wrappers are switched
/// off, and unstable access is not granted.
pub proof fn attempts_have_a_fixed_environment(
    build: PreparedBuildData,
    marker: Seq<char>,
    directory: Seq<char>,
    source: Seq<char>,
    mode: AttemptMode,
)
    ensures
        prepared::attempt_environment(build, marker, directory, source, mode) == seq![
            assigned("RUSTC"@, build.compiler.rustc),
            assigned("OPTIC_SELECTED_RUSTC"@, build.compiler.rustc),
            assigned("OPTIC_SELECTED_SOURCE"@, source),
            assigned("OPTIC_SELECTED_PACKAGE_ROOT"@, build.package_root),
            assigned(
                "OPTIC_SELECTED_CRATE_NAME"@,
                chars::replaced(build.target.name, '-', '_'),
            ),
            assigned("OPTIC_STALE_RECEIPT"@, paths::joined(directory, "stale"@)),
            assigned("RUSTC_WRAPPER"@, build.driver),
            assigned("RUSTC_WORKSPACE_WRAPPER"@, ""@),
            assigned("CARGO_BUILD_RUSTC_WRAPPER"@, ""@),
            assigned("CARGO_BUILD_RUSTC_WORKSPACE_WRAPPER"@, ""@),
            assigned("OPTIC_SELECTED_TARGET_MARKER"@, marker),
            assigned("OPTIC_COMPILER_MANIFEST"@, paths::joined(directory, "manifest"@)),
            removed("OPTIC_RUSTC_DRIVER_INNER"@),
            removed("RUSTC_BOOTSTRAP"@),
            assigned(
                "OPTIC_COMPILER_MODE"@,
                if mode == AttemptMode::Probe {
                    "probe"@
                } else {
                    "collect"@
                },
            ),
        ],
{
    let made = prepared::attempt_environment(build, marker, directory, source, mode);
    assert(made =~= seq![
        assigned("RUSTC"@, build.compiler.rustc),
        assigned("OPTIC_SELECTED_RUSTC"@, build.compiler.rustc),
        assigned("OPTIC_SELECTED_SOURCE"@, source),
        assigned("OPTIC_SELECTED_PACKAGE_ROOT"@, build.package_root),
        assigned("OPTIC_SELECTED_CRATE_NAME"@, chars::replaced(build.target.name, '-', '_')),
        assigned("OPTIC_STALE_RECEIPT"@, paths::joined(directory, "stale"@)),
        assigned("RUSTC_WRAPPER"@, build.driver),
        assigned("RUSTC_WORKSPACE_WRAPPER"@, ""@),
        assigned("CARGO_BUILD_RUSTC_WRAPPER"@, ""@),
        assigned("CARGO_BUILD_RUSTC_WORKSPACE_WRAPPER"@, ""@),
        assigned("OPTIC_SELECTED_TARGET_MARKER"@, marker),
        assigned("OPTIC_COMPILER_MANIFEST"@, paths::joined(directory, "manifest"@)),
        removed("OPTIC_RUSTC_DRIVER_INNER"@),
        removed("RUSTC_BOOTSTRAP"@),
        assigned("OPTIC_COMPILER_MODE"@, prepared::mode_name(mode)),
    ]);
}

/// A collection is believed only if Cargo succeeded, left no stale receipt, finished once without
/// an error, and rebuilt exactly the one selected artifact.
pub proof fn collections_rebuild_the_target(
    build: PreparedBuildData,
    ended: EndedData,
    stale: bool,
)
    ensures
        prepared::collection_verdict(build, ended, stale) is Ok ==> {
            &&& ended.report.success
            &&& !stale
            &&& ended.observation.finished == seq![true]
            &&& !ended.observation.has_errors
            &&& ended.observation.selected.len() == 1
            &&& !ended.observation.selected[0].fresh
            &&& ended.observation.selected[0].target.name == build.target.name
            &&& ended.observation.selected[0].target.src_path == build.target.src_path
        },
        ended.report.success && !stale && ended.observation.finished == seq![true]
            && !ended.observation.has_errors && ended.observation.selected.len() == 1
            && !ended.observation.selected[0].fresh && ended.observation.selected[0].target
            == build.target ==> prepared::collection_verdict(build, ended, stale) is Ok,
{
}

/// The selected package is a member with the requested name, and the selected target one of its
/// targets. All of its facts are those of the member.
pub proof fn selections_are_members(
    members: Seq<PackageData>,
    root: Seq<char>,
    request: RequestData,
)
    ensures
        prepared::selected(members, root, request) matches Ok(package) ==> {
            &&& package.name == request.package
            &&& package.workspace_root == root
            &&& exists|i: int|
                0 <= i < members.len() && (#[trigger] members[i]).name == request.package
                    && package.version == members[i].version && package.id == members[i].id
                    && package.manifest_path == members[i].manifest_path
                    && members[i].targets.contains(package.target)
            &&& request.target matches TargetData::Binary(name) ==> package.target.name == name
                && package.target.kind.contains("bin"@)
            &&& request.target matches TargetData::Example(name) ==> package.target.name == name
                && package.target.kind.contains("example"@)
            &&& request.target matches TargetData::Benchmark(name) ==> package.target.name == name
                && package.target.kind.contains("bench"@)
        },
        prepared::selected(members, root, request) is Err && (forall|i: int|
            0 <= i < members.len() ==> (#[trigger] members[i]).name != request.package) ==> (
        prepared::selected(members, root, request) matches Err(error) && error
            == super::error::Failure::<
            Seq<char>,
            super::fault::SpecFault,
        >::PackageNotFound { package: request.package }),
{
    resolution::members_are_resolved_by_name(members, request.package);
    let at = resolution::member_index(members, request.package);
    if at < members.len() {
        let targets = members[at].targets;
        match request.target {
            TargetData::Library => {
                resolution::libraries_are_resolved(targets);
            },
            TargetData::Binary(name) => {
                resolution::named_targets_are_resolved(targets, request.target, name, "bin"@);
            },
            TargetData::Example(name) => {
                resolution::named_targets_are_resolved(targets, request.target, name, "example"@);
            },
            TargetData::Benchmark(name) => {
                resolution::named_targets_are_resolved(targets, request.target, name, "bench"@);
            },
        }
        let index = resolution::target_index(targets, request.target);
        if index < targets.len() {
            assert(targets.contains(targets[index]));
            assert(members[at].name == request.package);
        }
    }
}

/// The record of a build states the selected package, the target with the kind that was asked for,
/// the profile, and the command.
pub proof fn records_state_the_build(
    place: WorkspaceData,
    request: RequestData,
    package: SelectedPackageData,
)
    ensures
        ({
            let record = prepared::build_of(place, request, package);
            &&& record.package == package.name
            &&& record.version == package.version
            &&& record.target.name == package.target.name
            &&& request.target is Library <==> record.target.kind == CargoTargetKind::Lib
            &&& request.target is Binary <==> record.target.kind == CargoTargetKind::Bin
            &&& request.target is Example <==> record.target.kind == CargoTargetKind::Example
            &&& request.target is Benchmark <==> record.target.kind == CargoTargetKind::Bench
            &&& record.profile == request.profile
            &&& record.cargo == place.cargo
            &&& record.invocation_directory == place.invocation_directory
            &&& record.cargo_arguments[2] == request.package
        }),
{
    resolution::arguments_state_the_request(super::request::normal_request(request));
}

/// The disassembler of a compiler lies in the directory of its host.
pub proof fn disassemblers_lie_in_the_sysroot(compiler: toolchain::CompilerIdentityData)
    ensures
        artifacts::disassembler_of(compiler) == paths::joined(
            paths::joined(paths::joined(compiler.sysroot, "lib/rustlib"@), compiler.host),
            "bin/llvm-dis"@,
        ),
{
}

/// Only modules without LTO or with ThinLTO within the crate have a stage.
pub proof fn stages_follow_lto(lto: LlvmLto)
    ensures
        artifacts::stage_of(lto) == Some(LlvmStage::NoLtoOptimized) <==> lto == LlvmLto::Off,
        artifacts::stage_of(lto) == Some(LlvmStage::LocalThinLtoPostPassManager) <==> lto
            == LlvmLto::LocalThin,
        artifacts::stage_of(lto) is None <==> lto == LlvmLto::CrossCrateThin || lto == LlvmLto::Fat,
{
}

/// LLVM is materialized only from the LLVM backend, without incremental compilation and the linker
/// plugin, and with LTO within the crate at most. An unsupported configuration ends without it.
pub proof fn materializations_are_consistent(data: MaterializationData, index: int)
    requires
        index >= data.artifacts.len(),
    ensures
        data.unsupported is Some ==> (artifacts::at_snapshot(data, index) matches Ok(after)
            && after.step == CollectStep::Done),
        data.unsupported is None ==> (artifacts::at_snapshot(data, index) is Ok <==> {
            &&& data.provenance.backend == "llvm"@
            &&& !data.provenance.incremental
            &&& !data.provenance.linker_plugin_lto
            &&& data.provenance.lto == LlvmLto::Off || data.provenance.lto == LlvmLto::LocalThin
        }),
        data.unsupported is None ==> (artifacts::at_snapshot(data, index) matches Ok(after)
            ==> after.step == CollectStep::FindTool),
{
}

/// A module of the manifest is accepted exactly if the configuration is supported, its name is not
/// empty, its file lies directly in the directory, and neither its name nor its path occurred
/// before.
pub proof fn manifest_modules_are_checked(
    collected: Collected,
    name: Seq<char>,
    path: Seq<char>,
    unsupported: bool,
    directory: Seq<Part>,
)
    ensures
        manifest::accepted(collected, Entry::Module { name, path }, unsupported, directory) is Ok
            <==> {
            let parts = paths::text_parts(path);
            &&& !unsupported
            &&& name.len() > 0
            &&& parts.len() > 0 && parts.last() is Normal && parts.drop_last() == directory
            &&& forall|i: int|
                0 <= i < collected.modules.len() ==> (#[trigger] collected.modules[i]).name != name
                    && paths::text_parts(collected.modules[i].path) != parts
        },
        manifest::accepted(collected, Entry::Module { name, path }, unsupported, directory)
            matches Ok(after) ==> {
            &&& after.groups == collected.groups
            &&& after.artifacts == collected.artifacts
            &&& after.modules.drop_last() == collected.modules
            &&& after.modules.last().name == name
            &&& after.modules.last().path == path
        },
{
    if let Ok(after) = manifest::accepted(
        collected,
        Entry::Module { name, path },
        unsupported,
        directory,
    ) {
        assert(after.modules.drop_last() =~= collected.modules);
    }
}

/// A source file of the manifest is accepted exactly if its identity did not occur before. It is
/// kept with its length.
pub proof fn manifest_sources_are_checked(
    collected: Collected,
    id: u64,
    length: u64,
    unsupported: bool,
    directory: Seq<Part>,
)
    ensures
        manifest::accepted(collected, Entry::SourceFile { id, length }, unsupported, directory)
            is Ok <==> forall|i: int|
            0 <= i < collected.artifacts.len() ==> (#[trigger] collected.artifacts[i]).id != id,
        manifest::accepted(collected, Entry::SourceFile { id, length }, unsupported, directory)
            matches Ok(after) ==> {
            &&& after.groups == collected.groups
            &&& after.modules == collected.modules
            &&& after.artifacts.drop_last() == collected.artifacts
            &&& after.artifacts.last() == (ArtifactRecord {
                id,
                kind: ArtifactKind::Source,
                length,
            })
        },
{
    if let Ok(after) = manifest::accepted(
        collected,
        Entry::SourceFile { id, length },
        unsupported,
        directory,
    ) {
        assert(after.artifacts.drop_last() =~= collected.artifacts);
    }
}

/// Two linkages, two visibilities or two optimization levels with the same name are the same.
pub proof fn names_are_unambiguous(
    linkages: (Linkage, Linkage),
    visibilities: (Visibility, Visibility),
    levels: (OptLevel, OptLevel),
)
    ensures
        writer::linkage_text(linkages.0) == writer::linkage_text(linkages.1) ==> linkages.0
            == linkages.1,
        writer::visibility_text(visibilities.0) == writer::visibility_text(visibilities.1)
            ==> visibilities.0 == visibilities.1,
        writer::optimization_text(levels.0) == writer::optimization_text(levels.1) ==> levels.0
            == levels.1,
{
    reveal_strlit("AvailableExternally");
    reveal_strlit("Common");
    reveal_strlit("ExternalWeak");
    reveal_strlit("External");
    reveal_strlit("Internal");
    reveal_strlit("LinkOnceAny");
    reveal_strlit("LinkOnceODR");
    reveal_strlit("WeakAny");
    reveal_strlit("WeakODR");
    reveal_strlit("Default");
    reveal_strlit("Hidden");
    reveal_strlit("Protected");
    reveal_strlit("0");
    reveal_strlit("1");
    reveal_strlit("2");
    reveal_strlit("3");
    reveal_strlit("s");
    reveal_strlit("z");
    let l = writer::linkage_text(linkages.0);
    let r = writer::linkage_text(linkages.1);
    assert(l == r ==> l.len() == r.len() && l[0] == r[0] && l[4] == r[4] && l[l.len() - 1]
        == r[r.len() - 1]);
    let l = writer::visibility_text(visibilities.0);
    let r = writer::visibility_text(visibilities.1);
    assert(l == r ==> l[0] == r[0]);
    let l = writer::optimization_text(levels.0);
    let r = writer::optimization_text(levels.1);
    assert(l == r ==> l[0] == r[0]);
}

/// The version that follows a prefix is that of the first line with the prefix.
pub proof fn versions_follow_their_prefix(lines: Seq<Seq<char>>, prefix: Seq<char>)
    ensures
        match artifacts::first_behind(lines, prefix) {
            Some(version) => exists|i: int|
                0 <= i < lines.len() && #[trigger] lines[i] == prefix + version && forall|j: int|
                    0 <= j < i ==> !prefix.is_prefix_of(#[trigger] lines[j]),
            None => forall|j: int| 0 <= j < lines.len() ==> !prefix.is_prefix_of(#[trigger] lines[j]),
        },
    decreases lines.len(),
{
    if lines.len() > 0 {
        let line = lines[0];
        let tail = lines.skip(1);
        versions_follow_their_prefix(tail, prefix);
        if prefix.is_prefix_of(line) {
            let version = line.skip(prefix.len() as int);
            assert(line =~= prefix + version) by {
                assert(line.subrange(0, prefix.len() as int) == prefix);
                assert(line =~= line.subrange(0, prefix.len() as int) + version);
            }
            assert(lines[0] == prefix + version);
        } else {
            match artifacts::first_behind(tail, prefix) {
                Some(version) => {
                    let i = choose|i: int|
                        0 <= i < tail.len() && #[trigger] tail[i] == prefix + version
                            && forall|j: int|
                            0 <= j < i ==> !prefix.is_prefix_of(#[trigger] tail[j]);
                    assert(lines[i + 1] == prefix + version);
                    assert forall|j: int| 0 <= j < i + 1 implies !prefix.is_prefix_of(
                        #[trigger] lines[j],
                    ) by {
                        if j > 0 {
                            assert(lines[j] == tail[j - 1]);
                        }
                    }
                },
                None => {
                    assert forall|j: int| 0 <= j < lines.len() implies !prefix.is_prefix_of(
                        #[trigger] lines[j],
                    ) by {
                        if j > 0 {
                            assert(lines[j] == tail[j - 1]);
                        }
                    }
                },
            }
        }
    }
}

/// The LLVM version of a compiler stands behind `LLVM version: ` in its report, that of a tool
/// behind `LLVM version ` on a line of its own. A suffix behind a hyphen does not count for a tool.
pub proof fn llvm_versions_are_reported(report: Seq<char>, version: Seq<char>, suffix: Seq<char>)
    requires
        !version.contains('-'),
    ensures
        artifacts::compiler_llvm_version(report) == artifacts::first_behind(
            chars::lines_of(report),
            "LLVM version: "@,
        ),
        ({
            let lines = chars::lines_of(report).map_values(
                |line: Seq<char>| chars::trimmed(line),
            );
            let found = artifacts::first_behind(lines, "LLVM version "@);
            &&& found is None <==> artifacts::tool_version(report) is None
            &&& found == Some(version) ==> artifacts::tool_version(report) == Some(version)
            &&& found == Some(version + ("-"@ + suffix)) ==> artifacts::tool_version(report)
                == Some(version)
        }),
{
    reveal_strlit("-");
    let dash = "-"@;
    chars::contained_patterns_stand_somewhere(version, dash);
    if chars::has(version, dash) {
        let index = choose|index: int|
            0 <= index && index + dash.len() <= version.len() && #[trigger] version.subrange(
                index,
                index + dash.len(),
            ) == dash;
        assert(version.subrange(index, index + 1)[0] == version[index]);
        assert(version.contains(version[index]));
    }
    let whole = version + (dash + suffix);
    let at = version.len() as int;
    assert(whole.subrange(at, at + 1) =~= dash);
    chars::first_matches_come_first(whole, dash, at);
    chars::first_match_bounds(whole, dash);
    let first = chars::first_match(whole, dash)->0;
    if first < at {
        assert(whole.subrange(first, first + 1)[0] == version[first]);
        assert(version.contains(version[first]));
    }
    assert(whole.take(at) =~= version);
}

/// A materialization starts with the instances, the sources and the configuration of the manifest,
/// and without any module. The compiler's version is asked first, if the backend is LLVM.
pub proof fn materializations_keep_the_configuration(data: manifest::ManifestData)
    ensures
        ({
            let start = artifacts::beginning(data);
            &&& start.instances == data.collected.groups
            &&& start.artifacts == data.collected.artifacts
            &&& start.expected == data.collected.modules
            &&& start.modules.len() == 0
            &&& start.unsupported == data.configuration.unsupported
            &&& start.provenance.backend == data.configuration.backend
            &&& start.provenance.llvm_version is None
            &&& start.provenance.target == data.configuration.target
            &&& start.provenance.optimization == data.configuration.optimization
            &&& start.provenance.lto == data.configuration.lto
            &&& start.provenance.incremental == data.configuration.incremental
            &&& start.provenance.linker_plugin_lto == data.configuration.linker_plugin
            &&& start.provenance.codegen_units == data.configuration.codegen_units
            &&& start.provenance.recipe_revision == 1
            &&& data.configuration.backend == "llvm"@ ==> (artifacts::begun(data) matches Ok(begun)
                && begun.step == CollectStep::Version)
        }),
{
}

/// A disassembler is used only if it reports the same LLVM version as the compiler. New artifacts
/// then get identities behind all that exist.
pub proof fn disassemblers_match_the_compiler(
    compiler: toolchain::CompilerIdentityData,
    data: MaterializationData,
    launched: Result<crate::process::ProcessOutput, SourceError>,
)
    ensures
        artifacts::after_tool(compiler, data, launched) matches Ok(after) ==> {
            &&& launched matches Ok(output) && output.report.success && artifacts::tool_version(
                crate::text::lossy(output.stdout@),
            ) == data.provenance.llvm_version
            &&& after.provenance == data.provenance
            &&& after.artifacts == data.artifacts
            &&& after.modules == data.modules
            &&& forall|i: int|
                0 <= i < data.artifacts.len() ==> (#[trigger] data.artifacts[i]).id < after.next_id
        },
{
    highest_identities(data.artifacts);
}

proof fn highest_identities(list: Seq<ArtifactRecord>)
    ensures
        artifacts::highest(list) is None <==> list.len() == 0,
        artifacts::highest(list) matches Some(id) ==> forall|i: int|
            0 <= i < list.len() ==> (#[trigger] list[i]).id <= id,
    decreases list.len(),
{
    if list.len() > 0 {
        let start = list.drop_last();
        highest_identities(start);
        assert forall|i: int| 0 <= i < list.len() implies (#[trigger] list[i]).id
            <= artifacts::highest(list)->0 by {
            if i < start.len() {
                assert(start[i] == list[i]);
            }
        }
    }
}

/// Bitcode is disassembled exactly if it is a regular file that is not empty and an identity is
/// free.
pub proof fn bitcode_is_checked(
    data: MaterializationData,
    index: usize,
    found: Result<FileFacts, SourceError>,
)
    ensures
        artifacts::after_bitcode(data, index, found) is Ok <==> (found matches Ok(facts)
            && facts.is_file && facts.length > 0 && data.next_id < u64::MAX),
        artifacts::after_bitcode(data, index, found) matches Ok(after) ==> after == (
        MaterializationData { step: CollectStep::Disassemble(index), ..data }),
{
}

/// A source snapshot is accepted exactly if it is a regular file of the recorded length.
pub proof fn snapshots_are_checked(
    directory: Seq<char>,
    data: MaterializationData,
    index: int,
    found: Result<FileFacts, SourceError>,
)
    requires
        0 <= index,
        index + 1 < data.artifacts.len(),
    ensures
        artifacts::after_snapshot(directory, data, index, found) is Ok <==> (found matches Ok(facts)
            && facts.is_file && facts.length == data.artifacts[index].length),
{
}

/// A module is recorded with the name that was expected, the stage that its LTO mode means, the
/// definitions of its text, and an artifact of its own.
pub proof fn modules_are_recorded(
    data: MaterializationData,
    index: int,
    length: u64,
    definitions: Seq<crate::records::Definition>,
)
    requires
        0 <= index < data.expected.len(),
        data.next_id < u64::MAX,
        data.provenance.lto == LlvmLto::Off || data.provenance.lto == LlvmLto::LocalThin,
    ensures
        ({
            let after = artifacts::with_module(data, index, length, definitions);
            let module = after.modules.last();
            &&& after.modules.drop_last() == data.modules
            &&& module.name == data.expected[index].name
            &&& module.definitions == definitions
            &&& module.artifact == data.next_id
            &&& data.provenance.lto == LlvmLto::Off ==> module.stage == LlvmStage::NoLtoOptimized
            &&& data.provenance.lto == LlvmLto::LocalThin ==> module.stage
                == LlvmStage::LocalThinLtoPostPassManager
            &&& after.artifacts.drop_last() == data.artifacts
            &&& after.artifacts.last() == (ArtifactRecord {
                id: data.next_id,
                kind: ArtifactKind::Llvm,
                length,
            })
            &&& after.next_id == data.next_id + 1
        }),
{
    let after = artifacts::with_module(data, index, length, definitions);
    assert(after.modules.drop_last() =~= data.modules);
    assert(after.artifacts.drop_last() =~= data.artifacts);
}

/// The work of a materialization: the compiler and the disassembler report their versions, bitcode
/// is disassembled into the next artifact, and that artifact is read.
pub proof fn materializations_do_their_work(
    compiler: toolchain::CompilerIdentityData,
    directory: Seq<char>,
    data: MaterializationData,
)
    ensures
        ({
            let tool = paths::joined(
                paths::joined(paths::joined(compiler.sysroot, "lib/rustlib"@), compiler.host),
                "bin/llvm-dis"@,
            );
            let next = paths::joined(
                directory,
                "artifact-"@ + crate::text::hex_digits(data.next_id as nat, 16),
            );
            let work = artifacts::work_of(compiler, directory, data);
            match data.step {
                CollectStep::Version => work == artifacts::CollectWorkData::Run {
                    program: compiler.rustc,
                    argument: "-vV"@,
                },
                CollectStep::ToolVersion => work == artifacts::CollectWorkData::Run {
                    program: tool,
                    argument: "--version"@,
                },
                CollectStep::FindTool => work == artifacts::CollectWorkData::Find { path: tool },
                CollectStep::Bitcode(index) => work == artifacts::CollectWorkData::Inspect {
                    path: data.expected[index as int].path,
                },
                CollectStep::Disassemble(index) => work
                    == artifacts::CollectWorkData::Disassemble {
                    program: tool,
                    input: data.expected[index as int].path,
                    output: next,
                },
                CollectStep::Text(_) => work == artifacts::CollectWorkData::Inspect { path: next },
                CollectStep::Open(_, _) => work == artifacts::CollectWorkData::Open { path: next },
                CollectStep::Done => work == artifacts::CollectWorkData::Finished,
                CollectStep::Snapshot(index) => work == artifacts::CollectWorkData::Inspect {
                    path: paths::joined(
                        directory,
                        "artifact-"@ + crate::text::hex_digits(
                            data.artifacts[index as int].id as nat,
                            16,
                        ),
                    ),
                },
            }
        }),
{
}

/// Two artifacts with different identities have different names.
pub proof fn artifacts_have_their_own_name(left: u64, right: u64)
    ensures
        artifacts::artifact_name(left) == artifacts::artifact_name(right) ==> left == right,
        artifacts::artifact_name(left).len() == "artifact-"@.len() + 16,
{
    crate::text_laws::hexadecimal_digits_stand_for_their_number(left, right);
    let front = "artifact-"@;
    let l = crate::text::hex_digits(left as nat, 16);
    let r = crate::text::hex_digits(right as nat, 16);
    crate::text_laws::hexadecimal_digits_stand_for_their_number(right, left);
    assert((front + l).skip(front.len() as int) =~= l);
    assert((front + r).skip(front.len() as int) =~= r);
}

/// The evidence of a materialization is its instances, its artifacts and its provenance. LLVM is
/// collected exactly if the configuration supports it, and its modules are then all there.
pub proof fn evidence_is_what_was_materialized(data: MaterializationData)
    ensures
        ({
            let evidence = artifacts::evidence_of(data);
            &&& evidence.instances == data.instances
            &&& evidence.artifacts == data.artifacts
            &&& evidence.provenance == data.provenance
            &&& match data.unsupported {
                Some(reason) => evidence.llvm == artifacts::LlvmCollectionData::NotCaptured(reason),
                None => evidence.llvm == artifacts::LlvmCollectionData::Collected(data.modules),
            }
        }),
{
}

/// A collected build holds the prepared record and compiler, the evidence, and an analysis that ties
/// the request, the token and the rebuilt artifact together.
pub proof fn collections_hold_their_inputs(
    build: PreparedBuildData,
    token: Seq<char>,
    artifact: super::metadata::ArtifactData,
    evidence: artifacts::EvidenceData,
)
    ensures
        ({
            let made = super::collection::collected(build, token, artifact, evidence);
            &&& made.build == build.build
            &&& made.compiler == build.compiler
            &&& made.evidence == evidence
            &&& made.analysis.request_key == build.request_key
            &&& made.analysis.token == token
            &&& made.analysis.artifact == artifact
        }),
{
}

/// The identity of a build covers its record, its package and target, and both output directories.
/// Without a directory for intermediate output, that for final output counts for both.
pub proof fn identities_cover_the_outputs(
    build: prepared::BuildRecordData,
    package: SelectedPackageData,
    target_directory: Seq<char>,
    build_directory: Option<Seq<char>>,
)
    ensures
        ({
            let made = prepared::identity_of(build, package, target_directory, build_directory);
            &&& made.build == build
            &&& made.package == package.id
            &&& made.target == package.target
            &&& made.target_directory == target_directory
            &&& build_directory is None ==> made.build_directory == target_directory
            &&& build_directory matches Some(directory) ==> made.build_directory == directory
        }),
{
}

} // verus!

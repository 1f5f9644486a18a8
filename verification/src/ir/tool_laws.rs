//! What the programs, paths and variables of a capture are.

use super::cargo_output;
use super::cargo_output::{EventData, MessageData, MessageFacts};
use super::compile;
use super::compile::{CaptureInputsData, FreshnessData};
use super::driver;
use super::driver::{EnvironmentChangeData, RustcDriverData};
use super::error::{Error, ErrorData, Failure};
use super::remark_files::DirectoryEntry;
use super::request::BuildRequestData;
use super::toolchain;
use super::toolchain::{
    CargoConfigurationData, CargoContextData, CompilerFactsData, ConfiguredProgramData,
    InspectionData, StepData, ToolEnvironmentData, ToolchainData,
};
use super::wrapper;
use super::wrapper::{WrapperCommandData, WrapperProblem};
use crate::chars;
use crate::paths;
use crate::sorting::PathItem;
use crate::source::SourceError;
use vstd::prelude::*;

verus! {

/// A program from the environment is used as it is written if it is absolute or a bare name, and
/// below the workspace otherwise. It wins over a configured one. An empty wrapper variable switches
/// the configured wrapper off.
pub proof fn environment_variables_win(
    root: Seq<char>,
    environment: ToolEnvironmentData,
    configuration: CargoConfigurationData,
)
    ensures
        ({
            let context = toolchain::context_of(root, environment, configuration);
            &&& context.workspace_root == root
            &&& match environment.cargo {
                Some(cargo) => cargo.len() > 0 ==> context.cargo == cargo,
                None => context.cargo == "cargo"@,
            }
            &&& (environment.cargo matches Some(cargo) && cargo.len() == 0) ==> context.cargo
                == "cargo"@
            &&& match (environment.rustc, configuration.rustc) {
                (Some(rustc), _) => context.rustc == (if !rustc.contains('/') || rustc[0] == '/' {
                    rustc
                } else {
                    paths::joined(root, rustc)
                }),
                (None, Some(program)) => context.rustc == program.value,
                (None, None) => context.rustc == "rustc"@,
            }
            &&& wrapper_follows(
                root,
                environment.rustc_wrapper,
                configuration.global_wrapper,
                context.global_wrapper,
            )
            &&& wrapper_follows(
                root,
                environment.rustc_workspace_wrapper,
                configuration.workspace_wrapper,
                context.workspace_wrapper,
            )
        }),
{
    if let Some(rustc) = environment.rustc {
        assert(rustc.contains('/') ==> rustc.len() > 0);
        if rustc.len() > 0 && rustc[0] == '/' {
            assert(rustc.contains('/'));
        }
    }
    if let Some(value) = environment.rustc_wrapper {
        if value.len() > 0 && value[0] == '/' {
            assert(value.contains('/'));
        }
    }
    if let Some(value) = environment.rustc_workspace_wrapper {
        if value.len() > 0 && value[0] == '/' {
            assert(value.contains('/'));
        }
    }
}

/// A wrapper is the one that a variable and a configured program lead to.
pub open spec fn wrapper_follows(
    root: Seq<char>,
    variable: Option<Seq<char>>,
    configured: Option<ConfiguredProgramData>,
    effective: Option<Seq<char>>,
) -> bool {
    match (variable, configured) {
        (Some(value), _) => effective == (if value.len() == 0 {
            None
        } else if !value.contains('/') || value[0] == '/' {
            Some(value)
        } else {
            Some(paths::joined(root, value))
        }),
        (None, Some(program)) => effective == Some(program.value),
        (None, None) => effective is None,
    }
}

/// A configured value sets the one program that its field names, and leaves the other two as they
/// are. A value that cannot be decoded sets nothing.
pub proof fn fields_set_their_program(
    configuration: CargoConfigurationData,
    field: Seq<char>,
    decoded: Result<Seq<char>, Seq<char>>,
    origin: Seq<char>,
    root: Seq<char>,
)
    requires
        field == "build.rustc"@ || field == "build.rustc-wrapper"@ || field
            == "build.rustc-workspace-wrapper"@,
    ensures
        toolchain::with_value(configuration, field, decoded, origin, root) is Ok <==> decoded is Ok,
        toolchain::with_value(configuration, field, decoded, origin, root) matches Ok(after) ==> {
            let program = Some(
                ConfiguredProgramData {
                    value: toolchain::resolved(decoded->Ok_0, toolchain::base_of(origin, root)),
                },
            );
            &&& after.rustc == (if field == "build.rustc"@ {
                program
            } else {
                configuration.rustc
            })
            &&& after.global_wrapper == (if field == "build.rustc-wrapper"@ {
                program
            } else {
                configuration.global_wrapper
            })
            &&& after.workspace_wrapper == (if field == "build.rustc-workspace-wrapper"@ {
                program
            } else {
                configuration.workspace_wrapper
            })
        },
{
    reveal_strlit("build.rustc");
    reveal_strlit("build.rustc-wrapper");
    reveal_strlit("build.rustc-workspace-wrapper");
    assert("build.rustc"@.len() == 11 && "build.rustc-wrapper"@.len() == 19
        && "build.rustc-workspace-wrapper"@.len() == 29);
}

/// A line of the configuration that names none of the three programs changes nothing, and a line
/// without an assignment neither.
pub proof fn other_fields_change_nothing(
    configuration: CargoConfigurationData,
    line: Seq<char>,
    root: Seq<char>,
)
    ensures
        (chars::split_first(line, " = "@) matches Some((field, _)) ==> field != "build.rustc"@
            && field != "build.rustc-wrapper"@ && field != "build.rustc-workspace-wrapper"@)
            ==> toolchain::with_line(configuration, line, root) == Ok::<
            CargoConfigurationData,
            ErrorData,
        >(configuration),
        chars::split_first(line, " = "@) matches Some((field, value)) ==> (field == "build.rustc"@
            || field == "build.rustc-wrapper"@ || field == "build.rustc-workspace-wrapper"@) && (
        toolchain::with_line(configuration, line, root) is Ok) ==> chars::split_last(
            value,
            " # "@,
        ) is Some,
{
}

/// A field of the compiler's report is what follows its name and a colon on the first line that
/// starts with them, without the surrounding blanks. A missing or blank value is no field.
pub proof fn report_fields_are_found(lines: Seq<Seq<char>>, name: Seq<char>)
    ensures
        match toolchain::field_value(lines, name) {
            Some(value) => exists|i: int|
                0 <= i < lines.len() && #[trigger] lines[i] == name + ":"@ + value && forall|j: int|
                    0 <= j < i ==> !(name + ":"@).is_prefix_of(#[trigger] lines[j]),
            None => forall|j: int|
                0 <= j < lines.len() ==> !(name + ":"@).is_prefix_of(#[trigger] lines[j]),
        },
    decreases lines.len(),
{
    reveal_strlit(":");
    let mark = name + ":"@;
    if lines.len() > 0 {
        let line = lines[0];
        let tail = lines.skip(1);
        report_fields_are_found(tail, name);
        marks_are_prefixes(line, name);
        if mark.is_prefix_of(line) {
            let value = line.skip(mark.len() as int);
            assert(line =~= mark + value);
            assert(line.skip(name.len() as int).skip(1) =~= value);
            assert(lines[0] == mark + value);
        } else {
            match toolchain::field_value(tail, name) {
                Some(value) => {
                    let i = choose|i: int|
                        0 <= i < tail.len() && #[trigger] tail[i] == name + ":"@ + value
                            && forall|j: int|
                            0 <= j < i ==> !(name + ":"@).is_prefix_of(#[trigger] tail[j]);
                    assert(lines[i + 1] == name + ":"@ + value);
                    assert forall|j: int| 0 <= j < i + 1 implies !(name + ":"@).is_prefix_of(
                        #[trigger] lines[j],
                    ) by {
                        if j > 0 {
                            assert(lines[j] == tail[j - 1]);
                        }
                    }
                },
                None => {
                    assert forall|j: int| 0 <= j < lines.len() implies !(name
                        + ":"@).is_prefix_of(#[trigger] lines[j]) by {
                        if j > 0 {
                            assert(lines[j] == tail[j - 1]);
                        }
                    }
                },
            }
        }
    }
}

proof fn marks_are_prefixes(line: Seq<char>, name: Seq<char>)
    ensures
        (name + ":"@).is_prefix_of(line) <==> {
            &&& name.is_prefix_of(line)
            &&& ":"@.is_prefix_of(line.skip(name.len() as int))
        },
{
    reveal_strlit(":");
    let mark = name + ":"@;
    if mark.is_prefix_of(line) {
        assert(line.subrange(0, mark.len() as int) =~= mark);
        assert(line.subrange(0, name.len() as int) =~= name) by {
            assert forall|i: int| 0 <= i < name.len() implies line[i] == name[i] by {
                assert(line.subrange(0, mark.len() as int)[i] == mark[i]);
            }
        }
        assert(line.subrange(0, mark.len() as int)[name.len() as int] == mark[name.len() as int]);
        assert(line.skip(name.len() as int).subrange(0, 1) =~= ":"@);
    }
    if name.is_prefix_of(line) && ":"@.is_prefix_of(line.skip(name.len() as int)) {
        let rest = line.skip(name.len() as int);
        assert(rest.subrange(0, 1)[0] == ':');
        assert(line.subrange(0, mark.len() as int) =~= mark) by {
            assert forall|i: int| 0 <= i < mark.len() implies line[i] == mark[i] by {
                if i < name.len() {
                    assert(line.subrange(0, name.len() as int)[i] == name[i]);
                } else {
                    assert(rest[0] == line[name.len() as int]);
                }
            }
        }
    }
}

/// The facts of a compiler are the fields `release`, `commit-hash`, `host` and `LLVM version` of
/// its report. The first that is missing is named.
pub proof fn compilers_report_their_facts(verbose: Seq<char>)
    ensures
        match toolchain::facts_of(verbose) {
            Ok(facts) => {
                &&& toolchain::field_of(verbose, "release"@) == Some(facts.release)
                &&& toolchain::field_of(verbose, "commit-hash"@) == Some(facts.commit_hash)
                &&& toolchain::field_of(verbose, "host"@) == Some(facts.host)
                &&& toolchain::field_of(verbose, "LLVM version"@) == Some(facts.llvm_version)
            },
            Err(error) => {
                let release = toolchain::field_of(verbose, "release"@) is Some;
                let commit = toolchain::field_of(verbose, "commit-hash"@) is Some;
                let host = toolchain::field_of(verbose, "host"@) is Some;
                let llvm = toolchain::field_of(verbose, "LLVM version"@) is Some;
                error matches Failure::MissingToolchainField { field } && field == (if !release {
                    "release"@
                } else if !commit {
                    "commit-hash"@
                } else if !host {
                    "host"@
                } else {
                    "LLVM version"@
                }) && !(release && commit && host && llvm)
            },
        },
{
}

/// The private libraries and the disassembler of a toolchain lie in the directory of its host. The
/// other fields are the compiler's own.
pub proof fn toolchains_are_laid_out(
    rustc: Seq<char>,
    facts: CompilerFactsData,
    sysroot: Seq<char>,
)
    ensures
        ({
            let made = toolchain::toolchain_of(rustc, facts, sysroot);
            let library = paths::joined(sysroot, "lib"@);
            let host = paths::joined(paths::joined(library, "rustlib"@), facts.host);
            &&& made.rustc == rustc
            &&& made.release == facts.release
            &&& made.commit_hash == facts.commit_hash
            &&& made.host == facts.host
            &&& made.llvm_version == facts.llvm_version
            &&& made.sysroot == sysroot
            &&& made.rustc_private_lib == paths::joined(host, "lib"@)
            &&& made.llvm_dis == paths::joined(paths::joined(host, "bin"@), "llvm-dis"@)
        }),
{
}

/// Only the programs that Cargo is asked for are run: the configuration with unstable access, and
/// the version and the sysroot of the effective compiler without it.
pub proof fn inspections_ask_the_tools(
    environment: ToolEnvironmentData,
    cargo: CargoContextData,
    facts: CompilerFactsData,
    made: ToolchainData,
    reported: Seq<char>,
)
    ensures
        toolchain::wanted_step(environment, InspectionData::Configuring) matches StepData::Run {
            program,
            arguments,
            bootstrap,
        } && bootstrap && program == toolchain::cargo_program(environment.cargo) && arguments
            == seq!["-Z"@, "unstable-options"@, "config"@, "get"@, "build"@, "--show-origin"@],
        toolchain::wanted_step(environment, InspectionData::Versioning(cargo))
            matches StepData::Run { program, arguments, bootstrap } && !bootstrap && program
            == cargo.rustc && arguments == seq!["-vV"@],
        toolchain::wanted_step(environment, InspectionData::Locating(cargo, facts))
            matches StepData::Run { program, arguments, bootstrap } && !bootstrap && program
            == cargo.rustc && arguments == seq!["--print"@, "sysroot"@],
        toolchain::wanted_step(environment, InspectionData::Resolving(cargo, facts, reported))
            == StepData::Resolve(reported),
        toolchain::wanted_step(environment, InspectionData::Testing(cargo, made))
            == StepData::Find(made.llvm_dis),
{
}

/// A toolchain is accepted exactly if its disassembler exists, and then as it is. Otherwise the
/// missing component is named.
pub proof fn disassemblers_are_required(made: ToolchainData, present: bool)
    ensures
        present ==> toolchain::complete_toolchain(made, present) == Ok::<
            ToolchainData,
            ErrorData,
        >(made),
        !present ==> (toolchain::complete_toolchain(made, present) matches Err(error) && error
            matches Failure::MissingLlvmDis { release, commit_hash, path, install_command }
            && release == made.release && commit_hash == made.commit_hash && path == made.llvm_dis
            && install_command == (match made.rustup_toolchain {
            Some(name) => Some("rustup component add --toolchain "@ + name + " "@ + "llvm-tools"@),
            None => None,
        })),
{
}

/// The driver is put in front of the original wrapper through variables of fixed names. Variables
/// that an earlier run may have left are removed.
pub proof fn drivers_are_announced(
    made: RustcDriverData,
    directory: Seq<char>,
    manifest: Seq<char>,
    commit: Seq<char>,
)
    ensures
        ({
            let changes = driver::driver_environment(made, directory, manifest, commit);
            &&& changes.len() == 9
            &&& changes[0] == EnvironmentChangeData::Remove { name: "RUSTC_BOOTSTRAP"@ }
            &&& changes[1] == EnvironmentChangeData::Assign {
                name: "RUSTC_WRAPPER"@,
                value: made.executable,
            }
            &&& changes[2] == EnvironmentChangeData::Assign {
                name: "OPTIC_RUSTC_WRAPPER_ACTIVE"@,
                value: "1"@,
            }
            &&& changes[3] == EnvironmentChangeData::Assign {
                name: "OPTIC_SELECTED_TEMPS_DIR"@,
                value: directory,
            }
            &&& changes[4] == EnvironmentChangeData::Assign {
                name: "OPTIC_IDENTITY_MANIFEST"@,
                value: manifest,
            }
            &&& changes[5] == EnvironmentChangeData::Assign {
                name: "OPTIC_RUSTC_COMMIT"@,
                value: commit,
            }
            &&& changes[6] == EnvironmentChangeData::Remove { name: "OPTIC_RUSTC_DRIVER_INNER"@ }
            &&& changes[7] == (match made.original_global_wrapper {
                Some(value) => EnvironmentChangeData::Assign {
                    name: "OPTIC_ORIGINAL_RUSTC_WRAPPER"@,
                    value,
                },
                None => EnvironmentChangeData::Remove { name: "OPTIC_ORIGINAL_RUSTC_WRAPPER"@ },
            })
            &&& changes[8] == (match made.workspace_wrapper {
                Some(_) => EnvironmentChangeData::Assign {
                    name: "OPTIC_HAS_WORKSPACE_WRAPPER"@,
                    value: "1"@,
                },
                None => EnvironmentChangeData::Remove { name: "OPTIC_HAS_WORKSPACE_WRAPPER"@ },
            })
        }),
{
}

/// The chain of wrappers starts with the driver. The original wrapper and then the workspace
/// wrapper follow where there are any, and both are those of the context.
pub proof fn chains_keep_the_wrappers(executable: Seq<char>, cargo: CargoContextData)
    ensures
        ({
            let made = driver::composed(executable, cargo);
            let chain = driver::chain_of(made);
            &&& chain[0] == executable
            &&& match (cargo.global_wrapper, cargo.workspace_wrapper) {
                (None, None) => chain.len() == 1,
                (Some(wrapper), None) => chain == seq![executable, wrapper],
                (None, Some(wrapper)) => chain == seq![executable, wrapper],
                (Some(global), Some(workspace)) => chain == seq![executable, global, workspace],
            }
        }),
{
    let chain = driver::chain_of(driver::composed(executable, cargo));
    match (cargo.global_wrapper, cargo.workspace_wrapper) {
        (None, None) => {},
        (Some(wrapper), None) => {
            assert(chain =~= seq![executable, wrapper]);
        },
        (None, Some(wrapper)) => {
            assert(chain =~= seq![executable, wrapper]);
        },
        (Some(global), Some(workspace)) => {
            assert(chain =~= seq![executable, global, workspace]);
        },
    }
}

/// The compiler's own libraries are there exactly if some entry, before the first that cannot be
/// read, has a name that starts with `librustc_middle-` and ends in `.rlib` or `.rmeta`.
pub proof fn compiler_libraries_are_recognized(
    made: ToolchainData,
    entries: Seq<Result<String, SourceError>>,
)
    ensures
        driver::entries_verdict(made, entries) is Ok <==> exists|i: int|
            0 <= i < entries.len() && (#[trigger] entries[i] matches Ok(name) && "librustc_middle-"@.is_prefix_of(name@) && (".rlib"@.is_suffix_of(
                name@,
            ) || ".rmeta"@.is_suffix_of(name@))) && forall|j: int|
                0 <= j < i ==> #[trigger] entries[j] is Ok,
    decreases entries.len(),
{
    if entries.len() > 0 {
        let tail = entries.skip(1);
        compiler_libraries_are_recognized(made, tail);
        if driver::entries_verdict(made, entries) is Ok {
            let first = entries[0]->Ok_0;
            if "librustc_middle-"@.is_prefix_of(first@) && (".rlib"@.is_suffix_of(first@)
                || ".rmeta"@.is_suffix_of(first@)) {
                assert(entries[0] is Ok);
            } else {
                let i = choose|i: int|
                    0 <= i < tail.len() && (#[trigger] tail[i] matches Ok(name) && "librustc_middle-"@.is_prefix_of(name@) && (".rlib"@.is_suffix_of(
                        name@,
                    ) || ".rmeta"@.is_suffix_of(name@))) && forall|j: int|
                        0 <= j < i ==> #[trigger] tail[j] is Ok;
                assert(entries[i + 1] == tail[i]);
                assert forall|j: int| 0 <= j < i + 1 implies #[trigger] entries[j] is Ok by {
                    if j > 0 {
                        assert(tail[j - 1] == entries[j]);
                    }
                }
            }
        }
        assert forall|i: int|
            0 <= i < entries.len() && (#[trigger] entries[i] matches Ok(name) && "librustc_middle-"@.is_prefix_of(name@) && (".rlib"@.is_suffix_of(
                name@,
            ) || ".rmeta"@.is_suffix_of(name@))) && (forall|j: int|
                0 <= j < i ==> #[trigger] entries[j] is Ok) implies driver::entries_verdict(
            made,
            entries,
        ) is Ok by {
            if i > 0 {
                assert(entries[0] is Ok);
                assert(tail[i - 1] == entries[i]);
                assert forall|j: int| 0 <= j < i - 1 implies #[trigger] tail[j] is Ok by {
                    assert(tail[j] == entries[j + 1]);
                }
            }
        }
    }
}

/// The home of Cargo is its own variable, and `.cargo` in the user's home without it. Empty
/// variables count as unset, and without both there is an error.
pub proof fn cargo_homes_are_found(cargo_home: Option<Seq<char>>, home: Option<Seq<char>>)
    ensures
        ({
            let own = cargo_home matches Some(path) && path.len() > 0;
            let user = home matches Some(path) && path.len() > 0;
            &&& own ==> driver::home_of(cargo_home, home) == Ok::<Seq<char>, ErrorData>(
                cargo_home->0,
            )
            &&& !own && user ==> driver::home_of(cargo_home, home) == Ok::<Seq<char>, ErrorData>(
                paths::joined(home->0, ".cargo"@),
            )
            &&& !own && !user ==> driver::home_of(cargo_home, home) is Err
        }),
{
}

/// The cache of a driver lies below the home of Cargo, under the host, the revision and the
/// digests of the sysroot and of the driver's source, and under the protocol version.
pub proof fn caches_are_keyed(home: Seq<char>, made: ToolchainData, source: Seq<char>)
    ensures
        driver::cache_directory(home, made, source) == paths::below(
            home,
            seq![
                "optic"@,
                "drivers"@,
                made.host,
                made.commit_hash,
                crate::digests::blake3_digest(vstd::utf8::encode_utf8(made.sysroot)),
                crate::digests::blake3_digest(vstd::utf8::encode_utf8(source)),
                "3"@,
            ],
        ),
{
    let names = seq![
        "optic"@,
        "drivers"@,
        made.host,
        made.commit_hash,
        crate::digests::blake3_digest(vstd::utf8::encode_utf8(made.sysroot)),
        crate::digests::blake3_digest(vstd::utf8::encode_utf8(source)),
        "3"@,
    ];
    reveal_with_fuel(paths::below, 8);
    assert(names.drop_last().last() == names[5]);
    assert(names.drop_last().drop_last().last() == names[4]);
    assert(names.drop_last().drop_last().drop_last().last() == names[3]);
    assert(names.drop_last().drop_last().drop_last().drop_last().last() == names[2]);
    assert(names.drop_last().drop_last().drop_last().drop_last().drop_last().last() == names[1]);
    assert(names.drop_last().drop_last().drop_last().drop_last().drop_last().drop_last().last()
        == names[0]);
}

/// The driver is compiled from its source into a temporary file with fixed options.
pub proof fn drivers_are_compiled(directory: Seq<char>)
    ensures
        ({
            let plan = driver::plan_of(directory);
            &&& plan.directory == directory
            &&& plan.lock == paths::joined(directory, "build.lock"@)
            &&& plan.executable == paths::joined(directory, "optic-rustc-driver"@)
            &&& plan.source == paths::joined(directory, "driver.rs"@)
            &&& plan.temporary == paths::joined(directory, "optic-rustc-driver.tmp"@)
            &&& driver::driver_arguments(plan) == seq![
                paths::joined(directory, "driver.rs"@),
                "--crate-name"@,
                "optic_rustc_driver"@,
                "--edition=2024"@,
                "-D"@,
                "warnings"@,
                "-C"@,
                "prefer-dynamic"@,
                "-C"@,
                "rpath"@,
                "-o"@,
                paths::joined(directory, "optic-rustc-driver.tmp"@),
            ]
        }),
{
}

/// A driver answers for the protocol exactly if it ran successfully and printed `3`, with blanks
/// around it at most.
pub proof fn drivers_answer_with_the_version(
    launched: Result<crate::process::ProcessOutput, SourceError>,
)
    ensures
        driver::compatible(launched) <==> (launched matches Ok(output) && output.report.success
            && chars::trimmed(crate::text::lossy(output.stdout@)) == "3"@),
{
}

/// An invocation is intercepted exactly if, behind the compiler, `-Z` stands directly before the
/// argument for the directory of temporaries. It then runs inside the driver, which stands directly
/// before the compiler; any other invocation runs as it is. The original wrapper, where there is
/// one, runs either.
pub proof fn selected_invocations_enter_the_driver(
    arguments: Seq<Seq<char>>,
    has_workspace_wrapper: bool,
    directory: Seq<char>,
    executable: Seq<char>,
    original: Option<Seq<char>>,
)
    requires
        arguments.len() > 1,
    ensures
        ({
            let index: int = if has_workspace_wrapper {
                1
            } else {
                0
            };
            let selected = exists|i: int|
                index < i && i + 1 < arguments.len() && #[trigger] arguments[i] == "-Z"@
                    && arguments[i + 1] == "temps-dir="@ + directory;
            let given = if selected {
                arguments.take(index) + seq![executable] + arguments.skip(index)
            } else {
                arguments
            };
            wrapper::wrapped(
                arguments,
                has_workspace_wrapper,
                Some(directory),
                Ok(executable),
                original,
            ) matches Ok(command) && {
                &&& command.inner == selected
                &&& match original {
                    Some(program) => command.program == program && command.arguments == given,
                    None => seq![command.program] + command.arguments == given,
                }
            }
        }),
{
    let index: int = if has_workspace_wrapper {
        1
    } else {
        0
    };
    let inserted = wrapper::forwarded(arguments, index, true, executable);
    assert(inserted =~= arguments.take(index) + seq![executable] + arguments.skip(index));
    assert(seq![inserted[0]] + inserted.skip(1) =~= inserted);
    assert(seq![arguments[0]] + arguments.skip(1) =~= arguments);
}

/// An invocation without a compiler, or without the directory of temporaries, is refused.
pub proof fn incomplete_invocations_are_refused(
    arguments: Seq<Seq<char>>,
    has_workspace_wrapper: bool,
    directory: Option<Seq<char>>,
    executable: Result<Seq<char>, Seq<char>>,
    original: Option<Seq<char>>,
)
    ensures
        arguments.len() == 0 || (arguments.len() == 1 && has_workspace_wrapper) ==> wrapper::wrapped(
            arguments,
            has_workspace_wrapper,
            directory,
            executable,
            original,
        ) == Err::<WrapperCommandData, WrapperProblem<Seq<char>>>(WrapperProblem::NoCompiler),
        arguments.len() > 1 && directory is None ==> wrapper::wrapped(
            arguments,
            has_workspace_wrapper,
            directory,
            executable,
            original,
        ) == Err::<WrapperCommandData, WrapperProblem<Seq<char>>>(
            WrapperProblem::Unset { variable: "OPTIC_SELECTED_TEMPS_DIR"@ },
        ),
{
}

/// A capture directory is usable exactly if its listing succeeds and has no entry.
pub proof fn captures_need_an_empty_directory(
    path: Seq<char>,
    listed: Result<Option<Result<(), SourceError>>, SourceError>,
)
    ensures
        compile::directory_verdict(path, listed) is Ok <==> listed == Ok::<
            Option<Result<(), SourceError>>,
            SourceError,
        >(None),
        listed matches Ok(Some(Ok(()))) ==> compile::directory_verdict(path, listed) == Err::<
            (),
            ErrorData,
        >(Failure::AnalysisDirectoryNotEmpty { path }),
{
}

/// A capture has evidence exactly if the manifest exists and at least one bitcode file was listed.
pub proof fn evidence_is_manifest_and_bitcode(
    manifest: bool,
    bitcode: Result<Vec<PathItem>, Error>,
)
    ensures
        compile::evidence_verdict(manifest, bitcode) is Ok <==> manifest && (bitcode
            matches Ok(files) && files@.len() > 0),
{
}

/// The bitcode of a directory is the files whose names end in `.bc`, in the order of the listing.
pub proof fn bitcode_is_listed(entries: Seq<Result<DirectoryEntry, SourceError>>)
    ensures
        compile::bitcode_of(entries) is Ok <==> forall|i: int|
            0 <= i < entries.len() ==> #[trigger] entries[i] is Ok,
        compile::bitcode_of(entries) matches Ok(files) ==> files == entries.filter(
            |entry: Result<DirectoryEntry, SourceError>|
                entry matches Ok(entry) && entry.is_file && ".bc"@.is_suffix_of(entry.name@),
        ).map_values(
            |entry: Result<DirectoryEntry, SourceError>| PathItem { path: entry->Ok_0.path },
        ),
    decreases entries.len(),
{
    let keep = |entry: Result<DirectoryEntry, SourceError>|
        entry matches Ok(entry) && entry.is_file && ".bc"@.is_suffix_of(entry.name@);
    let item = |entry: Result<DirectoryEntry, SourceError>| PathItem { path: entry->Ok_0.path };
    reveal(Seq::filter);
    if entries.len() == 0 {
        assert(entries.filter(keep).map_values(item) =~= Seq::<PathItem>::empty());
    } else {
        let start = entries.drop_last();
        bitcode_is_listed(start);
        let before = start.filter(keep);
        assert(before.push(entries.last()).map_values(item) =~= before.map_values(item).push(
            item(entries.last()),
        ));
        if compile::bitcode_of(entries) is Ok {
            assert forall|i: int| 0 <= i < entries.len() implies #[trigger] entries[i] is Ok by {
                if i < start.len() {
                    assert(start[i] == entries[i]);
                }
            }
        } else if forall|i: int| 0 <= i < entries.len() ==> #[trigger] entries[i] is Ok {
            assert forall|i: int| 0 <= i < start.len() implies #[trigger] start[i] is Ok by {
                assert(start[i] == entries[i]);
            }
            assert(entries[entries.len() - 1] is Ok);
        }
    }
}

/// A freshness check is over at once, without a run of Cargo, if another toolchain is in effect:
/// the target is then not fresh.
pub proof fn other_toolchains_are_not_fresh(
    request: BuildRequestData,
    expected: ToolchainData,
    inputs: CaptureInputsData,
    state: FreshnessData,
    reply: compile::CompileReply,
)
    ensures
        (compile::freshness_after(request, expected, inputs, state, reply)
            matches FreshnessData::Preparing(_, made, _) && state is Inspecting) ==> (
        compile::freshness_after(request, expected, inputs, state, reply)->Preparing_1 == expected
            && inputs.driver.wrapper_active is None),
{
}

/// A line of Cargo output is forwarded exactly if it is no JSON message. Of the messages, only
/// those of the compiler with a rendered text, and those of artifacts with a freshness, are
/// reported.
pub proof fn messages_are_classified(line: Seq<u8>, facts: Option<MessageFacts>)
    ensures
        match facts {
            None => cargo_output::reports_of(line, facts) == seq![
                MessageData::Event(EventData::Stdout(line)),
            ],
            Some(facts) => {
                let reports = cargo_output::reports_of(line, Some(facts));
                &&& facts.reason == Some("compiler-message"@) && facts.rendered is Some ==> reports
                    == seq![
                    MessageData::Event(
                        EventData::CompilerDiagnostic(vstd::utf8::encode_utf8(facts.rendered->0)),
                    ),
                ]
                &&& facts.reason == Some("compiler-artifact"@) && facts.fresh is Some ==> reports
                    == seq![MessageData::Artifact(facts.fresh->0)]
                &&& !(facts.reason == Some("compiler-message"@) && facts.rendered is Some) && !(
                facts.reason == Some("compiler-artifact"@) && facts.fresh is Some) ==> reports.len()
                    == 0
            },
        },
{
    reveal_strlit("compiler-message");
    reveal_strlit("compiler-artifact");
    assert("compiler-message"@.len() != "compiler-artifact"@.len());
}

/// Of a JSON line the reason counts, the rendered text of a compiler message, and the freshness of
/// an artifact.
pub proof fn messages_are_read(line: Seq<u8>)
    ensures
        cargo_output::facts_of(line) is None <==> crate::json::json_text(line, "/reason"@) is None,
        cargo_output::facts_of(line) matches Some(facts) ==> {
            &&& crate::json::json_text(line, "/reason"@) == Some(facts.reason)
            &&& facts.reason == Some("compiler-message"@) && crate::json::json_text(
                line,
                "/message/rendered"@,
            ) is Some ==> Some(facts.rendered) == crate::json::json_text(
                line,
                "/message/rendered"@,
            )
            &&& facts.reason == Some("compiler-artifact"@) && crate::json::json_flag(
                line,
                "/fresh"@,
            ) is Some ==> Some(facts.fresh) == crate::json::json_flag(line, "/fresh"@)
        },
{
}

} // verus!

use cargo_optic::compiler::artifacts::{CollectReply, CollectWork, Materialization};
use cargo_optic::compiler::attempt::{start, EndedAttempt, StartReply};
use cargo_optic::compiler::driver::{
    cargo_home, validate_entry, EntryFile, EntryReply, EntryStep, FileFacts,
};
use cargo_optic::compiler::error::Error;
use cargo_optic::compiler::manifest::{CompilerManifest, Configuration, ExpectedModule};
use cargo_optic::compiler::metadata::{
    Artifact, ArtifactProfile, CargoArtifactRecord, Package, PackageTarget,
};
use cargo_optic::compiler::observation::CargoObservation;
use cargo_optic::compiler::prepared::{
    load_manifest, selected_target_marker, verified_stale_receipt, BuildRecord, CaptureAnalysis,
    PreparedBuild, ReceiptReply, ReceiptStep, TargetRecord,
};
use cargo_optic::compiler::protocol::header;
use cargo_optic::compiler::request::{CargoTarget, CargoTargetKind};
use cargo_optic::compiler::resolution::{resolve_package, resolve_target};
use cargo_optic::compiler::toolchain::{
    compiler_field, CompilerIdentity, CompilerInspection, CompilerReply, CompilerVariables,
};
use cargo_optic::compiler::workspace::{discover_workspace, plan_discovery};
use cargo_optic::process::{ExitReport, ProcessOutput};
use cargo_optic::records::{ArtifactKind, ArtifactRecord, LlvmLto};
use cargo_optic::source::{FailureKind, ShortReader, SourceError};

const ENVIRONMENT: &str = "invalid compiler environment: ";

fn message<T>(result: Result<T, Error>) -> String {
    match result {
        Ok(_) => panic!("the input is rejected"),
        Err(error) => error.message(),
    }
}

fn environment<T>(result: Result<T, Error>) -> String {
    let message = message(result);
    message.strip_prefix(ENVIRONMENT).unwrap_or_else(|| panic!("{message}")).to_owned()
}

fn failure(kind: FailureKind) -> SourceError {
    SourceError { kind, message: "fixture".to_owned() }
}

fn ran(success: bool, stdout: &str) -> Result<ProcessOutput, SourceError> {
    Ok(ProcessOutput {
        report: ExitReport { success, status: "exit status: 23".to_owned() },
        stdout: stdout.as_bytes().to_vec(),
        stderr: b"problem".to_vec(),
    })
}

fn file(length: u64) -> FileFacts {
    FileFacts { is_directory: false, is_file: true, is_symlink: false, length, mode: 0o700 }
}

fn directory() -> FileFacts {
    FileFacts { is_directory: true, is_file: false, is_symlink: false, length: 0, mode: 0o700 }
}

fn target() -> PackageTarget {
    PackageTarget {
        name: "fixture".to_owned(),
        kind: vec!["lib".to_owned()],
        crate_types: vec!["lib".to_owned()],
        required_features: Vec::new(),
        src_path: "/workspace/src/lib.rs".to_owned(),
        edition: "2024".to_owned(),
        doctest: true,
        test: true,
        doc: true,
    }
}

fn artifact(fresh: bool) -> Artifact {
    Artifact {
        package_id: "fixture".to_owned(),
        manifest_path: "/workspace/Cargo.toml".to_owned(),
        target: target(),
        profile: ArtifactProfile {
            opt_level: "2".to_owned(),
            debuginfo: "2".to_owned(),
            debug_assertions: false,
            overflow_checks: true,
            test: false,
        },
        features: Vec::new(),
        filenames: Vec::new(),
        executable: None,
        fresh,
    }
}

fn compiler() -> CompilerIdentity {
    CompilerIdentity {
        rustc: "/toolchain/bin/rustc".to_owned(),
        release: "1.98.1".to_owned(),
        commit_hash: "commit".to_owned(),
        host: "host".to_owned(),
        sysroot: "/toolchain".to_owned(),
    }
}

fn prepared() -> PreparedBuild {
    PreparedBuild {
        cargo: "cargo".to_owned(),
        invocation_directory: "/workspace".to_owned(),
        build: BuildRecord {
            package: "fixture".to_owned(),
            version: "0.1.0".to_owned(),
            target: TargetRecord { name: "fixture".to_owned(), kind: CargoTargetKind::Lib },
            profile: "release".to_owned(),
            cargo: "cargo".to_owned(),
            invocation_directory: "/workspace".to_owned(),
            cargo_arguments: Vec::new(),
        },
        compiler: compiler(),
        package: "fixture".to_owned(),
        package_root: "/workspace".to_owned(),
        target: target(),
        driver: "/driver".to_owned(),
        request_key: "key".to_owned(),
        stopped_probe: None,
    }
}

fn candidate(key: &str) -> CaptureAnalysis {
    CaptureAnalysis {
        request_key: key.to_owned(),
        token: "token".to_owned(),
        artifact: CargoArtifactRecord::new(artifact(true)),
    }
}

fn observation(selected: Vec<Artifact>) -> CargoObservation {
    CargoObservation { selected, finished: vec![true], has_errors: false }
}

fn ended(success: bool, observation: CargoObservation) -> EndedAttempt {
    EndedAttempt {
        report: ExitReport { success, status: "exit status: 101".to_owned() },
        observation,
        diagnostics: Vec::new(),
        warnings: Vec::new(),
        failure: None,
    }
}

#[test]
fn cache_entries_are_rejected_with_their_paths() {
    let at = |step: EntryStep, reply: EntryReply| validate_entry("/entry", "key", step, reply);
    let inspect = |file: EntryFile, facts: FileFacts| {
        at(EntryStep::Inspect(file), EntryReply::Inspected(Ok(facts)))
    };

    assert_eq!(
        environment(inspect(EntryFile::Directory, file(1))),
        "driver cache requires regular files and directories, got /entry"
    );
    assert_eq!(
        environment(inspect(EntryFile::Identity, FileFacts { is_symlink: true, ..file(1) })),
        "driver cache requires regular files and directories, got /entry/identity"
    );
    for facts in [file(0), FileFacts { mode: 0o666, ..file(1) }] {
        assert_eq!(
            environment(inspect(EntryFile::Executable, facts)),
            "driver cache requires a nonempty executable, got /entry/optic-rustc-driver"
        );
    }
    assert_eq!(
        message(at(
            EntryStep::Inspect(EntryFile::Directory),
            EntryReply::Inspected(Err(failure(FailureKind::NotFound))),
        )),
        "failed to validate driver cache entry /entry"
    );
    assert_eq!(
        environment(at(EntryStep::Measure, EntryReply::Measured(Ok(18)))),
        "driver identity must match the current recipe, got /entry/identity"
    );
    assert_eq!(
        environment(at(
            EntryStep::Read,
            EntryReply::Contents(Ok(b"optic-driver-2\nkey\n".to_vec())),
        )),
        "driver identity must match the current recipe, got /entry/identity"
    );
    for reply in [ran(true, "other\n"), ran(false, "key\n")] {
        assert_eq!(
            environment(at(EntryStep::Ask, EntryReply::Ran(reply))),
            "cached executable must report the prepared driver key, \
             got /entry/optic-rustc-driver"
        );
    }
    assert_eq!(
        message(at(EntryStep::Ask, EntryReply::Ran(Err(failure(FailureKind::Other))))),
        "failed to start /entry/optic-rustc-driver"
    );
    assert!(matches!(inspect(EntryFile::Directory, directory()), Ok(EntryStep::Inspect(_))));
}

#[test]
fn homes_compilers_and_requests_are_rejected() {
    assert_eq!(
        environment(cargo_home("/workspace", &None, &None)),
        "Cargo home requires CARGO_HOME or HOME, got neither"
    );
    assert_eq!(
        environment(compiler_field("release: 1\n", "host")),
        "rustc -vV must report host, got no value"
    );

    let variables = CompilerVariables {
        rustc: Some("custom".to_owned()),
        build_rustc: None,
        wrapper: None,
        build_wrapper: None,
        workspace_wrapper: None,
        build_workspace_wrapper: None,
    };
    let state = CompilerInspection::Configuring;
    match state.discover("cargo", &variables, CompilerReply::Ran(ran(true, ""))) {
        CompilerInspection::Finished(result) => assert_eq!(
            environment(result),
            "custom rustc selection is not supported; use the default rustc from PATH"
        ),
        _ => panic!("a custom compiler ends the inspection"),
    }

    let query = plan_discovery("/workspace", &None).unwrap();
    assert_eq!(
        message(discover_workspace(query, Err("no manifest".to_owned()))),
        "failed to read Cargo metadata"
    );
    assert_eq!(
        message(plan_discovery("relative", &None)),
        "invocation directory must be absolute, got relative"
    );

    let packages = vec![Package {
        name: "fixture".to_owned(),
        version: "0.1.0".to_owned(),
        id: "id".to_owned(),
        manifest_path: "/workspace/Cargo.toml".to_owned(),
        targets: vec![target()],
    }];
    assert_eq!(
        message(resolve_package(&packages, "other")),
        "package must name a workspace member, got other"
    );
    assert_eq!(
        message(resolve_target(&packages[0], &CargoTarget::Binary("tool".to_owned()))),
        "package fixture must contain the selected binary tool target, got no match"
    );
    assert_eq!(
        message(start("cargo", "/attempt", StartReply::Spawned(Err(failure(FailureKind::Other))))),
        "failed to start cargo"
    );
    assert_eq!(
        message(start("cargo", "/attempt", StartReply::Created(Err(failure(FailureKind::Other))))),
        "failed to create Cargo diagnostic file /attempt/stderr"
    );
}

#[test]
fn receipts_are_rejected_by_shape_and_content() {
    let marker = selected_target_marker("token");
    let at = |step: ReceiptStep, reply: ReceiptReply| {
        verified_stale_receipt("/attempt/stale", &marker, step, reply)
    };

    assert_eq!(
        message(at(
            ReceiptStep::Inspect,
            ReceiptReply::Inspected(Err(failure(FailureKind::PermissionDenied))),
        )),
        "failed to inspect stale receipt /attempt/stale"
    );
    let exact = header(&marker).len() as u64;
    for facts in [directory(), file(exact + 1)] {
        assert_eq!(
            environment(at(ReceiptStep::Inspect, ReceiptReply::Inspected(Ok(facts)))),
            "stale receipt must contain exactly this attempt's header, got an invalid file"
        );
    }
    let other = header(&selected_target_marker("other"));
    assert_eq!(
        environment(at(ReceiptStep::Read, ReceiptReply::Contents(Ok(other)))),
        "stale receipt must match this analysis token and protocol, got a different header"
    );
}

#[test]
fn probes_and_collections_name_what_they_require() {
    let mut prepared = prepared();
    assert_eq!(
        environment(prepared.probe(&candidate("other"))),
        "candidate request key must match the prepared request, got another key"
    );
    let classify = |attempt: &EndedAttempt, stale: bool, exists: bool| {
        prepared.classify_probe(attempt, &candidate("key"), "/attempt", stale, Ok(exists))
    };
    let fresh = ended(true, observation(vec![artifact(true)]));
    assert_eq!(
        environment(classify(&fresh, false, true)),
        "probe requires no selected analysis manifest, got a compiler manifest"
    );
    assert_eq!(
        environment(classify(&fresh, true, false)),
        "successful probe requires no stale receipt, got a stopped invocation"
    );
    let mut other = artifact(true);
    other.filenames.push("/target/libfixture.rlib".to_owned());
    assert_eq!(
        environment(classify(&ended(true, observation(vec![other])), false, false)),
        "fresh selected artifact must match the stored observation, \
         got different Cargo artifact fields"
    );
    assert_eq!(
        message(classify(&ended(false, CargoObservation::default()), false, false)),
        "cargo must complete successfully, got exit status: 101"
    );

    let collect = |observation: CargoObservation, stale: bool| {
        prepared.collect(&ended(true, observation), stale)
    };
    assert_eq!(
        environment(collect(observation(vec![artifact(false)]), true)),
        "collection requires no stale receipt, got a stopped probe receipt"
    );
    assert_eq!(
        environment(collect(CargoObservation::default(), false)),
        "successful Cargo completion requires one successful build-finished message \
         and no compiler errors"
    );
    assert_eq!(
        environment(collect(observation(vec![artifact(false), artifact(false)]), false)),
        "Cargo requires one matching selected artifact, got 2"
    );
    assert_eq!(
        environment(collect(observation(vec![artifact(true)]), false)),
        "selected artifact freshness must be false, got true"
    );
    let mut conflicting = artifact(false);
    conflicting.target.edition = "2021".to_owned();
    assert_eq!(
        environment(collect(observation(vec![conflicting]), false)),
        "selected artifact must match the prepared Cargo target, got a conflicting target"
    );

    prepared.retain(ended(false, CargoObservation::default()));
    assert_eq!(
        environment(prepared.probe(&candidate("key"))),
        "a stopped probe requires collection, got another probe"
    );
}

#[test]
fn manifests_are_opened_before_they_are_decoded() {
    let missing = Err::<ShortReader, SourceError>(failure(FailureKind::NotFound));
    assert_eq!(
        message(load_manifest(missing, "/attempt/manifest", "marker")),
        "failed to open compiler manifest /attempt/manifest"
    );
    let empty = Ok::<ShortReader, SourceError>(ShortReader::new(b"", 1));
    let rejected = message(load_manifest(empty, "/attempt/manifest", "marker"));
    assert!(
        rejected.starts_with("invalid compiler manifest at /attempt/manifest: "),
        "{rejected}"
    );
}

/// What the outside steps of a materialization answer.
struct World {
    compiler_version: &'static str,
    tool_version: &'static str,
    snapshot: FileFacts,
    first_id: u64,
    bitcode: u64,
    disassembles: bool,
    found: bool,
    lto: LlvmLto,
    incremental: bool,
    text: &'static [u8],
}

fn world() -> World {
    World {
        compiler_version: "LLVM version: 22.1.8\n",
        tool_version: "LLVM version 22.1.8\n",
        snapshot: file(15),
        first_id: 0,
        bitcode: 4,
        disassembles: true,
        found: true,
        lto: LlvmLto::Off,
        incremental: false,
        text: b"define void @f() {\n  ret void\n}\n",
    }
}

fn materialize(world: World) -> Result<(), Error> {
    let manifest = CompilerManifest {
        instances: Vec::new(),
        artifacts: vec![ArtifactRecord {
            id: world.first_id,
            kind: ArtifactKind::Source,
            length: 15,
        }],
        configuration: Configuration {
            backend: "llvm".to_owned(),
            target: "host".to_owned(),
            optimization: "3".to_owned(),
            lto: world.lto,
            incremental: world.incremental,
            linker_plugin: false,
            codegen_units: 1,
            unsupported: None,
        },
        modules: vec![ExpectedModule { name: "m".to_owned(), path: "/attempt/m.bc".to_owned() }],
    };
    let mut state = Materialization::begin(manifest)?;
    let mut inspected = 0;
    loop {
        let reply = match state.work(&compiler(), "/attempt") {
            CollectWork::Finished => return Ok(()),
            CollectWork::Run { argument, .. } => CollectReply::Ran(if argument == "-vV" {
                ran(true, world.compiler_version)
            } else {
                ran(true, world.tool_version)
            }),
            CollectWork::Inspect { .. } => {
                inspected += 1;
                CollectReply::Inspected(Ok(match inspected {
                    1 => world.snapshot,
                    2 => file(world.bitcode),
                    _ => file(world.text.len() as u64),
                }))
            }
            CollectWork::Find { .. } => CollectReply::Found(world.found),
            CollectWork::Disassemble { .. } => CollectReply::Ran(ran(world.disassembles, "")),
            CollectWork::Open { .. } => {
                CollectReply::Opened(Ok(ShortReader::new(world.text, 5)))
            }
        };
        state = state.collect(&compiler(), "/attempt", reply)?;
    }
}

#[test]
fn materializations_name_what_they_miss() {
    assert!(materialize(world()).is_ok());
    for (world, expected) in [
        (
            World { compiler_version: "release: 1\n", ..world() },
            "the LLVM backend requires an exact compiler LLVM version, got none",
        ),
        (
            World { snapshot: file(16), ..world() },
            "source snapshot length must match the compiler manifest, \
             got /attempt/artifact-0000000000000000",
        ),
        (
            World { incremental: true, ..world() },
            "collected LLVM requires a supported effective configuration, \
             got conflicting metadata",
        ),
        (
            World { lto: LlvmLto::Fat, ..world() },
            "collected LLVM requires no LTO or local ThinLTO, got another mode",
        ),
        (
            World { found: false, ..world() },
            "optimized LLVM collection requires /toolchain/lib/rustlib/host/bin/llvm-dis. \
             Install the matching component with rustup component add llvm-tools",
        ),
        (
            World { tool_version: "LLVM version 21.0.0-rust\n", ..world() },
            "llvm-dis must match the compiler's LLVM version, got Some(\"21.0.0\")",
        ),
        (
            World { tool_version: "", ..world() },
            "llvm-dis must match the compiler's LLVM version, got None",
        ),
        (
            World { first_id: u64::MAX, ..world() },
            "artifact IDs must leave space for LLVM modules, got u64::MAX",
        ),
        (
            World { first_id: u64::MAX - 1, ..world() },
            "artifact IDs must fit in u64, got overflow",
        ),
        (
            World { bitcode: 0, ..world() },
            "expected bitcode must not be empty, got /attempt/m.bc",
        ),
    ] {
        assert_eq!(environment(materialize(world)), expected);
    }

    assert_eq!(
        message(materialize(World { snapshot: directory(), ..world() })),
        "failed to read regular compiler artifact /attempt/artifact-0000000000000000"
    );
    assert_eq!(
        message(materialize(World { disassembles: false, ..world() })),
        "failed to disassemble expected bitcode module /attempt/m.bc"
    );
    assert_eq!(
        message(materialize(World { text: b"define void @f() {\n", ..world() })),
        "failed to index optimized LLVM artifact /attempt/artifact-0000000000000001"
    );
}

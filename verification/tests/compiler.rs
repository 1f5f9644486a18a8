use cargo_metadata::Metadata;
use cargo_optic::capture::{
    capture, CaptureEvent, CaptureOutcome, CapturePolicy, CaptureRecord, CaptureState,
};
use cargo_optic::compiler::artifacts::{
    artifact_file_name, disassembler_version, llvm_version, CollectReply, CollectWork,
    LlvmCollection, Materialization,
};
use cargo_optic::compiler::attempt::{
    CargoAttempt, CargoMessage, DiagnosticLevel, EndedAttempt,
};
use cargo_optic::compiler::digest::{digest, request_key};
use cargo_optic::compiler::driver::{
    build_driver, build_driver_arguments, cargo_home, driver_key, fixed_options, plan_driver,
    validate_entry, DriverSource, EntryFile, EntryReply, EntryStep, FileFacts, Provision,
    ProvisionReply,
};
use cargo_optic::compiler::error::{Error, Failure};
use cargo_optic::compiler::features::normalize_features;
use cargo_optic::compiler::manifest::{CompilerManifest, Configuration, ExpectedModule};
use cargo_optic::compiler::metadata::{
    Artifact, ArtifactProfile, CargoArtifactRecord, Package, PackageTarget,
};
use cargo_optic::compiler::observation::CargoObservation;
use cargo_optic::compiler::operation::{
    collect_new_token, follow_probe, Collection, CollectionReply, Probe, ProbeReply,
};
use cargo_optic::compiler::prepared::{
    identity_inputs, prepare_build, record_build, selected_target_marker, verified_stale_receipt, warn_of_wrappers, AttemptMode,
    BuildRecord, CaptureAnalysis, Freshness, Preparation, PreparationReply, PreparationVariables,
    PreparedBuild, ReceiptReply, ReceiptStep, SelectedPackage, TargetRecord, WorkspaceMembers,
};
use cargo_optic::compiler::protocol::{header, MANIFEST_MAGIC, PROTOCOL_VERSION};
use cargo_optic::compiler::request::{BuildRequest, CargoTarget, CargoTargetKind};
use cargo_optic::compiler::resolution::{cargo_arguments, resolve_package, resolve_target};
use cargo_optic::compiler::toolchain::{
    CompilerContext, CompilerIdentity, CompilerInspection, CompilerReply, CompilerVariables,
};
use cargo_optic::compiler::workspace::{discover_workspace, plan_discovery, Workspace};
use cargo_optic::compiler::writer::ManifestWriter;
use cargo_optic::ir::driver::EnvironmentChange;
use cargo_optic::process::{ExitReport, ProcessOutput};
use cargo_optic::records::{ArtifactKind, ArtifactRecord, LlvmLto, UnsupportedLlvmConfiguration};
use cargo_optic::source::{FailureKind, ShortReader, SourceError};

const RECIPE_REVISION: &[u8] = b"optic-driver-recipe-1";

fn target() -> PackageTarget {
    PackageTarget {
        name: "fixture".to_owned(),
        kind: vec!["lib".to_owned()],
        crate_types: vec!["lib".to_owned()],
        required_features: Vec::new(),
        src_path: "/workspace/src/lib.rs".to_owned(),
        edition: "2024".to_owned(),
        doctest: true,
        test: true,
        doc: true,
    }
}

fn artifact() -> Artifact {
    Artifact {
        package_id: "path+file:///workspace#fixture@0.1.0".to_owned(),
        manifest_path: "/workspace/Cargo.toml".to_owned(),
        target: target(),
        profile: ArtifactProfile {
            opt_level: "2".to_owned(),
            debuginfo: "2".to_owned(),
            debug_assertions: false,
            overflow_checks: true,
            test: false,
        },
        features: vec!["beta".to_owned(), "alpha".to_owned()],
        filenames: vec!["/target/libfixture.rlib".to_owned()],
        executable: None,
        fresh: true,
    }
}

fn identity(rustc: &str, release: &str, commit: &str, host: &str, sysroot: &str) -> CompilerIdentity {
    CompilerIdentity {
        rustc: rustc.to_owned(),
        release: release.to_owned(),
        commit_hash: commit.to_owned(),
        host: host.to_owned(),
        sysroot: sysroot.to_owned(),
    }
}

fn compiler() -> CompilerIdentity {
    identity("/toolchain/bin/rustc", "1.98.1", "commit", "host", "/toolchain")
}

fn sources() -> Vec<DriverSource> {
    ["main.rs", "protocol.rs"]
        .iter()
        .map(|name| DriverSource {
            name: (*name).to_owned(),
            contents: format!("// {name}"),
        })
        .collect()
}

fn failure(kind: FailureKind) -> SourceError {
    SourceError { kind, message: "fixture".to_owned() }
}

fn ran(success: bool, stdout: &str, stderr: &str) -> Result<ProcessOutput, SourceError> {
    let status = if success { "exit status: 0" } else { "exit status: 23" };
    Ok(ProcessOutput {
        report: ExitReport { success, status: status.to_owned() },
        stdout: stdout.as_bytes().to_vec(),
        stderr: stderr.as_bytes().to_vec(),
    })
}

fn file(length: u64, mode: u32) -> FileFacts {
    FileFacts { is_directory: false, is_file: true, is_symlink: false, length, mode }
}

fn directory() -> FileFacts {
    FileFacts { is_directory: true, is_file: false, is_symlink: false, length: 0, mode: 0o700 }
}

fn workspace() -> Workspace {
    let query = plan_discovery("/workspace/member", &None).unwrap();
    discover_workspace(query, Ok("/workspace".to_owned())).unwrap()
}

fn ended(success: bool, observation: CargoObservation) -> EndedAttempt {
    EndedAttempt {
        report: ExitReport { success, status: "exit status: 101".to_owned() },
        observation,
        diagnostics: vec!["error: stopped\n".to_owned()],
        warnings: vec!["warning: unused\n".to_owned()],
        failure: None,
    }
}

fn fresh_observation() -> CargoObservation {
    CargoObservation { selected: vec![artifact()], finished: vec![true], has_errors: false }
}

fn prepared() -> PreparedBuild {
    PreparedBuild {
        cargo: "cargo".to_owned(),
        invocation_directory: "/workspace/member".to_owned(),
        build: BuildRecord {
            package: "fixture".to_owned(),
            version: "0.1.0".to_owned(),
            target: TargetRecord { name: "fixture".to_owned(), kind: CargoTargetKind::Lib },
            profile: "release".to_owned(),
            cargo: "cargo".to_owned(),
            invocation_directory: "/workspace/member".to_owned(),
            cargo_arguments: vec!["rustc".to_owned()],
        },
        compiler: compiler(),
        package: artifact().package_id,
        package_root: "/workspace/member".to_owned(),
        target: target(),
        driver: "/home/.cargo/optic/drivers/key/optic-rustc-driver".to_owned(),
        request_key: "key".to_owned(),
        stopped_probe: None,
    }
}

fn candidate(key: &str) -> CaptureAnalysis {
    CaptureAnalysis {
        request_key: key.to_owned(),
        token: "38a90c21244546ad8a2b3770f6cb370c".to_owned(),
        artifact: CargoArtifactRecord::new(artifact()),
    }
}

#[test]
fn disassembler_version_separates_the_rust_distribution_suffix() {
    assert_eq!(disassembler_version("LLVM version 22.1.8").as_deref(), Some("22.1.8"));
    assert_eq!(
        disassembler_version("  LLVM version 22.1.8-rust-1.98.1-stable\n").as_deref(),
        Some("22.1.8")
    );
    assert_eq!(disassembler_version("a different executable"), None);
}

#[test]
fn compilers_report_their_llvm_version() {
    assert_eq!(
        llvm_version("rustc 1.98.1\nLLVM version: 22.1.8\n").as_deref(),
        Some("22.1.8")
    );
    assert_eq!(llvm_version("rustc 1.98.1\n LLVM version: 22.1.8\n"), None);
}

#[test]
fn artifact_names_hold_sixteen_hexadecimal_digits() {
    assert_eq!(artifact_file_name(0), "artifact-0000000000000000");
    assert_eq!(artifact_file_name(0x1f), "artifact-000000000000001f");
    assert_eq!(artifact_file_name(u64::MAX), "artifact-ffffffffffffffff");
}

#[test]
fn maps_each_target_to_exact_cargo_arguments() {
    let cases = [
        (CargoTarget::Library, vec!["--lib"]), // Library target.
        (
            CargoTarget::Binary("tool".to_owned()),
            vec!["--bin", "tool"],
        ), // Binary target.
        (
            CargoTarget::Example("demo".to_owned()),
            vec!["--example", "demo"],
        ), // Example target.
        (
            CargoTarget::Benchmark("scan".to_owned()),
            vec!["--bench", "scan"],
        ), // Benchmark target.
    ];

    for (target, expected_target_arguments) in cases {
        let request = BuildRequest::new("example", target, "release")
            .expect("the fixture request is valid");
        let arguments = cargo_arguments(&request);
        let target_arguments = &arguments[3..arguments.len() - 2];

        assert_eq!(&arguments[..3], ["rustc", "--package", "example"]);
        assert_eq!(target_arguments, expected_target_arguments);
        assert_eq!(&arguments[arguments.len() - 2..], ["--profile", "release"]);
    }
}

#[test]
fn forwards_exact_cargo_feature_selection() {
    let request = BuildRequest::new("example", CargoTarget::Library, "release")
        .expect("the fixture request is valid")
        .with_features(vec!["logging".to_owned(), "serde".to_owned()])
        .expect("the fixture features are valid")
        .with_all_features()
        .without_default_features();

    assert_eq!(
        cargo_arguments(&request),
        [
            "rustc",
            "--package",
            "example",
            "--lib",
            "--profile",
            "release",
            "--features",
            "logging,serde",
            "--all-features",
            "--no-default-features",
        ]
    );
}

#[test]
fn rejects_each_empty_request_component() {
    let cases = [
        (
            "",
            CargoTarget::Library,
            "release",
            "package name must not be empty, got an empty string",
        ), // Package name.
        (
            "example",
            CargoTarget::Library,
            "",
            "profile must not be empty, got an empty string",
        ), // Profile name.
        (
            "example",
            CargoTarget::Binary(String::new()),
            "release",
            "binary target name must not be empty, got an empty string",
        ), // Binary target name.
        (
            "example",
            CargoTarget::Example(String::new()),
            "release",
            "example target name must not be empty, got an empty string",
        ), // Example target name.
        (
            "example",
            CargoTarget::Benchmark(String::new()),
            "release",
            "benchmark target name must not be empty, got an empty string",
        ), // Benchmark target name.
    ];

    for (package, target, profile, expected) in cases {
        let error = BuildRequest::new(package, target, profile)
            .expect_err("the empty request component must be rejected");

        assert_eq!(error.message(), expected);
    }
}

#[test]
fn rejects_empty_feature_names() {
    let request = BuildRequest::new("example", CargoTarget::Library, "release")
        .expect("the fixture request is valid");

    let error = request
        .with_features(vec![String::new()])
        .expect_err("the empty feature name must be rejected");

    assert_eq!(
        error.message(),
        "feature name must not be empty, got an empty string"
    );
}

#[test]
fn field_boundaries_are_part_of_the_digest() {
    let fields = |values: &[&[u8]]| -> Vec<Vec<u8>> {
        values.iter().map(|value| value.to_vec()).collect()
    };
    assert_ne!(digest(&fields(&[b"a", b"bc"])), digest(&fields(&[b"ab", b"c"])));
    assert_ne!(digest(&fields(&[b"a", b""])), digest(&fields(&[b"a"])));
}

fn selected_package() -> SelectedPackage {
    SelectedPackage {
        name: "fixture".to_owned(),
        version: "0.1.0".to_owned(),
        id: artifact().package_id,
        manifest_path: "/workspace/member/Cargo.toml".to_owned(),
        target: artifact().target,
        workspace_root: "/workspace".to_owned(),
    }
}

fn fixture_build(features: Vec<String>) -> BuildRecord {
    let request = BuildRequest::new("fixture", CargoTarget::Library, "custom")
        .unwrap()
        .with_features(features)
        .unwrap();
    let query =
        plan_discovery("/workspace/member", &Some("/toolchain/bin/cargo".to_owned())).unwrap();
    let workspace = discover_workspace(query, Ok("/workspace".to_owned())).unwrap();
    record_build(&workspace, &request, &selected_package())
}

fn fixture_key(
    artifact: &Artifact,
    build: &BuildRecord,
    metadata: &Metadata,
    cargo_version: &[u8],
    driver_key: &str,
    home: &str,
) -> String {
    let package = SelectedPackage {
        id: artifact.package_id.clone(),
        target: artifact.target.clone(),
        ..selected_package()
    };
    let identity = identity_inputs(
        build,
        &package,
        metadata.target_directory.as_str(),
        &metadata.build_directory.as_ref().map(|directory| directory.to_string()),
    );
    let (build, target) = (&identity.build, &identity.target);
    let inputs = serde_json::to_vec(&(
        (
            (&build.package, &build.version, &build.target.name, &build.profile),
            (&build.cargo, &build.invocation_directory, &build.cargo_arguments),
        ),
        &identity.package,
        (&target.name, &target.kind, &target.crate_types, &target.src_path, &target.edition),
        &identity.target_directory,
        &identity.build_directory,
    ))
    .map_err(|error| error.to_string());
    request_key(metadata.workspace_root.as_str(), home, cargo_version, driver_key, inputs).unwrap()
}

#[test]
fn request_identity_normalizes_features_and_tracks_configuration_locations() {
    let artifact = artifact();
    let metadata: Metadata = serde_json::from_str(
        "{\"packages\": [], \"workspace_members\": [], \"workspace_default_members\": [], \
         \"resolve\": null, \"workspace_root\": \"/workspace\", \
         \"target_directory\": \"/target\", \"build_directory\": \"/build\", \
         \"metadata\": null, \"version\": 1}",
    )
    .unwrap();

    let first = fixture_build(vec!["beta,alpha".to_owned(), "beta".to_owned()]);
    let equivalent = fixture_build(vec!["alpha beta".to_owned()]);
    let original =
        fixture_key(&artifact, &first, &metadata, b"Cargo 1", "driver 1", "/cargo-home");

    assert_eq!(
        original,
        fixture_key(&artifact, &equivalent, &metadata, b"Cargo 1", "driver 1", "/cargo-home")
    );

    let changed = fixture_build(vec!["alpha".to_owned()]);

    assert_ne!(
        original,
        fixture_key(&artifact, &changed, &metadata, b"Cargo 1", "driver 1", "/cargo-home")
    );
    assert_ne!(
        original,
        fixture_key(&artifact, &first, &metadata, b"Cargo 2", "driver 1", "/cargo-home")
    );
    assert_ne!(
        original,
        fixture_key(&artifact, &first, &metadata, b"Cargo 1", "driver 2", "/cargo-home")
    );
    assert_ne!(
        original,
        fixture_key(&artifact, &first, &metadata, b"Cargo 1", "driver 1", "/other-home")
    );

    for field in [
        "workspace_root",   // Change the Cargo workspace identity.
        "target_directory", // Change the artifact output location.
        "build_directory",  // Change the intermediate build location.
    ] {
        let mut changed = serde_json::to_value(&metadata).unwrap();
        changed[field] = "/other-location".into();
        let changed: Metadata = serde_json::from_value(changed).unwrap();

        assert_ne!(
            original,
            fixture_key(&artifact, &first, &changed, b"Cargo 1", "driver 1", "/cargo-home")
        );
    }

    let changed = BuildRecord { invocation_directory: "/other-directory".to_owned(), ..first };

    assert_ne!(
        original,
        fixture_key(&artifact, &changed, &metadata, b"Cargo 1", "driver 1", "/cargo-home")
    );
}

#[test]
fn build_directories_fall_back_to_target_directories() {
    let build = fixture_build(Vec::new());
    let package = selected_package();
    let own = identity_inputs(&build, &package, "/target", &Some("/build".to_owned()));
    assert_eq!((own.target_directory.as_str(), own.build_directory.as_str()), ("/target", "/build"));
    assert_eq!((own.package, own.target), (package.id.clone(), package.target.clone()));
    assert_eq!(own.build.cargo_arguments, build.cargo_arguments);
    let shared = identity_inputs(&build, &package, "/target", &None);
    assert_eq!(shared.build_directory, "/target");
}

#[test]
fn features_are_normalized() {
    let normal = |features: &[&str]| -> Vec<String> {
        normalize_features(&features.iter().map(|feature| (*feature).to_owned()).collect())
    };
    assert_eq!(normal(&["beta,alpha", "beta"]), ["alpha", "beta"]);
    assert_eq!(normal(&["alpha beta"]), ["alpha", "beta"]);
    assert_eq!(normal(&[" b ,, a\tc\n", "a/b"]), ["a", "a/b", "b", "c"]);
    assert_eq!(normal(&["dep\u{2003}x"]), ["dep", "x"]);
    let once = normal(&["b,a", "c b"]);
    assert_eq!(normalize_features(&vec![once.join(",")]), once);
    assert!(normal(&[",", " "]).is_empty());
    assert!(normal(&[]).is_empty());

    let arguments = fixture_build(vec!["beta,alpha".to_owned(), "beta".to_owned()]).cargo_arguments;
    assert_eq!(arguments.last().map(String::as_str), Some("alpha,beta"));
}

#[test]
fn requests_can_be_copied() {
    let request = BuildRequest::new("p", CargoTarget::Example("demo".to_owned()), "release")
        .unwrap()
        .with_features(vec!["b a".to_owned()])
        .unwrap();
    let copy = request.clone();
    assert_eq!(cargo_arguments(&copy), cargo_arguments(&request));
    assert_eq!(request.target().clone(), CargoTarget::Example("demo".to_owned()));
    assert_eq!(request.normalized().features(), ["a", "b"]);
}

fn record(id: &str, token: &str) -> CaptureRecord {
    let analysis = CaptureAnalysis { token: token.to_owned(), ..candidate("key") };
    CaptureRecord::new(id.to_owned(), 7, prepared().build, compiler(), analysis)
}

/// Runs a capture and names its last state and its record.
fn run_capture(
    policy: CapturePolicy,
    events: Vec<Result<CaptureEvent, String>>,
) -> Result<(&'static str, Option<String>), String> {
    let mut state = CaptureState::Initializing;
    for event in events {
        state = capture(policy, state, event)?;
    }
    Ok(match state {
        CaptureState::Initializing => ("initializing", None),
        CaptureState::Looking => ("looking", None),
        CaptureState::Probing(record) => ("probing", Some(record.id)),
        CaptureState::Collecting => ("collecting", None),
        CaptureState::Publishing(record) => ("publishing", Some(record.id)),
        CaptureState::Finished(outcome) => {
            let name = match outcome {
                CaptureOutcome::Captured(_) => "captured",
                CaptureOutcome::Reused(_) => "reused",
            };
            assert_eq!(outcome.record().completed_at_unix_ms, 7);
            (name, Some(outcome.into_record().id))
        }
    })
}

#[test]
fn captures_are_reused_only_behind_a_fresh_probe() {
    assert_eq!(CapturePolicy::default(), CapturePolicy::Reuse);
    let probed = |freshness: Freshness| {
        vec![
            Ok(CaptureEvent::Initialized),
            Ok(CaptureEvent::Candidate(Some(record("old", "1")))),
            Ok(CaptureEvent::Probed(freshness)),
        ]
    };
    assert_eq!(
        run_capture(CapturePolicy::Reuse, probed(Freshness::Fresh)),
        Ok(("reused", Some("old".to_owned())))
    );
    assert_eq!(
        run_capture(CapturePolicy::Fresh, probed(Freshness::Fresh)),
        Ok(("collecting", None))
    );
    assert_eq!(
        run_capture(CapturePolicy::Reuse, probed(Freshness::Stale)),
        Ok(("collecting", None))
    );
    assert_eq!(
        run_capture(
            CapturePolicy::Reuse,
            vec![Ok(CaptureEvent::Initialized), Ok(CaptureEvent::Candidate(None))]
        ),
        Ok(("collecting", None))
    );
}

#[test]
fn repeated_captures_return_the_first_record() {
    let first = vec![
        Ok(CaptureEvent::Initialized),
        Ok(CaptureEvent::Candidate(None)),
        Ok(CaptureEvent::Collected(record("first", "1"))),
        Ok(CaptureEvent::Published),
    ];
    assert_eq!(
        run_capture(CapturePolicy::Reuse, first),
        Ok(("captured", Some("first".to_owned())))
    );
    let second = vec![
        Ok(CaptureEvent::Initialized),
        Ok(CaptureEvent::Candidate(Some(record("first", "1")))),
        Ok(CaptureEvent::Probed(Freshness::Fresh)),
    ];
    assert_eq!(
        run_capture(CapturePolicy::Reuse, second),
        Ok(("reused", Some("first".to_owned())))
    );
}

#[test]
fn captures_end_with_published_records_or_their_failure() {
    let mut events = vec![
        Ok(CaptureEvent::Initialized),
        Ok(CaptureEvent::Candidate(Some(record("old", "1")))),
        Ok(CaptureEvent::Probed(Freshness::Stale)),
        Ok(CaptureEvent::Collected(record("new", "2"))),
    ];
    let failed: Vec<_> = vec![
        Ok(CaptureEvent::Initialized),
        Ok(CaptureEvent::Candidate(Some(record("old", "1")))),
        Err("the probe failed".to_owned()),
    ];
    assert_eq!(run_capture(CapturePolicy::Reuse, failed), Err("the probe failed".to_owned()));
    let unpublished: Vec<_> = vec![
        Ok(CaptureEvent::Initialized),
        Ok(CaptureEvent::Collected(record("new", "2"))),
        Err("the store is full".to_owned()),
    ];
    assert_eq!(
        run_capture(CapturePolicy::Fresh, unpublished),
        Err("the store is full".to_owned())
    );
    events.push(Ok(CaptureEvent::Published));
    assert_eq!(
        run_capture(CapturePolicy::Reuse, events),
        Ok(("captured", Some("new".to_owned())))
    );
}

#[test]
fn request_keys_cover_their_inputs() {
    let key = |root: &str, home: &str, version: &[u8], driver: &str, inputs: &[u8]| {
        request_key(root, home, version, driver, Ok(inputs.to_vec())).unwrap()
    };
    let original = key("/workspace", "/cargo-home", b"Cargo 1", "driver 1", b"inputs");

    assert_eq!(original.len(), 64);
    assert_ne!(original, key("/other", "/cargo-home", b"Cargo 1", "driver 1", b"inputs"));
    assert_ne!(original, key("/workspace", "/other-home", b"Cargo 1", "driver 1", b"inputs"));
    assert_ne!(original, key("/workspace", "/cargo-home", b"Cargo 2", "driver 1", b"inputs"));
    assert_ne!(original, key("/workspace", "/cargo-home", b"Cargo 1", "driver 2", b"inputs"));
    assert_ne!(original, key("/workspace", "/cargo-home", b"Cargo 1", "driver 1", b"other"));

    let error = request_key("/", "/", b"", "", Err("a bad path".to_owned())).unwrap_err();
    assert!(error.message().contains("serializable Cargo paths, got a bad path"));
}

#[test]
fn key_covers_every_source_and_build_recipe_input() {
    let compiler = compiler();
    let options = fixed_options();
    let original = driver_key(&compiler, &sources(), &options, RECIPE_REVISION, PROTOCOL_VERSION);
    for index in 0..sources().len() {
        let mut sources = sources();
        sources[index].contents = "changed source".to_owned();
        assert_ne!(
            original,
            driver_key(&compiler, &sources, &options, RECIPE_REVISION, PROTOCOL_VERSION)
        );
    }
    assert_ne!(
        original,
        driver_key(
            &compiler,
            &sources(),
            &vec!["different flags".to_owned()],
            RECIPE_REVISION,
            PROTOCOL_VERSION
        )
    );
    assert_ne!(
        original,
        driver_key(&compiler, &sources(), &options, b"new recipe", PROTOCOL_VERSION)
    );
    assert_ne!(
        original,
        driver_key(&compiler, &sources(), &options, RECIPE_REVISION, PROTOCOL_VERSION + 1)
    );
    assert_eq!(
        plan_driver("/home/.cargo", &compiler, &sources()).entry,
        format!("/home/.cargo/optic/drivers/{original}")
    );
}

#[test]
fn key_covers_exact_compiler_identity() {
    let options = fixed_options();
    let original =
        driver_key(&compiler(), &sources(), &options, RECIPE_REVISION, PROTOCOL_VERSION);
    let cases = [
        ("/other/bin/rustc", "1.98.1", "commit", "host", "/toolchain"), // Executable.
        (
            "/toolchain/bin/rustc",
            "other",
            "commit",
            "host",
            "/toolchain",
        ), // Release.
        (
            "/toolchain/bin/rustc",
            "1.98.1",
            "other",
            "host",
            "/toolchain",
        ), // Commit.
        (
            "/toolchain/bin/rustc",
            "1.98.1",
            "commit",
            "other",
            "/toolchain",
        ), // Host.
        ("/toolchain/bin/rustc", "1.98.1", "commit", "host", "/other"), // Sysroot.
    ];

    for (rustc, release, commit, host, sysroot) in cases {
        let changed = identity(rustc, release, commit, host, sysroot);
        assert_ne!(
            original,
            driver_key(&changed, &sources(), &options, RECIPE_REVISION, PROTOCOL_VERSION)
        );
    }
}

fn validate(key: &str, mode: u32, executable: bool) -> Result<EntryStep, Error> {
    let contents = b"optic-driver-1\nkey\n".to_vec();
    let mut step = EntryStep::Inspect(EntryFile::Directory);
    while step != EntryStep::Valid {
        let reply = match step {
            EntryStep::Inspect(EntryFile::Directory) => EntryReply::Inspected(Ok(directory())),
            EntryStep::Inspect(EntryFile::Identity) => {
                EntryReply::Inspected(Ok(file(contents.len() as u64, 0o600)))
            }
            EntryStep::Inspect(EntryFile::Executable) => EntryReply::Inspected(if executable {
                Ok(file(30, mode))
            } else {
                Err(failure(FailureKind::NotFound))
            }),
            EntryStep::Measure => EntryReply::Measured(Ok(contents.len() as u64)),
            EntryStep::Read => EntryReply::Contents(Ok(contents.clone())),
            _ => EntryReply::Ran(ran(true, "key\n", "")),
        };
        step = validate_entry("/entry", key, step, reply)?;
    }
    Ok(step)
}

#[test]
fn present_invalid_driver_entries_are_errors() {
    validate("key", 0o700, true).unwrap();
    assert!(validate("wrong key", 0o700, true).is_err());
    assert!(validate("key", 0o600, true).is_err());
    assert!(validate("key", 0o700, false).is_err());
}

#[test]
fn links_and_wrong_answers_are_errors() {
    let link = FileFacts { is_symlink: true, ..directory() };
    let step = EntryStep::Inspect(EntryFile::Directory);
    let error = validate_entry("/entry", "key", step, EntryReply::Inspected(Ok(link))).unwrap_err();
    assert!(error.message().contains("/entry"));

    let answer = EntryReply::Ran(ran(true, "key", ""));
    assert!(validate_entry("/entry", "key", EntryStep::Ask, answer).is_err());
}

#[test]
fn drivers_are_compiled_validated_and_published() {
    let sources = sources();
    let plan = plan_driver("/home/.cargo", &compiler(), &sources);
    let identity = format!("optic-driver-1\n{}\n", plan.key);
    let mut state = Provision::CreatingRoot;
    let mut written = 0;
    loop {
        let reply = match &state {
            Provision::Ready => break,
            Provision::Inspecting => ProvisionReply::Looked(Err(failure(FailureKind::NotFound))),
            Provision::CreatingTemporary => ProvisionReply::Created(Ok("/tmp/d".to_owned())),
            Provision::Compiling(_) => ProvisionReply::Ran(ran(true, "", "")),
            Provision::ValidatingNew(_, step) => ProvisionReply::Entry(match step {
                EntryStep::Inspect(EntryFile::Directory) => EntryReply::Inspected(Ok(directory())),
                EntryStep::Inspect(_) => {
                    EntryReply::Inspected(Ok(file(identity.len() as u64, 0o700)))
                }
                EntryStep::Measure => EntryReply::Measured(Ok(identity.len() as u64)),
                EntryStep::Read => EntryReply::Contents(Ok(identity.clone().into_bytes())),
                _ => EntryReply::Ran(ran(true, &format!("{}\n", plan.key), "")),
            }),
            other => {
                if let Provision::Writing(_, index) = other {
                    assert_eq!(*index, written);
                    written += 1;
                }
                ProvisionReply::Done(Ok(()))
            }
        };
        state = state.provision(&plan, "/toolchain/bin/rustc", &sources, reply).unwrap();
    }
    assert_eq!(written, sources.len());
    assert_eq!(
        build_driver_arguments("main.rs", "/toolchain", "driver"),
        [
            "main.rs",
            "--crate-name",
            "optic_rustc_driver",
            "--edition=2024",
            "-C",
            "prefer-dynamic",
            "-C",
            "rpath",
            "--sysroot",
            "/toolchain",
            "-o",
            "driver",
        ]
    );
}

#[test]
fn failed_driver_builds_report_components() {
    let error = build_driver(
        ran(false, "", "error[E0463]: rustc_driver is unavailable in this sysroot\n"),
        "/failed-rustc",
    )
    .unwrap_err();

    let Failure::ProcessFailed { program, status, diagnostics } = error else {
        panic!("the compiler shim must return its driver-build failure");
    };
    assert_eq!(program, "/failed-rustc");
    assert_eq!(status, "exit status: 23");
    let diagnostics = diagnostics.expect("driver-build failures retain compiler diagnostics");
    assert!(diagnostics.contains("error[E0463]: rustc_driver is unavailable in this sysroot"));
    assert!(diagnostics.contains("rustup component add rustc-dev llvm-tools"));
}

#[test]
fn cargo_homes_follow_the_environment() {
    let home = |configured: Option<&str>, home: Option<&str>| {
        cargo_home("/work", &configured.map(str::to_owned), &home.map(str::to_owned))
    };
    assert_eq!(home(Some("relative"), Some("/home/u")).unwrap(), "/work/relative");
    assert_eq!(home(Some(""), Some("/home/u")).unwrap(), "/home/u/.cargo");
    assert!(home(None, None).unwrap_err().message().contains("CARGO_HOME or HOME"));
}

#[test]
fn requires_one_affirmative_fresh_artifact_and_success() {
    let cases = [
        (vec![artifact()], vec![true], false, true), // Complete positive observation.
        (Vec::new(), vec![true], false, false),      // Success without an artifact.
        (vec![artifact(), artifact()], vec![true], false, false), // Conflicting duplicates.
        (vec![artifact()], Vec::new(), false, false), // Missing completion message.
        (vec![artifact()], vec![false], false, false), // Reported failure.
        (vec![artifact()], vec![true, true], false, false), // Duplicate completion.
        (vec![artifact()], vec![true], true, false), // Contradictory compiler error.
    ];

    for (selected, finished, has_errors, valid) in cases {
        let observation = CargoObservation { selected, finished, has_errors };
        assert_eq!(observation.completed(&target(), true).is_ok(), valid);
    }
}

#[test]
fn rejects_conflicting_target_or_freshness() {
    let observation = fresh_observation();
    assert!(observation.completed(&target(), false).is_err());
    let mut target = target();
    target.src_path = "/other/lib.rs".to_owned();
    assert!(observation.completed(&target, true).is_err());
}

#[test]
fn ignores_dependency_artifacts_and_retains_cargo_profile_fields() {
    let artifact = artifact();
    let mut dependency = artifact.clone();
    dependency.package_id = "dependency".to_owned();
    let mut observation = CargoObservation {
        finished: vec![true],
        ..Default::default()
    };
    observation.record(dependency, &artifact.package_id, &artifact.target);
    observation.record(artifact.clone(), &artifact.package_id, &artifact.target);
    let normalized = observation.completed(&artifact.target, true).unwrap();

    assert_eq!(normalized.artifact().profile, artifact.profile);
    assert_eq!(normalized.artifact().features, ["alpha", "beta"]);
    assert!(!normalized.artifact().fresh);
}

fn receipt(path: Option<&[u8]>, marker: &str) -> Result<bool, Error> {
    let mut step = ReceiptStep::Inspect;
    loop {
        let reply = match step {
            ReceiptStep::Known(found) => return Ok(found),
            ReceiptStep::Inspect => ReceiptReply::Inspected(match path {
                Some(bytes) => Ok(file(bytes.len() as u64, 0o600)),
                None => Err(failure(FailureKind::NotFound)),
            }),
            ReceiptStep::Read => ReceiptReply::Contents(Ok(path.unwrap().to_vec())),
        };
        step = verified_stale_receipt("/attempt/stale", marker, step, reply)?;
    }
}

#[test]
fn stale_receipts_require_the_exact_protocol_and_token() {
    let marker = selected_target_marker("38a90c21244546ad8a2b3770f6cb370c");

    assert!(!receipt(None, &marker).unwrap());

    let exact = header(&marker);
    assert!(receipt(Some(&exact), &marker).unwrap());

    let other = selected_target_marker("00000000000000000000000000000000");
    assert!(receipt(Some(&exact), &other).is_err());

    let mut wrong_version = header(&marker);
    wrong_version[MANIFEST_MAGIC.len()] = 0;
    let mut wrong_magic = header(&marker);
    wrong_magic[0] = 0;
    let mut trailing = header(&marker);
    trailing.push(0);

    for (case, bytes) in [
        ("version", wrong_version), // Reject an unsupported protocol version.
        ("magic", wrong_magic),     // Reject a different file signature.
        ("trailing", trailing),     // Reject bytes after the exact header.
        ("empty", Vec::new()),      // Reject an empty receipt.
    ] {
        assert!(receipt(Some(&bytes), &marker).is_err(), "{case}");
    }
}

#[test]
fn markers_quote_their_token() {
    assert_eq!(
        selected_target_marker("abc"),
        "--cfg=cargo_optic_selected_target=\"abc\""
    );
}

#[test]
fn probes_need_a_matching_candidate() {
    let mut prepared = prepared();
    assert_eq!(prepared.request_key(), "key");
    assert!(prepared.probe(&candidate("other")).is_err());
    assert!(prepared.probe(&candidate("key")).unwrap().ends_with("370c\""));

    prepared.retain(ended(false, CargoObservation::default()));
    let error = prepared.probe(&candidate("key")).unwrap_err();
    assert!(error.message().contains("a stopped probe requires collection"));
}

#[test]
fn probes_are_classified_affirmatively() {
    let prepared = prepared();
    let candidate = candidate("key");
    let classify = |attempt: &EndedAttempt, stale: bool, exists: bool| {
        prepared.classify_probe(attempt, &candidate, "/attempt", stale, Ok(exists))
    };

    let fresh = ended(true, fresh_observation());
    assert_eq!(classify(&fresh, false, false).unwrap(), Freshness::Fresh);
    assert!(classify(&fresh, true, false).is_err());
    assert!(classify(&fresh, false, true).is_err());

    let stopped = ended(false, CargoObservation::default());
    assert_eq!(classify(&stopped, true, false).unwrap(), Freshness::Stale);
    assert!(matches!(
        classify(&stopped, false, false),
        Err(Failure::ProcessFailed { diagnostics: None, .. })
    ));
    assert!(prepared
        .classify_probe(&stopped, &candidate, "/attempt", true, Err(failure(FailureKind::Other)))
        .is_err());

    let mut other = artifact();
    other.filenames = vec!["/target/libother.rlib".to_owned()];
    let different = ended(
        true,
        CargoObservation { selected: vec![other], finished: vec![true], has_errors: false },
    );
    assert!(classify(&different, false, false).is_err());
}

#[test]
fn stopped_probes_replay_only_behind_a_failed_collection() {
    let mut attempt = ended(false, CargoObservation::default());
    let end = PreparedBuild::end_probe(&mut attempt, &Ok(Freshness::Stale));
    assert_eq!(end.texts, ["warning: unused\n"]);
    assert!(end.retains && !end.replays_stderr);

    let mut prepared = prepared();
    assert!(prepared.failed_collection().is_none());
    prepared.retain(attempt);
    assert_eq!(prepared.failed_collection().unwrap(), ["error: stopped\n"]);

    let mut attempt = ended(true, fresh_observation());
    let end = PreparedBuild::end_probe(&mut attempt, &Ok(Freshness::Fresh));
    assert_eq!(end.texts, ["warning: unused\n", "error: stopped\n"]);
    assert!(end.replays_stderr && !end.retains);
}

#[test]
fn collections_need_a_new_artifact() {
    let prepared = prepared();
    let mut compiled = artifact();
    compiled.fresh = false;
    let observation =
        CargoObservation { selected: vec![compiled], finished: vec![true], has_errors: false };
    let attempt = ended(true, observation);
    assert!(prepared.collect(&attempt, false).is_ok());
    assert!(prepared.collect(&attempt, true).is_err());
    assert!(prepared.collect(&ended(true, fresh_observation()), false).is_err());
    assert!(prepared.require_success(&ended(false, fresh_observation())).is_err());
}

#[test]
fn attempts_run_cargo_with_the_driver() {
    let command = prepared()
        .command(
            "marker",
            "/attempt",
            Ok("/workspace/src/lib.rs".to_owned()),
            AttemptMode::Collect,
        )
        .unwrap();
    assert_eq!(command.program, "cargo");
    assert_eq!(command.arguments, ["rustc", "--message-format=json", "--", "marker"]);
    let value = |wanted: &str| {
        command.environment.iter().find_map(|change| match change {
            EnvironmentChange::Assign { name, value } if name == wanted => Some(value.clone()),
            _ => None,
        })
    };
    assert_eq!(value("OPTIC_COMPILER_MODE").as_deref(), Some("collect"));
    assert_eq!(value("OPTIC_STALE_RECEIPT").as_deref(), Some("/attempt/stale"));
    assert_eq!(value("OPTIC_COMPILER_MANIFEST").as_deref(), Some("/attempt/manifest"));
    assert_eq!(value("OPTIC_SELECTED_CRATE_NAME").as_deref(), Some("fixture"));
    assert!(command.environment.iter().any(|change| matches!(
        change,
        EnvironmentChange::Remove { name } if name == "RUSTC_BOOTSTRAP"
    )));
    assert!(prepared()
        .command("m", "/a", Err(failure(FailureKind::NotFound)), AttemptMode::Probe)
        .is_err());
}

#[test]
fn attempts_separate_warnings_from_diagnostics() {
    let mut attempt = CargoAttempt::new();
    for message in [
        CargoMessage::Diagnostic {
            level: DiagnosticLevel::Warning,
            rendered: Some("warning\n".to_owned()),
            message: String::new(),
        },
        CargoMessage::Diagnostic {
            level: DiagnosticLevel::Error,
            rendered: None,
            message: "error".to_owned(),
        },
        CargoMessage::Text("plain".to_owned()),
        CargoMessage::Text(String::new()),
        CargoMessage::Artifact(artifact()),
        CargoMessage::Finished(false),
        CargoMessage::Other,
    ] {
        attempt.accept(message, &artifact().package_id, &target());
    }
    let mut ended = match attempt.finish(
        "cargo",
        "/attempt",
        Ok(ExitReport { success: false, status: "exit status: 101".to_owned() }),
    ) {
        Ok(ended) => ended,
        Err(error) => panic!("{}", error.message()),
    };
    assert!(ended.observation.has_errors);
    assert_eq!(ended.observation.selected.len(), 1);
    assert_eq!(ended.observation.finished, [false]);
    assert!(ended.failure.is_none());
    assert_eq!(ended.replay(), ["warning\n", "error\n", "plain\n"]);
    assert_eq!(ended.replay(), ["error\n", "plain\n"]);
}

#[test]
fn the_first_unreadable_message_is_reported() {
    let mut attempt = CargoAttempt::new();
    for kind in [FailureKind::InvalidData, FailureKind::Other] {
        attempt.accept(CargoMessage::Unreadable(failure(kind)), "p", &target());
    }
    let report = ExitReport { success: true, status: "exit status: 0".to_owned() };
    let ended = attempt.finish("cargo", "/attempt", Ok(report)).ok().unwrap();
    assert!(matches!(
        ended.failure,
        Some(Failure::Filesystem { source, path, .. })
            if source.kind == FailureKind::InvalidData && path == "/attempt/stderr"
    ));
    let lost = CargoAttempt::new().finish("cargo", "/attempt", Err(failure(FailureKind::Other)));
    assert!(lost.is_err());
}

fn manifest(backend: &str, unsupported: Option<UnsupportedLlvmConfiguration>) -> CompilerManifest {
    CompilerManifest {
        instances: Vec::new(),
        artifacts: vec![ArtifactRecord { id: 4, kind: ArtifactKind::Source, length: 15 }],
        configuration: Configuration {
            backend: backend.to_owned(),
            target: "host".to_owned(),
            optimization: "3".to_owned(),
            lto: LlvmLto::LocalThin,
            incremental: false,
            linker_plugin: false,
            codegen_units: 16,
            unsupported,
        },
        modules: vec![ExpectedModule {
            name: "fixture.0".to_owned(),
            path: "/attempt/llvm/fixture.0.bc".to_owned(),
        }],
    }
}

/// Materializes with bitcode of a length, or without any, and a disassembler that works or not.
fn materialize(bitcode: Option<u64>, disassembles: bool) -> Result<Materialization, Error> {
    let text = b"define void @f() {\n  ret void\n}\n";
    let mut state = Materialization::begin(manifest("llvm", None))?;
    loop {
        let reply = match state.work(&compiler(), "/attempt") {
            CollectWork::Finished => return Ok(state),
            CollectWork::Run { argument, .. } => CollectReply::Ran(if argument == "-vV" {
                ran(true, "LLVM version: 22.1.8\n", "")
            } else {
                ran(true, "LLVM version 22.1.8-rust\n", "")
            }),
            CollectWork::Inspect { path } => CollectReply::Inspected(if path.ends_with(".bc") {
                match bitcode {
                    Some(length) => Ok(file(length, 0o600)),
                    None => Err(failure(FailureKind::NotFound)),
                }
            } else if path.ends_with("0000000000000004") {
                Ok(file(15, 0o600))
            } else {
                Ok(file(text.len() as u64, 0o600))
            }),
            CollectWork::Find { path } => {
                assert_eq!(path, "/toolchain/lib/rustlib/host/bin/llvm-dis");
                CollectReply::Found(true)
            }
            CollectWork::Disassemble { output, .. } => {
                assert_eq!(output, "/attempt/artifact-0000000000000005");
                CollectReply::Ran(ran(disassembles, "", "invalid bitcode"))
            }
            CollectWork::Open { .. } => CollectReply::Opened(Ok(ShortReader::new(text, 7))),
        };
        state = state.collect(&compiler(), "/attempt", reply)?;
    }
}

#[test]
fn expected_bitcode_failures_do_not_return_partial_collections() {
    for (bitcode, disassembles) in [
        (Some(0), true),   // Empty expected bitcode.
        (Some(15), false), // Corrupt expected bitcode.
        (None, true),      // Missing expected bitcode.
    ] {
        let error = match materialize(bitcode, disassembles) {
            Ok(_) => panic!("a missing or malformed expected module must fail collection"),
            Err(error) => error,
        };
        assert!(
            error.message().contains("/attempt/llvm/fixture.0.bc"),
            "{}",
            error.message()
        );
    }
}

#[test]
fn complete_collections_hold_every_module() {
    let evidence = materialize(Some(15), true).ok().unwrap().finish().unwrap();

    assert_eq!(evidence.provenance.llvm_version.as_deref(), Some("22.1.8"));
    assert_eq!(evidence.artifacts.len(), 2);
    assert_eq!(evidence.artifacts[1].id, 5);
    match evidence.llvm {
        LlvmCollection::Collected(modules) => {
            assert_eq!(modules.len(), 1);
            assert_eq!(modules[0].name, "fixture.0");
            assert_eq!(modules[0].definitions[0].raw_symbol(), "f");
        }
        LlvmCollection::NotCaptured(_) => panic!("the modules are collected"),
    }
}

#[test]
fn unsupported_configurations_keep_their_sources() {
    let reason = UnsupportedLlvmConfiguration::OtherBackend;
    let state = Materialization::begin(manifest("cranelift", Some(reason))).ok().unwrap();
    let reply: CollectReply<ShortReader> = CollectReply::Inspected(Ok(file(15, 0o600)));
    let state = state.collect(&compiler(), "/attempt", reply).ok().unwrap();
    let evidence = state.finish().unwrap();
    assert!(matches!(
        evidence.llvm,
        LlvmCollection::NotCaptured(UnsupportedLlvmConfiguration::OtherBackend)
    ));

    let state = Materialization::begin(manifest("cranelift", Some(reason))).ok().unwrap();
    let reply: CollectReply<ShortReader> = CollectReply::Inspected(Ok(file(14, 0o600)));
    assert!(state.collect(&compiler(), "/attempt", reply).is_err());
}

#[test]
fn packages_and_targets_are_resolved_by_name() {
    let packages = vec![Package {
        name: "fixture".to_owned(),
        version: "0.1.0".to_owned(),
        id: "id".to_owned(),
        manifest_path: "/workspace/member/Cargo.toml".to_owned(),
        targets: vec![target()],
    }];
    let package = resolve_package(&packages, "fixture").unwrap();
    assert_eq!(resolve_target(package, &CargoTarget::Library).unwrap().name, "fixture");
    assert!(resolve_target(package, &CargoTarget::Binary("x".to_owned())).is_err());
    assert!(resolve_package(&packages, "other").is_err());
}

fn variables() -> CompilerVariables {
    CompilerVariables {
        rustc: None,
        build_rustc: None,
        wrapper: None,
        build_wrapper: None,
        workspace_wrapper: None,
        build_workspace_wrapper: None,
    }
}

fn inspect(configuration: &str, variables: &CompilerVariables) -> Result<CompilerContext, Error> {
    let mut state = CompilerInspection::Configuring;
    for reply in [
        CompilerReply::Ran(ran(true, configuration, "")),
        CompilerReply::Ran(ran(true, "release: 1\ncommit-hash: c\nhost: h\n", "")),
        CompilerReply::Ran(ran(true, "/sysroot\n", "")),
        CompilerReply::Resolved(Ok("/real/sysroot".to_owned())),
        CompilerReply::Resolved(Ok("/real/sysroot/bin/rustc".to_owned())),
    ] {
        state = state.discover("cargo", variables, reply);
    }
    match state {
        CompilerInspection::Finished(result) => result,
        _ => panic!("the inspection is over"),
    }
}

#[test]
fn only_the_default_compiler_is_supported() {
    let context = inspect("", &variables()).unwrap();
    assert_eq!(context.identity.rustc, "/real/sysroot/bin/rustc");
    assert!(!context.wrappers_configured);
    assert!(warn_of_wrappers(&context).is_empty());

    let wrapped = inspect("build.rustc-wrapper = \"sccache\"\n", &variables()).unwrap();
    assert!(wrapped.wrappers_configured);
    assert_eq!(warn_of_wrappers(&wrapped).len(), 2);

    let disabled = CompilerVariables { wrapper: Some(String::new()), ..variables() };
    let context = inspect("build.rustc-wrapper = \"sccache\"\n", &disabled).unwrap();
    assert!(!context.wrappers_configured);

    assert!(inspect("build.rustc = \"custom\"\n", &variables()).is_err());
    let custom = CompilerVariables { rustc: Some("custom".to_owned()), ..variables() };
    assert!(inspect("", &custom).is_err());
}

#[test]
fn preparation_resolves_before_it_provisions() {
    let workspace = workspace();
    let request = BuildRequest::new("fixture", CargoTarget::Library, "release").unwrap();
    let variables = PreparationVariables {
        compiler: variables(),
        cargo_home: None,
        home: Some("/home/u".to_owned()),
    };
    let members = vec![Package {
        name: "fixture".to_owned(),
        version: "0.1.0".to_owned(),
        id: "id".to_owned(),
        manifest_path: "/workspace/member/Cargo.toml".to_owned(),
        targets: vec![target()],
    }];
    let mut state = Preparation::Metadata;
    for reply in [
        PreparationReply::Members(Ok(WorkspaceMembers {
            root: "/workspace".to_owned(),
            packages: members,
        })),
        PreparationReply::Resolved(Ok("/workspace/member".to_owned())),
        PreparationReply::Compiler(CompilerReply::Ran(ran(true, "", ""))),
        PreparationReply::Compiler(CompilerReply::Ran(ran(
            true,
            "release: 1\ncommit-hash: c\nhost: h\n",
            "",
        ))),
        PreparationReply::Compiler(CompilerReply::Ran(ran(true, "/s\n", ""))),
        PreparationReply::Compiler(CompilerReply::Resolved(Ok("/s".to_owned()))),
        PreparationReply::Compiler(CompilerReply::Resolved(Ok("/s/bin/rustc".to_owned()))),
    ] {
        state = prepare_build(&workspace, &request, &variables, &sources(), state, reply)
            .ok()
            .unwrap();
    }
    let plan = match state {
        Preparation::Driver(package, root, context, plan, Provision::CreatingRoot) => {
            assert_eq!(plan.root, "/home/u/.cargo/optic/drivers");
            (package, root, context, plan)
        }
        _ => panic!("the driver is provisioned next"),
    };
    let (package, root, context, plan) = plan;
    let entry = plan.entry.clone();
    let mut state = Preparation::CargoVersion(package, root, context, plan);
    for reply in [
        PreparationReply::Ran(ran(true, "cargo 1.98.1\n", "")),
        PreparationReply::Resolved(Ok("/home/u/.cargo".to_owned())),
        PreparationReply::Serialized(Ok(b"inputs".to_vec())),
    ] {
        state = prepare_build(&workspace, &request, &variables, &sources(), state, reply)
            .ok()
            .unwrap();
    }
    match state {
        Preparation::Prepared(prepared) => {
            assert_eq!(prepared.driver, format!("{entry}/optic-rustc-driver"));
            assert_eq!(prepared.package_root, "/workspace/member");
            assert_eq!(prepared.request_key().len(), 64);
        }
        _ => panic!("the request is prepared"),
    }

    let missing = prepare_build(
        &workspace,
        &request,
        &variables,
        &sources(),
        Preparation::Metadata,
        PreparationReply::Members(Ok(WorkspaceMembers {
            root: "/workspace".to_owned(),
            packages: Vec::new(),
        })),
    );
    assert!(matches!(missing, Err(Failure::PackageNotFound { .. })));
}

#[test]
fn rejects_relative_invocation_directories() {
    assert!(matches!(
        plan_discovery("relative", &None),
        Err(Failure::InvocationDirectoryNotAbsolute { path }) if path == "relative"
    ));
}

fn follow(attempt: EndedAttempt, receipt: Option<Vec<u8>>, exists: bool) -> Result<Freshness, Error> {
    let (prepared, candidate) = (prepared(), candidate("key"));
    let mut ran = Some(attempt);
    let mut state = Probe::Running;
    loop {
        let reply = match state {
            Probe::Classified(_, result) => return result,
            Probe::Running => ProbeReply::Ran(Ok(ran.take().unwrap())),
            Probe::Receipt(_, ReceiptStep::Read) => {
                ProbeReply::Receipt(ReceiptReply::Contents(Ok(receipt.clone().unwrap())))
            }
            Probe::Receipt(..) => ProbeReply::Receipt(ReceiptReply::Inspected(match &receipt {
                Some(bytes) => Ok(file(bytes.len() as u64, 0o600)),
                None => Err(failure(FailureKind::NotFound)),
            })),
            Probe::Looking(..) => ProbeReply::Found(Ok(exists)),
        };
        state = follow_probe(&prepared, &candidate, "/attempt", state, reply)?;
    }
}

#[test]
fn probes_are_followed_to_a_verdict() {
    let receipt = header(&selected_target_marker(&candidate("key").token));
    let stopped = || ended(false, CargoObservation::default());
    let fresh = || ended(true, fresh_observation());

    assert_eq!(follow(fresh(), None, false).unwrap(), Freshness::Fresh);
    assert_eq!(follow(stopped(), Some(receipt.clone()), false).unwrap(), Freshness::Stale);
    assert!(follow(fresh(), Some(receipt.clone()), false).is_err());
    assert!(follow(stopped(), Some(receipt.clone()), true).is_err());
    assert!(follow(stopped(), Some(vec![0; receipt.len()]), false).is_err());
    assert!(follow(stopped(), None, false).is_err());

    let unreadable = EndedAttempt {
        failure: Some(Failure::PackageNotFound { package: "fixture".to_owned() }),
        ..fresh()
    };
    assert!(matches!(follow(unreadable, None, false), Err(Failure::PackageNotFound { .. })));
}

fn collect(backend: &str, attempt: EndedAttempt, token: &str, written: &str) -> Result<usize, Error> {
    let prepared = prepared();
    let mut writer = ManifestWriter::create(&selected_target_marker(written));
    writer
        .write_configuration(&Configuration {
            backend: backend.to_owned(),
            target: "host".to_owned(),
            optimization: "3".to_owned(),
            lto: LlvmLto::Off,
            incremental: false,
            linker_plugin: false,
            codegen_units: 1,
            unsupported: if backend == "llvm" {
                None
            } else {
                Some(UnsupportedLlvmConfiguration::OtherBackend)
            },
        })
        .unwrap();
    if backend == "llvm" {
        writer.write_module("fixture.0", "/attempt/llvm/fixture.0.bc").unwrap();
    }
    let bytes = writer.finish();
    let text = b"define void @f() {\n  ret void\n}\n";

    let mut ran_cargo = Some(attempt);
    let mut state = Collection::Running;
    loop {
        let reply = match state {
            Collection::Collected(build) => {
                let (_, _, analysis, manifest) = build.into_parts("capture".to_owned());
                assert_eq!(analysis.token, token);
                assert_eq!(analysis.request_key, "key");
                assert_eq!(manifest.capture_id, "capture");
                return Ok(match manifest.llvm {
                    LlvmCollection::Collected(modules) => modules.len(),
                    LlvmCollection::NotCaptured(_) => 0,
                });
            }
            Collection::Running => CollectionReply::Ran(Ok(ran_cargo.take().unwrap())),
            Collection::Receipt(..) => CollectionReply::Receipt(ReceiptReply::Inspected(Err(
                failure(FailureKind::NotFound),
            ))),
            Collection::Manifest(_) => CollectionReply::Opened(Ok(ShortReader::new(&bytes, 3))),
            Collection::Materializing(_, ref modules) => {
                CollectionReply::Materialized(match modules.work(&compiler(), "/attempt") {
                    CollectWork::Run { argument, .. } if argument == "-vV" => {
                        CollectReply::Ran(ran(true, "LLVM version: 22.1.8\n", ""))
                    }
                    CollectWork::Run { .. } => {
                        CollectReply::Ran(ran(true, "LLVM version 22.1.8\n", ""))
                    }
                    CollectWork::Inspect { .. } => CollectReply::Inspected(Ok(file(9, 0o600))),
                    CollectWork::Find { .. } => CollectReply::Found(true),
                    CollectWork::Disassemble { .. } => CollectReply::Ran(ran(true, "", "")),
                    _ => CollectReply::Opened(Ok(ShortReader::new(text, 7))),
                })
            }
        };
        state = collect_new_token(&prepared, token, "/attempt", state, reply)?;
    }
}

#[test]
fn collections_are_followed_to_their_evidence() {
    let compiled = || {
        let mut artifact = artifact();
        artifact.fresh = false;
        ended(
            true,
            CargoObservation { selected: vec![artifact], finished: vec![true], has_errors: false },
        )
    };

    assert_eq!(collect("llvm", compiled(), "token", "token").unwrap(), 1);
    assert_eq!(collect("cranelift", compiled(), "token", "token").unwrap(), 0);
    assert!(matches!(
        collect("llvm", compiled(), "token", "other"),
        Err(Failure::InvalidManifest { .. })
    ));
    assert!(collect("llvm", ended(true, fresh_observation()), "token", "token").is_err());
    assert!(matches!(
        collect("llvm", ended(false, CargoObservation::default()), "token", "token"),
        Err(Failure::ProcessFailed { .. })
    ));
}

use cargo_optic::ir::capture::{
    artifact_provenance, cargo_command, compiler_environment, compiler_invocation, describe,
    disassemble_module, extend_diagnostics, injected_rustc_arguments, remarks_directory,
    remove_generated_llvm_text, EnvironmentVariable, LlvmStage, LtoScope, RemarkEvidence, UnstableAccessScope,
    MAX_DISASSEMBLER_DIAGNOSTIC_BYTES,
};
use cargo_optic::ir::disassembly::{run_disassembler, Disassembly, DisassemblyReply};
use cargo_optic::ir::error::{Error, Failure};
use cargo_optic::ir::llvm::ScanError;
use cargo_optic::ir::remark_files::{
    is_optimization_remark, normalized_remark_name, DirectoryEntry, RemarkCollection,
    RemarkCollectionLimits, RemarkPaths,
};
use cargo_optic::ir::request::{BuildRequest, CaptureProfile, CargoTarget};
use cargo_optic::process::ExitReport;
use cargo_optic::source::{FailureKind, ShortReader, SourceError};

const REMARK: &str = r#"--- !Passed
Pass: inline
Name: Inlined
Function: _Z8functionv
Args:
  - String: inlined
...
"#;

fn request(capture_profile: CaptureProfile) -> BuildRequest {
    BuildRequest {
        workspace_root: "/workspace".to_owned(),
        manifest_path: None,
        package: Some("example".to_owned()),
        target: None,
        profile: Some("release".to_owned()),
        features: Vec::new(),
        all_features: false,
        no_default_features: false,
        target_triple: None,
        locked: false,
        offline: false,
        frozen: false,
        capture_profile,
        capture_remarks: false,
        analysis_directory: "/analysis".to_owned(),
    }
}

/// Collects remark files as a directory walk would hand them over.
fn collect(
    files: &[(&str, &str)],
    limits: RemarkCollectionLimits,
) -> Result<Vec<RemarkEvidence>, Error> {
    let mut paths = RemarkPaths::new();
    for (path, contents) in files {
        let name = path.rsplit('/').next().unwrap().to_owned();
        let entry = DirectoryEntry { is_file: true, name, path: (*path).to_owned() };
        if let Some(path) = paths.accept_entry("/remarks", &limits, Ok(entry))? {
            paths.accept_length("/remarks", &limits, path, Ok(contents.len() as u64))?;
        }
    }
    let mut collection = RemarkCollection::new();
    let mut evidence = Vec::new();
    for item in paths.finish() {
        let contents = files.iter().find(|(path, _)| *path == item.path).unwrap().1;
        evidence.push(collection.accept_file(
            "/remarks",
            &limits,
            &item.path,
            ShortReader::new(contents.as_bytes(), 7),
            contents.len() as u64,
        )?);
    }
    Ok(evidence)
}

fn failure(kind: FailureKind) -> SourceError {
    SourceError { kind, message: "fixture".to_owned() }
}

#[test]
fn faithful_capture_changes_only_evidence_emission() {
    let arguments = injected_rustc_arguments(&request(CaptureProfile::Faithful));

    assert!(
        arguments
            .windows(2)
            .any(|pair| pair == ["-C", "save-temps"])
    );
    assert!(!arguments.iter().any(|argument| argument == "no-link"));
    assert!(
        !arguments
            .iter()
            .any(|argument| argument.starts_with("symbol-mangling-version="))
    );
    assert!(
        !arguments
            .iter()
            .any(|argument| argument.starts_with("debuginfo="))
    );
    assert!(!arguments.iter().any(|argument| argument == "remark=all"));
    assert!(
        !arguments
            .iter()
            .any(|argument| argument.starts_with("remark-dir="))
    );
}

#[test]
fn enriched_and_experiment_profiles_record_their_arguments() {
    let enriched = injected_rustc_arguments(&request(CaptureProfile::Enriched));
    let experiment = injected_rustc_arguments(&request(CaptureProfile::Experiment {
        rustc_arguments: vec!["-C".to_owned(), "target-cpu=native".to_owned()],
    }));

    assert!(
        enriched
            .iter()
            .any(|argument| argument == "symbol-mangling-version=v0")
    );
    assert!(
        enriched
            .iter()
            .any(|argument| argument == "debuginfo=line-tables-only")
    );
    assert!(
        experiment
            .windows(2)
            .any(|pair| pair == ["-C", "target-cpu=native"])
    );
}

#[test]
fn remark_capture_records_arguments_without_forcing_debug_information() {
    let mut request = request(CaptureProfile::Faithful);
    request.capture_remarks = true;

    let arguments = injected_rustc_arguments(&request);

    assert!(
        arguments
            .windows(2)
            .any(|pair| pair == ["-C", "remark=all"])
    );
    assert!(
        arguments
            .windows(2)
            .any(|pair| { pair[0] == "-Z" && pair[1] == "remark-dir=/analysis/remarks" })
    );
    assert!(
        !arguments
            .iter()
            .any(|argument| argument.starts_with("debuginfo="))
    );
}

#[test]
fn preserves_exact_thin_lto_stage_provenance() {
    let provenance = artifact_provenance("example.cgu.0.rcgu.thin-lto-after-import.bc");

    assert_eq!(provenance.compiler_stage, "thin-lto-after-import");
    assert_eq!(provenance.stage, None);
    assert_eq!(provenance.lto, LtoScope::Thin);

    let rename = artifact_provenance("example.cgu.0.rcgu.thin-lto-after-rename.bc");
    assert_eq!(rename.compiler_stage, "thin-lto-after-rename");
    assert_eq!(rename.stage, None);
    assert_eq!(rename.lto, LtoScope::Thin);
    assert_eq!(provenance.codegen_unit.as_deref(), Some("example.cgu.0"));

    let optimized = artifact_provenance("example.cgu.0.rcgu.bc");
    assert_eq!(optimized.stage, Some(LlvmStage::Optimized));
}

#[test]
fn removes_generated_llvm_text_after_a_successful_scan() {
    let value = remove_generated_llvm_text("module.bc.ll", Ok("indexed"), Ok(()))
        .expect("the generated LLVM text can be removed");

    assert_eq!(value, "indexed");
}

#[test]
fn removes_generated_llvm_text_after_a_failed_scan() {
    let scan: Result<(), Error> = Err(Failure::InvalidLlvm {
        path: "module.bc.ll".to_owned(),
        fault: ScanError::UnclosedFunction,
    });

    let result = remove_generated_llvm_text("module.bc.ll", scan, Ok(()));

    assert!(matches!(result, Err(Failure::InvalidLlvm { .. })));
}

#[test]
fn preserves_a_scan_error_when_generated_text_removal_fails() {
    let scan: Result<(), Error> = Err(Failure::InvalidLlvm {
        path: "module.bc.ll".to_owned(),
        fault: ScanError::UnclosedFunction,
    });

    let result =
        remove_generated_llvm_text("module.bc.ll", scan, Err(failure(FailureKind::Other)));

    assert!(matches!(
        result,
        Err(Failure::InvalidLlvm { fault: ScanError::UnclosedFunction, .. })
    ));
}

#[test]
fn a_failed_removal_is_reported_behind_a_successful_scan() {
    let result = remove_generated_llvm_text(
        "module.bc.ll",
        Ok(()),
        Err(failure(FailureKind::PermissionDenied)),
    );

    assert!(matches!(
        result,
        Err(Failure::Filesystem { path, .. }) if path == "module.bc.ll"
    ));
}

#[test]
fn collects_only_optimization_pipeline_remarks() {
    let remarks = collect(
        &[
            ("/remarks/crate-b.opt.opt.yaml", REMARK),
            ("/remarks/nested/crate-a.opt.opt.yaml", REMARK),
            ("/remarks/crate.codegen.opt.yaml", "not yaml"),
            ("/remarks/unrelated.yaml", "not yaml"),
        ],
        RemarkCollectionLimits::default(),
    )
    .expect("the selected optimization remarks are valid");

    assert_eq!(remarks.len(), 2);
    assert_eq!(remarks[0].name, "crate-b.opt.opt.yaml");
    assert_eq!(remarks[1].name, "nested/crate-a.opt.opt.yaml");
    assert_eq!(remarks[0].raw_path, "/remarks/crate-b.opt.opt.yaml");
    assert_eq!(remarks[1].raw_path, "/remarks/nested/crate-a.opt.opt.yaml");
    assert_eq!(remarks[0].records[0].pass_name, "inline");
}

#[test]
fn rejects_aggregate_remark_file_and_byte_limits() {
    let files = [
        ("/remarks/a.opt.opt.yaml", REMARK),
        ("/remarks/b.opt.opt.yaml", REMARK),
    ];

    let file_error = collect(
        &files,
        RemarkCollectionLimits {
            max_files: 1,
            ..RemarkCollectionLimits::default()
        },
    )
    .expect_err("two files exceed a one-file collection limit");
    let byte_error = collect(
        &files,
        RemarkCollectionLimits {
            max_bytes: (REMARK.len() * 2 - 1) as u64,
            ..RemarkCollectionLimits::default()
        },
    )
    .expect_err("the files exceed the aggregate byte limit");
    let record_error = collect(
        &files,
        RemarkCollectionLimits {
            max_records: 1,
            ..RemarkCollectionLimits::default()
        },
    )
    .expect_err("the files exceed the aggregate record limit");

    assert!(
        file_error
            .message()
            .contains("file count exceeds 1, got 2")
    );
    assert!(
        byte_error
            .message()
            .contains("aggregate file length exceeds")
    );
    assert!(
        record_error
            .message()
            .contains("aggregate record count exceeds 1, got 2")
    );
}

#[test]
fn rejects_a_malformed_selected_remark_file() {
    let error = collect(
        &[("/remarks/invalid.opt.opt.yaml", "--- !Passed\nPass: [invalid\n")],
        RemarkCollectionLimits::default(),
    )
    .expect_err("the selected remark file is malformed");

    assert!(error.message().contains("invalid YAML"));
}

#[test]
fn remark_files_have_the_pipeline_suffix() {
    assert!(is_optimization_remark("crate.opt.opt.yaml"));
    assert!(!is_optimization_remark("crate.codegen.opt.yaml"));
    assert_eq!(
        normalized_remark_name("/remarks", "/remarks/a/b.opt.opt.yaml").unwrap(),
        "a/b.opt.opt.yaml"
    );
    assert!(normalized_remark_name("/remarks", "/elsewhere/b.opt.opt.yaml").is_err());
    assert_eq!(remarks_directory("/analysis"), "/analysis/remarks");
}

#[test]
fn cargo_commands_hold_every_selection() {
    let mut request = request(CaptureProfile::Faithful);
    request.manifest_path = Some("/workspace/Cargo.toml".to_owned());
    request.target = Some(CargoTarget::Binary("tool".to_owned()));
    request.features = vec!["a".to_owned(), "b".to_owned()];
    request.locked = true;

    let arguments = cargo_command(&request);

    assert_eq!(arguments[0], "rustc");
    for pair in [
        ["--manifest-path", "/workspace/Cargo.toml"],
        ["--package", "example"],
        ["--bin", "tool"],
        ["--profile", "release"],
        ["--features", "a,b"],
    ] {
        assert!(arguments.windows(2).any(|window| window == pair), "{pair:?}");
    }
    assert!(arguments.iter().any(|argument| argument == "--locked"));
    assert!(!arguments.iter().any(|argument| argument == "--offline"));
}

#[test]
fn compiler_invocations_name_a_program() {
    let arguments = ["rustc".to_owned(), "lib.rs".to_owned()];
    let invocation = compiler_invocation(&arguments).unwrap();

    assert_eq!(invocation.program, "rustc");
    assert_eq!(invocation.arguments, ["lib.rs"]);
    assert!(compiler_invocation(&[]).is_err());
}

#[test]
fn compiler_variables_are_selected_and_sorted() {
    let variable = |name: &str| EnvironmentVariable {
        name: name.to_owned(),
        value: "value".to_owned(),
    };
    let selected = compiler_environment(vec![
        variable("RUSTFLAGS"),
        variable("PATH"),
        variable("CARGO_ENCODED_RUSTFLAGS"),
    ]);
    let names: Vec<&str> = selected.iter().map(|variable| variable.name.as_str()).collect();

    assert_eq!(names, ["CARGO_ENCODED_RUSTFLAGS", "RUSTFLAGS"]);
}

#[test]
fn modules_take_their_names_from_their_files() {
    let module = disassemble_module("/analysis/example.cgu.0.rcgu.bc", "/analysis");

    assert_eq!(module.name, "example.cgu.0.rcgu.bc");
    assert_eq!(module.bitcode_path, "/analysis/example.cgu.0.rcgu.bc");
    assert_eq!(module.text_path, "/analysis/example.cgu.0.rcgu.bc.ll");
    assert_eq!(module.provenance.stage, Some(LlvmStage::Optimized));
}

#[test]
fn descriptions_authorize_unstable_access() {
    let invocation = describe(
        &request(CaptureProfile::Faithful),
        "cargo",
        vec!["wrapper".to_owned()],
        Vec::new(),
    );

    assert_eq!(invocation.cargo.program, "cargo");
    assert_eq!(invocation.wrapper_chain, ["wrapper"]);
    assert!(
        invocation
            .unstable_access
            .authorized_scopes
            .contains(&UnstableAccessScope::SelectedTarget)
    );
}

#[test]
fn disassembler_diagnostics_keep_their_end() {
    let mut diagnostics = Vec::new();
    extend_diagnostics(&mut diagnostics, &vec![b'a'; MAX_DISASSEMBLER_DIAGNOSTIC_BYTES]);
    extend_diagnostics(&mut diagnostics, b"end");

    assert!(diagnostics.ends_with(b"aend"));
    assert_eq!(diagnostics.len(), MAX_DISASSEMBLER_DIAGNOSTIC_BYTES);
}

#[test]
fn disassemblers_are_followed_to_their_end() {
    let step = |state: Disassembly, reply: DisassemblyReply| {
        run_disassembler("/bin/llvm-dis", state, reply)
    };
    let ended = |success: bool| {
        DisassemblyReply::Ended(Ok(ExitReport { success, status: "exit status: 1".to_owned() }))
    };
    let waiting = || {
        let mut state = Disassembly::Starting;
        for reply in [
            DisassemblyReply::Started(Ok(())),
            DisassemblyReply::Read(Ok(b"bad ".to_vec())),
            DisassemblyReply::Read(Ok(b"record".to_vec())),
            DisassemblyReply::Read(Ok(Vec::new())),
        ] {
            state = step(state, reply).unwrap();
        }
        state
    };

    assert!(matches!(step(waiting(), ended(true)), Ok(Disassembly::Done)));
    assert_eq!(
        step(waiting(), ended(false)).unwrap_err().message(),
        "/bin/llvm-dis failed with status exit status: 1\nbad record"
    );
    assert_eq!(
        step(waiting(), DisassemblyReply::Ended(Err(failure(FailureKind::Other))))
            .unwrap_err()
            .message(),
        "failed to wait for /bin/llvm-dis: fixture"
    );
    assert_eq!(
        step(
            Disassembly::Starting,
            DisassemblyReply::Started(Err(failure(FailureKind::NotFound))),
        )
        .unwrap_err()
        .message(),
        "failed to start /bin/llvm-dis: fixture"
    );
    assert_eq!(
        step(
            Disassembly::Reading(Vec::new()),
            DisassemblyReply::Read(Err(failure(FailureKind::BrokenPipe))),
        )
        .unwrap_err()
        .message(),
        "failed to read diagnostics from /bin/llvm-dis: fixture"
    );
}

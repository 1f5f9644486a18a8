use cargo_optic::capture::warn_unavailable_llvm;
use cargo_optic::compiler::artifacts::LlvmCollection;
use cargo_optic::compiler::writer::OptLevel;
use cargo_optic::records::{SourceUnavailable, UnsupportedLlvmConfiguration};
use cargo_optic::session::arguments::{
    filter_response_file, remove_selected_target_marker, MarkerProblem, MarkerRemoval,
    RemovalReply,
};
use cargo_optic::session::invocation::{end_session, prepare_invocation, SessionEnd};
use cargo_optic::session::llvm::{
    configure, LtoCli, ObservedConfiguration, SessionFacts, SessionLto, SessionOptions,
    VERIFIED_COMMIT,
};
use cargo_optic::session::snapshots::{
    capture as capture_span, FileState, LoadedFile, Snapshots, SpanFacts,
};
use cargo_optic::session::wrapper::run;

const MARKER: &str = "--cfg=cargo_optic_selected_target=\"fixture\"";

/// Removes the marker with response files that hold the given contents.
fn remove(
    arguments: &[&str],
    contents: &str,
) -> Result<(bool, Vec<String>, Option<String>), MarkerProblem<String>> {
    let arguments = arguments.iter().map(|argument| (*argument).to_owned()).collect();
    let mut written = None;
    let mut state = remove_selected_target_marker(arguments, MARKER)?;
    loop {
        let reply = match state {
            MarkerRemoval::Done { arguments, selected } => {
                return Ok((selected, arguments, written));
            }
            MarkerRemoval::Read { .. } => RemovalReply::Contents(Ok(contents.to_owned())),
            MarkerRemoval::Write { ref contents, .. } => {
                written = Some(contents.clone());
                RemovalReply::Wrote(Ok(()))
            }
        };
        state = state.proceed(MARKER, "/out", 7, reply)?;
    }
}

fn assert_rejects_duplicate_markers(direct_count: usize, response_count: usize) {
    let contents = format!("{MARKER}\n").repeat(response_count);
    let mut arguments = vec![MARKER; direct_count];
    arguments.push("@/tmp/arguments.rsp");

    let error = remove(&arguments, &contents).expect_err("duplicate markers must be rejected");

    assert_eq!(
        error.message(),
        "selected-target marker must appear at most once, got 2"
    );
}

#[test]
fn rejects_duplicate_direct_markers() {
    assert_rejects_duplicate_markers(2, 0);
}

#[test]
fn rejects_duplicate_response_file_markers() {
    assert_rejects_duplicate_markers(0, 2);
}

#[test]
fn rejects_markers_in_both_direct_arguments_and_a_response_file() {
    assert_rejects_duplicate_markers(1, 1);
}

#[test]
fn removes_a_direct_marker() {
    let (selected, arguments, _) =
        remove(&["rustc", MARKER, "input.rs"], "").expect("the direct marker can be removed");

    assert!(selected);
    assert_eq!(arguments, ["rustc", "input.rs"]);
}

#[test]
fn preserves_an_absent_marker() {
    let contents = "--crate-name\nfixture\ninput.rs\n";

    let (selected, arguments, written) = remove(&["rustc", "@/tmp/arguments.rsp"], contents)
        .expect("the absent marker can be checked");

    assert!(!selected);
    assert_eq!(arguments, ["rustc", "@/tmp/arguments.rsp"]);
    assert_eq!(written, None);
}

#[test]
fn preserves_a_shell_style_response_file() {
    let expected = ["rustc", "-Zshell-argfiles", "@shell:arguments.rsp"];

    let (selected, arguments, _) =
        remove(&expected, MARKER).expect("the shell-style response file can pass through");

    assert!(!selected);
    assert_eq!(arguments, expected);
}

#[test]
fn filters_a_line_feed_response_file() {
    let contents = format!("--crate-name\nfixture\n{MARKER}\ninput.rs\n");

    let (selected, arguments, written) = remove(&["rustc", "@/tmp/arguments.rsp"], &contents)
        .expect("the response-file marker can be removed");

    assert!(selected);
    assert_eq!(arguments, ["rustc", "@/out/optic-rustc-arguments-7-1.rsp"]);
    assert_eq!(
        written.as_deref(),
        Some("--crate-name\nfixture\ninput.rs\n")
    );
}

#[test]
fn filters_a_carriage_return_response_file_without_other_changes() {
    let contents = format!("--crate-name\r\nfixture\r\n{MARKER}\r\ninput.rs");

    let (filtered, count) = filter_response_file(&contents, MARKER);

    assert_eq!(count, 1);
    assert_eq!(filtered, "--crate-name\r\nfixture\r\ninput.rs");
}

#[test]
fn filtering_twice_changes_nothing_more() {
    let contents = format!("a\n{MARKER}\nb\n{MARKER}");
    let (once, count) = filter_response_file(&contents, MARKER);
    assert_eq!((once.as_str(), count), ("a\nb\n", 2));
    let (twice, count) = filter_response_file(&once, MARKER);
    assert_eq!((twice.as_str(), count), ("a\nb\n", 0));
}

#[test]
fn response_file_failures_name_their_path() {
    let state =
        remove_selected_target_marker(vec!["@/tmp/a.rsp".to_owned()], MARKER).unwrap();
    let error = state
        .proceed(MARKER, "/out", 7, RemovalReply::Contents(Err("gone".to_owned())))
        .unwrap_err();
    assert_eq!(
        error.message(),
        "rustc response file must be readable UTF-8 at /tmp/a.rsp, got gone"
    );

    let state =
        remove_selected_target_marker(vec!["@/tmp/a.rsp".to_owned()], MARKER).unwrap();
    let state = state
        .proceed(MARKER, "/out", 7, RemovalReply::Contents(Ok(MARKER.to_owned())))
        .unwrap();
    let error = state
        .proceed(MARKER, "/out", 7, RemovalReply::Wrote(Err("full".to_owned())))
        .unwrap_err();
    assert_eq!(
        error.message(),
        "filtered rustc response file must be writable at /out/optic-rustc-arguments-7-0.rsp, got full"
    );
}

#[test]
fn wrappers_forward_unselected_invocations() {
    let texts = |values: &[&str]| -> Vec<String> {
        values.iter().map(|value| (*value).to_owned()).collect()
    };
    let marker = Some(MARKER.to_owned());

    let command = run(texts(&["rustc", "a.rs"]), &marker, Ok("/driver".to_owned())).unwrap();
    assert_eq!((command.program.as_str(), command.inner), ("rustc", false));
    assert_eq!(command.arguments, ["a.rs"]);

    let command =
        run(texts(&["rustc", MARKER, "a.rs"]), &marker, Ok("/driver".to_owned())).unwrap();
    assert_eq!((command.program.as_str(), command.inner), ("/driver", true));
    assert_eq!(command.arguments, ["rustc", "a.rs"]);

    let error = run(Vec::new(), &marker, Ok("/driver".to_owned())).unwrap_err();
    assert_eq!(error.message(), "optic rustc wrapper must receive a compiler path, got none");
    let error = run(texts(&["rustc"]), &None, Ok("/driver".to_owned())).unwrap_err();
    assert_eq!(error.message(), "OPTIC_SELECTED_TARGET_MARKER is not set");
    let error = run(texts(&["rustc", MARKER]), &marker, Err("lost".to_owned())).unwrap_err();
    assert_eq!(error.message(), "failed to find the rustc driver: lost");
}

#[test]
fn invocations_need_readable_arguments_and_a_manifest() {
    let path = Some("/attempt/manifest".to_owned());
    let invocation =
        prepare_invocation(&vec![Some("rustc".to_owned())], path.clone()).unwrap();
    assert_eq!(invocation.arguments, ["rustc"]);
    assert_eq!(invocation.manifest_path, "/attempt/manifest");

    for (arguments, path, expected) in [
        (vec![None], path.clone(), "got a non-UTF-8 argument"),
        (Vec::new(), path, "got none"),
        (vec![Some("rustc".to_owned())], None, "OPTIC_COMPILER_MANIFEST is not set"),
    ] {
        let error = prepare_invocation(&arguments, path).unwrap_err();
        assert!(error.message().contains(expected), "{}", error.message());
    }
}

#[test]
fn sessions_complete_only_behind_an_analysis() {
    assert!(matches!(end_session(true, Some(Ok(())), "m"), SessionEnd::Complete));
    assert!(matches!(end_session(false, Some(Ok(())), "m"), SessionEnd::Compiler));
    assert!(matches!(end_session(true, None, "m"), SessionEnd::Success));
    match end_session(true, Some(Err("full".to_owned())), "m") {
        SessionEnd::Failure(problem) => assert_eq!(problem.message(), "failed to write m: full"),
        _ => panic!("a failed analysis is a failure"),
    }
}

fn options() -> SessionOptions {
    SessionOptions {
        commit: VERIFIED_COMMIT.to_owned(),
        backend: None,
        default_backend: None,
        incremental: false,
        linker_plugin: false,
        requires_lto: false,
        lto: LtoCli::Unspecified,
    }
}

#[test]
fn configurations_are_classified_in_order() {
    let cases = [
        (options(), 0),
        (SessionOptions { commit: "other".to_owned(), incremental: true, ..options() }, 6),
        (SessionOptions { backend: Some("cranelift".to_owned()), ..options() }, 5),
        (SessionOptions { default_backend: Some("gcc".to_owned()), ..options() }, 5),
        (SessionOptions { incremental: true, linker_plugin: true, ..options() }, 1),
        (SessionOptions { linker_plugin: true, lto: LtoCli::Fat, ..options() }, 4),
        (SessionOptions { requires_lto: true, ..options() }, 3),
        (SessionOptions { lto: LtoCli::NoParam, ..options() }, 3),
        (SessionOptions { lto: LtoCli::Thin, ..options() }, 2),
        (SessionOptions { lto: LtoCli::No, ..options() }, 0),
    ];
    for (options, expected) in cases {
        assert_eq!(configure(&options), expected, "{options:?}");
    }
}

fn facts(lto: SessionLto, backend: &str) -> SessionFacts {
    SessionFacts {
        backend: backend.to_owned(),
        target: "host".to_owned(),
        optimization: OptLevel::Size,
        lto,
        incremental: false,
        linker_plugin: false,
        codegen_units: 16,
    }
}

#[test]
fn retained_bitcode_has_the_extension_of_its_stage() {
    let observed = ObservedConfiguration::observed(facts(SessionLto::No, "llvm"), 0).unwrap();
    assert_eq!(observed.optimization, "s");
    assert_eq!(observed.extension(), Some("bc"));
    let observed =
        ObservedConfiguration::observed(facts(SessionLto::ThinLocal, "llvm"), 0).unwrap();
    assert_eq!(observed.extension(), Some("thin-lto-after-pm.bc"));
    let observed = ObservedConfiguration::observed(facts(SessionLto::Fat, "llvm"), 3).unwrap();
    assert_eq!((observed.lto, observed.extension()), (3, None));

    for facts in [facts(SessionLto::Thin, "llvm"), facts(SessionLto::No, "gcc")] {
        let problem = ObservedConfiguration::observed(facts, 0).unwrap_err();
        assert_eq!(
            problem.message(),
            "retained LLVM requires the supported backend and LTO mode"
        );
    }
}

fn span() -> SpanFacts {
    SpanFacts {
        local: true,
        item: true,
        synthetic: false,
        expansion: false,
        dummy: false,
        low: 102,
        high: 107,
        same_file: true,
        file: LoadedFile {
            start: 100,
            text: Some("é fn f() {}".to_owned()),
            real: true,
            has_path: true,
            path: Some("/package/src/lib.rs".to_owned()),
            line: Some(0),
        },
    }
}

#[test]
fn spans_are_captured_inside_the_package() {
    let captured = capture_span(span(), "/package").unwrap();
    assert_eq!((captured.start, captured.length, captured.starting_line), (2, 5, 1));
    assert_eq!(captured.display_path, "/package/src/lib.rs");

    let file = |change: fn(&mut LoadedFile)| {
        let mut facts = span();
        change(&mut facts.file);
        facts
    };
    let cases = [
        (SpanFacts { local: false, ..span() }, SourceUnavailable::Nonlocal),
        (SpanFacts { item: false, ..span() }, SourceUnavailable::Generated),
        (SpanFacts { synthetic: true, ..span() }, SourceUnavailable::Generated),
        (SpanFacts { expansion: true, ..span() }, SourceUnavailable::Generated),
        (SpanFacts { dummy: true, ..span() }, SourceUnavailable::UnsupportedSpan),
        (SpanFacts { high: 101, ..span() }, SourceUnavailable::UnsupportedSpan),
        (SpanFacts { same_file: false, ..span() }, SourceUnavailable::UnsupportedSpan),
        (SpanFacts { low: 101, ..span() }, SourceUnavailable::UnsupportedSpan),
        (SpanFacts { high: 200, ..span() }, SourceUnavailable::UnsupportedSpan),
        (file(|file| file.text = None), SourceUnavailable::Unloaded),
        (file(|file| file.real = false), SourceUnavailable::Generated),
        (file(|file| file.has_path = false), SourceUnavailable::Unloaded),
        (file(|file| file.path = None), SourceUnavailable::UnsupportedSpan),
        (
            file(|file| file.path = Some("/packages/lib.rs".to_owned())),
            SourceUnavailable::OutsidePackage,
        ),
        (file(|file| file.line = None), SourceUnavailable::UnsupportedSpan),
    ];
    for (facts, expected) in cases {
        assert_eq!(capture_span(facts, "/package").unwrap_err(), expected);
    }
}

#[test]
fn snapshots_are_shared_by_path() {
    let snapshots = Snapshots::new();
    assert_eq!(snapshots.find("/p/a.rs", 1), FileState::New(0));
    let snapshots = snapshots
        .capture_file("/p/a.rs".to_owned(), 1)
        .capture_file("/p/b.rs".to_owned(), 9)
        .capture_file("/p/a.rs".to_owned(), 1);
    assert_eq!(snapshots.find("/p/a.rs", 1), FileState::Written(0));
    assert_eq!(snapshots.find("/p/./b.rs", 9), FileState::Written(1));
    assert_eq!(snapshots.find("/p/a.rs", 2), FileState::Conflict);
    assert_eq!(snapshots.find("/p/c.rs", 1), FileState::New(2));
    assert_eq!(
        FileState::conflict_message(),
        "one source path must identify one compiler-loaded file"
    );
}

#[test]
fn unavailable_llvm_is_reported() {
    let llvm = LlvmCollection::NotCaptured(UnsupportedLlvmConfiguration::FatLto);
    assert_eq!(
        warn_unavailable_llvm(&llvm, "fat LTO").as_deref(),
        Some("warning: optimized LLVM was not captured: fat LTO")
    );
    assert_eq!(warn_unavailable_llvm(&LlvmCollection::Collected(Vec::new()), ""), None);
}

use cargo_optic::ir::cargo_output::{
    ArtifactSummary, BoundedTail, CargoProcessEvent, CargoRunState, ReaderMessage, StdoutReader,
    MAX_CARGO_MESSAGE_BYTES,
};
use cargo_optic::ir::error::Failure;
use cargo_optic::process::ExitReport;
use cargo_optic::source::{FailureKind, SourceError};

fn read_messages(input: &[u8], chunk: usize) -> Vec<ReaderMessage> {
    let mut reader = StdoutReader::new();
    let mut messages = Vec::new();
    for piece in input.chunks(chunk) {
        reader.push(piece, &mut messages);
    }
    reader.finish(&mut messages);
    messages
}

fn report(success: bool) -> ExitReport {
    ExitReport { success, status: "exit status: 1".to_owned() }
}

#[test]
fn parses_fragmented_diagnostics_and_artifacts() {
    let input = br#"{"reason":"compiler-message","message":{"rendered":"warning: example\n"}}
{"reason":"compiler-artifact","fresh":true}
"#;
    let messages = read_messages(input, 3);

    assert!(matches!(
        &messages[0],
        ReaderMessage::Event(CargoProcessEvent::CompilerDiagnostic { bytes })
            if bytes == b"warning: example\n"
    ));
    assert!(matches!(
        messages[1],
        ReaderMessage::Artifact { fresh: true }
    ));
}

#[test]
fn preserves_non_json_and_non_utf8_stdout() {
    let bytes = vec![0xff, b'\n'];
    let messages = read_messages(&bytes, 8192);

    assert!(matches!(
        &messages[0],
        ReaderMessage::Event(CargoProcessEvent::Stdout { bytes: actual }) if *actual == bytes
    ));
}

#[test]
fn fresh_artifacts_require_at_least_one_artifact_and_no_stale_artifacts() {
    let mut artifacts = ArtifactSummary::default();

    assert_eq!(artifacts.fresh_count(), None);

    artifacts.record(true);
    assert_eq!(artifacts.fresh_count(), Some(1));

    artifacts.record(false);
    assert_eq!(artifacts.fresh_count(), None);
}

#[test]
fn retains_only_the_end_of_failure_output() {
    let mut tail = BoundedTail::new(5);

    tail.push(b"1234");
    tail.push(b"5678");

    assert_eq!(
        tail.text(),
        "[earlier Cargo output was truncated]\n45678"
    );
}

#[test]
fn reports_an_oversized_stdout_message_after_reading_it() {
    let mut input = vec![b'x'; MAX_CARGO_MESSAGE_BYTES + 1];
    input.push(b'\n');
    let messages = read_messages(&input, 8192);

    assert!(messages.into_iter().any(|message| matches!(
        message,
        ReaderMessage::MessageLimit { actual } if actual == MAX_CARGO_MESSAGE_BYTES + 2
    )));
}

#[test]
fn runs_count_fresh_artifacts_and_forward_output() {
    let mut state = CargoRunState::new();
    let mut events = Vec::new();
    for message in [
        ReaderMessage::Artifact { fresh: true },
        ReaderMessage::Event(CargoProcessEvent::Stderr { bytes: b"cargo warning\n".to_vec() }),
    ] {
        let (next, event) = state.accept(message);
        state = next;
        events.extend(event);
    }
    let output = state
        .finish("test Cargo", Ok(ExitReport { success: true, status: "exit status: 0".into() }))
        .expect("the supervised process succeeds");

    assert!(output.status().success);
    assert_eq!(output.fresh_artifact_count(), Some(1));
    assert!(events.iter().any(|event| matches!(
        event,
        CargoProcessEvent::Stderr { bytes } if bytes == b"cargo warning\n"
    )));
}

#[test]
fn runs_report_read_errors_before_their_status() {
    let (state, _) = CargoRunState::new().accept(ReaderMessage::MessageLimit { actual: 7 });
    assert!(matches!(
        state.finish("cargo", Ok(report(false))),
        Err(Failure::CargoOutput { program, .. }) if program == "cargo"
    ));

    let source = SourceError { kind: FailureKind::Other, message: "gone".to_owned() };
    let error = match CargoRunState::new().finish("cargo", Err(source)) {
        Ok(_) => panic!("a lost process is an error"),
        Err(error) => error,
    };
    assert!(error.message().contains("gone"));
}

#[test]
fn piece_sizes_do_not_change_messages() {
    let input = b"{\"reason\":\"compiler-artifact\",\"fresh\":false}\ntext\nlast";
    let whole = format!("{:?}", read_messages(input, 8192));
    for chunk in 1..12 {
        assert_eq!(format!("{:?}", read_messages(input, chunk)), whole);
    }
}

#[test]
fn unfinished_lines_are_bounded_or_forwarded() {
    let short = read_messages(b"no line ending", 5);
    assert_eq!(short.len(), 1);
    assert!(matches!(
        &short[0],
        ReaderMessage::Event(CargoProcessEvent::Stdout { bytes }) if bytes == b"no line ending"
    ));

    let long = vec![b'x'; MAX_CARGO_MESSAGE_BYTES + 20_000];
    let mut messages = read_messages(&long, 8192);
    assert!(matches!(
        messages.pop(),
        Some(ReaderMessage::MessageLimit { actual }) if actual == long.len()
    ));
    let mut forwarded = Vec::new();
    for message in messages {
        match message {
            ReaderMessage::Event(CargoProcessEvent::Stdout { bytes }) => {
                assert!(!bytes.is_empty() && bytes.len() <= MAX_CARGO_MESSAGE_BYTES);
                forwarded.extend(bytes);
            }
            _ => panic!("only the line is forwarded"),
        }
    }
    assert_eq!(forwarded, long);
}

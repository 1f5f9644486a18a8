use cargo_optic::ir::remarks::{
    parse_optimization_remarks, parse_optimization_remarks_with, OptimizationRemark, RemarkFault, RemarkKind, RemarkParseLimits,
    RemarkSourceLocation,
};
use cargo_optic::source::{FailureKind, ShortReader, SourceError};

const MULTIPLE_REMARKS: &str = r#"--- !Passed
Pass:            inline
Name:            Inlined
DebugLoc:        { File: src/lib.rs, Line: 12, Column: 5 }
Function:        _ZN4demo6caller17h0123456789abcdefE
Hotness:         42
Args:
  - Callee:          _ZN4demo6callee17hfedcba9876543210E
    DebugLoc:        { File: src/lib.rs, Line: 4, Column: 1 }
  - String:          ' inlined into '
  - Caller:          _ZN4demo6caller17h0123456789abcdefE
...
--- !Missed
Pass:            loop-vectorize
Name:            CantVectorize
Function:        _ZN4demo8unlinked17haaaaaaaaaaaaaaaaE
Args:
  - String:          loop not vectorized
...
"#;

fn parse_fixture(
    contents: &str,
    limits: RemarkParseLimits,
) -> Result<Vec<OptimizationRemark>, RemarkFault> {
    parse_optimization_remarks(
        ShortReader::new(contents.as_bytes(), 16),
        contents.len() as u64,
        limits,
    )
}

#[test]
fn parses_multiple_linked_and_unlinked_records() {
    let parsed = parse_fixture(MULTIPLE_REMARKS, RemarkParseLimits::default()).unwrap();

    assert_eq!(parsed.len(), 2);
    assert_eq!(parsed[0].kind, RemarkKind::Passed);
    assert_eq!(parsed[0].pass_name, "inline");
    assert_eq!(parsed[0].remark_name, "Inlined");
    assert_eq!(parsed[0].function, "_ZN4demo6caller17h0123456789abcdefE");
    assert_eq!(parsed[0].hotness, Some(42));
    assert_eq!(parsed[0].arguments[0].key, "Callee");
    assert_eq!(
        parsed[0].arguments[0].source_location,
        Some(RemarkSourceLocation {
            file: "src/lib.rs".to_owned(),
            line: 4,
            column: 1,
        })
    );
    assert_eq!(
        parsed[0].message,
        "_ZN4demo6callee17hfedcba9876543210E inlined into _ZN4demo6caller17h0123456789abcdefE"
    );
    assert_eq!(parsed[1].kind, RemarkKind::Missed);
    assert_eq!(parsed[1].function, "_ZN4demo8unlinked17haaaaaaaaaaaaaaaaE");
}

#[test]
fn preserves_unknown_document_tags() {
    let yaml = r#"--- !FutureRemark
Pass: future-pass
Name: FutureName
Function: _ZN4demo6future17hbbbbbbbbbbbbbbbbE
Args:
  - String: future message
...
"#;

    let parsed = parse_fixture(yaml, RemarkParseLimits::default()).unwrap();

    assert_eq!(
        parsed[0].kind,
        RemarkKind::Unknown {
            tag: "FutureRemark".to_owned(),
        }
    );
    assert_eq!(parsed[0].function, "_ZN4demo6future17hbbbbbbbbbbbbbbbbE");
    assert_eq!(parsed[0].message, "future message");
}

#[test]
fn classifies_each_llvm_document_tag() {
    let cases = [
        ("Passed", RemarkKind::Passed),
        ("Missed", RemarkKind::Missed),
        ("Analysis", RemarkKind::Analysis),
        ("AnalysisFPCommute", RemarkKind::AnalysisFpCommute),
        ("AnalysisAliasing", RemarkKind::AnalysisAliasing),
        ("Failure", RemarkKind::Failure),
    ];

    for (tag, expected) in cases {
        let yaml = format!("--- !{tag}\nPass: pass\nName: name\nFunction: _Z8functionv\n...\n");

        let parsed = parse_fixture(&yaml, RemarkParseLimits::default()).unwrap();

        assert_eq!(parsed[0].kind, expected);
    }
}

#[test]
fn rejects_malformed_yaml() {
    let yaml = "--- !Passed\nPass: [not closed\n...\n";

    let error = parse_fixture(yaml, RemarkParseLimits::default()).unwrap_err();

    assert!(error.message().contains("invalid YAML"));
}

#[test]
fn rejects_oversized_file_document_string_and_record_count() {
    let yaml = r#"--- !Passed
Pass: inline
Name: Inlined
Function: _ZN4demo6caller17h0123456789abcdefE
Args:
  - String: message
...
"#;

    let cases = [
        RemarkParseLimits {
            max_file_bytes: (yaml.len() - 1) as u64,
            ..RemarkParseLimits::default()
        },
        RemarkParseLimits {
            max_document_bytes: yaml.len() - 1,
            ..RemarkParseLimits::default()
        },
        RemarkParseLimits {
            max_string_bytes: "message".len() - 1,
            ..RemarkParseLimits::default()
        },
        RemarkParseLimits {
            max_records: 0,
            ..RemarkParseLimits::default()
        },
    ];

    for limits in cases {
        assert!(parse_fixture(yaml, limits).is_err());
    }
}

#[test]
fn rejects_content_after_document_end() {
    let yaml = r#"--- !Passed
Pass: inline
Name: Inlined
Function: _ZN4demo6caller17h0123456789abcdefE
...
not a document
"#;

    let error = parse_fixture(yaml, RemarkParseLimits::default()).unwrap_err();

    assert!(
        error
            .message()
            .contains("unexpected content follows a completed document")
    );
}

#[test]
fn read_failures_stay_what_they_are() {
    let failure = SourceError { kind: FailureKind::BrokenPipe, message: "gone".to_owned() };
    let result = parse_optimization_remarks(
        ShortReader::failing(b"--- !Passed\n", 4, failure),
        12,
        RemarkParseLimits::default(),
    );

    assert!(matches!(
        result,
        Err(RemarkFault::Read(source)) if source.kind == FailureKind::BrokenPipe
    ));
}

#[test]
fn remarks_come_before_a_later_malformed_document() {
    let contents = format!("{MULTIPLE_REMARKS}--- !Passed\nPass: [\n...\n");
    let mut reader = parse_optimization_remarks_with(
        ShortReader::new(contents.as_bytes(), 16),
        contents.len() as u64,
        RemarkParseLimits::default(),
    )
    .ok()
    .unwrap();

    assert_eq!(reader.next_remark().unwrap().unwrap().remark_name, "Inlined");
    assert_eq!(reader.next_remark().unwrap().unwrap().remark_name, "CantVectorize");
    assert!(reader.next_remark().is_err());
    assert!(parse_fixture(&contents, RemarkParseLimits::default()).is_err());
}

#[test]
fn remark_readers_give_what_whole_files_give() {
    let mut reader = parse_optimization_remarks_with(
        ShortReader::new(MULTIPLE_REMARKS.as_bytes(), 16),
        MULTIPLE_REMARKS.len() as u64,
        RemarkParseLimits::default(),
    )
    .ok()
    .unwrap();
    let mut remarks = Vec::new();
    while let Some(remark) = reader.next_remark().unwrap() {
        remarks.push(remark);
    }
    assert_eq!(remarks, parse_fixture(MULTIPLE_REMARKS, RemarkParseLimits::default()).unwrap());
}

#[test]
fn tagged_location_keys_are_no_fragments() {
    let remark = |argument: &str| {
        format!("--- !Passed\nPass: p\nName: n\nFunction: f\nArgs:\n  - {argument}\n...\n")
    };
    let limits = RemarkParseLimits::default;
    let parsed = parse_fixture(&remark("{ Callee: g, !tag DebugLoc: 1 }"), limits()).unwrap();
    assert_eq!(parsed[0].arguments.len(), 1);
    assert_eq!(parsed[0].arguments[0].key, "Callee");
    assert_eq!(parsed[0].arguments[0].source_location, None);
    assert_eq!(parsed[0].message, "g");

    let error = parse_fixture(&remark("{ Callee: g, !tag Other: 1 }"), limits()).unwrap_err();
    assert!(error.message().contains("argument 1 has more than one value fragment"));
    let error = parse_fixture(&remark("{ !tag DebugLoc: 1 }"), limits()).unwrap_err();
    assert!(error.message().contains("argument 1 has no value fragment"));
}

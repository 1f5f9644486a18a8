use cargo_optic::compiler::fault::Fault;
use cargo_optic::compiler::manifest::{read_manifest, ManifestDecoder};
use cargo_optic::compiler::protocol::{
    header, CONFIGURATION_RECORD, END_RECORD, LLVM_RECIPE_REVISION,
};
use cargo_optic::ir::llvm::{scan, ScanError};
use cargo_optic::ir::mono;
use cargo_optic::ir::remarks::{parse_optimization_remarks, RemarkParseLimits};
use cargo_optic::source::{FailureKind, ShortReader, SourceError};

const MARKER: &str = "--cfg=cargo_optic_selected_target=\"fixture\"";

/// Interrupts each read that starts where one of the given numbers of bytes is left.
fn interrupted<'a>(input: &'a [u8], places: &[usize]) -> ShortReader<'a> {
    let interruption = |left: &usize| {
        let message = "interrupted".to_owned();
        (*left, SourceError { kind: FailureKind::Interrupted, message })
    };
    ShortReader::interrupted(input, 3, places.iter().map(interruption).collect())
}

fn push_string(bytes: &mut Vec<u8>, value: &str) {
    bytes.extend((value.len() as u32).to_le_bytes());
    bytes.extend(value.as_bytes());
}

fn empty_manifest() -> Vec<u8> {
    let mut bytes = header(MARKER);
    bytes.extend(CONFIGURATION_RECORD.to_le_bytes());
    for value in ["llvm", "host", "3"] {
        push_string(&mut bytes, value);
    }
    for value in [0, 0, 0, 16, LLVM_RECIPE_REVISION, 0, END_RECORD] {
        bytes.extend(value.to_le_bytes());
    }
    bytes
}

fn identities() -> Vec<u8> {
    let mut bytes = mono::MANIFEST_MAGIC.to_vec();
    bytes.extend(mono::PROTOCOL_VERSION.to_le_bytes());
    push_string(&mut bytes, "commit");
    bytes.extend(0_u32.to_le_bytes());
    bytes.extend(mono::END_RECORD.to_le_bytes());
    bytes
}

#[test]
fn interrupted_fields_are_read_again() {
    let manifest = empty_manifest();
    let places = [manifest.len(), manifest.len(), manifest.len() - 5, 4, 1];
    let path = "/attempt/manifest";
    assert!(read_manifest(interrupted(&manifest, &places), path, MARKER).is_ok());

    let identities = identities();
    let places = [identities.len(), 7, 4];
    let length = identities.len() as u64;
    assert!(mono::read(interrupted(&identities, &places), length, "commit").is_ok());
}

#[test]
fn interruptions_at_the_end_are_errors() {
    let manifest = empty_manifest();
    let error = read_manifest(interrupted(&manifest, &[0]), "/attempt/manifest", MARKER)
        .expect_err("the end is asked for once");
    assert!(matches!(error, Fault::Read(error) if error.kind == FailureKind::Interrupted));
    let mut longer = manifest.clone();
    longer.push(0);
    let error = read_manifest(interrupted(&longer, &[1]), "/attempt/manifest", MARKER)
        .expect_err("the end is asked for once");
    assert!(matches!(error, Fault::Read(error) if error.kind == FailureKind::Interrupted));

    let identities = identities();
    let length = identities.len() as u64;
    let error = mono::read(interrupted(&identities, &[0]), length, "commit")
        .err()
        .expect("the end is asked for once");
    assert!(matches!(error, mono::Fault::Read(error) if error.kind == FailureKind::Interrupted));
}

#[test]
fn interrupted_lines_are_errors_in_modules_and_not_in_remarks() {
    let module = b"declare void @external(i32)\n\ndefine void @defined() {\n  ret void\n}\n";
    assert_eq!(scan(ShortReader::new(module, 5)).unwrap().len(), 2);
    for left in [module.len(), module.len() - 3, 2, 0] {
        let error = scan(interrupted(module, &[left])).err().expect("a line is read once");
        assert!(
            matches!(error, ScanError::Read(error) if error.kind == FailureKind::Interrupted)
        );
    }

    let remark = b"--- !Passed\nPass: inline\nName: Inlined\nFunction: f\n...\n";
    let places = [remark.len(), remark.len() - 6, 6, 6, 0];
    let remarks = parse_optimization_remarks(
        interrupted(remark, &places),
        remark.len() as u64,
        RemarkParseLimits::default(),
    )
    .unwrap();
    assert_eq!(remarks.len(), 1);
}

#[test]
fn placements_beyond_the_bound_are_counted_on() {
    // A placement with empty texts has its kind and 44 more bytes.
    let mut bytes = identities();
    bytes.truncate(bytes.len() - 4);
    let front = bytes.len();
    bytes.resize(front + 48 * mono::MAX_PLACEMENTS + 12, 0);
    for index in 0..mono::MAX_PLACEMENTS {
        bytes[front + 48 * index] = 1;
    }
    for index in 0..3 {
        bytes[front + 48 * mono::MAX_PLACEMENTS + 4 * index] = 1;
    }
    let source = ShortReader::new(&bytes, 4096);
    let mut reader = mono::CompilerManifestReader::open(source, 0, "commit").ok().unwrap();
    for _ in 0..mono::MAX_PLACEMENTS {
        assert!(matches!(reader.next_placement(), Ok(Some(_))));
    }
    for more in 1..=3 {
        let expected = mono::MAX_PLACEMENTS + more;
        let error = reader.next_placement().err().expect("the bound is exceeded");
        assert!(matches!(error, mono::Fault::Placements { got } if got == expected));
    }
}

#[test]
fn manifests_without_modules_need_no_attempt_directory() {
    let manifest = empty_manifest();
    for path in ["", "/"] {
        let decoded = read_manifest(ShortReader::new(&manifest, 5), path, MARKER).unwrap();
        assert!(decoded.modules.is_empty());
    }
}

#[test]
fn headers_belong_to_their_marker() {
    let other = "--cfg=cargo_optic_selected_target=\"other\"";
    for (written, expected) in [(MARKER, MARKER), (other, MARKER), (MARKER, other)] {
        let mut bytes = header(written);
        bytes.extend(END_RECORD.to_le_bytes());
        let source = ShortReader::new(&bytes, 5);
        let mut decoder = ManifestDecoder::new("/attempt/manifest", source, expected);
        match decoder.read_header() {
            Ok(()) => assert_eq!(written, expected),
            Err(error) => {
                assert_ne!(written, expected);
                assert!(error.message().contains("selected marker must match"));
            }
        }
    }
}

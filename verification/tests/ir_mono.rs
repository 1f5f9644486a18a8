use cargo_optic::ir::mono::{
    read, read_bounded, CompilerManifest, CompilerManifestReader, IdentityFault, END_RECORD,
    MANIFEST_MAGIC, PLACEMENT_RECORD, PROTOCOL_VERSION,
};
use cargo_optic::ir::wrapper::{run_wrapper, temps_argument, IdentityItems};
use cargo_optic::source::ShortReader;

fn push_string(manifest: &mut Vec<u8>, value: &str) {
    let length = u32::try_from(value.len()).expect("the fixture string length fits u32");
    manifest.extend_from_slice(&length.to_le_bytes());
    manifest.extend_from_slice(value.as_bytes());
}

fn empty_manifest(rustc_commit: &str) -> Vec<u8> {
    let mut manifest = Vec::new();
    manifest.extend_from_slice(&MANIFEST_MAGIC);
    manifest.extend_from_slice(&PROTOCOL_VERSION.to_le_bytes());
    push_string(&mut manifest, rustc_commit);
    manifest.extend_from_slice(&0_u32.to_le_bytes());
    manifest.extend_from_slice(&END_RECORD.to_le_bytes());
    manifest
}

fn placement(manifest: &mut Vec<u8>, symbol: &str, unit: &str) {
    manifest.extend_from_slice(&PLACEMENT_RECORD.to_le_bytes());
    push_string(manifest, "example");
    push_string(manifest, "example::kernel");
    manifest.extend_from_slice(&1_u32.to_le_bytes());
    push_string(manifest, "src/lib.rs");
    manifest.extend_from_slice(&12_u64.to_le_bytes());
    manifest.extend_from_slice(&24_u64.to_le_bytes());
    manifest.extend_from_slice(&2_u64.to_le_bytes());
    manifest.extend_from_slice(&4_u64.to_le_bytes());
    manifest.extend_from_slice(&2_u64.to_le_bytes());
    manifest.extend_from_slice(&16_u64.to_le_bytes());
    push_string(manifest, "example::kernel::<u64>");
    push_string(manifest, symbol);
    push_string(manifest, unit);
    push_string(manifest, "External");
    push_string(manifest, "Default");
    manifest.extend_from_slice(&0_u32.to_le_bytes());
    manifest.extend_from_slice(&32_u64.to_le_bytes());
}

fn manifest_with(placements: &[(&str, &str)]) -> Vec<u8> {
    let mut manifest = Vec::new();
    manifest.extend_from_slice(&MANIFEST_MAGIC);
    manifest.extend_from_slice(&PROTOCOL_VERSION.to_le_bytes());
    push_string(&mut manifest, "commit");
    manifest.extend_from_slice(&1_u32.to_le_bytes());
    push_string(&mut manifest, "rustc");
    for (symbol, unit) in placements {
        placement(&mut manifest, symbol, unit);
    }
    manifest.extend_from_slice(&END_RECORD.to_le_bytes());
    manifest
}

fn read_bytes(bytes: &[u8], commit: &str) -> Result<CompilerManifest, IdentityFault> {
    read(ShortReader::new(bytes, 7), bytes.len() as u64, commit)
}

#[test]
fn reads_complete_compiler_identities() {
    let manifest = read_bytes(&manifest_with(&[("_Rexample", "example-cgu.0")]), "commit")
        .expect("the manifest is valid");
    let instances = manifest.instances;

    assert_eq!(manifest.rustc_arguments, ["rustc"]);
    assert_eq!(instances.len(), 1);
    assert_eq!(instances[0].origin.crate_name, "example");
    assert_eq!(instances[0].origin.definition_path, "example::kernel");
    assert_eq!(
        instances[0]
            .origin
            .source
            .as_ref()
            .expect("the instance has source")
            .byte_start,
        12
    );
    assert_eq!(instances[0].display_name, "example::kernel::<u64>");
    assert_eq!(instances[0].raw_symbol, "_Rexample");
    assert_eq!(instances[0].placements[0].codegen_unit, "example-cgu.0");
    assert_eq!(instances[0].placements[0].linkage, "External");
    assert!(!instances[0].placements[0].local_copy);
    assert_eq!(instances[0].placements[0].size_estimate, 32);
}

#[test]
fn rejects_a_different_rustc_commit() {
    let error = read_bytes(&empty_manifest("other"), "expected").expect_err("the commit must match");

    assert!(error.message().contains("expected expected, got other"));
}

#[test]
fn rejects_an_unsupported_protocol_version() {
    let mut manifest = Vec::new();
    manifest.extend_from_slice(&MANIFEST_MAGIC);
    manifest.extend_from_slice(&(PROTOCOL_VERSION + 1).to_le_bytes());

    let error = read_bytes(&manifest, "commit").expect_err("the protocol version must match");

    assert!(error.message().contains("unsupported protocol version"));
}

#[test]
fn accepts_a_manifest_at_the_aggregate_bound() {
    let manifest = empty_manifest("commit");
    let length = manifest.len() as u64;

    let manifest = read_bounded(ShortReader::new(&manifest, 8192), length, "commit", length)
        .expect("a manifest can equal the aggregate bound");

    assert!(manifest.rustc_arguments.is_empty());
    assert!(manifest.instances.is_empty());
}

#[test]
fn rejects_a_manifest_over_the_aggregate_bound() {
    let manifest = empty_manifest("commit");
    let length = manifest.len() as u64;
    let maximum_length = length - 1;

    let error = read_bounded(ShortReader::new(&manifest, 8192), length, "commit", maximum_length)
        .err()
        .expect("the aggregate bound must be enforced");

    assert!(error.message().contains(&format!(
        "file length exceeds {maximum_length} bytes, got {}",
        maximum_length + 1
    )));
}

#[test]
fn rejects_a_truncated_string() {
    let mut manifest = Vec::new();
    manifest.extend_from_slice(&MANIFEST_MAGIC);
    manifest.extend_from_slice(&PROTOCOL_VERSION.to_le_bytes());
    manifest.extend_from_slice(&6_u32.to_le_bytes());
    manifest.extend_from_slice(b"short");

    let error = read_bytes(&manifest, "commit").expect_err("the string must be complete");

    assert!(error.message().contains("rustc commit is truncated"));
}

#[test]
fn rejects_an_unknown_record_kind() {
    let mut manifest = empty_manifest("commit");
    let length = manifest.len();
    manifest[length - 4..].copy_from_slice(&2_u32.to_le_bytes());

    let error = read_bytes(&manifest, "commit").expect_err("the record kind must be known");

    assert!(error.message().contains("record kind must be 0 or 1, got 2"));
}

#[test]
fn mono_rejects_trailing_bytes() {
    let mut manifest = empty_manifest("commit");
    manifest.push(0);

    let error = read_bytes(&manifest, "commit").expect_err("trailing bytes are invalid");

    assert!(error.message().contains("trailing bytes"));
}

#[test]
fn placements_of_one_instance_are_grouped() {
    let bytes = manifest_with(&[("_Ra", "cgu.0"), ("_Rb", "cgu.0"), ("_Ra", "cgu.1")]);
    let manifest = read_bytes(&bytes, "commit").unwrap();

    assert_eq!(manifest.instances.len(), 2);
    assert_eq!(manifest.instances[0].raw_symbol, "_Ra");
    let units: Vec<&str> = manifest.instances[0]
        .placements
        .iter()
        .map(|placement| placement.codegen_unit.as_str())
        .collect();
    assert_eq!(units, ["cgu.0", "cgu.1"]);
    assert_eq!(manifest.instances[1].raw_symbol, "_Rb");
}

#[test]
fn readers_stay_finished() {
    let bytes = manifest_with(&[("_Ra", "cgu.0")]);
    let mut reader = match CompilerManifestReader::open(
        ShortReader::new(&bytes, 3),
        bytes.len() as u64,
        "commit",
    ) {
        Ok(reader) => reader,
        Err(fault) => panic!("{}", fault.message()),
    };

    assert_eq!(reader.rustc_arguments(), ["rustc"]);
    assert_eq!(reader.next_placement().unwrap().unwrap().raw_symbol, "_Ra");
    assert!(reader.next_placement().unwrap().is_none());
    assert!(reader.next_placement().unwrap().is_none());
}

#[test]
fn wrappers_forward_other_targets_unchanged() {
    let arguments = vec!["rustc".to_owned(), "lib.rs".to_owned()];
    let command = run_wrapper(
        arguments,
        false,
        Some("/analysis".to_owned()),
        Ok("/driver".to_owned()),
        None,
    )
    .unwrap();
    assert_eq!(command.program, "rustc");
    assert_eq!(command.arguments, ["lib.rs"]);
    assert!(!command.inner);

    let selected = vec!["rustc".to_owned(), "-Z".to_owned(), temps_argument("/analysis")];
    let command = run_wrapper(
        selected,
        false,
        Some("/analysis".to_owned()),
        Ok("/driver".to_owned()),
        None,
    )
    .unwrap();
    assert_eq!(command.program, "/driver");
    assert!(command.inner);

    assert!(run_wrapper(Vec::new(), false, None, Ok("/driver".to_owned()), None).is_err());
}

#[test]
fn identities_are_recorded_once_per_symbol() {
    let mut items = IdentityItems::new();
    for unit in ["cgu.0", "cgu.1"] {
        items.record("d".into(), "n".into(), "_Ra".into(), unit.into());
    }
    let bytes = items.write_manifest("commit").unwrap();
    let needle = b"_Ra";
    let count = bytes.windows(needle.len()).filter(|window| *window == needle).count();

    assert_eq!(count, 1);
    assert!(bytes.starts_with(&MANIFEST_MAGIC));
}

#[test]
fn parts_are_truncated_and_extensions_trail() {
    let complete = manifest_with(&[("_Rone", "example-cgu.0"), ("_Rtwo", "example-cgu.1")]);
    assert!(read_bytes(&complete, "commit").is_ok());
    for length in 0..complete.len() {
        let error = read_bytes(&complete[..length], "commit").expect_err("a part is no manifest");
        assert!(error.message().ends_with("is truncated"), "{}", error.message());
    }
    for tail in [vec![0_u8], complete.clone()] {
        let extended = [complete.clone(), tail].concat();
        let error = read_bytes(&extended, "commit").expect_err("an extension is no manifest");
        assert_eq!(error.message(), "manifest contains trailing bytes");
    }
}

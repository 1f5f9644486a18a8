use cargo_optic::compiler::fault::ManifestFault;
use cargo_optic::compiler::manifest::{read_manifest, CompilerManifest};
use cargo_optic::compiler::protocol::{
    CONFIGURATION_RECORD, END_RECORD, LLVM_RECIPE_REVISION, LLVM_SUPPORTED,
    LLVM_UNSUPPORTED_CROSS_CRATE_THIN, LLVM_UNSUPPORTED_FAT, LLVM_UNSUPPORTED_INCREMENTAL,
    LLVM_UNSUPPORTED_LINKER_PLUGIN, LLVM_UNSUPPORTED_OTHER_BACKEND,
    LLVM_UNSUPPORTED_UNVERIFIED_COMPILER, LTO_CROSS_CRATE_THIN, LTO_FAT, LTO_LOCAL_THIN, LTO_OFF,
    MANIFEST_MAGIC, MODULE_RECORD, PLACEMENT_RECORD, PROTOCOL_VERSION, SOURCE_AVAILABLE,
    SOURCE_FILE_RECORD, SOURCE_GENERATED, SOURCE_NONLOCAL, SOURCE_OUTSIDE_PACKAGE,
    SOURCE_UNLOADED, SOURCE_UNSUPPORTED_SPAN,
};
use cargo_optic::compiler::writer::{ConcreteInstance, ManifestWriter};
use cargo_optic::records::{
    LlvmLto, PlacementRecord, SourceAvailability, SourceUnavailable, UnsupportedLlvmConfiguration,
};
use cargo_optic::source::ShortReader;

const MARKER: &str = "--cfg=cargo_optic_selected_target=\"38a90c21244546ad8a2b3770f6cb370c\"";

fn decode_at(bytes: &[u8], path: &str, marker: &str) -> Result<CompilerManifest, ManifestFault> {
    read_manifest(ShortReader::new(bytes, 5), path, marker)
}

fn decode(bytes: &[u8]) -> Result<CompilerManifest, ManifestFault> {
    decode_at(bytes, "/attempt/manifest.bin", MARKER)
}

fn write_u32(bytes: &mut Vec<u8>, value: u32) {
    bytes.extend(value.to_le_bytes());
}

fn write_u64(bytes: &mut Vec<u8>, value: u64) {
    bytes.extend(value.to_le_bytes());
}

fn write_string(bytes: &mut Vec<u8>, value: &str) {
    write_u32(bytes, u32::try_from(value.len()).unwrap());
    bytes.extend(value.as_bytes());
}

fn configuration(lto: u32, unsupported: u32) -> Vec<u8> {
    let mut bytes = MANIFEST_MAGIC.to_vec();
    write_u32(&mut bytes, PROTOCOL_VERSION);
    write_string(&mut bytes, MARKER);
    write_u32(&mut bytes, CONFIGURATION_RECORD);

    for value in [
        "llvm",                     // The backend is LLVM.
        "x86_64-unknown-linux-gnu", // The target is x86_64 Linux.
        "3",                        // The optimization level is 3.
    ] {
        write_string(&mut bytes, value);
    }

    for value in [
        lto,                  // Effective LTO.
        0,                    // Incremental compilation is disabled.
        0,                    // Linker-plugin LTO is disabled.
        16,                   // Configured CGUs.
        LLVM_RECIPE_REVISION, // Collection recipe.
        unsupported,          // LLVM support.
    ] {
        write_u32(&mut bytes, value);
    }

    bytes
}

fn manifest(source: u32) -> Vec<u8> {
    let mut bytes = configuration(LTO_LOCAL_THIN, LLVM_SUPPORTED);
    write_u32(&mut bytes, PLACEMENT_RECORD);

    for value in [
        "fixture",                // The crate owns the definition.
        "fixture::kernel",        // This path names the definition.
        "fixture::kernel::<u64>", // This name includes concrete arguments.
        "_RNvCfixture6kernelm",   // This is the compiler's raw symbol.
        "fixture.0",              // This codegen unit contains the instance.
        "External",               // The linkage is external.
        "Default",                // The visibility is the default.
    ] {
        write_string(&mut bytes, value);
    }

    write_u32(&mut bytes, 0);
    write_u64(&mut bytes, 17);
    write_u32(&mut bytes, source);

    if source == SOURCE_AVAILABLE {
        write_u64(&mut bytes, 7);
        write_u64(&mut bytes, 2);
        write_u64(&mut bytes, 13);
        write_string(&mut bytes, "/fixture/src/lib.rs");
        write_u64(&mut bytes, 1);
        write_u32(&mut bytes, SOURCE_FILE_RECORD);
        write_u64(&mut bytes, 7);
        write_u64(&mut bytes, 15);
    }

    write_u32(&mut bytes, END_RECORD);

    bytes
}

#[test]
fn tests_reads_a_complete_manifest() {
    let instances = decode(&manifest(SOURCE_NONLOCAL)).unwrap().instances;

    assert_eq!(instances.len(), 1);
    assert_eq!(instances[0].display_name, "fixture::kernel::<u64>");
}

#[test]
fn tests_rejects_a_truncated_manifest() {
    let mut bytes = manifest(SOURCE_NONLOCAL);
    bytes.pop();

    let error = decode(&bytes).unwrap_err();

    assert!(error.message().contains("truncated"));
}

#[test]
fn tests_rejects_a_wrong_protocol_version() {
    let mut bytes = manifest(SOURCE_NONLOCAL);
    bytes[MANIFEST_MAGIC.len()..MANIFEST_MAGIC.len() + 4]
        .copy_from_slice(&(PROTOCOL_VERSION + 1).to_le_bytes());

    let error = decode(&bytes).unwrap_err();

    assert!(
        error
            .message()
            .contains(&format!("protocol version must be {PROTOCOL_VERSION}"))
    );
}

#[test]
fn tests_rejects_trailing_bytes() {
    let mut bytes = manifest(SOURCE_NONLOCAL);
    bytes.push(1);

    let error = decode(&bytes).unwrap_err();

    assert!(error.message().contains("trailing bytes"));
}

#[test]
fn every_part_is_truncated_and_every_extension_trails() {
    let complete = manifest(SOURCE_AVAILABLE);
    assert!(decode(&complete).is_ok());
    for length in 0..complete.len() {
        let error = decode(&complete[..length]).expect_err("a part is no manifest");
        assert!(error.message().contains("truncated"), "{}", error.message());
    }
    for tail in [vec![0_u8], END_RECORD.to_le_bytes().to_vec(), complete.clone()] {
        let extended = [complete.clone(), tail].concat();
        let error = decode(&extended).expect_err("an extension is no manifest");
        assert!(error.message().contains("trailing bytes"));
    }
}

#[test]
fn rejects_another_analysis_marker() {
    let error = decode_at(
        &manifest(SOURCE_NONLOCAL),
        "/attempt/manifest.bin",
        "another marker",
    )
    .unwrap_err();

    assert!(error.message().contains("selected marker must match"));
}

#[test]
fn rejects_wrong_magic_and_truncated_headers() {
    let complete = manifest(SOURCE_NONLOCAL);
    let mut wrong_magic = complete.clone();
    wrong_magic[0] = 0;

    let cases = [
        wrong_magic,             // The magic does not match.
        complete[..15].to_vec(), // The magic is truncated.
        complete[..18].to_vec(), // The version is truncated.
    ];

    for bytes in cases {
        assert!(decode(&bytes).is_err());
    }
}

#[test]
fn reads_expected_modules_without_function_placements() {
    let bitcode = "/attempt/llvm/empty.rcgu.bc";
    let mut bytes = configuration(LTO_LOCAL_THIN, LLVM_SUPPORTED);
    write_u32(&mut bytes, MODULE_RECORD);
    write_string(&mut bytes, "empty");
    write_string(&mut bytes, bitcode);
    write_u32(&mut bytes, END_RECORD);

    let manifest = decode_at(&bytes, "/attempt/manifest", MARKER).unwrap();

    assert!(manifest.instances.is_empty());
    assert_eq!(manifest.modules.len(), 1);
    assert_eq!(manifest.modules[0].name, "empty");
    assert_eq!(manifest.modules[0].path, bitcode);
}

#[test]
fn rejects_unsupported_duplicate_and_outside_module_paths() {
    for (unsupported, count, name) in [
        (LLVM_UNSUPPORTED_INCREMENTAL, 1, "llvm/expected.bc"), // Unsupported collection.
        (LLVM_SUPPORTED, 2, "llvm/expected.bc"), // Duplicate module identity and path.
        (LLVM_SUPPORTED, 1, "outside.bc"),       // Outside the private LLVM directory.
        (LLVM_SUPPORTED, 1, "llvm/../outside.bc"), // Parent traversal.
    ] {
        let mut bytes = configuration(LTO_LOCAL_THIN, unsupported);

        for _ in 0..count {
            write_u32(&mut bytes, MODULE_RECORD);
            write_string(&mut bytes, "module");
            write_string(&mut bytes, &format!("/attempt/{name}"));
        }

        write_u32(&mut bytes, END_RECORD);

        assert!(decode_at(&bytes, "/attempt/manifest", MARKER).is_err());
    }
}

#[test]
fn unavailable_source_codes_keep_their_wire_values_and_meanings() {
    for (code, wire, reason) in [
        (SOURCE_NONLOCAL, 1, SourceUnavailable::Nonlocal), // Nonlocal definition.
        (SOURCE_UNLOADED, 2, SourceUnavailable::Unloaded), // Unloaded source.
        (SOURCE_GENERATED, 3, SourceUnavailable::Generated), // Generated definition.
        (
            SOURCE_UNSUPPORTED_SPAN,
            4,
            SourceUnavailable::UnsupportedSpan,
        ), // Unsupported span.
        (
            SOURCE_OUTSIDE_PACKAGE,
            5,
            SourceUnavailable::OutsidePackage,
        ), // Outside the package.
    ] {
        assert_eq!(code, wire);

        let manifest = decode(&manifest(code)).unwrap();

        assert!(matches!(
            manifest.instances[0].source,
            SourceAvailability::Unavailable(actual) if actual == reason
        ));
    }
}

#[test]
fn available_source_code_keeps_its_wire_value_and_payload() {
    assert_eq!(SOURCE_AVAILABLE, 0);

    let manifest = decode(&manifest(SOURCE_AVAILABLE)).unwrap();

    match &manifest.instances[0].source {
        SourceAvailability::Available(source) => {
            assert_eq!(source.artifact, 7);
            assert_eq!(source.range.start(), 2);
            assert_eq!(source.range.length(), 13);
            assert_eq!(source.path, "/fixture/src/lib.rs");
            assert_eq!(source.line, 1);
        }
        SourceAvailability::Unavailable(_) => panic!("the source is available"),
    }
    assert_eq!(manifest.artifacts.len(), 1);
}

#[test]
fn lto_codes_keep_their_wire_values_and_meanings() {
    for (code, wire, expected) in [
        (LTO_OFF, 0, LlvmLto::Off),              // No LTO.
        (LTO_LOCAL_THIN, 1, LlvmLto::LocalThin), // Local ThinLTO.
        (LTO_CROSS_CRATE_THIN, 2, LlvmLto::CrossCrateThin), // Cross-crate ThinLTO.
        (LTO_FAT, 3, LlvmLto::Fat),              // Fat LTO.
    ] {
        assert_eq!(code, wire);

        let mut bytes = configuration(code, LLVM_SUPPORTED);
        write_u32(&mut bytes, END_RECORD);

        assert_eq!(decode(&bytes).unwrap().configuration.lto, expected);
    }
}

#[test]
fn llvm_support_codes_keep_their_wire_values_and_meanings() {
    for (code, wire, expected) in [
        (LLVM_SUPPORTED, 0, None), // Supported configuration.
        (
            LLVM_UNSUPPORTED_INCREMENTAL,
            1,
            Some(UnsupportedLlvmConfiguration::Incremental),
        ), // Incremental compilation.
        (
            LLVM_UNSUPPORTED_CROSS_CRATE_THIN,
            2,
            Some(UnsupportedLlvmConfiguration::CrossCrateThinLto),
        ), // Cross-crate ThinLTO.
        (
            LLVM_UNSUPPORTED_FAT,
            3,
            Some(UnsupportedLlvmConfiguration::FatLto),
        ), // Fat LTO.
        (
            LLVM_UNSUPPORTED_LINKER_PLUGIN,
            4,
            Some(UnsupportedLlvmConfiguration::LinkerPluginLto),
        ), // Linker-plugin LTO.
        (
            LLVM_UNSUPPORTED_OTHER_BACKEND,
            5,
            Some(UnsupportedLlvmConfiguration::OtherBackend),
        ), // Another backend.
        (
            LLVM_UNSUPPORTED_UNVERIFIED_COMPILER,
            6,
            Some(UnsupportedLlvmConfiguration::UnverifiedCompiler),
        ), // Unverified compiler.
    ] {
        assert_eq!(code, wire);

        let mut bytes = configuration(LTO_LOCAL_THIN, code);
        write_u32(&mut bytes, END_RECORD);

        assert_eq!(decode(&bytes).unwrap().configuration.unsupported, expected);
    }
}

#[test]
fn rejects_unknown_source_lto_and_llvm_support_codes() {
    let mut unknown_lto = configuration(u32::MAX, LLVM_SUPPORTED);
    write_u32(&mut unknown_lto, END_RECORD);
    let mut unknown_support = configuration(LTO_LOCAL_THIN, u32::MAX);
    write_u32(&mut unknown_support, END_RECORD);

    for (bytes, field) in [
        (manifest(u32::MAX), "source availability"), // Unknown source availability.
        (unknown_lto, "LTO"),                        // Unknown LTO mode.
        (unknown_support, "unsupported configuration"), // Unknown LLVM support.
    ] {
        let error = decode(&bytes).unwrap_err();

        assert!(
            error.message().contains(&format!(
                "{field} must be a known protocol code, got {}",
                u32::MAX
            )),
            "{}",
            error.message()
        );
    }
}

#[test]
fn written_manifests_are_read_back() {
    let mut writer = ManifestWriter::create(MARKER);
    let mut reference = manifest(SOURCE_NONLOCAL);
    let header = MANIFEST_MAGIC.len() + 4 + 4 + MARKER.len();
    let placement = writer.write_placement(
        &ConcreteInstance {
            definition_crate: "fixture".to_owned(),
            definition_path: "fixture::kernel".to_owned(),
            display_name: "fixture::kernel::<u64>".to_owned(),
            raw_symbol: "_RNvCfixture6kernelm".to_owned(),
        },
        &PlacementRecord {
            codegen_unit: "fixture.0".to_owned(),
            linkage: "External".to_owned(),
            visibility: "Default".to_owned(),
            local_copy: false,
            size_estimate: 17,
        },
        &SourceAvailability::Unavailable(SourceUnavailable::Nonlocal),
    );
    assert!(placement.is_ok());
    let written = writer.finish();

    let record = reference.split_off(configuration(LTO_LOCAL_THIN, LLVM_SUPPORTED).len());
    assert_eq!(&written[header..], &record[..]);
    assert_eq!(&written[..header], &reference[..header]);
}

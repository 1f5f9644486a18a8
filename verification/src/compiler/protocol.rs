//! Defines the private protocol shared by the collector and the standalone driver.
//!
//! The manifest is a little-endian stream with this shape:
//!
//! ```text
//! magic, version, selected-marker string, configuration, (placement | source-file | module)*, end
//! configuration = kind, backend string, target string, optimization string, lto u32,
//!                 incremental u32, linker-plugin u32, configured-cgus u32, recipe u32,
//!                 unsupported u32
//! placement = kind, four instance strings, three placement strings, local-copy u32, size u64,
//!             source
//! source = availability u32, [artifact u64, start u64, length u64, display-path string, line u64]
//! source-file = kind, artifact u64, byte-length u64
//! module = kind, compiler-module string, expected-bitcode-path string
//! string = byte-length u32, UTF-8 bytes
//! ```
//!
//! Booleans use zero or one. The named source-availability, LTO, and LLVM-support constants define
//! the other field codes. Only [`SOURCE_AVAILABLE`] has the bracketed source fields.

use crate::records::{LlvmLto, SourceUnavailable, UnsupportedLlvmConfiguration};
use crate::wire;
use crate::wire::{put_bytes, put_text, put_u32};
use vstd::bytes::*;
use vstd::prelude::*;

verus! {

/// Identifies a file as a compiler manifest before any lengths are decoded.
pub const MANIFEST_MAGIC: [u8; 16] = [
    67,
    65,
    82,
    71,
    79,
    95,
    79,
    80,
    84,
    73,
    67,
    95,
    49,
    0,
    0,
    0,
];

/// Identifies the header that binds a manifest or stale receipt to an analysis marker.
pub const PROTOCOL_VERSION: u32 = 3;

/// Marks the successful end of the record stream.
pub const END_RECORD: u32 = 0;

/// Marks a concrete-instance placement record.
pub const PLACEMENT_RECORD: u32 = 1;

/// Marks the single effective codegen configuration at the beginning of the stream.
pub const CONFIGURATION_RECORD: u32 = 2;

/// Declares one deduplicated normalized compiler-loaded source file.
pub const SOURCE_FILE_RECORD: u32 = 3;

/// Declares one expected regular codegen unit, also units with no function placements.
pub const MODULE_RECORD: u32 = 4;

/// Adds a whole-item range in a compiler-loaded source snapshot.
pub const SOURCE_AVAILABLE: u32 = 0;

/// Identifies a definition outside the selected crate.
pub const SOURCE_NONLOCAL: u32 = 1;

/// Indicates that the compiler has no loaded source text or local path.
pub const SOURCE_UNLOADED: u32 = 2;

/// Identifies generated, synthetic, or macro-expanded source.
pub const SOURCE_GENERATED: u32 = 3;

/// Indicates that the span cannot identify one valid local source range.
pub const SOURCE_UNSUPPORTED_SPAN: u32 = 4;

/// Identifies a source path outside the canonical selected package root.
pub const SOURCE_OUTSIDE_PACKAGE: u32 = 5;

/// Indicates that the compiler performs neither local nor cross-crate LTO.
pub const LTO_OFF: u32 = 0;

/// Identifies ThinLTO within the selected crate.
pub const LTO_LOCAL_THIN: u32 = 1;

/// Identifies ThinLTO across crates.
pub const LTO_CROSS_CRATE_THIN: u32 = 2;

/// Identifies fat LTO.
pub const LTO_FAT: u32 = 3;

/// Selects the verified optimized-LLVM collection recipe.
pub const LLVM_SUPPORTED: u32 = 0;

/// Excludes incremental compilation from optimized-LLVM collection.
pub const LLVM_UNSUPPORTED_INCREMENTAL: u32 = 1;

/// Excludes cross-crate ThinLTO from optimized-LLVM collection.
pub const LLVM_UNSUPPORTED_CROSS_CRATE_THIN: u32 = 2;

/// Excludes fat LTO from optimized-LLVM collection.
pub const LLVM_UNSUPPORTED_FAT: u32 = 3;

/// Excludes linker-plugin LTO from optimized-LLVM collection.
pub const LLVM_UNSUPPORTED_LINKER_PLUGIN: u32 = 4;

/// Identifies a backend other than LLVM.
pub const LLVM_UNSUPPORTED_OTHER_BACKEND: u32 = 5;

/// Identifies a compiler whose optimized-artifact mapping has not been verified.
pub const LLVM_UNSUPPORTED_UNVERIFIED_COMPILER: u32 = 6;

/// Versions the verified optimized-artifact collection recipe independently of the wire format.
pub const LLVM_RECIPE_REVISION: u32 = 1;

/// Names the output path passed from the collector to the driver.
pub const MANIFEST_PATH_ENV: &'static str = "OPTIC_COMPILER_MANIFEST";

/// Names the unique rustc argument that identifies the selected Cargo target.
pub const SELECTED_TARGET_MARKER_ENV: &'static str = "OPTIC_SELECTED_TARGET_MARKER";

/// Distinguishes the inner rustc-driver process from Cargo's outer wrapper process.
pub const DRIVER_INNER_ENV: &'static str = "OPTIC_RUSTC_DRIVER_INNER";

/// Selects stopped probing or actual collection, with values `probe` and `collect`.
pub const MODE_ENV: &'static str = "OPTIC_COMPILER_MODE";

/// Names the attempt-local stale receipt. Only a verified selected probe writes this file.
pub const STALE_RECEIPT_ENV: &'static str = "OPTIC_STALE_RECEIPT";

/// Names the canonical compiler executable expected in Cargo's wrapper argument vector.
pub const RUSTC_ENV: &'static str = "OPTIC_SELECTED_RUSTC";

/// Names the canonical source path expected for the selected target.
pub const SOURCE_ENV: &'static str = "OPTIC_SELECTED_SOURCE";

/// Names the canonical selected package root that bounds source capture.
pub const PACKAGE_ROOT_ENV: &'static str = "OPTIC_SELECTED_PACKAGE_ROOT";

/// Names the rustc crate name expected for the selected target.
pub const CRATE_NAME_ENV: &'static str = "OPTIC_SELECTED_CRATE_NAME";

/// Reserves the selected-target argument prefix for analysis tokens.
pub const MARKER_PREFIX: &'static str = "--cfg=cargo_optic_selected_target=";

/// Requests the recipe key compiled into a cached driver, without entering a Cargo wrapper route.
pub const DRIVER_KEY_ARGUMENT: &'static str = "--optic-driver-key";

/// The bytes of the common header.
pub open spec fn header_bytes(marker: Seq<char>) -> Seq<u8> {
    MANIFEST_MAGIC@ + spec_u32_to_le_bytes(PROTOCOL_VERSION) + wire::text_bytes(marker)
}

/// Encodes the common header without an end record or placement payload.
///
/// The marker **must** be the collector's fixed-length selected-target argument. Its length has to
/// fit the protocol's length field.
pub fn header(marker: &str) -> (result: Vec<u8>)
    requires
        wire::text_fits(marker@),
    ensures
        result@ == header_bytes(marker@),
{
    let mut bytes: Vec<u8> = Vec::new();
    put_bytes(&mut bytes, &MANIFEST_MAGIC);
    put_u32(&mut bytes, PROTOCOL_VERSION);
    assert(bytes@ =~= MANIFEST_MAGIC@ + spec_u32_to_le_bytes(PROTOCOL_VERSION));
    let written = put_text(&mut bytes, marker);
    bytes
}

/// The code of a link-time optimisation.
pub open spec fn lto_code(lto: LlvmLto) -> u32 {
    match lto {
        LlvmLto::Off => LTO_OFF,
        LlvmLto::LocalThin => LTO_LOCAL_THIN,
        LlvmLto::CrossCrateThin => LTO_CROSS_CRATE_THIN,
        LlvmLto::Fat => LTO_FAT,
    }
}

/// The link-time optimisation of a code.
pub open spec fn lto_of(code: u32) -> Option<LlvmLto> {
    if code == LTO_OFF {
        Some(LlvmLto::Off)
    } else if code == LTO_LOCAL_THIN {
        Some(LlvmLto::LocalThin)
    } else if code == LTO_CROSS_CRATE_THIN {
        Some(LlvmLto::CrossCrateThin)
    } else if code == LTO_FAT {
        Some(LlvmLto::Fat)
    } else {
        None
    }
}

/// Encodes a link-time optimisation.
pub fn encode_lto(lto: LlvmLto) -> (result: u32)
    ensures
        result == lto_code(lto),
{
    match lto {
        LlvmLto::Off => LTO_OFF,
        LlvmLto::LocalThin => LTO_LOCAL_THIN,
        LlvmLto::CrossCrateThin => LTO_CROSS_CRATE_THIN,
        LlvmLto::Fat => LTO_FAT,
    }
}

/// Decodes a link-time optimisation.
pub fn decode_lto(code: u32) -> (result: Option<LlvmLto>)
    ensures
        result == lto_of(code),
{
    if code == LTO_OFF {
        Some(LlvmLto::Off)
    } else if code == LTO_LOCAL_THIN {
        Some(LlvmLto::LocalThin)
    } else if code == LTO_CROSS_CRATE_THIN {
        Some(LlvmLto::CrossCrateThin)
    } else if code == LTO_FAT {
        Some(LlvmLto::Fat)
    } else {
        None
    }
}

/// The code of LLVM support.
pub open spec fn support_code(unsupported: Option<UnsupportedLlvmConfiguration>) -> u32 {
    match unsupported {
        None => LLVM_SUPPORTED,
        Some(UnsupportedLlvmConfiguration::Incremental) => LLVM_UNSUPPORTED_INCREMENTAL,
        Some(UnsupportedLlvmConfiguration::CrossCrateThinLto) => LLVM_UNSUPPORTED_CROSS_CRATE_THIN,
        Some(UnsupportedLlvmConfiguration::FatLto) => LLVM_UNSUPPORTED_FAT,
        Some(UnsupportedLlvmConfiguration::LinkerPluginLto) => LLVM_UNSUPPORTED_LINKER_PLUGIN,
        Some(UnsupportedLlvmConfiguration::OtherBackend) => LLVM_UNSUPPORTED_OTHER_BACKEND,
        Some(
            UnsupportedLlvmConfiguration::UnverifiedCompiler,
        ) => LLVM_UNSUPPORTED_UNVERIFIED_COMPILER,
    }
}

/// The LLVM support of a code, if the code is known.
pub open spec fn support_of(code: u32) -> Option<Option<UnsupportedLlvmConfiguration>> {
    if code == LLVM_SUPPORTED {
        Some(None)
    } else if code == LLVM_UNSUPPORTED_INCREMENTAL {
        Some(Some(UnsupportedLlvmConfiguration::Incremental))
    } else if code == LLVM_UNSUPPORTED_CROSS_CRATE_THIN {
        Some(Some(UnsupportedLlvmConfiguration::CrossCrateThinLto))
    } else if code == LLVM_UNSUPPORTED_FAT {
        Some(Some(UnsupportedLlvmConfiguration::FatLto))
    } else if code == LLVM_UNSUPPORTED_LINKER_PLUGIN {
        Some(Some(UnsupportedLlvmConfiguration::LinkerPluginLto))
    } else if code == LLVM_UNSUPPORTED_OTHER_BACKEND {
        Some(Some(UnsupportedLlvmConfiguration::OtherBackend))
    } else if code == LLVM_UNSUPPORTED_UNVERIFIED_COMPILER {
        Some(Some(UnsupportedLlvmConfiguration::UnverifiedCompiler))
    } else {
        None
    }
}

/// Encodes LLVM support.
pub fn encode_support(unsupported: Option<UnsupportedLlvmConfiguration>) -> (result: u32)
    ensures
        result == support_code(unsupported),
{
    match unsupported {
        None => LLVM_SUPPORTED,
        Some(UnsupportedLlvmConfiguration::Incremental) => LLVM_UNSUPPORTED_INCREMENTAL,
        Some(UnsupportedLlvmConfiguration::CrossCrateThinLto) => LLVM_UNSUPPORTED_CROSS_CRATE_THIN,
        Some(UnsupportedLlvmConfiguration::FatLto) => LLVM_UNSUPPORTED_FAT,
        Some(UnsupportedLlvmConfiguration::LinkerPluginLto) => LLVM_UNSUPPORTED_LINKER_PLUGIN,
        Some(UnsupportedLlvmConfiguration::OtherBackend) => LLVM_UNSUPPORTED_OTHER_BACKEND,
        Some(
            UnsupportedLlvmConfiguration::UnverifiedCompiler,
        ) => LLVM_UNSUPPORTED_UNVERIFIED_COMPILER,
    }
}

/// Decodes LLVM support.
pub fn decode_support(code: u32) -> (result: Option<Option<UnsupportedLlvmConfiguration>>)
    ensures
        result == support_of(code),
{
    if code == LLVM_SUPPORTED {
        Some(None)
    } else if code == LLVM_UNSUPPORTED_INCREMENTAL {
        Some(Some(UnsupportedLlvmConfiguration::Incremental))
    } else if code == LLVM_UNSUPPORTED_CROSS_CRATE_THIN {
        Some(Some(UnsupportedLlvmConfiguration::CrossCrateThinLto))
    } else if code == LLVM_UNSUPPORTED_FAT {
        Some(Some(UnsupportedLlvmConfiguration::FatLto))
    } else if code == LLVM_UNSUPPORTED_LINKER_PLUGIN {
        Some(Some(UnsupportedLlvmConfiguration::LinkerPluginLto))
    } else if code == LLVM_UNSUPPORTED_OTHER_BACKEND {
        Some(Some(UnsupportedLlvmConfiguration::OtherBackend))
    } else if code == LLVM_UNSUPPORTED_UNVERIFIED_COMPILER {
        Some(Some(UnsupportedLlvmConfiguration::UnverifiedCompiler))
    } else {
        None
    }
}

/// The code of a missing source.
pub open spec fn unavailable_code(reason: SourceUnavailable) -> u32 {
    match reason {
        SourceUnavailable::Nonlocal => SOURCE_NONLOCAL,
        SourceUnavailable::Unloaded => SOURCE_UNLOADED,
        SourceUnavailable::Generated => SOURCE_GENERATED,
        SourceUnavailable::UnsupportedSpan => SOURCE_UNSUPPORTED_SPAN,
        SourceUnavailable::OutsidePackage => SOURCE_OUTSIDE_PACKAGE,
    }
}

/// The missing source of a code.
pub open spec fn unavailable_of(code: u32) -> Option<SourceUnavailable> {
    if code == SOURCE_NONLOCAL {
        Some(SourceUnavailable::Nonlocal)
    } else if code == SOURCE_UNLOADED {
        Some(SourceUnavailable::Unloaded)
    } else if code == SOURCE_GENERATED {
        Some(SourceUnavailable::Generated)
    } else if code == SOURCE_UNSUPPORTED_SPAN {
        Some(SourceUnavailable::UnsupportedSpan)
    } else if code == SOURCE_OUTSIDE_PACKAGE {
        Some(SourceUnavailable::OutsidePackage)
    } else {
        None
    }
}

/// Encodes a missing source.
pub fn encode_unavailable(reason: SourceUnavailable) -> (result: u32)
    ensures
        result == unavailable_code(reason),
{
    match reason {
        SourceUnavailable::Nonlocal => SOURCE_NONLOCAL,
        SourceUnavailable::Unloaded => SOURCE_UNLOADED,
        SourceUnavailable::Generated => SOURCE_GENERATED,
        SourceUnavailable::UnsupportedSpan => SOURCE_UNSUPPORTED_SPAN,
        SourceUnavailable::OutsidePackage => SOURCE_OUTSIDE_PACKAGE,
    }
}

/// Decodes a missing source.
pub fn decode_unavailable(code: u32) -> (result: Option<SourceUnavailable>)
    ensures
        result == unavailable_of(code),
{
    if code == SOURCE_NONLOCAL {
        Some(SourceUnavailable::Nonlocal)
    } else if code == SOURCE_UNLOADED {
        Some(SourceUnavailable::Unloaded)
    } else if code == SOURCE_GENERATED {
        Some(SourceUnavailable::Generated)
    } else if code == SOURCE_UNSUPPORTED_SPAN {
        Some(SourceUnavailable::UnsupportedSpan)
    } else if code == SOURCE_OUTSIDE_PACKAGE {
        Some(SourceUnavailable::OutsidePackage)
    } else {
        None
    }
}

/// A link-time optimisation is decoded from its code, and each code is the documented number.
pub proof fn lto_codes_are_decoded(lto: LlvmLto, code: u32)
    ensures
        lto_of(lto_code(lto)) == Some(lto),
        lto_of(code) == Some(lto) ==> lto_code(lto) == code,
        lto_of(code) is Some <==> code <= 3,
        lto_code(LlvmLto::Off) == 0,
        lto_code(LlvmLto::LocalThin) == 1,
        lto_code(LlvmLto::CrossCrateThin) == 2,
        lto_code(LlvmLto::Fat) == 3,
{
}

/// LLVM support is decoded from its code, and each code is the documented number.
pub proof fn support_codes_are_decoded(
    unsupported: Option<UnsupportedLlvmConfiguration>,
    code: u32,
)
    ensures
        support_of(support_code(unsupported)) == Some(unsupported),
        support_of(code) == Some(unsupported) ==> support_code(unsupported) == code,
        support_of(code) is Some <==> code <= 6,
        support_code(None) == 0,
        support_code(Some(UnsupportedLlvmConfiguration::Incremental)) == 1,
        support_code(Some(UnsupportedLlvmConfiguration::CrossCrateThinLto)) == 2,
        support_code(Some(UnsupportedLlvmConfiguration::FatLto)) == 3,
        support_code(Some(UnsupportedLlvmConfiguration::LinkerPluginLto)) == 4,
        support_code(Some(UnsupportedLlvmConfiguration::OtherBackend)) == 5,
        support_code(Some(UnsupportedLlvmConfiguration::UnverifiedCompiler)) == 6,
{
}

/// A missing source is decoded from its code, and each code is the documented number. The code of
/// an available source stands for none of them.
pub proof fn unavailable_codes_are_decoded(reason: SourceUnavailable, code: u32)
    ensures
        unavailable_of(unavailable_code(reason)) == Some(reason),
        unavailable_of(code) == Some(reason) ==> unavailable_code(reason) == code,
        unavailable_of(code) is Some <==> 1 <= code <= 5,
        SOURCE_AVAILABLE == 0,
        unavailable_code(SourceUnavailable::Nonlocal) == 1,
        unavailable_code(SourceUnavailable::Unloaded) == 2,
        unavailable_code(SourceUnavailable::Generated) == 3,
        unavailable_code(SourceUnavailable::UnsupportedSpan) == 4,
        unavailable_code(SourceUnavailable::OutsidePackage) == 5,
{
}

} // verus!

//! Encodes a compiler manifest in the field order of the protocol.
//!
//! Each placement repeats its instance identity, so records can be written as the compiler yields
//! them. The reader groups them afterwards.

use super::manifest::{Configuration, ConfigurationData, Entry};
use super::protocol;
use super::protocol::{
    encode_lto, encode_support, encode_unavailable, header, CONFIGURATION_RECORD, END_RECORD,
    LLVM_RECIPE_REVISION, MODULE_RECORD, PLACEMENT_RECORD, SOURCE_AVAILABLE, SOURCE_FILE_RECORD,
};
use crate::records::{KeyData, PlacementData, PlacementRecord, SourceAvailability, SourceData};
use crate::wire;
use crate::wire::{put_text, put_u32, put_u64};
use vstd::bytes::*;
use vstd::prelude::*;

verus! {

/// The encoding of a flag.
pub open spec fn flag_bytes(flag: bool) -> Seq<u8> {
    spec_u32_to_le_bytes(if flag { 1u32 } else { 0u32 })
}

/// The encoding of the kind and the texts of a configuration record.
pub open spec fn configuration_texts(c: ConfigurationData) -> Seq<u8> {
    spec_u32_to_le_bytes(CONFIGURATION_RECORD) + (wire::text_bytes(c.backend) + (wire::text_bytes(
        c.target,
    ) + wire::text_bytes(c.optimization)))
}

/// The encoding of the numbers of a configuration record.
pub open spec fn configuration_numbers(c: ConfigurationData) -> Seq<u8> {
    spec_u32_to_le_bytes(protocol::lto_code(c.lto)) + (flag_bytes(c.incremental) + (flag_bytes(
        c.linker_plugin,
    ) + (spec_u32_to_le_bytes(c.codegen_units) + (spec_u32_to_le_bytes(LLVM_RECIPE_REVISION)
        + spec_u32_to_le_bytes(protocol::support_code(c.unsupported))))))
}

/// The encoding of a configuration record.
pub open spec fn configuration_bytes(c: ConfigurationData) -> Seq<u8> {
    configuration_texts(c) + configuration_numbers(c)
}

/// The texts of a configuration fit their length fields.
pub open spec fn configuration_fits(c: ConfigurationData) -> bool {
    wire::text_fits(c.backend) && wire::text_fits(c.target) && wire::text_fits(c.optimization)
}

/// The encoding of an instance identity.
pub open spec fn key_bytes(key: KeyData) -> Seq<u8> {
    wire::text_bytes(key.definition_crate) + (wire::text_bytes(key.definition_path) + (
    wire::text_bytes(key.display_name) + wire::text_bytes(key.raw_symbol)))
}

/// The encoding of a placement.
pub open spec fn placement_bytes(p: PlacementData) -> Seq<u8> {
    wire::text_bytes(p.codegen_unit) + (wire::text_bytes(p.linkage) + (wire::text_bytes(
        p.visibility,
    ) + (flag_bytes(p.local_copy) + spec_u64_to_le_bytes(p.size_estimate))))
}

/// The encoding of a source relationship.
pub open spec fn source_bytes(source: SourceData) -> Seq<u8> {
    match source {
        SourceData::Available { artifact, start, length, path, line } => spec_u32_to_le_bytes(
            SOURCE_AVAILABLE,
        ) + (spec_u64_to_le_bytes(artifact) + (spec_u64_to_le_bytes(start) + (spec_u64_to_le_bytes(
            length,
        ) + (wire::text_bytes(path) + spec_u64_to_le_bytes(line))))),
        SourceData::Unavailable(reason) => spec_u32_to_le_bytes(protocol::unavailable_code(reason)),
    }
}

/// The encoding of a record.
pub open spec fn entry_bytes(entry: Entry) -> Seq<u8> {
    match entry {
        Entry::Placement { key, placement, source } => spec_u32_to_le_bytes(PLACEMENT_RECORD) + (
        key_bytes(key) + (placement_bytes(placement) + source_bytes(source))),
        Entry::SourceFile { id, length } => spec_u32_to_le_bytes(SOURCE_FILE_RECORD) + (
        spec_u64_to_le_bytes(id) + spec_u64_to_le_bytes(length)),
        Entry::Module { name, path } => spec_u32_to_le_bytes(MODULE_RECORD) + (wire::text_bytes(
            name,
        ) + wire::text_bytes(path)),
    }
}

/// The texts of a record fit their length fields.
pub open spec fn entry_fits(entry: Entry) -> bool {
    match entry {
        Entry::Placement { key, placement, source } => {
            &&& wire::text_fits(key.definition_crate)
            &&& wire::text_fits(key.definition_path)
            &&& wire::text_fits(key.display_name)
            &&& wire::text_fits(key.raw_symbol)
            &&& wire::text_fits(placement.codegen_unit)
            &&& wire::text_fits(placement.linkage)
            &&& wire::text_fits(placement.visibility)
            &&& source matches SourceData::Available { path, .. } ==> wire::text_fits(path)
        },
        Entry::SourceFile { .. } => true,
        Entry::Module { name, path } => wire::text_fits(name) && wire::text_fits(path),
    }
}

/// A text was too long for its length field.
#[derive(Clone, Copy, Debug, PartialEq, Eq, Structural)]
pub struct TextTooLong {
    /// The number of bytes.
    pub length: usize,
}

/// How the compiler links a placed function.
#[derive(Clone, Copy, Debug, PartialEq, Eq, Structural)]
pub enum Linkage {
    /// Available for inlining only.
    AvailableExternally,
    /// Tentative definition.
    Common,
    /// Weak reference.
    ExternalWeak,
    /// Visible to other modules.
    External,
    /// Private to its module.
    Internal,
    /// Merged with equal names.
    LinkOnceAny,
    /// Merged with equal definitions.
    LinkOnceODR,
    /// Overridable.
    WeakAny,
    /// Overridable by an equal definition.
    WeakODR,
}

/// The name of a linkage.
pub open spec fn linkage_text(linkage: Linkage) -> Seq<char> {
    match linkage {
        Linkage::AvailableExternally => "AvailableExternally"@,
        Linkage::Common => "Common"@,
        Linkage::ExternalWeak => "ExternalWeak"@,
        Linkage::External => "External"@,
        Linkage::Internal => "Internal"@,
        Linkage::LinkOnceAny => "LinkOnceAny"@,
        Linkage::LinkOnceODR => "LinkOnceODR"@,
        Linkage::WeakAny => "WeakAny"@,
        Linkage::WeakODR => "WeakODR"@,
    }
}

/// Names a linkage.
pub fn linkage_name(linkage: Linkage) -> (result: &'static str)
    ensures
        result@ == linkage_text(linkage),
{
    match linkage {
        Linkage::AvailableExternally => "AvailableExternally",
        Linkage::Common => "Common",
        Linkage::ExternalWeak => "ExternalWeak",
        Linkage::External => "External",
        Linkage::Internal => "Internal",
        Linkage::LinkOnceAny => "LinkOnceAny",
        Linkage::LinkOnceODR => "LinkOnceODR",
        Linkage::WeakAny => "WeakAny",
        Linkage::WeakODR => "WeakODR",
    }
}

/// How far a placed function is visible.
#[derive(Clone, Copy, Debug, PartialEq, Eq, Structural)]
pub enum Visibility {
    /// Visible as linked.
    Default,
    /// Hidden from other objects.
    Hidden,
    /// Visible but not overridable.
    Protected,
}

/// The name of a visibility.
pub open spec fn visibility_text(visibility: Visibility) -> Seq<char> {
    match visibility {
        Visibility::Default => "Default"@,
        Visibility::Hidden => "Hidden"@,
        Visibility::Protected => "Protected"@,
    }
}

/// Names a visibility.
pub fn visibility_name(visibility: Visibility) -> (result: &'static str)
    ensures
        result@ == visibility_text(visibility),
{
    match visibility {
        Visibility::Default => "Default",
        Visibility::Hidden => "Hidden",
        Visibility::Protected => "Protected",
    }
}

/// The optimisation level of a compiler session.
#[derive(Clone, Copy, Debug, PartialEq, Eq, Structural)]
pub enum OptLevel {
    /// No optimisation.
    No,
    /// Little optimisation.
    Less,
    /// More optimisation.
    More,
    /// Full optimisation.
    Aggressive,
    /// For size.
    Size,
    /// For the smallest size.
    SizeMin,
}

/// The flag of an optimisation level.
pub open spec fn optimization_text(level: OptLevel) -> Seq<char> {
    match level {
        OptLevel::No => "0"@,
        OptLevel::Less => "1"@,
        OptLevel::More => "2"@,
        OptLevel::Aggressive => "3"@,
        OptLevel::Size => "s"@,
        OptLevel::SizeMin => "z"@,
    }
}

/// Names an optimisation level by its flag.
pub fn optimization_name(level: OptLevel) -> (result: &'static str)
    ensures
        result@ == optimization_text(level),
{
    match level {
        OptLevel::No => "0",
        OptLevel::Less => "1",
        OptLevel::More => "2",
        OptLevel::Aggressive => "3",
        OptLevel::Size => "s",
        OptLevel::SizeMin => "z",
    }
}

/// The definition and symbol identity of one monomorphized function.
#[derive(Debug)]
pub struct ConcreteInstance {
    /// The crate that owns the generic or nongeneric function definition.
    pub definition_crate: String,
    /// The canonical path to the function definition without generic arguments.
    pub definition_path: String,
    /// The canonical function path with this instance's concrete generic arguments.
    pub display_name: String,
    /// The symbol that identifies this concrete instance in compiler output.
    pub raw_symbol: String,
}

impl View for ConcreteInstance {
    type V = KeyData;

    open spec fn view(&self) -> KeyData {
        KeyData {
            definition_crate: self.definition_crate@,
            definition_path: self.definition_path@,
            display_name: self.display_name@,
            raw_symbol: self.raw_symbol@,
        }
    }
}

/// Builds an attempt's private manifest.
///
/// The caller **must** follow the record order and identity requirements of the protocol. The
/// reader rejects invalid records.
pub struct ManifestWriter {
    bytes: Vec<u8>,
}

/// A written record, or a text that was too long for it. What was written before stays.
pub open spec fn wrote(
    before: Seq<u8>,
    after: Seq<u8>,
    record: Seq<u8>,
    fits: bool,
    result: Result<(), TextTooLong>,
) -> bool {
    &&& result is Ok <==> fits
    &&& fits ==> after == before + record
    &&& before.is_prefix_of(after)
    &&& result matches Err(error) ==> error.length > u32::MAX
}

impl View for ManifestWriter {
    type V = Seq<u8>;

    closed spec fn view(&self) -> Seq<u8> {
        self.bytes@
    }
}

impl ManifestWriter {
    /// Starts a manifest with its header.
    pub fn create(marker: &str) -> (result: Self)
        requires
            wire::text_fits(marker@),
        ensures
            result@ == protocol::header_bytes(marker@),
    {
        ManifestWriter { bytes: header(marker) }
    }

    /// Writes one function placement in the field order defined by the protocol.
    pub fn write_placement(
        &mut self,
        instance: &ConcreteInstance,
        placement: &PlacementRecord,
        source: &SourceAvailability,
    ) -> (result: Result<(), TextTooLong>)
        ensures
            ({
                let entry = Entry::Placement {
                    key: instance@,
                    placement: placement@,
                    source: source@,
                };
                wrote(old(self)@, final(self)@, entry_bytes(entry), entry_fits(entry), result)
            }),
    {
        put_u32(&mut self.bytes, PLACEMENT_RECORD);
        let ghost b0 = self.bytes@;
        match self.write_key(instance) {
            Err(error) => {
                return Err(error);
            },
            Ok(()) => {},
        }
        let ghost b1 = self.bytes@;
        match self.write_place(placement) {
            Err(error) => {
                return Err(error);
            },
            Ok(()) => {},
        }
        let ghost b2 = self.bytes@;
        match self.write_source(source) {
            Err(error) => {
                return Err(error);
            },
            Ok(()) => {},
        }
        proof {
            let kind = spec_u32_to_le_bytes(PLACEMENT_RECORD);
            let (key, place, rest) = (
                key_bytes(instance@),
                placement_bytes(placement@),
                source_bytes(source@),
            );
            wire::regroup(b1, place, rest);
            wire::regroup(b0, key, place + rest);
            wire::regroup(old(self)@, kind, key + (place + rest));
        }
        Ok(())
    }

    fn write_key(&mut self, instance: &ConcreteInstance) -> (result: Result<(), TextTooLong>)
        ensures
            wrote(
                old(self)@,
                final(self)@,
                key_bytes(instance@),
                wire::text_fits(instance@.definition_crate) && wire::text_fits(
                    instance@.definition_path,
                ) && wire::text_fits(instance@.display_name) && wire::text_fits(
                    instance@.raw_symbol,
                ),
                result,
            ),
    {
        match self.write_string(instance.definition_crate.as_str()) {
            Err(error) => {
                return Err(error);
            },
            Ok(()) => {},
        }
        match self.write_string(instance.definition_path.as_str()) {
            Err(error) => {
                return Err(error);
            },
            Ok(()) => {},
        }
        match self.write_string(instance.display_name.as_str()) {
            Err(error) => {
                return Err(error);
            },
            Ok(()) => {},
        }
        match self.write_string(instance.raw_symbol.as_str()) {
            Err(error) => {
                return Err(error);
            },
            Ok(()) => {},
        }
        assert(self.bytes@ =~= old(self)@ + key_bytes(instance@));
        Ok(())
    }

    fn write_place(&mut self, placement: &PlacementRecord) -> (result: Result<(), TextTooLong>)
        ensures
            wrote(
                old(self)@,
                final(self)@,
                placement_bytes(placement@),
                wire::text_fits(placement@.codegen_unit) && wire::text_fits(placement@.linkage)
                    && wire::text_fits(placement@.visibility),
                result,
            ),
    {
        match self.write_string(placement.codegen_unit.as_str()) {
            Err(error) => {
                return Err(error);
            },
            Ok(()) => {},
        }
        match self.write_string(placement.linkage.as_str()) {
            Err(error) => {
                return Err(error);
            },
            Ok(()) => {},
        }
        match self.write_string(placement.visibility.as_str()) {
            Err(error) => {
                return Err(error);
            },
            Ok(()) => {},
        }
        put_u32(&mut self.bytes, if placement.local_copy { 1 } else { 0 });
        put_u64(&mut self.bytes, placement.size_estimate);
        assert(self.bytes@ =~= old(self)@ + placement_bytes(placement@));
        Ok(())
    }

    fn write_source(&mut self, source: &SourceAvailability) -> (result: Result<(), TextTooLong>)
        ensures
            wrote(
                old(self)@,
                final(self)@,
                source_bytes(source@),
                source@ matches SourceData::Available { path, .. } ==> wire::text_fits(path),
                result,
            ),
    {
        match source {
            SourceAvailability::Available(span) => {
                put_u32(&mut self.bytes, SOURCE_AVAILABLE);
                put_u64(&mut self.bytes, span.artifact);
                put_u64(&mut self.bytes, span.range.start());
                put_u64(&mut self.bytes, span.range.length());
                match self.write_string(span.path.as_str()) {
                    Err(error) => {
                        return Err(error);
                    },
                    Ok(()) => {},
                }
                put_u64(&mut self.bytes, span.line);
                assert(self.bytes@ =~= old(self)@ + source_bytes(source@));
                Ok(())
            },
            SourceAvailability::Unavailable(reason) => {
                put_u32(&mut self.bytes, encode_unavailable(*reason));
                Ok(())
            },
        }
    }

    /// Writes the single effective configuration before any source, module, or placement record.
    pub fn write_configuration(&mut self, configuration: &Configuration) -> (result: Result<
        (),
        TextTooLong,
    >)
        ensures
            wrote(
                old(self)@,
                final(self)@,
                configuration_bytes(configuration@),
                configuration_fits(configuration@),
                result,
            ),
    {
        match self.write_configuration_texts(configuration) {
            Err(error) => {
                return Err(error);
            },
            Ok(()) => {},
        }
        let ghost middle = self.bytes@;
        self.write_configuration_numbers(configuration);
        proof {
            wire::regroup(
                old(self)@,
                configuration_texts(configuration@),
                configuration_numbers(configuration@),
            );
            assert(old(self)@.is_prefix_of(self@));
        }
        Ok(())
    }

    fn write_configuration_numbers(&mut self, configuration: &Configuration)
        ensures
            final(self)@ == old(self)@ + configuration_numbers(configuration@),
    {
        let ghost start = self.bytes@;
        let ghost c = configuration@;
        put_u32(&mut self.bytes, encode_lto(configuration.lto));
        put_u32(&mut self.bytes, if configuration.incremental { 1 } else { 0 });
        put_u32(&mut self.bytes, if configuration.linker_plugin { 1 } else { 0 });
        put_u32(&mut self.bytes, configuration.codegen_units);
        put_u32(&mut self.bytes, LLVM_RECIPE_REVISION);
        put_u32(&mut self.bytes, encode_support(configuration.unsupported));
        proof {
            let n1 = spec_u32_to_le_bytes(protocol::lto_code(c.lto));
            let n2 = flag_bytes(c.incremental);
            let n3 = flag_bytes(c.linker_plugin);
            let n4 = spec_u32_to_le_bytes(c.codegen_units);
            let n5 = spec_u32_to_le_bytes(LLVM_RECIPE_REVISION);
            let n6 = spec_u32_to_le_bytes(protocol::support_code(c.unsupported));
            wire::regroup(start + n1 + n2 + n3 + n4, n5, n6);
            wire::regroup(start + n1 + n2 + n3, n4, n5 + n6);
            wire::regroup(start + n1 + n2, n3, n4 + (n5 + n6));
            wire::regroup(start + n1, n2, n3 + (n4 + (n5 + n6)));
            wire::regroup(start, n1, n2 + (n3 + (n4 + (n5 + n6))));
        }
    }

    fn write_configuration_texts(&mut self, configuration: &Configuration) -> (result: Result<
        (),
        TextTooLong,
    >)
        ensures
            wrote(
                old(self)@,
                final(self)@,
                configuration_texts(configuration@),
                configuration_fits(configuration@),
                result,
            ),
    {
        put_u32(&mut self.bytes, CONFIGURATION_RECORD);
        match self.write_string(configuration.backend.as_str()) {
            Err(error) => {
                return Err(error);
            },
            Ok(()) => {},
        }
        match self.write_string(configuration.target.as_str()) {
            Err(error) => {
                return Err(error);
            },
            Ok(()) => {},
        }
        match self.write_string(configuration.optimization.as_str()) {
            Err(error) => {
                return Err(error);
            },
            Ok(()) => {},
        }
        assert(self.bytes@ =~= old(self)@ + configuration_texts(configuration@));
        Ok(())
    }

    /// Declares an already-written snapshot with its attempt-local ID and normalized byte length.
    ///
    /// The ID **must** be unique within this manifest. The snapshot can be empty.
    pub fn write_source_file(&mut self, id: u64, length: u64)
        ensures
            final(self)@ == old(self)@ + entry_bytes(Entry::SourceFile { id, length }),
    {
        put_u32(&mut self.bytes, SOURCE_FILE_RECORD);
        put_u64(&mut self.bytes, id);
        put_u64(&mut self.bytes, length);
        assert(self.bytes@ =~= old(self)@ + entry_bytes(Entry::SourceFile { id, length }));
    }

    /// Records the bitcode file that a regular codegen unit will produce after compilation.
    ///
    /// The name **must** be unique. Unsupported configurations cannot have module records.
    pub fn write_module(&mut self, name: &str, path: &str) -> (result: Result<(), TextTooLong>)
        ensures
            ({
                let entry = Entry::Module { name: name@, path: path@ };
                wrote(old(self)@, final(self)@, entry_bytes(entry), entry_fits(entry), result)
            }),
    {
        put_u32(&mut self.bytes, MODULE_RECORD);
        match self.write_string(name) {
            Err(error) => {
                return Err(error);
            },
            Ok(()) => {},
        }
        match self.write_string(path) {
            Err(error) => {
                return Err(error);
            },
            Ok(()) => {},
        }
        assert(self.bytes@ =~= old(self)@ + entry_bytes(
            Entry::Module { name: name@, path: path@ },
        ));
        Ok(())
    }

    /// Completes the stream and returns its bytes.
    pub fn finish(self) -> (result: Vec<u8>)
        ensures
            result@ == self@ + spec_u32_to_le_bytes(END_RECORD),
    {
        let mut bytes = self.bytes;
        put_u32(&mut bytes, END_RECORD);
        bytes
    }

    fn write_string(&mut self, value: &str) -> (result: Result<(), TextTooLong>)
        ensures
            wrote(
                old(self)@,
                final(self)@,
                wire::text_bytes(value@),
                wire::text_fits(value@),
                result,
            ),
    {
        match put_text(&mut self.bytes, value) {
            Ok(()) => Ok(()),
            Err(length) => Err(TextTooLong { length }),
        }
    }
}

} // verus!

//! Reads retained compiler evidence without invoking Cargo again.
//!
//! [`ingest_with_events`] names the outside steps of an ingestion one after the other and decides
//! what follows from each. It reports every placement of the manifest, then the records of each
//! module in the order of their paths, and then the remarks if they were requested. Each event holds
//! at most one bounded record.

use super::capture;
use super::capture::{
    compiler_invocation, disassemble_module, record_event, remarks_directory,
    remove_generated_llvm_text, CaptureInvocation, CaptureInvocationData, CompiledCapture,
    CompiledCaptureData, EvidenceEvent, EvidenceEventData, EvidenceMetadata, EvidenceMetadataData,
    ModuleStartData, RemarkFileStartData,
};
use super::compile;
use super::compile::{manifest_file, require_compiled_evidence, supported_bitcode};
use super::disassembly;
use super::disassembly::{run_disassembler, Disassembly, DisassemblyData, DisassemblyReply};
use super::error;
use super::error::{
    filesystem_failure, manifest_failure, remarks_failure, scan_failure, Error, ErrorData, Failure,
};
use super::llvm;
use super::llvm::ModuleScanner;
use super::mono;
use super::mono::CompilerManifestReader;
use super::remark_files;
use super::remark_files::{
    start_file, validate_remark_record_count, DirectoryEntry, RemarkCollectionLimits, RemarkPaths,
};
use super::remarks;
use super::remarks::{parse_optimization_remarks_with, RemarkReader, StreamState};
use super::request::{BuildRequest, BuildRequestData};
use crate::lines;
use crate::paths;
use crate::sorting::{ordered, PathItem};
use crate::source::{ByteSource, SourceError};
use crate::wire;
use crate::wire::Input;
use vstd::prelude::*;

verus! {

/// The outside step that an ingestion waits for.
pub enum IngestionStep<R: ByteSource> {
    /// The manifest and the bitcode are looked for.
    Requiring,
    /// The manifest is opened and measured.
    Opening,
    /// The next placement is read.
    Placements(CompilerManifestReader<R>),
    /// The analysis directory is walked.
    Listing,
    /// The module with an index is disassembled.
    Disassembling(usize, Disassembly),
    /// The text of the module with an index is opened.
    OpeningText(usize),
    /// The next record of the module with an index is read.
    Scanning(usize, ModuleScanner<R>),
    /// The text of the module with an index is removed. This came of the module.
    Removing(usize, Result<(), Error>),
    /// The remark directory is walked.
    Walking(RemarkPaths),
    /// A remark file is measured.
    Measuring(RemarkPaths, String),
    /// The remark file with an index is started.
    StartingFile(usize),
    /// The remark file with an index is opened and measured.
    OpeningFile(usize),
    /// The next remark of the file with an index is read.
    Reading(usize, RemarkReader<R>),
    /// Nothing is left to do.
    Done,
}

/// The mathematical counterpart of [`IngestionStep`].
pub enum StepData {
    /// The manifest and the bitcode are looked for.
    Requiring,
    /// The manifest is opened and measured.
    Opening,
    /// The next placement is read from this input, behind so many others.
    Placements(Input, usize),
    /// The analysis directory is walked.
    Listing,
    /// The module with an index is disassembled.
    Disassembling(int, DisassemblyData),
    /// The text of the module with an index is opened.
    OpeningText(int),
    /// The next record of the module with an index is read.
    Scanning(int, llvm::Cursor),
    /// The text of the module with an index is removed. This came of the module.
    Removing(int, Result<(), ErrorData>),
    /// The remark directory is walked. These files of this length were selected.
    Walking(Seq<PathItem>, u64),
    /// A remark file is measured.
    Measuring(Seq<PathItem>, u64, String),
    /// The remark file with an index is started.
    StartingFile(int),
    /// The remark file with an index is opened and measured.
    OpeningFile(int),
    /// The next remark of the file with an index is read.
    Reading(int, Input, StreamState),
    /// Nothing is left to do.
    Done,
}

/// The mathematical counterpart of what came of a module.
pub open spec fn outcome_view(outcome: Result<(), Error>) -> Result<(), ErrorData> {
    match outcome {
        Ok(()) => Ok(()),
        Err(error) => Err(error@),
    }
}

impl<R: ByteSource> View for IngestionStep<R> {
    type V = StepData;

    open spec fn view(&self) -> StepData {
        match self {
            IngestionStep::Requiring => StepData::Requiring,
            IngestionStep::Opening => StepData::Opening,
            IngestionStep::Placements(reader) => StepData::Placements(
                reader.input(),
                reader.count(),
            ),
            IngestionStep::Listing => StepData::Listing,
            IngestionStep::Disassembling(index, run) => StepData::Disassembling(
                *index as int,
                run@,
            ),
            IngestionStep::OpeningText(index) => StepData::OpeningText(*index as int),
            IngestionStep::Scanning(index, scanner) => StepData::Scanning(
                *index as int,
                scanner.cursor(),
            ),
            IngestionStep::Removing(index, outcome) => StepData::Removing(
                *index as int,
                outcome_view(*outcome),
            ),
            IngestionStep::Walking(paths) => StepData::Walking(paths.items(), paths.total()),
            IngestionStep::Measuring(paths, path) => StepData::Measuring(
                paths.items(),
                paths.total(),
                *path,
            ),
            IngestionStep::StartingFile(index) => StepData::StartingFile(*index as int),
            IngestionStep::OpeningFile(index) => StepData::OpeningFile(*index as int),
            IngestionStep::Reading(index, reader) => StepData::Reading(
                *index as int,
                reader.input(),
                reader.state(),
            ),
            IngestionStep::Done => StepData::Done,
        }
    }
}

/// What an ingestion knows at every step.
struct Known {
    compilation: CompiledCapture,
    modules: Vec<PathItem>,
    files: Vec<PathItem>,
    total_records: usize,
}

/// Compiler evidence that is being read.
pub struct Ingestion<R: ByteSource> {
    known: Known,
    step: IngestionStep<R>,
}

/// The mathematical counterpart of [`Ingestion`].
pub struct IngestionData {
    /// The metadata of the capture.
    pub compilation: CompiledCaptureData,
    /// The bitcode files.
    pub modules: Seq<PathItem>,
    /// The remark files.
    pub files: Seq<PathItem>,
    /// The number of remarks so far.
    pub total: usize,
    /// The outside step to do next.
    pub step: StepData,
}

impl<R: ByteSource> View for Ingestion<R> {
    type V = IngestionData;

    closed spec fn view(&self) -> IngestionData {
        data_of(self.known, self.step@)
    }
}

/// The mathematical ingestion at a step.
spec fn data_of(known: Known, step: StepData) -> IngestionData {
    IngestionData {
        compilation: known.compilation@,
        modules: known.modules@,
        files: known.files@,
        total: known.total_records,
        step,
    }
}

/// What an outside step of an ingestion gave.
pub enum IngestionReply<R: ByteSource> {
    /// Nothing was needed.
    Continue,
    /// The manifest was looked for, and the bitcode files were listed.
    Evidence(bool, Result<Vec<PathItem>, Error>),
    /// A file was opened and then measured.
    Opened(Result<(R, Result<u64, SourceError>), SourceError>),
    /// The analysis directory was walked.
    Entries(Vec<Result<DirectoryEntry, SourceError>>),
    /// A step of the disassembler ended.
    Disassembly(DisassemblyReply),
    /// A generated text was removed.
    Removed(Result<(), SourceError>),
    /// The walk of the remark directory gave an entry, or ended.
    Entry(Option<Result<DirectoryEntry, SourceError>>),
    /// A remark file was measured.
    Measured(Result<u64, SourceError>),
}

/// A bitcode file has a name, as every file that a directory walk gives.
pub open spec fn named(entries: Seq<Result<DirectoryEntry, SourceError>>) -> bool {
    forall|i: int|
        0 <= i < entries.len() && (#[trigger] entries[i]) is Ok && compile::bitcode_entry(
            entries[i]->Ok_0,
        ) ==> paths::name_of(entries[i]->Ok_0.path@) is Some
}

/// A reply is one that a file system can give.
pub open spec fn possible<R: ByteSource>(reply: IngestionReply<R>) -> bool {
    match reply {
        IngestionReply::Opened(Ok((reader, _))) => reader.pending().len() <= u64::MAX,
        IngestionReply::Entries(entries) => named(entries@),
        _ => true,
    }
}

/// Every module has a file name.
pub open spec fn all_named(modules: Seq<PathItem>) -> bool {
    forall|i: int|
        0 <= i < modules.len() ==> paths::name_of((#[trigger] modules[i]).path@) is Some
}

/// The metadata of a capture with its compiler command.
pub open spec fn ingested(
    compilation: CompiledCaptureData,
    request: BuildRequestData,
    rustc: capture::CommandInvocationData,
) -> CompiledCaptureData {
    CompiledCaptureData {
        invocation: CaptureInvocationData {
            request,
            rustc: Some(rustc),
            ..compilation.invocation
        },
        toolchain: compilation.toolchain,
    }
}

/// The ingestion at another step.
pub open spec fn at(data: IngestionData, step: StepData) -> IngestionData {
    IngestionData { step, ..data }
}

/// An ingestion and perhaps an event, or an error.
pub type Ingested = Result<(IngestionData, Option<EvidenceEventData>), ErrorData>;

/// An ingestion without an event.
pub open spec fn silent(data: IngestionData) -> Ingested {
    Ok((data, None))
}

/// The step behind all modules: remarks are read only if they were requested.
pub open spec fn behind_modules(request: BuildRequestData) -> StepData {
    if request.capture_remarks {
        StepData::Walking(Seq::empty(), 0)
    } else {
        StepData::Done
    }
}

/// The step that turns to the module with an index.
pub open spec fn module_step(request: BuildRequestData, count: nat, index: int) -> StepData {
    if index < count {
        StepData::Disassembling(index, DisassemblyData::Starting)
    } else {
        behind_modules(request)
    }
}

/// The step that turns to the remark file with an index.
pub open spec fn file_step(count: nat, index: int) -> StepData {
    if index < count {
        StepData::StartingFile(index)
    } else {
        StepData::Done
    }
}

/// The module with an index.
pub open spec fn module_at(request: BuildRequestData, data: IngestionData, index: int) -> ModuleStartData {
    let path = data.modules[index].path@;
    capture::module_of(path, paths::name_of(path)->Some_0, request.analysis_directory)
}

/// A file that could not be opened or measured.
pub open spec fn unopened(operation: Seq<char>, path: Seq<char>, source: SourceError) -> ErrorData {
    Failure::Filesystem { operation, path, source }
}

/// The ingestion behind the opened manifest.
pub open spec fn after_opening<R: ByteSource>(
    request: BuildRequestData,
    data: IngestionData,
    opened: Result<(R, Result<u64, SourceError>), SourceError>,
) -> Ingested {
    let path = compile::manifest_path(request);
    match opened {
        Err(source) => Err(unopened("open"@, path, source)),
        Ok((_, Err(source))) => Err(unopened("read metadata for"@, path, source)),
        Ok((reader, Ok(length))) => match mono::opened(
            wire::input_of(reader),
            length,
            data.compilation.toolchain.commit_hash,
            mono::MAX_MANIFEST_BYTES,
        ) {
            Err(fault) => Err(error::of_manifest(path, fault)),
            Ok((arguments, after)) => match capture::invocation_of(arguments) {
                Err(error) => Err(error),
                Ok(rustc) => silent(
                    IngestionData {
                        compilation: ingested(data.compilation, request, rustc),
                        step: StepData::Placements(after, 0),
                        ..data
                    },
                ),
            },
        },
    }
}

/// The ingestion behind the next placement. The end of the manifest leads to the modules.
pub open spec fn after_placement(
    request: BuildRequestData,
    data: IngestionData,
    input: Input,
    count: usize,
) -> Ingested {
    match mono::record(input, count) {
        Err(fault) => Err(error::of_manifest(compile::manifest_path(request), fault)),
        Ok((Some(record), after)) => Ok(
            (
                at(data, StepData::Placements(after, (count + 1) as usize)),
                Some(EvidenceEventData::Placement(record)),
            ),
        ),
        Ok((None, _)) => silent(at(data, StepData::Listing)),
    }
}

/// The ingestion behind the walk of the analysis directory, given the arranged bitcode files.
pub open spec fn after_listing(
    request: BuildRequestData,
    data: IngestionData,
    entries: Seq<Result<DirectoryEntry, SourceError>>,
    modules: Seq<PathItem>,
) -> Ingested {
    match compile::bitcode_of(entries) {
        Err(source) => Err(unopened("walk"@, request.analysis_directory, source)),
        Ok(_) => silent(
            IngestionData { modules, step: module_step(request, modules.len(), 0), ..data },
        ),
    }
}

/// The ingestion behind a step of the disassembler. A module starts with a complete text; the text
/// of a failed module is removed first.
pub open spec fn after_disassembly(
    request: BuildRequestData,
    data: IngestionData,
    index: int,
    run: DisassemblyData,
    reply: DisassemblyReply,
) -> Ingested {
    match disassembly::disassembly_after(data.compilation.toolchain.llvm_dis, run, reply) {
        Err(error) => silent(at(data, StepData::Removing(index, Err(error)))),
        Ok(DisassemblyData::Done) => Ok(
            (
                at(data, StepData::OpeningText(index)),
                Some(EvidenceEventData::ModuleStarted(module_at(request, data, index))),
            ),
        ),
        Ok(run) => silent(at(data, StepData::Disassembling(index, run))),
    }
}

/// The ingestion behind the opened text of a module.
pub open spec fn after_text<R: ByteSource>(
    request: BuildRequestData,
    data: IngestionData,
    index: int,
    opened: Result<(R, Result<u64, SourceError>), SourceError>,
) -> Ingested {
    match opened {
        Err(source) => silent(
            at(
                data,
                StepData::Removing(
                    index,
                    Err(unopened("open"@, module_at(request, data, index).text_path, source)),
                ),
            ),
        ),
        Ok((reader, _)) => silent(
            at(
                data,
                StepData::Scanning(
                    index,
                    llvm::start_of(reader),
                ),
            ),
        ),
    }
}

/// The ingestion behind the next record of a module.
pub open spec fn after_record(
    request: BuildRequestData,
    data: IngestionData,
    index: int,
    cursor: llvm::Cursor,
) -> Ingested {
    match llvm::next_record(cursor) {
        Err(fault) => silent(
            at(
                data,
                StepData::Removing(
                    index,
                    Err(error::of_scan(module_at(request, data, index).text_path, fault)),
                ),
            ),
        ),
        Ok((Some(record), after)) => Ok(
            (
                at(data, StepData::Scanning(index, after)),
                Some(EvidenceEventData::Symbol(record)),
            ),
        ),
        Ok((None, _)) => silent(at(data, StepData::Removing(index, Ok(())))),
    }
}

/// The ingestion behind the removal of a text.
pub open spec fn after_removal(
    request: BuildRequestData,
    data: IngestionData,
    index: int,
    outcome: Result<(), ErrorData>,
    removed: Result<(), SourceError>,
) -> Ingested {
    match outcome {
        Err(error) => Err(error),
        Ok(()) => match capture::removal_of(module_at(request, data, index).text_path, removed) {
            Err(error) => Err(error),
            Ok(()) => silent(at(data, module_step(request, data.modules.len(), index + 1))),
        },
    }
}

/// The ingestion behind an entry of the remark directory, given the arranged remark files.
pub open spec fn after_entry(
    request: BuildRequestData,
    data: IngestionData,
    items: Seq<PathItem>,
    total: u64,
    entry: Option<Result<DirectoryEntry, SourceError>>,
    files: Seq<PathItem>,
) -> Ingested {
    match entry {
        None => silent(IngestionData { files, step: file_step(files.len(), 0), ..data }),
        Some(entry) => match remark_files::entry_verdict(
            capture::remarks_path(request.analysis_directory),
            remark_files::default_limits(),
            items.len(),
            entry,
        ) {
            Err(error) => Err(error),
            Ok(None) => silent(data),
            Ok(Some(_)) => silent(
                at(data, StepData::Measuring(items, total, entry->Ok_0.path)),
            ),
        },
    }
}

/// The ingestion behind the length of a remark file.
pub open spec fn after_measure(
    request: BuildRequestData,
    data: IngestionData,
    items: Seq<PathItem>,
    total: u64,
    path: String,
    length: Result<u64, SourceError>,
) -> Ingested {
    match remark_files::length_verdict(
        capture::remarks_path(request.analysis_directory),
        remark_files::default_limits(),
        total,
        path@,
        length,
    ) {
        Err(error) => Err(error),
        Ok(total) => silent(at(data, StepData::Walking(items.push(PathItem { path }), total))),
    }
}

/// The ingestion behind the start of a remark file.
pub open spec fn after_start(request: BuildRequestData, data: IngestionData, index: int) -> Ingested {
    let path = data.files[index].path@;
    match remark_files::relative_name(capture::remarks_path(request.analysis_directory), path) {
        Err(problem) => Err(remark_files::refused(path, problem)),
        Ok(name) => Ok(
            (
                at(data, StepData::OpeningFile(index)),
                Some(
                    EvidenceEventData::RemarkFileStarted(
                        RemarkFileStartData { name, raw_path: path },
                    ),
                ),
            ),
        ),
    }
}

/// The ingestion behind an opened remark file.
pub open spec fn after_file<R: ByteSource>(
    data: IngestionData,
    index: int,
    opened: Result<(R, Result<u64, SourceError>), SourceError>,
) -> Ingested {
    let path = data.files[index].path@;
    let limits = remark_files::default_limits().parse;
    match opened {
        Err(source) => Err(unopened("open"@, path, source)),
        Ok((_, Err(source))) => Err(unopened("read metadata for"@, path, source)),
        Ok((reader, Ok(size))) => if size > limits.max_file_bytes {
            Err(
                error::of_remarks(
                    path,
                    remarks::RemarkFault::FileLength { maximum: limits.max_file_bytes, got: size },
                ),
            )
        } else {
            silent(
                at(
                    data,
                    StepData::Reading(
                        index,
                        remarks::bounded_input(
                            lines::patient(reader),
                            limits,
                        ),
                        remarks::unread(),
                    ),
                ),
            )
        },
    }
}

/// The ingestion behind the next remark. The number of all remarks is checked behind each file.
pub open spec fn after_remark(
    request: BuildRequestData,
    data: IngestionData,
    index: int,
    input: Input,
    state: StreamState,
) -> Ingested {
    let limits = remark_files::default_limits();
    match remarks::next_from(input, state, limits.parse) {
        Err(fault) => Err(error::of_remarks(data.files[index].path@, fault)),
        Ok((Some(remark), state, rest)) => Ok(
            (
                IngestionData {
                    total: remarks::plus_one(data.total),
                    step: StepData::Reading(index, rest, state),
                    ..data
                },
                Some(EvidenceEventData::Remark(remark)),
            ),
        ),
        Ok((None, _, _)) => match remark_files::count_verdict(
            capture::remarks_path(request.analysis_directory),
            limits,
            data.total,
        ) {
            Err(error) => Err(error),
            Ok(()) => silent(at(data, file_step(data.files.len(), index + 1))),
        },
    }
}

/// The ingestion behind a reply, and the event that it reports. Another reply changes nothing. The
/// two lists are the files in the order in which the next state has them.
pub open spec fn ingestion_after<R: ByteSource>(
    request: BuildRequestData,
    data: IngestionData,
    reply: IngestionReply<R>,
    modules: Seq<PathItem>,
    files: Seq<PathItem>,
) -> Ingested {
    match (data.step, reply) {
        (StepData::Requiring, IngestionReply::Evidence(manifest, bitcode)) => match
            compile::evidence_verdict(manifest, bitcode) {
            Err(error) => Err(error),
            Ok(()) => silent(at(data, StepData::Opening)),
        },
        (StepData::Opening, IngestionReply::Opened(opened)) => after_opening(
            request,
            data,
            opened,
        ),
        (StepData::Placements(input, count), IngestionReply::Continue) => after_placement(
            request,
            data,
            input,
            count,
        ),
        (StepData::Listing, IngestionReply::Entries(entries)) => after_listing(
            request,
            data,
            entries@,
            modules,
        ),
        (
            StepData::Disassembling(index, run),
            IngestionReply::Disassembly(reply),
        ) => after_disassembly(request, data, index, run, reply),
        (StepData::OpeningText(index), IngestionReply::Opened(opened)) => after_text(
            request,
            data,
            index,
            opened,
        ),
        (StepData::Scanning(index, cursor), IngestionReply::Continue) => after_record(
            request,
            data,
            index,
            cursor,
        ),
        (StepData::Removing(index, outcome), IngestionReply::Removed(removed)) => after_removal(
            request,
            data,
            index,
            outcome,
            removed,
        ),
        (StepData::Walking(items, total), IngestionReply::Entry(entry)) => after_entry(
            request,
            data,
            items,
            total,
            entry,
            files,
        ),
        (StepData::Measuring(items, total, path), IngestionReply::Measured(length)) =>
            after_measure(request, data, items, total, path, length),
        (StepData::StartingFile(index), IngestionReply::Continue) => after_start(
            request,
            data,
            index,
        ),
        (StepData::OpeningFile(index), IngestionReply::Opened(opened)) => after_file(
            data,
            index,
            opened,
        ),
        (StepData::Reading(index, input, state), IngestionReply::Continue) => after_remark(
            request,
            data,
            index,
            input,
            state,
        ),
        _ => silent(data),
    }
}

/// The lists of the next state: what a walk found, in the order of the paths, and otherwise what was
/// there.
pub open spec fn arranged<R: ByteSource>(
    data: IngestionData,
    reply: IngestionReply<R>,
    modules: Seq<PathItem>,
    files: Seq<PathItem>,
) -> bool {
    &&& match (data.step, reply) {
        (StepData::Listing, IngestionReply::Entries(entries)) => {
            &&& ordered(modules)
            &&& compile::bitcode_of(entries@) matches Ok(found) && modules.to_multiset()
                == found.to_multiset()
        },
        _ => modules == data.modules,
    }
    &&& match (data.step, reply) {
        (StepData::Walking(items, _), IngestionReply::Entry(None)) => {
            &&& ordered(files)
            &&& files.to_multiset() == items.to_multiset()
        },
        _ => files == data.files,
    }
}

/// An optional mathematical event.
pub open spec fn event_view(event: Option<EvidenceEvent>) -> Option<EvidenceEventData> {
    match event {
        Some(event) => Some(event@),
        None => None,
    }
}

/// A step of an ingestion agrees with the mathematical one.
pub open spec fn ingest_agrees<R: ByteSource>(
    request: BuildRequestData,
    data: IngestionData,
    reply: IngestionReply<R>,
    result: Result<(Ingestion<R>, Option<EvidenceEvent>), Error>,
) -> bool {
    match result {
        Ok((next, event)) => {
            &&& next.well_formed()
            &&& arranged(data, reply, next@.modules, next@.files)
            &&& ingestion_after(request, data, reply, next@.modules, next@.files) == Ok::<
                (IngestionData, Option<EvidenceEventData>),
                ErrorData,
            >((next@, event_view(event)))
        },
        Err(error) => ingestion_after(request, data, reply, data.modules, data.files) == Err::<
            (IngestionData, Option<EvidenceEventData>),
            ErrorData,
        >(error@),
    }
}

impl<R: ByteSource> Ingestion<R> {
    /// The readers are valid, and the indices name modules and files.
    pub closed spec fn well_formed(&self) -> bool {
        &&& all_named(self.known.modules@)
        &&& match self.step {
            IngestionStep::Placements(reader) => !reader.is_finished(),
            IngestionStep::Disassembling(index, run) => index < self.known.modules@.len(),
            IngestionStep::OpeningText(index) => index < self.known.modules@.len(),
            IngestionStep::Scanning(index, scanner) => index < self.known.modules@.len()
                && scanner.well_formed(),
            IngestionStep::Removing(index, _) => index < self.known.modules@.len(),
            IngestionStep::StartingFile(index) => index < self.known.files@.len(),
            IngestionStep::OpeningFile(index) => index < self.known.files@.len(),
            IngestionStep::Reading(index, reader) => index < self.known.files@.len()
                && reader.well_formed() && reader.limits()
                == remark_files::default_limits().parse,
            _ => true,
        }
    }

    /// Starts with a compiled capture.
    pub fn new(compilation: CompiledCapture) -> (result: Self)
        ensures
            result.well_formed(),
            result@ == (IngestionData {
                compilation: compilation@,
                modules: Seq::empty(),
                files: Seq::empty(),
                total: 0,
                step: StepData::Requiring,
            }),
    {
        let known = Known {
            compilation,
            modules: Vec::new(),
            files: Vec::new(),
            total_records: 0,
        };
        let result = Ingestion { known, step: IngestionStep::Requiring };
        assert(result@.modules =~= Seq::empty());
        assert(result@.files =~= Seq::empty());
        result
    }

    /// Returns the outside step to do next.
    pub fn step(&self) -> (result: &IngestionStep<R>)
        ensures
            result@ == self@.step,
    {
        &self.step
    }

    /// Returns the bitcode file with an index.
    pub fn module(&self, index: usize) -> (result: Option<&str>)
        ensures
            match result {
                Some(path) => index < self@.modules.len() && path@
                    == self@.modules[index as int].path@,
                None => index >= self@.modules.len(),
            },
    {
        if index < self.known.modules.len() {
            Some(self.known.modules[index].path.as_str())
        } else {
            None
        }
    }

    /// Returns the remark file with an index.
    pub fn file(&self, index: usize) -> (result: Option<&str>)
        ensures
            match result {
                Some(path) => index < self@.files.len() && path@ == self@.files[index as int].path@,
                None => index >= self@.files.len(),
            },
    {
        if index < self.known.files.len() {
            Some(self.known.files[index].path.as_str())
        } else {
            None
        }
    }

    /// Returns the metadata behind all evidence, unless an outside step is left.
    pub fn finish(self, request: &BuildRequest) -> (result: Option<EvidenceMetadata>)
        ensures
            match result {
                Some(metadata) => self@.step is Done && metadata@ == (EvidenceMetadataData {
                    invocation: self@.compilation.invocation,
                    toolchain: self@.compilation.toolchain,
                    remarks_captured: request@.capture_remarks,
                }),
                None => !(self@.step is Done),
            },
    {
        match self.step {
            IngestionStep::Done => Some(
                EvidenceMetadata {
                    invocation: self.known.compilation.invocation,
                    toolchain: self.known.compilation.toolchain,
                    remarks_captured: request.capture_remarks,
                },
            ),
            _ => None,
        }
    }
}

/// A step that keeps the lists agrees with the mathematical one.
spec fn stepped<R: ByteSource>(
    known: Known,
    expected: Ingested,
    result: Result<(Ingestion<R>, Option<EvidenceEvent>), Error>,
) -> bool {
    match result {
        Ok((next, event)) => {
            &&& next.well_formed()
            &&& next@.modules == known.modules@
            &&& next@.files == known.files@
            &&& expected == Ok::<(IngestionData, Option<EvidenceEventData>), ErrorData>(
                (next@, event_view(event)),
            )
        },
        Err(error) => expected == Err::<(IngestionData, Option<EvidenceEventData>), ErrorData>(
            error@,
        ),
    }
}

fn accept_manifest<R: ByteSource>(
    request: &BuildRequest,
    known: Known,
    opened: Result<(R, Result<u64, SourceError>), SourceError>,
) -> (result: Result<(Ingestion<R>, Option<EvidenceEvent>), Error>)
    requires
        all_named(known.modules@),
    ensures
        stepped(
            known,
            after_opening(request@, data_of(known, StepData::Opening), opened),
            result,
        ),
{
    let path = manifest_file(request);
    let (source, length) = match opened {
        Err(source) => {
            return Err(filesystem_failure("open", path.as_str(), source));
        },
        Ok((_, Err(source))) => {
            return Err(filesystem_failure("read metadata for", path.as_str(), source));
        },
        Ok((source, Ok(length))) => (source, length),
    };
    let Known { compilation, modules, files, total_records } = known;
    let manifest = match CompilerManifestReader::open(
        source,
        length,
        compilation.toolchain.commit_hash.as_str(),
    ) {
        Err(fault) => {
            return Err(manifest_failure(path.as_str(), fault));
        },
        Ok(manifest) => manifest,
    };
    let rustc = match compiler_invocation(manifest.rustc_arguments()) {
        Err(error) => {
            return Err(error);
        },
        Ok(rustc) => rustc,
    };
    let CompiledCapture { invocation, toolchain } = compilation;
    let invocation = CaptureInvocation {
        request: request.clone(),
        rustc: Some(rustc),
        ..invocation
    };
    let compilation = CompiledCapture { invocation, toolchain };
    let known = Known { compilation, modules, files, total_records };
    Ok((Ingestion { known, step: IngestionStep::Placements(manifest) }, None))
}

fn next_placement<R: ByteSource>(
    request: &BuildRequest,
    known: Known,
    reader: CompilerManifestReader<R>,
) -> (result: Result<(Ingestion<R>, Option<EvidenceEvent>), Error>)
    requires
        all_named(known.modules@),
        !reader.is_finished(),
    ensures
        stepped(
            known,
            after_placement(
                request@,
                data_of(known, StepData::Placements(reader.input(), reader.count())),
                reader.input(),
                reader.count(),
            ),
            result,
        ),
{
    let mut reader = reader;
    match reader.next_placement() {
        Err(fault) => {
            let path = manifest_file(request);
            Err(manifest_failure(path.as_str(), fault))
        },
        Ok(Some(record)) => Ok(
            (
                Ingestion { known, step: IngestionStep::Placements(reader) },
                Some(EvidenceEvent::Placement { record }),
            ),
        ),
        Ok(None) => Ok((Ingestion { known, step: IngestionStep::Listing }, None)),
    }
}

fn step_behind_modules<R: ByteSource>(request: &BuildRequest) -> (result: IngestionStep<R>)
    ensures
        result@ == behind_modules(request@),
        result is Walking || result is Done,
{
    if request.capture_remarks {
        IngestionStep::Walking(RemarkPaths::new())
    } else {
        IngestionStep::Done
    }
}

fn step_to_module<R: ByteSource>(request: &BuildRequest, count: usize, index: usize) -> (result:
    IngestionStep<R>)
    ensures
        result@ == module_step(request@, count as nat, index as int),
        match result {
            IngestionStep::Disassembling(next, run) => next == index && index < count,
            IngestionStep::Walking(_) => true,
            IngestionStep::Done => true,
            _ => false,
        },
{
    if index < count {
        IngestionStep::Disassembling(index, Disassembly::Starting)
    } else {
        step_behind_modules(request)
    }
}

fn step_to_file<R: ByteSource>(count: usize, index: usize) -> (result: IngestionStep<R>)
    ensures
        result@ == file_step(count as nat, index as int),
        match result {
            IngestionStep::StartingFile(next) => next == index && index < count,
            IngestionStep::Done => true,
            _ => false,
        },
{
    if index < count {
        IngestionStep::StartingFile(index)
    } else {
        IngestionStep::Done
    }
}

proof fn found_modules_are_named(entries: Seq<Result<DirectoryEntry, SourceError>>)
    requires
        named(entries),
    ensures
        compile::bitcode_of(entries) matches Ok(found) ==> all_named(found),
    decreases entries.len(),
{
    if entries.len() > 0 {
        let earlier = entries.drop_last();
        assert forall|i: int|
            0 <= i < earlier.len() && (#[trigger] earlier[i]) is Ok && compile::bitcode_entry(
                earlier[i]->Ok_0,
            ) implies paths::name_of(earlier[i]->Ok_0.path@) is Some by {
            assert(entries[i] == earlier[i]);
        }
        found_modules_are_named(earlier);
        assert(entries[entries.len() - 1] == entries.last());
    }
}

proof fn arranged_modules_are_named(found: Seq<PathItem>, modules: Seq<PathItem>)
    requires
        all_named(found),
        modules.to_multiset() == found.to_multiset(),
    ensures
        all_named(modules),
{
    assert forall|i: int| 0 <= i < modules.len() implies paths::name_of(
        (#[trigger] modules[i]).path@,
    ) is Some by {
        modules.to_multiset_ensures();
        found.to_multiset_ensures();
        assert(modules.contains(modules[i]));
        assert(modules.to_multiset().count(modules[i]) > 0);
        assert(found.to_multiset().count(modules[i]) > 0);
        let j = choose|j: int| 0 <= j < found.len() && found[j] == modules[i];
        assert(found[j] == modules[i]);
    }
}

fn accept_entries<R: ByteSource>(
    request: &BuildRequest,
    known: Known,
    entries: Vec<Result<DirectoryEntry, SourceError>>,
) -> (result: Result<(Ingestion<R>, Option<EvidenceEvent>), Error>)
    requires
        named(entries@),
    ensures
        match result {
            Ok((next, event)) => {
                &&& next.well_formed()
                &&& next@.files == known.files@
                &&& ordered(next@.modules)
                &&& compile::bitcode_of(entries@) matches Ok(found)
                &&& next@.modules.to_multiset() == found.to_multiset()
                &&& after_listing(
                    request@,
                    data_of(known, StepData::Listing),
                    entries@,
                    next@.modules,
                ) == Ok::<(IngestionData, Option<EvidenceEventData>), ErrorData>(
                    (next@, event_view(event)),
                )
            },
            Err(error) => after_listing(
                request@,
                data_of(known, StepData::Listing),
                entries@,
                known.modules@,
            ) == Err::<(IngestionData, Option<EvidenceEventData>), ErrorData>(error@),
        },
{
    let ghost all = entries@;
    match supported_bitcode(request.analysis_directory.as_str(), entries) {
        Err(error) => Err(error),
        Ok(modules) => {
            proof {
                found_modules_are_named(all);
                arranged_modules_are_named(compile::bitcode_of(all)->Ok_0, modules@);
            }
            let step = step_to_module(request, modules.len(), 0);
            Ok((Ingestion { known: Known { modules, ..known }, step }, None))
        },
    }
}

fn accept_disassembly<R: ByteSource>(
    request: &BuildRequest,
    known: Known,
    index: usize,
    run: Disassembly,
    reply: DisassemblyReply,
) -> (result: Result<(Ingestion<R>, Option<EvidenceEvent>), Error>)
    requires
        all_named(known.modules@),
        index < known.modules@.len(),
    ensures
        stepped(
            known,
            after_disassembly(
                request@,
                data_of(known, StepData::Disassembling(index as int, run@)),
                index as int,
                run@,
                reply,
            ),
            result,
        ),
{
    match run_disassembler(known.compilation.toolchain.llvm_dis.as_str(), run, reply) {
        Err(error) => Ok(
            (Ingestion { known, step: IngestionStep::Removing(index, Err(error)) }, None),
        ),
        Ok(Disassembly::Done) => {
            let module = disassemble_module(
                known.modules[index].path.as_str(),
                request.analysis_directory.as_str(),
            );
            Ok(
                (
                    Ingestion { known, step: IngestionStep::OpeningText(index) },
                    Some(EvidenceEvent::ModuleStarted { module }),
                ),
            )
        },
        Ok(run) => Ok(
            (Ingestion { known, step: IngestionStep::Disassembling(index, run) }, None),
        ),
    }
}

fn text_of_module(request: &BuildRequest, known: &Known, index: usize) -> (result: String)
    requires
        all_named(known.modules@),
        index < known.modules@.len(),
    ensures
        forall|step: StepData|
            result@ == (#[trigger] module_at(
                request@,
                data_of(*known, step),
                index as int,
            )).text_path,
{
    let module = disassemble_module(
        known.modules[index].path.as_str(),
        request.analysis_directory.as_str(),
    );
    module.text_path
}

fn accept_text<R: ByteSource>(
    request: &BuildRequest,
    known: Known,
    index: usize,
    opened: Result<(R, Result<u64, SourceError>), SourceError>,
) -> (result: Result<(Ingestion<R>, Option<EvidenceEvent>), Error>)
    requires
        all_named(known.modules@),
        index < known.modules@.len(),
        opened matches Ok((reader, _)) ==> reader.pending().len() <= u64::MAX,
    ensures
        stepped(
            known,
            after_text(
                request@,
                data_of(known, StepData::OpeningText(index as int)),
                index as int,
                opened,
            ),
            result,
        ),
{
    let step = match opened {
        Err(source) => {
            let path = text_of_module(request, &known, index);
            IngestionStep::Removing(index, Err(filesystem_failure("open", path.as_str(), source)))
        },
        Ok((reader, _)) => IngestionStep::Scanning(index, ModuleScanner::new(reader)),
    };
    Ok((Ingestion { known, step }, None))
}

fn next_record<R: ByteSource>(
    request: &BuildRequest,
    known: Known,
    index: usize,
    scanner: ModuleScanner<R>,
) -> (result: Result<(Ingestion<R>, Option<EvidenceEvent>), Error>)
    requires
        all_named(known.modules@),
        index < known.modules@.len(),
        scanner.well_formed(),
    ensures
        stepped(
            known,
            after_record(
                request@,
                data_of(known, StepData::Scanning(index as int, scanner.cursor())),
                index as int,
                scanner.cursor(),
            ),
            result,
        ),
{
    let mut scanner = scanner;
    match scanner.next_record() {
        Err(fault) => {
            let path = text_of_module(request, &known, index);
            let error = scan_failure(path.as_str(), fault);
            Ok((Ingestion { known, step: IngestionStep::Removing(index, Err(error)) }, None))
        },
        Ok(Some(record)) => Ok(
            (
                Ingestion { known, step: IngestionStep::Scanning(index, scanner) },
                Some(record_event(record)),
            ),
        ),
        Ok(None) => Ok((Ingestion { known, step: IngestionStep::Removing(index, Ok(())) }, None)),
    }
}

fn accept_removal<R: ByteSource>(
    request: &BuildRequest,
    known: Known,
    index: usize,
    outcome: Result<(), Error>,
    removed: Result<(), SourceError>,
) -> (result: Result<(Ingestion<R>, Option<EvidenceEvent>), Error>)
    requires
        all_named(known.modules@),
        index < known.modules@.len(),
    ensures
        stepped(
            known,
            after_removal(
                request@,
                data_of(known, StepData::Removing(index as int, outcome_view(outcome))),
                index as int,
                outcome_view(outcome),
                removed,
            ),
            result,
        ),
{
    let path = text_of_module(request, &known, index);
    match remove_generated_llvm_text(path.as_str(), outcome, removed) {
        Err(error) => Err(error),
        Ok(()) => {
            let step = step_to_module(request, known.modules.len(), index + 1);
            Ok((Ingestion { known, step }, None))
        },
    }
}

fn accept_entry<R: ByteSource>(
    request: &BuildRequest,
    known: Known,
    selected: RemarkPaths,
    entry: Option<Result<DirectoryEntry, SourceError>>,
) -> (result: Result<(Ingestion<R>, Option<EvidenceEvent>), Error>)
    requires
        all_named(known.modules@),
    ensures
        match result {
            Ok((next, event)) => {
                &&& next.well_formed()
                &&& next@.modules == known.modules@
                &&& if entry is None {
                    ordered(next@.files) && next@.files.to_multiset()
                        == selected.items().to_multiset()
                } else {
                    next@.files == known.files@
                }
                &&& after_entry(
                    request@,
                    data_of(known, StepData::Walking(selected.items(), selected.total())),
                    selected.items(),
                    selected.total(),
                    entry,
                    next@.files,
                ) == Ok::<(IngestionData, Option<EvidenceEventData>), ErrorData>(
                    (next@, event_view(event)),
                )
            },
            Err(error) => after_entry(
                request@,
                data_of(known, StepData::Walking(selected.items(), selected.total())),
                selected.items(),
                selected.total(),
                entry,
                known.files@,
            ) == Err::<(IngestionData, Option<EvidenceEventData>), ErrorData>(error@),
        },
{
    match entry {
        None => {
            let files = selected.finish();
            let step = step_to_file(files.len(), 0);
            Ok((Ingestion { known: Known { files, ..known }, step }, None))
        },
        Some(entry) => {
            let directory = remarks_directory(request.analysis_directory.as_str());
            let limits = RemarkCollectionLimits::default();
            let step = match selected.accept_entry(directory.as_str(), &limits, entry) {
                Err(error) => {
                    return Err(error);
                },
                Ok(None) => IngestionStep::Walking(selected),
                Ok(Some(path)) => IngestionStep::Measuring(selected, path),
            };
            Ok((Ingestion { known, step }, None))
        },
    }
}

fn accept_measure<R: ByteSource>(
    request: &BuildRequest,
    known: Known,
    selected: RemarkPaths,
    path: String,
    length: Result<u64, SourceError>,
) -> (result: Result<(Ingestion<R>, Option<EvidenceEvent>), Error>)
    requires
        all_named(known.modules@),
    ensures
        stepped(
            known,
            after_measure(
                request@,
                data_of(known, StepData::Measuring(selected.items(), selected.total(), path)),
                selected.items(),
                selected.total(),
                path,
                length,
            ),
            result,
        ),
{
    let directory = remarks_directory(request.analysis_directory.as_str());
    let limits = RemarkCollectionLimits::default();
    let mut selected = selected;
    match selected.accept_length(directory.as_str(), &limits, path, length) {
        Err(error) => Err(error),
        Ok(()) => Ok((Ingestion { known, step: IngestionStep::Walking(selected) }, None)),
    }
}

fn start_remarks<R: ByteSource>(request: &BuildRequest, known: Known, index: usize) -> (result: Result<
    (Ingestion<R>, Option<EvidenceEvent>),
    Error,
>)
    requires
        all_named(known.modules@),
        index < known.files@.len(),
    ensures
        stepped(
            known,
            after_start(
                request@,
                data_of(known, StepData::StartingFile(index as int)),
                index as int,
            ),
            result,
        ),
{
    let directory = remarks_directory(request.analysis_directory.as_str());
    match start_file(directory.as_str(), known.files[index].path.as_str()) {
        Err(error) => Err(error),
        Ok(file) => Ok(
            (
                Ingestion { known, step: IngestionStep::OpeningFile(index) },
                Some(EvidenceEvent::RemarkFileStarted { file }),
            ),
        ),
    }
}

fn accept_file<R: ByteSource>(
    known: Known,
    index: usize,
    opened: Result<(R, Result<u64, SourceError>), SourceError>,
) -> (result: Result<(Ingestion<R>, Option<EvidenceEvent>), Error>)
    requires
        all_named(known.modules@),
        index < known.files@.len(),
    ensures
        stepped(
            known,
            after_file(
                data_of(known, StepData::OpeningFile(index as int)),
                index as int,
                opened,
            ),
            result,
        ),
{
    let path = known.files[index].path.as_str();
    let limits = RemarkCollectionLimits::default();
    let reader = match opened {
        Err(source) => {
            return Err(filesystem_failure("open", path, source));
        },
        Ok((_, Err(source))) => {
            return Err(filesystem_failure("read metadata for", path, source));
        },
        Ok((source, Ok(size))) => match parse_optimization_remarks_with(
            source,
            size,
            limits.parse,
        ) {
            Err(fault) => {
                return Err(remarks_failure(path, fault));
            },
            Ok(reader) => reader,
        },
    };
    Ok((Ingestion { known, step: IngestionStep::Reading(index, reader) }, None))
}

fn next_remark<R: ByteSource>(
    request: &BuildRequest,
    known: Known,
    index: usize,
    reader: RemarkReader<R>,
) -> (result: Result<(Ingestion<R>, Option<EvidenceEvent>), Error>)
    requires
        all_named(known.modules@),
        index < known.files@.len(),
        reader.well_formed(),
        reader.limits() == remark_files::default_limits().parse,
    ensures
        stepped(
            known,
            after_remark(
                request@,
                data_of(known, StepData::Reading(index as int, reader.input(), reader.state())),
                index as int,
                reader.input(),
                reader.state(),
            ),
            result,
        ),
{
    let mut reader = reader;
    match reader.next_remark() {
        Err(fault) => Err(remarks_failure(known.files[index].path.as_str(), fault)),
        Ok(Some(remark)) => {
            let total_records: usize = known.total_records.saturating_add(1);
            Ok(
                (
                    Ingestion {
                        known: Known { total_records, ..known },
                        step: IngestionStep::Reading(index, reader),
                    },
                    Some(EvidenceEvent::Remark { remark }),
                ),
            )
        },
        Ok(None) => {
            let directory = remarks_directory(request.analysis_directory.as_str());
            let limits = RemarkCollectionLimits::default();
            match validate_remark_record_count(directory.as_str(), &limits, known.total_records) {
                Err(error) => Err(error),
                Ok(()) => {
                    let step = step_to_file(known.files.len(), index + 1);
                    Ok((Ingestion { known, step }, None))
                },
            }
        },
    }
}

/// Takes the reply to the outside step that an ingestion waits for, and reports at most one event.
///
/// The ingestion fails if the manifest, LLVM bitcode, textual LLVM output, or remarks are invalid.
/// The text of a failed module is removed before its failure is reported.
pub fn ingest_with_events<R: ByteSource>(
    request: &BuildRequest,
    state: Ingestion<R>,
    reply: IngestionReply<R>,
) -> (result: Result<(Ingestion<R>, Option<EvidenceEvent>), Error>)
    requires
        state.well_formed(),
        possible(reply),
    ensures
        ingest_agrees(request@, state@, reply, result),
{
    let Ingestion { known, step } = state;
    match (step, reply) {
        (IngestionStep::Requiring, IngestionReply::Evidence(manifest, bitcode)) => match
            require_compiled_evidence(manifest, bitcode) {
            Err(error) => Err(error),
            Ok(()) => Ok((Ingestion { known, step: IngestionStep::Opening }, None)),
        },
        (IngestionStep::Opening, IngestionReply::Opened(opened)) => accept_manifest(
            request,
            known,
            opened,
        ),
        (IngestionStep::Placements(reader), IngestionReply::Continue) => next_placement(
            request,
            known,
            reader,
        ),
        (IngestionStep::Listing, IngestionReply::Entries(entries)) => accept_entries(
            request,
            known,
            entries,
        ),
        (
            IngestionStep::Disassembling(index, run),
            IngestionReply::Disassembly(reply),
        ) => accept_disassembly(request, known, index, run, reply),
        (IngestionStep::OpeningText(index), IngestionReply::Opened(opened)) => accept_text(
            request,
            known,
            index,
            opened,
        ),
        (IngestionStep::Scanning(index, scanner), IngestionReply::Continue) => next_record(
            request,
            known,
            index,
            scanner,
        ),
        (IngestionStep::Removing(index, outcome), IngestionReply::Removed(removed)) =>
            accept_removal(request, known, index, outcome, removed),
        (IngestionStep::Walking(selected), IngestionReply::Entry(entry)) => accept_entry(
            request,
            known,
            selected,
            entry,
        ),
        (IngestionStep::Measuring(selected, path), IngestionReply::Measured(length)) =>
            accept_measure(request, known, selected, path, length),
        (IngestionStep::StartingFile(index), IngestionReply::Continue) => start_remarks(
            request,
            known,
            index,
        ),
        (IngestionStep::OpeningFile(index), IngestionReply::Opened(opened)) => accept_file(
            known,
            index,
            opened,
        ),
        (IngestionStep::Reading(index, reader), IngestionReply::Continue) => next_remark(
            request,
            known,
            index,
            reader,
        ),
        (step, _) => Ok((Ingestion { known, step }, None)),
    }
}

} // verus!

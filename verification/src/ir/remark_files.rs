//! Selects and bounds the optimization-remark files of one capture.
//!
//! The caller walks the remark directory and reads the files. [`RemarkPaths`] decides which files
//! count and when there is too much, and [`RemarkCollection`] reads one whole file after the other.
//! Reading them remark by remark is part of the ingestion of a capture.

use super::capture::{RemarkEvidence, RemarkFileStart, RemarkFileStartData};
use super::error::{
    filesystem_failure, remarks_failure, Error, ErrorData, Failure, RemarkProblem,
};
use super::remarks;
use super::remarks::{parse_optimization_remarks, RemarkData, RemarkParseLimits};
use crate::chars;
use crate::chars::{add_text, ends_with, join, no_texts};
use crate::lines;
use crate::paths;
use crate::paths::{components, same_component, Component, Part};
use crate::sorting::{ordered, sort, PathItem};
use crate::source::{ByteSource, SourceError};
use crate::text::utf8_text;
use crate::wire::{put_bytes, Input};
use vstd::prelude::*;
use vstd::string::StringExecFns;

verus! {

/// Resource limits for all remark files of one capture.
#[derive(Clone, Copy, Debug, PartialEq, Eq, Structural)]
pub struct RemarkCollectionLimits {
    /// The largest number of files.
    pub max_files: usize,
    /// The largest length of all files together.
    pub max_bytes: u64,
    /// The largest number of remarks in all files together.
    pub max_records: usize,
    /// The limits of each file.
    pub parse: RemarkParseLimits,
}

/// The limits of a capture.
pub open spec fn default_limits() -> RemarkCollectionLimits {
    RemarkCollectionLimits {
        max_files: 4096,
        max_bytes: 4294967296,
        max_records: 5000000,
        parse: RemarkParseLimits {
            max_file_bytes: 268435456,
            max_document_bytes: 4194304,
            max_records: 1000000,
            max_string_bytes: 65536,
            max_arguments: 4096,
        },
    }
}

impl Default for RemarkCollectionLimits {
    fn default() -> (result: Self)
        ensures
            result == default_limits(),
    {
        RemarkCollectionLimits {
            max_files: 4096,
            max_bytes: 4294967296,
            max_records: 5000000,
            parse: RemarkParseLimits::default(),
        }
    }
}

/// A file with remarks of the optimization pipeline.
pub open spec fn remark_file(name: Seq<char>) -> bool {
    ".opt.opt.yaml"@.is_suffix_of(name)
}

/// Tells whether a file holds remarks of the optimization pipeline.
pub fn is_optimization_remark(name: &str) -> (result: bool)
    ensures
        result == remark_file(name@),
{
    ends_with(name, ".opt.opt.yaml")
}

/// The error for a remark file or directory.
pub open spec fn refused(path: Seq<char>, problem: RemarkProblem) -> ErrorData {
    Failure::InvalidOptimizationRemarks { path, problem }
}

fn invalid_remark_collection(path: &str, problem: RemarkProblem) -> (result: Error)
    ensures
        result@ == refused(path@, problem),
{
    Failure::InvalidOptimizationRemarks { path: String::from_str(path), problem }
}

/// An entry of the remark directory.
#[derive(Debug)]
pub struct DirectoryEntry {
    /// The entry is a regular file.
    pub is_file: bool,
    /// The file name.
    pub name: String,
    /// The whole path.
    pub path: String,
}

/// The selected remark files.
#[derive(Debug)]
pub struct RemarkPaths {
    items: Vec<PathItem>,
    total_bytes: u64,
}

impl RemarkPaths {
    /// The selected files.
    pub closed spec fn items(&self) -> Seq<PathItem> {
        self.items@
    }

    /// The length of all selected files.
    pub closed spec fn total(&self) -> u64 {
        self.total_bytes
    }

    /// Starts without files.
    pub fn new() -> (result: Self)
        ensures
            result.items() == Seq::<PathItem>::empty(),
            result.total() == 0,
    {
        let result = RemarkPaths { items: Vec::new(), total_bytes: 0 };
        assert(result.items() =~= Seq::<PathItem>::empty());
        result
    }

    /// Takes the next entry of the directory. A returned path is a remark file whose length is
    /// wanted.
    pub fn accept_entry(
        &self,
        directory: &str,
        limits: &RemarkCollectionLimits,
        entry: Result<DirectoryEntry, SourceError>,
    ) -> (result: Result<Option<String>, Error>)
        ensures
            match (result, entry_verdict(directory@, *limits, self.items().len(), entry)) {
                (Ok(path), Ok(expected)) => chars::option_view(path) == expected,
                (Err(error), Err(expected)) => error@ == expected,
                _ => false,
            },
            result matches Ok(Some(path)) ==> (entry matches Ok(entry) && path == entry.path),
    {
        match entry {
            Err(source) => Err(filesystem_failure("walk", directory, source)),
            Ok(entry) => {
                if !entry.is_file || !is_optimization_remark(entry.name.as_str()) {
                    return Ok(None);
                }
                if self.items.len() >= limits.max_files {
                    return Err(
                        invalid_remark_collection(
                            directory,
                            RemarkProblem::FileCount {
                                maximum: limits.max_files,
                                got: self.items.len().saturating_add(1),
                            },
                        ),
                    );
                }
                Ok(Some(entry.path))
            },
        }
    }

    /// Takes the length of a remark file.
    pub fn accept_length(
        &mut self,
        directory: &str,
        limits: &RemarkCollectionLimits,
        path: String,
        length: Result<u64, SourceError>,
    ) -> (result: Result<(), Error>)
        ensures
            match (result, length_verdict(directory@, *limits, old(self).total(), path@, length)) {
                (Ok(()), Ok(total)) => {
                    &&& final(self).total() == total
                    &&& final(self).items() == old(self).items().push(PathItem { path })
                },
                (Err(error), Err(expected)) => error@ == expected,
                _ => false,
            },
    {
        match length {
            Err(source) => Err(filesystem_failure("read metadata for", path.as_str(), source)),
            Ok(length) => {
                self.total_bytes = self.total_bytes.saturating_add(length);
                if self.total_bytes > limits.max_bytes {
                    return Err(
                        invalid_remark_collection(
                            directory,
                            RemarkProblem::TotalLength {
                                maximum: limits.max_bytes,
                                got: self.total_bytes,
                            },
                        ),
                    );
                }
                self.items.push(PathItem { path });
                Ok(())
            },
        }
    }

    /// Returns the selected files in the order of their paths.
    pub fn finish(self) -> (result: Vec<PathItem>)
        ensures
            ordered(result@),
            result@.to_multiset() == self.items().to_multiset(),
    {
        sort(self.items)
    }
}

/// What an entry means.
pub open spec fn entry_verdict(
    directory: Seq<char>,
    limits: RemarkCollectionLimits,
    count: nat,
    entry: Result<DirectoryEntry, SourceError>,
) -> Result<Option<Seq<char>>, ErrorData> {
    match entry {
        Err(source) => Err(Failure::Filesystem { operation: "walk"@, path: directory, source }),
        Ok(entry) => if !entry.is_file || !remark_file(entry.name@) {
            Ok(None)
        } else if count >= limits.max_files {
            Err(
                refused(
                    directory,
                    RemarkProblem::FileCount {
                        maximum: limits.max_files,
                        got: remarks::plus_one(count as usize),
                    },
                ),
            )
        } else {
            Ok(Some(entry.path@))
        },
    }
}

/// A sum up to the largest number.
pub open spec fn total_after(total: u64, length: u64) -> u64 {
    if total + length > u64::MAX {
        u64::MAX
    } else {
        (total + length) as u64
    }
}

/// What the length of a file means.
pub open spec fn length_verdict(
    directory: Seq<char>,
    limits: RemarkCollectionLimits,
    total: u64,
    path: Seq<char>,
    length: Result<u64, SourceError>,
) -> Result<u64, ErrorData> {
    match length {
        Err(source) => Err(
            Failure::Filesystem { operation: "read metadata for"@, path, source },
        ),
        Ok(length) => if total_after(total, length) > limits.max_bytes {
            Err(
                refused(
                    directory,
                    RemarkProblem::TotalLength {
                        maximum: limits.max_bytes,
                        got: total_after(total, length),
                    },
                ),
            )
        } else {
            Ok(total_after(total, length))
        },
    }
}

/// The names of components, or why they are no relative name.
pub open spec fn names_of(parts: Seq<Part>) -> Result<Seq<Seq<char>>, RemarkProblem>
    decreases parts.len(),
{
    if parts.len() == 0 {
        Ok(Seq::empty())
    } else {
        match names_of(parts.drop_last()) {
            Err(problem) => Err(problem),
            Ok(names) => match parts.last() {
                Part::Normal(bytes) => if vstd::utf8::valid_utf8(bytes) {
                    Ok(names.push(vstd::utf8::decode_utf8(bytes)))
                } else {
                    Err(RemarkProblem::NotUtf8)
                },
                _ => Err(RemarkProblem::Irregular),
            },
        }
    }
}

/// The name of a file relative to the remark directory.
pub open spec fn relative_name(directory: Seq<char>, path: Seq<char>) -> Result<
    Seq<char>,
    RemarkProblem,
> {
    let base = paths::text_parts(directory);
    let parts = paths::text_parts(path);
    if !base.is_prefix_of(parts) {
        Err(RemarkProblem::Elsewhere)
    } else {
        match names_of(parts.skip(base.len() as int)) {
            Err(problem) => Err(problem),
            Ok(names) => if names.len() == 0 {
                Err(RemarkProblem::Nameless)
            } else {
                Ok(chars::joined(names, "/"@))
            },
        }
    }
}

fn starts_below(base: &Vec<Component>, parts: &Vec<Component>) -> (result: bool)
    ensures
        result == paths::views(base@).is_prefix_of(paths::views(parts@)),
{
    let ghost (b, p) = (paths::views(base@), paths::views(parts@));
    if base.len() > parts.len() {
        return false;
    }
    let mut index: usize = 0;
    while index < base.len()
        invariant
            index <= base@.len() <= parts@.len(),
            b == paths::views(base@),
            p == paths::views(parts@),
            forall|i: int| 0 <= i < index ==> b[i] == p[i],
        decreases base.len() - index,
    {
        assert(b[index as int] == base@[index as int]@);
        assert(p[index as int] == parts@[index as int]@);
        if !same_component(&base[index], &parts[index]) {
            assert(p.subrange(0, b.len() as int)[index as int] != b[index as int]);
            return false;
        }
        index += 1;
    }
    assert(b =~= p.subrange(0, b.len() as int));
    true
}

/// Names a file relative to the remark directory, with `/` between the components.
pub fn normalized_remark_name(directory: &str, path: &str) -> (result: Result<String, Error>)
    ensures
        match (result, relative_name(directory@, path@)) {
            (Ok(name), Ok(expected)) => name@ == expected,
            (Err(error), Err(problem)) => error@ == refused(path@, problem),
            _ => false,
        },
{
    let base = components(directory);
    let parts = components(path);
    let ghost all = paths::views(parts@).skip(base@.len() as int);
    if !starts_below(&base, &parts) {
        return Err(invalid_remark_collection(path, RemarkProblem::Elsewhere));
    }
    assert(base@.len() <= parts@.len()) by {
        assert(paths::views(base@).len() == base@.len());
        assert(paths::views(parts@).len() == parts@.len());
    }
    let mut names = no_texts();
    let mut index: usize = base.len();
    assert(all.take(0) =~= Seq::<Part>::empty());
    while index < parts.len()
        invariant
            base@.len() <= index <= parts@.len(),
            all == paths::views(parts@).skip(base@.len() as int),
            all.len() == parts@.len() - base@.len(),
            names_of(all.take(index - base@.len())) == Ok::<Seq<Seq<char>>, RemarkProblem>(
                chars::views(names@),
            ),
            relative_name(directory@, path@) == (match names_of(all) {
                Err(problem) => Err(problem),
                Ok(names) => if names.len() == 0 {
                    Err(RemarkProblem::Nameless)
                } else {
                    Ok(chars::joined(names, "/"@))
                },
            }),
        decreases parts.len() - index,
    {
        let ghost here = index - base@.len();
        proof {
            assert(all.take(here + 1).drop_last() =~= all.take(here));
            assert(all.take(here + 1).last() == parts@[index as int]@);
        }
        match &parts[index] {
            Component::Normal(bytes) => {
                let mut copy: Vec<u8> = Vec::new();
                put_bytes(&mut copy, bytes.as_slice());
                assert(copy@ =~= bytes@);
                match utf8_text(copy) {
                    Ok(name) => {
                        add_text(&mut names, name.as_str());
                    },
                    Err(_) => {
                        proof {
                            refused_stays(all, here + 1);
                        }
                        return Err(invalid_remark_collection(path, RemarkProblem::NotUtf8));
                    },
                }
            },
            _ => {
                proof {
                    refused_stays(all, here + 1);
                }
                return Err(invalid_remark_collection(path, RemarkProblem::Irregular));
            },
        }
        index += 1;
    }
    assert(all.take(all.len() as int) =~= all);
    if names.len() == 0 {
        assert(chars::views(names@).len() == 0);
        return Err(invalid_remark_collection(path, RemarkProblem::Nameless));
    }
    assert(chars::views(names@).len() > 0);
    Ok(join(&names, "/"))
}

proof fn refused_stays(parts: Seq<Part>, count: int)
    requires
        0 <= count <= parts.len(),
        names_of(parts.take(count)) is Err,
    ensures
        names_of(parts) == names_of(parts.take(count)),
    decreases parts.len() - count,
{
    if count < parts.len() {
        assert(parts.take(count + 1).drop_last() =~= parts.take(count));
        refused_stays(parts, count + 1);
    } else {
        assert(parts.take(count) =~= parts);
    }
}

/// The record count is checked behind each file.
pub open spec fn count_verdict(
    directory: Seq<char>,
    limits: RemarkCollectionLimits,
    total: usize,
) -> Result<(), ErrorData> {
    if total > limits.max_records {
        Err(
            refused(
                directory,
                RemarkProblem::TotalRecords { maximum: limits.max_records, got: total },
            ),
        )
    } else {
        Ok(())
    }
}

/// Refuses too many remarks.
pub fn validate_remark_record_count(
    directory: &str,
    limits: &RemarkCollectionLimits,
    total_records: usize,
) -> (result: Result<(), Error>)
    ensures
        match (result, count_verdict(directory@, *limits, total_records)) {
            (Ok(()), Ok(())) => true,
            (Err(error), Err(expected)) => error@ == expected,
            _ => false,
        },
{
    if total_records > limits.max_records {
        return Err(
            invalid_remark_collection(
                directory,
                RemarkProblem::TotalRecords { maximum: limits.max_records, got: total_records },
            ),
        );
    }
    Ok(())
}

/// The evidence of one file.
pub struct FileEvidence {
    /// The normalized name.
    pub name: Seq<char>,
    /// The file.
    pub raw_path: Seq<char>,
    /// The remarks.
    pub records: Seq<RemarkData>,
}

impl View for RemarkEvidence {
    type V = FileEvidence;

    open spec fn view(&self) -> FileEvidence {
        FileEvidence {
            name: self.name@,
            raw_path: self.raw_path@,
            records: remarks::remark_views(self.records@),
        }
    }
}

/// A number of remarks and more, up to the largest number.
pub open spec fn records_after(total: usize, more: nat) -> usize {
    if total + more > usize::MAX {
        usize::MAX
    } else {
        (total + more) as usize
    }
}

/// What a remark file means behind others.
pub open spec fn file_verdict(
    directory: Seq<char>,
    limits: RemarkCollectionLimits,
    total: usize,
    path: Seq<char>,
    input: Input,
    file_size: u64,
) -> Result<(usize, FileEvidence), ErrorData> {
    match relative_name(directory, path) {
        Err(problem) => Err(refused(path, problem)),
        Ok(name) => match remarks::remarks(input, file_size, limits.parse) {
            Err(fault) => Err(super::error::of_remarks(path, fault)),
            Ok(records) => {
                let after = records_after(total, records.len());
                match count_verdict(directory, limits, after) {
                    Err(error) => Err(error),
                    Ok(()) => Ok((after, FileEvidence { name, raw_path: path, records })),
                }
            },
        },
    }
}

/// Reads remark files one after the other.
pub struct RemarkCollection {
    total_records: usize,
}

impl RemarkCollection {
    /// The number of remarks so far.
    pub closed spec fn total(&self) -> usize {
        self.total_records
    }

    /// Starts without files.
    pub fn new() -> (result: Self)
        ensures
            result.total() == 0,
    {
        RemarkCollection { total_records: 0 }
    }

    /// Reads the whole next file at once.
    pub fn accept_file<R: ByteSource>(
        &mut self,
        directory: &str,
        limits: &RemarkCollectionLimits,
        path: &str,
        source: R,
        file_size: u64,
    ) -> (result: Result<RemarkEvidence, Error>)
        ensures
            match (
                result,
                file_verdict(
                    directory@,
                    *limits,
                    old(self).total(),
                    path@,
                    lines::patient(source),
                    file_size,
                ),
            ) {
                (Ok(evidence), Ok((total, expected))) => {
                    &&& evidence@ == expected
                    &&& final(self).total() == total
                },
                (Err(error), Err(expected)) => error@ == expected,
                _ => false,
            },
    {
        let name = match normalized_remark_name(directory, path) {
            Err(error) => {
                return Err(error);
            },
            Ok(name) => name,
        };
        let records = match parse_optimization_remarks(source, file_size, limits.parse) {
            Err(fault) => {
                return Err(remarks_failure(path, fault));
            },
            Ok(records) => records,
        };
        assert(remarks::remark_views(records@).len() == records@.len());
        self.total_records = self.total_records.saturating_add(records.len());
        match validate_remark_record_count(directory, limits, self.total_records) {
            Err(error) => Err(error),
            Ok(()) => Ok(RemarkEvidence { name, raw_path: String::from_str(path), records }),
        }
    }
}

/// Starts a remark file before anything of it is read.
pub fn start_file(directory: &str, path: &str) -> (result: Result<RemarkFileStart, Error>)
    ensures
        match (result, relative_name(directory@, path@)) {
            (Ok(file), Ok(name)) => file@ == (RemarkFileStartData { name, raw_path: path@ }),
            (Err(error), Err(problem)) => error@ == refused(path@, problem),
            _ => false,
        },
{
    match normalized_remark_name(directory, path) {
        Err(error) => Err(error),
        Ok(name) => Ok(RemarkFileStart { name, raw_path: String::from_str(path) }),
    }
}

/// A file that is accepted keeps every limit: the remarks of all files so far are no more than the
/// limit allows.
pub proof fn accepted_files_are_bounded(
    directory: Seq<char>,
    limits: RemarkCollectionLimits,
    total: usize,
    path: Seq<char>,
    input: Input,
    file_size: u64,
)
    requires
        file_verdict(directory, limits, total, path, input, file_size) is Ok,
    ensures
        ({
            let (after, evidence) = file_verdict(
                directory,
                limits,
                total,
                path,
                input,
                file_size,
            )->Ok_0;
            &&& after <= limits.max_records
            &&& after < usize::MAX ==> after == total + evidence.records.len()
            &&& file_size <= limits.parse.max_file_bytes
        }),
{
}

} // verus!

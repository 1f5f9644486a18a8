//! Captures whole local definition spans from the compiler's normalized source map.
//!
//! Current files supply canonical path checks only. Snapshot bytes always come from the compiler's
//! loaded source, so normalization agrees with the compiler's byte positions.

use crate::paths;
use crate::paths::{components, is_below};
use crate::records::SourceUnavailable;
use vstd::prelude::*;

verus! {

/// What the compiler knows about the source file of a span.
#[derive(Debug)]
pub struct LoadedFile {
    /// The position of the file in the source map.
    pub start: u32,
    /// The normalized text, unless it was not loaded.
    pub text: Option<String>,
    /// The file has a real name.
    pub real: bool,
    /// The file has a local path.
    pub has_path: bool,
    /// The canonical path, unless it could not be resolved.
    pub path: Option<String>,
    /// The line of the start of the span, counted from zero.
    pub line: Option<u64>,
}

/// What the compiler knows about the span of a definition.
#[derive(Debug)]
pub struct SpanFacts {
    /// The definition belongs to the compiled crate.
    pub local: bool,
    /// The instance is an ordinary item.
    pub item: bool,
    /// The definition was synthesized.
    pub synthetic: bool,
    /// The span comes from a macro expansion.
    pub expansion: bool,
    /// The span is a placeholder.
    pub dummy: bool,
    /// The start of the span in the source map.
    pub low: u32,
    /// The end of the span in the source map.
    pub high: u32,
    /// The start and the end lie in the same file.
    pub same_file: bool,
    /// The file of the start.
    pub file: LoadedFile,
}

/// A whole-item range in a compiler-loaded file.
#[derive(Debug)]
pub struct SourceSpan {
    /// The byte offset in normalized UTF-8 source text.
    pub start: u64,
    /// The whole-item length in normalized UTF-8 bytes.
    pub length: u64,
    /// The canonical source path, used for display only after collection.
    pub display_path: String,
    /// The one-based line of the start.
    pub starting_line: u64,
}

/// The mathematical counterpart of [`SourceSpan`].
pub struct SpanData {
    /// The byte offset in normalized UTF-8 source text.
    pub start: int,
    /// The whole-item length in normalized UTF-8 bytes.
    pub length: int,
    /// The canonical source path.
    pub display_path: Seq<char>,
    /// The one-based line of the start.
    pub starting_line: int,
}

impl View for SourceSpan {
    type V = SpanData;

    open spec fn view(&self) -> SpanData {
        SpanData {
            start: self.start as int,
            length: self.length as int,
            display_path: self.display_path@,
            starting_line: self.starting_line as int,
        }
    }
}

/// A range of bytes starts and ends between characters of a text.
pub open spec fn sliceable(text: Seq<char>, start: int, end: int) -> bool {
    let bytes = vstd::utf8::encode_utf8(text);
    &&& 0 <= start <= end
    &&& vstd::utf8::is_char_boundary(bytes, start)
    &&& vstd::utf8::is_char_boundary(bytes, end)
}

/// The range of a definition in a file inside a package, or why there is none.
pub open spec fn span_in_file(
    facts: SpanFacts,
    package_root: Seq<char>,
) -> Result<SpanData, SourceUnavailable> {
    let file = facts.file;
    let start = facts.low - file.start;
    let end = facts.high - file.start;
    if file.text is None {
        Err(SourceUnavailable::Unloaded)
    } else if !file.real {
        Err(SourceUnavailable::Generated)
    } else if !file.has_path {
        Err(SourceUnavailable::Unloaded)
    } else {
        match file.path {
            None => Err(SourceUnavailable::UnsupportedSpan),
            Some(path) => if !paths::is_prefix_of(package_root, path@) {
                Err(SourceUnavailable::OutsidePackage)
            } else if !sliceable(file.text->Some_0@, start, end) {
                Err(SourceUnavailable::UnsupportedSpan)
            } else {
                match file.line {
                    None => Err(SourceUnavailable::UnsupportedSpan),
                    Some(line) => Ok(
                        SpanData {
                            start,
                            length: end - start,
                            display_path: path@,
                            starting_line: 1 + line,
                        },
                    ),
                }
            },
        }
    }
}

/// The range of a definition, or why there is none.
pub open spec fn span_of(facts: SpanFacts, package_root: Seq<char>) -> Result<
    SpanData,
    SourceUnavailable,
> {
    if !facts.local {
        Err(SourceUnavailable::Nonlocal)
    } else if !facts.item || facts.synthetic || facts.expansion {
        Err(SourceUnavailable::Generated)
    } else if facts.dummy || facts.high < facts.low || !facts.same_file {
        Err(SourceUnavailable::UnsupportedSpan)
    } else {
        span_in_file(facts, package_root)
    }
}

/// The position of the file of a span lies before the span, and its line can be counted from one.
pub open spec fn placed(facts: SpanFacts) -> bool {
    &&& facts.file.start <= facts.low
    &&& facts.file.line matches Some(line) ==> line < u64::MAX
}

fn capture_in_file(facts: SpanFacts, package_root: &str) -> (result: Result<
    SourceSpan,
    SourceUnavailable,
>)
    requires
        placed(facts),
        facts.low <= facts.high,
    ensures
        match (result, span_in_file(facts, package_root@)) {
            (Ok(span), Ok(expected)) => span@ == expected,
            (Err(reason), Err(expected)) => reason == expected,
            _ => false,
        },
{
    let text = match facts.file.text {
        None => {
            return Err(SourceUnavailable::Unloaded);
        },
        Some(text) => text,
    };
    if !facts.file.real {
        return Err(SourceUnavailable::Generated);
    }
    if !facts.file.has_path {
        return Err(SourceUnavailable::Unloaded);
    }
    let path = match facts.file.path {
        None => {
            return Err(SourceUnavailable::UnsupportedSpan);
        },
        Some(path) => path,
    };
    if !is_below(path.as_str(), package_root) {
        return Err(SourceUnavailable::OutsidePackage);
    }
    let start: u32 = facts.low - facts.file.start;
    let end: u32 = facts.high - facts.file.start;
    if !text.as_str().is_char_boundary(start as usize) || !text.as_str().is_char_boundary(
        end as usize,
    ) {
        return Err(SourceUnavailable::UnsupportedSpan);
    }
    match facts.file.line {
        None => Err(SourceUnavailable::UnsupportedSpan),
        Some(line) => Ok(
            SourceSpan {
                start: start as u64,
                length: (end - start) as u64,
                display_path: path,
                starting_line: 1 + line,
            },
        ),
    }
}

/// Finds the whole local item of a definition in one compiler-loaded file inside the package root.
///
/// The range uses normalized UTF-8 bytes and can be empty.
pub fn capture(facts: SpanFacts, package_root: &str) -> (result: Result<
    SourceSpan,
    SourceUnavailable,
>)
    requires
        placed(facts),
    ensures
        match (result, span_of(facts, package_root@)) {
            (Ok(span), Ok(expected)) => span@ == expected,
            (Err(reason), Err(expected)) => reason == expected,
            _ => false,
        },
{
    if !facts.local {
        return Err(SourceUnavailable::Nonlocal);
    }
    if !facts.item || facts.synthetic || facts.expansion {
        return Err(SourceUnavailable::Generated);
    }
    if facts.dummy || facts.high < facts.low || !facts.same_file {
        return Err(SourceUnavailable::UnsupportedSpan);
    }
    capture_in_file(facts, package_root)
}

/// A compiler file whose snapshot is already written.
#[derive(Debug)]
pub struct CapturedFile {
    /// The canonical path.
    pub path: String,
    /// The position in the source map, to detect distinct files with one canonical path.
    pub start: u32,
}

/// The mathematical counterpart of [`CapturedFile`].
pub struct CapturedFileData {
    /// The components of the canonical path.
    pub parts: Seq<paths::Part>,
    /// The position in the source map.
    pub start: u32,
}

impl View for CapturedFile {
    type V = CapturedFileData;

    open spec fn view(&self) -> CapturedFileData {
        CapturedFileData { parts: paths::text_parts(self.path@), start: self.start }
    }
}

/// Deduplicates normalized source snapshots within one selected-target collection attempt.
#[derive(Debug)]
pub struct Snapshots {
    files: Vec<CapturedFile>,
}

/// The paths of captured files differ.
pub open spec fn distinct_paths(files: Seq<CapturedFileData>) -> bool {
    forall|i: int, j: int|
        0 <= i < j < files.len() ==> (#[trigger] files[i]).parts != (#[trigger] files[j]).parts
}

/// The index of the file with a path.
pub open spec fn file_index(files: Seq<CapturedFileData>, parts: Seq<paths::Part>) -> int
    decreases files.len(),
{
    if files.len() == 0 || files[0].parts == parts {
        0
    } else {
        1 + file_index(files.skip(1), parts)
    }
}

proof fn file_index_is(files: Seq<CapturedFileData>, parts: Seq<paths::Part>, index: int)
    requires
        0 <= index <= files.len(),
        forall|i: int| 0 <= i < index ==> (#[trigger] files[i]).parts != parts,
        index < files.len() ==> files[index].parts == parts,
    ensures
        file_index(files, parts) == index,
    decreases index,
{
    if index > 0 {
        let rest = files.skip(1);
        assert forall|i: int| 0 <= i < index - 1 implies (#[trigger] rest[i]).parts != parts by {
            assert(rest[i] == files[i + 1]);
        }
        assert(files[0].parts != parts);
        file_index_is(rest, parts, index - 1);
    }
}

/// What a path needs before its artifact can be used.
#[derive(Clone, Copy, Debug, PartialEq, Eq, Structural)]
pub enum FileState {
    /// Its snapshot is written under this identity.
    Written(u64),
    /// Its snapshot has to be written under this identity.
    New(u64),
    /// The path names two compiler-loaded files.
    Conflict,
}

/// The state of a path.
pub open spec fn file_state(files: Seq<CapturedFileData>, path: Seq<char>, start: u32) -> FileState {
    let index = file_index(files, paths::text_parts(path));
    if index >= files.len() {
        FileState::New(files.len() as u64)
    } else if files[index].start != start {
        FileState::Conflict
    } else {
        FileState::Written(index as u64)
    }
}

impl FileState {
    /// The sentence that describes a conflict.
    pub open spec fn conflict() -> Seq<char> {
        "one source path must identify one compiler-loaded file"@
    }

    /// Describes a conflict.
    pub fn conflict_message() -> (result: &'static str)
        ensures
            result@ == Self::conflict(),
    {
        "one source path must identify one compiler-loaded file"
    }
}

impl Snapshots {
    /// The files whose snapshots are written, in the order of their identities.
    pub closed spec fn files(&self) -> Seq<CapturedFileData> {
        self.files@.map_values(|file: CapturedFile| file@)
    }

    #[verifier::type_invariant]
    spec fn well_formed(self) -> bool {
        distinct_paths(self.files())
    }

    /// Starts without files.
    pub fn new() -> (result: Self)
        ensures
            result.files() == Seq::<CapturedFileData>::empty(),
    {
        let result = Snapshots { files: Vec::new() };
        assert(result.files() =~= Seq::<CapturedFileData>::empty());
        result
    }

    /// Looks for a checked file.
    pub fn find(&self, path: &str, start: u32) -> (result: FileState)
        ensures
            result == file_state(self.files(), path@, start),
    {
        let wanted = components(path);
        let ghost all = self.files();
        let mut index: usize = 0;
        while index < self.files.len()
            invariant
                index <= self.files@.len(),
                all == self.files(),
                all.len() == self.files@.len(),
                paths::views(wanted@) == paths::text_parts(path@),
                forall|i: int|
                    0 <= i < index ==> (#[trigger] all[i]).parts != paths::text_parts(path@),
            decreases self.files.len() - index,
        {
            assert(all[index as int] == self.files@[index as int]@);
            let parts = components(self.files[index].path.as_str());
            if paths::same_components(&parts, &wanted) {
                proof {
                    file_index_is(all, paths::text_parts(path@), index as int);
                }
                if self.files[index].start != start {
                    return FileState::Conflict;
                }
                return FileState::Written(index as u64);
            }
            index += 1;
        }
        proof {
            file_index_is(all, paths::text_parts(path@), index as int);
        }
        FileState::New(self.files.len() as u64)
    }

    /// Takes a file whose snapshot was written, unless its path is already taken.
    pub fn capture_file(self, path: String, start: u32) -> (result: Self)
        ensures
            result.files() == (if file_state(self.files(), path@, start) is New {
                self.files().push(
                    CapturedFileData { parts: paths::text_parts(path@), start },
                )
            } else {
                self.files()
            }),
            distinct_paths(result.files()),
    {
        proof {
            use_type_invariant(&self);
        }
        match self.find(path.as_str(), start) {
            FileState::New(_) => {
                let ghost before = self.files();
                let ghost file = CapturedFileData { parts: paths::text_parts(path@), start };
                let mut files = self.files;
                files.push(CapturedFile { path, start });
                proof {
                    assert(files@.map_values(|file: CapturedFile| file@) =~= before.push(file));
                    new_paths_are_distinct(before, file);
                }
                Snapshots { files }
            },
            _ => self,
        }
    }
}

proof fn unfound_paths_differ(files: Seq<CapturedFileData>, parts: Seq<paths::Part>, index: int)
    requires
        file_index(files, parts) >= files.len(),
        0 <= index < files.len(),
    ensures
        files[index].parts != parts,
    decreases files.len(),
{
    if index > 0 {
        unfound_paths_differ(files.skip(1), parts, index - 1);
        assert(files.skip(1)[index - 1] == files[index]);
    }
}

proof fn new_paths_are_distinct(files: Seq<CapturedFileData>, file: CapturedFileData)
    requires
        distinct_paths(files),
        file_index(files, file.parts) >= files.len(),
    ensures
        distinct_paths(files.push(file)),
{
    let more = files.push(file);
    assert forall|i: int, j: int| 0 <= i < j < more.len() implies (#[trigger] more[i]).parts != (
    #[trigger] more[j]).parts by {
        if j == files.len() {
            unfound_paths_differ(files, file.parts, i);
        }
    }
}

proof fn file_index_bounds(files: Seq<CapturedFileData>, parts: Seq<paths::Part>)
    ensures
        0 <= file_index(files, parts) <= files.len(),
        file_index(files, parts) < files.len() ==> files[file_index(files, parts)].parts == parts,
    decreases files.len(),
{
    if files.len() > 0 && files[0].parts != parts {
        file_index_bounds(files.skip(1), parts);
    }
}

/// Two paths share a snapshot exactly if they have the same components. Each snapshot has an
/// identity of its own.
pub proof fn snapshots_are_shared_by_path(
    files: Seq<CapturedFileData>,
    first: Seq<char>,
    first_start: u32,
    second: Seq<char>,
    second_start: u32,
)
    requires
        distinct_paths(files),
        files.len() <= u64::MAX,
        file_state(files, first, first_start) is Written,
        file_state(files, second, second_start) is Written,
    ensures
        file_state(files, first, first_start) == file_state(files, second, second_start)
            <==> paths::text_parts(first) == paths::text_parts(second),
{
    file_index_bounds(files, paths::text_parts(first));
    file_index_bounds(files, paths::text_parts(second));
}

/// A file that was not seen yet gets the next identity. One that was keeps the identity that it
/// has, as long as it starts where it did; otherwise two files have one path.
pub proof fn files_keep_their_identity(
    files: Seq<CapturedFileData>,
    path: Seq<char>,
    start: u32,
    index: int,
)
    requires
        distinct_paths(files),
        files.len() <= u64::MAX,
    ensures
        (forall|i: int|
            0 <= i < files.len() ==> (#[trigger] files[i]).parts != paths::text_parts(path))
            ==> file_state(files, path, start) == FileState::New(files.len() as u64),
        0 <= index < files.len() && files[index].parts == paths::text_parts(path)
            && files[index].start == start ==> file_state(files, path, start)
            == FileState::Written(index as u64),
        0 <= index < files.len() && files[index].parts == paths::text_parts(path)
            && files[index].start != start ==> file_state(files, path, start)
            == FileState::Conflict,
{
    let parts = paths::text_parts(path);
    file_index_bounds(files, parts);
    let found = file_index(files, parts);
    if 0 <= index < files.len() && files[index].parts == parts {
        file_index_is_first(files, parts, index);
        assert(files[found].parts == files[index].parts);
    }
}

proof fn file_index_is_first(files: Seq<CapturedFileData>, parts: Seq<paths::Part>, index: int)
    requires
        0 <= index < files.len(),
        files[index].parts == parts,
    ensures
        file_index(files, parts) <= index,
    decreases files.len(),
{
    if files[0].parts != parts {
        assert(files.skip(1)[index - 1] == files[index]);
        file_index_is_first(files.skip(1), parts, index - 1);
    }
}

} // verus!

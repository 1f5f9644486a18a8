//! Provisions the standalone driver for one exact compiler and embedded recipe.
//!
//! Entries live in Cargo home and retain a stable executable path across processes. Provisioning
//! requires one writer per Cargo home. A present invalid entry is an error, not a cache miss.

use super::digest;
use super::digest::{add_field, digest};
use super::error;
use super::error::{
    filesystem_failure, invalid_environment, EnvironmentProblem, Error, ErrorData,
    Failure,
};
use super::protocol;
use super::toolchain::{CompilerIdentity, CompilerIdentityData};
use crate::bytes::same;
use crate::chars;
use crate::chars::{add_text, no_texts};
use crate::ir::driver;
use crate::ir::driver::{EnvironmentChange, EnvironmentChangeData};
use crate::paths;
use crate::paths::join;
use crate::process::{require_success, ProcessFault, ProcessOutput};
use crate::source::{FailureKind, SourceError};
use crate::wire::put_u32;
use vstd::bytes::*;
use vstd::prelude::*;
use vstd::string::StringExecFns;

verus! {

/// An embedded source file of the driver.
#[derive(Debug, PartialEq, Eq)]
pub struct DriverSource {
    /// The file name.
    pub name: String,
    /// The source text.
    pub contents: String,
}

/// The mathematical counterpart of [`DriverSource`].
pub struct DriverSourceData {
    /// The file name.
    pub name: Seq<char>,
    /// The source text.
    pub contents: Seq<char>,
}

impl View for DriverSource {
    type V = DriverSourceData;

    open spec fn view(&self) -> DriverSourceData {
        DriverSourceData {
            name: self.name@,
            contents: self.contents@,
        }
    }
}

/// The mathematical counterparts of a list.
pub open spec fn driver_source_list(values: Seq<DriverSource>) -> Seq<DriverSourceData> {
    values.map_values(|value: DriverSource| value@)
}

/// The bytes of a text.
pub open spec fn utf8(text: Seq<char>) -> Seq<u8> {
    vstd::utf8::encode_utf8(text)
}

/// The names and contents of sources.
pub open spec fn source_fields(sources: Seq<DriverSourceData>) -> Seq<Seq<u8>>
    decreases sources.len(),
{
    if sources.len() == 0 {
        Seq::empty()
    } else {
        source_fields(sources.drop_last()).push(utf8(sources.last().name)).push(
            utf8(sources.last().contents),
        )
    }
}

/// The bytes of texts.
pub open spec fn text_fields(texts: Seq<Seq<char>>) -> Seq<Seq<u8>> {
    texts.map_values(|text: Seq<char>| utf8(text))
}

/// The fields of the compiler and of the recipe.
pub open spec fn recipe_fields(
    compiler: CompilerIdentityData,
    recipe_revision: Seq<u8>,
    protocol_version: u32,
) -> Seq<Seq<u8>> {
    seq![
        recipe_revision,
        utf8(compiler.rustc),
        utf8(compiler.release),
        utf8(compiler.commit_hash),
        utf8(compiler.host),
        utf8(compiler.sysroot),
        spec_u32_to_le_bytes(protocol_version),
        utf8("RUSTC_BOOTSTRAP=optic_rustc_driver"@),
        utf8("OPTIC_DRIVER_KEY=recipe-digest"@),
        utf8("-o=optic-rustc-driver"@),
    ]
}

/// The fields of a driver key.
pub open spec fn key_fields(
    compiler: CompilerIdentityData,
    sources: Seq<DriverSourceData>,
    options: Seq<Seq<char>>,
    recipe_revision: Seq<u8>,
    protocol_version: u32,
) -> Seq<Seq<u8>> {
    recipe_fields(compiler, recipe_revision, protocol_version) + source_fields(sources)
        + text_fields(options)
}

/// Computes the key of a driver from every input of its recipe.
pub fn driver_key(
    compiler: &CompilerIdentity,
    sources: &Vec<DriverSource>,
    options: &Vec<String>,
    recipe_revision: &[u8],
    protocol_version: u32,
) -> (result: String)
    ensures
        result@ == digest::digest_of(
            key_fields(
                compiler@,
                driver_source_list(sources@),
                chars::views(options@),
                recipe_revision@,
                protocol_version,
            ),
        ),
{
    let mut version: Vec<u8> = Vec::new();
    put_u32(&mut version, protocol_version);
    assert(version@ =~= spec_u32_to_le_bytes(protocol_version));
    let mut fields: Vec<Vec<u8>> = Vec::new();
    add_field(&mut fields, recipe_revision);
    add_field(&mut fields, compiler.rustc.as_str().as_bytes());
    add_field(&mut fields, compiler.release.as_str().as_bytes());
    add_field(&mut fields, compiler.commit_hash.as_str().as_bytes());
    add_field(&mut fields, compiler.host.as_str().as_bytes());
    add_field(&mut fields, compiler.sysroot.as_str().as_bytes());
    add_field(&mut fields, version.as_slice());
    add_field(&mut fields, "RUSTC_BOOTSTRAP=optic_rustc_driver".as_bytes());
    add_field(&mut fields, "OPTIC_DRIVER_KEY=recipe-digest".as_bytes());
    add_field(&mut fields, "-o=optic-rustc-driver".as_bytes());
    let ghost recipe = recipe_fields(compiler@, recipe_revision@, protocol_version);
    assert(digest::field_views(fields@) =~= recipe);
    let ghost all = driver_source_list(sources@);
    let mut index: usize = 0;
    assert(digest::field_views(fields@) =~= recipe + source_fields(all.take(0)));
    while index < sources.len()
        invariant
            index <= sources@.len(),
            all == driver_source_list(sources@),
            digest::field_views(fields@) == recipe + source_fields(all.take(index as int)),
        decreases sources.len() - index,
    {
        let ghost before = digest::field_views(fields@);
        add_field(&mut fields, sources[index].name.as_str().as_bytes());
        add_field(&mut fields, sources[index].contents.as_str().as_bytes());
        proof {
            let after = all.take(index + 1);
            assert(after.drop_last() =~= all.take(index as int));
            assert(after.last() == sources@[index as int]@);
            assert(digest::field_views(fields@) =~= recipe + source_fields(after));
        }
        index += 1;
    }
    assert(all.take(all.len() as int) =~= all);
    let ghost sourced = digest::field_views(fields@);
    let ghost texts = chars::views(options@);
    index = 0;
    assert(digest::field_views(fields@) =~= sourced + text_fields(texts.take(0)));
    while index < options.len()
        invariant
            index <= options@.len(),
            texts == chars::views(options@),
            digest::field_views(fields@) == sourced + text_fields(texts.take(index as int)),
        decreases options.len() - index,
    {
        add_field(&mut fields, options[index].as_str().as_bytes());
        assert(texts[index as int] == options@[index as int]@);
        assert(text_fields(texts.take(index + 1)) =~= text_fields(texts.take(index as int)).push(
            utf8(texts[index as int]),
        ));
        assert(digest::field_views(fields@) =~= sourced + text_fields(texts.take(index + 1)));
        index += 1;
    }
    assert(texts.take(texts.len() as int) =~= texts);
    digest(&fields)
}

proof fn source_fields_are_pairs(sources: Seq<DriverSourceData>)
    ensures
        source_fields(sources).len() == 2 * sources.len(),
        forall|i: int|
            0 <= i < sources.len() ==> {
                &&& source_fields(sources)[2 * i] == utf8((#[trigger] sources[i]).name)
                &&& source_fields(sources)[2 * i + 1] == utf8(sources[i].contents)
            },
    decreases sources.len(),
{
    if sources.len() > 0 {
        let before = sources.drop_last();
        source_fields_are_pairs(before);
        assert forall|i: int| 0 <= i < sources.len() implies {
            &&& source_fields(sources)[2 * i] == utf8((#[trigger] sources[i]).name)
            &&& source_fields(sources)[2 * i + 1] == utf8(sources[i].contents)
        } by {
            if i < before.len() {
                assert(before[i] == sources[i]);
            }
        }
    }
}

proof fn utf8_is_injective(left: Seq<char>, right: Seq<char>)
    requires
        utf8(left) == utf8(right),
    ensures
        left == right,
{
    vstd::utf8::encode_utf8_decode_utf8(left);
    vstd::utf8::encode_utf8_decode_utf8(right);
}

/// Two recipes with equally many sources and the same key fields are the same recipe: the compiler,
/// every source, every option, the recipe revision and the protocol version agree.
pub proof fn keys_cover_every_input(
    compiler: CompilerIdentityData,
    sources: Seq<DriverSourceData>,
    options: Seq<Seq<char>>,
    recipe_revision: Seq<u8>,
    protocol_version: u32,
    other_compiler: CompilerIdentityData,
    other_sources: Seq<DriverSourceData>,
    other_options: Seq<Seq<char>>,
    other_revision: Seq<u8>,
    other_version: u32,
)
    requires
        sources.len() == other_sources.len(),
        key_fields(compiler, sources, options, recipe_revision, protocol_version) == key_fields(
            other_compiler,
            other_sources,
            other_options,
            other_revision,
            other_version,
        ),
    ensures
        compiler == other_compiler,
        sources == other_sources,
        options == other_options,
        recipe_revision == other_revision,
        protocol_version == other_version,
{
    let left = key_fields(compiler, sources, options, recipe_revision, protocol_version);
    let right = key_fields(
        other_compiler,
        other_sources,
        other_options,
        other_revision,
        other_version,
    );
    let recipe = recipe_fields(compiler, recipe_revision, protocol_version);
    let other = recipe_fields(other_compiler, other_revision, other_version);
    assert forall|i: int| 0 <= i < 10 implies recipe[i] == other[i] by {
        assert(left[i] == recipe[i]);
        assert(right[i] == other[i]);
    }
    assert(recipe[0] == other[0] && recipe[1] == other[1] && recipe[2] == other[2] && recipe[3]
        == other[3] && recipe[4] == other[4] && recipe[5] == other[5] && recipe[6] == other[6]);
    utf8_is_injective(compiler.rustc, other_compiler.rustc);
    utf8_is_injective(compiler.release, other_compiler.release);
    utf8_is_injective(compiler.commit_hash, other_compiler.commit_hash);
    utf8_is_injective(compiler.host, other_compiler.host);
    utf8_is_injective(compiler.sysroot, other_compiler.sysroot);
    lemma_auto_spec_u32_to_from_le_bytes();
    assert(protocol_version == other_version) by {
        assert(spec_u32_to_le_bytes(protocol_version).len() == 4);
        assert(spec_u32_to_le_bytes(other_version).len() == 4);
    }
    source_fields_are_pairs(sources);
    source_fields_are_pairs(other_sources);
    let count = sources.len() as int;
    assert forall|i: int| 0 <= i < count implies sources[i] == other_sources[i] by {
        assert(left[10 + 2 * i] == source_fields(sources)[2 * i]);
        assert(right[10 + 2 * i] == source_fields(other_sources)[2 * i]);
        assert(left[10 + 2 * i + 1] == source_fields(sources)[2 * i + 1]);
        assert(right[10 + 2 * i + 1] == source_fields(other_sources)[2 * i + 1]);
        utf8_is_injective(sources[i].name, other_sources[i].name);
        utf8_is_injective(sources[i].contents, other_sources[i].contents);
    }
    assert(sources =~= other_sources);
    assert(options.len() == other_options.len()) by {
        assert(left.len() == 10 + 2 * count + options.len());
        assert(right.len() == 10 + 2 * count + other_options.len());
    }
    assert forall|i: int| 0 <= i < options.len() implies options[i] == other_options[i] by {
        assert(left[10 + 2 * count + i] == utf8(options[i]));
        assert(right[10 + 2 * count + i] == utf8(other_options[i]));
        utf8_is_injective(options[i], other_options[i]);
    }
    assert(options =~= other_options);
}

/// The fixed build options in command order. The sysroot follows them.
pub open spec fn build_options() -> Seq<Seq<char>> {
    seq![
        "--crate-name"@,
        "optic_rustc_driver"@,
        "--edition=2024"@,
        "-C"@,
        "prefer-dynamic"@,
        "-C"@,
        "rpath"@,
        "--sysroot"@,
    ]
}

/// Lists the fixed build options in command order.
pub fn fixed_options() -> (result: Vec<String>)
    ensures
        chars::views(result@) == build_options(),
{
    let mut options = no_texts();
    add_text(&mut options, "--crate-name");
    add_text(&mut options, "optic_rustc_driver");
    add_text(&mut options, "--edition=2024");
    add_text(&mut options, "-C");
    add_text(&mut options, "prefer-dynamic");
    add_text(&mut options, "-C");
    add_text(&mut options, "rpath");
    add_text(&mut options, "--sysroot");
    assert(chars::views(options@) =~= build_options());
    options
}

/// The revision of the source layout, the cache header and the compilation recipe.
pub open spec fn recipe_revision() -> Seq<u8> {
    utf8("optic-driver-recipe-1"@)
}

/// The key of the driver for a compiler.
pub open spec fn recipe_key(
    compiler: CompilerIdentityData,
    sources: Seq<DriverSourceData>,
) -> Seq<char> {
    digest::digest_of(
        key_fields(
            compiler,
            sources,
            build_options(),
            recipe_revision(),
            protocol::PROTOCOL_VERSION,
        ),
    )
}

/// The arguments of the compiler that builds the driver.
pub open spec fn build_arguments(
    source: Seq<char>,
    sysroot: Seq<char>,
    executable: Seq<char>,
) -> Seq<Seq<char>> {
    seq![source] + build_options() + seq![sysroot, "-o"@, executable]
}

/// Lists the arguments of the compiler that builds the driver.
pub fn build_driver_arguments(source: &str, sysroot: &str, executable: &str) -> (result: Vec<
    String,
>)
    ensures
        chars::views(result@) == build_arguments(source@, sysroot@, executable@),
{
    let mut arguments = no_texts();
    add_text(&mut arguments, source);
    add_text(&mut arguments, "--crate-name");
    add_text(&mut arguments, "optic_rustc_driver");
    add_text(&mut arguments, "--edition=2024");
    add_text(&mut arguments, "-C");
    add_text(&mut arguments, "prefer-dynamic");
    add_text(&mut arguments, "-C");
    add_text(&mut arguments, "rpath");
    add_text(&mut arguments, "--sysroot");
    add_text(&mut arguments, sysroot);
    add_text(&mut arguments, "-o");
    add_text(&mut arguments, executable);
    assert(chars::views(arguments@) =~= build_arguments(source@, sysroot@, executable@));
    arguments
}

/// The Cargo home that the environment names.
pub open spec fn home_of(
    invocation_directory: Seq<char>,
    cargo_home: Option<Seq<char>>,
    home: Option<Seq<char>>,
) -> Result<Seq<char>, ErrorData> {
    if cargo_home is Some && cargo_home->Some_0.len() > 0 {
        Ok(paths::joined(invocation_directory, cargo_home->Some_0))
    } else {
        match home {
            Some(home) => Ok(
                paths::joined(invocation_directory, paths::joined(home, ".cargo"@)),
            ),
            None => Err(error::environment(EnvironmentProblem::NoCargoHome)),
        }
    }
}

/// Selects the Cargo home. An empty `CARGO_HOME` does not count.
pub fn cargo_home(
    invocation_directory: &str,
    configured: &Option<String>,
    home: &Option<String>,
) -> (result: Result<String, Error>)
    ensures
        error::text_agrees(
            result,
            home_of(
                invocation_directory@,
                chars::option_view(*configured),
                chars::option_view(*home),
            ),
        ),
{
    if let Some(path) = configured {
        if !path.as_str().is_empty() {
            return Ok(join(invocation_directory, path.as_str()));
        }
    }
    match home {
        Some(home) => {
            let path = join(home.as_str(), ".cargo");
            Ok(join(invocation_directory, path.as_str()))
        },
        None => Err(invalid_environment(EnvironmentProblem::NoCargoHome)),
    }
}

/// A file of a cache entry.
#[derive(Clone, Copy, Debug, PartialEq, Eq, Structural)]
pub enum EntryFile {
    /// The entry itself.
    Directory,
    /// The identity of the recipe.
    Identity,
    /// The driver executable.
    Executable,
}

/// The path of a file of a cache entry.
pub open spec fn entry_path(entry: Seq<char>, file: EntryFile) -> Seq<char> {
    match file {
        EntryFile::Directory => entry,
        EntryFile::Identity => paths::joined(entry, "identity"@),
        EntryFile::Executable => paths::joined(entry, "optic-rustc-driver"@),
    }
}

/// Returns the path of a file of a cache entry.
pub fn path_in_entry(entry: &str, file: EntryFile) -> (result: String)
    ensures
        result@ == entry_path(entry@, file),
{
    match file {
        EntryFile::Directory => String::from_str(entry),
        EntryFile::Identity => join(entry, "identity"),
        EntryFile::Executable => join(entry, "optic-rustc-driver"),
    }
}

/// What the file system says about a path without following a link.
#[derive(Clone, Copy, Debug, PartialEq, Eq, Structural)]
pub struct FileFacts {
    /// The path is a directory.
    pub is_directory: bool,
    /// The path is a regular file.
    pub is_file: bool,
    /// The path is a link.
    pub is_symlink: bool,
    /// The length of the file.
    pub length: u64,
    /// The permission bits.
    pub mode: u32,
}

/// The bytes of the identity of a recipe.
pub open spec fn identity_bytes(key: Seq<char>) -> Seq<u8> {
    utf8("optic-driver-1\n"@ + key + "\n"@)
}

/// Returns the text of the identity of a recipe.
pub fn identity_text(key: &str) -> (result: String)
    ensures
        result@ == "optic-driver-1\n"@ + key@ + "\n"@,
{
    let mut text = String::from_str("optic-driver-1\n");
    text.append(key);
    text.append("\n");
    text
}

/// The verdict on the facts about a file of a cache entry.
pub open spec fn file_verdict(
    entry: Seq<char>,
    file: EntryFile,
    found: Result<FileFacts, SourceError>,
) -> Result<(), ErrorData> {
    let path = entry_path(entry, file);
    match found {
        Err(source) => Err(error::filesystem("validate driver cache entry"@, path, source)),
        Ok(facts) => {
            let right_kind = if file == EntryFile::Directory {
                facts.is_directory
            } else {
                facts.is_file
            };
            if facts.is_symlink || !right_kind {
                Err(error::environment(EnvironmentProblem::CacheKind { path }))
            } else if file == EntryFile::Executable && (facts.length == 0 || facts.mode & 0o111 == 0) {
                Err(error::environment(EnvironmentProblem::CacheExecutable { path }))
            } else {
                Ok(())
            }
        },
    }
}

fn check_file(entry: &str, file: EntryFile, found: Result<FileFacts, SourceError>) -> (result:
    Result<(), Error>)
    ensures
        error::unit_agrees(result, file_verdict(entry@, file, found)),
{
    let path = path_in_entry(entry, file);
    match found {
        Err(source) => Err(
            filesystem_failure("validate driver cache entry", path.as_str(), source),
        ),
        Ok(facts) => {
            let right_kind = if file == EntryFile::Directory {
                facts.is_directory
            } else {
                facts.is_file
            };
            if facts.is_symlink || !right_kind {
                return Err(invalid_environment(EnvironmentProblem::CacheKind { path }));
            }
            if file == EntryFile::Executable && (facts.length == 0 || facts.mode & 0o111 == 0) {
                return Err(invalid_environment(EnvironmentProblem::CacheExecutable { path }));
            }
            Ok(())
        },
    }
}

/// The outside step that the validation of a cache entry waits for.
#[derive(Clone, Copy, Debug, PartialEq, Eq, Structural)]
pub enum EntryStep {
    /// Inspect a file without following a link.
    Inspect(EntryFile),
    /// Measure the identity.
    Measure,
    /// Read the identity.
    Read,
    /// Ask the executable for its key.
    Ask,
    /// Nothing: the entry is valid.
    Valid,
}

/// What an outside step of a validation gave.
pub enum EntryReply {
    /// A file was inspected.
    Inspected(Result<FileFacts, SourceError>),
    /// A file was measured.
    Measured(Result<u64, SourceError>),
    /// A file was read.
    Contents(Result<Vec<u8>, SourceError>),
    /// The executable ran.
    Ran(Result<ProcessOutput, SourceError>),
}

/// The step behind the inspection of a file.
pub open spec fn step_behind(file: EntryFile) -> EntryStep {
    match file {
        EntryFile::Directory => EntryStep::Inspect(EntryFile::Identity),
        EntryFile::Identity => EntryStep::Inspect(EntryFile::Executable),
        EntryFile::Executable => EntryStep::Measure,
    }
}

/// The step behind a reply. Another reply changes nothing.
pub open spec fn entry_after(
    entry: Seq<char>,
    key: Seq<char>,
    step: EntryStep,
    reply: EntryReply,
) -> Result<EntryStep, ErrorData> {
    let identity = entry_path(entry, EntryFile::Identity);
    let executable = entry_path(entry, EntryFile::Executable);
    let mismatch = Err(
        error::environment(EnvironmentProblem::CacheIdentity { path: identity }),
    );
    match (step, reply) {
        (EntryStep::Inspect(file), EntryReply::Inspected(found)) => match file_verdict(
            entry,
            file,
            found,
        ) {
            Err(error) => Err(error),
            Ok(()) => Ok(step_behind(file)),
        },
        (EntryStep::Measure, EntryReply::Measured(measured)) => match measured {
            Err(source) => Err(error::filesystem("inspect driver identity"@, identity, source)),
            Ok(length) => if length != identity_bytes(key).len() {
                mismatch
            } else {
                Ok(EntryStep::Read)
            },
        },
        (EntryStep::Read, EntryReply::Contents(contents)) => match contents {
            Err(source) => Err(error::filesystem("read driver identity"@, identity, source)),
            Ok(bytes) => if bytes@ != identity_bytes(key) {
                mismatch
            } else {
                Ok(EntryStep::Ask)
            },
        },
        (EntryStep::Ask, EntryReply::Ran(launched)) => match launched {
            Err(source) => Err(Failure::StartProcess { program: executable, source }),
            Ok(output) => if !output.report.success || output.stdout@ != utf8(key + "\n"@) {
                Err(error::environment(EnvironmentProblem::CacheKey { path: executable }))
            } else {
                Ok(EntryStep::Valid)
            },
        },
        _ => Ok(step),
    }
}

/// A step or an error agrees with the expected one.
pub open spec fn step_agrees(
    result: Result<EntryStep, Error>,
    expected: Result<EntryStep, ErrorData>,
) -> bool {
    match (result, expected) {
        (Ok(step), Ok(meant)) => step == meant,
        (Err(error), Err(meant)) => error@ == meant,
        _ => false,
    }
}

/// Takes the reply to the outside step that the validation of a cache entry waits for.
pub fn validate_entry(entry: &str, key: &str, step: EntryStep, reply: EntryReply) -> (result: Result<
    EntryStep,
    Error,
>)
    ensures
        step_agrees(result, entry_after(entry@, key@, step, reply)),
{
    match (step, reply) {
        (EntryStep::Inspect(file), EntryReply::Inspected(found)) => match check_file(
            entry,
            file,
            found,
        ) {
            Err(error) => Err(error),
            Ok(()) => Ok(
                match file {
                    EntryFile::Directory => EntryStep::Inspect(EntryFile::Identity),
                    EntryFile::Identity => EntryStep::Inspect(EntryFile::Executable),
                    EntryFile::Executable => EntryStep::Measure,
                },
            ),
        },
        (EntryStep::Measure, EntryReply::Measured(measured)) => {
            let path = path_in_entry(entry, EntryFile::Identity);
            let expected = identity_text(key);
            match measured {
                Err(source) => Err(
                    filesystem_failure("inspect driver identity", path.as_str(), source),
                ),
                Ok(length) => if length != expected.as_str().as_bytes().len() as u64 {
                    Err(invalid_environment(EnvironmentProblem::CacheIdentity { path }))
                } else {
                    Ok(EntryStep::Read)
                },
            }
        },
        (EntryStep::Read, EntryReply::Contents(contents)) => {
            let path = path_in_entry(entry, EntryFile::Identity);
            let expected = identity_text(key);
            match contents {
                Err(source) => Err(
                    filesystem_failure("read driver identity", path.as_str(), source),
                ),
                Ok(bytes) => if !same(bytes.as_slice(), expected.as_str().as_bytes()) {
                    Err(invalid_environment(EnvironmentProblem::CacheIdentity { path }))
                } else {
                    Ok(EntryStep::Ask)
                },
            }
        },
        (EntryStep::Ask, EntryReply::Ran(launched)) => {
            let path = path_in_entry(entry, EntryFile::Executable);
            let mut expected = String::from_str(key);
            expected.append("\n");
            match launched {
                Err(source) => Err(Failure::StartProcess { program: path, source }),
                Ok(output) => if !output.report.success || !same(
                    output.stdout.as_slice(),
                    expected.as_str().as_bytes(),
                ) {
                    Err(invalid_environment(EnvironmentProblem::CacheKey { path }))
                } else {
                    Ok(EntryStep::Valid)
                },
            }
        },
        (step, _) => Ok(step),
    }
}

/// A complete record of what the validation of an entry can see.
pub struct EntryFacts {
    /// The entry.
    pub directory: Result<FileFacts, SourceError>,
    /// The identity.
    pub identity: Result<FileFacts, SourceError>,
    /// The executable.
    pub executable: Result<FileFacts, SourceError>,
    /// The length of the identity.
    pub length: Result<u64, SourceError>,
    /// The bytes of the identity.
    pub contents: Result<Vec<u8>, SourceError>,
    /// What the executable prints.
    pub answer: Result<ProcessOutput, SourceError>,
}

/// The reply to a step.
pub open spec fn fact_reply(facts: EntryFacts, step: EntryStep) -> EntryReply {
    match step {
        EntryStep::Inspect(EntryFile::Directory) => EntryReply::Inspected(facts.directory),
        EntryStep::Inspect(EntryFile::Identity) => EntryReply::Inspected(facts.identity),
        EntryStep::Inspect(EntryFile::Executable) => EntryReply::Inspected(facts.executable),
        EntryStep::Measure => EntryReply::Measured(facts.length),
        EntryStep::Read => EntryReply::Contents(facts.contents),
        _ => EntryReply::Ran(facts.answer),
    }
}

/// The outcome of a whole validation.
pub open spec fn validated(
    entry: Seq<char>,
    key: Seq<char>,
    facts: EntryFacts,
    step: EntryStep,
    steps: nat,
) -> Result<EntryStep, ErrorData>
    decreases steps,
{
    if steps == 0 || step == EntryStep::Valid {
        Ok(step)
    } else {
        match entry_after(entry, key, step, fact_reply(facts, step)) {
            Err(error) => Err(error),
            Ok(next) => validated(entry, key, facts, next, (steps - 1) as nat),
        }
    }
}

/// A cache entry is valid exactly if it is a directory with a regular identity of this recipe and a
/// nonempty regular executable that can run and reports the key. Every other present entry is an
/// error.
pub proof fn invalid_entries_are_errors(entry: Seq<char>, key: Seq<char>, facts: EntryFacts)
    ensures
        ({
            let outcome = validated(
                entry,
                key,
                facts,
                EntryStep::Inspect(EntryFile::Directory),
                6,
            );
            &&& outcome is Ok ==> outcome == Ok::<EntryStep, ErrorData>(EntryStep::Valid)
            &&& outcome is Ok <==> {
                &&& file_verdict(entry, EntryFile::Directory, facts.directory) is Ok
                &&& file_verdict(entry, EntryFile::Identity, facts.identity) is Ok
                &&& file_verdict(entry, EntryFile::Executable, facts.executable) is Ok
                &&& facts.length == Ok::<u64, SourceError>(identity_bytes(key).len() as u64)
                    && facts.length->Ok_0 == identity_bytes(key).len()
                &&& facts.contents matches Ok(bytes) && bytes@ == identity_bytes(key)
                &&& facts.answer matches Ok(output) && output.report.success && output.stdout@
                    == utf8(key + "\n"@)
            }
        }),
{
    reveal_with_fuel(validated, 7);
}

/// The key and the paths of a driver.
#[derive(Debug, PartialEq, Eq)]
pub struct DriverPlan {
    /// The key of the recipe.
    pub key: String,
    /// The directory of all drivers.
    pub root: String,
    /// The cache entry of this driver.
    pub entry: String,
}

/// The mathematical counterpart of [`DriverPlan`].
pub struct DriverPlanData {
    /// The key of the recipe.
    pub key: Seq<char>,
    /// The directory of all drivers.
    pub root: Seq<char>,
    /// The cache entry of this driver.
    pub entry: Seq<char>,
}

impl View for DriverPlan {
    type V = DriverPlanData;

    open spec fn view(&self) -> DriverPlanData {
        DriverPlanData {
            key: self.key@,
            root: self.root@,
            entry: self.entry@,
        }
    }
}

/// The plan of a driver.
pub open spec fn plan_of(
    cargo_home: Seq<char>,
    compiler: CompilerIdentityData,
    sources: Seq<DriverSourceData>,
) -> DriverPlanData {
    let root = paths::joined(cargo_home, "optic/drivers"@);
    let key = recipe_key(compiler, sources);
    DriverPlanData { key, root, entry: paths::joined(root, key) }
}

/// Plans the driver of a compiler.
pub fn plan_driver(cargo_home: &str, compiler: &CompilerIdentity, sources: &Vec<DriverSource>) -> (result:
    DriverPlan)
    ensures
        result@ == plan_of(cargo_home@, compiler@, driver_source_list(sources@)),
{
    let options = fixed_options();
    let key = driver_key(
        compiler,
        sources,
        &options,
        "optic-driver-recipe-1".as_bytes(),
        protocol::PROTOCOL_VERSION,
    );
    let root = join(cargo_home, "optic/drivers");
    let entry = join(root.as_str(), key.as_str());
    DriverPlan { key, root, entry }
}

/// How far the provisioning of a driver has come. Each state but the last waits for one outside
/// step. A text is the path of the private build directory.
pub enum Provision {
    /// The directory of all drivers is created with its parents.
    CreatingRoot,
    /// The entry is inspected without following a link.
    Inspecting,
    /// A present entry is validated.
    Validating(EntryStep),
    /// A private build directory is created in the directory of all drivers.
    CreatingTemporary,
    /// The source with this index is written.
    Writing(String, usize),
    /// The driver is compiled.
    Compiling(String),
    /// The identity is written.
    Identifying(String),
    /// The new entry is validated.
    ValidatingNew(String, EntryStep),
    /// The new entry takes its place.
    Publishing(String),
    /// The driver can be used.
    Ready,
}

/// The mathematical counterpart of [`Provision`].
pub enum ProvisionData {
    /// The directory of all drivers is created with its parents.
    CreatingRoot,
    /// The entry is inspected without following a link.
    Inspecting,
    /// A present entry is validated.
    Validating(EntryStep),
    /// A private build directory is created in the directory of all drivers.
    CreatingTemporary,
    /// The source with this index is written.
    Writing(Seq<char>, usize),
    /// The driver is compiled.
    Compiling(Seq<char>),
    /// The identity is written.
    Identifying(Seq<char>),
    /// The new entry is validated.
    ValidatingNew(Seq<char>, EntryStep),
    /// The new entry takes its place.
    Publishing(Seq<char>),
    /// The driver can be used.
    Ready,
}

impl View for Provision {
    type V = ProvisionData;

    open spec fn view(&self) -> ProvisionData {
        match self {
            Provision::CreatingRoot => ProvisionData::CreatingRoot,
            Provision::Inspecting => ProvisionData::Inspecting,
            Provision::Validating(step) => ProvisionData::Validating(*step),
            Provision::CreatingTemporary => ProvisionData::CreatingTemporary,
            Provision::Writing(directory, index) => ProvisionData::Writing(directory@, *index),
            Provision::Compiling(directory) => ProvisionData::Compiling(directory@),
            Provision::Identifying(directory) => ProvisionData::Identifying(directory@),
            Provision::ValidatingNew(directory, step) => ProvisionData::ValidatingNew(
                directory@,
                *step,
            ),
            Provision::Publishing(directory) => ProvisionData::Publishing(directory@),
            Provision::Ready => ProvisionData::Ready,
        }
    }
}

/// What an outside step of provisioning gave.
pub enum ProvisionReply {
    /// An operation ended.
    Done(Result<(), SourceError>),
    /// A path was looked for.
    Looked(Result<(), SourceError>),
    /// A private directory was created.
    Created(Result<String, SourceError>),
    /// The compiler ran.
    Ran(Result<ProcessOutput, SourceError>),
    /// A step of a validation ended.
    Entry(EntryReply),
}

/// The state behind an operation, or why there is none.
pub open spec fn done_or(
    done: Result<(), SourceError>,
    operation: Seq<char>,
    path: Seq<char>,
    next: ProvisionData,
) -> Result<ProvisionData, ErrorData> {
    match done {
        Ok(()) => Ok(next),
        Err(source) => Err(error::filesystem(operation, path, source)),
    }
}

/// The diagnostics of a failed driver compilation.
pub open spec fn advised(diagnostics: Seq<char>) -> Seq<char> {
    diagnostics
        + "\nDriver compilation requires rustc-dev and llvm-tools for this exact toolchain. Install those components with rustup component add rustc-dev llvm-tools."@
}

/// The verdict on the compilation of a driver.
pub open spec fn build_verdict(
    launched: Result<ProcessOutput, SourceError>,
    rustc: Seq<char>,
) -> Result<(), ErrorData> {
    match launched {
        Err(source) => Err(Failure::StartProcess { program: rustc, source }),
        Ok(output) => if output.report.success {
            Ok(())
        } else {
            Err(
                Failure::ProcessFailed {
                    program: rustc,
                    status: output.report.status@,
                    diagnostics: Some(advised(crate::text::lossy(output.stderr@))),
                },
            )
        },
    }
}

/// Judges the compilation of a driver.
pub fn build_driver(launched: Result<ProcessOutput, SourceError>, rustc: &str) -> (result: Result<
    (),
    Error,
>)
    ensures
        error::unit_agrees(result, build_verdict(launched, rustc@)),
{
    match require_success(launched) {
        Ok(_) => Ok(()),
        Err(ProcessFault::Start(source)) => Err(
            Failure::StartProcess { program: String::from_str(rustc), source },
        ),
        Err(ProcessFault::Failed { status, diagnostics }) => {
            let mut text = diagnostics;
            text.append(
                "\nDriver compilation requires rustc-dev and llvm-tools for this exact toolchain. Install those components with rustup component add rustc-dev llvm-tools.",
            );
            Err(
                Failure::ProcessFailed {
                    program: String::from_str(rustc),
                    status,
                    diagnostics: Some(text),
                },
            )
        },
    }
}

/// The state behind the validation of a present entry.
pub open spec fn entry_state(step: EntryStep) -> ProvisionData {
    if step == EntryStep::Valid {
        ProvisionData::Ready
    } else {
        ProvisionData::Validating(step)
    }
}

/// The state behind the validation of a new entry.
pub open spec fn new_entry_state(directory: Seq<char>, step: EntryStep) -> ProvisionData {
    if step == EntryStep::Valid {
        ProvisionData::Publishing(directory)
    } else {
        ProvisionData::ValidatingNew(directory, step)
    }
}

/// The state in which the source with an index is written, or the driver is compiled.
pub open spec fn writing_state(directory: Seq<char>, index: usize, count: nat) -> ProvisionData {
    if index < count {
        ProvisionData::Writing(directory, index)
    } else {
        ProvisionData::Compiling(directory)
    }
}

/// The provisioning behind a reply. Another reply changes nothing.
pub open spec fn provision_after(
    plan: DriverPlanData,
    rustc: Seq<char>,
    sources: Seq<DriverSourceData>,
    state: ProvisionData,
    reply: ProvisionReply,
) -> Result<ProvisionData, ErrorData> {
    match (state, reply) {
        (ProvisionData::CreatingRoot, ProvisionReply::Done(done)) => done_or(
            done,
            "create driver cache"@,
            plan.root,
            ProvisionData::Inspecting,
        ),
        (ProvisionData::Inspecting, ProvisionReply::Looked(looked)) => match looked {
            Ok(()) => Ok(ProvisionData::Validating(EntryStep::Inspect(EntryFile::Directory))),
            Err(source) => if source.kind == FailureKind::NotFound {
                Ok(ProvisionData::CreatingTemporary)
            } else {
                Err(error::filesystem("inspect driver cache entry"@, plan.entry, source))
            },
        },
        (ProvisionData::Validating(step), ProvisionReply::Entry(reply)) => match entry_after(
            plan.entry,
            plan.key,
            step,
            reply,
        ) {
            Err(error) => Err(error),
            Ok(step) => Ok(entry_state(step)),
        },
        (ProvisionData::CreatingTemporary, ProvisionReply::Created(created)) => match created {
            Err(source) => Err(
                error::filesystem("create driver build directory in"@, plan.root, source),
            ),
            Ok(directory) => Ok(writing_state(directory@, 0, sources.len())),
        },
        (ProvisionData::Writing(directory, index), ProvisionReply::Done(done)) => if index
            < sources.len() {
            done_or(
                done,
                "write embedded driver source"@,
                paths::joined(directory, sources[index as int].name),
                writing_state(directory, (index + 1) as usize, sources.len()),
            )
        } else {
            Ok(ProvisionData::Compiling(directory))
        },
        (ProvisionData::Compiling(directory), ProvisionReply::Ran(launched)) => match build_verdict(
            launched,
            rustc,
        ) {
            Err(error) => Err(error),
            Ok(()) => Ok(ProvisionData::Identifying(directory)),
        },
        (ProvisionData::Identifying(directory), ProvisionReply::Done(done)) => done_or(
            done,
            "write driver identity"@,
            entry_path(directory, EntryFile::Identity),
            ProvisionData::ValidatingNew(directory, EntryStep::Inspect(EntryFile::Directory)),
        ),
        (ProvisionData::ValidatingNew(directory, step), ProvisionReply::Entry(reply)) => match
            entry_after(directory, plan.key, step, reply) {
            Err(error) => Err(error),
            Ok(step) => Ok(new_entry_state(directory, step)),
        },
        (ProvisionData::Publishing(directory), ProvisionReply::Done(done)) => done_or(
            done,
            "publish driver cache entry"@,
            plan.entry,
            ProvisionData::Ready,
        ),
        _ => Ok(state),
    }
}

/// A state or an error agrees with the expected one.
pub open spec fn provision_agrees(
    result: Result<Provision, Error>,
    expected: Result<ProvisionData, ErrorData>,
) -> bool {
    match (result, expected) {
        (Ok(state), Ok(meant)) => state@ == meant,
        (Err(error), Err(meant)) => error@ == meant,
        _ => false,
    }
}

fn next_state(done: Result<(), SourceError>, operation: &str, path: &str, next: Provision) -> (result:
    Result<Provision, Error>)
    ensures
        provision_agrees(result, done_or(done, operation@, path@, next@)),
{
    match done {
        Ok(()) => Ok(next),
        Err(source) => Err(filesystem_failure(operation, path, source)),
    }
}

impl Provision {
    /// Takes the reply to the outside step that the provisioning waits for.
    pub fn provision(
        self,
        plan: &DriverPlan,
        rustc: &str,
        sources: &Vec<DriverSource>,
        reply: ProvisionReply,
    ) -> (result: Result<Self, Error>)
        ensures
            provision_agrees(
                result,
                provision_after(plan@, rustc@, driver_source_list(sources@), self@, reply),
            ),
    {
        assert(driver_source_list(sources@).len() == sources@.len());
        match (self, reply) {
            (Provision::CreatingRoot, ProvisionReply::Done(done)) => next_state(
                done,
                "create driver cache",
                plan.root.as_str(),
                Provision::Inspecting,
            ),
            (Provision::Inspecting, ProvisionReply::Looked(looked)) => match looked {
                Ok(()) => Ok(Provision::Validating(EntryStep::Inspect(EntryFile::Directory))),
                Err(source) => if source.kind == FailureKind::NotFound {
                    Ok(Provision::CreatingTemporary)
                } else {
                    Err(
                        filesystem_failure(
                            "inspect driver cache entry",
                            plan.entry.as_str(),
                            source,
                        ),
                    )
                },
            },
            (Provision::Validating(step), ProvisionReply::Entry(reply)) => match validate_entry(
                plan.entry.as_str(),
                plan.key.as_str(),
                step,
                reply,
            ) {
                Err(error) => Err(error),
                Ok(EntryStep::Valid) => Ok(Provision::Ready),
                Ok(step) => Ok(Provision::Validating(step)),
            },
            (Provision::CreatingTemporary, ProvisionReply::Created(created)) => match created {
                Err(source) => Err(
                    filesystem_failure(
                        "create driver build directory in",
                        plan.root.as_str(),
                        source,
                    ),
                ),
                Ok(directory) => if sources.len() > 0 {
                    Ok(Provision::Writing(directory, 0))
                } else {
                    Ok(Provision::Compiling(directory))
                },
            },
            (Provision::Writing(directory, index), ProvisionReply::Done(done)) => {
                if index < sources.len() {
                    let path = join(directory.as_str(), sources[index].name.as_str());
                    assert(driver_source_list(sources@)[index as int]
                        == sources@[index as int]@);
                    let next = if index + 1 < sources.len() {
                        Provision::Writing(directory, index + 1)
                    } else {
                        Provision::Compiling(directory)
                    };
                    next_state(done, "write embedded driver source", path.as_str(), next)
                } else {
                    Ok(Provision::Compiling(directory))
                }
            },
            (Provision::Compiling(directory), ProvisionReply::Ran(launched)) => match build_driver(
                launched,
                rustc,
            ) {
                Err(error) => Err(error),
                Ok(()) => Ok(Provision::Identifying(directory)),
            },
            (Provision::Identifying(directory), ProvisionReply::Done(done)) => {
                let path = path_in_entry(directory.as_str(), EntryFile::Identity);
                next_state(
                    done,
                    "write driver identity",
                    path.as_str(),
                    Provision::ValidatingNew(directory, EntryStep::Inspect(EntryFile::Directory)),
                )
            },
            (Provision::ValidatingNew(directory, step), ProvisionReply::Entry(reply)) => match
                validate_entry(directory.as_str(), plan.key.as_str(), step, reply) {
                Err(error) => Err(error),
                Ok(EntryStep::Valid) => Ok(Provision::Publishing(directory)),
                Ok(step) => Ok(Provision::ValidatingNew(directory, step)),
            },
            (Provision::Publishing(directory), ProvisionReply::Done(done)) => next_state(
                done,
                "publish driver cache entry",
                plan.entry.as_str(),
                Provision::Ready,
            ),
            (state, _) => Ok(state),
        }
    }
}

/// A driver is used only behind a completed validation: of the present entry, or of the new entry
/// that was then published.
pub proof fn used_drivers_are_validated(
    plan: DriverPlanData,
    rustc: Seq<char>,
    sources: Seq<DriverSourceData>,
    state: ProvisionData,
    reply: ProvisionReply,
)
    requires
        !(state is Ready),
        state matches ProvisionData::Validating(step) ==> step != EntryStep::Valid,
    ensures
        provision_after(plan, rustc, sources, state, reply) == Ok::<ProvisionData, ErrorData>(
            ProvisionData::Ready,
        ) ==> {
            ||| state matches ProvisionData::Validating(step) && reply matches ProvisionReply::Entry(
                answer,
            ) && entry_after(plan.entry, plan.key, step, answer) == Ok::<EntryStep, ErrorData>(
                EntryStep::Valid,
            )
            ||| state is Publishing
        },
        provision_after(plan, rustc, sources, state, reply) matches Ok(
            ProvisionData::Publishing(_),
        ) ==> {
            ||| state is Publishing
            ||| state matches ProvisionData::ValidatingNew(directory, step) && reply matches
                ProvisionReply::Entry(answer) && entry_after(directory, plan.key, step, answer)
                == Ok::<EntryStep, ErrorData>(EntryStep::Valid)
        },
{
}

/// The environment in which Cargo finds the driver.
pub open spec fn driver_environment(
    executable: Seq<char>,
    marker: Seq<char>,
    manifest_path: Seq<char>,
) -> Seq<EnvironmentChangeData> {
    seq![
        driver::variable("RUSTC_WRAPPER"@, executable),
        driver::variable("RUSTC_WORKSPACE_WRAPPER"@, ""@),
        driver::variable("CARGO_BUILD_RUSTC_WRAPPER"@, ""@),
        driver::variable("CARGO_BUILD_RUSTC_WORKSPACE_WRAPPER"@, ""@),
        driver::variable("OPTIC_SELECTED_TARGET_MARKER"@, marker),
        driver::variable("OPTIC_COMPILER_MANIFEST"@, manifest_path),
        driver::no_variable("OPTIC_RUSTC_DRIVER_INNER"@),
        driver::no_variable("RUSTC_BOOTSTRAP"@),
    ]
}

/// Adds the stable wrapper and the output paths of an attempt to changes of an environment, without
/// granting unstable access.
pub fn configure(
    changes: &mut Vec<EnvironmentChange>,
    executable: &str,
    marker: &str,
    manifest_path: &str,
)
    ensures
        driver::environment_change_list(final(changes)@) == driver::environment_change_list(
            old(changes)@,
        ) + driver_environment(executable@, marker@, manifest_path@),
{
    driver::assign(changes, "RUSTC_WRAPPER", executable);
    driver::assign(changes, "RUSTC_WORKSPACE_WRAPPER", "");
    driver::assign(changes, "CARGO_BUILD_RUSTC_WRAPPER", "");
    driver::assign(changes, "CARGO_BUILD_RUSTC_WORKSPACE_WRAPPER", "");
    driver::assign(changes, protocol::SELECTED_TARGET_MARKER_ENV, marker);
    driver::assign(changes, protocol::MANIFEST_PATH_ENV, manifest_path);
    driver::remove(changes, protocol::DRIVER_INNER_ENV);
    driver::remove(changes, "RUSTC_BOOTSTRAP");
    assert(driver::environment_change_list(changes@) =~= driver::environment_change_list(
        old(changes)@,
    ) + driver_environment(executable@, marker@, manifest_path@));
}

} // verus!

//! What the configuration of Cargo says about its programs.

use super::error::{EnvironmentProblem, ErrorData, Failure};
use super::toolchain;
use super::toolchain::CargoConfigurationData;
use crate::chars;
use crate::paths;
use crate::process::ProcessOutput;
use crate::source::SourceError;
use crate::text_laws;
use vstd::prelude::*;

verus! {

/// A configured program without a separator is found on the search path, and an absolute one where
/// it is. Any other stands below the base of its configuration.
pub proof fn configured_programs_are_resolved(value: Seq<char>, base: Seq<char>)
    ensures
        !value.contains('/') ==> toolchain::resolved(value, base) == value,
        value.len() > 0 && value[0] == '/' ==> toolchain::resolved(value, base) == value,
        value.contains('/') && value[0] != '/' ==> toolchain::resolved(value, base)
            == paths::joined(base, value),
{
}

/// The base of a value from the environment or the command line is the workspace.
pub proof fn direct_values_are_based_on_the_workspace(rest: Seq<char>, root: Seq<char>)
    ensures
        toolchain::base_of("environment variable `"@ + rest, root) == root,
        toolchain::base_of("command line"@ + rest, root) == root,
{
    let first = "environment variable `"@;
    let second = "command line"@;
    assert((first + rest).subrange(0, first.len() as int) =~= first);
    assert((second + rest).subrange(0, second.len() as int) =~= second);
}

/// The base of a value from a file is the directory above the one that holds the file.
pub proof fn values_of_files_are_based_above_their_directory(
    base: Seq<char>,
    directory: Seq<char>,
    file: Seq<char>,
    root: Seq<char>,
)
    requires
        text_laws::plain(directory),
        text_laws::plain(file),
        base.len() > 0,
        base.last() != '/',
        paths::trimmed(base) == base,
        paths::trimmed(paths::joined(base, directory)) == paths::joined(base, directory),
        base[0] == '/',
    ensures
        toolchain::base_of(paths::joined(paths::joined(base, directory), file), root) == base,
{
    let holder = paths::joined(base, directory);
    text_laws::joined_paths_come_apart(base, directory);
    assert(directory.contains(directory[directory.len() - 1]));
    text_laws::joined_paths_come_apart(holder, file);
    let origin = paths::joined(holder, file);
    assert(origin[0] == '/');
    reveal_strlit("environment variable `");
    reveal_strlit("command line");
    let first = "environment variable `"@;
    let second = "command line"@;
    if first.is_prefix_of(origin) {
        assert(origin.subrange(0, first.len() as int)[0] == origin[0]);
    }
    if second.is_prefix_of(origin) {
        assert(origin.subrange(0, second.len() as int)[0] == origin[0]);
    }
}

proof fn first_separators_stand_behind_fields(field: Seq<char>, rest: Seq<char>)
    requires
        forall|i: int| 0 <= i < field.len() ==> #[trigger] field[i] != ' ',
    ensures
        chars::split_first(field + " = "@ + rest, " = "@) == Some((field, rest)),
{
    let mark = " = "@;
    let line = field + mark + rest;
    reveal_strlit(" = ");
    let at = field.len() as int;
    assert(line.subrange(at, at + mark.len()) =~= mark);
    chars::first_matches_come_first(line, mark, at);
    chars::first_match_bounds(line, mark);
    let first = chars::first_match(line, mark)->0;
    if first < at {
        assert(line.subrange(first, first + mark.len())[0] == mark[0]);
        assert(field[first] == ' ');
    }
    assert(line.take(at) =~= field);
    assert(line.skip(at + mark.len()) =~= rest);
}

proof fn last_separators_stand_before_origins(value: Seq<char>, origin: Seq<char>)
    requires
        forall|i: int| 0 <= i < origin.len() ==> #[trigger] origin[i] != '#',
    ensures
        chars::split_last(value + " # "@ + origin, " # "@) == Some((value, origin)),
{
    let mark = " # "@;
    let line = value + mark + origin;
    reveal_strlit(" # ");
    let at = value.len() as int;
    assert(line.subrange(at, at + mark.len()) =~= mark);
    chars::last_matches_come_last(line, mark, at);
    chars::last_match_bounds(line, mark);
    let last = chars::last_match(line, mark)->0;
    if last > at {
        assert(line.subrange(last, last + mark.len())[1] == mark[1]);
        assert(line[last + 1] == '#');
        if last == at + 1 {
            assert(line[at + 2] == mark[2]);
        } else {
            assert(line[last + 1] == origin[last + 1 - at - 3]);
        }
    }
    assert(line.take(at) =~= value);
    assert(line.skip(at + mark.len()) =~= origin);
}

/// A line that assigns a program sets it to the decoded value, resolved against the base of its
/// origin. A line without an origin is refused.
pub proof fn lines_set_their_program(
    configuration: CargoConfigurationData,
    field: Seq<char>,
    value: Seq<char>,
    origin: Seq<char>,
    root: Seq<char>,
)
    requires
        field == "build.rustc"@ || field == "build.rustc-wrapper"@ || field
            == "build.rustc-workspace-wrapper"@,
        forall|i: int| 0 <= i < origin.len() ==> #[trigger] origin[i] != '#',
    ensures
        toolchain::with_line(
            configuration,
            field + " = "@ + (value + " # "@ + origin),
            root,
        ) == toolchain::with_value(
            configuration,
            field,
            crate::json::json_string(value),
            origin,
            root,
        ),
        toolchain::with_line(configuration, field + " = "@ + origin, root) == Err::<
            CargoConfigurationData,
            ErrorData,
        >(Failure::CompilerEnvironment { problem: EnvironmentProblem::NoOrigin { field } }),
{
    reveal_strlit("build.rustc");
    reveal_strlit("build.rustc-wrapper");
    reveal_strlit("build.rustc-workspace-wrapper");
    first_separators_stand_behind_fields(field, value + " # "@ + origin);
    first_separators_stand_behind_fields(field, origin);
    last_separators_stand_before_origins(value, origin);
    reveal_strlit(" # ");
    chars::last_match_bounds(origin, " # "@);
    if let Some(index) = chars::last_match(origin, " # "@) {
        assert(origin.subrange(index, index + 3)[1] == " # "@[1]);
        assert(origin[index + 1] == '#');
    }
}

/// A configuration without a build table sets no program. Any other failure of Cargo is reported
/// with its status and its output.
pub proof fn missing_tables_set_no_program(
    launched: Result<ProcessOutput, SourceError>,
    program: Seq<char>,
    root: Seq<char>,
)
    requires
        launched matches Ok(output) ==> !output.report.success,
    ensures
        match launched {
            Err(source) => toolchain::configuration_of(launched, program, root) == Err::<
                CargoConfigurationData,
                ErrorData,
            >(Failure::StartProcess { program, source }),
            Ok(output) => {
                let diagnostics = crate::text::lossy(output.stderr@);
                if chars::has(diagnostics, "config value `build` is not set"@) {
                    toolchain::configuration_of(launched, program, root) == Ok::<
                        CargoConfigurationData,
                        ErrorData,
                    >(
                        CargoConfigurationData {
                            rustc: None,
                            global_wrapper: None,
                            workspace_wrapper: None,
                        },
                    )
                } else {
                    toolchain::configuration_of(launched, program, root) == Err::<
                        CargoConfigurationData,
                        ErrorData,
                    >(
                        Failure::ProcessFailed {
                            program,
                            status: output.report.status@,
                            diagnostics,
                        },
                    )
                }
            },
        },
{
}

} // verus!

//! What a driver session does with its invocation and its source spans.

use super::arguments;
use super::arguments::{MarkerProblem, RemovalData, RemovalReply};
use super::invocation;
use super::invocation::{SessionEnd, SessionProblem};
use super::snapshots;
use super::snapshots::SpanFacts;
use super::wrapper;
use super::wrapper::WrapProblem;
use crate::paths;
use crate::records::SourceUnavailable;
use vstd::prelude::*;

verus! {

/// A span is available exactly if it belongs to an item of the crate that was neither synthesised
/// nor expanded, has its ends in order in one loaded, real file with a path in the package, starts
/// and ends between characters of the file, and has a line. It is then the bytes from its low to
/// its high position, counted from the start of the file, and its line is counted from one.
pub proof fn spans_are_available(facts: SpanFacts, root: Seq<char>)
    ensures
        snapshots::span_of(facts, root) is Ok <==> {
            let start = facts.low - facts.file.start;
            let end = facts.high - facts.file.start;
            &&& facts.local && facts.item && !facts.synthetic && !facts.expansion
            &&& !facts.dummy && facts.low <= facts.high && facts.same_file
            &&& facts.file.text is Some && facts.file.real && facts.file.has_path
            &&& facts.file.path is Some && facts.file.line is Some
            &&& paths::text_parts(root).is_prefix_of(paths::text_parts(facts.file.path->0@))
            &&& 0 <= start
            &&& vstd::utf8::is_char_boundary(
                vstd::utf8::encode_utf8(facts.file.text->0@),
                start,
            )
            &&& vstd::utf8::is_char_boundary(vstd::utf8::encode_utf8(facts.file.text->0@), end)
        },
        snapshots::span_of(facts, root) matches Ok(span) ==> {
            &&& span.start == facts.low - facts.file.start
            &&& span.length == facts.high - facts.low
            &&& span.display_path == facts.file.path->0@
            &&& span.starting_line == facts.file.line->0 + 1
        },
{
}

/// A span is not available for a reason.
pub open spec fn refused(facts: SpanFacts, root: Seq<char>, reason: SourceUnavailable) -> bool {
    snapshots::span_of(facts, root) == Err::<snapshots::SpanData, SourceUnavailable>(reason)
}

/// A span that is not available has one reason: it is not of this crate, generated, not loaded,
/// outside the package, or unsupported, in this order of precedence.
pub proof fn missing_spans_have_a_reason(facts: SpanFacts, root: Seq<char>)
    ensures
        !facts.local ==> refused(facts, root, SourceUnavailable::Nonlocal),
        facts.local && (!facts.item || facts.synthetic || facts.expansion) ==> refused(facts, root, SourceUnavailable::Generated),
        ({
            let plain = facts.local && facts.item && !facts.synthetic && !facts.expansion;
            let placed = plain && !facts.dummy && facts.low <= facts.high && facts.same_file;
            &&& plain && !placed ==> refused(facts, root, SourceUnavailable::UnsupportedSpan)
            &&& placed && facts.file.text is None ==> refused(facts, root, SourceUnavailable::Unloaded)
            &&& placed && facts.file.text is Some && !facts.file.real ==> refused(facts, root, SourceUnavailable::Generated)
            &&& placed && facts.file.text is Some && facts.file.real && !facts.file.has_path
                ==> refused(facts, root, SourceUnavailable::Unloaded)
            &&& placed && facts.file.text is Some && facts.file.real && facts.file.has_path
                && facts.file.path is Some && !paths::text_parts(root).is_prefix_of(
                paths::text_parts(facts.file.path->0@),
            ) ==> refused(facts, root, SourceUnavailable::OutsidePackage)
        }),
{
}

/// An invocation enters the driver exactly if the marker stands among its arguments. The driver
/// then gets them without the first marker; any other invocation runs as it is.
pub proof fn marked_invocations_enter_the_driver(
    arguments: Seq<Seq<char>>,
    marker: Seq<char>,
    driver: Seq<char>,
)
    requires
        arguments.len() > 0,
    ensures
        !arguments.contains(marker) ==> (wrapper::wrapped(arguments, Some(marker), Ok(driver))
            matches Ok(command) && !command.inner && seq![command.program] + command.arguments
            == arguments),
        forall|i: int|
            0 <= i < arguments.len() && #[trigger] arguments[i] == marker && (forall|j: int|
                0 <= j < i ==> #[trigger] arguments[j] != marker) ==> (wrapper::wrapped(
                arguments,
                Some(marker),
                Ok(driver),
            ) matches Ok(command) && command.inner && command.program == driver
                && command.arguments == arguments.remove(i)),
{
    marker_indices(arguments, marker);
    let index = wrapper::marker_index(arguments, marker);
    assert(seq![arguments[0]] + arguments.skip(1) =~= arguments);
    if index < arguments.len() {
        assert(arguments.contains(marker));
    }
}

proof fn marker_indices(arguments: Seq<Seq<char>>, marker: Seq<char>)
    ensures
        0 <= wrapper::marker_index(arguments, marker) <= arguments.len(),
        wrapper::marker_index(arguments, marker) < arguments.len()
            ==> arguments[wrapper::marker_index(arguments, marker)] == marker,
        forall|j: int|
            0 <= j < wrapper::marker_index(arguments, marker) ==> #[trigger] arguments[j]
                != marker,
    decreases arguments.len(),
{
    if arguments.len() > 0 && arguments[0] != marker {
        let tail = arguments.skip(1);
        marker_indices(tail, marker);
        assert forall|j: int| 0 <= j < wrapper::marker_index(arguments, marker) implies
            #[trigger] arguments[j] != marker by {
            if j > 0 {
                assert(tail[j - 1] == arguments[j]);
            }
        }
    }
}

/// A wrapper without a compiler or without a marker is refused, and a marked invocation without a
/// driver too.
pub proof fn incomplete_wrappers_are_refused(
    arguments: Seq<Seq<char>>,
    marker: Option<Seq<char>>,
    driver: Result<Seq<char>, Seq<char>>,
)
    ensures
        arguments.len() == 0 ==> (wrapper::wrapped(arguments, marker, driver) matches Err(
            WrapProblem::NoCompiler,
        )),
        arguments.len() > 0 && marker is None ==> (wrapper::wrapped(arguments, marker, driver)
            matches Err(WrapProblem::NoMarker)),
        arguments.len() > 0 && driver is Err && (marker matches Some(text) && arguments.contains(
            text,
        )) ==> (wrapper::wrapped(arguments, marker, driver) matches Err(
            WrapProblem::NoDriver { problem },
        ) && problem == driver->Err_0),
{
    if let Some(text) = marker {
        marker_indices(arguments, text);
    }
}

/// A session starts exactly if all its arguments are readable, there is one, and the manifest has
/// a path. It then runs with these arguments.
pub proof fn sessions_keep_their_arguments(
    list: Seq<Option<String>>,
    manifest: Option<Seq<char>>,
)
    ensures
        invocation::invocation_of(list, manifest) is Ok <==> {
            &&& forall|i: int| 0 <= i < list.len() ==> #[trigger] list[i] is Some
            &&& list.len() > 0
            &&& manifest is Some
        },
        invocation::invocation_of(list, manifest) matches Ok(started) ==> {
            &&& started.manifest_path == manifest->0
            &&& started.arguments.len() == list.len()
            &&& forall|i: int| #![trigger started.arguments[i]]
                0 <= i < list.len() ==> started.arguments[i] == list[i]->0@
        },
        (exists|i: int| 0 <= i < list.len() && #[trigger] list[i] is None) ==> (
        invocation::invocation_of(list, manifest) matches Err(SessionProblem::Argument)),
        list.len() == 0 ==> (invocation::invocation_of(list, manifest) matches Err(
            SessionProblem::NoCompiler,
        )),
{
}

/// A session is complete exactly if the compiler succeeded and the analysis was written. A compiler
/// failure comes before a failure to write, and without an analysis a success stays one.
pub proof fn sessions_end(
    compiled: bool,
    analysis: Option<Result<(), String>>,
    path: Seq<char>,
)
    ensures
        invocation::session_end(compiled, analysis, path) == SessionEnd::<Seq<char>>::Complete
            <==> compiled && (analysis matches Some(Ok(()))),
        invocation::session_end(compiled, analysis, path) == SessionEnd::<Seq<char>>::Compiler
            <==> !compiled,
        invocation::session_end(compiled, analysis, path) == SessionEnd::<Seq<char>>::Success
            <==> compiled && analysis is None,
        compiled ==> (analysis matches Some(Err(text)) ==> invocation::session_end(
            compiled,
            analysis,
            path,
        ) == SessionEnd::Failure(SessionProblem::Write { path, problem: text@ })),
{
}

/// An argument names a response file exactly if it starts with `@` and not with `@shell:`. The path
/// is what follows the sign.
pub proof fn response_files_are_named(argument: Seq<char>, path: Seq<char>)
    ensures
        arguments::response_path(argument) == Some(path) <==> argument == "@"@ + path
            && !"shell:"@.is_prefix_of(path),
{
    reveal_strlit("@");
    let sign = "@"@;
    if sign.is_prefix_of(argument) {
        assert(argument =~= sign + argument.skip(1)) by {
            assert(argument.subrange(0, 1)[0] == '@');
        }
    }
    assert((sign + path).subrange(0, 1) =~= sign);
    assert((sign + path).skip(1) =~= path);
}

/// A line of a response file is its text without its ending, which is a line feed, alone or behind
/// a carriage return.
pub proof fn response_lines_lose_their_ending(text: Seq<char>)
    requires
        text.len() > 0 ==> text.last() != '\n' && text.last() != '\r',
    ensures
        arguments::argument_of(text) == text,
        arguments::argument_of(text + seq!['\n']) == text,
        arguments::argument_of(text + seq!['\r', '\n']) == text,
{
    assert((text + seq!['\n']).drop_last() =~= text);
    assert((text + seq!['\r', '\n']).drop_last() =~= text + seq!['\r']);
    assert((text + seq!['\r']).drop_last() =~= text);
}

/// Without response files, a marker that stands there once is taken out and selects the invocation.
/// Without a marker nothing changes, and a repeated one is refused.
pub proof fn single_markers_are_taken_out(list: Seq<Seq<char>>, marker: Seq<char>)
    requires
        list.len() < usize::MAX,
        forall|i: int|
            0 <= i < list.len() ==> arguments::response_path(#[trigger] list[i]) is None,
    ensures
        !list.contains(marker) ==> arguments::removal_from(list, 0, 0, marker) == Ok::<
            RemovalData,
            MarkerProblem<Seq<char>>,
        >(RemovalData::Done { arguments: list, selected: false }),
        forall|at: int|
            0 <= at < list.len() && #[trigger] list[at] == marker && !list.remove(at).contains(
                marker,
            ) ==> arguments::removal_from(list, 0, 0, marker) == Ok::<
                RemovalData,
                MarkerProblem<Seq<char>>,
            >(RemovalData::Done { arguments: list.remove(at), selected: true }),
        forall|at: int|
            0 <= at < list.len() && #[trigger] list[at] == marker && list.remove(at).contains(
                marker,
            ) ==> arguments::removal_from(list, 0, 0, marker) is Err,
{
    if !list.contains(marker) {
        unmarked_tails_pass(list, 0, 0, marker);
        unmarked_lists_stay(list, marker);
    }
    assert forall|at: int|
        0 <= at < list.len() && #[trigger] list[at] == marker && !list.remove(at).contains(
            marker,
        ) implies arguments::removal_from(list, 0, 0, marker) == Ok::<
        RemovalData,
        MarkerProblem<Seq<char>>,
    >(RemovalData::Done { arguments: list.remove(at), selected: true }) by {
        assert forall|j: int| 0 <= j < list.len() && j != at implies #[trigger] list[j]
            != marker by {
            if j < at {
                assert(list.remove(at)[j] == list[j]);
            } else {
                assert(list.remove(at)[j - 1] == list[j]);
            }
        }
        unmarked_starts_pass(list, 0, at, marker);
        unmarked_tails_pass(list, at + 1, 1, marker);
        one_marker_goes(list, at, marker);
    }
    assert forall|at: int|
        0 <= at < list.len() && #[trigger] list[at] == marker && list.remove(at).contains(
            marker,
        ) implies arguments::removal_from(list, 0, 0, marker) is Err by {
        let k = choose|k: int|
            0 <= k < list.remove(at).len() && list.remove(at)[k] == marker;
        let other = if k < at {
            k
        } else {
            k + 1
        };
        assert(list[other] == marker && other != at);
        let low = if other < at {
            other
        } else {
            at
        };
        let high = if other < at {
            at
        } else {
            other
        };
        two_markers_fail(list, 0, low, high, 0, marker);
    }
}

proof fn unmarked_starts_pass(list: Seq<Seq<char>>, index: int, at: int, marker: Seq<char>)
    requires
        0 <= index <= at < list.len(),
        list[at] == marker,
        forall|j: int| index <= j < at ==> #[trigger] list[j] != marker,
        forall|i: int|
            0 <= i < list.len() ==> arguments::response_path(#[trigger] list[i]) is None,
    ensures
        arguments::removal_from(list, index, 0, marker) == arguments::removal_from(
            list,
            at + 1,
            1,
            marker,
        ),
    decreases at - index,
{
    if index < at {
        assert(list[index] != marker);
        unmarked_starts_pass(list, index + 1, at, marker);
    }
}

proof fn unmarked_tails_pass(list: Seq<Seq<char>>, index: int, count: usize, marker: Seq<char>)
    requires
        0 <= index <= list.len(),
        count <= 1,
        forall|j: int| index <= j < list.len() ==> #[trigger] list[j] != marker,
        forall|i: int|
            0 <= i < list.len() ==> arguments::response_path(#[trigger] list[i]) is None,
    ensures
        arguments::removal_from(list, index, count, marker) == Ok::<
            RemovalData,
            MarkerProblem<Seq<char>>,
        >(
            RemovalData::Done {
                arguments: arguments::without(list, marker),
                selected: count == 1,
            },
        ),
    decreases list.len() - index,
{
    if index < list.len() {
        assert(list[index] != marker);
        unmarked_tails_pass(list, index + 1, count, marker);
    }
}

proof fn two_markers_fail(
    list: Seq<Seq<char>>,
    index: int,
    low: int,
    high: int,
    count: usize,
    marker: Seq<char>,
)
    requires
        0 <= index,
        0 <= low < high < list.len(),
        list[low] == marker,
        list[high] == marker,
        count <= 1,
        index <= low || (count == 1 && index <= high),
        forall|i: int|
            0 <= i < list.len() ==> arguments::response_path(#[trigger] list[i]) is None,
    ensures
        arguments::removal_from(list, index, count, marker) is Err,
    decreases list.len() - index,
{
    reveal_with_fuel(arguments::removal_from, 2);
    if list[index] == marker {
        if count == 0 {
            two_markers_fail(list, index + 1, low, high, 1, marker);
        }
    } else {
        two_markers_fail(list, index + 1, low, high, count, marker);
    }
}

proof fn unmarked_lists_stay(list: Seq<Seq<char>>, marker: Seq<char>)
    requires
        !list.contains(marker),
    ensures
        arguments::without(list, marker) == list,
    decreases list.len(),
{
    if list.len() > 0 {
        let start = list.drop_last();
        assert(list.contains(list.last()));
        assert forall|i: int| 0 <= i < start.len() implies start[i] != marker by {
            assert(start[i] == list[i]);
            assert(list.contains(list[i]));
        }
        unmarked_lists_stay(start, marker);
        assert(start.push(list.last()) =~= list);
    } else {
        assert(arguments::without(list, marker) =~= list);
    }
}

proof fn one_marker_goes(list: Seq<Seq<char>>, at: int, marker: Seq<char>)
    requires
        0 <= at < list.len(),
        list[at] == marker,
        forall|j: int| 0 <= j < list.len() && j != at ==> #[trigger] list[j] != marker,
    ensures
        arguments::without(list, marker) == list.remove(at),
    decreases list.len(),
{
    let start = list.drop_last();
    if at == list.len() - 1 {
        assert forall|i: int| 0 <= i < start.len() implies start[i] != marker by {
            assert(start[i] == list[i]);
        }
        unmarked_lists_stay(start, marker);
        assert(start =~= list.remove(at));
    } else {
        assert forall|j: int| 0 <= j < start.len() && j != at implies #[trigger] start[j]
            != marker by {
            assert(start[j] == list[j]);
        }
        one_marker_goes(start, at, marker);
        assert(list.last() == list[list.len() - 1]);
        assert(start.remove(at).push(list.last()) =~= list.remove(at));
    }
}

/// A response file that cannot be read is reported under its own path. One without the marker stays
/// as it is. One with the marker is written anew without it, and stands in the place of the old one
/// as one occurrence of the marker.
pub proof fn response_files_are_filtered(
    marker: Seq<char>,
    directory: Seq<char>,
    process: u32,
    list: Seq<Seq<char>>,
    index: usize,
    count: usize,
    path: Seq<char>,
    filtered: Seq<char>,
    reply: RemovalReply,
)
    requires
        index < list.len(),
        list[index as int] == "@"@ + path,
        count < usize::MAX,
        !"shell:"@.is_prefix_of(path),
    ensures
        ({
            let written = paths::joined(
                directory,
                "optic-rustc-arguments-"@ + crate::text::decimal(process as nat) + "-"@
                    + crate::text::decimal(index as nat) + ".rsp"@,
            );
            match reply {
                RemovalReply::Contents(contents) => {
                    let after = arguments::removal_after(
                        marker,
                        directory,
                        process,
                        RemovalData::Read { arguments: list, index, count },
                        reply,
                    );
                    match contents {
                        Err(problem) => after == Err::<RemovalData, MarkerProblem<Seq<char>>>(
                            MarkerProblem::Unreadable { path, problem: problem@ },
                        ),
                        Ok(text) => {
                            let pieces = crate::chars::pieces(text@);
                            &&& arguments::dropped(pieces, marker) == 0 ==> after
                                == arguments::removal_from(list, index + 1, count, marker)
                            &&& arguments::dropped(pieces, marker) == 1 ==> after == Ok::<
                                RemovalData,
                                MarkerProblem<Seq<char>>,
                            >(
                                RemovalData::Write {
                                    arguments: list,
                                    index,
                                    count,
                                    contents: arguments::kept(pieces, marker),
                                },
                            )
                        },
                    }
                },
                RemovalReply::Wrote(wrote) => {
                    let after = arguments::removal_after(
                        marker,
                        directory,
                        process,
                        RemovalData::Write { arguments: list, index, count, contents: filtered },
                        reply,
                    );
                    match wrote {
                        Err(problem) => after == Err::<RemovalData, MarkerProblem<Seq<char>>>(
                            MarkerProblem::Unwritable { path: written, problem: problem@ },
                        ),
                        Ok(()) => after == arguments::removal_from(
                            list.update(index as int, "@"@ + written),
                            index + 1,
                            (count + 1) as usize,
                            marker,
                        ),
                    }
                },
            }
        }),
{
    reveal_strlit("@");
    let argument = "@"@ + path;
    assert(argument.subrange(0, 1) =~= "@"@);
    assert(argument.skip(1) =~= path);
    assert(arguments::response_path(argument) == Some(path));
}

} // verus!

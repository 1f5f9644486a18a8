//! Removes the selected-target marker without expanding a compact compiler command line.
//!
//! Cargo can place compiler arguments in a UTF-8 response file when the direct command line would
//! exceed the operating-system limit. Ordinary line-based response files are copied without the
//! private marker, and every other argument stays unchanged. Shell-style response files pass through
//! because the compiler owns their parsing.

use crate::chars;
use crate::chars::{
    chars_of, head, push_text, split_pieces, starts_with, strip_prefix, text_of, views_push,
};
use crate::paths;
use crate::paths::join;
use crate::text::{push_decimal, same_text};
use vstd::prelude::*;
use vstd::string::StringExecFns;

verus! {

/// The argument on a line of a response file.
pub open spec fn argument_of(piece: Seq<char>) -> Seq<char> {
    let line = if piece.len() > 0 && piece.last() == '\n' {
        piece.drop_last()
    } else {
        piece
    };
    if line.len() > 0 && line.last() == '\r' {
        line.drop_last()
    } else {
        line
    }
}

fn argument_on(piece: &str) -> (result: String)
    ensures
        result@ == argument_of(piece@),
{
    let chars = chars_of(piece);
    let mut end: usize = chars.len();
    if end > 0 && chars[end - 1] == '\n' {
        end -= 1;
    }
    if end > 0 && chars[end - 1] == '\r' {
        end -= 1;
    }
    let result = text_of(head(chars.as_slice(), end));
    assert(result@ =~= argument_of(piece@));
    result
}

/// The lines that are kept, one behind the other.
pub open spec fn kept(pieces: Seq<Seq<char>>, marker: Seq<char>) -> Seq<char>
    decreases pieces.len(),
{
    if pieces.len() == 0 {
        Seq::empty()
    } else if argument_of(pieces.last()) == marker {
        kept(pieces.drop_last(), marker)
    } else {
        kept(pieces.drop_last(), marker) + pieces.last()
    }
}

/// The number of lines that are not kept.
pub open spec fn dropped(pieces: Seq<Seq<char>>, marker: Seq<char>) -> nat
    decreases pieces.len(),
{
    if pieces.len() == 0 {
        0
    } else if argument_of(pieces.last()) == marker {
        dropped(pieces.drop_last(), marker) + 1
    } else {
        dropped(pieces.drop_last(), marker)
    }
}

/// Removes the lines that hold the marker, and counts them.
pub fn filter_response_file(contents: &str, marker: &str) -> (result: (String, usize))
    ensures
        result.0@ == kept(chars::pieces(contents@), marker@),
        result.1 == dropped(chars::pieces(contents@), marker@),
{
    let list = split_pieces(contents);
    let ghost all = chars::pieces(contents@);
    let mut filtered = String::from_str("");
    let mut count: usize = 0;
    let mut index: usize = 0;
    proof {
        reveal_strlit("");
        assert(all.take(0) =~= Seq::<Seq<char>>::empty());
        assert(filtered@ =~= kept(all.take(0), marker@));
    }
    while index < list.len()
        invariant
            index <= list@.len(),
            all == chars::views(list@),
            all.len() == list@.len(),
            filtered@ == kept(all.take(index as int), marker@),
            count == dropped(all.take(index as int), marker@),
            count <= index,
        decreases list.len() - index,
    {
        proof {
            assert(all[index as int] == list@[index as int]@);
            assert(all.take(index + 1).drop_last() =~= all.take(index as int));
        }
        let argument = argument_on(list[index].as_str());
        if same_text(argument.as_str(), marker) {
            count += 1;
        } else {
            push_text(&mut filtered, list[index].as_str());
        }
        index += 1;
    }
    assert(all.take(all.len() as int) =~= all);
    (filtered, count)
}

/// The path of an ordinary response file that an argument names.
pub open spec fn response_path(argument: Seq<char>) -> Option<Seq<char>> {
    match chars::behind(argument, "@"@) {
        None => None,
        Some(path) => if chars::behind(path, "shell:"@) is Some {
            None
        } else {
            Some(path)
        },
    }
}

/// Returns the path of an ordinary response file that an argument names.
pub fn response_file_path(argument: &str) -> (result: Option<String>)
    ensures
        chars::option_view(result) == response_path(argument@),
{
    match strip_prefix(argument, "@") {
        None => None,
        Some(path) => if starts_with(path.as_str(), "shell:") {
            None
        } else {
            Some(path)
        },
    }
}

/// Why the marker could not be removed. The parameter is a type of text.
#[derive(Debug)]
pub enum MarkerProblem<S> {
    /// The marker occurs more than once.
    Repeated {
        /// The number of markers.
        count: usize,
    },
    /// A response file cannot be read.
    Unreadable {
        /// The response file.
        path: S,
        /// What went wrong.
        problem: S,
    },
    /// A filtered response file cannot be written.
    Unwritable {
        /// The filtered response file.
        path: S,
        /// What went wrong.
        problem: S,
    },
}

/// The mathematical counterpart of a problem.
pub type MarkerProblemData = MarkerProblem<Seq<char>>;

impl View for MarkerProblem<String> {
    type V = MarkerProblemData;

    open spec fn view(&self) -> MarkerProblemData {
        match self {
            MarkerProblem::Repeated { count } => MarkerProblem::Repeated { count: *count },
            MarkerProblem::Unreadable { path, problem } => MarkerProblem::Unreadable {
                path: path@,
                problem: problem@,
            },
            MarkerProblem::Unwritable { path, problem } => MarkerProblem::Unwritable {
                path: path@,
                problem: problem@,
            },
        }
    }
}

/// The sentence that describes a problem.
pub open spec fn sentence(problem: MarkerProblemData) -> Seq<char> {
    match problem {
        MarkerProblem::Repeated { count } =>
            "selected-target marker must appear at most once, got "@ + crate::text::decimal(
            count as nat,
        ),
        MarkerProblem::Unreadable { path, problem } =>
            "rustc response file must be readable UTF-8 at "@ + path + ", got "@ + problem,
        MarkerProblem::Unwritable { path, problem } =>
            "filtered rustc response file must be writable at "@ + path + ", got "@ + problem,
    }
}

impl MarkerProblem<String> {
    /// Describes the problem.
    pub fn message(&self) -> (result: String)
        ensures
            result@ == sentence(self@),
    {
        match self {
            MarkerProblem::Repeated { count } => {
                let mut text = String::from_str(
                    "selected-target marker must appear at most once, got ",
                );
                push_decimal(&mut text, *count as u64);
                text
            },
            MarkerProblem::Unreadable { path, problem } => {
                let mut text = String::from_str("rustc response file must be readable UTF-8 at ");
                text.append(path.as_str());
                text.append(", got ");
                text.append(problem.as_str());
                text
            },
            MarkerProblem::Unwritable { path, problem } => {
                let mut text = String::from_str(
                    "filtered rustc response file must be writable at ",
                );
                text.append(path.as_str());
                text.append(", got ");
                text.append(problem.as_str());
                text
            },
        }
    }
}

/// The arguments without the marker.
pub open spec fn without(arguments: Seq<Seq<char>>, marker: Seq<char>) -> Seq<Seq<char>>
    decreases arguments.len(),
{
    if arguments.len() == 0 {
        Seq::empty()
    } else if arguments.last() == marker {
        without(arguments.drop_last(), marker)
    } else {
        without(arguments.drop_last(), marker).push(arguments.last())
    }
}

/// The path of the filtered copy of a response file.
pub open spec fn filtered_path(directory: Seq<char>, process: u32, index: usize) -> Seq<char> {
    paths::joined(
        directory,
        "optic-rustc-arguments-"@ + crate::text::decimal(process as nat) + "-"@
            + crate::text::decimal(index as nat) + ".rsp"@,
    )
}

/// Returns the path of the filtered copy of a response file.
pub fn filtered_file(directory: &str, process: u32, index: usize) -> (result: String)
    ensures
        result@ == filtered_path(directory@, process, index),
{
    let mut name = String::from_str("optic-rustc-arguments-");
    push_decimal(&mut name, process as u64);
    name.append("-");
    push_decimal(&mut name, index as u64);
    name.append(".rsp");
    join(directory, name.as_str())
}

/// How far the removal of a marker has come.
#[derive(Debug)]
pub enum MarkerRemoval {
    /// The response file at an index is read. So many markers were found before.
    Read {
        /// The arguments.
        arguments: Vec<String>,
        /// The index of the argument.
        index: usize,
        /// The number of markers.
        count: usize,
    },
    /// The filtered copy of the response file at an index is written.
    Write {
        /// The arguments.
        arguments: Vec<String>,
        /// The index of the argument.
        index: usize,
        /// The number of markers before this file.
        count: usize,
        /// The filtered contents.
        contents: String,
    },
    /// Nothing is left to do.
    Done {
        /// The arguments without the marker.
        arguments: Vec<String>,
        /// There was a marker.
        selected: bool,
    },
}

/// The mathematical counterpart of [`MarkerRemoval`].
pub enum RemovalData {
    /// The response file at an index is read.
    Read {
        /// The arguments.
        arguments: Seq<Seq<char>>,
        /// The index of the argument.
        index: usize,
        /// The number of markers.
        count: usize,
    },
    /// The filtered copy of the response file at an index is written.
    Write {
        /// The arguments.
        arguments: Seq<Seq<char>>,
        /// The index of the argument.
        index: usize,
        /// The number of markers before this file.
        count: usize,
        /// The filtered contents.
        contents: Seq<char>,
    },
    /// Nothing is left to do.
    Done {
        /// The arguments without the marker.
        arguments: Seq<Seq<char>>,
        /// There was a marker.
        selected: bool,
    },
}

impl View for MarkerRemoval {
    type V = RemovalData;

    open spec fn view(&self) -> RemovalData {
        match self {
            MarkerRemoval::Read { arguments, index, count } => RemovalData::Read {
                arguments: chars::views(arguments@),
                index: *index,
                count: *count,
            },
            MarkerRemoval::Write { arguments, index, count, contents } => RemovalData::Write {
                arguments: chars::views(arguments@),
                index: *index,
                count: *count,
                contents: contents@,
            },
            MarkerRemoval::Done { arguments, selected } => RemovalData::Done {
                arguments: chars::views(arguments@),
                selected: *selected,
            },
        }
    }
}

/// The sum of two counts, at most the largest one.
pub open spec fn capped(count: usize, more: usize) -> usize {
    if count + more > usize::MAX {
        usize::MAX
    } else {
        (count + more) as usize
    }
}

/// The removal that looks at the arguments from an index.
pub open spec fn removal_from(
    arguments: Seq<Seq<char>>,
    index: int,
    count: usize,
    marker: Seq<char>,
) -> Result<RemovalData, MarkerProblemData>
    decreases arguments.len() - index,
{
    if count > 1 {
        Err(MarkerProblem::Repeated { count })
    } else if index < 0 || index >= arguments.len() {
        Ok(RemovalData::Done { arguments: without(arguments, marker), selected: count == 1 })
    } else if arguments[index] == marker {
        removal_from(arguments, index + 1, capped(count, 1), marker)
    } else if response_path(arguments[index]) is Some {
        Ok(RemovalData::Read { arguments, index: index as usize, count })
    } else {
        removal_from(arguments, index + 1, count, marker)
    }
}

/// A removal or a problem agrees with the expected one.
pub open spec fn removal_agrees(
    result: Result<MarkerRemoval, MarkerProblem<String>>,
    expected: Result<RemovalData, MarkerProblemData>,
) -> bool {
    match (result, expected) {
        (Ok(state), Ok(meant)) => state@ == meant,
        (Err(problem), Err(meant)) => problem@ == meant,
        _ => false,
    }
}

fn retain_others(arguments: &Vec<String>, marker: &str) -> (result: Vec<String>)
    ensures
        chars::views(result@) == without(chars::views(arguments@), marker@),
{
    let ghost all = chars::views(arguments@);
    let mut result: Vec<String> = Vec::new();
    let mut index: usize = 0;
    proof {
        assert(all.take(0) =~= Seq::<Seq<char>>::empty());
        assert(chars::views(result@) =~= without(all.take(0), marker@));
    }
    while index < arguments.len()
        invariant
            index <= arguments@.len(),
            all == chars::views(arguments@),
            chars::views(result@) == without(all.take(index as int), marker@),
        decreases arguments.len() - index,
    {
        proof {
            assert(all[index as int] == arguments@[index as int]@);
            assert(all.take(index + 1).drop_last() =~= all.take(index as int));
        }
        if !same_text(arguments[index].as_str(), marker) {
            let argument = arguments[index].clone();
            let ghost before = result@;
            result.push(argument);
            proof {
                views_push(before, argument);
            }
        }
        index += 1;
    }
    assert(all.take(all.len() as int) =~= all);
    result
}

fn look_from(arguments: Vec<String>, start: usize, found: usize, marker: &str) -> (result: Result<
    MarkerRemoval,
    MarkerProblem<String>,
>)
    ensures
        removal_agrees(
            result,
            removal_from(chars::views(arguments@), start as int, found, marker@),
        ),
{
    let ghost all = chars::views(arguments@);
    let mut index: usize = start;
    let mut count: usize = found;
    while index < arguments.len()
        invariant
            all == chars::views(arguments@),
            all.len() == arguments@.len(),
            removal_from(all, start as int, found, marker@) == removal_from(
                all,
                index as int,
                count,
                marker@,
            ),
        decreases arguments.len() - index,
    {
        if count > 1 {
            return Err(MarkerProblem::Repeated { count });
        }
        assert(all[index as int] == arguments@[index as int]@);
        if same_text(arguments[index].as_str(), marker) {
            count = count + 1;
        } else if response_file_path(arguments[index].as_str()).is_some() {
            return Ok(MarkerRemoval::Read { arguments, index, count });
        }
        index += 1;
    }
    if count > 1 {
        return Err(MarkerProblem::Repeated { count });
    }
    Ok(
        MarkerRemoval::Done {
            arguments: retain_others(&arguments, marker),
            selected: count == 1,
        },
    )
}

/// What an outside step of a removal gave.
pub enum RemovalReply {
    /// A response file was read, or why it was not.
    Contents(Result<String, String>),
    /// A filtered copy was written, or why it was not.
    Wrote(Result<(), String>),
}

/// The removal behind a reply. Another reply changes nothing.
pub open spec fn removal_after(
    marker: Seq<char>,
    directory: Seq<char>,
    process: u32,
    state: RemovalData,
    reply: RemovalReply,
) -> Result<RemovalData, MarkerProblemData> {
    match (state, reply) {
        (RemovalData::Read { arguments, index, count }, RemovalReply::Contents(contents)) => match
            contents {
            Err(problem) => Err(
                MarkerProblem::Unreadable {
                    path: response_path(arguments[index as int])->Some_0,
                    problem: problem@,
                },
            ),
            Ok(contents) => {
                let pieces = chars::pieces(contents@);
                if dropped(pieces, marker) == 1 {
                    Ok(
                        RemovalData::Write {
                            arguments,
                            index,
                            count,
                            contents: kept(pieces, marker),
                        },
                    )
                } else {
                    removal_from(
                        arguments,
                        index + 1,
                        capped(count, dropped(pieces, marker) as usize),
                        marker,
                    )
                }
            },
        },
        (RemovalData::Write { arguments, index, count, .. }, RemovalReply::Wrote(wrote)) => match
            wrote {
            Err(problem) => Err(
                MarkerProblem::Unwritable {
                    path: filtered_path(directory, process, index),
                    problem: problem@,
                },
            ),
            Ok(()) => removal_from(
                arguments.update(index as int, "@"@ + filtered_path(directory, process, index)),
                index + 1,
                capped(count, 1),
                marker,
            ),
        },
        _ => Ok(state),
    }
}

/// The removal that looks for the marker waits at an argument that it has.
pub open spec fn in_range(state: RemovalData) -> bool {
    match state {
        RemovalData::Read { arguments, index, .. } => {
            &&& index < arguments.len()
            &&& response_path(arguments[index as int]) is Some
        },
        RemovalData::Write { arguments, index, .. } => index < arguments.len(),
        RemovalData::Done { .. } => true,
    }
}

proof fn looks_stay_in_range(
    arguments: Seq<Seq<char>>,
    index: int,
    count: usize,
    marker: Seq<char>,
)
    requires
        arguments.len() <= usize::MAX,
    ensures
        removal_from(arguments, index, count, marker) matches Ok(state) ==> in_range(state),
    decreases arguments.len() - index,
{
    if count <= 1 && 0 <= index < arguments.len() {
        looks_stay_in_range(arguments, index + 1, capped(count, 1), marker);
        looks_stay_in_range(arguments, index + 1, count, marker);
    }
}

/// Starts to look for the marker.
pub fn remove_selected_target_marker(arguments: Vec<String>, marker: &str) -> (result: Result<
    MarkerRemoval,
    MarkerProblem<String>,
>)
    ensures
        removal_agrees(result, removal_from(chars::views(arguments@), 0, 0, marker@)),
        result matches Ok(state) ==> in_range(state@),
{
    let count: usize = arguments.len();
    proof {
        assert(chars::views(arguments@).len() == count);
        looks_stay_in_range(chars::views(arguments@), 0, 0, marker@);
    }
    look_from(arguments, 0, 0, marker)
}

impl MarkerRemoval {
    /// Takes the reply to the outside step that the removal waits for.
    pub fn proceed(self, marker: &str, directory: &str, process: u32, reply: RemovalReply) -> (result:
        Result<Self, MarkerProblem<String>>)
        requires
            in_range(self@),
        ensures
            removal_agrees(
                result,
                removal_after(marker@, directory@, process, self@, reply),
            ),
            result matches Ok(state) ==> in_range(state@),
    {
        match (self, reply) {
            (
                MarkerRemoval::Read { arguments, index, count },
                RemovalReply::Contents(contents),
            ) => {
                let ghost all = chars::views(arguments@);
                assert(all[index as int] == arguments@[index as int]@);
                match contents {
                    Err(problem) => {
                        let path = match response_file_path(arguments[index].as_str()) {
                            Some(path) => path,
                            None => arguments[index].clone(),
                        };
                        Err(MarkerProblem::Unreadable { path, problem })
                    },
                    Ok(contents) => {
                        let (filtered, found) = filter_response_file(contents.as_str(), marker);
                        if found == 1 {
                            Ok(
                                MarkerRemoval::Write {
                                    arguments,
                                    index,
                                    count,
                                    contents: filtered,
                                },
                            )
                        } else {
                            let total = count.saturating_add(found);
                            let length: usize = arguments.len();
                            proof {
                                assert(all.len() == length);
                                assert(total == capped(count, found));
                                looks_stay_in_range(all, index + 1, total, marker@);
                            }
                            look_from(arguments, index + 1, total, marker)
                        }
                    },
                }
            },
            (
                MarkerRemoval::Write { arguments, index, count, .. },
                RemovalReply::Wrote(wrote),
            ) => {
                let path = filtered_file(directory, process, index);
                match wrote {
                    Err(problem) => Err(MarkerProblem::Unwritable { path, problem }),
                    Ok(()) => {
                        let ghost all = chars::views(arguments@);
                        let mut argument = String::from_str("@");
                        argument.append(path.as_str());
                        let mut arguments = arguments;
                        let length: usize = arguments.len();
                        arguments.set(index, argument);
                        let total = count.saturating_add(1);
                        proof {
                            assert(chars::views(arguments@) =~= all.update(
                                index as int,
                                argument@,
                            ));
                            assert(all.len() == length);
                            assert(total == capped(count, 1));
                            looks_stay_in_range(
                                all.update(index as int, argument@),
                                index + 1,
                                total,
                                marker@,
                            );
                        }
                        look_from(arguments, index + 1, total, marker)
                    },
                }
            },
            (state, _) => Ok(state),
        }
    }
}

/// A piece is a line: only its last character can be a line feed.
pub open spec fn is_piece(piece: Seq<char>) -> bool {
    &&& piece.len() > 0
    &&& forall|i: int| 0 <= i < piece.len() - 1 ==> piece[i] != '\n'
}

proof fn first_piece_is_piece(text: Seq<char>)
    requires
        text.len() > 0,
    ensures
        is_piece(text.take(chars::piece_length(text))),
        0 < chars::piece_length(text) <= text.len(),
        chars::piece_length(text) < text.len() ==> text[chars::piece_length(text) - 1] == '\n',
    decreases text.len(),
{
    chars::piece_length_bounds(text);
    if text[0] != '\n' && text.len() > 1 {
        first_piece_is_piece(text.skip(1));
        let rest = text.skip(1);
        let piece = text.take(chars::piece_length(text));
        assert forall|i: int| 0 <= i < piece.len() - 1 implies piece[i] != '\n' by {
            if i > 0 {
                assert(piece[i] == rest.take(chars::piece_length(rest))[i - 1]);
            }
        }
    } else if text[0] != '\n' {
        assert(text.skip(1).len() == 0);
    }
}

proof fn piece_comes_first(piece: Seq<char>, rest: Seq<char>)
    requires
        is_piece(piece),
        rest.len() == 0 || piece.last() == '\n',
    ensures
        chars::piece_length(piece + rest) == piece.len(),
    decreases piece.len(),
{
    reveal_with_fuel(chars::piece_length, 2);
    let text = piece + rest;
    assert(text[0] == piece[0]);
    if piece.len() == 1 {
        if piece[0] != '\n' {
            assert(text.skip(1) =~= Seq::<char>::empty());
        }
    } else {
        let tail = piece.skip(1);
        assert(tail.last() == piece.last());
        assert forall|i: int| 0 <= i < tail.len() - 1 implies tail[i] != '\n' by {
            assert(tail[i] == piece[i + 1]);
        }
        piece_comes_first(tail, rest);
        assert(text.skip(1) =~= tail + rest);
    }
}

/// Pieces, of which only the last can lack its line feed.
pub open spec fn are_pieces(pieces: Seq<Seq<char>>) -> bool {
    &&& forall|i: int| 0 <= i < pieces.len() ==> is_piece(#[trigger] pieces[i])
    &&& forall|i: int|
        0 <= i < pieces.len() - 1 ==> (#[trigger] pieces[i]).last() == '\n'
}

/// Texts, one behind the other.
pub open spec fn concatenated(texts: Seq<Seq<char>>) -> Seq<char>
    decreases texts.len(),
{
    if texts.len() == 0 {
        Seq::empty()
    } else {
        texts[0] + concatenated(texts.skip(1))
    }
}

proof fn concatenations_end(texts: Seq<Seq<char>>)
    requires
        texts.len() > 0,
    ensures
        concatenated(texts) == concatenated(texts.drop_last()) + texts.last(),
    decreases texts.len(),
{
    reveal_with_fuel(concatenated, 2);
    if texts.len() == 1 {
        assert(texts.skip(1) =~= Seq::<Seq<char>>::empty());
        assert(texts.drop_last() =~= Seq::<Seq<char>>::empty());
        assert(concatenated(texts) =~= texts.last());
        assert(concatenated(texts.drop_last()) + texts.last() =~= texts.last());
    } else {
        concatenations_end(texts.skip(1));
        assert(texts.skip(1).drop_last() =~= texts.drop_last().skip(1));
        assert(texts.drop_last()[0] == texts[0]);
        assert(texts.skip(1).last() == texts.last());
        assert(texts[0] + (concatenated(texts.drop_last().skip(1)) + texts.last()) =~= (texts[0]
            + concatenated(texts.drop_last().skip(1))) + texts.last());
    }
}

proof fn texts_are_pieces(text: Seq<char>)
    ensures
        are_pieces(chars::pieces(text)),
        concatenated(chars::pieces(text)) == text,
    decreases text.len(),
{
    let pieces = chars::pieces(text);
    if text.len() > 0 {
        first_piece_is_piece(text);
        let length = chars::piece_length(text);
        let rest = text.skip(length);
        texts_are_pieces(rest);
        assert(pieces.skip(1) =~= chars::pieces(rest));
        assert(text.take(length) + rest =~= text);
        assert forall|i: int| 0 <= i < pieces.len() implies is_piece(#[trigger] pieces[i]) by {
            if i > 0 {
                assert(pieces[i] == chars::pieces(rest)[i - 1]);
            }
        }
        assert forall|i: int| 0 <= i < pieces.len() - 1 implies (#[trigger] pieces[i]).last()
            == '\n' by {
            if i > 0 {
                assert(pieces[i] == chars::pieces(rest)[i - 1]);
            } else {
                if rest.len() == 0 {
                    assert(chars::pieces(rest).len() == 0);
                }
            }
        }
    }
}

proof fn pieces_stay_pieces(pieces: Seq<Seq<char>>)
    requires
        are_pieces(pieces),
    ensures
        chars::pieces(concatenated(pieces)) == pieces,
    decreases pieces.len(),
{
    if pieces.len() > 0 {
        let rest = pieces.skip(1);
        assert forall|i: int| 0 <= i < rest.len() implies is_piece(#[trigger] rest[i]) by {
            assert(rest[i] == pieces[i + 1]);
        }
        assert forall|i: int| 0 <= i < rest.len() - 1 implies (#[trigger] rest[i]).last()
            == '\n' by {
            assert(rest[i] == pieces[i + 1]);
        }
        pieces_stay_pieces(rest);
        let text = concatenated(pieces);
        if rest.len() == 0 {
            assert(concatenated(rest).len() == 0);
        } else {
            assert(pieces[0].last() == '\n');
        }
        assert(is_piece(pieces[0]));
        piece_comes_first(pieces[0], concatenated(rest));
        assert(text.take(pieces[0].len() as int) =~= pieces[0]);
        assert(text.skip(pieces[0].len() as int) =~= concatenated(rest));
        assert(chars::pieces(text) =~= pieces);
    } else {
        assert(chars::pieces(concatenated(pieces)) =~= pieces);
    }
}

/// The lines that are kept.
pub open spec fn kept_pieces(pieces: Seq<Seq<char>>, marker: Seq<char>) -> Seq<Seq<char>>
    decreases pieces.len(),
{
    if pieces.len() == 0 {
        Seq::empty()
    } else if argument_of(pieces.last()) == marker {
        kept_pieces(pieces.drop_last(), marker)
    } else {
        kept_pieces(pieces.drop_last(), marker).push(pieces.last())
    }
}

proof fn kept_pieces_are_pieces(pieces: Seq<Seq<char>>, marker: Seq<char>)
    requires
        are_pieces(pieces),
    ensures
        are_pieces(kept_pieces(pieces, marker)),
        concatenated(kept_pieces(pieces, marker)) == kept(pieces, marker),
        kept_pieces(pieces, marker).len() > 0 && pieces.last() != kept_pieces(
            pieces,
            marker,
        ).last() ==> kept_pieces(pieces, marker).last().last() == '\n',
        dropped(kept_pieces(pieces, marker), marker) == 0,
        kept_pieces(pieces, marker).len() + dropped(pieces, marker) == pieces.len(),
    decreases pieces.len(),
{
    let list = kept_pieces(pieces, marker);
    if pieces.len() > 0 {
        let earlier = pieces.drop_last();
        assert forall|i: int| 0 <= i < earlier.len() implies is_piece(#[trigger] earlier[i]) by {
            assert(earlier[i] == pieces[i]);
        }
        assert forall|i: int| 0 <= i < earlier.len() - 1 implies (#[trigger] earlier[i]).last()
            == '\n' by {
            assert(earlier[i] == pieces[i]);
        }
        kept_pieces_are_pieces(earlier, marker);
        let before = kept_pieces(earlier, marker);
        if before.len() > 0 {
            if earlier.last() == before.last() {
                assert(pieces[earlier.len() - 1] == earlier.last());
            }
            assert(before.last().last() == '\n') by {
                if earlier.len() > 0 {
                    assert(pieces[earlier.len() - 1].last() == '\n');
                }
            }
        }
        if argument_of(pieces.last()) != marker {
            assert(is_piece(pieces[pieces.len() - 1]));
            assert(list.drop_last() =~= before);
            concatenations_end(list);
            assert forall|i: int| 0 <= i < list.len() implies is_piece(#[trigger] list[i]) by {
                if i < before.len() {
                    assert(list[i] == before[i]);
                }
            }
            assert forall|i: int| 0 <= i < list.len() - 1 implies (#[trigger] list[i]).last()
                == '\n' by {
                assert(list[i] == before[i]);
                if i == before.len() - 1 {
                    assert(before.last() == before[i]);
                }
            }
        }
    }
}

/// Filtering takes out whole lines and leaves the others as they are: the kept lines are the lines
/// of the filtered text, in their order, and none of them holds the marker. Filtering again finds
/// nothing.
pub proof fn filters_remove_only_markers(contents: Seq<char>, marker: Seq<char>)
    ensures
        ({
            let filtered = kept(chars::pieces(contents), marker);
            &&& chars::pieces(filtered) == kept_pieces(chars::pieces(contents), marker)
            &&& dropped(chars::pieces(filtered), marker) == 0
            &&& kept(chars::pieces(filtered), marker) == filtered
            &&& dropped(chars::pieces(contents), marker) == 0 ==> filtered == contents
        }),
{
    let pieces = chars::pieces(contents);
    texts_are_pieces(contents);
    kept_pieces_are_pieces(pieces, marker);
    pieces_stay_pieces(kept_pieces(pieces, marker));
    let filtered = kept(pieces, marker);
    texts_are_pieces(filtered);
    nothing_dropped_keeps_all(chars::pieces(filtered), marker);
    nothing_dropped_keeps_all(pieces, marker);
}

proof fn nothing_dropped_keeps_all(pieces: Seq<Seq<char>>, marker: Seq<char>)
    ensures
        dropped(pieces, marker) == 0 ==> kept(pieces, marker) == concatenated(pieces),
    decreases pieces.len(),
{
    if pieces.len() > 0 {
        nothing_dropped_keeps_all(pieces.drop_last(), marker);
        concatenations_end(pieces);
    }
}

} // verus!

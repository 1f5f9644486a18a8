//! Implements Cargo's outer compiler-wrapper calling convention.
//!
//! Cargo passes the real compiler first. Only the selected target has the marker behind
//! `cargo rustc --`. Every other invocation is forwarded unchanged.

use crate::chars;
use crate::ir::wrapper;
use crate::ir::wrapper::{WrapperCommand, WrapperCommandData};
use crate::text::same_text;
use vstd::prelude::*;
use vstd::string::StringExecFns;

verus! {

/// The index of the first marker.
pub open spec fn marker_index(arguments: Seq<Seq<char>>, marker: Seq<char>) -> int
    decreases arguments.len(),
{
    if arguments.len() == 0 || arguments[0] == marker {
        0
    } else {
        1 + marker_index(arguments.skip(1), marker)
    }
}

proof fn marker_index_is(arguments: Seq<Seq<char>>, marker: Seq<char>, index: int)
    requires
        0 <= index <= arguments.len(),
        forall|i: int| 0 <= i < index ==> arguments[i] != marker,
        index < arguments.len() ==> arguments[index] == marker,
    ensures
        marker_index(arguments, marker) == index,
    decreases index,
{
    if index > 0 {
        let rest = arguments.skip(1);
        assert forall|i: int| 0 <= i < index - 1 implies rest[i] != marker by {
            assert(rest[i] == arguments[i + 1]);
        }
        marker_index_is(rest, marker, index - 1);
    }
}

/// Why an invocation cannot be wrapped. The parameter is a type of text.
#[derive(Debug)]
pub enum WrapProblem<S> {
    /// There is no compiler.
    NoCompiler,
    /// There is no marker.
    NoMarker,
    /// The driver does not know its own path.
    NoDriver {
        /// What went wrong.
        problem: S,
    },
}

/// The mathematical counterpart of a problem.
pub type WrapProblemData = WrapProblem<Seq<char>>;

impl View for WrapProblem<String> {
    type V = WrapProblemData;

    open spec fn view(&self) -> WrapProblemData {
        match self {
            WrapProblem::NoCompiler => WrapProblem::NoCompiler,
            WrapProblem::NoMarker => WrapProblem::NoMarker,
            WrapProblem::NoDriver { problem } => WrapProblem::NoDriver { problem: problem@ },
        }
    }
}

/// The sentence that describes a problem.
pub open spec fn sentence(problem: WrapProblemData) -> Seq<char> {
    match problem {
        WrapProblem::NoCompiler => "optic rustc wrapper must receive a compiler path, got none"@,
        WrapProblem::NoMarker => "OPTIC_SELECTED_TARGET_MARKER is not set"@,
        WrapProblem::NoDriver { problem } => "failed to find the rustc driver: "@ + problem,
    }
}

impl WrapProblem<String> {
    /// Describes the problem.
    pub fn message(&self) -> (result: String)
        ensures
            result@ == sentence(self@),
    {
        match self {
            WrapProblem::NoCompiler => String::from_str(
                "optic rustc wrapper must receive a compiler path, got none",
            ),
            WrapProblem::NoMarker => String::from_str("OPTIC_SELECTED_TARGET_MARKER is not set"),
            WrapProblem::NoDriver { problem } => {
                let mut text = String::from_str("failed to find the rustc driver: ");
                text.append(problem.as_str());
                text
            },
        }
    }
}

/// The command that replaces a wrapped invocation.
pub open spec fn wrapped(
    arguments: Seq<Seq<char>>,
    marker: Option<Seq<char>>,
    driver: Result<Seq<char>, Seq<char>>,
) -> Result<WrapperCommandData, WrapProblemData> {
    if arguments.len() == 0 {
        Err(WrapProblem::NoCompiler)
    } else {
        match marker {
            None => Err(WrapProblem::NoMarker),
            Some(marker) => {
                let index = marker_index(arguments, marker);
                if index >= arguments.len() {
                    Ok(
                        WrapperCommandData {
                            program: arguments[0],
                            arguments: arguments.skip(1),
                            inner: false,
                        },
                    )
                } else {
                    match driver {
                        Err(problem) => Err(WrapProblem::NoDriver { problem }),
                        Ok(driver) => Ok(
                            WrapperCommandData {
                                program: driver,
                                arguments: arguments.remove(index),
                                inner: true,
                            },
                        ),
                    }
                }
            },
        }
    }
}

/// Composes the command that replaces a wrapped invocation. The driver is asked for its own path
/// only for the selected target.
pub fn run(
    arguments: Vec<String>,
    marker: &Option<String>,
    driver: Result<String, String>,
) -> (result: Result<WrapperCommand, WrapProblem<String>>)
    ensures
        match (
            result,
            wrapped(
                chars::views(arguments@),
                chars::option_view(*marker),
                wrapper::executable_view(driver),
            ),
        ) {
            (Ok(command), Ok(expected)) => command@ == expected,
            (Err(problem), Err(expected)) => problem@ == expected,
            _ => false,
        },
{
    let ghost all = chars::views(arguments@);
    let mut arguments = arguments;
    if arguments.len() == 0 {
        return Err(WrapProblem::NoCompiler);
    }
    let marker = match marker {
        None => {
            return Err(WrapProblem::NoMarker);
        },
        Some(marker) => marker,
    };
    let mut index: usize = 0;
    while index < arguments.len() && !same_text(arguments[index].as_str(), marker.as_str())
        invariant
            index <= arguments@.len(),
            all == chars::views(arguments@),
            all.len() == arguments@.len(),
            forall|i: int| 0 <= i < index ==> #[trigger] all[i] != marker@,
        decreases arguments.len() - index,
    {
        assert(all[index as int] == arguments@[index as int]@);
        index += 1;
    }
    proof {
        if index < arguments@.len() {
            assert(all[index as int] == arguments@[index as int]@);
        }
        marker_index_is(all, marker@, index as int);
    }
    if index >= arguments.len() {
        assert(all[0] == arguments@[0]@);
        let program = arguments.remove(0);
        assert(chars::views(arguments@) =~= all.skip(1));
        return Ok(WrapperCommand { program, arguments, inner: false });
    }
    let removed = arguments.remove(index);
    assert(chars::views(arguments@) =~= all.remove(index as int));
    match driver {
        Err(problem) => Err(WrapProblem::NoDriver { problem }),
        Ok(driver) => Ok(WrapperCommand { program: driver, arguments, inner: true }),
    }
}

/// An invocation without the marker is forwarded unchanged.
pub proof fn other_invocations_are_forwarded(
    arguments: Seq<Seq<char>>,
    marker: Seq<char>,
    driver: Result<Seq<char>, Seq<char>>,
)
    requires
        arguments.len() > 0,
        !arguments.contains(marker),
    ensures
        wrapped(arguments, Some(marker), driver) matches Ok(command) && seq![command.program]
            + command.arguments == arguments && !command.inner,
{
    marker_index_is(arguments, marker, arguments.len() as int);
    assert(seq![arguments[0]] + arguments.skip(1) =~= arguments);
}

} // verus!

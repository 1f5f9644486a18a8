//! Decides how the analysis of one compiler session starts and ends.
//!
//! A successful compiler invocation publishes its manifest only if its analysis completed without an
//! encoding error.

use crate::chars;
use vstd::prelude::*;
use vstd::string::StringExecFns;

verus! {

/// Why an analysis does not start or end. The parameter is a type of text.
#[derive(Debug)]
#[allow(inconsistent_fields)]
pub enum SessionProblem<S> {
    /// An argument is not UTF-8.
    Argument,
    /// There is no compiler.
    NoCompiler,
    /// There is no path for the manifest.
    NoManifest,
    /// The manifest could not be created.
    Create {
        /// The manifest.
        path: S,
        /// What went wrong.
        problem: S,
    },
    /// A record could not be written.
    Write {
        /// The manifest.
        path: S,
        /// What went wrong.
        problem: S,
    },
    /// The manifest could not be completed.
    Finish {
        /// The manifest.
        path: S,
        /// What went wrong.
        problem: S,
    },
}

/// The mathematical counterpart of a problem.
pub type SessionProblemData = SessionProblem<Seq<char>>;

impl View for SessionProblem<String> {
    type V = SessionProblemData;

    open spec fn view(&self) -> SessionProblemData {
        match self {
            SessionProblem::Argument => SessionProblem::Argument,
            SessionProblem::NoCompiler => SessionProblem::NoCompiler,
            SessionProblem::NoManifest => SessionProblem::NoManifest,
            SessionProblem::Create { path, problem } => SessionProblem::Create {
                path: path@,
                problem: problem@,
            },
            SessionProblem::Write { path, problem } => SessionProblem::Write {
                path: path@,
                problem: problem@,
            },
            SessionProblem::Finish { path, problem } => SessionProblem::Finish {
                path: path@,
                problem: problem@,
            },
        }
    }
}

/// The sentence that describes a problem.
pub open spec fn sentence(problem: SessionProblemData) -> Seq<char> {
    match problem {
        SessionProblem::Argument =>
            "optic rustc driver requires UTF-8 compiler arguments, got a non-UTF-8 argument"@,
        SessionProblem::NoCompiler =>
            "optic rustc driver must receive rustc as its first argument, got none"@,
        SessionProblem::NoManifest => "OPTIC_COMPILER_MANIFEST is not set"@,
        SessionProblem::Create { path, problem } => "failed to create "@ + path + ": "@ + problem,
        SessionProblem::Write { path, problem } => "failed to write "@ + path + ": "@ + problem,
        SessionProblem::Finish { path, problem } => "failed to finish "@ + path + ": "@ + problem,
    }
}

fn failed_to(operation: &str, path: &str, problem: &str) -> (result: String)
    ensures
        result@ == operation@ + path@ + ": "@ + problem@,
{
    let mut text = String::from_str(operation);
    text.append(path);
    text.append(": ");
    text.append(problem);
    text
}

impl SessionProblem<String> {
    /// Describes the problem.
    pub fn message(&self) -> (result: String)
        ensures
            result@ == sentence(self@),
    {
        match self {
            SessionProblem::Argument => String::from_str(
                "optic rustc driver requires UTF-8 compiler arguments, got a non-UTF-8 argument",
            ),
            SessionProblem::NoCompiler => String::from_str(
                "optic rustc driver must receive rustc as its first argument, got none",
            ),
            SessionProblem::NoManifest => String::from_str("OPTIC_COMPILER_MANIFEST is not set"),
            SessionProblem::Create { path, problem } => failed_to(
                "failed to create ",
                path.as_str(),
                problem.as_str(),
            ),
            SessionProblem::Write { path, problem } => failed_to(
                "failed to write ",
                path.as_str(),
                problem.as_str(),
            ),
            SessionProblem::Finish { path, problem } => failed_to(
                "failed to finish ",
                path.as_str(),
                problem.as_str(),
            ),
        }
    }
}

/// The arguments and the manifest of an analysis.
#[derive(Debug)]
pub struct DriverInvocation {
    /// The arguments of the compiler.
    pub arguments: Vec<String>,
    /// The manifest.
    pub manifest_path: String,
}

/// The mathematical counterpart of [`DriverInvocation`].
pub struct InvocationData {
    /// The arguments of the compiler.
    pub arguments: Seq<Seq<char>>,
    /// The manifest.
    pub manifest_path: Seq<char>,
}

impl View for DriverInvocation {
    type V = InvocationData;

    open spec fn view(&self) -> InvocationData {
        InvocationData {
            arguments: chars::views(self.arguments@),
            manifest_path: self.manifest_path@,
        }
    }
}

/// The arguments, of which some can lack a text because they are not UTF-8.
pub open spec fn readable(arguments: Seq<Option<String>>) -> bool {
    forall|i: int| 0 <= i < arguments.len() ==> #[trigger] arguments[i] is Some
}

/// The texts of readable arguments.
pub open spec fn texts_of(arguments: Seq<Option<String>>) -> Seq<Seq<char>> {
    arguments.map_values(|argument: Option<String>| chars::option_view(argument)->Some_0)
}

/// The invocation of an analysis, or why there is none.
pub open spec fn invocation_of(
    arguments: Seq<Option<String>>,
    manifest_path: Option<Seq<char>>,
) -> Result<InvocationData, SessionProblemData> {
    if !readable(arguments) {
        Err(SessionProblem::Argument)
    } else if arguments.len() == 0 {
        Err(SessionProblem::NoCompiler)
    } else {
        match manifest_path {
            None => Err(SessionProblem::NoManifest),
            Some(manifest_path) => Ok(
                InvocationData { arguments: texts_of(arguments), manifest_path },
            ),
        }
    }
}

/// Takes the compiler arguments and the manifest destination from the outer wrapper.
pub fn prepare_invocation(arguments: &Vec<Option<String>>, manifest_path: Option<String>) -> (result:
    Result<DriverInvocation, SessionProblem<String>>)
    ensures
        match (result, invocation_of(arguments@, chars::option_view(manifest_path))) {
            (Ok(invocation), Ok(expected)) => invocation@ == expected,
            (Err(problem), Err(expected)) => problem@ == expected,
            _ => false,
        },
{
    let mut texts: Vec<String> = Vec::new();
    let mut index: usize = 0;
    assert(chars::views(texts@) =~= texts_of(arguments@).take(0));
    while index < arguments.len()
        invariant
            index <= arguments@.len(),
            forall|i: int| 0 <= i < index ==> #[trigger] arguments@[i] is Some,
            chars::views(texts@) == texts_of(arguments@).take(index as int),
        decreases arguments.len() - index,
    {
        match &arguments[index] {
            None => {
                assert(arguments@[index as int] is None);
                return Err(SessionProblem::Argument);
            },
            Some(text) => {
                let text = text.clone();
                let ghost before = texts@;
                texts.push(text);
                proof {
                    chars::views_push(before, text);
                    assert(chars::views(texts@) =~= texts_of(arguments@).take(index + 1));
                }
            },
        }
        index += 1;
    }
    assert(chars::views(texts@) =~= texts_of(arguments@));
    if arguments.len() == 0 {
        return Err(SessionProblem::NoCompiler);
    }
    match manifest_path {
        None => Err(SessionProblem::NoManifest),
        Some(manifest_path) => Ok(DriverInvocation { arguments: texts, manifest_path }),
    }
}

/// What follows a compiler session.
#[derive(Debug)]
pub enum SessionEnd<S> {
    /// The exit code of the compiler.
    Compiler,
    /// Success without a manifest.
    Success,
    /// The manifest has to be completed.
    Complete,
    /// A failure.
    Failure(SessionProblem<S>),
}

/// The mathematical counterpart of an end.
pub open spec fn end_view(end: SessionEnd<String>) -> SessionEnd<Seq<char>> {
    match end {
        SessionEnd::Compiler => SessionEnd::Compiler,
        SessionEnd::Success => SessionEnd::Success,
        SessionEnd::Complete => SessionEnd::Complete,
        SessionEnd::Failure(problem) => SessionEnd::Failure(problem@),
    }
}

/// The end of a compiler session with an exit code and an analysis.
pub open spec fn session_end(
    compiled: bool,
    analysis: Option<Result<(), String>>,
    path: Seq<char>,
) -> SessionEnd<Seq<char>> {
    if !compiled {
        SessionEnd::Compiler
    } else {
        match analysis {
            Some(Ok(())) => SessionEnd::Complete,
            Some(Err(problem)) => SessionEnd::Failure(
                SessionProblem::Write { path, problem: problem@ },
            ),
            None => SessionEnd::Success,
        }
    }
}

/// Decides what follows a compiler session.
///
/// The compiler can finish successfully without analysis for informational invocations. The
/// collector detects a missing manifest when it expected selected-target analysis.
pub fn end_session(compiled: bool, analysis: Option<Result<(), String>>, path: &str) -> (result:
    SessionEnd<String>)
    ensures
        end_view(result) == session_end(compiled, analysis, path@),
{
    if !compiled {
        return SessionEnd::Compiler;
    }
    match analysis {
        Some(Ok(())) => SessionEnd::Complete,
        Some(Err(problem)) => SessionEnd::Failure(
            SessionProblem::Write { path: String::from_str(path), problem },
        ),
        None => SessionEnd::Success,
    }
}

/// A manifest is completed only behind a successful compiler and a complete analysis.
pub proof fn manifests_need_complete_analysis(
    compiled: bool,
    analysis: Option<Result<(), String>>,
    path: Seq<char>,
)
    ensures
        session_end(compiled, analysis, path) is Complete <==> compiled && (analysis matches Some(
            Ok(_),
        )),
{
}

} // verus!

//! Follows one Cargo invocation and retains its diagnostics until classification.
//!
//! Stderr goes to an attempt-local file while stdout yields structured messages. A stopped probe
//! retains its diagnostics until collection succeeds or fails, so an intentional abort is not
//! replayed after a successful retry.

use super::error;
use super::error::{filesystem_failure, Error, ErrorData, Failure};
use super::metadata::{Artifact, PackageTarget, PackageTargetData};
use super::observation;
use super::observation::{CargoObservation, ObservationData};
use crate::chars;
use crate::paths;
use crate::paths::join;
use crate::process::ExitReport;
use crate::source::SourceError;
use vstd::prelude::*;
use vstd::string::StringExecFns;

verus! {

/// The severity of a diagnostic.
#[derive(Clone, Copy, Debug, PartialEq, Eq, Structural)]
pub enum DiagnosticLevel {
    /// An internal compiler error.
    Ice,
    /// An error.
    Error,
    /// A warning.
    Warning,
    /// A remark behind a failure.
    FailureNote,
    /// A note.
    Note,
    /// Help.
    Help,
}

/// A message that Cargo writes to stdout.
pub enum CargoMessage {
    /// An artifact is complete.
    Artifact(Artifact),
    /// The build is over. It succeeded or not.
    Finished(bool),
    /// A compiler reports a diagnostic.
    Diagnostic {
        /// The severity.
        level: DiagnosticLevel,
        /// The complete diagnostic, if the compiler rendered it.
        rendered: Option<String>,
        /// The short message.
        message: String,
    },
    /// A line that is no structured message.
    Text(String),
    /// A message of no interest.
    Other,
    /// The messages could not be read.
    Unreadable(SourceError),
}

/// What Cargo reported so far.
pub struct CargoAttempt {
    /// Selected artifacts and structured completion facts.
    pub observation: CargoObservation,
    /// The diagnostics that are not warnings.
    pub diagnostics: Vec<String>,
    /// The warnings.
    pub warnings: Vec<String>,
    /// The first failure to read a message.
    pub read_error: Option<SourceError>,
}

/// The mathematical counterpart of [`CargoAttempt`].
pub struct AttemptData {
    /// Selected artifacts and structured completion facts.
    pub observation: ObservationData,
    /// The diagnostics that are not warnings.
    pub diagnostics: Seq<Seq<char>>,
    /// The warnings.
    pub warnings: Seq<Seq<char>>,
    /// The first failure to read a message.
    pub read_error: Option<SourceError>,
}

impl View for CargoAttempt {
    type V = AttemptData;

    open spec fn view(&self) -> AttemptData {
        AttemptData {
            observation: self.observation@,
            diagnostics: chars::views(self.diagnostics@),
            warnings: chars::views(self.warnings@),
            read_error: self.read_error,
        }
    }
}

/// A diagnostic of this level shows that the build failed.
pub open spec fn is_error(level: DiagnosticLevel) -> bool {
    level == DiagnosticLevel::Error || level == DiagnosticLevel::Ice || level
        == DiagnosticLevel::FailureNote
}

/// The text of a diagnostic.
pub open spec fn rendering(rendered: Option<Seq<char>>, message: Seq<char>) -> Seq<char> {
    match rendered {
        Some(rendered) => rendered,
        None => message + "\n"@,
    }
}

/// The attempt behind a message.
pub open spec fn attempt_after(
    attempt: AttemptData,
    message: CargoMessage,
    package: Seq<char>,
    target: PackageTargetData,
) -> AttemptData {
    match message {
        CargoMessage::Artifact(artifact) => AttemptData {
            observation: observation::with_artifact(
                attempt.observation,
                artifact@,
                package,
                target,
            ),
            ..attempt
        },
        CargoMessage::Finished(success) => AttemptData {
            observation: ObservationData {
                finished: attempt.observation.finished.push(success),
                ..attempt.observation
            },
            ..attempt
        },
        CargoMessage::Diagnostic { level, rendered, message } => {
            let text = rendering(chars::option_view(rendered), message@);
            if level == DiagnosticLevel::Warning {
                AttemptData { warnings: attempt.warnings.push(text), ..attempt }
            } else {
                AttemptData {
                    observation: ObservationData {
                        has_errors: attempt.observation.has_errors || is_error(level),
                        ..attempt.observation
                    },
                    diagnostics: attempt.diagnostics.push(text),
                    ..attempt
                }
            }
        },
        CargoMessage::Text(line) => if line@.len() > 0 {
            AttemptData { diagnostics: attempt.diagnostics.push(line@ + "\n"@), ..attempt }
        } else {
            attempt
        },
        CargoMessage::Other => attempt,
        CargoMessage::Unreadable(source) => if attempt.read_error is Some {
            attempt
        } else {
            AttemptData { read_error: Some(source), ..attempt }
        },
    }
}

/// The attempt before the first message.
pub open spec fn no_messages() -> AttemptData {
    AttemptData {
        observation: ObservationData {
            selected: Seq::empty(),
            finished: Seq::empty(),
            has_errors: false,
        },
        diagnostics: Seq::empty(),
        warnings: Seq::empty(),
        read_error: None,
    }
}

/// An outside step that starts an attempt.
pub enum StartReply {
    /// The file for stderr was created.
    Created(Result<(), SourceError>),
    /// Cargo was started.
    Spawned(Result<(), SourceError>),
}

/// The file that receives the stderr of Cargo.
pub open spec fn stderr_of(directory: Seq<char>) -> Seq<char> {
    paths::joined(directory, "stderr"@)
}

/// Returns the file that receives the stderr of Cargo.
pub fn stderr_file(directory: &str) -> (result: String)
    ensures
        result@ == stderr_of(directory@),
{
    join(directory, "stderr")
}

/// The verdict on a step that starts an attempt.
pub open spec fn start_verdict(
    program: Seq<char>,
    directory: Seq<char>,
    reply: StartReply,
) -> Result<(), ErrorData> {
    match reply {
        StartReply::Created(Err(source)) => Err(
            error::filesystem("create Cargo diagnostic file"@, stderr_of(directory), source),
        ),
        StartReply::Spawned(Err(source)) => Err(Failure::StartProcess { program, source }),
        _ => Ok(()),
    }
}

/// Judges a step that starts an attempt.
pub fn start(program: &str, directory: &str, reply: StartReply) -> (result: Result<(), Error>)
    ensures
        error::unit_agrees(result, start_verdict(program@, directory@, reply)),
{
    match reply {
        StartReply::Created(Err(source)) => {
            let path = stderr_file(directory);
            Err(filesystem_failure("create Cargo diagnostic file", path.as_str(), source))
        },
        StartReply::Spawned(Err(source)) => Err(
            Failure::StartProcess { program: String::from_str(program), source },
        ),
        _ => Ok(()),
    }
}

impl CargoAttempt {
    /// Starts without messages.
    pub fn new() -> (result: Self)
        ensures
            result@ == no_messages(),
    {
        let result = CargoAttempt {
            observation: CargoObservation::default(),
            diagnostics: Vec::new(),
            warnings: Vec::new(),
            read_error: None,
        };
        assert(result@.diagnostics =~= Seq::<Seq<char>>::empty());
        assert(result@.warnings =~= Seq::<Seq<char>>::empty());
        result
    }

    /// Takes the next message.
    pub fn accept(&mut self, message: CargoMessage, package: &str, target: &PackageTarget)
        ensures
            final(self)@ == attempt_after(old(self)@, message, package@, target@),
    {
        match message {
            CargoMessage::Artifact(artifact) => {
                self.observation.record(artifact, package, target);
            },
            CargoMessage::Finished(success) => {
                self.observation.finished.push(success);
                assert(self@.observation.finished =~= old(self)@.observation.finished.push(
                    success,
                ));
            },
            CargoMessage::Diagnostic { level, rendered, message } => {
                let text = match rendered {
                    Some(rendered) => rendered,
                    None => {
                        let mut line = message;
                        line.append("\n");
                        line
                    },
                };
                if level == DiagnosticLevel::Warning {
                    self.warnings.push(text);
                    assert(self@.warnings =~= old(self)@.warnings.push(text@));
                } else {
                    if level == DiagnosticLevel::Error || level == DiagnosticLevel::Ice || level
                        == DiagnosticLevel::FailureNote {
                        self.observation.has_errors = true;
                    }
                    self.diagnostics.push(text);
                    assert(self@.diagnostics =~= old(self)@.diagnostics.push(text@));
                }
            },
            CargoMessage::Text(line) => {
                if !line.as_str().is_empty() {
                    let mut text = line;
                    text.append("\n");
                    self.diagnostics.push(text);
                    assert(self@.diagnostics =~= old(self)@.diagnostics.push(text@));
                }
            },
            CargoMessage::Other => {},
            CargoMessage::Unreadable(source) => {
                if self.read_error.is_none() {
                    self.read_error = Some(source);
                }
            },
        }
    }

    /// Ends the attempt once Cargo was waited for.
    pub fn finish(self, program: &str, directory: &str, waited: Result<ExitReport, SourceError>) -> (result:
        Result<EndedAttempt, Error>)
        ensures
            ending_agrees(result, ending(self@, program@, directory@, waited)),
    {
        match waited {
            Err(source) => Err(filesystem_failure("wait for Cargo process", program, source)),
            Ok(report) => {
                let failure = match self.read_error {
                    Some(source) => {
                        let path = stderr_file(directory);
                        Some(filesystem_failure("read Cargo messages for", path.as_str(), source))
                    },
                    None => None,
                };
                Ok(
                    EndedAttempt {
                        report,
                        observation: self.observation,
                        diagnostics: self.diagnostics,
                        warnings: self.warnings,
                        failure,
                    },
                )
            },
        }
    }
}

/// An attempt whose Cargo process is over.
pub struct EndedAttempt {
    /// Cargo's process result, independent of the structured build-finished message.
    pub report: ExitReport,
    /// Selected artifacts and structured completion facts.
    pub observation: CargoObservation,
    /// The diagnostics that are not warnings.
    pub diagnostics: Vec<String>,
    /// The warnings that were not relayed.
    pub warnings: Vec<String>,
    /// The error to return behind a replay, if the messages could not be read.
    pub failure: Option<Error>,
}

/// The mathematical counterpart of [`EndedAttempt`].
pub struct EndedData {
    /// Cargo's process result, independent of the structured build-finished message.
    pub report: ExitReport,
    /// Selected artifacts and structured completion facts.
    pub observation: ObservationData,
    /// The diagnostics that are not warnings.
    pub diagnostics: Seq<Seq<char>>,
    /// The warnings that were not relayed.
    pub warnings: Seq<Seq<char>>,
    /// The error to return behind a replay, if the messages could not be read.
    pub failure: Option<ErrorData>,
}

/// The mathematical counterpart of an optional failure.
pub open spec fn failure_view(failure: Option<Error>) -> Option<ErrorData> {
    match failure {
        Some(failure) => Some(failure@),
        None => None,
    }
}

impl View for EndedAttempt {
    type V = EndedData;

    open spec fn view(&self) -> EndedData {
        EndedData {
            report: self.report,
            observation: self.observation@,
            diagnostics: chars::views(self.diagnostics@),
            warnings: chars::views(self.warnings@),
            failure: failure_view(self.failure),
        }
    }
}

/// The end of an attempt.
pub open spec fn ending(
    attempt: AttemptData,
    program: Seq<char>,
    directory: Seq<char>,
    waited: Result<ExitReport, SourceError>,
) -> Result<EndedData, ErrorData> {
    match waited {
        Err(source) => Err(error::filesystem("wait for Cargo process"@, program, source)),
        Ok(report) => Ok(
            EndedData {
                report,
                observation: attempt.observation,
                diagnostics: attempt.diagnostics,
                warnings: attempt.warnings,
                failure: match attempt.read_error {
                    Some(source) => Some(
                        error::filesystem(
                            "read Cargo messages for"@,
                            stderr_of(directory),
                            source,
                        ),
                    ),
                    None => None,
                },
            },
        ),
    }
}

/// An ended attempt or an error agrees with the expected one.
pub open spec fn ending_agrees(
    result: Result<EndedAttempt, Error>,
    expected: Result<EndedData, ErrorData>,
) -> bool {
    match (result, expected) {
        (Ok(attempt), Ok(meant)) => attempt@ == meant,
        (Err(error), Err(meant)) => error@ == meant,
        _ => false,
    }
}

/// The attempt behind relayed warnings.
pub open spec fn relayed(attempt: EndedData) -> EndedData {
    EndedData { warnings: Seq::empty(), ..attempt }
}

/// The failure of Cargo itself.
pub open spec fn attempt_failure(attempt: EndedData, cargo: Seq<char>) -> ErrorData {
    Failure::ProcessFailed { program: cargo, status: attempt.report.status@, diagnostics: None }
}

impl EndedAttempt {
    /// Takes the warnings to write. They are not written again.
    pub fn relay_warnings(&mut self) -> (result: Vec<String>)
        ensures
            chars::views(result@) == old(self)@.warnings,
            final(self)@ == relayed(old(self)@),
    {
        let mut warnings: Vec<String> = Vec::new();
        std::mem::swap(&mut warnings, &mut self.warnings);
        assert(self@.warnings =~= Seq::<Seq<char>>::empty());
        warnings
    }

    /// Takes the warnings and the other diagnostics to write. The stderr of Cargo follows them.
    pub fn replay(&mut self) -> (result: Vec<String>)
        ensures
            chars::views(result@) == old(self)@.warnings + old(self)@.diagnostics,
            final(self)@ == relayed(old(self)@),
    {
        let mut texts = self.relay_warnings();
        let mut diagnostics = chars::copy_texts(&self.diagnostics);
        let ghost before = texts@;
        let ghost more = diagnostics@;
        texts.append(&mut diagnostics);
        assert(chars::views(texts@) =~= chars::views(before) + chars::views(more));
        texts
    }

    /// Returns the failure of Cargo itself.
    pub fn failure(&self, cargo: &str) -> (result: Error)
        ensures
            result@ == attempt_failure(self@, cargo@),
    {
        Failure::ProcessFailed {
            program: String::from_str(cargo),
            status: self.report.status.clone(),
            diagnostics: None,
        }
    }
}

/// An outside step of a replay.
pub enum ReplayReply {
    /// A diagnostic was written.
    Wrote(Result<(), SourceError>),
    /// The file with the stderr of Cargo was opened.
    Opened(Result<(), SourceError>),
    /// The file with the stderr of Cargo was copied.
    Copied(Result<(), SourceError>),
}

/// The verdict on a step of a replay.
pub open spec fn replay_verdict(directory: Seq<char>, reply: ReplayReply) -> Result<(), ErrorData> {
    match reply {
        ReplayReply::Wrote(Err(source)) => Err(
            error::filesystem("write Cargo diagnostics to"@, "stderr"@, source),
        ),
        ReplayReply::Opened(Err(source)) => Err(
            error::filesystem("open Cargo diagnostic file"@, stderr_of(directory), source),
        ),
        ReplayReply::Copied(Err(source)) => Err(
            error::filesystem("replay Cargo diagnostics from"@, stderr_of(directory), source),
        ),
        _ => Ok(()),
    }
}

/// Judges a step of a replay.
pub fn replay_step(directory: &str, reply: ReplayReply) -> (result: Result<(), Error>)
    ensures
        error::unit_agrees(result, replay_verdict(directory@, reply)),
{
    let path = stderr_file(directory);
    match reply {
        ReplayReply::Wrote(Err(source)) => Err(
            filesystem_failure("write Cargo diagnostics to", "stderr", source),
        ),
        ReplayReply::Opened(Err(source)) => Err(
            filesystem_failure("open Cargo diagnostic file", path.as_str(), source),
        ),
        ReplayReply::Copied(Err(source)) => Err(
            filesystem_failure("replay Cargo diagnostics from", path.as_str(), source),
        ),
        _ => Ok(()),
    }
}

/// The attempt behind messages.
pub open spec fn attempt_behind(
    messages: Seq<CargoMessage>,
    package: Seq<char>,
    target: PackageTargetData,
) -> AttemptData
    decreases messages.len(),
{
    if messages.len() == 0 {
        no_messages()
    } else {
        attempt_after(
            attempt_behind(messages.drop_last(), package, target),
            messages.last(),
            package,
            target,
        )
    }
}

/// A message is an error of a compiler.
pub open spec fn reports_error(message: CargoMessage) -> bool {
    message matches CargoMessage::Diagnostic { level, .. } && is_error(level)
}

/// Some message is an error of a compiler.
pub open spec fn any_error(messages: Seq<CargoMessage>) -> bool {
    exists|i: int| 0 <= i < messages.len() && reports_error(#[trigger] messages[i])
}

/// An attempt has errors exactly if a compiler reported one. No later message takes it back.
pub proof fn errors_are_never_lost(
    messages: Seq<CargoMessage>,
    package: Seq<char>,
    target: PackageTargetData,
)
    ensures
        attempt_behind(messages, package, target).observation.has_errors == any_error(messages),
    decreases messages.len(),
{
    if messages.len() > 0 {
        let earlier = messages.drop_last();
        errors_are_never_lost(earlier, package, target);
        if any_error(earlier) {
            let i = choose|i: int|
                0 <= i < earlier.len() && reports_error(#[trigger] earlier[i]);
            assert(messages[i] == earlier[i]);
        }
        if reports_error(messages.last()) {
            assert(messages[messages.len() - 1] == messages.last());
        }
        if any_error(messages) {
            let i = choose|i: int|
                0 <= i < messages.len() && reports_error(#[trigger] messages[i]);
            if i < earlier.len() {
                assert(earlier[i] == messages[i]);
            }
        }
    }
}

} // verus!

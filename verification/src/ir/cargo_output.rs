//! Reads bounded Cargo output while collecting constant-size artifact state.
//!
//! [`StdoutReader`] forwards user-visible bytes and parses one bounded Cargo JSON message at a time.
//! [`CargoRunState`] folds the messages of both pipes of a process and retains only a bounded
//! failure tail.

use super::error::{Error, Failure, OutputProblem};
use crate::bytes::tail;
use crate::json::{json_flag_at, json_text_at};
use crate::process::ExitReport;
use crate::source::SourceError;
use crate::text::{lossy_text, same_text};
use crate::wire::put_bytes;
use vstd::prelude::*;
use vstd::string::StringExecFns;

verus! {

/// The number of bytes that one read asks for.
pub const READ_BUFFER_BYTES: usize = 8192;

/// The largest length of a Cargo JSON message.
pub const MAX_CARGO_MESSAGE_BYTES: usize = 1048576;

/// The number of bytes of failure output that are kept.
pub const MAX_FAILURE_DIAGNOSTIC_BYTES: usize = 1048576;

/// One user-visible output event from a Cargo subprocess.
#[derive(Clone, Debug, PartialEq, Eq)]
pub enum CargoProcessEvent {
    /// A rendered compiler diagnostic from Cargo's JSON output.
    CompilerDiagnostic {
        /// The rendered diagnostic bytes.
        bytes: Vec<u8>,
    },
    /// Output that was not a Cargo JSON message.
    Stdout {
        /// The unchanged standard-output bytes.
        bytes: Vec<u8>,
    },
    /// Output that Cargo or a child process wrote to standard error.
    Stderr {
        /// The unchanged standard-error bytes.
        bytes: Vec<u8>,
    },
}

/// A mathematical output event.
pub enum EventData {
    /// A rendered compiler diagnostic.
    CompilerDiagnostic(Seq<u8>),
    /// Other standard output.
    Stdout(Seq<u8>),
    /// Standard error.
    Stderr(Seq<u8>),
}

impl EventData {
    /// The bytes of an event.
    pub open spec fn bytes(self) -> Seq<u8> {
        match self {
            EventData::CompilerDiagnostic(bytes) => bytes,
            EventData::Stdout(bytes) => bytes,
            EventData::Stderr(bytes) => bytes,
        }
    }
}

impl View for CargoProcessEvent {
    type V = EventData;

    open spec fn view(&self) -> EventData {
        match self {
            CargoProcessEvent::CompilerDiagnostic { bytes } => EventData::CompilerDiagnostic(
                bytes@,
            ),
            CargoProcessEvent::Stdout { bytes } => EventData::Stdout(bytes@),
            CargoProcessEvent::Stderr { bytes } => EventData::Stderr(bytes@),
        }
    }
}

impl CargoProcessEvent {
    /// Returns the bytes that the event contains.
    #[must_use]
    pub fn bytes(&self) -> (result: &[u8])
        ensures
            result@ == self@.bytes(),
    {
        match self {
            CargoProcessEvent::CompilerDiagnostic { bytes } => bytes.as_slice(),
            CargoProcessEvent::Stdout { bytes } => bytes.as_slice(),
            CargoProcessEvent::Stderr { bytes } => bytes.as_slice(),
        }
    }
}

/// Counts the artifacts that Cargo reports.
#[derive(Debug)]
pub struct ArtifactSummary {
    count: usize,
    has_stale_artifact: bool,
}

impl Default for ArtifactSummary {
    fn default() -> (result: Self)
        ensures
            result.count() == 0,
            !result.stale(),
    {
        ArtifactSummary { count: 0, has_stale_artifact: false }
    }
}

impl ArtifactSummary {
    /// The number of artifacts.
    pub closed spec fn count(&self) -> usize {
        self.count
    }

    /// An artifact was not fresh.
    pub closed spec fn stale(&self) -> bool {
        self.has_stale_artifact
    }

    /// Counts one artifact.
    pub fn record(&mut self, fresh: bool)
        ensures
            final(self).count() == (if old(self).count() == usize::MAX {
                usize::MAX as int
            } else {
                old(self).count() + 1
            }),
            final(self).stale() == (old(self).stale() || !fresh),
    {
        self.count = self.count.saturating_add(1);
        self.has_stale_artifact = self.has_stale_artifact || !fresh;
    }

    /// Returns the number of artifacts if there are any and all are fresh.
    pub fn fresh_count(&self) -> (result: Option<usize>)
        ensures
            result == fresh_artifacts(self.count(), self.stale()),
    {
        if self.count != 0 && !self.has_stale_artifact {
            Some(self.count)
        } else {
            None
        }
    }
}

/// The number of artifacts if there are any and all are fresh.
pub open spec fn fresh_artifacts(count: usize, stale: bool) -> Option<usize> {
    if count != 0 && !stale {
        Some(count)
    } else {
        None
    }
}

/// What the readers of both pipes report.
#[derive(Debug)]
pub enum ReaderMessage {
    /// User-visible output.
    Event(CargoProcessEvent),
    /// An artifact that Cargo reports.
    Artifact {
        /// The artifact was not compiled again.
        fresh: bool,
    },
    /// A message was too long.
    MessageLimit {
        /// The length of the message.
        actual: usize,
    },
    /// A pipe failed.
    ReadError(String),
}

/// A mathematical report.
pub enum MessageData {
    /// User-visible output.
    Event(EventData),
    /// An artifact.
    Artifact(bool),
    /// A message was too long.
    MessageLimit(usize),
    /// A pipe failed.
    ReadError(Seq<char>),
}

impl View for ReaderMessage {
    type V = MessageData;

    open spec fn view(&self) -> MessageData {
        match self {
            ReaderMessage::Event(event) => MessageData::Event(event@),
            ReaderMessage::Artifact { fresh } => MessageData::Artifact(*fresh),
            ReaderMessage::MessageLimit { actual } => MessageData::MessageLimit(*actual),
            ReaderMessage::ReadError(problem) => MessageData::ReadError(problem@),
        }
    }
}

/// The mathematical reports of a list.
pub open spec fn message_views(messages: Seq<ReaderMessage>) -> Seq<MessageData> {
    messages.map_values(|message: ReaderMessage| message@)
}

fn push_message(out: &mut Vec<ReaderMessage>, message: ReaderMessage)
    ensures
        message_views(final(out)@) == message_views(old(out)@).push(message@),
{
    out.push(message);
    assert(message_views(out@) =~= message_views(old(out)@).push(message@));
}

/// The fields of a Cargo JSON message that matter.
#[derive(Debug)]
pub struct CargoMessage {
    /// The kind of the message.
    pub reason: Option<String>,
    /// The rendered text of a compiler message.
    pub rendered: Option<String>,
    /// The freshness of an artifact.
    pub fresh: Option<bool>,
}

/// The mathematical fields of a Cargo JSON message.
pub struct MessageFacts {
    /// The kind of the message.
    pub reason: Option<Seq<char>>,
    /// The rendered text.
    pub rendered: Option<Seq<char>>,
    /// The freshness.
    pub fresh: Option<bool>,
}

impl View for CargoMessage {
    type V = MessageFacts;

    open spec fn view(&self) -> MessageFacts {
        MessageFacts {
            reason: crate::chars::option_view(self.reason),
            rendered: crate::chars::option_view(self.rendered),
            fresh: self.fresh,
        }
    }
}

/// The mathematical fields of an optional message.
pub open spec fn facts_view(message: Option<CargoMessage>) -> Option<MessageFacts> {
    match message {
        Some(message) => Some(message@),
        None => None,
    }
}

/// The fields that a line holds, or `None` if it is no JSON document.
pub open spec fn facts_of(line: Seq<u8>) -> Option<MessageFacts> {
    match crate::json::json_text(line, "/reason"@) {
        None => None,
        Some(reason) => Some(
            MessageFacts {
                reason,
                rendered: if reason == Some("compiler-message"@) {
                    match crate::json::json_text(line, "/message/rendered"@) {
                        Some(rendered) => rendered,
                        None => None,
                    }
                } else {
                    None
                },
                fresh: if reason == Some("compiler-artifact"@) {
                    match crate::json::json_flag(line, "/fresh"@) {
                        Some(fresh) => fresh,
                        None => None,
                    }
                } else {
                    None
                },
            },
        ),
    }
}

/// The reports that a line with these fields leads to.
pub open spec fn reports_of(line: Seq<u8>, facts: Option<MessageFacts>) -> Seq<MessageData> {
    match facts {
        None => seq![MessageData::Event(EventData::Stdout(line))],
        Some(facts) => if facts.reason == Some("compiler-message"@) {
            match facts.rendered {
                Some(rendered) => seq![
                    MessageData::Event(
                        EventData::CompilerDiagnostic(vstd::utf8::encode_utf8(rendered)),
                    ),
                ],
                None => Seq::empty(),
            }
        } else if facts.reason == Some("compiler-artifact"@) {
            match facts.fresh {
                Some(fresh) => seq![MessageData::Artifact(fresh)],
                None => Seq::empty(),
            }
        } else {
            Seq::empty()
        },
    }
}

/// The reports that a line leads to.
pub open spec fn line_reports(line: Seq<u8>) -> Seq<MessageData> {
    reports_of(line, facts_of(line))
}

fn is_reason(reason: &Option<String>, expected: &str) -> (result: bool)
    ensures
        result == (crate::chars::option_view(*reason) == Some(expected@)),
{
    match reason {
        Some(reason) => same_text(reason.as_str(), expected),
        None => false,
    }
}

fn read_message(line: &[u8]) -> (result: Option<CargoMessage>)
    ensures
        facts_view(result) == facts_of(line@),
{
    match json_text_at(line, "/reason") {
        None => None,
        Some(reason) => {
            let rendered = if is_reason(&reason, "compiler-message") {
                match json_text_at(line, "/message/rendered") {
                    Some(rendered) => rendered,
                    None => None,
                }
            } else {
                None
            };
            let fresh = if is_reason(&reason, "compiler-artifact") {
                match json_flag_at(line, "/fresh") {
                    Some(fresh) => fresh,
                    None => None,
                }
            } else {
                None
            };
            Some(CargoMessage { reason, rendered, fresh })
        },
    }
}

/// Reports what a line with these fields means.
pub fn classify(line: Vec<u8>, message: Option<CargoMessage>, out: &mut Vec<ReaderMessage>)
    ensures
        message_views(final(out)@) == message_views(old(out)@) + reports_of(
            line@,
            facts_view(message),
        ),
{
    let ghost before = message_views(out@);
    let ghost facts = facts_view(message);
    match message {
        None => {
            push_message(out, ReaderMessage::Event(CargoProcessEvent::Stdout { bytes: line }));
        },
        Some(message) => if is_reason(&message.reason, "compiler-message") {
            if let Some(rendered) = message.rendered {
                let mut bytes: Vec<u8> = Vec::new();
                put_bytes(&mut bytes, rendered.as_str().as_bytes());
                assert(bytes@ =~= vstd::utf8::encode_utf8(rendered@));
                push_message(
                    out,
                    ReaderMessage::Event(CargoProcessEvent::CompilerDiagnostic { bytes }),
                );
            }
        } else if is_reason(&message.reason, "compiler-artifact") {
            if let Some(fresh) = message.fresh {
                push_message(out, ReaderMessage::Artifact { fresh });
            }
        },
    }
    assert(message_views(out@) =~= before + reports_of(line@, facts));
}

/// Reports one bounded line of standard output.
pub fn process_stdout_line(line: Vec<u8>, out: &mut Vec<ReaderMessage>)
    ensures
        message_views(final(out)@) == message_views(old(out)@) + line_reports(line@),
{
    let message = read_message(line.as_slice());
    classify(line, message, out);
}

/// How far standard output has been read.
pub struct StdoutState {
    /// The bytes of the line that are not yet reported.
    pub line: Seq<u8>,
    /// The line is too long for a message.
    pub oversized: bool,
    /// The number of bytes of the line.
    pub length: usize,
}

/// The state at the start of a line.
pub open spec fn line_start() -> StdoutState {
    StdoutState { line: Seq::empty(), oversized: false, length: 0 }
}

/// A report of forwarded bytes.
pub open spec fn forwarded(bytes: Seq<u8>) -> MessageData {
    MessageData::Event(EventData::Stdout(bytes))
}

/// The state and the reports behind one byte.
pub open spec fn stdout_step(state: StdoutState, byte: u8) -> (StdoutState, Seq<MessageData>) {
    let length = if state.length == usize::MAX {
        usize::MAX
    } else {
        (state.length + 1) as usize
    };
    let full = !state.oversized && state.line.len() == MAX_CARGO_MESSAGE_BYTES;
    let oversized = state.oversized || full;
    let earlier: Seq<MessageData> = if full {
        seq![forwarded(state.line)]
    } else {
        Seq::empty()
    };
    let line = if full {
        seq![byte]
    } else {
        state.line.push(byte)
    };
    if byte == '\n' as u8 {
        if oversized {
            (line_start(), earlier.push(forwarded(line)).push(MessageData::MessageLimit(length)))
        } else {
            (line_start(), earlier + line_reports(line))
        }
    } else if oversized && line.len() == READ_BUFFER_BYTES {
        (StdoutState { line: Seq::empty(), oversized, length }, earlier.push(forwarded(line)))
    } else {
        (StdoutState { line, oversized, length }, earlier)
    }
}

/// The state and the reports behind bytes.
pub open spec fn stdout_run(state: StdoutState, bytes: Seq<u8>) -> (StdoutState, Seq<MessageData>)
    decreases bytes.len(),
{
    if bytes.len() == 0 {
        (state, Seq::empty())
    } else {
        let (before, reports) = stdout_run(state, bytes.drop_last());
        let (after, more) = stdout_step(before, bytes.last());
        (after, reports + more)
    }
}

/// The reports at the end of the output.
pub open spec fn stdout_end(state: StdoutState) -> Seq<MessageData> {
    if state.length == 0 {
        Seq::empty()
    } else if state.oversized {
        (if state.line.len() > 0 {
            seq![forwarded(state.line)]
        } else {
            Seq::empty()
        }).push(MessageData::MessageLimit(state.length))
    } else {
        line_reports(state.line)
    }
}

/// Splits standard output into lines without keeping more of one than a message may have.
pub struct StdoutReader {
    line: Vec<u8>,
    oversized: bool,
    length: usize,
}

impl StdoutReader {
    /// The mathematical state.
    pub closed spec fn state(&self) -> StdoutState {
        StdoutState { line: self.line@, oversized: self.oversized, length: self.length }
    }

    /// Starts at the first line.
    pub fn new() -> (result: Self)
        ensures
            result.state() == line_start(),
    {
        let result = StdoutReader { line: Vec::new(), oversized: false, length: 0 };
        assert(result.state().line =~= Seq::empty());
        result
    }

    fn take_line(&mut self) -> (result: Vec<u8>)
        ensures
            result@ == old(self).state().line,
            final(self).state() == (StdoutState { line: Seq::empty(), ..old(self).state() }),
    {
        let mut line: Vec<u8> = Vec::new();
        std::mem::swap(&mut line, &mut self.line);
        assert(self.line@ =~= Seq::empty());
        line
    }

    fn push_byte(&mut self, byte: u8, out: &mut Vec<ReaderMessage>)
        ensures
            final(self).state() == stdout_step(old(self).state(), byte).0,
            message_views(final(out)@) == message_views(old(out)@) + stdout_step(
                old(self).state(),
                byte,
            ).1,
    {
        let ghost before = self.state();
        let ghost seen = message_views(out@);
        self.length = self.length.saturating_add(1);
        if !self.oversized && self.line.len() == MAX_CARGO_MESSAGE_BYTES {
            let line = self.take_line();
            push_message(out, ReaderMessage::Event(CargoProcessEvent::Stdout { bytes: line }));
            self.oversized = true;
        }
        self.line.push(byte);
        proof {
            if !before.oversized && before.line.len() == MAX_CARGO_MESSAGE_BYTES {
                assert(self.line@ =~= seq![byte]);
            }
        }
        if byte == '\n' as u8 {
            let line = self.take_line();
            if self.oversized {
                push_message(out, ReaderMessage::Event(CargoProcessEvent::Stdout { bytes: line }));
                push_message(out, ReaderMessage::MessageLimit { actual: self.length });
            } else {
                process_stdout_line(line, out);
            }
            self.oversized = false;
            self.length = 0;
        } else if self.oversized && self.line.len() == READ_BUFFER_BYTES {
            let line = self.take_line();
            push_message(out, ReaderMessage::Event(CargoProcessEvent::Stdout { bytes: line }));
        }
        assert(message_views(out@) =~= seen + stdout_step(before, byte).1);
    }

    /// Reports the next bytes of the output.
    pub fn push(&mut self, bytes: &[u8], out: &mut Vec<ReaderMessage>)
        ensures
            final(self).state() == stdout_run(old(self).state(), bytes@).0,
            message_views(final(out)@) == message_views(old(out)@) + stdout_run(
                old(self).state(),
                bytes@,
            ).1,
    {
        let ghost before = self.state();
        let ghost seen = message_views(out@);
        let mut index: usize = 0;
        assert(message_views(out@) =~= seen + stdout_run(before, bytes@.take(0)).1);
        while index < bytes.len()
            invariant
                index <= bytes@.len(),
                self.state() == stdout_run(before, bytes@.take(index as int)).0,
                message_views(out@) == seen + stdout_run(before, bytes@.take(index as int)).1,
            decreases bytes.len() - index,
        {
            let ghost reports = stdout_run(before, bytes@.take(index as int)).1;
            let ghost more = stdout_step(self.state(), bytes@[index as int]).1;
            self.push_byte(bytes[index], out);
            proof {
                assert(bytes@.take(index + 1).drop_last() =~= bytes@.take(index as int));
                assert(bytes@.take(index + 1).last() == bytes@[index as int]);
                assert(message_views(out@) =~= seen + (reports + more));
            }
            index += 1;
        }
        assert(bytes@.take(bytes@.len() as int) =~= bytes@);
    }

    /// Reports what is left at the end of the output.
    pub fn finish(self, out: &mut Vec<ReaderMessage>)
        ensures
            message_views(final(out)@) == message_views(old(out)@) + stdout_end(self.state()),
    {
        let ghost seen = message_views(out@);
        if self.length != 0 {
            if self.oversized {
                if self.line.len() > 0 {
                    push_message(
                        out,
                        ReaderMessage::Event(CargoProcessEvent::Stdout { bytes: self.line }),
                    );
                }
                push_message(out, ReaderMessage::MessageLimit { actual: self.length });
            } else {
                process_stdout_line(self.line, out);
            }
        }
        assert(message_views(out@) =~= seen + stdout_end(self.state()));
    }
}

/// The last bytes of a sequence.
pub open spec fn ending(bytes: Seq<u8>, maximum: int) -> Seq<u8> {
    if bytes.len() <= maximum {
        bytes
    } else {
        bytes.skip(bytes.len() - maximum)
    }
}

/// Keeps the end of a byte stream.
#[derive(Debug)]
pub struct BoundedTail {
    bytes: Vec<u8>,
    maximum: usize,
    truncated: bool,
}

impl BoundedTail {
    #[verifier::type_invariant]
    spec fn bounded(&self) -> bool {
        &&& self.maximum > 0
        &&& self.bytes@.len() <= self.maximum
    }

    /// The kept bytes.
    pub closed spec fn kept(&self) -> Seq<u8> {
        self.bytes@
    }

    /// The largest number of kept bytes.
    pub closed spec fn maximum(&self) -> usize {
        self.maximum
    }

    /// Earlier bytes were dropped.
    pub closed spec fn truncated(&self) -> bool {
        self.truncated
    }

    /// Starts with no bytes.
    pub fn new(maximum: usize) -> (result: Self)
        requires
            maximum != 0,
        ensures
            result.kept() == Seq::<u8>::empty(),
            result.maximum() == maximum,
            !result.truncated(),
    {
        let result = BoundedTail { bytes: Vec::new(), maximum, truncated: false };
        assert(result.kept() =~= Seq::empty());
        result
    }

    /// Appends bytes and drops those that no longer fit.
    pub fn push(&mut self, bytes: &[u8])
        ensures
            final(self).maximum() == old(self).maximum(),
            final(self).kept() == ending(
                old(self).kept() + bytes@,
                old(self).maximum() as int,
            ),
            final(self).truncated() == (old(self).truncated() || bytes@.len() >= old(
                self,
            ).maximum() || old(self).kept().len() + bytes@.len() > old(self).maximum()),
    {
        proof {
            use_type_invariant(&*self);
        }
        let ghost all = self.bytes@ + bytes@;
        let maximum: usize = self.maximum;
        if bytes.len() >= maximum {
            let mut kept: Vec<u8> = Vec::new();
            put_bytes(&mut kept, tail(bytes, bytes.len() - maximum));
            assert(kept@ =~= ending(all, maximum as int));
            *self = BoundedTail { bytes: kept, maximum, truncated: true };
            return;
        }
        if self.bytes.len() > maximum - bytes.len() {
            let excess: usize = self.bytes.len() - (maximum - bytes.len());
            let mut kept: Vec<u8> = Vec::new();
            put_bytes(&mut kept, tail(self.bytes.as_slice(), excess));
            put_bytes(&mut kept, bytes);
            assert(kept@ =~= ending(all, maximum as int));
            *self = BoundedTail { bytes: kept, maximum, truncated: true };
            return;
        }
        let mut kept: Vec<u8> = Vec::new();
        std::mem::swap(&mut kept, &mut self.bytes);
        put_bytes(&mut kept, bytes);
        assert(kept@ =~= ending(all, maximum as int));
        *self = BoundedTail { bytes: kept, maximum, truncated: self.truncated };
    }

    /// Returns the readable text of the kept bytes.
    pub fn text(&self) -> (result: String)
        ensures
            result@ == tail_text(self.kept(), self.truncated()),
    {
        let mut text = String::new();
        if self.truncated {
            text.append("[earlier Cargo output was truncated]\n");
        }
        text.append(lossy_text(self.bytes.as_slice()).as_str());
        assert(text@ =~= tail_text(self.kept(), self.truncated()));
        text
    }
}

/// The readable text of the end of a stream.
pub open spec fn tail_text(kept: Seq<u8>, truncated: bool) -> Seq<char> {
    if truncated {
        "[earlier Cargo output was truncated]\n"@ + crate::text::lossy(kept)
    } else {
        crate::text::lossy(kept)
    }
}

/// How far the reports of a process have been read.
pub struct RunData {
    /// The number of artifacts.
    pub artifacts: usize,
    /// An artifact was not fresh.
    pub stale: bool,
    /// The end of the user-visible output.
    pub kept: Seq<u8>,
    /// Earlier user-visible output was dropped.
    pub truncated: bool,
    /// The first problem.
    pub problem: Option<OutputProblem<Seq<char>>>,
}

/// The state before the first report.
pub open spec fn run_start() -> RunData {
    RunData {
        artifacts: 0,
        stale: false,
        kept: Seq::empty(),
        truncated: false,
        problem: None,
    }
}

/// The state behind a report.
pub open spec fn run_step(run: RunData, message: MessageData) -> RunData {
    match message {
        MessageData::Event(event) => RunData {
            kept: ending(run.kept + event.bytes(), MAX_FAILURE_DIAGNOSTIC_BYTES as int),
            truncated: run.truncated || event.bytes().len() >= MAX_FAILURE_DIAGNOSTIC_BYTES
                || run.kept.len() + event.bytes().len() > MAX_FAILURE_DIAGNOSTIC_BYTES,
            ..run
        },
        MessageData::Artifact(fresh) => RunData {
            artifacts: if run.artifacts == usize::MAX {
                usize::MAX
            } else {
                (run.artifacts + 1) as usize
            },
            stale: run.stale || !fresh,
            ..run
        },
        MessageData::MessageLimit(actual) => RunData {
            problem: match run.problem {
                Some(problem) => Some(problem),
                None => Some(
                    OutputProblem::MessageLength {
                        maximum: MAX_CARGO_MESSAGE_BYTES,
                        got: actual,
                    },
                ),
            },
            ..run
        },
        MessageData::ReadError(problem) => RunData {
            problem: match run.problem {
                Some(problem) => Some(problem),
                None => Some(OutputProblem::Read { problem }),
            },
            ..run
        },
    }
}

/// Folds the reports of one process.
pub struct CargoRunState {
    artifacts: ArtifactSummary,
    diagnostics: BoundedTail,
    problem: Option<OutputProblem<String>>,
}

/// The mathematical problem of an optional one.
pub open spec fn problem_view(problem: Option<OutputProblem<String>>) -> Option<
    OutputProblem<Seq<char>>,
> {
    match problem {
        Some(problem) => Some(problem@),
        None => None,
    }
}

impl CargoRunState {
    #[verifier::type_invariant]
    spec fn bounded(&self) -> bool {
        self.diagnostics.maximum() == MAX_FAILURE_DIAGNOSTIC_BYTES
    }

    /// The mathematical state.
    pub closed spec fn data(&self) -> RunData {
        RunData {
            artifacts: self.artifacts.count(),
            stale: self.artifacts.stale(),
            kept: self.diagnostics.kept(),
            truncated: self.diagnostics.truncated(),
            problem: problem_view(self.problem),
        }
    }

    /// Starts before the first report.
    pub fn new() -> (result: Self)
        ensures
            result.data() == run_start(),
    {
        CargoRunState {
            artifacts: ArtifactSummary::default(),
            diagnostics: BoundedTail::new(MAX_FAILURE_DIAGNOSTIC_BYTES),
            problem: None,
        }
    }

    /// Reads a report, and returns the event that it holds for the caller.
    pub fn accept(self, message: ReaderMessage) -> (result: (Self, Option<CargoProcessEvent>))
        ensures
            result.0.data() == run_step(self.data(), message@),
            match message {
                ReaderMessage::Event(event) => result.1 == Some(event),
                _ => result.1 is None,
            },
    {
        proof {
            use_type_invariant(&self);
        }
        let CargoRunState { artifacts, diagnostics, problem } = self;
        let mut artifacts = artifacts;
        let mut diagnostics = diagnostics;
        match message {
            ReaderMessage::Event(event) => {
                diagnostics.push(event.bytes());
                (CargoRunState { artifacts, diagnostics, problem }, Some(event))
            },
            ReaderMessage::Artifact { fresh } => {
                artifacts.record(fresh);
                (CargoRunState { artifacts, diagnostics, problem }, None)
            },
            ReaderMessage::MessageLimit { actual } => {
                let problem = match problem {
                    Some(problem) => Some(problem),
                    None => Some(
                        OutputProblem::MessageLength {
                            maximum: MAX_CARGO_MESSAGE_BYTES,
                            got: actual,
                        },
                    ),
                };
                (CargoRunState { artifacts, diagnostics, problem }, None)
            },
            ReaderMessage::ReadError(text) => {
                let problem = match problem {
                    Some(problem) => Some(problem),
                    None => Some(OutputProblem::Read { problem: text }),
                };
                (CargoRunState { artifacts, diagnostics, problem }, None)
            },
        }
    }

    /// Ends the process.
    pub fn finish(self, program: &str, ended: Result<ExitReport, SourceError>) -> (result: Result<
        CargoRun,
        Error,
    >)
        ensures
            match (result, run_result(self.data(), program@, ended)) {
                (Ok(run), Ok(_)) => {
                    &&& run.data() == self.data()
                    &&& Ok::<ExitReport, SourceError>(run.report()) == ended
                },
                (Err(error), Err(expected)) => error@ == expected,
                _ => false,
            },
    {
        match ended {
            Err(source) => Err(
                Failure::CargoOutput {
                    program: String::from_str(program),
                    problem: OutputProblem::Wait { problem: source.message },
                },
            ),
            Ok(report) => match self.problem {
                Some(problem) => Err(
                    Failure::CargoOutput { program: String::from_str(program), problem },
                ),
                None => Ok(CargoRun { report, state: self }),
            },
        }
    }
}

/// The end of a process, or why its output is not usable.
pub open spec fn run_result(
    run: RunData,
    program: Seq<char>,
    ended: Result<ExitReport, SourceError>,
) -> Result<(), super::error::ErrorData> {
    match ended {
        Err(source) => Err(
            Failure::CargoOutput {
                program,
                problem: OutputProblem::Wait { problem: source.message@ },
            },
        ),
        Ok(_) => match run.problem {
            Some(problem) => Err(Failure::CargoOutput { program, problem }),
            None => Ok(()),
        },
    }
}

/// A completely read Cargo process.
pub struct CargoRun {
    report: ExitReport,
    state: CargoRunState,
}

impl CargoRun {
    /// The mathematical state behind the last report.
    pub closed spec fn data(&self) -> RunData {
        self.state.data()
    }

    /// How the process ended.
    pub closed spec fn report(&self) -> ExitReport {
        self.report
    }

    /// Returns how the process ended.
    pub fn status(&self) -> (result: &ExitReport)
        ensures
            *result == self.report(),
    {
        &self.report
    }

    /// Returns the number of artifacts if there are any and all are fresh.
    pub fn fresh_artifact_count(&self) -> (result: Option<usize>)
        ensures
            result == fresh_artifacts(self.data().artifacts, self.data().stale),
    {
        self.state.artifacts.fresh_count()
    }

    /// Returns the readable end of the user-visible output.
    pub fn diagnostics(&self) -> (result: String)
        ensures
            result@ == tail_text(self.data().kept, self.data().truncated),
    {
        self.state.diagnostics.text()
    }
}

} // verus!

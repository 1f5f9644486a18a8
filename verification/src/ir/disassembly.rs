//! Follows one run of the disassembler.

use super::capture::{extend_diagnostics, MAX_DISASSEMBLER_DIAGNOSTIC_BYTES};
use super::cargo_output;
use super::error::{filesystem_failure, Error, ErrorData, Failure};
use crate::process::ExitReport;
use crate::source::SourceError;
use crate::text;
use crate::text::lossy_text;
use vstd::prelude::*;

verus! {

/// How far a run of the disassembler has come.
#[derive(Debug)]
pub enum Disassembly {
    /// The process is started.
    Starting,
    /// Its diagnostics are read. So many were kept before.
    Reading(Vec<u8>),
    /// Its diagnostics are complete and its end is awaited.
    Waiting(Vec<u8>),
    /// The text was written.
    Done,
}

/// The mathematical counterpart of [`Disassembly`].
pub enum DisassemblyData {
    /// The process is started.
    Starting,
    /// Its diagnostics are read. So many were kept before.
    Reading(Seq<u8>),
    /// Its diagnostics are complete and its end is awaited.
    Waiting(Seq<u8>),
    /// The text was written.
    Done,
}

impl View for Disassembly {
    type V = DisassemblyData;

    open spec fn view(&self) -> DisassemblyData {
        match self {
            Disassembly::Starting => DisassemblyData::Starting,
            Disassembly::Reading(diagnostics) => DisassemblyData::Reading(diagnostics@),
            Disassembly::Waiting(diagnostics) => DisassemblyData::Waiting(diagnostics@),
            Disassembly::Done => DisassemblyData::Done,
        }
    }
}

/// What an outside step of a run gave.
pub enum DisassemblyReply {
    /// The process was started.
    Started(Result<(), SourceError>),
    /// A piece of diagnostics was read. An empty one is their end.
    Read(Result<Vec<u8>, SourceError>),
    /// The process ended.
    Ended(Result<ExitReport, SourceError>),
}

/// The run behind a reply. Another reply changes nothing.
pub open spec fn disassembly_after(
    program: Seq<char>,
    state: DisassemblyData,
    reply: DisassemblyReply,
) -> Result<DisassemblyData, ErrorData> {
    match (state, reply) {
        (DisassemblyData::Starting, DisassemblyReply::Started(started)) => match started {
            Err(source) => Err(Failure::StartProcess { program, source }),
            Ok(()) => Ok(DisassemblyData::Reading(Seq::empty())),
        },
        (DisassemblyData::Reading(diagnostics), DisassemblyReply::Read(piece)) => match piece {
            Err(source) => Err(
                Failure::Filesystem { operation: "read diagnostics from"@, path: program, source },
            ),
            Ok(piece) => if piece@.len() == 0 {
                Ok(DisassemblyData::Waiting(diagnostics))
            } else {
                Ok(
                    DisassemblyData::Reading(
                        cargo_output::ending(
                            diagnostics + piece@,
                            MAX_DISASSEMBLER_DIAGNOSTIC_BYTES as int,
                        ),
                    ),
                )
            },
        },
        (DisassemblyData::Waiting(diagnostics), DisassemblyReply::Ended(ended)) => match ended {
            Err(source) => Err(
                Failure::Filesystem { operation: "wait for"@, path: program, source },
            ),
            Ok(report) => if report.success {
                Ok(DisassemblyData::Done)
            } else {
                Err(
                    Failure::ProcessFailed {
                        program,
                        status: report.status@,
                        diagnostics: text::lossy(diagnostics),
                    },
                )
            },
        },
        _ => Ok(state),
    }
}

/// Takes the reply to the outside step that a run of the disassembler waits for.
///
/// The disassembler fails if it does not start, its diagnostics cannot be read, or it reports a
/// failure. Only the end of its diagnostics is kept.
pub fn run_disassembler(llvm_dis: &str, state: Disassembly, reply: DisassemblyReply) -> (result:
    Result<Disassembly, Error>)
    ensures
        match (result, disassembly_after(llvm_dis@, state@, reply)) {
            (Ok(next), Ok(expected)) => next@ == expected,
            (Err(error), Err(expected)) => error@ == expected,
            _ => false,
        },
{
    match (state, reply) {
        (Disassembly::Starting, DisassemblyReply::Started(started)) => match started {
            Err(source) => Err(
                Failure::StartProcess { program: String::from_str(llvm_dis), source },
            ),
            Ok(()) => Ok(Disassembly::Reading(Vec::new())),
        },
        (Disassembly::Reading(diagnostics), DisassemblyReply::Read(piece)) => match piece {
            Err(source) => Err(filesystem_failure("read diagnostics from", llvm_dis, source)),
            Ok(piece) => if piece.len() == 0 {
                Ok(Disassembly::Waiting(diagnostics))
            } else {
                let mut diagnostics = diagnostics;
                extend_diagnostics(&mut diagnostics, piece.as_slice());
                Ok(Disassembly::Reading(diagnostics))
            },
        },
        (Disassembly::Waiting(diagnostics), DisassemblyReply::Ended(ended)) => match ended {
            Err(source) => Err(filesystem_failure("wait for", llvm_dis, source)),
            Ok(report) => if report.success {
                Ok(Disassembly::Done)
            } else {
                Err(
                    Failure::ProcessFailed {
                        program: String::from_str(llvm_dis),
                        status: report.status,
                        diagnostics: lossy_text(diagnostics.as_slice()),
                    },
                )
            },
        },
        (state, _) => Ok(state),
    }
}

/// The diagnostics that a run keeps.
pub open spec fn kept(state: DisassemblyData) -> Seq<u8> {
    match state {
        DisassemblyData::Reading(diagnostics) | DisassemblyData::Waiting(diagnostics) => diagnostics,
        _ => Seq::empty(),
    }
}

/// However much a disassembler prints, a run keeps a bounded number of bytes of it, and they are the
/// last ones. A run is done only behind a successful end.
pub proof fn diagnostics_are_bounded(
    program: Seq<char>,
    state: DisassemblyData,
    reply: DisassemblyReply,
)
    requires
        kept(state).len() <= MAX_DISASSEMBLER_DIAGNOSTIC_BYTES,
    ensures
        disassembly_after(program, state, reply) matches Ok(next) ==> {
            &&& kept(next).len() <= MAX_DISASSEMBLER_DIAGNOSTIC_BYTES
            &&& next is Reading && state is Reading && (reply matches DisassemblyReply::Read(
                Ok(piece),
            )) ==> kept(next).is_suffix_of(kept(state) + reply->Read_0->Ok_0@)
            &&& next is Done && !(state is Done) ==> state is Waiting && (reply matches DisassemblyReply::Ended(
                Ok(report),
            ) && report.success)
        },
{
    if let (DisassemblyData::Reading(diagnostics), DisassemblyReply::Read(Ok(piece))) = (state, reply) {
        let all = diagnostics + piece@;
        let end = cargo_output::ending(all, MAX_DISASSEMBLER_DIAGNOSTIC_BYTES as int);
        assert(end =~= all.subrange(all.len() - end.len(), all.len() as int));
    }
}

} // verus!

//! What other programs hand back.

use crate::source::SourceError;
use crate::text::lossy_text;
use vstd::prelude::*;

verus! {

/// How a process ended.
#[derive(Debug)]
pub struct ExitReport {
    /// The process succeeded.
    pub success: bool,
    /// The printable status.
    pub status: String,
}

/// What a finished process left behind.
#[derive(Debug)]
pub struct ProcessOutput {
    /// How the process ended.
    pub report: ExitReport,
    /// The bytes of its standard output.
    pub stdout: Vec<u8>,
    /// The bytes of its standard error.
    pub stderr: Vec<u8>,
}

/// Why a process gave no output.
#[derive(Debug)]
pub enum ProcessFault {
    /// The process could not be started.
    Start(SourceError),
    /// The process failed.
    Failed {
        /// The printable status.
        status: String,
        /// The readable standard error.
        diagnostics: String,
    },
}

/// The output of a process, or why there is none, agrees with what came back.
pub open spec fn accepted(
    launched: Result<ProcessOutput, SourceError>,
    result: Result<Vec<u8>, ProcessFault>,
) -> bool {
    match (launched, result) {
        (Err(source), Err(ProcessFault::Start(reported))) => reported == source,
        (Ok(output), Ok(stdout)) => output.report.success && stdout == output.stdout,
        (Ok(output), Err(ProcessFault::Failed { status, diagnostics })) => {
            &&& !output.report.success
            &&& status == output.report.status
            &&& diagnostics@ == crate::text::lossy(output.stderr@)
        },
        _ => false,
    }
}

/// Requires that a process was started and succeeded.
pub fn require_success(launched: Result<ProcessOutput, SourceError>) -> (result: Result<
    Vec<u8>,
    ProcessFault,
>)
    ensures
        accepted(launched, result),
{
    match launched {
        Err(source) => Err(ProcessFault::Start(source)),
        Ok(output) => if output.report.success {
            Ok(output.stdout)
        } else {
            let diagnostics = lossy_text(output.stderr.as_slice());
            Err(ProcessFault::Failed { status: output.report.status, diagnostics })
        },
    }
}

} // verus!

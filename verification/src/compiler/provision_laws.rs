//! How drivers are provided and attempts go on.

use super::driver;
use super::driver::{
    DriverPlanData, DriverSourceData, EntryFile, EntryReply, EntryStep, ProvisionData,
    ProvisionReply,
};
use super::error::{EnvironmentProblem, ErrorData, Failure};
use super::operation;
use super::operation::{CollectionData, ProbeData, ProbeReply};
use super::prepared::PreparedBuildData;
use super::prepared::ReceiptStep;
use crate::paths;
use crate::source::{FailureKind, SourceError};
use vstd::prelude::*;

verus! {

/// A cached driver belongs to a key exactly if its identity file holds the format line and the key,
/// each on a line of its own.
pub proof fn identities_are_compared(entry: Seq<char>, key: Seq<char>, bytes: Vec<u8>)
    ensures
        ({
            let right = vstd::utf8::encode_utf8("optic-driver-1\n"@ + key + "\n"@);
            let after = driver::entry_after(
                entry,
                key,
                EntryStep::Read,
                EntryReply::Contents(Ok(bytes)),
            );
            &&& bytes@ == right ==> after == Ok::<EntryStep, ErrorData>(EntryStep::Ask)
            &&& bytes@ != right ==> after == Err::<EntryStep, ErrorData>(
                Failure::CompilerEnvironment {
                    problem: EnvironmentProblem::CacheIdentity {
                        path: paths::joined(entry, "identity"@),
                    },
                },
            )
        }),
{
}

/// An identity file of another length is not read.
pub proof fn identities_are_measured(entry: Seq<char>, key: Seq<char>, length: u64)
    ensures
        ({
            let right = vstd::utf8::encode_utf8("optic-driver-1\n"@ + key + "\n"@);
            let after = driver::entry_after(
                entry,
                key,
                EntryStep::Measure,
                EntryReply::Measured(Ok(length)),
            );
            &&& length == right.len() ==> after == Ok::<EntryStep, ErrorData>(EntryStep::Read)
            &&& length != right.len() ==> after == Err::<EntryStep, ErrorData>(
                Failure::CompilerEnvironment {
                    problem: EnvironmentProblem::CacheIdentity {
                        path: paths::joined(entry, "identity"@),
                    },
                },
            )
        }),
{
}

/// A cached driver is used only if it runs and answers with its own key.
pub proof fn drivers_answer_with_their_key(entry: Seq<char>, key: Seq<char>, reply: EntryReply)
    requires
        reply is Ran,
    ensures
        ({
            let after = driver::entry_after(entry, key, EntryStep::Ask, reply);
            let executable = paths::joined(entry, "optic-rustc-driver"@);
            match reply->Ran_0 {
                Err(source) => after == Err::<EntryStep, ErrorData>(
                    Failure::StartProcess { program: executable, source },
                ),
                Ok(output) => if output.report.success && output.stdout@
                    == vstd::utf8::encode_utf8(key + "\n"@) {
                    after == Ok::<EntryStep, ErrorData>(EntryStep::Valid)
                } else {
                    after == Err::<EntryStep, ErrorData>(
                        Failure::CompilerEnvironment {
                            problem: EnvironmentProblem::CacheKey { path: executable },
                        },
                    )
                },
            }
        }),
{
}

/// The files of a cached driver are inspected one after the other: the directory, the identity and
/// the executable. One that fails ends the inspection.
pub proof fn entries_are_inspected_in_order(
    entry: Seq<char>,
    key: Seq<char>,
    file: EntryFile,
    found: Result<driver::FileFacts, SourceError>,
)
    ensures
        ({
            let after = driver::entry_after(
                entry,
                key,
                EntryStep::Inspect(file),
                EntryReply::Inspected(found),
            );
            match driver::file_verdict(entry, file, found) {
                Err(error) => after == Err::<EntryStep, ErrorData>(error),
                Ok(()) => after == Ok::<EntryStep, ErrorData>(
                    match file {
                        EntryFile::Directory => EntryStep::Inspect(EntryFile::Identity),
                        EntryFile::Identity => EntryStep::Inspect(EntryFile::Executable),
                        EntryFile::Executable => EntryStep::Measure,
                    },
                ),
            }
        }),
{
}

/// A driver that is in the cache is validated. One that is missing is built, and any other failure
/// to look for it is an error.
pub proof fn missing_drivers_are_built(
    plan: DriverPlanData,
    rustc: Seq<char>,
    sources: Seq<DriverSourceData>,
    looked: Result<(), SourceError>,
)
    ensures
        ({
            let after = driver::provision_after(
                plan,
                rustc,
                sources,
                ProvisionData::Inspecting,
                ProvisionReply::Looked(looked),
            );
            match looked {
                Ok(()) => after == Ok::<ProvisionData, ErrorData>(
                    ProvisionData::Validating(EntryStep::Inspect(EntryFile::Directory)),
                ),
                Err(source) => if source.kind == FailureKind::NotFound {
                    after == Ok::<ProvisionData, ErrorData>(ProvisionData::CreatingTemporary)
                } else {
                    after == Err::<ProvisionData, ErrorData>(
                        Failure::Filesystem {
                            operation: "inspect driver cache entry"@,
                            path: plan.entry,
                            source,
                        },
                    )
                },
            }
        }),
{
}

/// Every source of the driver is written, in its order, before the driver is compiled.
pub proof fn sources_are_written_first(
    plan: DriverPlanData,
    rustc: Seq<char>,
    sources: Seq<DriverSourceData>,
    directory: Seq<char>,
    index: usize,
    done: Result<(), SourceError>,
)
    requires
        index < sources.len(),
        sources.len() <= usize::MAX,
    ensures
        ({
            let after = driver::provision_after(
                plan,
                rustc,
                sources,
                ProvisionData::Writing(directory, index),
                ProvisionReply::Done(done),
            );
            match done {
                Err(source) => after == Err::<ProvisionData, ErrorData>(
                    Failure::Filesystem {
                        operation: "write embedded driver source"@,
                        path: paths::joined(directory, sources[index as int].name),
                        source,
                    },
                ),
                Ok(()) => after == Ok::<ProvisionData, ErrorData>(
                    if index + 1 == sources.len() {
                        ProvisionData::Compiling(directory)
                    } else {
                        ProvisionData::Writing(directory, (index + 1) as usize)
                    },
                ),
            }
        }),
{
}

/// A new driver gets its identity only once it is compiled. A compiler that fails is reported with
/// its own output and the advice to install what the build needs.
pub proof fn compiled_drivers_are_identified(
    plan: DriverPlanData,
    rustc: Seq<char>,
    sources: Seq<DriverSourceData>,
    directory: Seq<char>,
    reply: ProvisionReply,
)
    requires
        reply is Ran,
    ensures
        ({
            let after = driver::provision_after(
                plan,
                rustc,
                sources,
                ProvisionData::Compiling(directory),
                reply,
            );
            match reply->Ran_0 {
                Err(source) => after == Err::<ProvisionData, ErrorData>(
                    Failure::StartProcess { program: rustc, source },
                ),
                Ok(output) => if output.report.success {
                    after == Ok::<ProvisionData, ErrorData>(ProvisionData::Identifying(directory))
                } else {
                    after == Err::<ProvisionData, ErrorData>(
                        Failure::ProcessFailed {
                            program: rustc,
                            status: output.report.status@,
                            diagnostics: Some(
                                crate::text::lossy(output.stderr@)
                                    + "\nDriver compilation requires rustc-dev and llvm-tools for this exact toolchain. Install those components with rustup component add rustc-dev llvm-tools."@,
                            ),
                        },
                    )
                },
            }
        }),
{
}

/// A new driver is validated like a cached one, with the key of the plan, and only then published.
pub proof fn new_drivers_are_validated_before_they_are_published(
    plan: DriverPlanData,
    rustc: Seq<char>,
    sources: Seq<DriverSourceData>,
    directory: Seq<char>,
    step: EntryStep,
    reply: EntryReply,
    done: Result<(), SourceError>,
)
    ensures
        match driver::entry_after(directory, plan.key, step, reply) {
            Err(error) => driver::provision_after(
                plan,
                rustc,
                sources,
                ProvisionData::ValidatingNew(directory, step),
                ProvisionReply::Entry(reply),
            ) == Err::<ProvisionData, ErrorData>(error),
            Ok(next) => driver::provision_after(
                plan,
                rustc,
                sources,
                ProvisionData::ValidatingNew(directory, step),
                ProvisionReply::Entry(reply),
            ) == Ok::<ProvisionData, ErrorData>(
                if next == EntryStep::Valid {
                    ProvisionData::Publishing(directory)
                } else {
                    ProvisionData::ValidatingNew(directory, next)
                },
            ),
        },
        match done {
            Ok(()) => driver::provision_after(
                plan,
                rustc,
                sources,
                ProvisionData::Publishing(directory),
                ProvisionReply::Done(done),
            ) == Ok::<ProvisionData, ErrorData>(ProvisionData::Ready),
            Err(source) => driver::provision_after(
                plan,
                rustc,
                sources,
                ProvisionData::Publishing(directory),
                ProvisionReply::Done(done),
            ) == Err::<ProvisionData, ErrorData>(
                Failure::Filesystem {
                    operation: "publish driver cache entry"@,
                    path: plan.entry,
                    source,
                },
            ),
        },
{
}

/// A probe looks for the receipt of an attempt that ended without a failure. A failure of the
/// attempt is the outcome of the probe.
pub proof fn failed_probes_are_errors(
    prepared: PreparedBuildData,
    candidate: super::prepared::CaptureAnalysisData,
    directory: Seq<char>,
    reply: ProbeReply,
)
    requires
        reply is Ran,
    ensures
        ({
            let after = operation::probe_after(
                prepared,
                candidate,
                directory,
                ProbeData::Running,
                reply,
            );
            match reply->Ran_0 {
                Err(error) => after == Err::<ProbeData, ErrorData>(error@),
                Ok(attempt) => match attempt@.failure {
                    Some(error) => after == Err::<ProbeData, ErrorData>(error),
                    None => after == Ok::<ProbeData, ErrorData>(
                        ProbeData::Receipt(attempt@, ReceiptStep::Inspect),
                    ),
                },
            }
        }),
{
}

/// A collection goes on only behind an attempt that ended without a failure and with success.
pub proof fn failed_attempts_are_not_collected(
    prepared: PreparedBuildData,
    ran: Result<super::attempt::EndedAttempt, super::error::Error>,
)
    ensures
        operation::after_cargo(prepared, ran) is Ok <==> ran is Ok && ran->Ok_0@.failure is None
            && ran->Ok_0@.report.success,
        operation::after_cargo(prepared, ran) matches Ok(after) ==> after
            == CollectionData::Receipt(ran->Ok_0@, ReceiptStep::Inspect),
        ran is Ok && ran->Ok_0@.failure is Some ==> operation::after_cargo(prepared, ran) == Err::<
            CollectionData,
            ErrorData,
        >(ran->Ok_0@.failure->Some_0),
{
}

} // verus!

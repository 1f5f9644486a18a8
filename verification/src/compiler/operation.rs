//! Follows the Cargo attempts of a prepared request from their start to their verdict.

use super::artifacts;
use super::artifacts::{CollectReply, CollectStep, Materialization, MaterializationData};
use super::attempt;
use super::attempt::{EndedAttempt, EndedData};
use super::collection;
use super::collection::{CollectedBuild, CollectedBuildData};
use super::error::{Error, ErrorData};
use super::metadata::{ArtifactData, CargoArtifactRecord};
use super::observation;
use super::prepared;
use super::prepared::{
    load_manifest, selected_target_marker, verified_stale_receipt, CaptureAnalysis,
    CaptureAnalysisData, Freshness, PreparedBuild, PreparedBuildData, ReceiptReply, ReceiptStep,
};
use crate::paths;
use crate::paths::join;
use crate::source::{ByteSource, SourceError};
use crate::wire;
use vstd::prelude::*;

verus! {

/// How far a probe has come.
pub enum Probe {
    /// Cargo runs.
    Running,
    /// The receipt of the attempt is verified.
    Receipt(EndedAttempt, ReceiptStep),
    /// The manifest is looked for. The attempt left a receipt or not.
    Looking(EndedAttempt, bool),
    /// The attempt is classified.
    Classified(EndedAttempt, Result<Freshness, Error>),
}

/// The mathematical counterpart of [`Probe`].
pub enum ProbeData {
    /// Cargo runs.
    Running,
    /// The receipt of the attempt is verified.
    Receipt(EndedData, ReceiptStep),
    /// The manifest is looked for. The attempt left a receipt or not.
    Looking(EndedData, bool),
    /// The attempt is classified.
    Classified(EndedData, Result<Freshness, ErrorData>),
}

/// A mathematical classification.
pub open spec fn verdict_view(result: Result<Freshness, Error>) -> Result<Freshness, ErrorData> {
    match result {
        Ok(freshness) => Ok(freshness),
        Err(error) => Err(error@),
    }
}

impl View for Probe {
    type V = ProbeData;

    open spec fn view(&self) -> ProbeData {
        match self {
            Probe::Running => ProbeData::Running,
            Probe::Receipt(attempt, step) => ProbeData::Receipt(attempt@, *step),
            Probe::Looking(attempt, stale) => ProbeData::Looking(attempt@, *stale),
            Probe::Classified(attempt, result) => ProbeData::Classified(
                attempt@,
                verdict_view(*result),
            ),
        }
    }
}

/// What an outside step of a probe gave.
pub enum ProbeReply {
    /// Cargo ran.
    Ran(Result<EndedAttempt, Error>),
    /// A step of the verification of the receipt ended.
    Receipt(ReceiptReply),
    /// The manifest was looked for.
    Found(Result<bool, SourceError>),
}

/// The probe behind a reply. Another reply changes nothing.
pub open spec fn probe_after(
    prepared: PreparedBuildData,
    candidate: CaptureAnalysisData,
    directory: Seq<char>,
    state: ProbeData,
    reply: ProbeReply,
) -> Result<ProbeData, ErrorData> {
    match (state, reply) {
        (ProbeData::Running, ProbeReply::Ran(ran)) => match ran {
            Err(error) => Err(error@),
            Ok(attempt) => match attempt@.failure {
                Some(error) => Err(error),
                None => Ok(ProbeData::Receipt(attempt@, ReceiptStep::Inspect)),
            },
        },
        (ProbeData::Receipt(attempt, step), ProbeReply::Receipt(reply)) => match
            prepared::receipt_after(
            paths::joined(directory, "stale"@),
            prepared::marker_of(candidate.token),
            step,
            reply,
        ) {
            Err(error) => Ok(ProbeData::Classified(attempt, Err(error))),
            Ok(ReceiptStep::Known(stale)) => Ok(ProbeData::Looking(attempt, stale)),
            Ok(step) => Ok(ProbeData::Receipt(attempt, step)),
        },
        (ProbeData::Looking(attempt, stale), ProbeReply::Found(found)) => Ok(
            ProbeData::Classified(
                attempt,
                prepared::probe_verdict(prepared, attempt, candidate, directory, stale, found),
            ),
        ),
        _ => Ok(state),
    }
}

/// Takes the reply to the outside step that a probe waits for.
///
/// Only a Cargo process that could not be followed to its end, or whose messages could not be read,
/// is an error here. Every other outcome is classified, so that the diagnostics of the attempt can
/// be written first.
pub fn follow_probe(
    prepared: &PreparedBuild,
    candidate: &CaptureAnalysis,
    directory: &str,
    state: Probe,
    reply: ProbeReply,
) -> (result: Result<Probe, Error>)
    requires
        wire::text_fits(prepared::marker_of(candidate@.token)),
    ensures
        match (result, probe_after(prepared@, candidate@, directory@, state@, reply)) {
            (Ok(next), Ok(expected)) => next@ == expected,
            (Err(error), Err(expected)) => error@ == expected,
            _ => false,
        },
{
    match (state, reply) {
        (Probe::Running, ProbeReply::Ran(ran)) => match ran {
            Err(error) => Err(error),
            Ok(attempt) => match attempt.failure {
                Some(error) => Err(error),
                None => Ok(Probe::Receipt(attempt, ReceiptStep::Inspect)),
            },
        },
        (Probe::Receipt(attempt, step), ProbeReply::Receipt(reply)) => {
            let path = join(directory, "stale");
            let marker = selected_target_marker(candidate.token.as_str());
            match verified_stale_receipt(path.as_str(), marker.as_str(), step, reply) {
                Err(error) => Ok(Probe::Classified(attempt, Err(error))),
                Ok(ReceiptStep::Known(stale)) => Ok(Probe::Looking(attempt, stale)),
                Ok(step) => Ok(Probe::Receipt(attempt, step)),
            }
        },
        (Probe::Looking(attempt, stale), ProbeReply::Found(found)) => {
            let verdict = prepared.classify_probe(&attempt, candidate, directory, stale, found);
            Ok(Probe::Classified(attempt, verdict))
        },
        (state, _) => Ok(state),
    }
}

/// How far a collection has come.
pub enum Collection {
    /// Cargo runs.
    Running,
    /// The receipt of the attempt is verified.
    Receipt(EndedAttempt, ReceiptStep),
    /// The manifest is opened. Cargo reported this artifact.
    Manifest(CargoArtifactRecord),
    /// The modules are materialized.
    Materializing(CargoArtifactRecord, Materialization),
    /// The evidence is complete.
    Collected(CollectedBuild),
}

/// The mathematical counterpart of [`Collection`].
pub enum CollectionData {
    /// Cargo runs.
    Running,
    /// The receipt of the attempt is verified.
    Receipt(EndedData, ReceiptStep),
    /// The manifest is opened. Cargo reported this artifact.
    Manifest(ArtifactData),
    /// The modules are materialized.
    Materializing(ArtifactData, MaterializationData),
    /// The evidence is complete.
    Collected(CollectedBuildData),
}

impl View for Collection {
    type V = CollectionData;

    open spec fn view(&self) -> CollectionData {
        match self {
            Collection::Running => CollectionData::Running,
            Collection::Receipt(attempt, step) => CollectionData::Receipt(attempt@, *step),
            Collection::Manifest(artifact) => CollectionData::Manifest(artifact@),
            Collection::Materializing(artifact, state) => CollectionData::Materializing(
                artifact@,
                state@,
            ),
            Collection::Collected(build) => CollectionData::Collected(build@),
        }
    }
}

/// What an outside step of a collection gave.
pub enum CollectionReply<R: ByteSource> {
    /// Cargo ran.
    Ran(Result<EndedAttempt, Error>),
    /// A step of the verification of the receipt ended.
    Receipt(ReceiptReply),
    /// The manifest was opened.
    Opened(Result<R, SourceError>),
    /// A step of the materialization ended.
    Materialized(CollectReply<R>),
}

/// The collection with a materialization that can be done.
pub open spec fn materializing(
    prepared: PreparedBuildData,
    token: Seq<char>,
    artifact: ArtifactData,
    state: MaterializationData,
) -> CollectionData {
    if state.step == CollectStep::Done {
        CollectionData::Collected(
            collection::collected(prepared, token, artifact, artifacts::evidence_of(state)),
        )
    } else {
        CollectionData::Materializing(artifact, state)
    }
}

/// The collection behind a Cargo process.
pub open spec fn after_cargo(prepared: PreparedBuildData, ran: Result<EndedAttempt, Error>) -> Result<
    CollectionData,
    ErrorData,
> {
    match ran {
        Err(error) => Err(error@),
        Ok(ended) => match ended@.failure {
            Some(error) => Err(error),
            None => if ended@.report.success {
                Ok(CollectionData::Receipt(ended@, ReceiptStep::Inspect))
            } else {
                Err(attempt::attempt_failure(ended@, prepared.cargo))
            },
        },
    }
}

/// The collection behind a step of the verification of its receipt.
pub open spec fn after_receipt(
    prepared: PreparedBuildData,
    token: Seq<char>,
    directory: Seq<char>,
    ended: EndedData,
    step: ReceiptStep,
    reply: ReceiptReply,
) -> Result<CollectionData, ErrorData> {
    match prepared::receipt_after(
        paths::joined(directory, "stale"@),
        prepared::marker_of(token),
        step,
        reply,
    ) {
        Err(error) => Err(error),
        Ok(ReceiptStep::Known(stale)) => match prepared::collection_verdict(
            prepared,
            ended,
            stale,
        ) {
            Err(error) => Err(error),
            Ok(artifact) => Ok(CollectionData::Manifest(artifact)),
        },
        Ok(step) => Ok(CollectionData::Receipt(ended, step)),
    }
}

/// The collection behind its opened manifest.
pub open spec fn after_manifest<R: ByteSource>(
    prepared: PreparedBuildData,
    token: Seq<char>,
    directory: Seq<char>,
    artifact: ArtifactData,
    opened: Result<R, SourceError>,
) -> Result<CollectionData, ErrorData> {
    match prepared::loaded(
        opened,
        paths::joined(directory, "manifest"@),
        prepared::marker_of(token),
    ) {
        Err(error) => Err(error),
        Ok(manifest) => match artifacts::begun(manifest) {
            Err(error) => Err(error),
            Ok(state) => Ok(materializing(prepared, token, artifact, state)),
        },
    }
}

/// The collection behind a step of its materialization.
pub open spec fn after_materialization<R: ByteSource>(
    prepared: PreparedBuildData,
    token: Seq<char>,
    directory: Seq<char>,
    artifact: ArtifactData,
    state: MaterializationData,
    reply: CollectReply<R>,
) -> Result<CollectionData, ErrorData> {
    match artifacts::materialized(prepared.compiler, directory, state, reply) {
        Err(error) => Err(error),
        Ok(state) => Ok(materializing(prepared, token, artifact, state)),
    }
}

/// A collection or an error agrees with the expected one.
pub open spec fn collection_agrees(
    result: Result<Collection, Error>,
    expected: Result<CollectionData, ErrorData>,
) -> bool {
    match (result, expected) {
        (Ok(next), Ok(meant)) => next@ == meant,
        (Err(error), Err(meant)) => error@ == meant,
        _ => false,
    }
}

/// The collection behind a reply. Another reply changes nothing.
pub open spec fn collection_after<R: ByteSource>(
    prepared: PreparedBuildData,
    token: Seq<char>,
    directory: Seq<char>,
    state: CollectionData,
    reply: CollectionReply<R>,
) -> Result<CollectionData, ErrorData> {
    match (state, reply) {
        (CollectionData::Running, CollectionReply::Ran(ran)) => after_cargo(prepared, ran),
        (CollectionData::Receipt(ended, step), CollectionReply::Receipt(reply)) => after_receipt(
            prepared,
            token,
            directory,
            ended,
            step,
            reply,
        ),
        (CollectionData::Manifest(artifact), CollectionReply::Opened(opened)) => after_manifest(
            prepared,
            token,
            directory,
            artifact,
            opened,
        ),
        (
            CollectionData::Materializing(artifact, state),
            CollectionReply::Materialized(reply),
        ) => after_materialization(prepared, token, directory, artifact, state, reply),
        _ => Ok(state),
    }
}

fn continue_materialization(
    prepared: &PreparedBuild,
    token: &str,
    artifact: CargoArtifactRecord,
    state: Materialization,
) -> (result: Collection)
    ensures
        result@ == materializing(prepared@, token@, artifact@, state@),
{
    if !state.is_done() {
        return Collection::Materializing(artifact, state);
    }
    match state.finish() {
        Some(evidence) => Collection::Collected(
            CollectedBuild::new(prepared, String::from_str(token), artifact, evidence),
        ),
        None => Collection::Manifest(artifact),
    }
}

fn accept_attempt(prepared: &PreparedBuild, ran: Result<EndedAttempt, Error>) -> (result: Result<
    Collection,
    Error,
>)
    ensures
        collection_agrees(result, after_cargo(prepared@, ran)),
{
    match ran {
        Err(error) => Err(error),
        Ok(ended) => match ended.failure {
            Some(error) => Err(error),
            None => match prepared.require_success(&ended) {
                Err(error) => Err(error),
                Ok(()) => Ok(Collection::Receipt(ended, ReceiptStep::Inspect)),
            },
        },
    }
}

fn accept_receipt(
    prepared: &PreparedBuild,
    token: &str,
    directory: &str,
    ended: EndedAttempt,
    step: ReceiptStep,
    reply: ReceiptReply,
) -> (result: Result<Collection, Error>)
    requires
        wire::text_fits(prepared::marker_of(token@)),
    ensures
        collection_agrees(
            result,
            after_receipt(prepared@, token@, directory@, ended@, step, reply),
        ),
{
    let path = join(directory, "stale");
    let marker = selected_target_marker(token);
    match verified_stale_receipt(path.as_str(), marker.as_str(), step, reply) {
        Err(error) => Err(error),
        Ok(ReceiptStep::Known(stale)) => match prepared.collect(&ended, stale) {
            Err(error) => Err(error),
            Ok(artifact) => Ok(Collection::Manifest(artifact)),
        },
        Ok(step) => Ok(Collection::Receipt(ended, step)),
    }
}

fn accept_manifest<R: ByteSource>(
    prepared: &PreparedBuild,
    token: &str,
    directory: &str,
    artifact: CargoArtifactRecord,
    opened: Result<R, SourceError>,
) -> (result: Result<Collection, Error>)
    ensures
        collection_agrees(
            result,
            after_manifest(prepared@, token@, directory@, artifact@, opened),
        ),
{
    let path = join(directory, "manifest");
    let marker = selected_target_marker(token);
    proof {
        reveal_strlit("manifest");
        paths::joined_names_stand_last(directory@, "manifest"@);
    }
    match load_manifest(opened, path.as_str(), marker.as_str()) {
        Err(error) => Err(error),
        Ok(manifest) => match Materialization::begin(manifest) {
            Err(error) => Err(error),
            Ok(state) => Ok(continue_materialization(prepared, token, artifact, state)),
        },
    }
}

fn accept_materialization<R: ByteSource>(
    prepared: &PreparedBuild,
    token: &str,
    directory: &str,
    artifact: CargoArtifactRecord,
    state: Materialization,
    reply: CollectReply<R>,
) -> (result: Result<Collection, Error>)
    ensures
        collection_agrees(
            result,
            after_materialization(prepared@, token@, directory@, artifact@, state@, reply),
        ),
{
    match state.collect(&prepared.compiler, directory, reply) {
        Err(error) => Err(error),
        Ok(state) => Ok(continue_materialization(prepared, token, artifact, state)),
    }
}

/// Takes the reply to the outside step that the collection of a new token waits for.
///
/// The collection fails unless Cargo completes successfully with one newly compiled selected
/// artifact and the selected driver produces a complete manifest for this token.
pub fn collect_new_token<R: ByteSource>(
    prepared: &PreparedBuild,
    token: &str,
    directory: &str,
    state: Collection,
    reply: CollectionReply<R>,
) -> (result: Result<Collection, Error>)
    requires
        wire::text_fits(prepared::marker_of(token@)),
    ensures
        collection_agrees(
            result,
            collection_after(prepared@, token@, directory@, state@, reply),
        ),
{
    match (state, reply) {
        (Collection::Running, CollectionReply::Ran(ran)) => accept_attempt(prepared, ran),
        (Collection::Receipt(ended, step), CollectionReply::Receipt(reply)) => accept_receipt(
            prepared,
            token,
            directory,
            ended,
            step,
            reply,
        ),
        (Collection::Manifest(artifact), CollectionReply::Opened(opened)) => accept_manifest(
            prepared,
            token,
            directory,
            artifact,
            opened,
        ),
        (Collection::Materializing(artifact, state), CollectionReply::Materialized(reply)) =>
            accept_materialization(prepared, token, directory, artifact, state, reply),
        (state, _) => Ok(state),
    }
}

/// A collection passes Cargo only if it succeeded, the receipt only if there is none and Cargo
/// completed with one newly compiled artifact, and the manifest only if it is complete and carries
/// the marker of this token. What is collected is recorded under the prepared request and this
/// token.
pub proof fn collections_need_every_step<R: ByteSource>(
    prepared: PreparedBuildData,
    token: Seq<char>,
    directory: Seq<char>,
    state: CollectionData,
    reply: CollectionReply<R>,
)
    ensures
        collection_after(prepared, token, directory, state, reply) matches Ok(next) ==> {
            &&& next is Receipt && state is Running ==> next->Receipt_0.report.success
            &&& next is Manifest && !(state is Manifest) ==> {
                &&& state is Receipt
                &&& state->Receipt_0.report.success
                &&& observation::completion_verdict(
                    state->Receipt_0.observation,
                    prepared.target,
                    false,
                ) == Ok::<ArtifactData, ErrorData>(next->Manifest_0)
            }
            &&& state is Manifest && !(next is Manifest) ==> (reply matches CollectionReply::Opened(
                opened,
            ) && prepared::loaded(
                opened,
                paths::joined(directory, "manifest"@),
                prepared::marker_of(token),
            ) is Ok)
            &&& next is Collected && !(state is Collected) ==> {
                &&& state is Manifest || state is Materializing
                &&& next->Collected_0.build == prepared.build
                &&& next->Collected_0.compiler == prepared.compiler
                &&& next->Collected_0.analysis.request_key == prepared.request_key
                &&& next->Collected_0.analysis.token == token
            }
        },
{
}

} // verus!

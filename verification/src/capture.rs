//! Reuses validated Cargo evidence or publishes one new capture.
//!
//! A fresh request returns its existing immutable record. New evidence becomes a result only once it
//! is published, so failed publication cannot associate old evidence with a different build.

use crate::compiler::artifacts::{LlvmCollection, LlvmCollectionData};
use crate::compiler::prepared::{
    BuildRecord, BuildRecordData, CaptureAnalysis, CaptureAnalysisData, Freshness,
};
use crate::compiler::toolchain::{CompilerIdentity, CompilerIdentityData};
use vstd::prelude::*;
use vstd::string::StringExecFns;

verus! {

/// Selects whether capture can reuse evidence that Cargo confirms as fresh.
#[derive(Clone, Copy, Debug, PartialEq, Eq, Structural)]
pub enum CapturePolicy {
    /// Reuses a complete matching capture only after Cargo verifies freshness.
    Reuse,
    /// Forces new selected-target analysis while retaining compatible driver and dependency caches.
    Fresh,
}

impl Default for CapturePolicy {
    fn default() -> (result: Self)
        ensures
            result == CapturePolicy::Reuse,
    {
        CapturePolicy::Reuse
    }
}

/// One complete capture.
#[derive(Debug)]
pub struct CaptureRecord {
    /// The identity of the capture.
    pub id: String,
    /// When it was completed, in milliseconds of Unix time.
    pub completed_at_unix_ms: u64,
    /// The explicit inputs.
    pub build: BuildRecord,
    /// The compiler.
    pub compiler: CompilerIdentity,
    /// The analysis.
    pub analysis: CaptureAnalysis,
}

/// The mathematical counterpart of [`CaptureRecord`].
pub struct CaptureRecordData {
    /// The identity of the capture.
    pub id: Seq<char>,
    /// When it was completed, in milliseconds of Unix time.
    pub completed_at_unix_ms: u64,
    /// The explicit inputs.
    pub build: BuildRecordData,
    /// The compiler.
    pub compiler: CompilerIdentityData,
    /// The analysis.
    pub analysis: CaptureAnalysisData,
}

impl CaptureRecord {
    /// Joins what a completed capture is made of.
    pub fn new(
        id: String,
        completed_at_unix_ms: u64,
        build: BuildRecord,
        compiler: CompilerIdentity,
        analysis: CaptureAnalysis,
    ) -> (result: Self)
        ensures
            result@ == (CaptureRecordData {
                id: id@,
                completed_at_unix_ms,
                build: build@,
                compiler: compiler@,
                analysis: analysis@,
            }),
    {
        CaptureRecord { id, completed_at_unix_ms, build, compiler, analysis }
    }
}

impl View for CaptureRecord {
    type V = CaptureRecordData;

    open spec fn view(&self) -> CaptureRecordData {
        CaptureRecordData {
            id: self.id@,
            completed_at_unix_ms: self.completed_at_unix_ms,
            build: self.build@,
            compiler: self.compiler@,
            analysis: self.analysis@,
        }
    }
}

/// Distinguishes newly published evidence from an unchanged completed capture.
#[derive(Debug)]
pub enum CaptureOutcome {
    /// Contains a new capture produced by successful analysis and publication.
    Captured(CaptureRecord),
    /// Contains the original capture, including its unchanged identity and completion time.
    Reused(CaptureRecord),
}

impl CaptureOutcome {
    /// The record, whether it was reused or not.
    pub open spec fn contents(self) -> CaptureRecord {
        match self {
            CaptureOutcome::Captured(record) => record,
            CaptureOutcome::Reused(record) => record,
        }
    }

    /// Returns the immutable record regardless of whether capture reused it.
    pub fn record(&self) -> (result: &CaptureRecord)
        ensures
            *result == self.contents(),
    {
        match self {
            CaptureOutcome::Captured(record) => record,
            CaptureOutcome::Reused(record) => record,
        }
    }

    /// Returns ownership of the completed capture record.
    pub fn into_record(self) -> (result: CaptureRecord)
        ensures
            result == self.contents(),
    {
        match self {
            CaptureOutcome::Captured(record) => record,
            CaptureOutcome::Reused(record) => record,
        }
    }
}

/// The work of a capture behind its preparation. Each state but the last waits for one outside
/// step.
pub enum CaptureState {
    /// The store is initialized.
    Initializing,
    /// A complete capture of the request is looked for.
    Looking,
    /// Cargo is asked whether this complete capture is fresh.
    Probing(CaptureRecord),
    /// New evidence is collected.
    Collecting,
    /// The new capture is published.
    Publishing(CaptureRecord),
    /// The capture is over.
    Finished(CaptureOutcome),
}

/// The mathematical counterpart of [`CaptureState`].
pub enum CaptureData {
    /// The store is initialized.
    Initializing,
    /// A complete capture of the request is looked for.
    Looking,
    /// Cargo is asked whether this complete capture is fresh.
    Probing(CaptureRecordData),
    /// New evidence is collected.
    Collecting,
    /// The new capture is published.
    Publishing(CaptureRecordData),
    /// The capture ended with a new record.
    Captured(CaptureRecordData),
    /// The capture ended with an earlier record.
    Reused(CaptureRecordData),
}

impl View for CaptureState {
    type V = CaptureData;

    open spec fn view(&self) -> CaptureData {
        match self {
            CaptureState::Initializing => CaptureData::Initializing,
            CaptureState::Looking => CaptureData::Looking,
            CaptureState::Probing(record) => CaptureData::Probing(record@),
            CaptureState::Collecting => CaptureData::Collecting,
            CaptureState::Publishing(record) => CaptureData::Publishing(record@),
            CaptureState::Finished(CaptureOutcome::Captured(record)) => CaptureData::Captured(
                record@,
            ),
            CaptureState::Finished(CaptureOutcome::Reused(record)) => CaptureData::Reused(record@),
        }
    }
}

/// What a successful outside step of a capture gave.
pub enum CaptureEvent {
    /// The store is initialized.
    Initialized,
    /// There is this complete capture of the request, or none.
    Candidate(Option<CaptureRecord>),
    /// Cargo answered.
    Probed(Freshness),
    /// New evidence was collected under a new identity.
    Collected(CaptureRecord),
    /// The new capture was published.
    Published,
}

/// The mathematical counterpart of [`CaptureEvent`].
pub enum CaptureEventData {
    /// The store is initialized.
    Initialized,
    /// There is this complete capture of the request, or none.
    Candidate(Option<CaptureRecordData>),
    /// Cargo answered.
    Probed(Freshness),
    /// New evidence was collected under a new identity.
    Collected(CaptureRecordData),
    /// The new capture was published.
    Published,
}

impl View for CaptureEvent {
    type V = CaptureEventData;

    open spec fn view(&self) -> CaptureEventData {
        match self {
            CaptureEvent::Initialized => CaptureEventData::Initialized,
            CaptureEvent::Candidate(Some(record)) => CaptureEventData::Candidate(Some(record@)),
            CaptureEvent::Candidate(None) => CaptureEventData::Candidate(None),
            CaptureEvent::Probed(freshness) => CaptureEventData::Probed(*freshness),
            CaptureEvent::Collected(record) => CaptureEventData::Collected(record@),
            CaptureEvent::Published => CaptureEventData::Published,
        }
    }
}

/// The state behind an event. Another event changes nothing.
pub open spec fn capture_after(
    policy: CapturePolicy,
    state: CaptureData,
    event: CaptureEventData,
) -> CaptureData {
    match (state, event) {
        (CaptureData::Initializing, CaptureEventData::Initialized) => if policy
            == CapturePolicy::Reuse {
            CaptureData::Looking
        } else {
            CaptureData::Collecting
        },
        (CaptureData::Looking, CaptureEventData::Candidate(found)) => match found {
            Some(record) => CaptureData::Probing(record),
            None => CaptureData::Collecting,
        },
        (CaptureData::Probing(record), CaptureEventData::Probed(freshness)) => if freshness
            == Freshness::Fresh {
            CaptureData::Reused(record)
        } else {
            CaptureData::Collecting
        },
        (CaptureData::Collecting, CaptureEventData::Collected(record)) => CaptureData::Publishing(
            record,
        ),
        (CaptureData::Publishing(record), CaptureEventData::Published) => CaptureData::Captured(
            record,
        ),
        _ => state,
    }
}

/// Takes the next event of a capture, or the failure of its outside step.
///
/// A failed step ends the capture with that failure. A capture never falls back to earlier evidence
/// as its result.
pub fn capture<E>(
    policy: CapturePolicy,
    state: CaptureState,
    event: Result<CaptureEvent, E>,
) -> (result: Result<CaptureState, E>)
    ensures
        match event {
            Err(error) => result matches Err(reported) && reported == error,
            Ok(event) => result matches Ok(next) && next@ == capture_after(
                policy,
                state@,
                event@,
            ),
        },
{
    let event = match event {
        Err(error) => {
            return Err(error);
        },
        Ok(event) => event,
    };
    let next = match (state, event) {
        (CaptureState::Initializing, CaptureEvent::Initialized) => match policy {
            CapturePolicy::Reuse => CaptureState::Looking,
            CapturePolicy::Fresh => CaptureState::Collecting,
        },
        (CaptureState::Looking, CaptureEvent::Candidate(found)) => match found {
            Some(record) => CaptureState::Probing(record),
            None => CaptureState::Collecting,
        },
        (CaptureState::Probing(record), CaptureEvent::Probed(freshness)) => match freshness {
            Freshness::Fresh => CaptureState::Finished(CaptureOutcome::Reused(record)),
            Freshness::Stale => CaptureState::Collecting,
        },
        (CaptureState::Collecting, CaptureEvent::Collected(record)) => CaptureState::Publishing(
            record,
        ),
        (CaptureState::Publishing(record), CaptureEvent::Published) => CaptureState::Finished(
            CaptureOutcome::Captured(record),
        ),
        (state, _) => state,
    };
    Ok(next)
}

/// The state behind events.
pub open spec fn captured_behind(policy: CapturePolicy, events: Seq<CaptureEventData>) -> CaptureData
    decreases events.len(),
{
    if events.len() == 0 {
        CaptureData::Initializing
    } else {
        capture_after(policy, captured_behind(policy, events.drop_last()), events.last())
    }
}

/// Evidence is reused only if the policy allows it, it is the complete capture that was found for
/// the request, and Cargo confirmed that it is fresh. The record is the found one, unchanged.
pub proof fn reuse_needs_confirmation(policy: CapturePolicy, events: Seq<CaptureEventData>)
    ensures
        captured_behind(policy, events) matches CaptureData::Reused(record) ==> {
            &&& policy == CapturePolicy::Reuse
            &&& events.contains(CaptureEventData::Candidate(Some(record)))
            &&& events.contains(CaptureEventData::Probed(Freshness::Fresh))
        },
{
    reached_by(policy, events);
}

/// Under the reusing policy, evidence that was found and that Cargo confirms as fresh is the result,
/// unchanged.
pub proof fn confirmed_evidence_is_reused(record: CaptureRecordData)
    ensures
        captured_behind(CapturePolicy::Reuse, confirmation(record)) == CaptureData::Reused(record),
{
    let events = confirmation(record);
    reveal_with_fuel(captured_behind, 4);
    assert(events.drop_last().drop_last().drop_last() =~= Seq::empty());
    assert(events.drop_last().drop_last().last() == CaptureEventData::Initialized);
    assert(events.drop_last().last() == CaptureEventData::Candidate(Some(record)));
}

/// What happens when complete evidence is found and confirmed.
pub open spec fn confirmation(record: CaptureRecordData) -> Seq<CaptureEventData> {
    seq![
        CaptureEventData::Initialized,
        CaptureEventData::Candidate(Some(record)),
        CaptureEventData::Probed(Freshness::Fresh),
    ]
}

/// The captures that are published behind events.
pub open spec fn published_behind(policy: CapturePolicy, events: Seq<CaptureEventData>) -> Seq<
    CaptureRecordData,
>
    decreases events.len(),
{
    if events.len() == 0 {
        Seq::empty()
    } else {
        let earlier = published_behind(policy, events.drop_last());
        match (captured_behind(policy, events.drop_last()), events.last()) {
            (CaptureData::Publishing(record), CaptureEventData::Published) => earlier.push(record),
            _ => earlier,
        }
    }
}

/// A capture that is repeated returns the record of the first one: the store finds that record,
/// Cargo confirms it, the same record comes back, and nothing is published.
pub proof fn repeated_captures_return_the_first_record(
    policy: CapturePolicy,
    first: Seq<CaptureEventData>,
    record: CaptureRecordData,
)
    requires
        captured_behind(policy, first) == CaptureData::Captured(record) || captured_behind(
            policy,
            first,
        ) == CaptureData::Reused(record),
    ensures
        captured_behind(CapturePolicy::Reuse, confirmation(record)) == CaptureData::Reused(record),
        published_behind(CapturePolicy::Reuse, confirmation(record)) == Seq::<
            CaptureRecordData,
        >::empty(),
{
    let events = confirmation(record);
    confirmed_evidence_is_reused(record);
    reveal_with_fuel(published_behind, 4);
    assert(events.drop_last().drop_last().drop_last() =~= Seq::empty());
    assert(events.last() == CaptureEventData::Probed(Freshness::Fresh));
    assert(events.drop_last().last() == CaptureEventData::Candidate(Some(record)));
    assert(events.drop_last().drop_last().last() == CaptureEventData::Initialized);
}

/// Reuse publishes nothing, and a new capture publishes exactly its record.
pub proof fn captures_publish_their_result(policy: CapturePolicy, events: Seq<CaptureEventData>)
    ensures
        published_behind(policy, events) == (match captured_behind(policy, events) {
            CaptureData::Captured(record) => seq![record],
            _ => Seq::empty(),
        }),
    decreases events.len(),
{
    if events.len() > 0 {
        captures_publish_their_result(policy, events.drop_last());
        assert forall|record: CaptureRecordData| Seq::empty().push(record) == seq![record] by {
            assert(Seq::<CaptureRecordData>::empty().push(record) =~= seq![record]);
        }
    }
}

/// A capture ends as new only behind its publication, with exactly the collected record.
pub proof fn captures_are_published(policy: CapturePolicy, events: Seq<CaptureEventData>)
    ensures
        captured_behind(policy, events) matches CaptureData::Captured(record) ==> {
            &&& events.contains(CaptureEventData::Collected(record))
            &&& events.contains(CaptureEventData::Published)
        },
{
    reached_by(policy, events);
}

/// A stale candidate is out of the capture for good: whatever follows, the result is not that
/// evidence but newly collected evidence, or there is no result.
pub proof fn stale_evidence_is_never_a_result(
    policy: CapturePolicy,
    state: CaptureData,
    event: CaptureEventData,
)
    requires
        state is Collecting || state is Publishing || state is Captured,
    ensures
        ({
            let next = capture_after(policy, state, event);
            &&& next is Collecting || next is Publishing || next is Captured
            &&& next is Captured && !(state is Captured) ==> state == CaptureData::Publishing(
                next->Captured_0,
            )
            &&& next is Publishing && !(state is Publishing) ==> event
                == CaptureEventData::Collected(next->Publishing_0)
        }),
{
}

proof fn keeps(events: Seq<CaptureEventData>, event: CaptureEventData)
    requires
        events.len() > 0,
        events.drop_last().contains(event),
    ensures
        events.contains(event),
{
    let i = choose|i: int| 0 <= i < events.len() - 1 && events.drop_last()[i] == event;
    assert(events[i] == event);
}

proof fn reached_by(policy: CapturePolicy, events: Seq<CaptureEventData>)
    ensures
        ({
            let state = captured_behind(policy, events);
            &&& state is Looking || state is Probing || state is Reused ==> policy
                == CapturePolicy::Reuse
            &&& state matches CaptureData::Probing(record) ==> events.contains(
                CaptureEventData::Candidate(Some(record)),
            )
            &&& state matches CaptureData::Reused(record) ==> events.contains(
                CaptureEventData::Candidate(Some(record)),
            ) && events.contains(CaptureEventData::Probed(Freshness::Fresh))
            &&& state matches CaptureData::Publishing(record) ==> events.contains(
                CaptureEventData::Collected(record),
            )
            &&& state matches CaptureData::Captured(record) ==> events.contains(
                CaptureEventData::Collected(record),
            ) && events.contains(CaptureEventData::Published)
        }),
    decreases events.len(),
{
    if events.len() > 0 {
        let earlier = events.drop_last();
        reached_by(policy, earlier);
        assert(events[events.len() - 1] == events.last());
        assert forall|event: CaptureEventData| earlier.contains(event) implies events.contains(
            event,
        ) by {
            keeps(events, event);
        }
        assert(events.contains(events.last()));
    }
}

/// The warning about unavailable LLVM.
pub open spec fn unavailable_warning(llvm: LlvmCollectionData, reason: Seq<char>) -> Option<
    Seq<char>,
> {
    match llvm {
        LlvmCollectionData::NotCaptured(_) => Some(
            "warning: optimized LLVM was not captured: "@ + reason,
        ),
        LlvmCollectionData::Collected(_) => None,
    }
}

/// Reports the stored support boundary for both newly published and reused evidence. The reason is
/// the readable form of the unsupported configuration.
pub fn warn_unavailable_llvm(llvm: &LlvmCollection, reason: &str) -> (result: Option<String>)
    ensures
        crate::chars::option_view(result) == unavailable_warning(llvm@, reason@),
{
    match llvm {
        LlvmCollection::NotCaptured(_) => {
            let mut text = String::from_str("warning: optimized LLVM was not captured: ");
            text.append(reason);
            Some(text)
        },
        LlvmCollection::Collected(_) => None,
    }
}

} // verus!

//! Classifies Cargo's selected-target artifacts and completion messages.
//!
//! Positive freshness requires one selected artifact, successful completion, and agreement with
//! the stored normalized observation. Cargo's actual profile fields remain authoritative.

use super::error;
use super::error::{invalid_environment, EnvironmentProblem, Error, ErrorData};
use super::metadata;
use super::metadata::{
    hold_same_items, is_same_target, Artifact, ArtifactData, CargoArtifactRecord, PackageTarget,
    PackageTargetData,
};
use crate::chars;
use crate::sorting;
use crate::text::same_text;
use vstd::prelude::*;

verus! {

/// What Cargo reports about the selected target.
#[derive(Debug)]
pub struct CargoObservation {
    /// Artifacts with the selected package, target name, and target kinds.
    pub selected: Vec<Artifact>,
    /// Cargo's final structured completion statuses, which must contain exactly one value.
    pub finished: Vec<bool>,
    /// Whether any structured compiler diagnostic reports an error.
    pub has_errors: bool,
}

/// The mathematical counterpart of [`CargoObservation`].
pub struct ObservationData {
    /// The selected artifacts.
    pub selected: Seq<ArtifactData>,
    /// The completion statuses.
    pub finished: Seq<bool>,
    /// A diagnostic reports an error.
    pub has_errors: bool,
}

impl View for CargoObservation {
    type V = ObservationData;

    open spec fn view(&self) -> ObservationData {
        ObservationData {
            selected: metadata::artifact_list(self.selected@),
            finished: self.finished@,
            has_errors: self.has_errors,
        }
    }
}

/// Nothing was reported.
pub open spec fn nothing_observed() -> ObservationData {
    ObservationData { selected: Seq::empty(), finished: Seq::empty(), has_errors: false }
}

impl Default for CargoObservation {
    fn default() -> (result: Self)
        ensures
            result@ == nothing_observed(),
    {
        let result = CargoObservation {
            selected: Vec::new(),
            finished: Vec::new(),
            has_errors: false,
        };
        assert(result@.selected =~= Seq::<ArtifactData>::empty());
        assert(result@.finished =~= Seq::<bool>::empty());
        result
    }
}

/// An artifact belongs to the selected package and target.
pub open spec fn belongs(
    artifact: ArtifactData,
    package: Seq<char>,
    target: PackageTargetData,
) -> bool {
    &&& artifact.package_id == package
    &&& artifact.target.name == target.name
    &&& metadata::same_items(artifact.target.kind, target.kind)
}

/// The observation behind an artifact.
pub open spec fn with_artifact(
    observation: ObservationData,
    artifact: ArtifactData,
    package: Seq<char>,
    target: PackageTargetData,
) -> ObservationData {
    if belongs(artifact, package, target) {
        ObservationData { selected: observation.selected.push(artifact), ..observation }
    } else {
        observation
    }
}

/// An artifact joins the selected ones exactly if its package, its target's name and the items of
/// its target's kind are those of the selection, in whatever order the kinds stand. Any other
/// artifact leaves the observation as it is.
pub proof fn artifacts_are_selected(
    observation: ObservationData,
    artifact: ArtifactData,
    package: Seq<char>,
    target: PackageTargetData,
)
    ensures
        artifact.package_id == package && artifact.target.name == target.name
            && artifact.target.kind.to_multiset() == target.kind.to_multiset() ==> with_artifact(
            observation,
            artifact,
            package,
            target,
        ) == (ObservationData { selected: observation.selected.push(artifact), ..observation }),
        artifact.package_id != package || artifact.target.name != target.name
            || artifact.target.kind.to_multiset() != target.kind.to_multiset() ==> with_artifact(
            observation,
            artifact,
            package,
            target,
        ) == observation,
{
    sorting::arrangements_ignore_order(artifact.target.kind, target.kind);
}

/// The verdict on a completed Cargo invocation.
pub open spec fn completion_verdict(
    observation: ObservationData,
    target: PackageTargetData,
    fresh: bool,
) -> Result<ArtifactData, ErrorData> {
    if observation.finished != seq![true] || observation.has_errors {
        Err(error::environment(EnvironmentProblem::Unfinished))
    } else if observation.selected.len() != 1 {
        Err(
            error::environment(
                EnvironmentProblem::ArtifactCount { count: observation.selected.len() as usize },
            ),
        )
    } else if observation.selected[0].fresh != fresh {
        Err(
            error::environment(
                EnvironmentProblem::OtherFreshness {
                    expected: fresh,
                    got: observation.selected[0].fresh,
                },
            ),
        )
    } else if !metadata::same_target(observation.selected[0].target, target) {
        Err(error::environment(EnvironmentProblem::OtherTarget))
    } else {
        Ok(metadata::normal_artifact(observation.selected[0]))
    }
}

impl CargoObservation {
    /// Keeps an artifact if it belongs to the selected target.
    pub fn record(&mut self, artifact: Artifact, package: &str, target: &PackageTarget)
        ensures
            final(self)@ == with_artifact(old(self)@, artifact@, package@, target@),
            final(self)@ == (if artifact.package_id@ == package@ && artifact.target.name@
                == target.name@ && chars::views(artifact.target.kind@).to_multiset()
                == chars::views(target.kind@).to_multiset() {
                ObservationData { selected: old(self)@.selected.push(artifact@), ..old(self)@ }
            } else {
                old(self)@
            }),
    {
        proof {
            artifacts_are_selected(old(self)@, artifact@, package@, target@);
        }
        if same_text(artifact.package_id.as_str(), package) && same_text(
            artifact.target.name.as_str(),
            target.name.as_str(),
        ) && hold_same_items(&artifact.target.kind, &target.kind) {
            self.selected.push(artifact);
            assert(self@.selected =~= old(self)@.selected.push(artifact@));
        }
    }

    /// Checks completion and prepared target identity before normalizing the selected observation.
    pub fn completed(&self, target: &PackageTarget, fresh: bool) -> (result: Result<
        CargoArtifactRecord,
        Error,
    >)
        ensures
            match (result, completion_verdict(self@, target@, fresh)) {
                (Ok(record), Ok(expected)) => record@ == expected,
                (Err(error), Err(expected)) => error@ == expected,
                _ => false,
            },
    {
        let finished = self.finished.len() == 1 && self.finished[0];
        proof {
            if finished {
                assert(self.finished@ =~= seq![true]);
            } else if self.finished@ == seq![true] {
                assert(self.finished@.len() == 1 && self.finished@[0]);
            }
            assert(self@.selected.len() == self.selected@.len());
        }
        if !finished || self.has_errors {
            return Err(invalid_environment(EnvironmentProblem::Unfinished));
        }
        if self.selected.len() != 1 {
            return Err(
                invalid_environment(
                    EnvironmentProblem::ArtifactCount { count: self.selected.len() },
                ),
            );
        }
        let artifact = &self.selected[0];
        assert(self@.selected[0] == artifact@);
        if artifact.fresh != fresh {
            return Err(
                invalid_environment(
                    EnvironmentProblem::OtherFreshness { expected: fresh, got: artifact.fresh },
                ),
            );
        }
        if !is_same_target(&artifact.target, target) {
            return Err(invalid_environment(EnvironmentProblem::OtherTarget));
        }
        Ok(CargoArtifactRecord::new(artifact.clone()))
    }
}

/// Cargo is believed only with exactly one selected artifact of the expected freshness, one
/// successful completion and no compiler error.
pub proof fn completion_is_affirmative(
    observation: ObservationData,
    target: PackageTargetData,
    fresh: bool,
)
    ensures
        completion_verdict(observation, target, fresh) is Ok <==> {
            &&& observation.finished == seq![true]
            &&& !observation.has_errors
            &&& observation.selected.len() == 1
            &&& observation.selected[0].fresh == fresh
            &&& metadata::same_target(observation.selected[0].target, target)
        },
{
}

/// A completion gives the one selected artifact. Its target agrees with the prepared one in every
/// field, but for the order of the lists, and the freshness that was reported is not kept.
pub proof fn completions_give_the_selected_artifact(
    observation: ObservationData,
    target: PackageTargetData,
    fresh: bool,
)
    ensures
        completion_verdict(observation, target, fresh) matches Ok(given) ==> {
            let reported = observation.selected[0];
            &&& observation.selected.len() == 1
            &&& reported.fresh == fresh
            &&& reported.target.name == target.name
            &&& reported.target.kind.to_multiset() == target.kind.to_multiset()
            &&& reported.target.crate_types.to_multiset() == target.crate_types.to_multiset()
            &&& reported.target.required_features.to_multiset()
                == target.required_features.to_multiset()
            &&& reported.target.src_path == target.src_path
            &&& reported.target.edition == target.edition
            &&& reported.target.doctest == target.doctest
            &&& reported.target.test == target.test
            &&& reported.target.doc == target.doc
            &&& given.package_id == reported.package_id
            &&& given.manifest_path == reported.manifest_path
            &&& given.target.name == target.name
            &&& given.target.kind.to_multiset() == target.kind.to_multiset()
            &&& given.target.crate_types.to_multiset() == target.crate_types.to_multiset()
            &&& given.target.required_features.to_multiset()
                == target.required_features.to_multiset()
            &&& given.target.src_path == target.src_path
            &&& given.target.edition == target.edition
            &&& given.target.doctest == target.doctest
            &&& given.target.test == target.test
            &&& given.target.doc == target.doc
            &&& given.profile == reported.profile
            &&& given.features.to_multiset() == reported.features.to_multiset()
            &&& given.filenames == reported.filenames
            &&& given.executable == reported.executable
            &&& !given.fresh
        },
        observation.finished == seq![true] && !observation.has_errors && observation.selected.len()
            == 1 && observation.selected[0].fresh == fresh ==> {
            let reported = observation.selected[0].target;
            reported.name == target.name && reported.kind.to_multiset() == target.kind.to_multiset()
                && reported.crate_types.to_multiset() == target.crate_types.to_multiset()
                && reported.required_features.to_multiset() == target.required_features.to_multiset()
                && reported.src_path == target.src_path && reported.edition == target.edition
                && reported.doctest == target.doctest && reported.test == target.test
                && reported.doc == target.doc ==> completion_verdict(observation, target, fresh)
                is Ok
        },
        observation.finished != seq![true] ==> completion_verdict(observation, target, fresh)
            is Err,
        observation.has_errors ==> completion_verdict(observation, target, fresh) is Err,
{
    if observation.selected.len() == 1 {
        let reported = observation.selected[0].target;
        sorting::arrangements_ignore_order(reported.kind, target.kind);
        sorting::arrangements_ignore_order(reported.crate_types, target.crate_types);
        sorting::arrangements_ignore_order(reported.required_features, target.required_features);
        sorting::arrangements_are_sorted(reported.kind);
        sorting::arrangements_are_sorted(reported.crate_types);
        sorting::arrangements_are_sorted(reported.required_features);
        sorting::arrangements_are_sorted(observation.selected[0].features);
    }
}

} // verus!

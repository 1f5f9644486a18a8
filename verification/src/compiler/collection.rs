//! Owns selected-target evidence through publication.
//!
//! Collection materializes and indexes complete optimized modules before returning this owner. The
//! capture layer supplies an ID and retains the artifact directory until its declared artifacts are
//! stored.

use super::artifacts::{
    CollectedEvidence, EvidenceData, LlvmCollection, LlvmCollectionData, LlvmProvenance,
    LlvmProvenanceData,
};
use super::manifest;
use super::metadata::{ArtifactData, CargoArtifactRecord};
use super::prepared::{
    BuildRecord, BuildRecordData, CaptureAnalysis, CaptureAnalysisData, PreparedBuild,
    PreparedBuildData,
};
use super::toolchain::{CompilerIdentity, CompilerIdentityData};
use crate::records::{ArtifactRecord, GroupData, InstanceRecord};
use vstd::prelude::*;

verus! {

/// One successful Cargo build and the compiler evidence collected from its selected target.
pub struct CollectedBuild {
    build: BuildRecord,
    compiler: CompilerIdentity,
    evidence: CollectedEvidence,
    analysis: CaptureAnalysis,
}

/// The mathematical counterpart of [`CollectedBuild`].
pub struct CollectedBuildData {
    /// The explicit inputs.
    pub build: BuildRecordData,
    /// The compiler.
    pub compiler: CompilerIdentityData,
    /// The evidence.
    pub evidence: EvidenceData,
    /// The analysis.
    pub analysis: CaptureAnalysisData,
}

impl View for CollectedBuild {
    type V = CollectedBuildData;

    closed spec fn view(&self) -> CollectedBuildData {
        CollectedBuildData {
            build: self.build@,
            compiler: self.compiler@,
            evidence: self.evidence@,
            analysis: self.analysis@,
        }
    }
}

/// The complete evidence of one capture.
pub struct InstanceManifest {
    /// The identity of the capture.
    pub capture_id: String,
    /// Concrete instances.
    pub instances: Vec<InstanceRecord>,
    /// The artifacts.
    pub artifacts: Vec<ArtifactRecord>,
    /// Effective compiler settings.
    pub provenance: LlvmProvenance,
    /// Complete optimized modules or the reason no LLVM was requested.
    pub llvm: LlvmCollection,
}

/// The mathematical counterpart of [`InstanceManifest`].
pub struct InstanceManifestData {
    /// The identity of the capture.
    pub capture_id: Seq<char>,
    /// Concrete instances.
    pub instances: Seq<GroupData>,
    /// The artifacts.
    pub artifacts: Seq<ArtifactRecord>,
    /// Effective compiler settings.
    pub provenance: LlvmProvenanceData,
    /// Complete optimized modules or the reason no LLVM was requested.
    pub llvm: LlvmCollectionData,
}

impl View for InstanceManifest {
    type V = InstanceManifestData;

    open spec fn view(&self) -> InstanceManifestData {
        InstanceManifestData {
            capture_id: self.capture_id@,
            instances: manifest::group_views(self.instances@),
            artifacts: self.artifacts@,
            provenance: self.provenance@,
            llvm: self.llvm@,
        }
    }
}

/// The build that a collecting attempt gave.
pub open spec fn collected(
    prepared: PreparedBuildData,
    token: Seq<char>,
    artifact: ArtifactData,
    evidence: EvidenceData,
) -> CollectedBuildData {
    CollectedBuildData {
        build: prepared.build,
        compiler: prepared.compiler,
        evidence,
        analysis: CaptureAnalysisData { request_key: prepared.request_key, token, artifact },
    }
}

impl CollectedBuild {
    /// Joins the selected artifact and the evidence of a new token.
    pub fn new(
        prepared: &PreparedBuild,
        token: String,
        artifact: CargoArtifactRecord,
        evidence: CollectedEvidence,
    ) -> (result: Self)
        ensures
            result@ == collected(prepared@, token@, artifact@, evidence@),
    {
        CollectedBuild {
            build: prepared.build.clone(),
            compiler: prepared.compiler.clone(),
            evidence,
            analysis: CaptureAnalysis {
                request_key: prepared.request_key.clone(),
                token,
                artifact,
            },
        }
    }

    /// Gives the evidence the identity of its capture.
    pub fn into_parts(self, capture_id: String) -> (result: (
        BuildRecord,
        CompilerIdentity,
        CaptureAnalysis,
        InstanceManifest,
    ))
        ensures
            result.0@ == self@.build,
            result.1@ == self@.compiler,
            result.2@ == self@.analysis,
            result.3@ == (InstanceManifestData {
                capture_id: capture_id@,
                instances: self@.evidence.instances,
                artifacts: self@.evidence.artifacts,
                provenance: self@.evidence.provenance,
                llvm: self@.evidence.llvm,
            }),
    {
        let CollectedEvidence { instances, artifacts, provenance, llvm } = self.evidence;
        (
            self.build,
            self.compiler,
            self.analysis,
            InstanceManifest { capture_id, instances, artifacts, provenance, llvm },
        )
    }
}

} // verus!

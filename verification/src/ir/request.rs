//! Describes one Cargo analysis request.
//!
//! [`BuildRequest`] contains the target selection and evidence policy that `cargo rustc`
//! understands. The caller owns persistence and supplies an empty analysis directory for rustc
//! temporaries.

use crate::chars::{copy_option, copy_texts};
use vstd::prelude::*;

verus! {

/// One Cargo target kind and optional target name.
#[derive(Debug, PartialEq, Eq)]
pub enum CargoTarget {
    /// The package library target.
    Library,
    /// A named binary target.
    Binary(String),
    /// A named benchmark target.
    Benchmark(String),
    /// A named example target.
    Example(String),
}

/// The mathematical counterpart of [`CargoTarget`].
pub enum CargoTargetData {
    /// The package library target.
    Library,
    /// A named binary target.
    Binary(Seq<char>),
    /// A named benchmark target.
    Benchmark(Seq<char>),
    /// A named example target.
    Example(Seq<char>),
}

impl View for CargoTarget {
    type V = CargoTargetData;

    open spec fn view(&self) -> CargoTargetData {
        match self {
            CargoTarget::Library => CargoTargetData::Library,
            CargoTarget::Binary(value) => CargoTargetData::Binary(value@),
            CargoTarget::Benchmark(value) => CargoTargetData::Benchmark(value@),
            CargoTarget::Example(value) => CargoTargetData::Example(value@),
        }
    }
}

impl Clone for CargoTarget {
    fn clone(&self) -> (result: Self)
        ensures
            result@ == self@,
    {
        match self {
            CargoTarget::Library => CargoTarget::Library,
            CargoTarget::Binary(value) => CargoTarget::Binary(value.clone()),
            CargoTarget::Benchmark(value) => CargoTarget::Benchmark(value.clone()),
            CargoTarget::Example(value) => CargoTarget::Example(value.clone()),
        }
    }
}

/// The mathematical counterpart of an optional value.
pub open spec fn cargo_target_option(value: Option<CargoTarget>) -> Option<CargoTargetData> {
    match value {
        Some(value) => Some(value@),
        None => None,
    }
}

fn copy_cargo_target_option(value: &Option<CargoTarget>) -> (result: Option<CargoTarget>)
    ensures
        cargo_target_option(result) == cargo_target_option(*value),
{
    match value {
        Some(value) => Some(value.clone()),
        None => None,
    }
}

/// The compiler changes that an evidence capture may make.
#[derive(Debug, PartialEq, Eq)]
pub enum CaptureProfile {
    /// Preserve the selected target's code generation settings.
    ///
    /// Optic still saves compiler temporaries so it can collect evidence. It does not change
    /// linking, symbol mangling, debug information, LTO, codegen units, or the panic strategy.
    Faithful,
    /// Add source-oriented names and line tables to the captured evidence.
    Enriched,
    /// Apply explicit compiler arguments supplied by the caller.
    Experiment {
        /// Additional arguments passed to rustc after Optic's evidence arguments.
        rustc_arguments: Vec<String>,
    },
}

/// The mathematical counterpart of [`CaptureProfile`].
pub enum CaptureProfileData {
    /// Preserve the selected target's code generation settings.
    ///
    /// Optic still saves compiler temporaries so it can collect evidence. It does not change
    /// linking, symbol mangling, debug information, LTO, codegen units, or the panic strategy.
    Faithful,
    /// Add source-oriented names and line tables to the captured evidence.
    Enriched,
    /// Apply explicit compiler arguments supplied by the caller.
    Experiment {
        /// Additional arguments passed to rustc after Optic's evidence arguments.
        rustc_arguments: Seq<Seq<char>>,
    },
}

impl View for CaptureProfile {
    type V = CaptureProfileData;

    open spec fn view(&self) -> CaptureProfileData {
        match self {
            CaptureProfile::Faithful => CaptureProfileData::Faithful,
            CaptureProfile::Enriched => CaptureProfileData::Enriched,
            CaptureProfile::Experiment { rustc_arguments } => CaptureProfileData::Experiment { rustc_arguments: crate::chars::views(rustc_arguments@) },
        }
    }
}

impl Clone for CaptureProfile {
    fn clone(&self) -> (result: Self)
        ensures
            result@ == self@,
    {
        match self {
            CaptureProfile::Faithful => CaptureProfile::Faithful,
            CaptureProfile::Enriched => CaptureProfile::Enriched,
            CaptureProfile::Experiment { rustc_arguments } => CaptureProfile::Experiment { rustc_arguments: copy_texts(rustc_arguments) },
        }
    }
}

impl Default for CaptureProfile {
    fn default() -> (result: Self)
        ensures
            result is Faithful,
    {
        CaptureProfile::Faithful
    }
}

/// A normalized request for one Cargo analysis.
#[derive(Debug, PartialEq, Eq)]
pub struct BuildRequest {
    /// The Cargo workspace in which the command runs.
    pub workspace_root: String,
    /// An optional manifest path passed to Cargo.
    pub manifest_path: Option<String>,
    /// An optional selected package.
    pub package: Option<String>,
    /// An optional selected Cargo target.
    pub target: Option<CargoTarget>,
    /// An optional Cargo profile name.
    pub profile: Option<String>,
    /// Enabled Cargo features.
    pub features: Vec<String>,
    /// Whether Cargo enables every declared feature.
    pub all_features: bool,
    /// Whether Cargo disables default features.
    pub no_default_features: bool,
    /// An optional compiler target triple.
    pub target_triple: Option<String>,
    /// Whether Cargo must use the lock file without changing it.
    pub locked: bool,
    /// Whether Cargo must avoid network access.
    pub offline: bool,
    /// Whether Cargo must use both locked and offline behavior.
    pub frozen: bool,
    /// The permitted compiler changes for this capture.
    pub capture_profile: CaptureProfile,
    /// Whether the capture collects LLVM optimization remarks.
    pub capture_remarks: bool,
    /// The directory in which rustc writes mutable analysis artifacts.
    ///
    /// This directory **must** be empty when the capture starts.
    pub analysis_directory: String,
}

/// The mathematical counterpart of [`BuildRequest`].
pub struct BuildRequestData {
    /// The Cargo workspace in which the command runs.
    pub workspace_root: Seq<char>,
    /// An optional manifest path passed to Cargo.
    pub manifest_path: Option<Seq<char>>,
    /// An optional selected package.
    pub package: Option<Seq<char>>,
    /// An optional selected Cargo target.
    pub target: Option<CargoTargetData>,
    /// An optional Cargo profile name.
    pub profile: Option<Seq<char>>,
    /// Enabled Cargo features.
    pub features: Seq<Seq<char>>,
    /// Whether Cargo enables every declared feature.
    pub all_features: bool,
    /// Whether Cargo disables default features.
    pub no_default_features: bool,
    /// An optional compiler target triple.
    pub target_triple: Option<Seq<char>>,
    /// Whether Cargo must use the lock file without changing it.
    pub locked: bool,
    /// Whether Cargo must avoid network access.
    pub offline: bool,
    /// Whether Cargo must use both locked and offline behavior.
    pub frozen: bool,
    /// The permitted compiler changes for this capture.
    pub capture_profile: CaptureProfileData,
    /// Whether the capture collects LLVM optimization remarks.
    pub capture_remarks: bool,
    /// The directory in which rustc writes mutable analysis artifacts.
    ///
    /// This directory **must** be empty when the capture starts.
    pub analysis_directory: Seq<char>,
}

impl View for BuildRequest {
    type V = BuildRequestData;

    open spec fn view(&self) -> BuildRequestData {
        BuildRequestData {
            workspace_root: self.workspace_root@,
            manifest_path: crate::chars::option_view(self.manifest_path),
            package: crate::chars::option_view(self.package),
            target: cargo_target_option(self.target),
            profile: crate::chars::option_view(self.profile),
            features: crate::chars::views(self.features@),
            all_features: self.all_features,
            no_default_features: self.no_default_features,
            target_triple: crate::chars::option_view(self.target_triple),
            locked: self.locked,
            offline: self.offline,
            frozen: self.frozen,
            capture_profile: self.capture_profile@,
            capture_remarks: self.capture_remarks,
            analysis_directory: self.analysis_directory@,
        }
    }
}

impl Clone for BuildRequest {
    fn clone(&self) -> (result: Self)
        ensures
            result@ == self@,
    {
        BuildRequest {
            workspace_root: self.workspace_root.clone(),
            manifest_path: copy_option(&self.manifest_path),
            package: copy_option(&self.package),
            target: copy_cargo_target_option(&self.target),
            profile: copy_option(&self.profile),
            features: copy_texts(&self.features),
            all_features: self.all_features,
            no_default_features: self.no_default_features,
            target_triple: copy_option(&self.target_triple),
            locked: self.locked,
            offline: self.offline,
            frozen: self.frozen,
            capture_profile: self.capture_profile.clone(),
            capture_remarks: self.capture_remarks,
            analysis_directory: self.analysis_directory.clone(),
        }
    }
}

} // verus!

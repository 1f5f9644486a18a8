//! Cargo's description of packages, targets and artifacts.

use crate::chars;
use crate::chars::{copy_option, copy_texts};
use crate::sorting;
use crate::sorting::sort_texts;
use crate::text::same_text;
use vstd::prelude::*;

verus! {

/// A target of a package.
#[derive(Debug, PartialEq, Eq)]
pub struct PackageTarget {
    /// The name in the manifest or generated from the file name.
    pub name: String,
    /// The kinds, such as `lib`, `bin`, `example` or `bench`.
    pub kind: Vec<String>,
    /// The crate types.
    pub crate_types: Vec<String>,
    /// The features without which the target is not built.
    pub required_features: Vec<String>,
    /// The main source file.
    pub src_path: String,
    /// The Rust edition.
    pub edition: String,
    /// The target has documentation tests.
    pub doctest: bool,
    /// The target is tested by default.
    pub test: bool,
    /// The target is documented by default.
    pub doc: bool,
}

/// The mathematical counterpart of [`PackageTarget`].
pub struct PackageTargetData {
    /// The name in the manifest or generated from the file name.
    pub name: Seq<char>,
    /// The kinds, such as `lib`, `bin`, `example` or `bench`.
    pub kind: Seq<Seq<char>>,
    /// The crate types.
    pub crate_types: Seq<Seq<char>>,
    /// The features without which the target is not built.
    pub required_features: Seq<Seq<char>>,
    /// The main source file.
    pub src_path: Seq<char>,
    /// The Rust edition.
    pub edition: Seq<char>,
    /// The target has documentation tests.
    pub doctest: bool,
    /// The target is tested by default.
    pub test: bool,
    /// The target is documented by default.
    pub doc: bool,
}

impl View for PackageTarget {
    type V = PackageTargetData;

    open spec fn view(&self) -> PackageTargetData {
        PackageTargetData {
            name: self.name@,
            kind: crate::chars::views(self.kind@),
            crate_types: crate::chars::views(self.crate_types@),
            required_features: crate::chars::views(self.required_features@),
            src_path: self.src_path@,
            edition: self.edition@,
            doctest: self.doctest,
            test: self.test,
            doc: self.doc,
        }
    }
}

impl Clone for PackageTarget {
    fn clone(&self) -> (result: Self)
        ensures
            result@ == self@,
    {
        PackageTarget {
            name: self.name.clone(),
            kind: copy_texts(&self.kind),
            crate_types: copy_texts(&self.crate_types),
            required_features: copy_texts(&self.required_features),
            src_path: self.src_path.clone(),
            edition: self.edition.clone(),
            doctest: self.doctest,
            test: self.test,
            doc: self.doc,
        }
    }
}

/// The mathematical counterparts of a list.
pub open spec fn package_target_list(values: Seq<PackageTarget>) -> Seq<PackageTargetData> {
    values.map_values(|value: PackageTarget| value@)
}

/// A workspace member.
#[derive(Debug, PartialEq, Eq)]
pub struct Package {
    /// The name.
    pub name: String,
    /// The version.
    pub version: String,
    /// The identity that Cargo assigns.
    pub id: String,
    /// The manifest.
    pub manifest_path: String,
    /// The targets.
    pub targets: Vec<PackageTarget>,
}

/// The mathematical counterpart of [`Package`].
pub struct PackageData {
    /// The name.
    pub name: Seq<char>,
    /// The version.
    pub version: Seq<char>,
    /// The identity that Cargo assigns.
    pub id: Seq<char>,
    /// The manifest.
    pub manifest_path: Seq<char>,
    /// The targets.
    pub targets: Seq<PackageTargetData>,
}

impl View for Package {
    type V = PackageData;

    open spec fn view(&self) -> PackageData {
        PackageData {
            name: self.name@,
            version: self.version@,
            id: self.id@,
            manifest_path: self.manifest_path@,
            targets: package_target_list(self.targets@),
        }
    }
}

/// The mathematical counterparts of a list.
pub open spec fn package_list(values: Seq<Package>) -> Seq<PackageData> {
    values.map_values(|value: Package| value@)
}

/// The profile with which an artifact was compiled.
#[derive(Debug, PartialEq, Eq)]
pub struct ArtifactProfile {
    /// The optimization level.
    pub opt_level: String,
    /// The kind of debug information.
    pub debuginfo: String,
    /// Debug assertions are enabled.
    pub debug_assertions: bool,
    /// Overflow checks are enabled.
    pub overflow_checks: bool,
    /// The profile is a test profile.
    pub test: bool,
}

/// The mathematical counterpart of [`ArtifactProfile`].
pub struct ArtifactProfileData {
    /// The optimization level.
    pub opt_level: Seq<char>,
    /// The kind of debug information.
    pub debuginfo: Seq<char>,
    /// Debug assertions are enabled.
    pub debug_assertions: bool,
    /// Overflow checks are enabled.
    pub overflow_checks: bool,
    /// The profile is a test profile.
    pub test: bool,
}

impl View for ArtifactProfile {
    type V = ArtifactProfileData;

    open spec fn view(&self) -> ArtifactProfileData {
        ArtifactProfileData {
            opt_level: self.opt_level@,
            debuginfo: self.debuginfo@,
            debug_assertions: self.debug_assertions,
            overflow_checks: self.overflow_checks,
            test: self.test,
        }
    }
}

impl Clone for ArtifactProfile {
    fn clone(&self) -> (result: Self)
        ensures
            result@ == self@,
    {
        ArtifactProfile {
            opt_level: self.opt_level.clone(),
            debuginfo: self.debuginfo.clone(),
            debug_assertions: self.debug_assertions,
            overflow_checks: self.overflow_checks,
            test: self.test,
        }
    }
}

/// A compiler artifact that Cargo reports.
#[derive(Debug, PartialEq, Eq)]
pub struct Artifact {
    /// The identity of the package.
    pub package_id: String,
    /// The manifest of the package.
    pub manifest_path: String,
    /// The target.
    pub target: PackageTarget,
    /// The profile.
    pub profile: ArtifactProfile,
    /// The enabled features.
    pub features: Vec<String>,
    /// The generated files.
    pub filenames: Vec<String>,
    /// The executable file.
    pub executable: Option<String>,
    /// The files were already generated.
    pub fresh: bool,
}

/// The mathematical counterpart of [`Artifact`].
pub struct ArtifactData {
    /// The identity of the package.
    pub package_id: Seq<char>,
    /// The manifest of the package.
    pub manifest_path: Seq<char>,
    /// The target.
    pub target: PackageTargetData,
    /// The profile.
    pub profile: ArtifactProfileData,
    /// The enabled features.
    pub features: Seq<Seq<char>>,
    /// The generated files.
    pub filenames: Seq<Seq<char>>,
    /// The executable file.
    pub executable: Option<Seq<char>>,
    /// The files were already generated.
    pub fresh: bool,
}

impl View for Artifact {
    type V = ArtifactData;

    open spec fn view(&self) -> ArtifactData {
        ArtifactData {
            package_id: self.package_id@,
            manifest_path: self.manifest_path@,
            target: self.target@,
            profile: self.profile@,
            features: crate::chars::views(self.features@),
            filenames: crate::chars::views(self.filenames@),
            executable: crate::chars::option_view(self.executable),
            fresh: self.fresh,
        }
    }
}

impl Clone for Artifact {
    fn clone(&self) -> (result: Self)
        ensures
            result@ == self@,
    {
        Artifact {
            package_id: self.package_id.clone(),
            manifest_path: self.manifest_path.clone(),
            target: self.target.clone(),
            profile: self.profile.clone(),
            features: copy_texts(&self.features),
            filenames: copy_texts(&self.filenames),
            executable: copy_option(&self.executable),
            fresh: self.fresh,
        }
    }
}

/// The mathematical counterparts of a list.
pub open spec fn artifact_list(values: Seq<Artifact>) -> Seq<ArtifactData> {
    values.map_values(|value: Artifact| value@)
}

/// Compares two lists of texts.
pub fn same_texts(left: &Vec<String>, right: &Vec<String>) -> (result: bool)
    ensures
        result == (chars::views(left@) == chars::views(right@)),
{
    let ghost (l, r) = (chars::views(left@), chars::views(right@));
    if left.len() != right.len() {
        assert(l.len() != r.len());
        return false;
    }
    let mut index: usize = 0;
    while index < left.len()
        invariant
            index <= left@.len(),
            left@.len() == right@.len(),
            l == chars::views(left@),
            r == chars::views(right@),
            forall|i: int| 0 <= i < index ==> l[i] == r[i],
        decreases left.len() - index,
    {
        assert(l[index as int] == left@[index as int]@);
        assert(r[index as int] == right@[index as int]@);
        if !same_text(left[index].as_str(), right[index].as_str()) {
            return false;
        }
        index += 1;
    }
    assert(l =~= r);
    true
}

/// Two lists hold the same texts in any order.
pub open spec fn same_items(left: Seq<Seq<char>>, right: Seq<Seq<char>>) -> bool {
    sorting::arranged(left) == sorting::arranged(right)
}

/// Compares two lists of texts without regard to their order.
pub fn hold_same_items(left: &Vec<String>, right: &Vec<String>) -> (result: bool)
    ensures
        result == same_items(chars::views(left@), chars::views(right@)),
{
    let left = sort_texts(copy_texts(left));
    let right = sort_texts(copy_texts(right));
    same_texts(&left, &right)
}

/// Two targets are the same but for the order of their lists.
pub open spec fn same_target(left: PackageTargetData, right: PackageTargetData) -> bool {
    &&& left.name == right.name
    &&& same_items(left.kind, right.kind)
    &&& same_items(left.crate_types, right.crate_types)
    &&& same_items(left.required_features, right.required_features)
    &&& left.src_path == right.src_path
    &&& left.edition == right.edition
    &&& left.doctest == right.doctest
    &&& left.test == right.test
    &&& left.doc == right.doc
}

/// Compares two targets without regard to the order of their lists.
pub fn is_same_target(left: &PackageTarget, right: &PackageTarget) -> (result: bool)
    ensures
        result == same_target(left@, right@),
{
    same_text(left.name.as_str(), right.name.as_str()) && hold_same_items(&left.kind, &right.kind)
        && hold_same_items(&left.crate_types, &right.crate_types) && hold_same_items(
        &left.required_features,
        &right.required_features,
    ) && same_text(left.src_path.as_str(), right.src_path.as_str()) && same_text(
        left.edition.as_str(),
        right.edition.as_str(),
    ) && left.doctest == right.doctest && left.test == right.test && left.doc == right.doc
}

/// A target with sorted lists.
pub open spec fn normal_target(target: PackageTargetData) -> PackageTargetData {
    PackageTargetData {
        kind: sorting::arranged(target.kind),
        crate_types: sorting::arranged(target.crate_types),
        required_features: sorting::arranged(target.required_features),
        ..target
    }
}

/// An artifact with sorted lists, whose freshness no longer counts.
pub open spec fn normal_artifact(artifact: ArtifactData) -> ArtifactData {
    ArtifactData {
        target: normal_target(artifact.target),
        features: sorting::arranged(artifact.features),
        fresh: false,
        ..artifact
    }
}

/// A selected artifact in its normal form.
#[derive(Debug, PartialEq, Eq)]
pub struct CargoArtifactRecord {
    artifact: Artifact,
}

impl View for CargoArtifactRecord {
    type V = ArtifactData;

    closed spec fn view(&self) -> ArtifactData {
        self.artifact@
    }
}

impl CargoArtifactRecord {
    /// Brings an artifact into its normal form.
    pub fn new(artifact: Artifact) -> (result: Self)
        ensures
            result@ == normal_artifact(artifact@),
    {
        let Artifact {
            package_id,
            manifest_path,
            target,
            profile,
            features,
            filenames,
            executable,
            fresh,
        } = artifact;
        let PackageTarget {
            name,
            kind,
            crate_types,
            required_features,
            src_path,
            edition,
            doctest,
            test,
            doc,
        } = target;
        CargoArtifactRecord {
            artifact: Artifact {
                package_id,
                manifest_path,
                target: PackageTarget {
                    name,
                    kind: sort_texts(kind),
                    crate_types: sort_texts(crate_types),
                    required_features: sort_texts(required_features),
                    src_path,
                    edition,
                    doctest,
                    test,
                    doc,
                },
                profile,
                features: sort_texts(features),
                filenames,
                executable,
                fresh: false,
            },
        }
    }

    /// Returns the artifact.
    pub fn artifact(&self) -> (result: &Artifact)
        ensures
            result@ == self@,
    {
        &self.artifact
    }

    /// Compares two records.
    pub fn is_same(&self, other: &Self) -> (result: bool)
        ensures
            result == (self@ == other@),
    {
        let (left, right) = (&self.artifact, &other.artifact);
        same_text(left.package_id.as_str(), right.package_id.as_str()) && same_text(
            left.manifest_path.as_str(),
            right.manifest_path.as_str(),
        ) && is_equal_target(&left.target, &right.target) && same_text(
            left.profile.opt_level.as_str(),
            right.profile.opt_level.as_str(),
        ) && same_text(left.profile.debuginfo.as_str(), right.profile.debuginfo.as_str())
            && left.profile.debug_assertions == right.profile.debug_assertions
            && left.profile.overflow_checks == right.profile.overflow_checks && left.profile.test
            == right.profile.test && same_texts(&left.features, &right.features) && same_texts(
            &left.filenames,
            &right.filenames,
        ) && same_executable(&left.executable, &right.executable) && left.fresh == right.fresh
    }
}

fn same_executable(left: &Option<String>, right: &Option<String>) -> (result: bool)
    ensures
        result == (chars::option_view(*left) == chars::option_view(*right)),
{
    match (left, right) {
        (Some(left), Some(right)) => same_text(left.as_str(), right.as_str()),
        (None, None) => true,
        _ => false,
    }
}

fn is_equal_target(left: &PackageTarget, right: &PackageTarget) -> (result: bool)
    ensures
        result == (left@ == right@),
{
    same_text(left.name.as_str(), right.name.as_str()) && same_texts(&left.kind, &right.kind)
        && same_texts(&left.crate_types, &right.crate_types) && same_texts(
        &left.required_features,
        &right.required_features,
    ) && same_text(left.src_path.as_str(), right.src_path.as_str()) && same_text(
        left.edition.as_str(),
        right.edition.as_str(),
    ) && left.doctest == right.doctest && left.test == right.test && left.doc == right.doc
}

/// Equal normal forms mean artifacts that differ at most in freshness and in the order of their
/// lists.
pub proof fn normal_forms_ignore_order(left: ArtifactData, right: ArtifactData)
    ensures
        normal_artifact(left) == normal_artifact(right) ==> {
            &&& same_target(left.target, right.target)
            &&& same_items(left.features, right.features)
            &&& left.package_id == right.package_id
            &&& left.profile == right.profile
        },
        same_target(left.target, right.target) <==> normal_target(left.target) == normal_target(
            right.target,
        ),
{
}

} // verus!

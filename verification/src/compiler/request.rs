//! Defines the validated input to one Cargo capture.
//!
//! [`BuildRequest`] separates syntax-level validation from workspace resolution. Construction
//! rejects empty names and uses [`CargoTarget`] to make a single target selection explicit. The
//! request preserves the Cargo feature flags that must apply to metadata and the subsequent build.
//! Only a discovered workspace can establish whether the package and the target exist.
//!
//! This request represents only a Cargo selection. It does not represent evidence, output,
//! progress, or capture-lifecycle choices.

use super::features;
use super::features::normalize_features;
use crate::chars;
use crate::chars::{add_text, copy_texts, no_texts};
use vstd::prelude::*;
use vstd::string::StringExecFns;

verus! {

/// Selects exactly one target from a Cargo package.
#[derive(Debug, PartialEq, Eq)]
pub enum CargoTarget {
    /// Selects the package's library-like target.
    Library,
    /// Selects a binary by its Cargo metadata name.
    Binary(String),
    /// Selects an example by its Cargo metadata name.
    Example(String),
    /// Selects a benchmark by its Cargo metadata name.
    Benchmark(String),
}

/// The mathematical counterpart of [`CargoTarget`].
pub enum TargetData {
    /// The library-like target.
    Library,
    /// A binary.
    Binary(Seq<char>),
    /// An example.
    Example(Seq<char>),
    /// A benchmark.
    Benchmark(Seq<char>),
}

impl View for CargoTarget {
    type V = TargetData;

    open spec fn view(&self) -> TargetData {
        match self {
            CargoTarget::Library => TargetData::Library,
            CargoTarget::Binary(name) => TargetData::Binary(name@),
            CargoTarget::Example(name) => TargetData::Example(name@),
            CargoTarget::Benchmark(name) => TargetData::Benchmark(name@),
        }
    }
}

impl Clone for CargoTarget {
    fn clone(&self) -> (result: Self)
        ensures
            result@ == self@,
    {
        match self {
            CargoTarget::Library => CargoTarget::Library,
            CargoTarget::Binary(name) => CargoTarget::Binary(name.clone()),
            CargoTarget::Example(name) => CargoTarget::Example(name.clone()),
            CargoTarget::Benchmark(name) => CargoTarget::Benchmark(name.clone()),
        }
    }
}

/// The kind of a Cargo target.
#[derive(Clone, Copy, Debug, PartialEq, Eq, Structural)]
pub enum CargoTargetKind {
    /// A library-like target.
    Lib,
    /// A binary.
    Bin,
    /// An example.
    Example,
    /// A benchmark.
    Bench,
}

/// The kind of a target.
pub open spec fn kind_of(target: TargetData) -> CargoTargetKind {
    match target {
        TargetData::Library => CargoTargetKind::Lib,
        TargetData::Binary(_) => CargoTargetKind::Bin,
        TargetData::Example(_) => CargoTargetKind::Example,
        TargetData::Benchmark(_) => CargoTargetKind::Bench,
    }
}

/// The Cargo arguments that select a target.
pub open spec fn selectors(target: TargetData) -> Seq<Seq<char>> {
    match target {
        TargetData::Library => seq!["--lib"@],
        TargetData::Binary(name) => seq!["--bin"@, name],
        TargetData::Example(name) => seq!["--example"@, name],
        TargetData::Benchmark(name) => seq!["--bench"@, name],
    }
}

/// The description of a target.
pub open spec fn description(target: TargetData) -> Seq<char> {
    match target {
        TargetData::Library => "library"@,
        TargetData::Binary(name) => "binary "@ + name,
        TargetData::Example(name) => "example "@ + name,
        TargetData::Benchmark(name) => "benchmark "@ + name,
    }
}

fn described(prefix: &str, name: &str) -> (result: String)
    ensures
        result@ == prefix@ + name@,
{
    let mut text = String::from_str(prefix);
    text.append(name);
    text
}

impl CargoTarget {
    /// Returns the kind of the target.
    pub fn kind(&self) -> (result: CargoTargetKind)
        ensures
            result == kind_of(self@),
    {
        match self {
            CargoTarget::Library => CargoTargetKind::Lib,
            CargoTarget::Binary(_) => CargoTargetKind::Bin,
            CargoTarget::Example(_) => CargoTargetKind::Example,
            CargoTarget::Benchmark(_) => CargoTargetKind::Bench,
        }
    }

    /// Lists the Cargo arguments that select the target.
    pub fn selector_arguments(&self) -> (result: Vec<String>)
        ensures
            chars::views(result@) == selectors(self@),
    {
        let mut arguments = no_texts();
        match self {
            CargoTarget::Library => {
                add_text(&mut arguments, "--lib");
            },
            CargoTarget::Binary(name) => {
                add_text(&mut arguments, "--bin");
                add_text(&mut arguments, name.as_str());
            },
            CargoTarget::Example(name) => {
                add_text(&mut arguments, "--example");
                add_text(&mut arguments, name.as_str());
            },
            CargoTarget::Benchmark(name) => {
                add_text(&mut arguments, "--bench");
                add_text(&mut arguments, name.as_str());
            },
        }
        assert(chars::views(arguments@) =~= selectors(self@));
        arguments
    }

    /// Describes the target.
    pub fn describe(&self) -> (result: String)
        ensures
            result@ == description(self@),
    {
        match self {
            CargoTarget::Library => String::from_str("library"),
            CargoTarget::Binary(name) => described("binary ", name.as_str()),
            CargoTarget::Example(name) => described("example ", name.as_str()),
            CargoTarget::Benchmark(name) => described("benchmark ", name.as_str()),
        }
    }
}

/// A component of a request that must not be empty.
#[derive(Clone, Copy, Debug, PartialEq, Eq, Structural)]
pub enum RequestField {
    /// The package name.
    Package,
    /// The profile.
    Profile,
    /// The name of a binary.
    Binary,
    /// The name of an example.
    Example,
    /// The name of a benchmark.
    Benchmark,
    /// The name of a feature.
    Feature,
}

impl RequestField {
    /// The name of the component.
    pub open spec fn name(self) -> Seq<char> {
        match self {
            RequestField::Package => "package name"@,
            RequestField::Profile => "profile"@,
            RequestField::Binary => "binary target name"@,
            RequestField::Example => "example target name"@,
            RequestField::Benchmark => "benchmark target name"@,
            RequestField::Feature => "feature name"@,
        }
    }

    /// Returns the name of the component.
    pub fn as_str(self) -> (result: &'static str)
        ensures
            result@ == self.name(),
    {
        match self {
            RequestField::Package => "package name",
            RequestField::Profile => "profile",
            RequestField::Binary => "binary target name",
            RequestField::Example => "example target name",
            RequestField::Benchmark => "benchmark target name",
            RequestField::Feature => "feature name",
        }
    }
}

/// Identifies the empty component of a syntactically invalid build request.
#[derive(Clone, Copy, Debug, PartialEq, Eq, Structural)]
pub struct InvalidBuildRequest {
    /// The empty component.
    pub field: RequestField,
}

impl InvalidBuildRequest {
    /// Describes the empty component.
    pub fn message(&self) -> (result: String)
        ensures
            result@ == self.field.name() + " must not be empty, got an empty string"@,
    {
        let mut text = String::from_str(self.field.as_str());
        text.append(" must not be empty, got an empty string");
        text
    }
}

/// A text must not be empty.
pub open spec fn required(field: RequestField, text: Seq<char>) -> Result<(), InvalidBuildRequest> {
    if text.len() == 0 {
        Err(InvalidBuildRequest { field })
    } else {
        Ok(())
    }
}

fn require_text(field: RequestField, value: &str) -> (result: Result<(), InvalidBuildRequest>)
    ensures
        result == required(field, value@),
{
    if value.is_empty() {
        return Err(InvalidBuildRequest { field });
    }
    Ok(())
}

/// The verdict on the name of a target.
pub open spec fn target_verdict(target: TargetData) -> Result<(), InvalidBuildRequest> {
    match target {
        TargetData::Library => Ok(()),
        TargetData::Binary(name) => required(RequestField::Binary, name),
        TargetData::Example(name) => required(RequestField::Example, name),
        TargetData::Benchmark(name) => required(RequestField::Benchmark, name),
    }
}

/// The verdict on the components of a request.
pub open spec fn request_verdict(
    package: Seq<char>,
    target: TargetData,
    profile: Seq<char>,
) -> Result<(), InvalidBuildRequest> {
    if package.len() == 0 {
        Err(InvalidBuildRequest { field: RequestField::Package })
    } else if profile.len() == 0 {
        Err(InvalidBuildRequest { field: RequestField::Profile })
    } else {
        target_verdict(target)
    }
}

/// Every text of a list has characters.
pub open spec fn none_empty(texts: Seq<Seq<char>>) -> bool {
    forall|i: int| 0 <= i < texts.len() ==> (#[trigger] texts[i]).len() > 0
}

/// A request with the normal form of its features.
pub open spec fn normal_request(request: RequestData) -> RequestData {
    RequestData { features: features::normal_features(request.features), ..request }
}

/// The mathematical counterpart of [`BuildRequest`].
pub struct RequestData {
    /// The package name.
    pub package: Seq<char>,
    /// The target.
    pub target: TargetData,
    /// The profile.
    pub profile: Seq<char>,
    /// The selected features.
    pub features: Seq<Seq<char>>,
    /// Every feature is selected.
    pub all_features: bool,
    /// The default features are not selected.
    pub no_default_features: bool,
}

/// A validated Cargo package, target, profile, and feature selection.
#[derive(Debug, PartialEq, Eq)]
pub struct BuildRequest {
    package: String,
    target: CargoTarget,
    profile: String,
    features: Vec<String>,
    all_features: bool,
    no_default_features: bool,
}

impl View for BuildRequest {
    type V = RequestData;

    closed spec fn view(&self) -> RequestData {
        RequestData {
            package: self.package@,
            target: self.target@,
            profile: self.profile@,
            features: chars::views(self.features@),
            all_features: self.all_features,
            no_default_features: self.no_default_features,
        }
    }
}

impl Clone for BuildRequest {
    fn clone(&self) -> (result: Self)
        ensures
            result@ == self@,
    {
        proof {
            use_type_invariant(self);
        }
        BuildRequest {
            package: self.package.clone(),
            target: self.target.clone(),
            profile: self.profile.clone(),
            features: copy_texts(&self.features),
            all_features: self.all_features,
            no_default_features: self.no_default_features,
        }
    }
}

impl BuildRequest {
    #[verifier::type_invariant]
    spec fn validated(&self) -> bool {
        &&& request_verdict(self.package@, self.target@, self.profile@) is Ok
        &&& none_empty(chars::views(self.features@))
    }

    /// A request has no empty component.
    pub fn require_components(&self)
        ensures
            request_verdict(self@.package, self@.target, self@.profile) is Ok,
            none_empty(self@.features),
    {
        proof {
            use_type_invariant(self);
        }
    }

    /// Creates one explicit Cargo build request.
    ///
    /// Fails when the package, profile, or named target is empty.
    pub fn new(package: &str, target: CargoTarget, profile: &str) -> (result: Result<
        Self,
        InvalidBuildRequest,
    >)
        ensures
            match (result, request_verdict(package@, target@, profile@)) {
                (Ok(request), Ok(())) => request@ == (RequestData {
                    package: package@,
                    target: target@,
                    profile: profile@,
                    features: Seq::empty(),
                    all_features: false,
                    no_default_features: false,
                }),
                (Err(error), Err(expected)) => error == expected,
                _ => false,
            },
    {
        match require_text(RequestField::Package, package) {
            Err(error) => {
                return Err(error);
            },
            Ok(()) => {},
        }
        match require_text(RequestField::Profile, profile) {
            Err(error) => {
                return Err(error);
            },
            Ok(()) => {},
        }
        let verdict = match &target {
            CargoTarget::Library => Ok(()),
            CargoTarget::Binary(name) => require_text(RequestField::Binary, name.as_str()),
            CargoTarget::Example(name) => require_text(RequestField::Example, name.as_str()),
            CargoTarget::Benchmark(name) => require_text(RequestField::Benchmark, name.as_str()),
        };
        match verdict {
            Err(error) => {
                return Err(error);
            },
            Ok(()) => {},
        }
        let features = no_texts();
        Ok(
            BuildRequest {
                package: String::from_str(package),
                target,
                profile: String::from_str(profile),
                features,
                all_features: false,
                no_default_features: false,
            },
        )
    }

    /// Enables the listed Cargo features.
    ///
    /// Fails when an explicitly selected feature name is empty.
    pub fn with_features(self, features: Vec<String>) -> (result: Result<
        Self,
        InvalidBuildRequest,
    >)
        ensures
            match result {
                Ok(request) => none_empty(chars::views(features@)) && request@ == (RequestData {
                    features: chars::views(features@),
                    ..self@
                }),
                Err(error) => !none_empty(chars::views(features@)) && error
                    == (InvalidBuildRequest { field: RequestField::Feature }),
            },
    {
        proof {
            use_type_invariant(&self);
        }
        let ghost all = chars::views(features@);
        let mut index: usize = 0;
        while index < features.len()
            invariant
                index <= features@.len(),
                all == chars::views(features@),
                forall|i: int| 0 <= i < index ==> (#[trigger] all[i]).len() > 0,
            decreases features.len() - index,
        {
            assert(all[index as int] == features@[index as int]@);
            match require_text(RequestField::Feature, features[index].as_str()) {
                Err(error) => {
                    return Err(error);
                },
                Ok(()) => {},
            }
            index += 1;
        }
        Ok(BuildRequest { features, ..self })
    }

    /// Returns the same request with its feature names in ascending order and without repetitions.
    pub fn normalized(&self) -> (result: Self)
        ensures
            result@ == normal_request(self@),
    {
        proof {
            use_type_invariant(self);
            features::normal_names_are_plain(chars::views(self.features@));
        }
        let features = normalize_features(&self.features);
        BuildRequest {
            package: self.package.clone(),
            target: self.target.clone(),
            profile: self.profile.clone(),
            features,
            all_features: self.all_features,
            no_default_features: self.no_default_features,
        }
    }

    /// Enables every feature declared by the selected packages.
    #[must_use]
    pub fn with_all_features(self) -> (result: Self)
        ensures
            result@ == (RequestData { all_features: true, ..self@ }),
    {
        proof {
            use_type_invariant(&self);
        }
        BuildRequest { all_features: true, ..self }
    }

    /// Disables the default features of the selected packages.
    #[must_use]
    pub fn without_default_features(self) -> (result: Self)
        ensures
            result@ == (RequestData { no_default_features: true, ..self@ }),
    {
        proof {
            use_type_invariant(&self);
        }
        BuildRequest { no_default_features: true, ..self }
    }

    /// Returns the requested package name.
    pub fn package(&self) -> (result: &str)
        ensures
            result@ == self@.package,
    {
        self.package.as_str()
    }

    /// Returns the requested Cargo target.
    pub fn target(&self) -> (result: &CargoTarget)
        ensures
            result@ == self@.target,
    {
        &self.target
    }

    /// Returns the explicit Cargo profile name.
    pub fn profile(&self) -> (result: &str)
        ensures
            result@ == self@.profile,
    {
        self.profile.as_str()
    }

    /// Returns the values passed through Cargo's `--features` option.
    pub fn features(&self) -> (result: &[String])
        ensures
            chars::views(result@) == self@.features,
    {
        self.features.as_slice()
    }

    /// Returns whether Cargo enables every declared feature.
    pub fn all_features(&self) -> (result: bool)
        ensures
            result == self@.all_features,
    {
        self.all_features
    }

    /// Returns whether Cargo disables default features.
    pub fn no_default_features(&self) -> (result: bool)
        ensures
            result == self@.no_default_features,
    {
        self.no_default_features
    }

    /// Joins the values passed through Cargo's `--features` option.
    pub fn joined_features(&self) -> (result: String)
        ensures
            result@ == chars::joined(self@.features, ","@),
    {
        chars::join(&self.features, ",")
    }
}

/// A request is refused exactly if its package, its profile or the name of its target is empty,
/// and the first of these that is empty is named.
pub proof fn empty_components_are_named(
    package: Seq<char>,
    target: TargetData,
    profile: Seq<char>,
)
    ensures
        package.len() == 0 ==> request_verdict(package, target, profile) == Err::<
            (),
            InvalidBuildRequest,
        >(InvalidBuildRequest { field: RequestField::Package }),
        package.len() > 0 && profile.len() == 0 ==> request_verdict(package, target, profile)
            == Err::<(), InvalidBuildRequest>(
            InvalidBuildRequest { field: RequestField::Profile },
        ),
        package.len() > 0 && profile.len() > 0 ==> {
            &&& target is Library ==> request_verdict(package, target, profile) is Ok
            &&& (target matches TargetData::Binary(name) && name.len() > 0) ==> request_verdict(
                package,
                target,
                profile,
            ) is Ok
            &&& (target matches TargetData::Example(name) && name.len() > 0) ==> request_verdict(
                package,
                target,
                profile,
            ) is Ok
            &&& (target matches TargetData::Benchmark(name) && name.len() > 0) ==> request_verdict(
                package,
                target,
                profile,
            ) is Ok
            &&& (target matches TargetData::Binary(name) && name.len() == 0) ==> request_verdict(
                package,
                target,
                profile,
            ) == Err::<(), InvalidBuildRequest>(
                InvalidBuildRequest { field: RequestField::Binary },
            )
            &&& (target matches TargetData::Example(name) && name.len() == 0) ==> request_verdict(
                package,
                target,
                profile,
            ) == Err::<(), InvalidBuildRequest>(
                InvalidBuildRequest { field: RequestField::Example },
            )
            &&& (target matches TargetData::Benchmark(name) && name.len() == 0) ==> request_verdict(
                package,
                target,
                profile,
            ) == Err::<(), InvalidBuildRequest>(
                InvalidBuildRequest { field: RequestField::Benchmark },
            )
        },
{
}

/// Two targets with the same selecting arguments, or with the same description, are the same.
pub proof fn selections_are_unambiguous(left: TargetData, right: TargetData)
    ensures
        selectors(left) == selectors(right) ==> left == right,
        description(left) == description(right) ==> left == right,
        kind_of(left) == kind_of(right) <==> selectors(left)[0] == selectors(right)[0],
{
    reveal_strlit("--lib");
    reveal_strlit("--bin");
    reveal_strlit("--example");
    reveal_strlit("--bench");
    reveal_strlit("library");
    reveal_strlit("binary ");
    reveal_strlit("example ");
    reveal_strlit("benchmark ");
    assert("--lib"@[2] == 'l' && "--bin"@[2] == 'b');
    assert("--lib"@ != "--bin"@);
    assert("--lib"@.len() == 5 && "--bin"@.len() == 5 && "--example"@.len() == 9
        && "--bench"@.len() == 7);
    let first = selectors(left)[0];
    let second = selectors(right)[0];
    assert(first == (match left {
        TargetData::Library => "--lib"@,
        TargetData::Binary(_) => "--bin"@,
        TargetData::Example(_) => "--example"@,
        TargetData::Benchmark(_) => "--bench"@,
    }));
    assert(second == (match right {
        TargetData::Library => "--lib"@,
        TargetData::Binary(_) => "--bin"@,
        TargetData::Example(_) => "--example"@,
        TargetData::Benchmark(_) => "--bench"@,
    }));
    if let (Some(l), Some(r)) = (selected_name(left), selected_name(right)) {
        let a = selectors(left);
        let b = selectors(right);
        assert(a[1] == l && b[1] == r);
    }
    let a = description(left);
    let b = description(right);
    if a == b {
        assert(a[0] == b[0] && a[1] == b[1]);
        assert(left is Library <==> right is Library);
        if let (TargetData::Binary(l), TargetData::Binary(r)) = (left, right) {
            assert(a.skip(7) =~= l && b.skip(7) =~= r);
        }
        if let (TargetData::Example(l), TargetData::Example(r)) = (left, right) {
            assert(a.skip(8) =~= l && b.skip(8) =~= r);
        }
        if let (TargetData::Benchmark(l), TargetData::Benchmark(r)) = (left, right) {
            assert(a.skip(10) =~= l && b.skip(10) =~= r);
        }
    }
}

spec fn selected_name(target: TargetData) -> Option<Seq<char>> {
    match target {
        TargetData::Library => None,
        TargetData::Binary(name) => Some(name),
        TargetData::Example(name) => Some(name),
        TargetData::Benchmark(name) => Some(name),
    }
}

} // verus!

//! Resolves one validated build request into Cargo metadata and command arguments.
//!
//! Collection keeps this resolution separate from compiler interception so the selected package,
//! target, profile, and features produce both the durable build record and the one instrumented
//! `cargo rustc` command.

use super::error::{Error, Failure};
use super::metadata;
use super::metadata::{Package, PackageData, PackageTarget, PackageTargetData};
use super::request;
use super::request::{BuildRequest, CargoTarget, RequestData, TargetData};
use crate::chars;
use crate::chars::{add_text, no_texts};
use crate::text::same_text;
use vstd::prelude::*;
use vstd::string::StringExecFns;

verus! {

/// The index of the first member with a name, or the number of members.
pub open spec fn member_index(packages: Seq<PackageData>, name: Seq<char>) -> int
    decreases packages.len(),
{
    if packages.len() == 0 || packages[0].name == name {
        0
    } else {
        1 + member_index(packages.skip(1), name)
    }
}

proof fn member_index_is(packages: Seq<PackageData>, name: Seq<char>, index: int)
    requires
        0 <= index <= packages.len(),
        forall|i: int| 0 <= i < index ==> (#[trigger] packages[i]).name != name,
        index < packages.len() ==> packages[index].name == name,
    ensures
        member_index(packages, name) == index,
    decreases packages.len(),
{
    if index > 0 {
        assert(packages[0].name != name);
        let tail = packages.skip(1);
        assert forall|i: int| 0 <= i < index - 1 implies (#[trigger] tail[i]).name != name by {
            assert(tail[i] == packages[i + 1]);
        }
        member_index_is(tail, name, index - 1);
    }
}

/// Finds the workspace member with a name.
pub fn resolve_package<'a>(packages: &'a Vec<Package>, name: &str) -> (result: Result<
    &'a Package,
    Error,
>)
    ensures
        ({
            let members = metadata::package_list(packages@);
            let index = member_index(members, name@);
            match result {
                Ok(package) => index < members.len() && package@ == members[index],
                Err(error) => index == members.len() && error@ == (Failure::<
                    Seq<char>,
                    super::fault::SpecFault,
                >::PackageNotFound { package: name@ }),
            }
        }),
{
    let ghost members = metadata::package_list(packages@);
    let mut index: usize = 0;
    while index < packages.len() && !same_text(packages[index].name.as_str(), name)
        invariant
            index <= packages@.len(),
            members == metadata::package_list(packages@),
            members.len() == packages@.len(),
            forall|i: int| 0 <= i < index ==> (#[trigger] members[i]).name != name@,
        decreases packages.len() - index,
    {
        assert(members[index as int] == packages@[index as int]@);
        index += 1;
    }
    proof {
        if index < packages@.len() {
            assert(members[index as int] == packages@[index as int]@);
        }
        member_index_is(members, name@, index as int);
    }
    if index < packages.len() {
        Ok(&packages[index])
    } else {
        Err(Failure::PackageNotFound { package: String::from_str(name) })
    }
}

/// A kind of library.
pub open spec fn library_kind(kind: Seq<char>) -> bool {
    ||| kind == "lib"@
    ||| kind == "rlib"@
    ||| kind == "dylib"@
    ||| kind == "cdylib"@
    ||| kind == "staticlib"@
    ||| kind == "proc-macro"@
}

/// A target has a kind.
pub open spec fn has_kind(target: PackageTargetData, kind: Seq<char>) -> bool {
    exists|i: int| 0 <= i < target.kind.len() && #[trigger] target.kind[i] == kind
}

/// A target has a kind of library.
pub open spec fn is_library(target: PackageTargetData) -> bool {
    exists|i: int| 0 <= i < target.kind.len() && library_kind(#[trigger] target.kind[i])
}

/// A selection means a target.
pub open spec fn selects(selected: TargetData, target: PackageTargetData) -> bool {
    match selected {
        TargetData::Library => is_library(target),
        TargetData::Binary(name) => has_kind(target, "bin"@) && target.name == name,
        TargetData::Example(name) => has_kind(target, "example"@) && target.name == name,
        TargetData::Benchmark(name) => has_kind(target, "bench"@) && target.name == name,
    }
}

fn target_has_kind(target: &PackageTarget, kind: &str) -> (result: bool)
    ensures
        result == has_kind(target@, kind@),
{
    let ghost kinds = target@.kind;
    let mut index: usize = 0;
    while index < target.kind.len()
        invariant
            index <= target.kind@.len(),
            kinds == target@.kind,
            kinds.len() == target.kind@.len(),
            forall|i: int| 0 <= i < index ==> #[trigger] kinds[i] != kind@,
        decreases target.kind.len() - index,
    {
        assert(kinds[index as int] == target.kind@[index as int]@);
        if same_text(target.kind[index].as_str(), kind) {
            return true;
        }
        index += 1;
    }
    false
}

fn target_is_library(target: &PackageTarget) -> (result: bool)
    ensures
        result == is_library(target@),
{
    let ghost kinds = target@.kind;
    let mut index: usize = 0;
    while index < target.kind.len()
        invariant
            index <= target.kind@.len(),
            kinds == target@.kind,
            kinds.len() == target.kind@.len(),
            forall|i: int| 0 <= i < index ==> !library_kind(#[trigger] kinds[i]),
        decreases target.kind.len() - index,
    {
        assert(kinds[index as int] == target.kind@[index as int]@);
        let kind = target.kind[index].as_str();
        if same_text(kind, "lib") || same_text(kind, "rlib") || same_text(kind, "dylib")
            || same_text(kind, "cdylib") || same_text(kind, "staticlib") || same_text(
            kind,
            "proc-macro",
        ) {
            return true;
        }
        index += 1;
    }
    false
}

fn is_selected(selected: &CargoTarget, target: &PackageTarget) -> (result: bool)
    ensures
        result == selects(selected@, target@),
{
    match selected {
        CargoTarget::Library => target_is_library(target),
        CargoTarget::Binary(name) => target_has_kind(target, "bin") && same_text(
            target.name.as_str(),
            name.as_str(),
        ),
        CargoTarget::Example(name) => target_has_kind(target, "example") && same_text(
            target.name.as_str(),
            name.as_str(),
        ),
        CargoTarget::Benchmark(name) => target_has_kind(target, "bench") && same_text(
            target.name.as_str(),
            name.as_str(),
        ),
    }
}

/// The index of the first target that a selection means, or the number of targets.
pub open spec fn target_index(targets: Seq<PackageTargetData>, selected: TargetData) -> int
    decreases targets.len(),
{
    if targets.len() == 0 || selects(selected, targets[0]) {
        0
    } else {
        1 + target_index(targets.skip(1), selected)
    }
}

proof fn target_index_is(targets: Seq<PackageTargetData>, selected: TargetData, index: int)
    requires
        0 <= index <= targets.len(),
        forall|i: int| 0 <= i < index ==> !selects(selected, #[trigger] targets[i]),
        index < targets.len() ==> selects(selected, targets[index]),
    ensures
        target_index(targets, selected) == index,
    decreases targets.len(),
{
    if index > 0 {
        assert(!selects(selected, targets[0]));
        let tail = targets.skip(1);
        assert forall|i: int| 0 <= i < index - 1 implies !selects(
            selected,
            #[trigger] tail[i],
        ) by {
            assert(tail[i] == targets[i + 1]);
        }
        target_index_is(tail, selected, index - 1);
    }
}

/// Finds the target of a package that a selection means.
pub fn resolve_target<'a>(package: &'a Package, selected: &CargoTarget) -> (result: Result<
    &'a PackageTarget,
    Error,
>)
    ensures
        ({
            let targets = package@.targets;
            let index = target_index(targets, selected@);
            match result {
                Ok(target) => index < targets.len() && target@ == targets[index],
                Err(error) => index == targets.len() && error@ == (Failure::<
                    Seq<char>,
                    super::fault::SpecFault,
                >::TargetNotFound {
                    package: package@.name,
                    target: request::description(selected@),
                }),
            }
        }),
        result matches Ok(target) ==> match *selected {
            CargoTarget::Library => {
                let kinds = chars::views(target.kind@);
                kinds.contains("lib"@) || kinds.contains("rlib"@) || kinds.contains("dylib"@)
                    || kinds.contains("cdylib"@) || kinds.contains("staticlib"@) || kinds.contains(
                    "proc-macro"@,
                )
            },
            CargoTarget::Binary(name) => target.name@ == name@ && chars::views(
                target.kind@,
            ).contains("bin"@),
            CargoTarget::Example(name) => target.name@ == name@ && chars::views(
                target.kind@,
            ).contains("example"@),
            CargoTarget::Benchmark(name) => target.name@ == name@ && chars::views(
                target.kind@,
            ).contains("bench"@),
        },
{
    let ghost targets = package@.targets;
    let mut index: usize = 0;
    while index < package.targets.len() && !is_selected(selected, &package.targets[index])
        invariant
            index <= package.targets@.len(),
            targets == metadata::package_target_list(package.targets@),
            targets.len() == package.targets@.len(),
            forall|i: int| 0 <= i < index ==> !selects(selected@, #[trigger] targets[i]),
        decreases package.targets.len() - index,
    {
        assert(targets[index as int] == package.targets@[index as int]@);
        index += 1;
    }
    proof {
        if index < package.targets@.len() {
            assert(targets[index as int] == package.targets@[index as int]@);
        }
        target_index_is(targets, selected@, index as int);
    }
    if index < package.targets.len() {
        Ok(&package.targets[index])
    } else {
        Err(
            Failure::TargetNotFound {
                package: package.name.clone(),
                target: selected.describe(),
            },
        )
    }
}

proof fn target_index_bounds(targets: Seq<PackageTargetData>, selected: TargetData)
    ensures
        0 <= target_index(targets, selected) <= targets.len(),
        target_index(targets, selected) < targets.len() ==> selects(
            selected,
            targets[target_index(targets, selected)],
        ),
        forall|i: int|
            0 <= i < target_index(targets, selected) ==> !selects(selected, #[trigger] targets[i]),
    decreases targets.len(),
{
    if targets.len() > 0 && !selects(selected, targets[0]) {
        let tail = targets.skip(1);
        target_index_bounds(tail, selected);
        assert forall|i: int| 0 <= i < target_index(targets, selected) implies !selects(
            selected,
            #[trigger] targets[i],
        ) by {
            if i > 0 {
                assert(tail[i - 1] == targets[i]);
            }
        }
    }
}

/// A binary, an example or a benchmark is the first target that has the requested name and, among
/// its kinds, `bin`, `example` or `bench`. It is found if there is one.
pub proof fn named_targets_are_resolved(
    targets: Seq<PackageTargetData>,
    selected: TargetData,
    name: Seq<char>,
    kind: Seq<char>,
)
    requires
        (selected == TargetData::Binary(name) && kind == "bin"@) || (selected
            == TargetData::Example(name) && kind == "example"@) || (selected
            == TargetData::Benchmark(name) && kind == "bench"@),
    ensures
        0 <= target_index(targets, selected) <= targets.len(),
        target_index(targets, selected) < targets.len() ==> {
            let target = targets[target_index(targets, selected)];
            target.name == name && target.kind.contains(kind)
        },
        forall|i: int|
            0 <= i < target_index(targets, selected) ==> (#[trigger] targets[i]).name != name
                || !targets[i].kind.contains(kind),
{
    target_index_bounds(targets, selected);
    assert forall|i: int| 0 <= i < target_index(targets, selected) implies (
    #[trigger] targets[i]).name != name || !targets[i].kind.contains(kind) by {
        assert(!selects(selected, targets[i]));
    }
}

/// A library is the first target with a kind of library, whatever its name is. It is found if
/// there is one.
pub proof fn libraries_are_resolved(targets: Seq<PackageTargetData>)
    ensures
        ({
            let kinds = seq![
                "lib"@,
                "rlib"@,
                "dylib"@,
                "cdylib"@,
                "staticlib"@,
                "proc-macro"@,
            ];
            let index = target_index(targets, TargetData::Library);
            &&& 0 <= index <= targets.len()
            &&& index < targets.len() ==> exists|k: int|
                0 <= k < kinds.len() && targets[index].kind.contains(#[trigger] kinds[k])
            &&& forall|i: int, k: int|
                0 <= i < index && 0 <= k < kinds.len() ==> !(#[trigger] targets[i]).kind.contains(
                    #[trigger] kinds[k],
                )
        }),
{
    let kinds = seq!["lib"@, "rlib"@, "dylib"@, "cdylib"@, "staticlib"@, "proc-macro"@];
    let index = target_index(targets, TargetData::Library);
    target_index_bounds(targets, TargetData::Library);
    if index < targets.len() {
        let kind = targets[index].kind;
        let i = choose|i: int| 0 <= i < kind.len() && library_kind(#[trigger] kind[i]);
        assert(kinds[0] == "lib"@ && kinds[1] == "rlib"@ && kinds[2] == "dylib"@ && kinds[3]
            == "cdylib"@ && kinds[4] == "staticlib"@ && kinds[5] == "proc-macro"@);
        let k: int = choose|k: int| 0 <= k < kinds.len() && #[trigger] kinds[k] == kind[i];
        assert(kind.contains(kinds[k]));
    }
    assert forall|i: int, k: int| 0 <= i < index && 0 <= k < kinds.len() implies !(
    #[trigger] targets[i]).kind.contains(#[trigger] kinds[k]) by {
        assert(!selects(TargetData::Library, targets[i]));
        if targets[i].kind.contains(kinds[k]) {
            let j = choose|j: int|
                0 <= j < targets[i].kind.len() && targets[i].kind[j] == kinds[k];
            assert(library_kind(targets[i].kind[j]));
        }
    }
}

/// A package is the first workspace member with the requested name. It is found if there is one.
pub proof fn members_are_resolved_by_name(packages: Seq<PackageData>, name: Seq<char>)
    ensures
        0 <= member_index(packages, name) <= packages.len(),
        member_index(packages, name) < packages.len() ==> packages[member_index(
            packages,
            name,
        )].name == name,
        forall|i: int|
            0 <= i < member_index(packages, name) ==> (#[trigger] packages[i]).name != name,
    decreases packages.len(),
{
    if packages.len() > 0 && packages[0].name != name {
        let tail = packages.skip(1);
        members_are_resolved_by_name(tail, name);
        assert forall|i: int| 0 <= i < member_index(packages, name) implies (
        #[trigger] packages[i]).name != name by {
            if i > 0 {
                assert(tail[i - 1] == packages[i]);
            }
        }
    }
}

/// The Cargo arguments of a request.
pub open spec fn arguments_of(request: RequestData) -> Seq<Seq<char>> {
    seq!["rustc"@, "--package"@, request.package] + request::selectors(request.target) + seq![
        "--profile"@,
        request.profile,
    ] + (if request.features.len() > 0 {
        seq!["--features"@, chars::joined(request.features, ","@)]
    } else {
        Seq::empty()
    }) + (if request.all_features {
        seq!["--all-features"@]
    } else {
        Seq::empty()
    }) + (if request.no_default_features {
        seq!["--no-default-features"@]
    } else {
        Seq::empty()
    })
}

/// Lists the Cargo arguments of a request.
pub fn cargo_arguments(request: &BuildRequest) -> (result: Vec<String>)
    ensures
        chars::views(result@) == arguments_of(request@),
{
    let mut arguments = no_texts();
    add_text(&mut arguments, "rustc");
    add_text(&mut arguments, "--package");
    add_text(&mut arguments, request.package());
    let selectors = request.target().selector_arguments();
    let ghost list = chars::views(selectors@);
    let ghost start = chars::views(arguments@);
    assert(start =~= seq!["rustc"@, "--package"@, request@.package]);
    let mut index: usize = 0;
    assert(chars::views(arguments@) =~= start + list.take(0));
    while index < selectors.len()
        invariant
            index <= selectors@.len(),
            list == chars::views(selectors@),
            chars::views(arguments@) == start + list.take(index as int),
        decreases selectors.len() - index,
    {
        add_text(&mut arguments, selectors[index].as_str());
        assert(list[index as int] == selectors@[index as int]@);
        assert(chars::views(arguments@) =~= start + list.take(index + 1));
        index += 1;
    }
    assert(list.take(list.len() as int) =~= list);
    add_text(&mut arguments, "--profile");
    add_text(&mut arguments, request.profile());
    let ghost selected = start + list + seq!["--profile"@, request@.profile];
    assert(chars::views(arguments@) =~= selected);
    if request.features().len() > 0 {
        add_text(&mut arguments, "--features");
        let features = request.joined_features();
        add_text(&mut arguments, features.as_str());
    }
    assert(chars::views(arguments@) =~= selected + (if request@.features.len() > 0 {
        seq!["--features"@, chars::joined(request@.features, ","@)]
    } else {
        Seq::empty()
    }));
    let ghost featured = chars::views(arguments@);
    if request.all_features() {
        add_text(&mut arguments, "--all-features");
    }
    assert(chars::views(arguments@) =~= featured + (if request@.all_features {
        seq!["--all-features"@]
    } else {
        Seq::empty()
    }));
    let ghost complete = chars::views(arguments@);
    if request.no_default_features() {
        add_text(&mut arguments, "--no-default-features");
    }
    assert(chars::views(arguments@) =~= complete + (if request@.no_default_features {
        seq!["--no-default-features"@]
    } else {
        Seq::empty()
    }));
    arguments
}

/// The arguments name the package, then the target by its flag and, but for a library, its name,
/// then the profile. The features come next, joined by commas, and the two feature flags last.
/// Nothing else stands among them.
pub proof fn arguments_state_the_request(request: RequestData)
    ensures
        ({
            let arguments = arguments_of(request);
            let flags: int = if request.target is Library {
                6
            } else {
                7
            };
            let behind: int = if request.features.len() > 0 {
                flags + 2
            } else {
                flags
            };
            let all: int = if request.all_features {
                behind + 1
            } else {
                behind
            };
            let total: int = if request.no_default_features {
                all + 1
            } else {
                all
            };
            &&& arguments.len() == total
            &&& arguments[0] == "rustc"@
            &&& arguments[1] == "--package"@
            &&& arguments[2] == request.package
            &&& request.target is Library ==> arguments[3] == "--lib"@
            &&& request.target matches TargetData::Binary(name) ==> arguments[3] == "--bin"@
                && arguments[4] == name
            &&& request.target matches TargetData::Example(name) ==> arguments[3] == "--example"@
                && arguments[4] == name
            &&& request.target matches TargetData::Benchmark(name) ==> arguments[3] == "--bench"@
                && arguments[4] == name
            &&& arguments[flags - 2] == "--profile"@
            &&& arguments[flags - 1] == request.profile
            &&& request.features.len() > 0 ==> arguments[flags] == "--features"@
                && arguments[flags + 1] == chars::joined(request.features, ","@)
            &&& request.all_features ==> arguments[behind] == "--all-features"@
            &&& request.no_default_features ==> arguments[all] == "--no-default-features"@
        }),
{
}

} // verus!

//! What file names say about captured LLVM modules.

use super::capture;
use super::capture::{CaptureMethod, EnvironmentVariable, LlvmStage, LtoScope};
use super::request::{BuildRequestData, CaptureProfileData, CargoTargetData};
use crate::chars;
use crate::paths;
use vstd::prelude::*;

verus! {

/// A pattern stands somewhere in a text.
pub open spec fn stands_in(text: Seq<char>, pattern: Seq<char>) -> bool {
    exists|index: int|
        0 <= index && index + pattern.len() <= text.len() && #[trigger] text.subrange(
            index,
            index + pattern.len(),
        ) == pattern
}

/// Two endings of one text agree in every character that both have.
proof fn endings_agree(text: Seq<char>, left: Seq<char>, right: Seq<char>, back: int)
    requires
        left.is_suffix_of(text),
        right.is_suffix_of(text),
        1 <= back <= left.len(),
        back <= right.len(),
    ensures
        left[left.len() - back] == right[right.len() - back],
{
    let at = text.len() - back;
    assert(text.subrange(text.len() - left.len(), text.len() as int)[left.len() - back]
        == text[at]);
    assert(text.subrange(text.len() - right.len(), text.len() as int)[right.len() - back]
        == text[at]);
}

proof fn endings_differ(name: Seq<char>)
    ensures
        ".no-opt.bc"@.is_suffix_of(name) ==> !".thin-lto-input.bc"@.is_suffix_of(name)
            && !".thin-lto-after-import.bc"@.is_suffix_of(name)
            && !".thin-lto-after-internalize.bc"@.is_suffix_of(name)
            && !".thin-lto-after-pm.bc"@.is_suffix_of(name) && !".rcgu.bc"@.is_suffix_of(name),
        ".thin-lto-input.bc"@.is_suffix_of(name) ==> !".thin-lto-after-import.bc"@.is_suffix_of(
            name,
        ) && !".thin-lto-after-internalize.bc"@.is_suffix_of(name)
            && !".thin-lto-after-pm.bc"@.is_suffix_of(name) && !".rcgu.bc"@.is_suffix_of(name),
        ".thin-lto-after-import.bc"@.is_suffix_of(name)
            ==> !".thin-lto-after-internalize.bc"@.is_suffix_of(name)
            && !".thin-lto-after-pm.bc"@.is_suffix_of(name) && !".rcgu.bc"@.is_suffix_of(name),
        ".thin-lto-after-internalize.bc"@.is_suffix_of(name)
            ==> !".thin-lto-after-pm.bc"@.is_suffix_of(name) && !".rcgu.bc"@.is_suffix_of(name),
        ".thin-lto-after-pm.bc"@.is_suffix_of(name) ==> !".rcgu.bc"@.is_suffix_of(name),
{
    reveal_strlit(".no-opt.bc");
    reveal_strlit(".thin-lto-input.bc");
    reveal_strlit(".thin-lto-after-import.bc");
    reveal_strlit(".thin-lto-after-internalize.bc");
    reveal_strlit(".thin-lto-after-pm.bc");
    reveal_strlit(".rcgu.bc");
    let none = ".no-opt.bc"@;
    let input = ".thin-lto-input.bc"@;
    let import = ".thin-lto-after-import.bc"@;
    let internalize = ".thin-lto-after-internalize.bc"@;
    let pm = ".thin-lto-after-pm.bc"@;
    let rcgu = ".rcgu.bc"@;
    if none.is_suffix_of(name) && input.is_suffix_of(name) {
        endings_agree(name, none, input, 5);
    }
    if none.is_suffix_of(name) && import.is_suffix_of(name) {
        endings_agree(name, none, import, 5);
    }
    if none.is_suffix_of(name) && internalize.is_suffix_of(name) {
        endings_agree(name, none, internalize, 4);
    }
    if none.is_suffix_of(name) && pm.is_suffix_of(name) {
        endings_agree(name, none, pm, 4);
    }
    if none.is_suffix_of(name) && rcgu.is_suffix_of(name) {
        endings_agree(name, none, rcgu, 4);
    }
    if input.is_suffix_of(name) && import.is_suffix_of(name) {
        endings_agree(name, input, import, 5);
    }
    if input.is_suffix_of(name) && internalize.is_suffix_of(name) {
        endings_agree(name, input, internalize, 4);
    }
    if input.is_suffix_of(name) && pm.is_suffix_of(name) {
        endings_agree(name, input, pm, 4);
    }
    if input.is_suffix_of(name) && rcgu.is_suffix_of(name) {
        endings_agree(name, input, rcgu, 4);
    }
    if import.is_suffix_of(name) && internalize.is_suffix_of(name) {
        endings_agree(name, import, internalize, 4);
    }
    if import.is_suffix_of(name) && pm.is_suffix_of(name) {
        endings_agree(name, import, pm, 4);
    }
    if import.is_suffix_of(name) && rcgu.is_suffix_of(name) {
        endings_agree(name, import, rcgu, 4);
    }
    if internalize.is_suffix_of(name) && pm.is_suffix_of(name) {
        endings_agree(name, internalize, pm, 4);
    }
    if internalize.is_suffix_of(name) && rcgu.is_suffix_of(name) {
        endings_agree(name, internalize, rcgu, 4);
    }
    if pm.is_suffix_of(name) && rcgu.is_suffix_of(name) {
        endings_agree(name, pm, rcgu, 4);
    }
}

/// The ending of a file name fixes the stage, its name and the scope of link-time optimization.
pub proof fn endings_fix_the_stage(name: Seq<char>)
    ensures
        ".no-opt.bc"@.is_suffix_of(name) ==> {
            let made = capture::provenance_of(name);
            made.stage == Some(LlvmStage::PreOptimization) && made.compiler_stage == "no-opt"@
                && made.lto == LtoScope::NoLto
        },
        ".thin-lto-input.bc"@.is_suffix_of(name) ==> {
            let made = capture::provenance_of(name);
            made.stage is None && made.compiler_stage == "thin-lto-input"@ && made.lto
                == LtoScope::Thin
        },
        ".thin-lto-after-import.bc"@.is_suffix_of(name) ==> {
            let made = capture::provenance_of(name);
            made.stage is None && made.compiler_stage == "thin-lto-after-import"@ && made.lto
                == LtoScope::Thin
        },
        ".thin-lto-after-internalize.bc"@.is_suffix_of(name) ==> {
            let made = capture::provenance_of(name);
            made.stage is None && made.compiler_stage == "thin-lto-after-internalize"@ && made.lto
                == LtoScope::Thin
        },
        ".thin-lto-after-pm.bc"@.is_suffix_of(name) ==> {
            let made = capture::provenance_of(name);
            made.stage == Some(LlvmStage::Optimized) && made.compiler_stage == "thin-lto-after-pm"@
                && made.lto == LtoScope::Thin
        },
        ".rcgu.bc"@.is_suffix_of(name) && !stands_in(name, ".thin-lto-"@) ==> {
            let made = capture::provenance_of(name);
            made.stage == Some(LlvmStage::Optimized) && made.compiler_stage == "rcgu"@ && made.lto
                == LtoScope::NoLto
        },
        capture::provenance_of(name).capture_method == CaptureMethod::SavedTemporary,
{
    endings_differ(name);
    chars::contained_patterns_stand_somewhere(name, ".thin-lto-"@);
}

/// A file holds LLVM IR of a known stage only if its name says so: IR before optimization only
/// with the ending `.no-opt.bc`, and optimized IR only with the ending `.thin-lto-after-pm.bc`, or
/// with the ending `.rcgu.bc` and without `.thin-lto-` in the name.
pub proof fn stages_are_named(name: Seq<char>)
    ensures
        capture::provenance_of(name).stage == Some(LlvmStage::PreOptimization)
            <==> ".no-opt.bc"@.is_suffix_of(name),
        capture::provenance_of(name).stage == Some(LlvmStage::Optimized)
            <==> ".thin-lto-after-pm.bc"@.is_suffix_of(name) || (".rcgu.bc"@.is_suffix_of(name)
            && !stands_in(name, ".thin-lto-"@)),
{
    endings_differ(name);
    chars::contained_patterns_stand_somewhere(name, ".thin-lto-"@);
}

proof fn thin_endings_stand_in(name: Seq<char>, ending: Seq<char>)
    requires
        ending.is_suffix_of(name),
        ".thin-lto-"@.is_prefix_of(ending),
    ensures
        stands_in(name, ".thin-lto-"@),
{
    let index = name.len() - ending.len();
    let pattern = ".thin-lto-"@;
    assert(name.subrange(index, name.len() as int).subrange(0, pattern.len() as int)
        =~= name.subrange(index, index + pattern.len()));
}

/// A file belongs to thin link-time optimization exactly if `.thin-lto-` stands in its name and
/// the name does not end in `.no-opt.bc`. The scope is unknown exactly if neither this nor one of
/// the endings `.no-opt.bc` and `.rcgu.bc` settles it.
pub proof fn scopes_are_named(name: Seq<char>)
    ensures
        capture::provenance_of(name).lto == LtoScope::Thin <==> stands_in(name, ".thin-lto-"@)
            && !".no-opt.bc"@.is_suffix_of(name),
        capture::provenance_of(name).lto == LtoScope::Unknown <==> !stands_in(
            name,
            ".thin-lto-"@,
        ) && !".no-opt.bc"@.is_suffix_of(name) && !".rcgu.bc"@.is_suffix_of(name),
{
    endings_differ(name);
    chars::contained_patterns_stand_somewhere(name, ".thin-lto-"@);
    reveal_strlit(".thin-lto-");
    reveal_strlit(".thin-lto-input.bc");
    reveal_strlit(".thin-lto-after-import.bc");
    reveal_strlit(".thin-lto-after-internalize.bc");
    reveal_strlit(".thin-lto-after-pm.bc");
    assert(".thin-lto-input.bc"@.subrange(0, 10) =~= ".thin-lto-"@);
    assert(".thin-lto-after-import.bc"@.subrange(0, 10) =~= ".thin-lto-"@);
    assert(".thin-lto-after-internalize.bc"@.subrange(0, 10) =~= ".thin-lto-"@);
    assert(".thin-lto-after-pm.bc"@.subrange(0, 10) =~= ".thin-lto-"@);
    if ".thin-lto-input.bc"@.is_suffix_of(name) {
        thin_endings_stand_in(name, ".thin-lto-input.bc"@);
    }
    if ".thin-lto-after-import.bc"@.is_suffix_of(name) {
        thin_endings_stand_in(name, ".thin-lto-after-import.bc"@);
    }
    if ".thin-lto-after-internalize.bc"@.is_suffix_of(name) {
        thin_endings_stand_in(name, ".thin-lto-after-internalize.bc"@);
    }
    if ".thin-lto-after-pm.bc"@.is_suffix_of(name) {
        thin_endings_stand_in(name, ".thin-lto-after-pm.bc"@);
    }
}

/// The number of arguments of an option with a value.
pub open spec fn pair(on: bool) -> int {
    if on {
        2
    } else {
        0
    }
}

/// The number of arguments of an option without a value.
pub open spec fn single(on: bool) -> int {
    if on {
        1
    } else {
        0
    }
}

#[verifier::opaque]
spec fn selecting(request: BuildRequestData) -> Seq<Seq<char>> {
    seq!["rustc"@, "--message-format=json-render-diagnostics"@] + capture::valued(
        "--manifest-path"@,
        request.manifest_path,
    ) + capture::valued("--package"@, request.package) + capture::target_arguments(request.target)
        + capture::valued("--profile"@, request.profile)
}

#[verifier::opaque]
spec fn adjusting(request: BuildRequestData) -> Seq<Seq<char>> {
    capture::feature_arguments(request.features) + capture::flagged(
        "--all-features"@,
        request.all_features,
    ) + capture::flagged("--no-default-features"@, request.no_default_features) + capture::valued(
        "--target"@,
        request.target_triple,
    )
}

#[verifier::opaque]
spec fn restricting(request: BuildRequestData) -> Seq<Seq<char>> {
    capture::flagged("--locked"@, request.locked) + capture::flagged(
        "--offline"@,
        request.offline,
    ) + capture::flagged("--frozen"@, request.frozen) + seq!["--"@]
}

#[verifier::spinoff_prover]
#[verifier::rlimit(60)]
proof fn arguments_have_four_parts(request: BuildRequestData)
    ensures
        capture::cargo_arguments(request) == selecting(request) + adjusting(request) + restricting(
            request,
        ) + capture::injected_arguments(request),
{
    reveal(selecting);
    reveal(adjusting);
    reveal(restricting);
    let injected = capture::injected_arguments(request);
    let start = selecting(request);
    let features = capture::feature_arguments(request.features);
    let all = capture::flagged("--all-features"@, request.all_features);
    let none = capture::flagged("--no-default-features"@, request.no_default_features);
    let triple = capture::valued("--target"@, request.target_triple);
    let locked = capture::flagged("--locked"@, request.locked);
    let offline = capture::flagged("--offline"@, request.offline);
    let frozen = capture::flagged("--frozen"@, request.frozen);
    let end = seq!["--"@];
    parts_are_joined(start, features, all, none, triple);
    parts_are_joined(start + adjusting(request), locked, offline, frozen, end);
    assert(capture::cargo_arguments(request) == start + features + all + none + triple + locked
        + offline + frozen + end + injected);
}

proof fn parts_are_joined(
    start: Seq<Seq<char>>,
    first: Seq<Seq<char>>,
    second: Seq<Seq<char>>,
    third: Seq<Seq<char>>,
    fourth: Seq<Seq<char>>,
)
    ensures
        start + first + second + third + fourth == start + (first + second + third + fourth),
{
    assert(start + first + second + third + fourth =~= start + (first + second + third + fourth));
}

/// The arguments of Cargo start with the subcommand and its message format. The manifest, the
/// package, the target and the profile follow, each with its flag and its value, if the request
/// names them.
#[verifier::spinoff_prover]
#[verifier::rlimit(60)]
pub proof fn selections_are_stated(request: BuildRequestData)
    ensures
        ({
            let arguments = capture::cargo_arguments(request);
            let manifest: int = 2;
            let package = manifest + pair(request.manifest_path is Some);
            let target = package + pair(request.package is Some);
            let profile = target + (match request.target {
                None => 0int,
                Some(CargoTargetData::Library) => 1,
                Some(_) => 2,
            });
            let behind = profile + pair(request.profile is Some);
            &&& behind < arguments.len()
            &&& arguments[0] == "rustc"@
            &&& arguments[1] == "--message-format=json-render-diagnostics"@
            &&& request.manifest_path matches Some(value) ==> arguments[manifest]
                == "--manifest-path"@ && arguments[manifest + 1] == value
            &&& request.package matches Some(value) ==> arguments[package] == "--package"@
                && arguments[package + 1] == value
            &&& request.target == Some(CargoTargetData::Library) ==> arguments[target] == "--lib"@
            &&& request.target matches Some(CargoTargetData::Binary(name)) ==> arguments[target]
                == "--bin"@ && arguments[target + 1] == name
            &&& request.target matches Some(CargoTargetData::Benchmark(name)) ==> arguments[target]
                == "--bench"@ && arguments[target + 1] == name
            &&& request.target matches Some(CargoTargetData::Example(name)) ==> arguments[target]
                == "--example"@ && arguments[target + 1] == name
            &&& request.profile matches Some(value) ==> arguments[profile] == "--profile"@
                && arguments[profile + 1] == value
        }),
{
    arguments_have_four_parts(request);
    selecting_positions(request);
    selecting_length(request);
    restricting_positions(request);
    starts_are_kept(
        capture::cargo_arguments(request),
        selecting(request),
        adjusting(request),
        restricting(request),
        capture::injected_arguments(request),
    );
}

proof fn starts_are_kept(
    arguments: Seq<Seq<char>>,
    start: Seq<Seq<char>>,
    middle: Seq<Seq<char>>,
    last: Seq<Seq<char>>,
    injected: Seq<Seq<char>>,
)
    requires
        arguments == start + middle + last + injected,
    ensures
        arguments.len() == start.len() + middle.len() + last.len() + injected.len(),
        forall|i: int| #![trigger arguments[i]]
            0 <= i < start.len() ==> arguments[i] == start[i],
{
}

#[verifier::spinoff_prover]
#[verifier::rlimit(60)]
proof fn selecting_positions(request: BuildRequestData)
    ensures
        ({
            let arguments = selecting(request);
            let manifest: int = 2;
            let package = manifest + pair(request.manifest_path is Some);
            let target = package + pair(request.package is Some);
            let profile = target + (match request.target {
                None => 0int,
                Some(CargoTargetData::Library) => 1,
                Some(_) => 2,
            });
            &&& arguments[0] == "rustc"@
            &&& arguments[1] == "--message-format=json-render-diagnostics"@
            &&& request.manifest_path matches Some(value) ==> arguments[manifest]
                == "--manifest-path"@ && arguments[manifest + 1] == value
            &&& request.package matches Some(value) ==> arguments[package] == "--package"@
                && arguments[package + 1] == value
            &&& request.target == Some(CargoTargetData::Library) ==> arguments[target] == "--lib"@
            &&& request.target matches Some(CargoTargetData::Binary(name)) ==> arguments[target]
                == "--bin"@ && arguments[target + 1] == name
            &&& request.target matches Some(CargoTargetData::Benchmark(name)) ==> arguments[target]
                == "--bench"@ && arguments[target + 1] == name
            &&& request.target matches Some(CargoTargetData::Example(name)) ==> arguments[target]
                == "--example"@ && arguments[target + 1] == name
            &&& request.profile matches Some(value) ==> arguments[profile] == "--profile"@
                && arguments[profile + 1] == value
        }),
{
    reveal(selecting);
}

/// Behind the selection of the target, the arguments of Cargo state the features and the target
/// triple that the request sets.
#[verifier::spinoff_prover]
#[verifier::rlimit(60)]
pub proof fn adjustments_are_stated(request: BuildRequestData)
    ensures
        ({
            let arguments = capture::cargo_arguments(request);
            let features = 2 + pair(request.manifest_path is Some) + pair(request.package is Some)
                + (match request.target {
                None => 0int,
                Some(CargoTargetData::Library) => 1,
                Some(_) => 2,
            }) + pair(request.profile is Some);
            let all = features + pair(request.features.len() > 0);
            let none = all + single(request.all_features);
            let triple = none + single(request.no_default_features);
            &&& triple + pair(request.target_triple is Some) < arguments.len()
            &&& request.features.len() > 0 ==> arguments[features] == "--features"@
                && arguments[features + 1] == chars::joined(request.features, ","@)
            &&& request.all_features ==> arguments[all] == "--all-features"@
            &&& request.no_default_features ==> arguments[none] == "--no-default-features"@
            &&& request.target_triple matches Some(value) ==> arguments[triple] == "--target"@
                && arguments[triple + 1] == value
        }),
{
    arguments_have_four_parts(request);
    adjusted(request, capture::cargo_arguments(request));
}

#[verifier::spinoff_prover]
#[verifier::rlimit(60)]
proof fn adjusted(request: BuildRequestData, arguments: Seq<Seq<char>>)
    requires
        arguments == selecting(request) + adjusting(request) + restricting(request)
            + capture::injected_arguments(request),
    ensures
        ({
            let features = 2 + pair(request.manifest_path is Some) + pair(request.package is Some)
                + (match request.target {
                None => 0int,
                Some(CargoTargetData::Library) => 1,
                Some(_) => 2,
            }) + pair(request.profile is Some);
            let all = features + pair(request.features.len() > 0);
            let none = all + single(request.all_features);
            let triple = none + single(request.no_default_features);
            &&& triple + pair(request.target_triple is Some) < arguments.len()
            &&& request.features.len() > 0 ==> arguments[features] == "--features"@
                && arguments[features + 1] == chars::joined(request.features, ","@)
            &&& request.all_features ==> arguments[all] == "--all-features"@
            &&& request.no_default_features ==> arguments[none] == "--no-default-features"@
            &&& request.target_triple matches Some(value) ==> arguments[triple] == "--target"@
                && arguments[triple + 1] == value
        }),
{
    let start = selecting(request);
    let middle = adjusting(request);
    let last = restricting(request);
    let injected = capture::injected_arguments(request);
    selecting_length(request);
    adjusting_positions(request);
    restricting_positions(request);
    let all = pair(request.features.len() > 0);
    let none = all + single(request.all_features);
    let triple = none + single(request.no_default_features);
    middles_are_kept(arguments, start, middle, last, injected, 0);
    middles_are_kept(arguments, start, middle, last, injected, 1);
    middles_are_kept(arguments, start, middle, last, injected, all);
    middles_are_kept(arguments, start, middle, last, injected, none);
    middles_are_kept(arguments, start, middle, last, injected, triple);
    middles_are_kept(arguments, start, middle, last, injected, triple + 1);
}

proof fn middles_are_kept(
    arguments: Seq<Seq<char>>,
    start: Seq<Seq<char>>,
    middle: Seq<Seq<char>>,
    last: Seq<Seq<char>>,
    injected: Seq<Seq<char>>,
    index: int,
)
    requires
        arguments == start + middle + last + injected,
    ensures
        arguments.len() == start.len() + middle.len() + last.len() + injected.len(),
        0 <= index < middle.len() ==> arguments[start.len() + index] == middle[index],
{
}

proof fn lasts_are_kept(
    arguments: Seq<Seq<char>>,
    start: Seq<Seq<char>>,
    middle: Seq<Seq<char>>,
    last: Seq<Seq<char>>,
    injected: Seq<Seq<char>>,
    index: int,
)
    requires
        arguments == start + middle + last + injected,
    ensures
        arguments.len() == start.len() + middle.len() + last.len() + injected.len(),
        0 <= index < last.len() ==> arguments[start.len() + middle.len() + index] == last[index],
        arguments.skip((start.len() + middle.len() + last.len()) as int) == injected,
{
    assert(arguments.skip((start.len() + middle.len() + last.len()) as int) =~= injected);
}

/// The restrictions that the request sets come next. A separator and the arguments for the compiler
/// end the arguments of Cargo, and nothing else stands among them.
#[verifier::spinoff_prover]
#[verifier::rlimit(60)]
pub proof fn restrictions_are_stated(request: BuildRequestData)
    ensures
        ({
            let arguments = capture::cargo_arguments(request);
            let injected = capture::injected_arguments(request);
            let locked = 2 + pair(request.manifest_path is Some) + pair(request.package is Some)
                + (match request.target {
                None => 0int,
                Some(CargoTargetData::Library) => 1,
                Some(_) => 2,
            }) + pair(request.profile is Some) + pair(request.features.len() > 0) + single(request.all_features)
                + single(request.no_default_features) + pair(request.target_triple is Some);
            let offline = locked + single(request.locked);
            let frozen = offline + single(request.offline);
            let end = frozen + single(request.frozen);
            &&& arguments.len() == end + 1 + injected.len()
            &&& request.locked ==> arguments[locked] == "--locked"@
            &&& request.offline ==> arguments[offline] == "--offline"@
            &&& request.frozen ==> arguments[frozen] == "--frozen"@
            &&& arguments[end] == "--"@
            &&& arguments.skip(end + 1) == injected
        }),
{
    arguments_have_four_parts(request);
    restricted(request, capture::cargo_arguments(request), capture::injected_arguments(request));
}

#[verifier::spinoff_prover]
#[verifier::rlimit(60)]
proof fn restricted(
    request: BuildRequestData,
    arguments: Seq<Seq<char>>,
    injected: Seq<Seq<char>>,
)
    requires
        arguments == selecting(request) + adjusting(request) + restricting(request) + injected,
    ensures
        ({
            let locked = 2 + pair(request.manifest_path is Some) + pair(request.package is Some)
                + (match request.target {
                None => 0int,
                Some(CargoTargetData::Library) => 1,
                Some(_) => 2,
            }) + pair(request.profile is Some) + pair(request.features.len() > 0) + single(request.all_features)
                + single(request.no_default_features) + pair(request.target_triple is Some);
            let offline = locked + single(request.locked);
            let frozen = offline + single(request.offline);
            let end = frozen + single(request.frozen);
            &&& arguments.len() == end + 1 + injected.len()
            &&& request.locked ==> arguments[locked] == "--locked"@
            &&& request.offline ==> arguments[offline] == "--offline"@
            &&& request.frozen ==> arguments[frozen] == "--frozen"@
            &&& arguments[end] == "--"@
            &&& arguments.skip(end + 1) == injected
        }),
{
    let start = selecting(request);
    let middle = adjusting(request);
    let last = restricting(request);
    selecting_length(request);
    adjusting_positions(request);
    restricting_positions(request);
    let offline = single(request.locked);
    let frozen = offline + single(request.offline);
    let end = frozen + single(request.frozen);
    lasts_are_kept(arguments, start, middle, last, injected, 0);
    lasts_are_kept(arguments, start, middle, last, injected, offline);
    lasts_are_kept(arguments, start, middle, last, injected, frozen);
    lasts_are_kept(arguments, start, middle, last, injected, end);
}

#[verifier::spinoff_prover]
#[verifier::rlimit(60)]
proof fn selecting_length(request: BuildRequestData)
    ensures
        selecting(request).len() == 2 + pair(request.manifest_path is Some) + pair(
            request.package is Some,
        ) + (match request.target {
            None => 0int,
            Some(CargoTargetData::Library) => 1,
            Some(_) => 2,
        }) + pair(request.profile is Some),
{
    reveal(selecting);
}

#[verifier::spinoff_prover]
#[verifier::rlimit(60)]
proof fn adjusting_positions(request: BuildRequestData)
    ensures
        ({
            let arguments = adjusting(request);
            let all = pair(request.features.len() > 0);
            let none = all + single(request.all_features);
            let triple = none + single(request.no_default_features);
            &&& arguments.len() == triple + pair(request.target_triple is Some)
            &&& request.features.len() > 0 ==> arguments[0] == "--features"@ && arguments[1]
                == chars::joined(request.features, ","@)
            &&& request.all_features ==> arguments[all] == "--all-features"@
            &&& request.no_default_features ==> arguments[none] == "--no-default-features"@
            &&& request.target_triple matches Some(value) ==> arguments[triple] == "--target"@
                && arguments[triple + 1] == value
        }),
{
    reveal(adjusting);
}

#[verifier::spinoff_prover]
#[verifier::rlimit(60)]
proof fn restricting_positions(request: BuildRequestData)
    ensures
        ({
            let arguments = restricting(request);
            let offline = single(request.locked);
            let frozen = offline + single(request.offline);
            let end = frozen + single(request.frozen);
            &&& arguments.len() == end + 1
            &&& request.locked ==> arguments[0] == "--locked"@
            &&& request.offline ==> arguments[offline] == "--offline"@
            &&& request.frozen ==> arguments[frozen] == "--frozen"@
            &&& arguments[end] == "--"@
        }),
{
    reveal(restricting);
}

/// The compiler arguments save temporaries in the analysis directory, then ask for all remarks in
/// its `remarks` directory if the request wants them, then apply the capture profile: nothing for a
/// faithful capture, demangled symbols and line tables for an enriched one, and the caller's own
/// arguments for an experiment.
pub proof fn compiler_arguments_state_the_request(request: BuildRequestData)
    ensures
        ({
            let arguments = capture::injected_arguments(request);
            let directory = request.analysis_directory;
            let profile: int = if request.capture_remarks {
                8
            } else {
                4
            };
            &&& arguments[0] == "-C"@
            &&& arguments[1] == "save-temps"@
            &&& arguments[2] == "-Z"@
            &&& arguments[3] == "temps-dir="@ + directory
            &&& request.capture_remarks ==> {
                &&& arguments[4] == "-C"@
                &&& arguments[5] == "remark=all"@
                &&& arguments[6] == "-Z"@
                &&& arguments[7] == "remark-dir="@ + paths::joined(directory, "remarks"@)
            }
            &&& request.capture_profile is Faithful ==> arguments.len() == profile
            &&& request.capture_profile is Enriched ==> {
                &&& arguments.len() == profile + 4
                &&& arguments[profile] == "-C"@
                &&& arguments[profile + 1] == "symbol-mangling-version=v0"@
                &&& arguments[profile + 2] == "-C"@
                &&& arguments[profile + 3] == "debuginfo=line-tables-only"@
            }
            &&& request.capture_profile matches CaptureProfileData::Experiment { rustc_arguments }
                ==> arguments.skip(profile) == rustc_arguments
        }),
{
    if let CaptureProfileData::Experiment { rustc_arguments } = request.capture_profile {
        let arguments = capture::injected_arguments(request);
        let profile = arguments.len() - rustc_arguments.len();
        assert(arguments.skip(profile) =~= rustc_arguments);
    }
}

/// A variable counts for code generation exactly if it has one of the listed names or starts with
/// `CARGO_PROFILE_` or `CARGO_TARGET_`. The kept variables are those of the environment that count,
/// each as often as it was set.
pub proof fn relevant_variables_are_kept(
    variables: Seq<EnvironmentVariable>,
    variable: EnvironmentVariable,
)
    ensures
        ({
            let names = seq![
                "CARGO_BUILD_RUSTC"@,
                "CARGO_BUILD_RUSTC_WRAPPER"@,
                "CARGO_BUILD_RUSTC_WORKSPACE_WRAPPER"@,
                "CARGO_ENCODED_RUSTFLAGS"@,
                "CARGO_TARGET_DIR"@,
                "RUSTC"@,
                "RUSTC_WRAPPER"@,
                "RUSTC_WORKSPACE_WRAPPER"@,
                "RUSTFLAGS"@,
            ];
            let counts = names.contains(variable.name@) || "CARGO_PROFILE_"@.is_prefix_of(
                variable.name@,
            ) || "CARGO_TARGET_"@.is_prefix_of(variable.name@);
            &&& counts ==> capture::compiler_variables(variables).to_multiset().count(variable)
                == variables.to_multiset().count(variable)
            &&& !counts ==> capture::compiler_variables(variables).to_multiset().count(variable)
                == 0
        }),
    decreases variables.len(),
{
    let names = seq![
        "CARGO_BUILD_RUSTC"@,
        "CARGO_BUILD_RUSTC_WRAPPER"@,
        "CARGO_BUILD_RUSTC_WORKSPACE_WRAPPER"@,
        "CARGO_ENCODED_RUSTFLAGS"@,
        "CARGO_TARGET_DIR"@,
        "RUSTC"@,
        "RUSTC_WRAPPER"@,
        "RUSTC_WORKSPACE_WRAPPER"@,
        "RUSTFLAGS"@,
    ];
    assert(names[0] == "CARGO_BUILD_RUSTC"@ && names[1] == "CARGO_BUILD_RUSTC_WRAPPER"@ && names[2]
        == "CARGO_BUILD_RUSTC_WORKSPACE_WRAPPER"@ && names[3] == "CARGO_ENCODED_RUSTFLAGS"@
        && names[4] == "CARGO_TARGET_DIR"@ && names[5] == "RUSTC"@ && names[6] == "RUSTC_WRAPPER"@
        && names[7] == "RUSTC_WORKSPACE_WRAPPER"@ && names[8] == "RUSTFLAGS"@);
    let keep = |variable: EnvironmentVariable| capture::compiler_variable(variable.name@);
    assert(keep(variable) == (names.contains(variable.name@) || "CARGO_PROFILE_"@.is_prefix_of(
        variable.name@,
    ) || "CARGO_TARGET_"@.is_prefix_of(variable.name@)));
    filters_count(variables, keep, variable);
}

proof fn filters_count<T>(items: Seq<T>, keep: spec_fn(T) -> bool, item: T)
    ensures
        items.filter(keep).to_multiset().count(item) == (if keep(item) {
            items.to_multiset().count(item)
        } else {
            0
        }),
    decreases items.len(),
{
    reveal(Seq::filter);
    broadcast use vstd::seq_lib::group_to_multiset_ensures;

    if items.len() > 0 {
        let start = items.drop_last();
        filters_count(start, keep, item);
        assert(items =~= start.push(items.last()));
    } else {
        assert(items.filter(keep) =~= items);
    }
}

/// The recorded compiler command is its program in front of its arguments. An empty command is
/// refused.
pub proof fn commands_are_split(arguments: Seq<Seq<char>>)
    ensures
        capture::invocation_of(arguments) is Err <==> arguments.len() == 0,
        capture::invocation_of(arguments) matches Ok(command) ==> seq![command.program]
            + command.arguments == arguments,
{
    if arguments.len() > 0 {
        assert(seq![arguments[0]] + arguments.skip(1) =~= arguments);
    }
}

/// A module keeps the name and the path of its bitcode, and its text stands in the analysis
/// directory under that name with `.ll` behind it.
pub proof fn modules_are_named_after_their_bitcode(
    bitcode: Seq<char>,
    name: Seq<char>,
    directory: Seq<char>,
)
    ensures
        ({
            let module = capture::module_of(bitcode, name, directory);
            &&& module.name == name
            &&& module.bitcode_path == bitcode
            &&& module.text_path == paths::joined(directory, name + ".ll"@)
            &&& module.provenance == capture::provenance_of(name)
        }),
{
}

/// A file that is named by its codegen unit, the mark of codegen units and the name of a stage
/// belongs to that unit and that stage.
#[verifier::spinoff_prover]
#[verifier::rlimit(60)]
pub proof fn units_are_named(unit: Seq<char>, stage: Seq<char>)
    requires
        stage == "no-opt"@ || stage == "thin-lto-input"@ || stage == "thin-lto-after-import"@
            || stage == "thin-lto-after-internalize"@ || stage == "thin-lto-after-pm"@,
    ensures
        ({
            let made = capture::provenance_of(unit + ".rcgu"@ + ("."@ + stage + ".bc"@));
            &&& made.compiler_stage == stage
            &&& made.codegen_unit == Some(unit)
        }),
{
    let ending = "."@ + stage + ".bc"@;
    let prefix = unit + ".rcgu"@;
    let name = prefix + ending;
    stages_are_endings();
    endings_are_endings(prefix, ending);
    endings_are_endings(unit, ".rcgu"@);
    endings_fix_the_stage(name);
}

/// A file that is named by its codegen unit and the mark of codegen units alone belongs to that
/// unit.
pub proof fn finished_units_are_named(unit: Seq<char>)
    requires
        !stands_in(unit + ".rcgu.bc"@, ".thin-lto-"@),
        !".rcgu"@.is_suffix_of(unit),
    ensures
        ({
            let made = capture::provenance_of(unit + ".rcgu.bc"@);
            &&& made.compiler_stage == "rcgu"@
            &&& made.codegen_unit == Some(unit)
        }),
{
    let name = unit + ".rcgu.bc"@;
    reveal_strlit(".");
    reveal_strlit("rcgu");
    reveal_strlit(".bc");
    reveal_strlit(".rcgu.bc");
    assert("."@ + "rcgu"@ + ".bc"@ =~= ".rcgu.bc"@);
    endings_are_endings(unit, ".rcgu.bc"@);
    endings_fix_the_stage(name);
}

proof fn endings_are_endings(front: Seq<char>, ending: Seq<char>)
    ensures
        ending.is_suffix_of(front + ending),
        chars::before(front + ending, ending) == Some(front),
{
    let whole = front + ending;
    assert(whole.subrange(whole.len() - ending.len(), whole.len() as int) =~= ending);
    assert(whole.take(whole.len() - ending.len()) =~= front);
}

proof fn stages_are_endings()
    ensures
        "."@ + "no-opt"@ + ".bc"@ == ".no-opt.bc"@,
        "."@ + "thin-lto-input"@ + ".bc"@ == ".thin-lto-input.bc"@,
        "."@ + "thin-lto-after-import"@ + ".bc"@ == ".thin-lto-after-import.bc"@,
        "."@ + "thin-lto-after-internalize"@ + ".bc"@ == ".thin-lto-after-internalize.bc"@,
        "."@ + "thin-lto-after-pm"@ + ".bc"@ == ".thin-lto-after-pm.bc"@,
{
    reveal_strlit(".");
    reveal_strlit(".bc");
    reveal_strlit("no-opt");
    reveal_strlit("thin-lto-input");
    reveal_strlit("thin-lto-after-import");
    reveal_strlit("thin-lto-after-internalize");
    reveal_strlit("thin-lto-after-pm");
    reveal_strlit(".no-opt.bc");
    reveal_strlit(".thin-lto-input.bc");
    reveal_strlit(".thin-lto-after-import.bc");
    reveal_strlit(".thin-lto-after-internalize.bc");
    reveal_strlit(".thin-lto-after-pm.bc");
    assert("."@ + "no-opt"@ + ".bc"@ =~= ".no-opt.bc"@);
    assert("."@ + "thin-lto-input"@ + ".bc"@ =~= ".thin-lto-input.bc"@);
    assert("."@ + "thin-lto-after-import"@ + ".bc"@ =~= ".thin-lto-after-import.bc"@);
    assert("."@ + "thin-lto-after-internalize"@ + ".bc"@ =~= ".thin-lto-after-internalize.bc"@);
    assert("."@ + "thin-lto-after-pm"@ + ".bc"@ =~= ".thin-lto-after-pm.bc"@);
}

/// A name ends as that of a file with a known stage.
pub open spec fn has_known_ending(name: Seq<char>) -> bool {
    ||| ".no-opt.bc"@.is_suffix_of(name)
    ||| ".thin-lto-input.bc"@.is_suffix_of(name)
    ||| ".thin-lto-after-import.bc"@.is_suffix_of(name)
    ||| ".thin-lto-after-internalize.bc"@.is_suffix_of(name)
    ||| ".thin-lto-after-pm.bc"@.is_suffix_of(name)
    ||| ".rcgu.bc"@.is_suffix_of(name)
}

/// A file with another stage is named by its codegen unit, the mark of codegen units and its stage
/// too. It is neither a file before optimization nor an optimized one.
pub proof fn other_stages_are_named(unit: Seq<char>, stage: Seq<char>)
    requires
        forall|i: int| 0 <= i < stage.len() ==> #[trigger] stage[i] != '.',
        !has_known_ending(unit + ".rcgu"@ + ("."@ + stage + ".bc"@)),
    ensures
        ({
            let made = capture::provenance_of(unit + ".rcgu"@ + ("."@ + stage + ".bc"@));
            &&& made.stage is None
            &&& made.compiler_stage == stage
            &&& made.codegen_unit == Some(unit)
        }),
{
    let name = unit + ".rcgu"@ + ("."@ + stage + ".bc"@);
    names_have_stems(unit, stage);
    last_marks_stand_before_stages(unit, stage);
    endings_are_endings(unit + ".rcgu"@ + "."@ + stage, ".bc"@);
    endings_are_endings(unit + ".rcgu"@, "."@ + stage + ".bc"@);
    endings_are_endings(unit, ".rcgu"@);
    assert(capture::unknown_stage(name) == stage);
}

proof fn names_have_stems(unit: Seq<char>, stage: Seq<char>)
    ensures
        unit + ".rcgu"@ + ("."@ + stage + ".bc"@) == unit + ".rcgu"@ + "."@ + stage + ".bc"@,
{
    assert(unit + ".rcgu"@ + ("."@ + stage + ".bc"@) =~= unit + ".rcgu"@ + "."@ + stage + ".bc"@);
}

proof fn last_marks_stand_before_stages(unit: Seq<char>, stage: Seq<char>)
    requires
        forall|i: int| 0 <= i < stage.len() ==> #[trigger] stage[i] != '.',
    ensures
        chars::split_last(unit + ".rcgu"@ + "."@ + stage, ".rcgu."@) == Some((unit, stage)),
{
    let mark = ".rcgu."@;
    let stem = unit + ".rcgu"@ + "."@ + stage;
    reveal_strlit(".rcgu");
    reveal_strlit(".rcgu.");
    reveal_strlit(".");
    let at = unit.len() as int;
    assert(stem.subrange(at, at + mark.len()) =~= mark);
    chars::last_matches_come_last(stem, mark, at);
    chars::last_match_bounds(stem, mark);
    let last = chars::last_match(stem, mark)->0;
    if last > at {
        assert(stem.subrange(last, last + mark.len())[5] == mark[5]);
        assert(stem[last + 5] == '.');
        assert(stem[last + 5] == stage[last + 5 - at - 6]);
    }
    assert(stem.skip(at + mark.len()) =~= stage);
    assert(stem.take(at) =~= unit);
}

/// A file without the mark of codegen units and with another stage is its own stage.
pub proof fn whole_stems_are_stages(stem: Seq<char>)
    requires
        !stands_in(stem, ".rcgu."@),
        !has_known_ending(stem + ".bc"@),
    ensures
        capture::provenance_of(stem + ".bc"@).stage is None,
        capture::provenance_of(stem + ".bc"@).compiler_stage == stem,
{
    let mark = ".rcgu."@;
    endings_are_endings(stem, ".bc"@);
    chars::last_match_bounds(stem, mark);
    if let Some(index) = chars::last_match(stem, mark) {
        assert(stem.subrange(index, index + mark.len()) == mark);
    }
}

} // verus!

//! What the fields of a remark document become.

use super::remarks;
use super::remarks::{
    ArgumentData, KindData, LocationData, RemarkFault, RemarkParseLimits,
};
use super::yaml;
use super::yaml::Yaml;
use vstd::prelude::*;

verus! {

/// The key of an entry is a given text.
pub open spec fn keyed(entry: (Yaml, Yaml), key: Seq<char>) -> bool {
    entry.0 matches Yaml::Text(text) && text@ == key
}

/// An index is that of the first entry with a given text as its key.
pub open spec fn holds(entries: Seq<(Yaml, Yaml)>, key: Seq<char>, index: int) -> bool {
    &&& 0 <= index < entries.len()
    &&& keyed(entries[index], key)
    &&& forall|i: int| 0 <= i < index ==> !keyed(#[trigger] entries[i], key)
}

/// No entry has a given text as its key.
pub open spec fn lacks(entries: Seq<(Yaml, Yaml)>, key: Seq<char>) -> bool {
    forall|i: int| 0 <= i < entries.len() ==> !keyed(#[trigger] entries[i], key)
}

/// A value is a text.
pub open spec fn is_text(value: Yaml, text: Seq<char>) -> bool {
    value matches Yaml::Text(held) && held@ == text
}

/// A value is a natural number.
pub open spec fn is_natural(value: Yaml, number: u64) -> bool {
    value matches Yaml::Number(_, Some(held)) && held == number
}

/// The printed form of a scalar.
pub open spec fn is_printed(value: Yaml, text: Seq<char>) -> bool {
    ||| value matches Yaml::Text(held) && held@ == text
    ||| value matches Yaml::Number(held, _) && held@ == text
    ||| value == Yaml::Bool(true) && text == "true"@
    ||| value == Yaml::Bool(false) && text == "false"@
    ||| value == Yaml::Null && text == "null"@
}

/// A mapping is a source location.
pub open spec fn is_place(value: Yaml, place: LocationData) -> bool {
    value matches Yaml::Mapping(entries) && {
        &&& exists|i: int| #[trigger]
            holds(entries@, "File"@, i) && is_text(entries@[i].1, place.file)
        &&& exists|i: int| #[trigger]
            holds(entries@, "Line"@, i) && is_natural(entries@[i].1, place.line)
        &&& exists|i: int| #[trigger]
            holds(entries@, "Column"@, i) && is_natural(entries@[i].1, place.column)
    }
}

/// A document with a tag and a mapping.
pub open spec fn document(tag: String, entries: Vec<(Yaml, Yaml)>) -> Yaml {
    Yaml::Tagged(tag, Box::new(Yaml::Mapping(entries)))
}

proof fn held_entries_are_found(entries: Seq<(Yaml, Yaml)>, key: Seq<char>, index: int)
    requires
        holds(entries, key, index),
    ensures
        yaml::lookup(entries, key) == Some(entries[index].1),
{
    assert forall|i: int| 0 <= i < index implies !yaml::is_key(
        (#[trigger] entries[i]).0,
        key,
    ) by {
        assert(!keyed(entries[i], key));
    }
    yaml::entry_index_is(entries, key, index);
}

proof fn lacking_entries_are_not_found(entries: Seq<(Yaml, Yaml)>, key: Seq<char>)
    requires
        lacks(entries, key),
    ensures
        yaml::lookup(entries, key) is None,
{
    assert forall|i: int| 0 <= i < entries.len() implies !yaml::is_key(
        (#[trigger] entries[i]).0,
        key,
    ) by {
        assert(!keyed(entries[i], key));
    }
    yaml::entry_index_is(entries, key, entries.len() as int);
}

proof fn found_entries_are_held(entries: Seq<(Yaml, Yaml)>, key: Seq<char>)
    ensures
        lacks(entries, key) <==> yaml::lookup(entries, key) is None,
        yaml::lookup(entries, key) matches Some(value) ==> exists|i: int| #[trigger]
            holds(entries, key, i) && entries[i].1 == value,
    decreases entries.len(),
{
    if lacks(entries, key) {
        lacking_entries_are_not_found(entries, key);
    } else {
        let some = choose|i: int| 0 <= i < entries.len() && keyed(#[trigger] entries[i], key);
        let first = first_held(entries, key, some);
        held_entries_are_found(entries, key, first);
    }
}

proof fn first_held(entries: Seq<(Yaml, Yaml)>, key: Seq<char>, index: int) -> (first: int)
    requires
        0 <= index < entries.len(),
        keyed(entries[index], key),
    ensures
        holds(entries, key, first),
    decreases index,
{
    if exists|i: int| 0 <= i < index && keyed(#[trigger] entries[i], key) {
        let earlier = choose|i: int| 0 <= i < index && keyed(#[trigger] entries[i], key);
        first_held(entries, key, earlier)
    } else {
        index
    }
}

proof fn places_are_read(value: Yaml, limits: RemarkParseLimits)
    ensures
        remarks::location_of(value, limits) matches Ok(place) ==> place is Some && is_place(
            value,
            place->0,
        ),
{
    if let Yaml::Mapping(entries) = value {
        found_entries_are_held(entries@, "File"@);
        found_entries_are_held(entries@, "Line"@);
        found_entries_are_held(entries@, "Column"@);
    }
}

/// Two places that one value is are the same.
proof fn places_are_unique(value: Yaml, left: LocationData, right: LocationData)
    requires
        is_place(value, left),
        is_place(value, right),
    ensures
        left == right,
{
    if let Yaml::Mapping(entries) = value {
        let i = choose|i: int| #[trigger]
            holds(entries@, "File"@, i) && is_text(entries@[i].1, left.file);
        let j = choose|i: int| #[trigger]
            holds(entries@, "File"@, i) && is_text(entries@[i].1, right.file);
        assert(i == j);
        let i = choose|i: int| #[trigger]
            holds(entries@, "Line"@, i) && is_natural(entries@[i].1, left.line);
        let j = choose|i: int| #[trigger]
            holds(entries@, "Line"@, i) && is_natural(entries@[i].1, right.line);
        assert(i == j);
        let i = choose|i: int| #[trigger]
            holds(entries@, "Column"@, i) && is_natural(entries@[i].1, left.column);
        let j = choose|i: int| #[trigger]
            holds(entries@, "Column"@, i) && is_natural(entries@[i].1, right.column);
        assert(i == j);
    }
}

/// The source location of an accepted remark is the file, line and column of the `DebugLoc` entry.
/// A document without that entry gives a remark without a source location.
pub proof fn locations_are_kept(
    tag: String,
    entries: Vec<(Yaml, Yaml)>,
    limits: RemarkParseLimits,
)
    ensures
        remarks::remark_of(document(tag, entries), limits) matches Ok(remark) ==> {
            &&& forall|i: int, place: LocationData| #[trigger]
                holds(entries@, "DebugLoc"@, i) && #[trigger] is_place(entries@[i].1, place)
                    ==> remark.source_location == Some(place)
            &&& lacks(entries@, "DebugLoc"@) ==> remark.source_location is None
            &&& !lacks(entries@, "DebugLoc"@) ==> remark.source_location is Some
        },
{
    if let Ok(remark) = remarks::remark_of(document(tag, entries), limits) {
        found_entries_are_held(entries@, "DebugLoc"@);
        if let Some(value) = yaml::lookup(entries@, "DebugLoc"@) {
            places_are_read(value, limits);
            assert forall|i: int, place: LocationData| #[trigger]
                holds(entries@, "DebugLoc"@, i) && #[trigger] is_place(
                    entries@[i].1,
                    place,
                ) implies remark.source_location == Some(place) by {
                held_entries_are_found(entries@, "DebugLoc"@, i);
                places_are_unique(value, place, remark.source_location->0);
            }
        }
    }
}

/// The pass, the name, the function and the hotness of an accepted remark are what the entries
/// `Pass`, `Name`, `Function` and `Hotness` hold, and the hotness alone may be missing.
pub proof fn fields_are_kept(tag: String, entries: Vec<(Yaml, Yaml)>, limits: RemarkParseLimits)
    ensures
        remarks::remark_of(document(tag, entries), limits) matches Ok(remark) ==> {
            &&& exists|i: int| #[trigger]
                holds(entries@, "Pass"@, i) && is_text(entries@[i].1, remark.pass_name)
            &&& exists|i: int| #[trigger]
                holds(entries@, "Name"@, i) && is_text(entries@[i].1, remark.remark_name)
            &&& exists|i: int| #[trigger]
                holds(entries@, "Function"@, i) && is_text(entries@[i].1, remark.function)
            &&& match remark.hotness {
                Some(hotness) => exists|i: int| #[trigger]
                    holds(entries@, "Hotness"@, i) && is_natural(entries@[i].1, hotness),
                None => lacks(entries@, "Hotness"@),
            }
        },
{
    found_entries_are_held(entries@, "Pass"@);
    found_entries_are_held(entries@, "Name"@);
    found_entries_are_held(entries@, "Function"@);
    found_entries_are_held(entries@, "Hotness"@);
}

/// Every value that is no tagged mapping is refused.
pub proof fn remarks_are_tagged_mappings(value: Yaml, limits: RemarkParseLimits)
    ensures
        remarks::remark_of(value, limits) is Ok ==> exists|tag: String, entries: Vec<(Yaml, Yaml)>|
            value == #[trigger] document(tag, entries),
{
    if remarks::remark_of(value, limits) is Ok {
        if let Yaml::Tagged(tag, content) = value {
            if let Yaml::Mapping(entries) = *content {
                assert(value == document(tag, entries));
            }
        }
    }
}

proof fn a_mark_goes(name: Seq<char>)
    requires
        name.len() > 0,
        name[0] != '!',
    ensures
        remarks::without_marks(name) == name,
        remarks::without_marks("!"@ + name) == name,
{
    reveal_strlit("!");
    assert(("!"@ + name).skip(1) =~= name);
    reveal_with_fuel(remarks::without_marks, 2);
}

/// The category of an accepted remark is what its tag says. Any other tag is kept as it is, without
/// its mark.
pub proof fn tags_name_the_category(
    tag: String,
    entries: Vec<(Yaml, Yaml)>,
    limits: RemarkParseLimits,
    name: Seq<char>,
)
    requires
        name.len() > 0,
        name[0] != '!',
        tag@ == "!"@ + name,
    ensures
        remarks::remark_of(document(tag, entries), limits) matches Ok(remark) ==> {
            &&& name == "Passed"@ <==> remark.kind is Passed
            &&& name == "Missed"@ <==> remark.kind is Missed
            &&& name == "Analysis"@ <==> remark.kind is Analysis
            &&& name == "AnalysisFPCommute"@ <==> remark.kind is AnalysisFpCommute
            &&& name == "AnalysisAliasing"@ <==> remark.kind is AnalysisAliasing
            &&& name == "Failure"@ <==> remark.kind is Failure
            &&& remark.kind matches KindData::Unknown(other) ==> other == name
        },
{
    a_mark_goes(name);
    reveal_strlit("Passed");
    reveal_strlit("Missed");
    reveal_strlit("Analysis");
    reveal_strlit("AnalysisFPCommute");
    reveal_strlit("AnalysisAliasing");
    reveal_strlit("Failure");
    assert("Passed"@[0] == 'P' && "Missed"@[0] == 'M' && "Failure"@[0] == 'F' && "Analysis"@[0]
        == 'A' && "AnalysisFPCommute"@[8] == 'F' && "AnalysisAliasing"@[8] == 'A');
}

/// An argument is the one entry of its mapping that is no source location.
pub open spec fn is_fragment(value: Yaml, argument: ArgumentData) -> bool {
    value matches Yaml::Mapping(entries) && {
        &&& exists|i: int|
            0 <= i < entries@.len() && keyed(#[trigger] entries@[i], argument.key) && is_printed(
                entries@[i].1,
                argument.value,
            ) && argument.key != "DebugLoc"@ && forall|j: int|
                0 <= j < entries@.len() && j != i ==> is_debug_location(#[trigger] entries@[j].0)
        &&& match argument.source_location {
            Some(place) => exists|i: int| #[trigger]
                holds(entries@, "DebugLoc"@, i) && is_place(entries@[i].1, place),
            None => lacks(entries@, "DebugLoc"@),
        }
    }
}

/// A key is the text `DebugLoc`, with any number of tags in front of it.
pub open spec fn is_debug_location(key: Yaml) -> bool
    decreases key,
{
    match key {
        Yaml::Tagged(_, content) => is_debug_location(*content),
        Yaml::Text(text) => text@ == "DebugLoc"@,
        _ => false,
    }
}

proof fn debug_locations_are_locations(key: Yaml)
    ensures
        is_debug_location(key) == remarks::is_location(key),
    decreases key,
{
    if let Yaml::Tagged(_, content) = key {
        debug_locations_are_locations(*content);
    }
}

proof fn one_is_left(entries: Seq<(Yaml, Yaml)>) -> (index: int)
    requires
        remarks::fragments(entries).len() == 1,
    ensures
        0 <= index < entries.len(),
        entries[index] == remarks::fragments(entries)[0],
        !is_debug_location(entries[index].0),
        forall|j: int|
            0 <= j < entries.len() && j != index ==> is_debug_location(#[trigger] entries[j].0),
    decreases entries.len(),
{
    let keep = |entry: (Yaml, Yaml)| !remarks::is_location(entry.0);
    reveal(Seq::filter);
    let start = entries.drop_last();
    debug_locations_are_locations(entries.last().0);
    assert(entries.filter(keep) == remarks::fragments(entries));
    assert(start.filter(keep) == remarks::fragments(start));
    if keep(entries.last()) {
        assert(entries.filter(keep) == start.filter(keep).push(entries.last()));
        assert(start.filter(keep).len() == 0);
        none_is_left(start);
        let index = entries.len() - 1;
        assert forall|j: int| 0 <= j < entries.len() && j != index implies is_debug_location(
            #[trigger] entries[j].0,
        ) by {
            assert(start[j] == entries[j]);
        }
        index
    } else {
        let index = one_is_left(start);
        assert forall|j: int| 0 <= j < entries.len() && j != index implies is_debug_location(
            #[trigger] entries[j].0,
        ) by {
            if j < start.len() {
                assert(start[j] == entries[j]);
            }
        }
        index
    }
}

proof fn none_is_left(entries: Seq<(Yaml, Yaml)>)
    requires
        remarks::fragments(entries).len() == 0,
    ensures
        forall|j: int| 0 <= j < entries.len() ==> is_debug_location(#[trigger] entries[j].0),
    decreases entries.len(),
{
    if entries.len() > 0 {
        let keep = |entry: (Yaml, Yaml)| !remarks::is_location(entry.0);
        reveal(Seq::filter);
        let start = entries.drop_last();
        debug_locations_are_locations(entries.last().0);
        assert(entries.filter(keep) == remarks::fragments(entries));
        assert(start.filter(keep) == remarks::fragments(start));
        none_is_left(start);
        assert forall|j: int| 0 <= j < entries.len() implies is_debug_location(
            #[trigger] entries[j].0,
        ) by {
            if j < start.len() {
                assert(start[j] == entries[j]);
            }
        }
    }
}

proof fn arguments_are_fragments(value: Yaml, index: int, limits: RemarkParseLimits)
    ensures
        remarks::argument_of(value, index, limits) matches Ok(argument) ==> is_fragment(
            value,
            argument,
        ),
{
    if let Ok(argument) = remarks::argument_of(value, index, limits) {
        if let Yaml::Mapping(entries) = value {
            let at = one_is_left(entries@);
            assert(keyed(entries@[at], argument.key));
            assert(is_printed(entries@[at].1, argument.value));
            assert(argument.key != "DebugLoc"@);
            found_entries_are_held(entries@, "DebugLoc"@);
            if let Some(place) = yaml::lookup(entries@, "DebugLoc"@) {
                places_are_read(place, limits);
            }
        }
    }
}

proof fn all_arguments_are_fragments(
    values: Seq<Yaml>,
    index: int,
    read: Seq<ArgumentData>,
    limits: RemarkParseLimits,
)
    requires
        0 <= index <= values.len(),
        read.len() == index,
        forall|i: int| 0 <= i < index ==> is_fragment(values[i], #[trigger] read[i]),
    ensures
        remarks::arguments_from(values, index, read, limits) matches Ok(arguments) ==> {
            &&& arguments.len() == values.len()
            &&& forall|i: int|
                0 <= i < values.len() ==> is_fragment(values[i], #[trigger] arguments[i])
        },
    decreases values.len() - index,
{
    if index < values.len() {
        arguments_are_fragments(values[index], index, limits);
        if let Ok(argument) = remarks::argument_of(values[index], index, limits) {
            all_arguments_are_fragments(values, index + 1, read.push(argument), limits);
        }
    }
}

/// A value is a sequence of the given arguments.
pub open spec fn are_fragments(value: Yaml, arguments: Seq<ArgumentData>) -> bool {
    value matches Yaml::Sequence(values) && arguments.len() == values@.len() && forall|k: int|
        0 <= k < values@.len() ==> is_fragment(values@[k], #[trigger] arguments[k])
}

/// The arguments of an accepted remark are the fragments of the sequence `Args`, one for each of
/// its mappings and in the same order. A document without that entry gives no arguments.
pub proof fn arguments_are_kept(tag: String, entries: Vec<(Yaml, Yaml)>, limits: RemarkParseLimits)
    ensures
        remarks::remark_of(document(tag, entries), limits) matches Ok(remark) ==> {
            ||| lacks(entries@, "Args"@) && remark.arguments.len() == 0
            ||| exists|i: int| #[trigger]
                holds(entries@, "Args"@, i) && are_fragments(entries@[i].1, remark.arguments)
        },
{
    found_entries_are_held(entries@, "Args"@);
    if let Some(Yaml::Sequence(values)) = yaml::lookup(entries@, "Args"@) {
        all_arguments_are_fragments(values@, 0, Seq::empty(), limits);
    }
}

proof fn messages_are_joined(arguments: Seq<ArgumentData>)
    ensures
        remarks::message_of(arguments) == arguments.map_values(
            |argument: ArgumentData| argument.value,
        ).flatten(),
    decreases arguments.len(),
{
    let value = |argument: ArgumentData| argument.value;
    let values = arguments.map_values(value);
    values.lemma_flatten_and_flatten_alt_are_equivalent();
    if arguments.len() > 0 {
        messages_are_joined(arguments.drop_last());
        assert(arguments.drop_last().map_values(value) =~= values.drop_last());
        values.drop_last().lemma_flatten_and_flatten_alt_are_equivalent();
    }
}

/// The message of an accepted remark is the values of its arguments, one behind the other.
pub proof fn messages_join_the_arguments(value: Yaml, limits: RemarkParseLimits)
    ensures
        remarks::remark_of(value, limits) matches Ok(remark) ==> remark.message
            == remark.arguments.map_values(|argument: ArgumentData| argument.value).flatten(),
{
    if let Ok(remark) = remarks::remark_of(value, limits) {
        messages_are_joined(remark.arguments);
    }
}

/// A tagged mapping with a pass, a name and a function within the limits is accepted if its
/// optional entries are missing.
pub proof fn plain_documents_are_accepted(
    tag: String,
    entries: Vec<(Yaml, Yaml)>,
    limits: RemarkParseLimits,
    pass: int,
    name: int,
    function: int,
    texts: (Seq<char>, Seq<char>, Seq<char>),
)
    requires
        vstd::utf8::encode_utf8(remarks::without_marks(tag@)).len() <= limits.max_string_bytes,
        holds(entries@, "Pass"@, pass) && is_text(entries@[pass].1, texts.0),
        holds(entries@, "Name"@, name) && is_text(entries@[name].1, texts.1),
        holds(entries@, "Function"@, function) && is_text(entries@[function].1, texts.2),
        vstd::utf8::encode_utf8(texts.0).len() <= limits.max_string_bytes,
        vstd::utf8::encode_utf8(texts.1).len() <= limits.max_string_bytes,
        vstd::utf8::encode_utf8(texts.2).len() <= limits.max_string_bytes,
        lacks(entries@, "DebugLoc"@),
        lacks(entries@, "Hotness"@),
        lacks(entries@, "Args"@),
    ensures
        remarks::remark_of(document(tag, entries), limits) matches Ok(remark) && {
            &&& remark.pass_name == texts.0
            &&& remark.remark_name == texts.1
            &&& remark.function == texts.2
            &&& remark.source_location is None
            &&& remark.hotness is None
            &&& remark.arguments.len() == 0
            &&& remark.message.len() == 0
        },
{
    held_entries_are_found(entries@, "Pass"@, pass);
    held_entries_are_found(entries@, "Name"@, name);
    held_entries_are_found(entries@, "Function"@, function);
    lacking_entries_are_not_found(entries@, "DebugLoc"@);
    lacking_entries_are_not_found(entries@, "Hotness"@);
    lacking_entries_are_not_found(entries@, "Args"@);
    let none = Seq::<char>::empty();
    vstd::utf8::encode_utf8(none);
    assert(vstd::utf8::encode_utf8(none).len() == 0);
    assert(remarks::message_of(Seq::<ArgumentData>::empty()) =~= none);
}

/// A text within the limit on texts.
pub open spec fn short(text: Seq<char>, limits: RemarkParseLimits) -> bool {
    vstd::utf8::encode_utf8(text).len() <= limits.max_string_bytes
}

/// A source location within the limits, or none.
pub open spec fn short_place(place: Option<LocationData>, limits: RemarkParseLimits) -> bool {
    place matches Some(place) ==> short(place.file, limits)
}

proof fn short_places_are_accepted(value: Yaml, place: LocationData, limits: RemarkParseLimits)
    requires
        is_place(value, place),
        short(place.file, limits),
    ensures
        remarks::location_of(value, limits) == Ok::<Option<LocationData>, RemarkFault>(Some(place)),
{
    if let Yaml::Mapping(entries) = value {
        let i = choose|i: int| #[trigger]
            holds(entries@, "File"@, i) && is_text(entries@[i].1, place.file);
        held_entries_are_found(entries@, "File"@, i);
        let i = choose|i: int| #[trigger]
            holds(entries@, "Line"@, i) && is_natural(entries@[i].1, place.line);
        held_entries_are_found(entries@, "Line"@, i);
        let i = choose|i: int| #[trigger]
            holds(entries@, "Column"@, i) && is_natural(entries@[i].1, place.column);
        held_entries_are_found(entries@, "Column"@, i);
    }
}

proof fn the_other_is_left(entries: Seq<(Yaml, Yaml)>, index: int)
    requires
        0 <= index < entries.len(),
        !is_debug_location(entries[index].0),
        forall|j: int|
            0 <= j < entries.len() && j != index ==> is_debug_location(#[trigger] entries[j].0),
    ensures
        remarks::fragments(entries) == seq![entries[index]],
    decreases entries.len(),
{
    let keep = |entry: (Yaml, Yaml)| !remarks::is_location(entry.0);
    reveal(Seq::filter);
    let start = entries.drop_last();
    debug_locations_are_locations(entries.last().0);
    assert(entries.filter(keep) == remarks::fragments(entries));
    assert(start.filter(keep) == remarks::fragments(start));
    assert forall|j: int| 0 <= j < start.len() && j != index implies is_debug_location(
        #[trigger] start[j].0,
    ) by {
        assert(start[j] == entries[j]);
    }
    if index == entries.len() - 1 {
        nothing_is_left(start);
        assert(Seq::<(Yaml, Yaml)>::empty().push(entries.last()) =~= seq![entries[index]]);
    } else {
        assert(start[index] == entries[index]);
        the_other_is_left(start, index);
        assert(is_debug_location(entries[entries.len() - 1].0));
    }
}

proof fn nothing_is_left(entries: Seq<(Yaml, Yaml)>)
    requires
        forall|j: int| 0 <= j < entries.len() ==> is_debug_location(#[trigger] entries[j].0),
    ensures
        remarks::fragments(entries) == Seq::<(Yaml, Yaml)>::empty(),
    decreases entries.len(),
{
    let keep = |entry: (Yaml, Yaml)| !remarks::is_location(entry.0);
    reveal(Seq::filter);
    if entries.len() > 0 {
        let start = entries.drop_last();
        debug_locations_are_locations(entries.last().0);
        assert(entries.filter(keep) == remarks::fragments(entries));
        assert(start.filter(keep) == remarks::fragments(start));
        assert(is_debug_location(entries[entries.len() - 1].0));
        assert forall|j: int| 0 <= j < start.len() implies is_debug_location(
            #[trigger] start[j].0,
        ) by {
            assert(start[j] == entries[j]);
        }
        nothing_is_left(start);
    }
}

proof fn short_fragments_are_accepted(
    value: Yaml,
    index: int,
    argument: ArgumentData,
    limits: RemarkParseLimits,
)
    requires
        is_fragment(value, argument),
        short(argument.key, limits),
        short(argument.value, limits),
        short_place(argument.source_location, limits),
    ensures
        remarks::argument_of(value, index, limits) == Ok::<ArgumentData, RemarkFault>(argument),
{
    if let Yaml::Mapping(entries) = value {
        let at = choose|i: int|
            0 <= i < entries@.len() && keyed(#[trigger] entries@[i], argument.key) && is_printed(
                entries@[i].1,
                argument.value,
            ) && argument.key != "DebugLoc"@ && forall|j: int|
                0 <= j < entries@.len() && j != i ==> is_debug_location(#[trigger] entries@[j].0);
        the_other_is_left(entries@, at);
        match argument.source_location {
            Some(place) => {
                let i = choose|i: int| #[trigger]
                    holds(entries@, "DebugLoc"@, i) && is_place(entries@[i].1, place);
                held_entries_are_found(entries@, "DebugLoc"@, i);
                short_places_are_accepted(entries@[i].1, place, limits);
            },
            None => {
                lacking_entries_are_not_found(entries@, "DebugLoc"@);
            },
        }
    }
}

proof fn all_fragments_are_accepted(
    values: Seq<Yaml>,
    arguments: Seq<ArgumentData>,
    index: int,
    limits: RemarkParseLimits,
)
    requires
        0 <= index <= values.len(),
        arguments.len() == values.len(),
        forall|k: int|
            0 <= k < values.len() ==> is_fragment(values[k], #[trigger] arguments[k]) && short(
                arguments[k].key,
                limits,
            ) && short(arguments[k].value, limits) && short_place(
                arguments[k].source_location,
                limits,
            ),
    ensures
        remarks::arguments_from(values, index, arguments.take(index), limits) == Ok::<
            Seq<ArgumentData>,
            RemarkFault,
        >(arguments),
    decreases values.len() - index,
{
    if index == values.len() {
        assert(arguments.take(index) =~= arguments);
    } else {
        assert(is_fragment(values[index], arguments[index]));
        short_fragments_are_accepted(values[index], index, arguments[index], limits);
        assert(arguments.take(index).push(arguments[index]) =~= arguments.take(index + 1));
        all_fragments_are_accepted(values, arguments, index + 1, limits);
    }
}

/// A tagged mapping with a pass, a name, a function, a source location, a hotness and arguments is
/// accepted if all of them are within the limits, and the remark holds them as they are.
pub proof fn complete_documents_are_accepted(
    tag: String,
    entries: Vec<(Yaml, Yaml)>,
    limits: RemarkParseLimits,
    indices: (int, int, int, int, int, int),
    texts: (Seq<char>, Seq<char>, Seq<char>),
    place: LocationData,
    hotness: u64,
    arguments: Seq<ArgumentData>,
)
    requires
        short(remarks::without_marks(tag@), limits),
        holds(entries@, "Pass"@, indices.0) && is_text(entries@[indices.0].1, texts.0),
        holds(entries@, "Name"@, indices.1) && is_text(entries@[indices.1].1, texts.1),
        holds(entries@, "Function"@, indices.2) && is_text(entries@[indices.2].1, texts.2),
        holds(entries@, "DebugLoc"@, indices.3) && is_place(entries@[indices.3].1, place),
        holds(entries@, "Hotness"@, indices.4) && is_natural(entries@[indices.4].1, hotness),
        holds(entries@, "Args"@, indices.5) && are_fragments(entries@[indices.5].1, arguments),
        short(texts.0, limits) && short(texts.1, limits) && short(texts.2, limits),
        short(place.file, limits),
        arguments.len() <= limits.max_arguments,
        forall|k: int|
            0 <= k < arguments.len() ==> short((#[trigger] arguments[k]).key, limits) && short(
                arguments[k].value,
                limits,
            ) && short_place(arguments[k].source_location, limits),
        short(
            arguments.map_values(|argument: ArgumentData| argument.value).flatten(),
            limits,
        ),
    ensures
        remarks::remark_of(document(tag, entries), limits) matches Ok(remark) && {
            &&& remark.pass_name == texts.0
            &&& remark.remark_name == texts.1
            &&& remark.function == texts.2
            &&& remark.source_location == Some(place)
            &&& remark.hotness == Some(hotness)
            &&& remark.arguments == arguments
        },
{
    held_entries_are_found(entries@, "Pass"@, indices.0);
    held_entries_are_found(entries@, "Name"@, indices.1);
    held_entries_are_found(entries@, "Function"@, indices.2);
    held_entries_are_found(entries@, "DebugLoc"@, indices.3);
    held_entries_are_found(entries@, "Hotness"@, indices.4);
    held_entries_are_found(entries@, "Args"@, indices.5);
    short_places_are_accepted(entries@[indices.3].1, place, limits);
    messages_are_joined(arguments);
    if let Yaml::Sequence(values) = entries@[indices.5].1 {
        all_fragments_are_accepted(values@, arguments, 0, limits);
        assert(arguments.take(0) =~= Seq::empty());
    }
}

/// Every text of an accepted remark and the number of its arguments are within the limits.
pub proof fn accepted_remarks_are_bounded(value: Yaml, limits: RemarkParseLimits)
    ensures
        remarks::remark_of(value, limits) matches Ok(remark) ==> {
            &&& short(remark.pass_name, limits)
            &&& short(remark.remark_name, limits)
            &&& short(remark.function, limits)
            &&& short(remark.message, limits)
            &&& short_place(remark.source_location, limits)
            &&& remark.arguments.len() <= limits.max_arguments
        },
{
    if let Yaml::Tagged(_, content) = value {
        if let Yaml::Mapping(entries) = *content {
            if let Some(Yaml::Sequence(values)) = yaml::lookup(entries@, "Args"@) {
                all_arguments_are_fragments(values@, 0, Seq::empty(), limits);
            }
        }
    }
}

} // verus!

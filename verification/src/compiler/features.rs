//! Normalizes Cargo feature selections.
//!
//! Cargo reads a feature selection as names between commas and whitespace. The order of the names
//! and repeated names change nothing, so they are no part of a request's identity.

use crate::chars;
use crate::chars::{add_text, chars_of, is_white, no_texts, text_of};
use crate::order;
use crate::sorting;
use crate::sorting::sort_texts;
use crate::text::same_text;
use vstd::prelude::*;

verus! {

/// A character stands between two feature names.
pub open spec fn separates(character: char) -> bool {
    character == ',' || chars::white(character)
}

/// The complete names in a text and the name that is not yet complete.
pub open spec fn split_run(text: Seq<char>) -> (Seq<Seq<char>>, Seq<char>)
    decreases text.len(),
{
    if text.len() == 0 {
        (Seq::empty(), Seq::empty())
    } else {
        let (names, current) = split_run(text.drop_last());
        if separates(text.last()) {
            (completed(names, current), Seq::empty())
        } else {
            (names, current.push(text.last()))
        }
    }
}

/// Names with one more, unless it is empty.
pub open spec fn completed(names: Seq<Seq<char>>, current: Seq<char>) -> Seq<Seq<char>> {
    if current.len() > 0 {
        names.push(current)
    } else {
        names
    }
}

/// The feature names in a text.
pub open spec fn names_in(text: Seq<char>) -> Seq<Seq<char>> {
    completed(split_run(text).0, split_run(text).1)
}

/// The feature names in texts.
pub open spec fn names_of(texts: Seq<Seq<char>>) -> Seq<Seq<char>>
    decreases texts.len(),
{
    if texts.len() == 0 {
        Seq::empty()
    } else {
        names_of(texts.drop_last()) + names_in(texts.last())
    }
}

/// Texts without those that repeat the text in front of them.
pub open spec fn distinct(texts: Seq<Seq<char>>) -> Seq<Seq<char>>
    decreases texts.len(),
{
    if texts.len() == 0 {
        Seq::empty()
    } else {
        let earlier = distinct(texts.drop_last());
        if earlier.len() > 0 && earlier.last() == texts.last() {
            earlier
        } else {
            earlier.push(texts.last())
        }
    }
}

/// The feature names in texts, in ascending order and without repetitions.
pub open spec fn normal_features(texts: Seq<Seq<char>>) -> Seq<Seq<char>> {
    distinct(sorting::arranged(names_of(texts)))
}

fn complete(names: &mut Vec<String>, current: &Vec<char>)
    ensures
        chars::views(final(names)@) == completed(chars::views(old(names)@), current@),
{
    if current.len() > 0 {
        let text = text_of(current.as_slice());
        add_text(names, text.as_str());
    }
}

fn add_names(text: &str, names: &mut Vec<String>)
    ensures
        chars::views(final(names)@) == chars::views(old(names)@) + names_in(text@),
{
    let ghost before = chars::views(names@);
    let characters = chars_of(text);
    let mut current: Vec<char> = Vec::new();
    let mut index: usize = 0;
    proof {
        assert(text@.take(0) =~= Seq::<char>::empty());
        assert(chars::views(names@) =~= before + split_run(text@.take(0)).0);
        assert(current@ =~= split_run(text@.take(0)).1);
    }
    while index < characters.len()
        invariant
            index <= characters@.len(),
            characters@ == text@,
            chars::views(names@) == before + split_run(text@.take(index as int)).0,
            current@ == split_run(text@.take(index as int)).1,
        decreases characters.len() - index,
    {
        let ghost read = text@.take(index + 1);
        let character = characters[index];
        proof {
            assert(read.drop_last() =~= text@.take(index as int));
            assert(read.last() == character);
        }
        if character == ',' || is_white(character) {
            complete(names, &current);
            current = Vec::new();
            assert(chars::views(names@) =~= before + split_run(read).0);
            assert(current@ =~= split_run(read).1);
        } else {
            current.push(character);
        }
        index += 1;
    }
    assert(text@.take(text@.len() as int) =~= text@);
    complete(names, &current);
    assert(chars::views(names@) =~= before + names_in(text@));
}

fn drop_repeats(texts: &Vec<String>) -> (result: Vec<String>)
    ensures
        chars::views(result@) == distinct(chars::views(texts@)),
{
    let ghost all = chars::views(texts@);
    let mut result = no_texts();
    let mut index: usize = 0;
    assert(all.take(0) =~= Seq::<Seq<char>>::empty());
    while index < texts.len()
        invariant
            index <= texts@.len(),
            all == chars::views(texts@),
            chars::views(result@) == distinct(all.take(index as int)),
        decreases texts.len() - index,
    {
        let ghost read = all.take(index + 1);
        let ghost earlier = chars::views(result@);
        proof {
            assert(read.drop_last() =~= all.take(index as int));
            assert(read.last() == texts@[index as int]@);
            assert(earlier.len() == result@.len());
            assert(result@.len() > 0 ==> earlier.last() == result@.last()@);
        }
        let repeated = result.len() > 0 && same_text(
            result[result.len() - 1].as_str(),
            texts[index].as_str(),
        );
        if !repeated {
            add_text(&mut result, texts[index].as_str());
        }
        index += 1;
    }
    assert(all.take(all.len() as int) =~= all);
    result
}

/// Lists the feature names of a selection in ascending order and without repetitions.
pub fn normalize_features(features: &Vec<String>) -> (result: Vec<String>)
    ensures
        chars::views(result@) == normal_features(chars::views(features@)),
{
    let ghost all = chars::views(features@);
    let mut names = no_texts();
    let mut index: usize = 0;
    assert(all.take(0) =~= Seq::<Seq<char>>::empty());
    while index < features.len()
        invariant
            index <= features@.len(),
            all == chars::views(features@),
            chars::views(names@) == names_of(all.take(index as int)),
        decreases features.len() - index,
    {
        let ghost read = all.take(index + 1);
        proof {
            assert(read.drop_last() =~= all.take(index as int));
            assert(read.last() == features@[index as int]@);
        }
        add_names(features[index].as_str(), &mut names);
        index += 1;
    }
    assert(all.take(all.len() as int) =~= all);
    let sorted = sort_texts(names);
    drop_repeats(&sorted)
}

/// Each text comes before every later one.
pub open spec fn strictly_ordered(texts: Seq<Seq<char>>) -> bool {
    forall|i: int, j: int|
        0 <= i < j < texts.len() ==> order::text_less(#[trigger] texts[i], #[trigger] texts[j])
}

proof fn text_less_is_transitive(first: Seq<char>, second: Seq<char>, third: Seq<char>)
    requires
        order::text_less(first, second),
        order::text_less(second, third),
    ensures
        order::text_less(first, third),
{
    order::bytes_less_transitive(
        vstd::utf8::encode_utf8(first),
        vstd::utf8::encode_utf8(second),
        vstd::utf8::encode_utf8(third),
    );
}

proof fn distinct_texts(texts: Seq<Seq<char>>)
    requires
        sorting::texts_ordered(texts),
    ensures
        strictly_ordered(distinct(texts)),
        forall|text: Seq<char>| #[trigger]
            distinct(texts).contains(text) <==> texts.contains(text),
        texts.len() > 0 ==> distinct(texts).len() > 0 && distinct(texts).last() == texts.last(),
    decreases texts.len(),
{
    if texts.len() > 0 {
        let front = texts.drop_last();
        let last = texts.last();
        assert forall|i: int, j: int| 0 <= i < j < front.len() implies !order::text_less(
            #[trigger] front[j],
            #[trigger] front[i],
        ) by {
            assert(front[i] == texts[i] && front[j] == texts[j]);
        }
        distinct_texts(front);
        let earlier = distinct(front);
        let result = distinct(texts);
        if front.len() > 0 && earlier.last() != last {
            assert(texts[front.len() - 1] == front.last());
            assert(texts[texts.len() - 1] == last);
            order::text_less_is_strict(earlier.last(), last);
            assert(order::text_less(earlier.last(), last));
            assert forall|i: int, j: int| 0 <= i < j < result.len() implies order::text_less(
                #[trigger] result[i],
                #[trigger] result[j],
            ) by {
                if j < earlier.len() {
                    assert(earlier[i] == result[i] && earlier[j] == result[j]);
                } else {
                    assert(result[i] == earlier[i]);
                    if i < earlier.len() - 1 {
                        assert(order::text_less(earlier[i], earlier[earlier.len() - 1]));
                        text_less_is_transitive(earlier[i], earlier.last(), last);
                    }
                }
            }
        }
        assert forall|text: Seq<char>| #[trigger]
            result.contains(text) <==> texts.contains(text) by {
            assert(earlier.contains(text) <==> front.contains(text));
            if texts.contains(text) {
                let i = choose|i: int| 0 <= i < texts.len() && texts[i] == text;
                if i < front.len() {
                    assert(front[i] == text);
                    assert(earlier.contains(text));
                    let k = choose|k: int| 0 <= k < earlier.len() && earlier[k] == text;
                    assert(result[k] == text);
                } else {
                    assert(result[result.len() - 1] == text);
                }
            }
            if result.contains(text) {
                let k = choose|k: int| 0 <= k < result.len() && result[k] == text;
                if k < earlier.len() {
                    assert(earlier[k] == text);
                    let i = choose|i: int| 0 <= i < front.len() && front[i] == text;
                    assert(texts[i] == text);
                } else {
                    assert(texts[texts.len() - 1] == text);
                }
            }
        }
    }
}

/// A normal form holds exactly the names of the selection, in strictly ascending order.
pub proof fn normal_forms_hold_the_names(texts: Seq<Seq<char>>)
    ensures
        strictly_ordered(normal_features(texts)),
        forall|name: Seq<char>| #[trigger]
            normal_features(texts).contains(name) <==> names_of(texts).contains(name),
{
    let names = names_of(texts);
    let sorted = sorting::arranged(names);
    sorting::arrangements_are_sorted(names);
    distinct_texts(sorted);
    assert forall|name: Seq<char>| #[trigger]
        normal_features(texts).contains(name) <==> names.contains(name) by {
        assert(distinct(sorted).contains(name) <==> sorted.contains(name));
        vstd::seq_lib::to_multiset_contains(sorted, name);
        vstd::seq_lib::to_multiset_contains(names, name);
    }
}

proof fn strictly_ordered_texts_are_unique(left: Seq<Seq<char>>, right: Seq<Seq<char>>)
    requires
        strictly_ordered(left),
        strictly_ordered(right),
        forall|text: Seq<char>| #[trigger] left.contains(text) <==> right.contains(text),
    ensures
        left == right,
{
    strict_order_has_no_repeats(left);
    strict_order_has_no_repeats(right);
    left.lemma_multiset_has_no_duplicates();
    right.lemma_multiset_has_no_duplicates();
    assert forall|text: Seq<char>| #[trigger]
        left.to_multiset().count(text) == right.to_multiset().count(text) by {
        assert(left.contains(text) <==> right.contains(text));
        vstd::seq_lib::to_multiset_contains(left, text);
        vstd::seq_lib::to_multiset_contains(right, text);
    }
    assert(left.to_multiset() =~= right.to_multiset());
    sorting::ordered_texts_are_unique(left, right);
}

proof fn strict_order_has_no_repeats(texts: Seq<Seq<char>>)
    requires
        strictly_ordered(texts),
    ensures
        texts.no_duplicates(),
        sorting::texts_ordered(texts),
{
    assert forall|i: int, j: int| 0 <= i < j < texts.len() implies !order::text_less(
        #[trigger] texts[j],
        #[trigger] texts[i],
    ) && texts[i] != texts[j] by {
        order::text_less_is_strict(texts[i], texts[j]);
    }
}

/// A name that is not empty and holds no separator.
pub open spec fn plain(name: Seq<char>) -> bool {
    &&& name.len() > 0
    &&& forall|i: int| 0 <= i < name.len() ==> !separates(#[trigger] name[i])
}

proof fn split_names_are_plain(text: Seq<char>)
    ensures
        forall|name: Seq<char>| #[trigger] split_run(text).0.contains(name) ==> plain(name),
        split_run(text).1.len() > 0 ==> plain(split_run(text).1),
    decreases text.len(),
{
    if text.len() > 0 {
        split_names_are_plain(text.drop_last());
        let (names, current) = split_run(text.drop_last());
        completed_names_are_plain(names, current);
        if !separates(text.last()) {
            let longer = current.push(text.last());
            assert forall|i: int| 0 <= i < longer.len() implies !separates(
                #[trigger] longer[i],
            ) by {
                if i < current.len() {
                    assert(longer[i] == current[i]);
                }
            }
        }
    }
}

proof fn completed_names_are_plain(names: Seq<Seq<char>>, current: Seq<char>)
    requires
        forall|name: Seq<char>| #[trigger] names.contains(name) ==> plain(name),
        current.len() > 0 ==> plain(current),
    ensures
        forall|name: Seq<char>| #[trigger] completed(names, current).contains(name) ==> plain(name),
{
    assert forall|name: Seq<char>| #[trigger] completed(names, current).contains(name) implies
        plain(name) by {
        let all = completed(names, current);
        let i = choose|i: int| 0 <= i < all.len() && all[i] == name;
        if i < names.len() {
            assert(names[i] == name);
            assert(names.contains(name));
        }
    }
}

proof fn names_are_plain(texts: Seq<Seq<char>>)
    ensures
        forall|name: Seq<char>| #[trigger] names_of(texts).contains(name) ==> plain(name),
    decreases texts.len(),
{
    if texts.len() > 0 {
        let front = names_of(texts.drop_last());
        let last = names_in(texts.last());
        names_are_plain(texts.drop_last());
        split_names_are_plain(texts.last());
        completed_names_are_plain(split_run(texts.last()).0, split_run(texts.last()).1);
        assert forall|name: Seq<char>| #[trigger] names_of(texts).contains(name) implies plain(
            name,
        ) by {
            let i = choose|i: int| 0 <= i < (front + last).len() && (front + last)[i] == name;
            if i < front.len() {
                assert(front[i] == name);
                assert(front.contains(name));
            } else {
                assert(last[i - front.len()] == name);
                assert(last.contains(name));
            }
        }
    }
}

/// Every name of a normal form is plain.
pub proof fn normal_names_are_plain(texts: Seq<Seq<char>>)
    ensures
        forall|i: int|
            0 <= i < normal_features(texts).len() ==> plain(#[trigger] normal_features(texts)[i]),
{
    normal_forms_hold_the_names(texts);
    names_are_plain(texts);
    let normal = normal_features(texts);
    assert forall|i: int| 0 <= i < normal.len() implies plain(#[trigger] normal[i]) by {
        assert(normal.contains(normal[i]));
        assert(names_of(texts).contains(normal[i]));
    }
}

proof fn plain_names_are_read(text: Seq<char>, name: Seq<char>)
    requires
        split_run(text).1.len() == 0,
        forall|i: int| 0 <= i < name.len() ==> !separates(#[trigger] name[i]),
    ensures
        split_run(text + name) == (split_run(text).0, name),
    decreases name.len(),
{
    if name.len() == 0 {
        assert(text + name =~= text);
        assert(split_run(text).1 =~= name);
    } else {
        let front = name.drop_last();
        assert forall|i: int| 0 <= i < front.len() implies !separates(#[trigger] front[i]) by {
            assert(front[i] == name[i]);
        }
        plain_names_are_read(text, front);
        assert((text + name).drop_last() =~= text + front);
        assert((text + name).last() == name.last());
        assert(name[name.len() - 1] == name.last());
        assert(front.push(name.last()) =~= name);
    }
}

proof fn joined_names_are_read(names: Seq<Seq<char>>)
    requires
        forall|i: int| 0 <= i < names.len() ==> plain(#[trigger] names[i]),
    ensures
        names.len() > 0 ==> split_run(chars::joined(names, ","@)) == (
            names.drop_last(),
            names.last(),
        ),
    decreases names.len(),
{
    if names.len() == 1 {
        plain_names_are_read(Seq::empty(), names[0]);
        assert(Seq::<char>::empty() + names[0] =~= names[0]);
        assert(names.drop_last() =~= Seq::<Seq<char>>::empty());
        assert(names.last() == names[0]);
    } else if names.len() > 1 {
        let front = names.drop_last();
        assert forall|i: int| 0 <= i < front.len() implies plain(#[trigger] front[i]) by {
            assert(front[i] == names[i]);
        }
        joined_names_are_read(front);
        let text = chars::joined(front, ","@);
        let separated = text + ","@;
        reveal_strlit(",");
        assert(separated.drop_last() =~= text);
        assert(separated.last() == ',');
        assert(plain(front[front.len() - 1]));
        assert(split_run(separated).0 =~= front.drop_last().push(front.last()));
        assert(front.drop_last().push(front.last()) =~= front);
        assert(plain(names[names.len() - 1]));
        plain_names_are_read(separated, names.last());
    }
}

/// The argument that a normal form becomes selects exactly its names again.
pub proof fn normal_forms_are_read_back(texts: Seq<Seq<char>>)
    ensures
        names_in(chars::joined(normal_features(texts), ","@)) == normal_features(texts),
        normal_features(seq![chars::joined(normal_features(texts), ","@)]) == normal_features(
            texts,
        ),
{
    let normal = normal_features(texts);
    let argument = chars::joined(normal, ","@);
    normal_names_are_plain(texts);
    joined_names_are_read(normal);
    if normal.len() > 0 {
        assert(plain(normal[normal.len() - 1]));
        assert(normal.drop_last().push(normal.last()) =~= normal);
    } else {
        assert(names_in(argument) =~= normal);
    }
    let single = seq![argument];
    assert(single.drop_last() =~= Seq::<Seq<char>>::empty());
    assert(names_of(single.drop_last()) =~= Seq::<Seq<char>>::empty());
    assert(names_of(single) =~= normal);
    normal_forms_hold_the_names(texts);
    normal_forms_hold_the_names(single);
    assert forall|name: Seq<char>| #[trigger]
        normal_features(single).contains(name) <==> normal.contains(name) by {
        assert(names_of(single).contains(name) <==> normal.contains(name));
    }
    strictly_ordered_texts_are_unique(normal_features(single), normal);
}

/// Selections of the same names have the same normal form, however the names are written, ordered
/// and repeated.
pub proof fn equal_selections_have_one_form(left: Seq<Seq<char>>, right: Seq<Seq<char>>)
    ensures
        normal_features(left) == normal_features(right) <==> (forall|name: Seq<char>| #[trigger]
            names_of(left).contains(name) <==> names_of(right).contains(name)),
{
    normal_forms_hold_the_names(left);
    normal_forms_hold_the_names(right);
    let first = normal_features(left);
    let second = normal_features(right);
    if first == second {
        assert forall|name: Seq<char>| #[trigger]
            names_of(left).contains(name) <==> names_of(right).contains(name) by {
            assert(first.contains(name) <==> names_of(left).contains(name));
            assert(second.contains(name) <==> names_of(right).contains(name));
        }
    } else if forall|name: Seq<char>| #[trigger]
        names_of(left).contains(name) <==> names_of(right).contains(name) {
        assert forall|name: Seq<char>| #[trigger]
            first.contains(name) <==> second.contains(name) by {
            assert(names_of(left).contains(name) <==> names_of(right).contains(name));
            assert(second.contains(name) <==> names_of(right).contains(name));
        }
        strictly_ordered_texts_are_unique(first, second);
    }
}

/// Commas and white space separate names, however many of them stand between two. The names before
/// and behind a separator are read on their own.
pub proof fn separators_divide_names(left: Seq<char>, separator: char, right: Seq<char>)
    requires
        separator == ',' || separator == ' ' || separator == '\t' || separator == '\n',
    ensures
        names_in(left + seq![separator] + right) == names_in(left) + names_in(right),
    decreases right.len(),
{
    let text = left + seq![separator];
    assert(text.drop_last() =~= left);
    runs_are_divided(left, separator, right);
    let (names, current) = split_run(right);
    assert(names_in(left) + completed(names, current) =~= completed(
        names_in(left) + names,
        current,
    ));
}

proof fn runs_are_divided(left: Seq<char>, separator: char, right: Seq<char>)
    requires
        separates(separator),
    ensures
        split_run(left + seq![separator] + right) == (
            names_in(left) + split_run(right).0,
            split_run(right).1,
        ),
    decreases right.len(),
{
    let text = left + seq![separator] + right;
    if right.len() == 0 {
        assert(text.drop_last() =~= left);
        assert(text.last() == separator);
        assert(names_in(left) + Seq::empty() =~= names_in(left));
    } else {
        let fewer = right.drop_last();
        assert(text.drop_last() =~= left + seq![separator] + fewer);
        assert(text.last() == right.last());
        runs_are_divided(left, separator, fewer);
        let (names, current) = split_run(fewer);
        if separates(right.last()) {
            assert(completed(names_in(left) + names, current) =~= names_in(left) + completed(
                names,
                current,
            ));
        }
    }
}

/// A text without separators is one name.
pub proof fn plain_texts_are_one_name(name: Seq<char>)
    requires
        plain(name),
    ensures
        names_in(name) == seq![name],
{
    plain_runs(name);
    assert(Seq::<Seq<char>>::empty().push(name) =~= seq![name]);
}

proof fn plain_runs(text: Seq<char>)
    requires
        forall|i: int| 0 <= i < text.len() ==> !separates(#[trigger] text[i]),
    ensures
        split_run(text) == (Seq::<Seq<char>>::empty(), text),
    decreases text.len(),
{
    if text.len() > 0 {
        plain_runs(text.drop_last());
        assert(text.drop_last().push(text.last()) =~= text);
    } else {
        assert(text =~= Seq::empty());
    }
}

} // verus!

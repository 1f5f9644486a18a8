//! Sorting by a strict order.

use crate::chars;
use crate::order;
use crate::order::is_text_less;
use crate::paths;
use crate::paths::is_path_less;
use vstd::prelude::*;

verus! {

/// Values with an order.
pub trait Ranked: Sized {
    /// A value comes before another one.
    spec fn before(self, other: Self) -> bool;

    /// Of two values at most one comes first.
    proof fn asymmetric(left: Self, right: Self)
        requires
            left.before(right),
        ensures
            !right.before(left),
    ;

    /// A value that does not come before a second one, which does not come before a third one, does
    /// not come before the third one.
    proof fn negatively_transitive(first: Self, second: Self, third: Self)
        requires
            !first.before(second),
            !second.before(third),
        ensures
            !first.before(third),
    ;

    /// Tells whether a value comes before another one.
    fn is_before(&self, other: &Self) -> (result: bool)
        ensures
            result == self.before(*other),
    ;
}

/// No value comes before an earlier one.
pub open spec fn ordered<T: Ranked>(values: Seq<T>) -> bool {
    forall|i: int, j: int|
        0 <= i < j < values.len() ==> !(#[trigger] values[j]).before(#[trigger] values[i])
}

/// Sorts values. Values of which none comes first keep their order.
pub fn sort<T: Ranked>(values: Vec<T>) -> (result: Vec<T>)
    ensures
        ordered(result@),
        result@.to_multiset() == values@.to_multiset(),
{
    let mut rest = values;
    let mut result: Vec<T> = Vec::new();
    let ghost all = rest@.to_multiset();
    proof {
        nothing_is_counted(result@);
        assert(rest@.to_multiset().add(result@.to_multiset()) =~= all);
    }
    while rest.len() > 0
        invariant
            ordered(result@),
            rest@.to_multiset().add(result@.to_multiset()) == all,
        decreases rest.len(),
    {
        let ghost before = rest@;
        let ghost sorted = result@;
        match rest.pop() {
            None => {},
            Some(value) => {
                let mut index: usize = 0;
                while index < result.len() && result[index].is_before(&value)
                    invariant
                        index <= result@.len(),
                        forall|i: int| 0 <= i < index ==> (#[trigger] result@[i]).before(value),
                    decreases result.len() - index,
                {
                    index += 1;
                }
                result.insert(index, value);
                proof {
                    assert(before == rest@.push(value));
                    vstd::seq_lib::to_multiset_build(rest@, value);
                    vstd::seq_lib::to_multiset_insert(sorted, index as int, value);
                    assert(rest@.to_multiset().add(result@.to_multiset())
                        =~= before.to_multiset().add(sorted.to_multiset()));
                    inserted_in_order(sorted, index as int, value);
                }
            },
        }
    }
    proof {
        nothing_is_counted(rest@);
        assert(rest@.to_multiset().add(result@.to_multiset()) =~= result@.to_multiset());
    }
    result
}

proof fn nothing_is_counted<T>(values: Seq<T>)
    requires
        values.len() == 0,
    ensures
        values.to_multiset() == vstd::multiset::Multiset::<T>::empty(),
{
    assert forall|value: T| values.to_multiset().count(value) == 0 by {
        vstd::seq_lib::to_multiset_contains(values, value);
    }
    assert(values.to_multiset() =~= vstd::multiset::Multiset::<T>::empty());
}

proof fn inserted_in_order<T: Ranked>(sorted: Seq<T>, index: int, value: T)
    requires
        ordered(sorted),
        0 <= index <= sorted.len(),
        forall|i: int| 0 <= i < index ==> (#[trigger] sorted[i]).before(value),
        index < sorted.len() ==> !sorted[index].before(value),
    ensures
        ordered(sorted.insert(index, value)),
{
    let after = sorted.insert(index, value);
    assert forall|i: int, j: int| 0 <= i < j < after.len() implies !(#[trigger] after[j]).before(
        #[trigger] after[i],
    ) by {
        if j < index {
            assert(after[i] == sorted[i] && after[j] == sorted[j]);
        } else if j == index {
            assert(sorted[i].before(value));
            T::asymmetric(sorted[i], value);
        } else if i < index {
            assert(after[i] == sorted[i] && after[j] == sorted[j - 1]);
        } else if i == index {
            assert(after[j] == sorted[j - 1]);
            if j - 1 > index {
                T::negatively_transitive(sorted[j - 1], sorted[index], value);
            }
        } else {
            assert(after[i] == sorted[i - 1] && after[j] == sorted[j - 1]);
        }
    }
}

/// The number of leading texts that come before a text.
pub open spec fn text_place(sorted: Seq<Seq<char>>, text: Seq<char>) -> int
    decreases sorted.len(),
{
    if sorted.len() == 0 || !order::text_less(sorted[0], text) {
        0
    } else {
        1 + text_place(sorted.skip(1), text)
    }
}

/// Texts in ascending order.
pub open spec fn arranged(texts: Seq<Seq<char>>) -> Seq<Seq<char>>
    decreases texts.len(),
{
    if texts.len() == 0 {
        Seq::empty()
    } else {
        let sorted = arranged(texts.skip(1));
        sorted.insert(text_place(sorted, texts[0]), texts[0])
    }
}

/// No text comes before an earlier one.
pub open spec fn texts_ordered(texts: Seq<Seq<char>>) -> bool {
    forall|i: int, j: int|
        0 <= i < j < texts.len() ==> !order::text_less(#[trigger] texts[j], #[trigger] texts[i])
}

proof fn text_place_bounds(sorted: Seq<Seq<char>>, text: Seq<char>)
    ensures
        0 <= text_place(sorted, text) <= sorted.len(),
        forall|i: int|
            0 <= i < text_place(sorted, text) ==> order::text_less(#[trigger] sorted[i], text),
        text_place(sorted, text) < sorted.len() ==> !order::text_less(
            sorted[text_place(sorted, text)],
            text,
        ),
    decreases sorted.len(),
{
    if sorted.len() > 0 && order::text_less(sorted[0], text) {
        let tail = sorted.skip(1);
        text_place_bounds(tail, text);
        assert forall|i: int| 0 <= i < text_place(sorted, text) implies order::text_less(
            #[trigger] sorted[i],
            text,
        ) by {
            if i > 0 {
                assert(tail[i - 1] == sorted[i]);
            }
        }
    }
}

proof fn text_place_is(sorted: Seq<Seq<char>>, text: Seq<char>, index: int)
    requires
        0 <= index <= sorted.len(),
        forall|i: int| 0 <= i < index ==> order::text_less(#[trigger] sorted[i], text),
        index < sorted.len() ==> !order::text_less(sorted[index], text),
    ensures
        text_place(sorted, text) == index,
    decreases sorted.len(),
{
    if index > 0 {
        assert(order::text_less(sorted[0], text));
        let tail = sorted.skip(1);
        assert forall|i: int| 0 <= i < index - 1 implies order::text_less(
            #[trigger] tail[i],
            text,
        ) by {
            assert(tail[i] == sorted[i + 1]);
        }
        text_place_is(tail, text, index - 1);
    }
}

/// An arrangement is ordered and holds the same texts.
pub proof fn arrangements_are_sorted(texts: Seq<Seq<char>>)
    ensures
        texts_ordered(arranged(texts)),
        arranged(texts).to_multiset() == texts.to_multiset(),
        arranged(texts).len() == texts.len(),
    decreases texts.len(),
{
    if texts.len() == 0 {
        nothing_is_counted(texts);
        nothing_is_counted(arranged(texts));
    } else {
        let tail = texts.skip(1);
        let sorted = arranged(tail);
        let text = texts[0];
        let index = text_place(sorted, text);
        arrangements_are_sorted(tail);
        text_place_bounds(sorted, text);
        let after = sorted.insert(index, text);
        vstd::seq_lib::to_multiset_insert(sorted, index, text);
        vstd::seq_lib::to_multiset_insert(tail, 0, text);
        assert(tail.insert(0, text) =~= texts);
        assert forall|i: int, j: int| 0 <= i < j < after.len() implies !order::text_less(
            #[trigger] after[j],
            #[trigger] after[i],
        ) by {
            if j < index {
                assert(after[i] == sorted[i] && after[j] == sorted[j]);
            } else if j == index {
                assert(order::text_less(sorted[i], text));
                order::text_less_is_strict(sorted[i], text);
            } else if i < index {
                assert(after[i] == sorted[i] && after[j] == sorted[j - 1]);
            } else if i == index {
                assert(after[j] == sorted[j - 1]);
                if j - 1 > index {
                    not_before_is_transitive(sorted[j - 1], sorted[index], text);
                }
            } else {
                assert(after[i] == sorted[i - 1] && after[j] == sorted[j - 1]);
            }
        }
    }
}

proof fn not_before_is_transitive(first: Seq<char>, second: Seq<char>, third: Seq<char>)
    requires
        !order::text_less(first, second),
        !order::text_less(second, third),
    ensures
        !order::text_less(first, third),
{
    order::text_less_is_strict(first, second);
    order::text_less_is_strict(second, third);
    order::text_less_is_strict(first, third);
    if order::text_less(first, third) && first != second && second != third {
        order::bytes_less_transitive(
            vstd::utf8::encode_utf8(third),
            vstd::utf8::encode_utf8(second),
            vstd::utf8::encode_utf8(first),
        );
    }
}

/// Ordered texts are fixed by how often each of them stands there.
pub proof fn ordered_texts_are_unique(left: Seq<Seq<char>>, right: Seq<Seq<char>>)
    requires
        texts_ordered(left),
        texts_ordered(right),
        left.to_multiset() == right.to_multiset(),
    ensures
        left == right,
    decreases left.len(),
{
    vstd::seq_lib::to_multiset_len(left);
    vstd::seq_lib::to_multiset_len(right);
    if left.len() == 0 {
        assert(left =~= right);
    } else {
        assert(left.contains(left[0]) && right.contains(right[0]));
        vstd::seq_lib::to_multiset_contains(left, left[0]);
        vstd::seq_lib::to_multiset_contains(right, left[0]);
        vstd::seq_lib::to_multiset_contains(left, right[0]);
        vstd::seq_lib::to_multiset_contains(right, right[0]);
        let i = choose|i: int| 0 <= i < right.len() && right[i] == left[0];
        let j = choose|j: int| 0 <= j < left.len() && left[j] == right[0];
        order::text_less_is_strict(left[0], right[0]);
        if left[0] != right[0] {
            assert(i > 0 && j > 0);
            assert(!order::text_less(right[i], right[0]));
            assert(!order::text_less(left[j], left[0]));
        }
        assert(left.remove(0) =~= left.skip(1));
        assert(right.remove(0) =~= right.skip(1));
        vstd::seq_lib::to_multiset_remove(left, 0);
        vstd::seq_lib::to_multiset_remove(right, 0);
        ordered_texts_are_unique(left.skip(1), right.skip(1));
        assert(left =~= seq![left[0]] + left.skip(1));
        assert(right =~= seq![right[0]] + right.skip(1));
    }
}

/// Two lists have the same arrangement exactly if they hold the same texts equally often.
pub proof fn arrangements_ignore_order(left: Seq<Seq<char>>, right: Seq<Seq<char>>)
    ensures
        arranged(left) == arranged(right) <==> left.to_multiset() == right.to_multiset(),
{
    arrangements_are_sorted(left);
    arrangements_are_sorted(right);
    if left.to_multiset() == right.to_multiset() {
        ordered_texts_are_unique(arranged(left), arranged(right));
    }
}

/// Sorts texts.
pub fn sort_texts(texts: Vec<String>) -> (result: Vec<String>)
    ensures
        chars::views(result@) == arranged(chars::views(texts@)),
{
    let ghost all = chars::views(texts@);
    let mut rest = texts;
    let mut result: Vec<String> = Vec::new();
    proof {
        assert(all.skip(all.len() as int) =~= Seq::<Seq<char>>::empty());
        assert(chars::views(result@) =~= arranged(all.skip(all.len() as int)));
        assert(chars::views(rest@) =~= all.take(all.len() as int));
    }
    while rest.len() > 0
        invariant
            rest@.len() <= all.len(),
            chars::views(rest@) == all.take(rest@.len() as int),
            chars::views(result@) == arranged(all.skip(rest@.len() as int)),
        decreases rest.len(),
    {
        let ghost before = rest@;
        let ghost sorted = chars::views(result@);
        match rest.pop() {
            None => {},
            Some(text) => {
                let ghost position = rest@.len() as int;
                proof {
                    assert(before == rest@.push(text));
                    assert(chars::views(before)[position] == text@);
                    assert(text@ == all[position]);
                    assert(chars::views(rest@) =~= all.take(position));
                    assert(all.skip(position).skip(1) =~= all.skip(position + 1));
                }
                let mut index: usize = 0;
                while index < result.len() && is_text_less(result[index].as_str(), text.as_str())
                    invariant
                        index <= result@.len(),
                        sorted == chars::views(result@),
                        sorted.len() == result@.len(),
                        forall|i: int|
                            0 <= i < index ==> order::text_less(#[trigger] sorted[i], text@),
                    decreases result.len() - index,
                {
                    assert(sorted[index as int] == result@[index as int]@);
                    index += 1;
                }
                proof {
                    if index < result@.len() {
                        assert(sorted[index as int] == result@[index as int]@);
                    }
                    text_place_is(sorted, text@, index as int);
                }
                result.insert(index, text);
                assert(chars::views(result@) =~= sorted.insert(index as int, text@));
            },
        }
    }
    assert(all.skip(0) =~= all);
    result
}

/// Texts are sorted by their bytes.
impl Ranked for String {
    open spec fn before(self, other: Self) -> bool {
        order::text_less(self@, other@)
    }

    proof fn asymmetric(left: Self, right: Self) {
        order::text_less_is_strict(left@, right@);
    }

    proof fn negatively_transitive(first: Self, second: Self, third: Self) {
        order::text_less_is_strict(first@, second@);
        order::text_less_is_strict(second@, third@);
        order::text_less_is_strict(first@, third@);
        if first.before(third) && first@ != second@ && second@ != third@ {
            order::bytes_less_transitive(
                vstd::utf8::encode_utf8(third@),
                vstd::utf8::encode_utf8(second@),
                vstd::utf8::encode_utf8(first@),
            );
        }
    }

    fn is_before(&self, other: &Self) -> (result: bool) {
        is_text_less(self.as_str(), other.as_str())
    }
}

/// A path among others.
#[derive(Debug)]
pub struct PathItem {
    /// The path.
    pub path: String,
}

/// Paths are sorted by their components.
impl Ranked for PathItem {
    open spec fn before(self, other: Self) -> bool {
        paths::path_less(self.path@, other.path@)
    }

    proof fn asymmetric(left: Self, right: Self) {
        paths::parts_less_asymmetric(
            paths::text_parts(left.path@),
            paths::text_parts(right.path@),
        );
    }

    proof fn negatively_transitive(first: Self, second: Self, third: Self) {
        paths::parts_less_negatively_transitive(
            paths::text_parts(first.path@),
            paths::text_parts(second.path@),
            paths::text_parts(third.path@),
        );
    }

    fn is_before(&self, other: &Self) -> (result: bool) {
        is_path_less(self.path.as_str(), other.path.as_str())
    }
}

} // verus!

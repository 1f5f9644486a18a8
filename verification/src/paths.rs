//! Unix paths as sequences of components.
//!
//! Repeated separators and inner `.` components do not count, so two spellings of one path have the
//! same components.

use crate::chars;
use crate::chars::{chars_of, head, tail, text_of};
use crate::order;
use crate::order::is_bytes_less;
use vstd::prelude::*;
use vstd::string::StringExecFns;

verus! {

/// One mathematical path component.
pub enum Part {
    /// The root directory.
    Root,
    /// A leading `.`.
    Current,
    /// A `..`.
    Parent,
    /// A name.
    Normal(Seq<u8>),
}

/// The index of the first separator, or the length if there is none.
pub open spec fn separator_index(path: Seq<u8>) -> int
    decreases path.len(),
{
    if path.len() == 0 || path[0] == '/' as u8 {
        0
    } else {
        1 + separator_index(path.skip(1))
    }
}

/// The component that a segment between separators stands for.
pub open spec fn part_of(segment: Seq<u8>, leading: bool) -> Seq<Part> {
    if segment.len() == 0 {
        Seq::empty()
    } else if segment == seq!['.' as u8] {
        if leading {
            seq![Part::Current]
        } else {
            Seq::empty()
        }
    } else if segment == seq!['.' as u8, '.' as u8] {
        seq![Part::Parent]
    } else {
        seq![Part::Normal(segment)]
    }
}

/// The components of the segments of a path.
pub open spec fn parts_from(path: Seq<u8>, leading: bool) -> Seq<Part>
    decreases path.len(),
{
    let end = separator_index(path);
    if 0 <= end < path.len() {
        part_of(path.take(end), leading) + parts_from(path.skip(end + 1), false)
    } else {
        part_of(path, leading)
    }
}

/// The components of a path.
pub open spec fn parts(path: Seq<u8>) -> Seq<Part> {
    if path.len() > 0 && path[0] == '/' as u8 {
        seq![Part::Root] + parts_from(path, false)
    } else {
        parts_from(path, true)
    }
}

/// The components of a path that is text.
pub open spec fn text_parts(path: Seq<char>) -> Seq<Part> {
    parts(vstd::utf8::encode_utf8(path))
}

/// A path component.
#[derive(Debug)]
pub enum Component {
    /// The root directory.
    Root,
    /// A leading `.`.
    Current,
    /// A `..`.
    Parent,
    /// A name.
    Normal(Vec<u8>),
}

impl View for Component {
    type V = Part;

    open spec fn view(&self) -> Part {
        match self {
            Component::Root => Part::Root,
            Component::Current => Part::Current,
            Component::Parent => Part::Parent,
            Component::Normal(name) => Part::Normal(name@),
        }
    }
}

/// The mathematical components of a list.
pub open spec fn views(components: Seq<Component>) -> Seq<Part> {
    components.map_values(|component: Component| component@)
}

proof fn separator_index_is_first(path: Seq<u8>, index: int)
    requires
        0 <= index <= path.len(),
        forall|i: int| 0 <= i < index ==> path[i] != '/' as u8,
        index < path.len() ==> path[index] == '/' as u8,
    ensures
        separator_index(path) == index,
    decreases path.len(),
{
    if path.len() > 0 && index > 0 {
        assert(path[0] != '/' as u8);
        let tail = path.skip(1);
        assert forall|i: int| 0 <= i < index - 1 implies tail[i] != '/' as u8 by {
            assert(path[i + 1] != '/' as u8);
        }
        separator_index_is_first(tail, index - 1);
    }
}

fn copied(bytes: &[u8], start: usize, end: usize) -> (result: Vec<u8>)
    requires
        start <= end <= bytes@.len(),
    ensures
        result@ == bytes@.subrange(start as int, end as int),
{
    let mut result: Vec<u8> = Vec::new();
    let mut index: usize = start;
    while index < end
        invariant
            start <= index <= end <= bytes@.len(),
            result@ == bytes@.subrange(start as int, index as int),
        decreases end - index,
    {
        result.push(bytes[index]);
        index += 1;
        assert(result@ =~= bytes@.subrange(start as int, index as int));
    }
    result
}

fn push_segment(components: &mut Vec<Component>, segment: Vec<u8>, leading: bool)
    ensures
        views(final(components)@) == views(old(components)@) + part_of(segment@, leading),
{
    proof {
        assert(segment@ == seq!['.' as u8] ==> segment@.len() == 1);
        assert(segment@ == seq!['.' as u8, '.' as u8] ==> segment@.len() == 2);
    }
    if segment.len() == 0 {
        assert(views(components@) =~= views(old(components)@) + Seq::<Part>::empty());
    } else if segment.len() == 1 && segment[0] == '.' as u8 {
        assert(segment@ =~= seq!['.' as u8]);
        if leading {
            components.push(Component::Current);
        }
        assert(views(components@) =~= views(old(components)@) + part_of(segment@, leading));
    } else if segment.len() == 2 && segment[0] == '.' as u8 && segment[1] == '.' as u8 {
        assert(segment@ =~= seq!['.' as u8, '.' as u8]);
        components.push(Component::Parent);
        assert(views(components@) =~= views(old(components)@) + part_of(segment@, leading));
    } else {
        assert(segment@ != seq!['.' as u8] && segment@ != seq!['.' as u8, '.' as u8]);
        let ghost name = segment@;
        components.push(Component::Normal(segment));
        assert(views(components@) =~= views(old(components)@) + part_of(name, leading));
    }
}

/// Splits a path into its components.
pub fn components(path: &str) -> (result: Vec<Component>)
    ensures
        views(result@) == text_parts(path@),
{
    let bytes = path.as_bytes();
    let mut result: Vec<Component> = Vec::new();
    let mut leading = true;
    assert(views(result@) =~= Seq::<Part>::empty());
    if bytes.len() > 0 && bytes[0] == '/' as u8 {
        result.push(Component::Root);
        leading = false;
        assert(views(result@) =~= seq![Part::Root]);
    }
    let mut start: usize = 0;
    let mut index: usize = 0;
    assert(bytes@.skip(0) =~= bytes@);
    while index < bytes.len()
        invariant
            start <= index <= bytes@.len(),
            forall|i: int| start <= i < index ==> bytes@[i] != '/' as u8,
            views(result@) + parts_from(bytes@.skip(start as int), leading) == parts(bytes@),
        decreases bytes.len() - index,
    {
        if bytes[index] == '/' as u8 {
            let ghost tail = bytes@.skip(start as int);
            let segment = copied(bytes, start, index);
            proof {
                separator_index_is_first(tail, index - start);
                assert(tail.take(index - start) =~= segment@);
                assert(tail.skip(index - start + 1) =~= bytes@.skip(index + 1));
            }
            let ghost before = views(result@);
            push_segment(&mut result, segment, leading);
            proof {
                assert(before + (part_of(segment@, leading) + parts_from(
                    bytes@.skip(index + 1),
                    false,
                )) =~= views(result@) + parts_from(bytes@.skip(index + 1), false));
            }
            leading = false;
            start = index + 1;
        }
        index += 1;
    }
    let ghost tail = bytes@.skip(start as int);
    let segment = copied(bytes, start, bytes.len());
    proof {
        separator_index_is_first(tail, tail.len() as int);
        assert(tail =~= segment@);
    }
    push_segment(&mut result, segment, leading);
    result
}

/// Compares two components.
pub fn same_component(left: &Component, right: &Component) -> (result: bool)
    ensures
        result == (left@ == right@),
{
    match (left, right) {
        (Component::Root, Component::Root) => true,
        (Component::Current, Component::Current) => true,
        (Component::Parent, Component::Parent) => true,
        (Component::Normal(left), Component::Normal(right)) => crate::bytes::same(left, right),
        _ => false,
    }
}

/// Compares two lists of components.
pub fn same_components(left: &Vec<Component>, right: &Vec<Component>) -> (result: bool)
    ensures
        result == (views(left@) == views(right@)),
{
    if left.len() != right.len() {
        assert(views(left@).len() != views(right@).len());
        return false;
    }
    let mut index: usize = 0;
    while index < left.len()
        invariant
            index <= left@.len(),
            left@.len() == right@.len(),
            forall|i: int| 0 <= i < index ==> left@[i]@ == right@[i]@,
        decreases left.len() - index,
    {
        if !same_component(&left[index], &right[index]) {
            assert(views(left@)[index as int] != views(right@)[index as int]);
            return false;
        }
        index += 1;
    }
    assert(views(left@) =~= views(right@));
    true
}

/// A path starts with all components of a base.
pub open spec fn is_prefix_of(base: Seq<char>, path: Seq<char>) -> bool {
    text_parts(base).is_prefix_of(text_parts(path))
}

/// Tells whether a path starts with all components of a base.
pub fn is_below(path: &str, base: &str) -> (result: bool)
    ensures
        result == is_prefix_of(base@, path@),
{
    let (start, whole) = (components(base), components(path));
    let ghost (left, right) = (text_parts(base@), text_parts(path@));
    assert(left.len() == start@.len());
    assert(right.len() == whole@.len());
    if start.len() > whole.len() {
        return false;
    }
    let mut index: usize = 0;
    while index < start.len()
        invariant
            index <= start@.len() <= whole@.len(),
            left == text_parts(base@),
            right == text_parts(path@),
            left == views(start@),
            right == views(whole@),
            left.len() == start@.len(),
            right.len() == whole@.len(),
            forall|i: int| 0 <= i < index ==> left[i] == right[i],
        decreases start.len() - index,
    {
        assert(left[index as int] == start@[index as int]@);
        assert(right[index as int] == whole@[index as int]@);
        if !same_component(&start[index], &whole[index]) {
            assert(right.subrange(0, left.len() as int)[index as int] == right[index as int]);
            return false;
        }
        index += 1;
    }
    assert(left =~= right.subrange(0, left.len() as int));
    true
}

proof fn encoding_concatenates(left: Seq<char>, right: Seq<char>)
    ensures
        vstd::utf8::encode_utf8(left + right) == vstd::utf8::encode_utf8(left)
            + vstd::utf8::encode_utf8(right),
    decreases left.len(),
{
    if left.len() == 0 {
        assert(left + right =~= right);
        assert(vstd::utf8::encode_utf8(left) =~= Seq::<u8>::empty());
    } else {
        assert((left + right).drop_first() =~= left.drop_first() + right);
        encoding_concatenates(left.drop_first(), right);
        assert(vstd::utf8::encode_utf8(left + right) =~= vstd::utf8::encode_utf8(left)
            + vstd::utf8::encode_utf8(right));
    }
}

proof fn last_segment_stands_last(front: Seq<u8>, name: Seq<u8>, leading: bool)
    requires
        front.len() == 0 || front.last() == '/' as u8,
        name.len() > 2,
        forall|i: int| 0 <= i < name.len() ==> name[i] != '/' as u8,
    ensures
        parts_from(front + name, leading).len() > 0,
        parts_from(front + name, leading).last() == Part::Normal(name),
    decreases front.len(),
{
    let path = front + name;
    if front.len() == 0 {
        assert(path =~= name);
        separator_index_is_first(path, path.len() as int);
        assert(name != seq!['.' as u8] && name != seq!['.' as u8, '.' as u8]) by {
            assert(seq!['.' as u8].len() == 1);
            assert(seq!['.' as u8, '.' as u8].len() == 2);
        }
    } else {
        let end = first_separator(front, 0);
        assert forall|i: int| 0 <= i < end implies path[i] != '/' as u8 by {
            assert(path[i] == front[i]);
        }
        assert(path[end] == front[end]);
        separator_index_is_first(path, end);
        let rest = front.skip(end + 1);
        assert(path.skip(end + 1) =~= rest + name);
        if rest.len() > 0 {
            assert(rest.last() == front.last());
        }
        last_segment_stands_last(rest, name, false);
        assert(parts_from(path, leading) =~= part_of(path.take(end), leading) + parts_from(
            rest + name,
            false,
        ));
    }
}

proof fn first_separator(front: Seq<u8>, start: int) -> (end: int)
    requires
        0 <= start < front.len(),
        front.last() == '/' as u8,
        forall|i: int| 0 <= i < start ==> front[i] != '/' as u8,
    ensures
        start <= end < front.len(),
        front[end] == '/' as u8,
        forall|i: int| 0 <= i < end ==> front[i] != '/' as u8,
    decreases front.len() - start,
{
    if front[start] == '/' as u8 {
        start
    } else {
        first_separator(front, start + 1)
    }
}

/// A name that is put behind a base is the last component of the path.
pub proof fn joined_names_stand_last(base: Seq<char>, name: Seq<char>)
    requires
        vstd::utf8::is_ascii_chars(name),
        name.len() > 2,
        forall|i: int| 0 <= i < name.len() ==> name[i] != '/',
    ensures
        text_parts(joined(base, name)).len() > 0,
        text_parts(joined(base, name)).last() is Normal,
{
    let front = if base.len() == 0 || base.last() == '/' {
        base
    } else {
        base + seq!['/']
    };
    assert(joined(base, name) =~= front + name);
    encoding_concatenates(front, name);
    vstd::utf8::is_ascii_chars_encode_utf8(name);
    let bytes = vstd::utf8::encode_utf8(name);
    assert forall|i: int| 0 <= i < bytes.len() implies bytes[i] != '/' as u8 by {
        assert(bytes[i] == name[i] as u8);
        assert(name[i] != '/');
    }
    let first = vstd::utf8::encode_utf8(front);
    if front.len() > 0 {
        let start = front.drop_last();
        assert(front =~= start + seq!['/']);
        encoding_concatenates(start, seq!['/']);
        vstd::utf8::is_ascii_chars_encode_utf8(seq!['/']);
        assert(vstd::utf8::encode_utf8(seq!['/']).len() == 1);
        assert(first.last() == '/' as u8);
    }
    last_segment_stands_last(first, bytes, true);
    last_segment_stands_last(first, bytes, false);
}

/// The rank of a kind of component.
pub open spec fn kind_rank(part: Part) -> int {
    match part {
        Part::Root => 0,
        Part::Current => 1,
        Part::Parent => 2,
        Part::Normal(_) => 3,
    }
}

/// The order of components: the root, `.`, `..`, and then names by their bytes.
pub open spec fn part_less(left: Part, right: Part) -> bool {
    match (left, right) {
        (Part::Normal(left), Part::Normal(right)) => order::bytes_less(left, right),
        _ => kind_rank(left) < kind_rank(right),
    }
}

/// The order of component lists.
pub open spec fn parts_less(left: Seq<Part>, right: Seq<Part>) -> bool
    decreases left.len(),
{
    if right.len() == 0 {
        false
    } else if left.len() == 0 {
        true
    } else if left[0] != right[0] {
        part_less(left[0], right[0])
    } else {
        parts_less(left.skip(1), right.skip(1))
    }
}

/// The order of paths.
pub open spec fn path_less(left: Seq<char>, right: Seq<char>) -> bool {
    parts_less(text_parts(left), text_parts(right))
}

proof fn part_less_is_strict(left: Part, right: Part)
    ensures
        !part_less(left, left),
        !(part_less(left, right) && part_less(right, left)),
        left == right || part_less(left, right) || part_less(right, left),
{
    match (left, right) {
        (Part::Normal(l), Part::Normal(r)) => {
            order::bytes_less_irreflexive(l);
            order::bytes_less_total(l, r);
            if order::bytes_less(l, r) && order::bytes_less(r, l) {
                order::bytes_less_transitive(l, r, l);
            }
        },
        (Part::Normal(l), _) => {
            order::bytes_less_irreflexive(l);
        },
        _ => {},
    }
}

proof fn part_less_transitive(first: Part, second: Part, third: Part)
    requires
        part_less(first, second),
        part_less(second, third),
    ensures
        part_less(first, third),
{
    if let (Part::Normal(a), Part::Normal(b), Part::Normal(c)) = (first, second, third) {
        order::bytes_less_transitive(a, b, c);
    }
}

/// Of two component lists at most one comes first.
pub proof fn parts_less_asymmetric(left: Seq<Part>, right: Seq<Part>)
    requires
        parts_less(left, right),
    ensures
        !parts_less(right, left),
    decreases left.len(),
{
    if left.len() > 0 && right.len() > 0 {
        part_less_is_strict(left[0], right[0]);
        if left[0] == right[0] {
            parts_less_asymmetric(left.skip(1), right.skip(1));
        }
    }
}

/// The lists that do not come before one another are linked transitively.
pub proof fn parts_less_negatively_transitive(
    first: Seq<Part>,
    second: Seq<Part>,
    third: Seq<Part>,
)
    requires
        !parts_less(first, second),
        !parts_less(second, third),
    ensures
        !parts_less(first, third),
    decreases first.len(),
{
    if first.len() > 0 && second.len() > 0 && third.len() > 0 {
        part_less_is_strict(first[0], second[0]);
        part_less_is_strict(second[0], third[0]);
        part_less_is_strict(first[0], third[0]);
        if first[0] == second[0] && second[0] == third[0] {
            parts_less_negatively_transitive(first.skip(1), second.skip(1), third.skip(1));
        } else if first[0] != second[0] && second[0] != third[0] {
            part_less_transitive(third[0], second[0], first[0]);
        }
    }
}

fn is_part_less(left: &Component, right: &Component) -> (result: bool)
    ensures
        result == part_less(left@, right@),
{
    let left_rank: u8 = rank_of(left);
    let right_rank: u8 = rank_of(right);
    if let Component::Normal(left) = left {
        if let Component::Normal(right) = right {
            return is_bytes_less(left.as_slice(), right.as_slice());
        }
    }
    left_rank < right_rank
}

fn rank_of(component: &Component) -> (result: u8)
    ensures
        result == kind_rank(component@),
{
    match component {
        Component::Root => 0,
        Component::Current => 1,
        Component::Parent => 2,
        Component::Normal(_) => 3,
    }
}

/// Compares two paths.
pub fn is_path_less(first: &str, second: &str) -> (result: bool)
    ensures
        result == path_less(first@, second@),
{
    let left = components(first);
    let right = components(second);
    let ghost (l, r) = (views(left@), views(right@));
    let mut index: usize = 0;
    assert(l.skip(0) =~= l);
    assert(r.skip(0) =~= r);
    while index < left.len() && index < right.len()
        invariant
            index <= left@.len(),
            index <= right@.len(),
            l == views(left@),
            r == views(right@),
            l == text_parts(first@),
            r == text_parts(second@),
            parts_less(l.skip(index as int), r.skip(index as int)) == parts_less(l, r),
        decreases left.len() - index,
    {
        assert(l.skip(index as int)[0] == left@[index as int]@);
        assert(r.skip(index as int)[0] == right@[index as int]@);
        if !same_component(&left[index], &right[index]) {
            return is_part_less(&left[index], &right[index]);
        }
        assert(l.skip(index as int).skip(1) =~= l.skip(index + 1));
        assert(r.skip(index as int).skip(1) =~= r.skip(index + 1));
        index += 1;
    }
    assert(l.len() == left@.len() && r.len() == right@.len());
    index < right.len()
}

/// A path behind a base, as text: an absolute one stands alone, another one follows a separator.
pub open spec fn joined(base: Seq<char>, path: Seq<char>) -> Seq<char> {
    if path.len() > 0 && path[0] == '/' {
        path
    } else if base.len() == 0 || base.last() == '/' {
        base + path
    } else {
        base + seq!['/'] + path
    }
}

/// Puts a path behind a base.
pub fn join(base: &str, path: &str) -> (result: String)
    ensures
        result@ == joined(base@, path@),
{
    let tail = chars_of(path);
    let mut result = String::new();
    if tail.len() > 0 && tail[0] == '/' {
        result.append(path);
        assert(result@ =~= path@);
        return result;
    }
    let front = chars_of(base);
    result.append(base);
    if front.len() > 0 && front[front.len() - 1] != '/' {
        result.push('/');
    }
    result.append(path);
    assert(result@ =~= joined(base@, path@));
    result
}

/// Names below a base, one below the other.
pub open spec fn below(base: Seq<char>, names: Seq<Seq<char>>) -> Seq<char>
    decreases names.len(),
{
    if names.len() == 0 {
        base
    } else {
        joined(below(base, names.drop_last()), names.last())
    }
}

/// A path is absolute.
pub open spec fn absolute(path: Seq<char>) -> bool {
    path.len() > 0 && path[0] == '/'
}

/// Tells whether a path is absolute.
pub fn is_absolute(path: &str) -> (result: bool)
    ensures
        result == absolute(path@),
{
    let chars = chars_of(path);
    chars.len() > 0 && chars[0] == '/'
}

/// A path without trailing separators and trailing `.` components.
pub open spec fn trimmed(path: Seq<char>) -> Seq<char>
    decreases path.len(),
{
    if path.len() > 1 && path.last() == '/' {
        trimmed(path.drop_last())
    } else if path.len() > 1 && path.last() == '.' && path[path.len() - 2] == '/' {
        trimmed(path.drop_last())
    } else {
        path
    }
}

/// The index behind the last separator, or zero if there is none.
pub open spec fn name_index(path: Seq<char>) -> int
    decreases path.len(),
{
    if path.len() == 0 || path.last() == '/' {
        path.len() as int
    } else {
        name_index(path.drop_last())
    }
}

/// The directory of a path.
pub open spec fn parent_of(path: Seq<char>) -> Option<Seq<char>> {
    let bare = trimmed(path);
    if bare.len() == 0 || bare == seq!['/'] {
        None
    } else {
        Some(trimmed(bare.take(name_index(bare))))
    }
}

/// The last name of a path.
pub open spec fn name_of(path: Seq<char>) -> Option<Seq<char>> {
    let bare = trimmed(path);
    let name = bare.skip(name_index(bare));
    if name.len() == 0 || name == seq!['.'] || name == seq!['.', '.'] {
        None
    } else {
        Some(name)
    }
}

fn trimmed_length(chars: &[char]) -> (result: usize)
    ensures
        result <= chars@.len(),
        chars@.take(result as int) == trimmed(chars@),
{
    let mut end: usize = chars.len();
    assert(chars@.take(end as int) =~= chars@);
    while end > 1 && (chars[end - 1] == '/' || (chars[end - 1] == '.' && chars[end - 2] == '/'))
        invariant
            end <= chars@.len(),
            trimmed(chars@.take(end as int)) == trimmed(chars@),
        decreases end,
    {
        assert(chars@.take(end as int).drop_last() =~= chars@.take(end - 1));
        end -= 1;
    }
    end
}

fn name_start(chars: &[char]) -> (result: usize)
    ensures
        result == name_index(chars@),
        result <= chars@.len(),
{
    let mut start: usize = chars.len();
    assert(chars@.take(start as int) =~= chars@);
    while start > 0 && chars[start - 1] != '/'
        invariant
            start <= chars@.len(),
            name_index(chars@.take(start as int)) == name_index(chars@),
        decreases start,
    {
        assert(chars@.take(start as int).drop_last() =~= chars@.take(start - 1));
        start -= 1;
    }
    start
}

/// Returns the directory of a path.
pub fn parent(path: &str) -> (result: Option<String>)
    ensures
        chars::option_view(result) == parent_of(path@),
{
    let all = chars_of(path);
    let length: usize = trimmed_length(all.as_slice());
    let bare = head(all.as_slice(), length);
    if bare.len() == 0 || (bare.len() == 1 && bare[0] == '/') {
        assert(bare@ =~= Seq::empty() || bare@ =~= seq!['/']);
        return None;
    }
    assert(bare@ != seq!['/']) by {
        if bare@ =~= seq!['/'] {
            assert(bare@[0] == '/');
        }
    }
    let directory = head(bare, name_start(bare));
    let end: usize = trimmed_length(directory);
    Some(text_of(head(directory, end)))
}

/// Returns the last name of a path.
pub fn file_name(path: &str) -> (result: Option<String>)
    ensures
        chars::option_view(result) == name_of(path@),
{
    let all = chars_of(path);
    let length: usize = trimmed_length(all.as_slice());
    let bare = head(all.as_slice(), length);
    let name = tail(bare, name_start(bare));
    proof {
        assert(name@.len() == 1 && name@[0] == '.' ==> name@ =~= seq!['.']);
        assert(name@.len() == 2 && name@[0] == '.' && name@[1] == '.' ==> name@ =~= seq!['.', '.']);
        assert(name@ == seq!['.'] ==> name@.len() == 1 && name@[0] == '.');
        assert(name@ == seq!['.', '.'] ==> name@.len() == 2 && name@[0] == '.' && name@[1] == '.');
    }
    if name.len() == 0 || (name.len() == 1 && name[0] == '.') || (name.len() == 2 && name[0] == '.'
        && name[1] == '.') {
        None
    } else {
        Some(text_of(name))
    }
}

} // verus!

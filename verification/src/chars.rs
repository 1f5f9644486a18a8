//! Texts as sequences of characters: searching, splitting, trimming and joining.

use vstd::prelude::*;

verus! {

/// Appends a character with `String::push`.
pub assume_specification[ std::string::String::push ](s: &mut std::string::String, ch: char)
    ensures
        final(s)@ == old(s)@.push(ch),
;

/// Copies the characters of a text.
pub fn chars_of(text: &str) -> (result: Vec<char>)
    ensures
        result@ == text@,
{
    broadcast use vstd::string::axiom_spec_iter;

    let mut chars: Vec<char> = Vec::new();
    for character in iter: text.chars()
        invariant
            iter.seq() == text@,
            chars@ == text@.take(iter.index() as int),
    {
        chars.push(character);
        assert(chars@ =~= text@.take(iter.index() + 1));
    }
    assert(chars@ =~= text@);
    chars
}

/// Builds a text from characters.
pub fn text_of(chars: &[char]) -> (result: String)
    ensures
        result@ == chars@,
{
    let mut text = String::new();
    let mut index: usize = 0;
    assert(text@ =~= chars@.take(0));
    while index < chars.len()
        invariant
            index <= chars@.len(),
            text@ == chars@.take(index as int),
        decreases chars.len() - index,
    {
        text.push(chars[index]);
        assert(text@ =~= chars@.take(index + 1));
        index += 1;
    }
    assert(text@ =~= chars@);
    text
}

/// The texts of a list.
pub open spec fn views(texts: Seq<String>) -> Seq<Seq<char>> {
    texts.map_values(|text: String| text@)
}

/// The texts of an optional text.
pub open spec fn option_view(text: Option<String>) -> Option<Seq<char>> {
    match text {
        Some(text) => Some(text@),
        None => None,
    }
}

/// Adding a text to a list adds its characters.
pub proof fn views_push(texts: Seq<String>, text: String)
    ensures
        views(texts.push(text)) == views(texts).push(text@),
{
    assert(views(texts.push(text)) =~= views(texts).push(text@));
}

/// Returns the part of a slice from an index on.
pub fn tail(chars: &[char], start: usize) -> (result: &[char])
    requires
        start <= chars@.len(),
    ensures
        result@ == chars@.skip(start as int),
{
    let (_, result) = chars.split_at(start);
    assert(result@ =~= chars@.skip(start as int));
    result
}

/// Returns the part of a slice before an index.
pub fn head(chars: &[char], end: usize) -> (result: &[char])
    requires
        end <= chars@.len(),
    ensures
        result@ == chars@.take(end as int),
{
    let (result, _) = chars.split_at(end);
    assert(result@ =~= chars@.take(end as int));
    result
}

/// Tells whether a slice starts with a pattern.
pub fn has_prefix(chars: &[char], pattern: &[char]) -> (result: bool)
    ensures
        result == pattern@.is_prefix_of(chars@),
{
    if pattern.len() > chars.len() {
        return false;
    }
    let mut index: usize = 0;
    while index < pattern.len()
        invariant
            index <= pattern@.len() <= chars@.len(),
            forall|i: int| 0 <= i < index ==> pattern@[i] == chars@[i],
        decreases pattern.len() - index,
    {
        if pattern[index] != chars[index] {
            assert(chars@.subrange(0, pattern@.len() as int)[index as int]
                != pattern@[index as int]);
            return false;
        }
        index += 1;
    }
    assert(pattern@ =~= chars@.subrange(0, pattern@.len() as int));
    true
}

/// Tells whether a slice ends with a pattern.
pub fn has_suffix(chars: &[char], pattern: &[char]) -> (result: bool)
    ensures
        result == pattern@.is_suffix_of(chars@),
{
    if pattern.len() > chars.len() {
        return false;
    }
    let start: usize = chars.len() - pattern.len();
    let rest = tail(chars, start);
    let result = has_prefix(rest, pattern);
    proof {
        assert(rest@ =~= chars@.subrange(start as int, chars@.len() as int));
        assert(rest@.subrange(0, pattern@.len() as int) =~= rest@);
    }
    result
}

/// The index at which a pattern first occurs.
pub open spec fn first_match(text: Seq<char>, pattern: Seq<char>) -> Option<int>
    decreases text.len(),
{
    if pattern.is_prefix_of(text) {
        Some(0)
    } else if text.len() == 0 {
        None
    } else {
        match first_match(text.skip(1), pattern) {
            Some(index) => Some(index + 1),
            None => None,
        }
    }
}

/// The index at which a pattern last occurs.
pub open spec fn last_match(text: Seq<char>, pattern: Seq<char>) -> Option<int>
    decreases text.len(),
{
    if pattern.is_suffix_of(text) {
        Some(text.len() - pattern.len())
    } else if text.len() == 0 {
        None
    } else {
        last_match(text.drop_last(), pattern)
    }
}

/// A first match lies in the text.
pub proof fn first_match_bounds(text: Seq<char>, pattern: Seq<char>)
    ensures
        first_match(text, pattern) matches Some(index) ==> {
            &&& 0 <= index
            &&& index + pattern.len() <= text.len()
            &&& text.subrange(index, index + pattern.len()) == pattern
        },
    decreases text.len(),
{
    if !pattern.is_prefix_of(text) && text.len() > 0 {
        first_match_bounds(text.skip(1), pattern);
        if let Some(index) = first_match(text.skip(1), pattern) {
            assert(text.skip(1).subrange(index, index + pattern.len()) =~= text.subrange(
                index + 1,
                index + 1 + pattern.len(),
            ));
        }
    }
}

/// A last match lies in the text.
pub proof fn last_match_bounds(text: Seq<char>, pattern: Seq<char>)
    ensures
        last_match(text, pattern) matches Some(index) ==> {
            &&& 0 <= index
            &&& index + pattern.len() <= text.len()
            &&& text.subrange(index, index + pattern.len()) == pattern
        },
    decreases text.len(),
{
    if !pattern.is_suffix_of(text) && text.len() > 0 {
        last_match_bounds(text.drop_last(), pattern);
        if let Some(index) = last_match(text.drop_last(), pattern) {
            assert(text.drop_last().subrange(index, index + pattern.len()) =~= text.subrange(
                index,
                index + pattern.len(),
            ));
        }
    }
}

/// The first match is the smallest index at which the pattern stands. Without a match the pattern
/// stands nowhere.
pub proof fn first_matches_come_first(text: Seq<char>, pattern: Seq<char>, index: int)
    requires
        0 <= index,
        index + pattern.len() <= text.len(),
        text.subrange(index, index + pattern.len()) == pattern,
    ensures
        first_match(text, pattern) matches Some(first) && first <= index,
    decreases text.len(),
{
    if pattern.is_prefix_of(text) {
    } else if index == 0 {
        assert(text.subrange(0, pattern.len() as int) == pattern);
    } else {
        assert(text.skip(1).subrange(index - 1, index - 1 + pattern.len()) =~= text.subrange(
            index,
            index + pattern.len(),
        ));
        first_matches_come_first(text.skip(1), pattern, index - 1);
    }
}

/// The last match is the largest index at which the pattern stands. Without a match the pattern
/// stands nowhere.
pub proof fn last_matches_come_last(text: Seq<char>, pattern: Seq<char>, index: int)
    requires
        0 <= index,
        index + pattern.len() <= text.len(),
        text.subrange(index, index + pattern.len()) == pattern,
    ensures
        last_match(text, pattern) matches Some(last) && index <= last,
    decreases text.len(),
{
    if pattern.is_suffix_of(text) {
    } else if index + pattern.len() == text.len() {
        assert(text.subrange(text.len() - pattern.len(), text.len() as int) == pattern);
    } else {
        assert(text.drop_last().subrange(index, index + pattern.len()) =~= text.subrange(
            index,
            index + pattern.len(),
        ));
        last_matches_come_last(text.drop_last(), pattern, index);
    }
}

/// A text contains a pattern exactly if the pattern stands at some index of it.
pub proof fn contained_patterns_stand_somewhere(text: Seq<char>, pattern: Seq<char>)
    ensures
        has(text, pattern) <==> exists|index: int|
            0 <= index && index + pattern.len() <= text.len() && #[trigger] text.subrange(
                index,
                index + pattern.len(),
            ) == pattern,
{
    first_match_bounds(text, pattern);
    if let Some(index) = first_match(text, pattern) {
        assert(text.subrange(index, index + pattern.len()) == pattern);
    }
    assert forall|index: int|
        0 <= index && index + pattern.len() <= text.len() && #[trigger] text.subrange(
            index,
            index + pattern.len(),
        ) == pattern implies has(text, pattern) by {
        first_matches_come_first(text, pattern, index);
    }
}

/// Finds where a pattern first occurs.
pub fn find_first(chars: &[char], pattern: &[char]) -> (result: Option<usize>)
    ensures
        match result {
            Some(index) => first_match(chars@, pattern@) == Some(index as int),
            None => first_match(chars@, pattern@) is None,
        },
        result matches Some(index) ==> index + pattern.len() <= chars.len(),
{
    let mut index: usize = 0;
    proof {
        assert(chars@.skip(0) =~= chars@);
        first_match_bounds(chars@, pattern@);
    }
    loop
        invariant
            index <= chars@.len(),
            first_match(chars@, pattern@) == (match first_match(
                chars@.skip(index as int),
                pattern@,
            ) {
                Some(found) => Some(found + index),
                None => None,
            }),
            first_match(chars@, pattern@) matches Some(found) ==> found + pattern@.len()
                <= chars@.len(),
        decreases chars.len() - index,
    {
        if has_prefix(tail(chars, index), pattern) {
            return Some(index);
        }
        if index == chars.len() {
            return None;
        }
        assert(chars@.skip(index as int).skip(1) =~= chars@.skip(index + 1));
        index += 1;
    }
}

/// Finds where a pattern last occurs.
pub fn find_last(chars: &[char], pattern: &[char]) -> (result: Option<usize>)
    ensures
        match result {
            Some(index) => last_match(chars@, pattern@) == Some(index as int),
            None => last_match(chars@, pattern@) is None,
        },
        result matches Some(index) ==> index + pattern.len() <= chars.len(),
{
    let mut end: usize = chars.len();
    proof {
        assert(chars@.take(end as int) =~= chars@);
        last_match_bounds(chars@, pattern@);
    }
    loop
        invariant
            end <= chars@.len(),
            last_match(chars@, pattern@) == last_match(chars@.take(end as int), pattern@),
            last_match(chars@, pattern@) matches Some(found) ==> found + pattern@.len()
                <= chars@.len(),
        decreases end,
    {
        if has_suffix(head(chars, end), pattern) {
            return Some(end - pattern.len());
        }
        if end == 0 {
            return None;
        }
        assert(chars@.take(end as int).drop_last() =~= chars@.take(end - 1));
        end -= 1;
    }
}

/// Tells whether a text starts with a pattern.
pub fn starts_with(text: &str, pattern: &str) -> (result: bool)
    ensures
        result == pattern@.is_prefix_of(text@),
{
    has_prefix(chars_of(text).as_slice(), chars_of(pattern).as_slice())
}

/// Tells whether a text ends with a pattern.
pub fn ends_with(text: &str, pattern: &str) -> (result: bool)
    ensures
        result == pattern@.is_suffix_of(text@),
{
    has_suffix(chars_of(text).as_slice(), chars_of(pattern).as_slice())
}

/// A text contains a pattern.
pub open spec fn has(text: Seq<char>, pattern: Seq<char>) -> bool {
    first_match(text, pattern) is Some
}

/// Tells whether a text contains a pattern.
pub fn contains(text: &str, pattern: &str) -> (result: bool)
    ensures
        result == has(text@, pattern@),
{
    find_first(chars_of(text).as_slice(), chars_of(pattern).as_slice()).is_some()
}

/// A text behind a prefix.
pub open spec fn behind(text: Seq<char>, prefix: Seq<char>) -> Option<Seq<char>> {
    if prefix.is_prefix_of(text) {
        Some(text.skip(prefix.len() as int))
    } else {
        None
    }
}

/// A text before a suffix.
pub open spec fn before(text: Seq<char>, suffix: Seq<char>) -> Option<Seq<char>> {
    if suffix.is_suffix_of(text) {
        Some(text.take(text.len() - suffix.len()))
    } else {
        None
    }
}

/// Removes a prefix.
pub fn strip_prefix(text: &str, prefix: &str) -> (result: Option<String>)
    ensures
        option_view(result) == behind(text@, prefix@),
{
    let chars = chars_of(text);
    let pattern = chars_of(prefix);
    if has_prefix(chars.as_slice(), pattern.as_slice()) {
        Some(text_of(tail(chars.as_slice(), pattern.len())))
    } else {
        None
    }
}

/// Removes a suffix.
pub fn strip_suffix(text: &str, suffix: &str) -> (result: Option<String>)
    ensures
        option_view(result) == before(text@, suffix@),
{
    let chars = chars_of(text);
    let pattern = chars_of(suffix);
    if has_suffix(chars.as_slice(), pattern.as_slice()) {
        Some(text_of(head(chars.as_slice(), chars.len() - pattern.len())))
    } else {
        None
    }
}

/// The texts on both sides of a match.
pub open spec fn sides(text: Seq<char>, pattern: Seq<char>, index: Option<int>) -> Option<
    (Seq<char>, Seq<char>),
> {
    match index {
        Some(index) => Some((text.take(index), text.skip(index + pattern.len()))),
        None => None,
    }
}

/// The texts on both sides of the first match.
pub open spec fn split_first(text: Seq<char>, pattern: Seq<char>) -> Option<
    (Seq<char>, Seq<char>),
> {
    sides(text, pattern, first_match(text, pattern))
}

/// The texts on both sides of the last match.
pub open spec fn split_last(text: Seq<char>, pattern: Seq<char>) -> Option<
    (Seq<char>, Seq<char>),
> {
    sides(text, pattern, last_match(text, pattern))
}

/// Two texts, if there are any.
pub open spec fn pair_view(pair: Option<(String, String)>) -> Option<(Seq<char>, Seq<char>)> {
    match pair {
        Some(pair) => Some((pair.0@, pair.1@)),
        None => None,
    }
}

/// Splits a text at the first match.
pub fn split_once(text: &str, pattern: &str) -> (result: Option<(String, String)>)
    ensures
        pair_view(result) == split_first(text@, pattern@),
{
    let chars = chars_of(text);
    let pattern = chars_of(pattern);
    match find_first(chars.as_slice(), pattern.as_slice()) {
        Some(index) => Some(
            (
                text_of(head(chars.as_slice(), index)),
                text_of(tail(chars.as_slice(), index + pattern.len())),
            ),
        ),
        None => None,
    }
}

/// Splits a text at the last match.
pub fn rsplit_once(text: &str, pattern: &str) -> (result: Option<(String, String)>)
    ensures
        pair_view(result) == split_last(text@, pattern@),
{
    let chars = chars_of(text);
    let pattern = chars_of(pattern);
    match find_last(chars.as_slice(), pattern.as_slice()) {
        Some(index) => Some(
            (
                text_of(head(chars.as_slice(), index)),
                text_of(tail(chars.as_slice(), index + pattern.len())),
            ),
        ),
        None => None,
    }
}

/// A character with the Unicode property `White_Space`.
pub open spec fn white(character: char) -> bool {
    let code = character as u32;
    ||| 0x9 <= code <= 0xd
    ||| code == 0x20
    ||| code == 0x85
    ||| code == 0xa0
    ||| code == 0x1680
    ||| 0x2000 <= code <= 0x200a
    ||| code == 0x2028
    ||| code == 0x2029
    ||| code == 0x202f
    ||| code == 0x205f
    ||| code == 0x3000
}

/// Tells whether a character is white space.
pub fn is_white(character: char) -> (result: bool)
    ensures
        result == white(character),
{
    let code: u32 = character as u32;
    (0x9 <= code && code <= 0xd) || code == 0x20 || code == 0x85 || code == 0xa0 || code == 0x1680
        || (0x2000 <= code && code <= 0x200a) || code == 0x2028 || code == 0x2029 || code == 0x202f
        || code == 0x205f || code == 0x3000
}

/// A text without its leading white space.
pub open spec fn trimmed_start(text: Seq<char>) -> Seq<char>
    decreases text.len(),
{
    if text.len() > 0 && white(text[0]) {
        trimmed_start(text.skip(1))
    } else {
        text
    }
}

/// A text without its trailing white space.
pub open spec fn trimmed_end(text: Seq<char>) -> Seq<char>
    decreases text.len(),
{
    if text.len() > 0 && white(text.last()) {
        trimmed_end(text.drop_last())
    } else {
        text
    }
}

/// A text without white space at its ends.
pub open spec fn trimmed(text: Seq<char>) -> Seq<char> {
    trimmed_end(trimmed_start(text))
}

/// Removes white space at both ends.
pub fn trim(text: &str) -> (result: String)
    ensures
        result@ == trimmed(text@),
{
    let chars = chars_of(text);
    let mut start: usize = 0;
    assert(chars@.skip(0) =~= chars@);
    while start < chars.len() && is_white(chars[start])
        invariant
            start <= chars@.len(),
            trimmed_start(chars@.skip(start as int)) == trimmed_start(chars@),
        decreases chars.len() - start,
    {
        assert(chars@.skip(start as int).skip(1) =~= chars@.skip(start + 1));
        start += 1;
    }
    let rest = tail(chars.as_slice(), start);
    assert(rest@ == trimmed_start(chars@));
    let mut end: usize = rest.len();
    assert(rest@.take(end as int) =~= rest@);
    while end > 0 && is_white(rest[end - 1])
        invariant
            end <= rest@.len(),
            trimmed_end(rest@.take(end as int)) == trimmed_end(rest@),
        decreases end,
    {
        assert(rest@.take(end as int).drop_last() =~= rest@.take(end - 1));
        end -= 1;
    }
    text_of(head(rest, end))
}

/// The length of the first line with its line feed.
pub open spec fn piece_length(text: Seq<char>) -> int
    decreases text.len(),
{
    if text.len() == 0 {
        0
    } else if text[0] == '\n' {
        1
    } else {
        1 + piece_length(text.skip(1))
    }
}

/// The first line is part of the text.
pub proof fn piece_length_bounds(text: Seq<char>)
    ensures
        0 <= piece_length(text) <= text.len(),
        text.len() > 0 ==> piece_length(text) > 0,
    decreases text.len(),
{
    if text.len() > 0 && text[0] != '\n' {
        piece_length_bounds(text.skip(1));
    }
}

/// The lines of a text with their line feeds.
pub open spec fn pieces(text: Seq<char>) -> Seq<Seq<char>>
    decreases text.len(),
{
    if text.len() == 0 {
        Seq::empty()
    } else {
        let length = piece_length(text);
        proof {
            piece_length_bounds(text);
        }
        seq![text.take(length)] + pieces(text.skip(length))
    }
}

/// Splits a text behind its line feeds.
pub fn split_pieces(text: &str) -> (result: Vec<String>)
    ensures
        views(result@) == pieces(text@),
{
    let chars = chars_of(text);
    let mut list: Vec<String> = Vec::new();
    let mut start: usize = 0;
    assert(chars@.skip(0) =~= chars@);
    assert(views(list@) + pieces(chars@) =~= pieces(chars@));
    while start < chars.len()
        invariant
            start <= chars@.len(),
            views(list@) + pieces(chars@.skip(start as int)) == pieces(chars@),
        decreases chars.len() - start,
    {
        let rest = tail(chars.as_slice(), start);
        let mut length: usize = 0;
        assert(rest@.skip(0) =~= rest@);
        while length < rest.len() && rest[length] != '\n'
            invariant
                length <= rest@.len(),
                piece_length(rest@) == length + piece_length(rest@.skip(length as int)),
            decreases rest.len() - length,
        {
            assert(rest@.skip(length as int).skip(1) =~= rest@.skip(length + 1));
            length += 1;
        }
        if length < rest.len() {
            length += 1;
        }
        assert(length == piece_length(rest@));
        let piece = text_of(head(rest, length));
        let ghost before = list@;
        list.push(piece);
        proof {
            views_push(before, piece);
            assert(rest@.skip(length as int) =~= chars@.skip(start + length));
            assert(views(list@) + pieces(rest@.skip(length as int)) =~= views(before) + pieces(
                rest@,
            ));
        }
        start += length;
    }
    assert(views(list@) + pieces(chars@.skip(start as int)) =~= views(list@));
    list
}

/// A line without its line feed and the carriage return before it.
pub open spec fn line_of(piece: Seq<char>) -> Seq<char> {
    if piece.len() > 0 && piece.last() == '\n' {
        let line = piece.drop_last();
        if line.len() > 0 && line.last() == '\r' {
            line.drop_last()
        } else {
            line
        }
    } else {
        piece
    }
}

/// The lines of a text.
pub open spec fn lines_of(text: Seq<char>) -> Seq<Seq<char>> {
    pieces(text).map_values(|piece: Seq<char>| line_of(piece))
}

/// Removes the end of a line.
pub fn strip_line_end(piece: &str) -> (result: String)
    ensures
        result@ == line_of(piece@),
{
    let chars = chars_of(piece);
    let mut end: usize = chars.len();
    if end > 0 && chars[end - 1] == '\n' {
        end -= 1;
        if end > 0 && chars[end - 1] == '\r' {
            end -= 1;
        }
    }
    let result = text_of(head(chars.as_slice(), end));
    assert(result@ =~= line_of(piece@));
    result
}

/// Splits a text into its lines.
pub fn lines(text: &str) -> (result: Vec<String>)
    ensures
        views(result@) == lines_of(text@),
{
    let list = split_pieces(text);
    let mut result: Vec<String> = Vec::new();
    let mut index: usize = 0;
    while index < list.len()
        invariant
            index <= list@.len(),
            views(list@) == pieces(text@),
            views(result@) == lines_of(text@).take(index as int),
        decreases list.len() - index,
    {
        let line = strip_line_end(list[index].as_str());
        let ghost before = result@;
        result.push(line);
        proof {
            views_push(before, line);
            assert(views(list@)[index as int] == list@[index as int]@);
            assert(views(result@) =~= lines_of(text@).take(index + 1));
        }
        index += 1;
    }
    assert(views(list@).len() == list@.len());
    assert(views(result@) =~= lines_of(text@));
    result
}

/// Texts with a separator between them.
pub open spec fn joined(texts: Seq<Seq<char>>, separator: Seq<char>) -> Seq<char>
    decreases texts.len(),
{
    if texts.len() == 0 {
        Seq::empty()
    } else if texts.len() == 1 {
        texts[0]
    } else {
        joined(texts.drop_last(), separator) + separator + texts.last()
    }
}

/// Joins texts.
pub fn join(texts: &Vec<String>, separator: &str) -> (result: String)
    ensures
        result@ == joined(views(texts@), separator@),
{
    let ghost all = views(texts@);
    let mut result = String::new();
    let mut index: usize = 0;
    assert(result@ =~= joined(all.take(0), separator@));
    while index < texts.len()
        invariant
            index <= texts@.len(),
            all == views(texts@),
            result@ == joined(all.take(index as int), separator@),
        decreases texts.len() - index,
    {
        let ghost before = all.take(index as int);
        let ghost after = all.take(index + 1);
        assert(after.drop_last() =~= before);
        assert(after.last() == texts@[index as int]@);
        if index > 0 {
            push_text(&mut result, separator);
        }
        push_text(&mut result, texts[index].as_str());
        proof {
            if index == 0 {
                assert(after.len() == 1);
                assert(result@ =~= joined(after, separator@));
            }
        }
        index += 1;
    }
    assert(all.take(all.len() as int) =~= all);
    result
}

/// A text with one character in place of another.
pub open spec fn replaced(text: Seq<char>, from: char, to: char) -> Seq<char> {
    text.map_values(
        |character: char|
            if character == from {
                to
            } else {
                character
            },
    )
}

/// Puts one character in place of another.
pub fn replace_char(text: &str, from: char, to: char) -> (result: String)
    ensures
        result@ == replaced(text@, from, to),
{
    let chars = chars_of(text);
    let mut result = String::from_str("");
    let mut index: usize = 0;
    proof {
        reveal_strlit("");
        assert(result@ =~= replaced(text@, from, to).take(0));
    }
    while index < chars.len()
        invariant
            index <= chars@.len(),
            chars@ == text@,
            result@ == replaced(text@, from, to).take(index as int),
        decreases chars.len() - index,
    {
        let character = chars[index];
        if character == from {
            result.push(to);
        } else {
            result.push(character);
        }
        assert(result@ =~= replaced(text@, from, to).take(index + 1));
        index += 1;
    }
    assert(result@ =~= replaced(text@, from, to));
    result
}

/// Appends a text.
pub fn push_text(text: &mut String, more: &str)
    ensures
        final(text)@ == old(text)@ + more@,
{
    vstd::string::StringExecFns::append(text, more);
}

/// Adds a text to a list.
pub fn add_text(texts: &mut Vec<String>, text: &str)
    ensures
        views(final(texts)@) == views(old(texts)@).push(text@),
{
    let mut copy = String::new();
    push_text(&mut copy, text);
    assert(copy@ =~= text@);
    texts.push(copy);
    proof {
        views_push(old(texts)@, copy);
    }
}

/// Starts a list without texts.
pub fn no_texts() -> (result: Vec<String>)
    ensures
        views(result@) == Seq::<Seq<char>>::empty(),
{
    let result: Vec<String> = Vec::new();
    assert(views(result@) =~= Seq::<Seq<char>>::empty());
    result
}

/// Copies an optional text.
pub fn copy_option(text: &Option<String>) -> (result: Option<String>)
    ensures
        option_view(result) == option_view(*text),
{
    match text {
        Some(text) => Some(text.clone()),
        None => None,
    }
}

/// Copies a list of texts.
pub fn copy_texts(texts: &Vec<String>) -> (result: Vec<String>)
    ensures
        result@ == texts@,
{
    let mut result: Vec<String> = Vec::new();
    let mut index: usize = 0;
    while index < texts.len()
        invariant
            index <= texts@.len(),
            result@ == texts@.take(index as int),
        decreases texts.len() - index,
    {
        result.push(texts[index].clone());
        assert(result@ =~= texts@.take(index + 1));
        index += 1;
    }
    assert(result@ =~= texts@);
    result
}

} // verus!

//! Byte classes and byte comparisons shared by the parsers.

use vstd::prelude::*;

verus! {

/// The ASCII whitespace class: tab, line feed, form feed, carriage return and space.
pub open spec fn space(byte: u8) -> bool {
    byte == 0x09 || byte == 0x0a || byte == 0x0c || byte == 0x0d || byte == 0x20
}

/// The ASCII decimal digits.
pub open spec fn digit(byte: u8) -> bool {
    '0' as u8 <= byte <= '9' as u8
}

/// The ASCII letters.
pub open spec fn letter(byte: u8) -> bool {
    ('a' as u8 <= byte <= 'z' as u8) || ('A' as u8 <= byte <= 'Z' as u8)
}

/// The ASCII hexadecimal digits in either case.
pub open spec fn hex_digit(byte: u8) -> bool {
    digit(byte) || ('a' as u8 <= byte <= 'f' as u8) || ('A' as u8 <= byte <= 'F' as u8)
}

/// The number that a hexadecimal digit stands for.
pub open spec fn hex_value(byte: u8) -> int {
    if digit(byte) {
        byte - '0' as u8
    } else if 'a' as u8 <= byte <= 'f' as u8 {
        byte - 'a' as u8 + 10
    } else {
        byte - 'A' as u8 + 10
    }
}

/// The bytes equal the UTF-8 encoding of a text.
pub open spec fn reads(bytes: Seq<u8>, text: Seq<char>) -> bool {
    bytes == vstd::utf8::encode_utf8(text)
}

/// The bytes are not empty and start with one given byte.
pub open spec fn opens_with(bytes: Seq<u8>, first: u8) -> bool {
    bytes.len() > 0 && bytes[0] == first
}

/// Tells whether a byte is ASCII whitespace.
pub fn is_space(byte: u8) -> (result: bool)
    ensures
        result == space(byte),
{
    byte == 0x09 || byte == 0x0a || byte == 0x0c || byte == 0x0d || byte == 0x20
}

/// Tells whether a byte is an ASCII decimal digit.
pub fn is_digit(byte: u8) -> (result: bool)
    ensures
        result == digit(byte),
{
    '0' as u8 <= byte && byte <= '9' as u8
}

/// Tells whether a byte is an ASCII letter.
pub fn is_letter(byte: u8) -> (result: bool)
    ensures
        result == letter(byte),
{
    ('a' as u8 <= byte && byte <= 'z' as u8) || ('A' as u8 <= byte && byte <= 'Z' as u8)
}

/// Tells whether a byte is an ASCII hexadecimal digit.
pub fn is_hex_digit(byte: u8) -> (result: bool)
    ensures
        result == hex_digit(byte),
{
    is_digit(byte) || ('a' as u8 <= byte && byte <= 'f' as u8) || ('A' as u8 <= byte && byte
        <= 'F' as u8)
}

/// Converts one hexadecimal digit to its number.
pub fn hex(byte: u8) -> (result: u8)
    requires
        hex_digit(byte),
    ensures
        result == hex_value(byte),
        result < 16,
{
    if is_digit(byte) {
        byte - '0' as u8
    } else if 'a' as u8 <= byte && byte <= 'f' as u8 {
        byte - 'a' as u8 + 10
    } else {
        byte - 'A' as u8 + 10
    }
}

/// Compares two byte slices.
pub fn same(left: &[u8], right: &[u8]) -> (result: bool)
    ensures
        result == (left@ == right@),
{
    if left.len() != right.len() {
        return false;
    }
    let mut index: usize = 0;
    while index < left.len()
        invariant
            index <= left.len(),
            left.len() == right.len(),
            forall|i: int| 0 <= i < index ==> left[i] == right[i],
        decreases left.len() - index,
    {
        if left[index] != right[index] {
            assert(left@[index as int] != right@[index as int]);
            return false;
        }
        index += 1;
    }
    assert(left@ =~= right@);
    true
}

/// Compares bytes with the UTF-8 encoding of a text.
pub fn is_text(bytes: &[u8], text: &str) -> (result: bool)
    ensures
        result == reads(bytes@, text@),
{
    same(bytes, text.as_bytes())
}

/// Tells whether the first byte exists and equals a given byte.
pub fn first_is(bytes: &[u8], first: u8) -> (result: bool)
    ensures
        result == opens_with(bytes@, first),
{
    bytes.len() > 0 && bytes[0] == first
}

/// Tells whether a slice is exactly one given byte.
pub fn is_byte(bytes: &[u8], byte: u8) -> (result: bool)
    ensures
        result == (bytes@ == seq![byte]),
{
    if bytes.len() == 1 && bytes[0] == byte {
        assert(bytes@ =~= seq![byte]);
        true
    } else {
        assert(bytes@ == seq![byte] ==> bytes@.len() == 1 && bytes@[0] == byte);
        false
    }
}

/// The index of the first byte with a value, or the length if there is none.
pub open spec fn index_of(bytes: Seq<u8>, byte: u8) -> int
    decreases bytes.len(),
{
    if bytes.len() == 0 || bytes[0] == byte {
        0
    } else {
        1 + index_of(bytes.skip(1), byte)
    }
}

/// The first index is where the earlier bytes end.
pub proof fn index_of_is(bytes: Seq<u8>, byte: u8, index: int)
    requires
        0 <= index <= bytes.len(),
        forall|i: int| 0 <= i < index ==> bytes[i] != byte,
        index < bytes.len() ==> bytes[index] == byte,
    ensures
        index_of(bytes, byte) == index,
    decreases bytes.len(),
{
    if index > 0 {
        assert(bytes[0] != byte);
        let tail = bytes.skip(1);
        assert forall|i: int| 0 <= i < index - 1 implies tail[i] != byte by {
            assert(bytes[i + 1] != byte);
        }
        index_of_is(tail, byte, index - 1);
    }
}

/// The first index lies in the sequence, behind other bytes.
pub proof fn index_of_bounds(bytes: Seq<u8>, byte: u8)
    ensures
        0 <= index_of(bytes, byte) <= bytes.len(),
        forall|i: int| 0 <= i < index_of(bytes, byte) ==> bytes[i] != byte,
        index_of(bytes, byte) < bytes.len() ==> bytes[index_of(bytes, byte)] == byte,
    decreases bytes.len(),
{
    if bytes.len() > 0 && bytes[0] != byte {
        let tail = bytes.skip(1);
        index_of_bounds(tail, byte);
        assert forall|i: int| 0 <= i < index_of(bytes, byte) implies bytes[i] != byte by {
            if i > 0 {
                assert(tail[i - 1] == bytes[i]);
            }
        }
    }
}

/// Finds the first byte with a value.
pub fn find_byte(bytes: &[u8], byte: u8) -> (result: usize)
    ensures
        result == index_of(bytes@, byte),
        result <= bytes@.len(),
        result < bytes@.len() ==> bytes@[result as int] == byte,
{
    let mut index: usize = 0;
    while index < bytes.len() && bytes[index] != byte
        invariant
            index <= bytes@.len(),
            forall|i: int| 0 <= i < index ==> bytes@[i] != byte,
        decreases bytes.len() - index,
    {
        index += 1;
    }
    proof {
        index_of_is(bytes@, byte, index as int);
    }
    index
}

/// Tells whether a slice starts with a pattern.
pub fn has_prefix(bytes: &[u8], pattern: &[u8]) -> (result: bool)
    ensures
        result == pattern@.is_prefix_of(bytes@),
{
    if pattern.len() > bytes.len() {
        return false;
    }
    let mut index: usize = 0;
    while index < pattern.len()
        invariant
            index <= pattern@.len() <= bytes@.len(),
            forall|i: int| 0 <= i < index ==> pattern@[i] == bytes@[i],
        decreases pattern.len() - index,
    {
        if pattern[index] != bytes[index] {
            assert(bytes@.subrange(0, pattern@.len() as int)[index as int] != pattern@[index as int]);
            return false;
        }
        index += 1;
    }
    assert(pattern@ =~= bytes@.subrange(0, pattern@.len() as int));
    true
}

/// Tells whether a slice ends with a pattern.
pub fn has_suffix(bytes: &[u8], pattern: &[u8]) -> (result: bool)
    ensures
        result == pattern@.is_suffix_of(bytes@),
{
    if pattern.len() > bytes.len() {
        return false;
    }
    let start: usize = bytes.len() - pattern.len();
    let mut index: usize = 0;
    while index < pattern.len()
        invariant
            index <= pattern@.len() <= bytes@.len(),
            start == bytes@.len() - pattern@.len(),
            start + pattern.len() == bytes.len(),
            forall|i: int| 0 <= i < index ==> pattern@[i] == bytes@[start + i],
        decreases pattern.len() - index,
    {
        if pattern[index] != bytes[start + index] {
            assert(bytes@.subrange(start as int, bytes@.len() as int)[index as int]
                != pattern@[index as int]);
            return false;
        }
        index += 1;
    }
    assert(pattern@ =~= bytes@.subrange(start as int, bytes@.len() as int));
    true
}

/// The index at which a pattern first occurs.
pub open spec fn occurrence(bytes: Seq<u8>, pattern: Seq<u8>) -> Option<int>
    decreases bytes.len(),
{
    if pattern.is_prefix_of(bytes) {
        Some(0)
    } else if bytes.len() == 0 {
        None
    } else {
        match occurrence(bytes.skip(1), pattern) {
            Some(index) => Some(index + 1),
            None => None,
        }
    }
}

/// An occurrence lies in the sequence.
pub proof fn occurrence_bounds(bytes: Seq<u8>, pattern: Seq<u8>)
    ensures
        occurrence(bytes, pattern) matches Some(index) ==> {
            &&& 0 <= index <= bytes.len()
            &&& pattern.is_prefix_of(bytes.skip(index))
            &&& index + pattern.len() <= bytes.len()
        },
    decreases bytes.len(),
{
    assert(bytes.skip(0) =~= bytes);
    if !pattern.is_prefix_of(bytes) && bytes.len() > 0 {
        occurrence_bounds(bytes.skip(1), pattern);
        if let Some(index) = occurrence(bytes.skip(1), pattern) {
            assert(bytes.skip(1).skip(index) =~= bytes.skip(index + 1));
        }
    }
}

/// Returns the part of a slice from an index on.
pub fn tail(bytes: &[u8], start: usize) -> (result: &[u8])
    requires
        start <= bytes@.len(),
    ensures
        result@ == bytes@.skip(start as int),
{
    let (_, result) = bytes.split_at(start);
    assert(result@ =~= bytes@.skip(start as int));
    result
}

/// Returns the part of a slice before an index.
pub fn head(bytes: &[u8], end: usize) -> (result: &[u8])
    requires
        end <= bytes@.len(),
    ensures
        result@ == bytes@.take(end as int),
{
    let (result, _) = bytes.split_at(end);
    assert(result@ =~= bytes@.take(end as int));
    result
}

/// Returns the part of a slice between two indices.
pub fn part(bytes: &[u8], start: usize, end: usize) -> (result: &[u8])
    requires
        start <= end <= bytes@.len(),
    ensures
        result@ == bytes@.subrange(start as int, end as int),
{
    let result = tail(head(bytes, end), start);
    assert(result@ =~= bytes@.subrange(start as int, end as int));
    result
}

/// Finds where a pattern first occurs.
pub fn find_bytes(bytes: &[u8], pattern: &[u8]) -> (result: Option<usize>)
    ensures
        match result {
            Some(index) => occurrence(bytes@, pattern@) == Some(index as int),
            None => occurrence(bytes@, pattern@) is None,
        },
        result matches Some(index) ==> index + pattern.len() <= bytes.len(),
{
    let mut index: usize = 0;
    proof {
        assert(bytes@.skip(0) =~= bytes@);
        occurrence_bounds(bytes@, pattern@);
    }
    loop
        invariant
            index <= bytes@.len(),
            occurrence(bytes@, pattern@) == (match occurrence(
                bytes@.skip(index as int),
                pattern@,
            ) {
                Some(found) => Some(found + index),
                None => None,
            }),
            occurrence(bytes@, pattern@) matches Some(found) ==> found + pattern@.len()
                <= bytes@.len(),
        decreases bytes.len() - index,
    {
        if has_prefix(tail(bytes, index), pattern) {
            return Some(index);
        }
        if index == bytes.len() {
            return None;
        }
        assert(bytes@.skip(index as int).skip(1) =~= bytes@.skip(index + 1));
        index += 1;
    }
}

/// A sequence without its leading whitespace.
pub open spec fn trimmed_start(bytes: Seq<u8>) -> Seq<u8>
    decreases bytes.len(),
{
    if bytes.len() > 0 && space(bytes[0]) {
        trimmed_start(bytes.skip(1))
    } else {
        bytes
    }
}

/// A sequence without its trailing whitespace.
pub open spec fn trimmed_end(bytes: Seq<u8>) -> Seq<u8>
    decreases bytes.len(),
{
    if bytes.len() > 0 && space(bytes.last()) {
        trimmed_end(bytes.drop_last())
    } else {
        bytes
    }
}

/// Removes leading whitespace.
pub fn trim_ascii_start(bytes: &[u8]) -> (result: &[u8])
    ensures
        result@ == trimmed_start(bytes@),
{
    let mut start: usize = 0;
    assert(bytes@.skip(0) =~= bytes@);
    while start < bytes.len() && is_space(bytes[start])
        invariant
            start <= bytes@.len(),
            trimmed_start(bytes@.skip(start as int)) == trimmed_start(bytes@),
        decreases bytes.len() - start,
    {
        assert(bytes@.skip(start as int)[0] == bytes@[start as int]);
        assert(bytes@.skip(start as int).skip(1) =~= bytes@.skip(start + 1));
        start += 1;
    }
    proof {
        if start < bytes@.len() {
            assert(bytes@.skip(start as int)[0] == bytes@[start as int]);
        }
    }
    tail(bytes, start)
}

/// Removes trailing whitespace.
pub fn trim_ascii_end(bytes: &[u8]) -> (result: &[u8])
    ensures
        result@ == trimmed_end(bytes@),
{
    let mut end: usize = bytes.len();
    assert(bytes@.take(end as int) =~= bytes@);
    while end > 0 && is_space(bytes[end - 1])
        invariant
            end <= bytes@.len(),
            trimmed_end(bytes@.take(end as int)) == trimmed_end(bytes@),
        decreases end,
    {
        assert(bytes@.take(end as int).last() == bytes@[end - 1]);
        assert(bytes@.take(end as int).drop_last() =~= bytes@.take(end - 1));
        end -= 1;
    }
    proof {
        if end > 0 {
            assert(bytes@.take(end as int).last() == bytes@[end - 1]);
        }
    }
    head(bytes, end)
}

/// Removes leading and trailing whitespace.
pub fn trim_ascii(bytes: &[u8]) -> (result: &[u8])
    ensures
        result@ == trimmed_end(trimmed_start(bytes@)),
{
    trim_ascii_end(trim_ascii_start(bytes))
}

} // verus!

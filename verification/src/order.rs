//! The order of texts: by their UTF-8 bytes.

use vstd::prelude::*;

verus! {

/// Lexicographic order of byte sequences.
pub open spec fn bytes_less(left: Seq<u8>, right: Seq<u8>) -> bool
    decreases left.len(),
{
    if right.len() == 0 {
        false
    } else if left.len() == 0 {
        true
    } else if left[0] != right[0] {
        left[0] < right[0]
    } else {
        bytes_less(left.skip(1), right.skip(1))
    }
}

/// The order of texts.
pub open spec fn text_less(left: Seq<char>, right: Seq<char>) -> bool {
    bytes_less(vstd::utf8::encode_utf8(left), vstd::utf8::encode_utf8(right))
}

/// No sequence comes before itself.
pub proof fn bytes_less_irreflexive(bytes: Seq<u8>)
    ensures
        !bytes_less(bytes, bytes),
    decreases bytes.len(),
{
    if bytes.len() > 0 {
        bytes_less_irreflexive(bytes.skip(1));
    }
}

/// The order is transitive.
pub proof fn bytes_less_transitive(first: Seq<u8>, second: Seq<u8>, third: Seq<u8>)
    requires
        bytes_less(first, second),
        bytes_less(second, third),
    ensures
        bytes_less(first, third),
    decreases first.len(),
{
    if first.len() > 0 && second.len() > 0 && third.len() > 0 && first[0] == second[0] && second[0]
        == third[0] {
        bytes_less_transitive(first.skip(1), second.skip(1), third.skip(1));
    }
}

/// Of two different sequences one comes first.
pub proof fn bytes_less_total(left: Seq<u8>, right: Seq<u8>)
    ensures
        left == right || bytes_less(left, right) || bytes_less(right, left),
    decreases left.len(),
{
    if left.len() == 0 && right.len() == 0 {
        assert(left =~= right);
    } else if left.len() > 0 && right.len() > 0 && left[0] == right[0] {
        bytes_less_total(left.skip(1), right.skip(1));
        if left.skip(1) == right.skip(1) {
            assert(left =~= seq![left[0]] + left.skip(1));
            assert(right =~= seq![right[0]] + right.skip(1));
        }
    }
}

/// The order of texts is strict and total.
pub proof fn text_less_is_strict(left: Seq<char>, right: Seq<char>)
    ensures
        !text_less(left, left),
        !(text_less(left, right) && text_less(right, left)),
        left == right || text_less(left, right) || text_less(right, left),
{
    let (l, r) = (vstd::utf8::encode_utf8(left), vstd::utf8::encode_utf8(right));
    bytes_less_irreflexive(l);
    bytes_less_total(l, r);
    if bytes_less(l, r) && bytes_less(r, l) {
        bytes_less_transitive(l, r, l);
    }
    if l == r {
        vstd::utf8::encode_utf8_decode_utf8(left);
        vstd::utf8::encode_utf8_decode_utf8(right);
    }
}

/// Compares two byte slices.
pub fn is_bytes_less(left: &[u8], right: &[u8]) -> (result: bool)
    ensures
        result == bytes_less(left@, right@),
{
    let mut index: usize = 0;
    assert(left@.skip(0) =~= left@);
    assert(right@.skip(0) =~= right@);
    while index < left.len() && index < right.len()
        invariant
            index <= left@.len(),
            index <= right@.len(),
            bytes_less(left@.skip(index as int), right@.skip(index as int)) == bytes_less(
                left@,
                right@,
            ),
        decreases left.len() - index,
    {
        let ghost (l, r) = (left@.skip(index as int), right@.skip(index as int));
        assert(l[0] == left@[index as int] && r[0] == right@[index as int]);
        if left[index] != right[index] {
            return left[index] < right[index];
        }
        assert(l.skip(1) =~= left@.skip(index + 1));
        assert(r.skip(1) =~= right@.skip(index + 1));
        index += 1;
    }
    index < right.len()
}

/// Compares two texts.
pub fn is_text_less(left: &str, right: &str) -> (result: bool)
    ensures
        result == text_less(left@, right@),
{
    is_bytes_less(left.as_bytes(), right.as_bytes())
}

} // verus!

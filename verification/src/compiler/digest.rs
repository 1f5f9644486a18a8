//! Computes keys for compiler recipes and explicit requests.
//!
//! Each field has a length prefix, so field boundaries remain part of the SHA-256 input.

use super::error;
use super::error::{invalid_environment, EnvironmentProblem, Error, ErrorData};
use crate::digests::sha256_hex;
use crate::wire::{put_bytes, put_u64};
use vstd::bytes::*;
use vstd::prelude::*;

verus! {

/// Fields behind their lengths.
pub open spec fn framed(fields: Seq<Seq<u8>>) -> Seq<u8>
    decreases fields.len(),
{
    if fields.len() == 0 {
        Seq::empty()
    } else {
        spec_u64_to_le_bytes(fields[0].len() as u64) + fields[0] + framed(fields.skip(1))
    }
}

/// The bytes of a list of fields.
pub open spec fn field_views(fields: Seq<Vec<u8>>) -> Seq<Seq<u8>> {
    fields.map_values(|field: Vec<u8>| field@)
}

/// The digest of fields.
pub open spec fn digest_of(fields: Seq<Seq<u8>>) -> Seq<char> {
    crate::digests::sha256_digest(framed(fields))
}

proof fn framed_grows(fields: Seq<Seq<u8>>, field: Seq<u8>)
    ensures
        framed(fields.push(field)) == framed(fields) + (spec_u64_to_le_bytes(field.len() as u64)
            + field),
    decreases fields.len(),
{
    let more = fields.push(field);
    if fields.len() == 0 {
        assert(more.skip(1) =~= Seq::<Seq<u8>>::empty());
        assert(more[0] == field);
        assert(framed(more) == spec_u64_to_le_bytes(field.len() as u64) + field + framed(
            more.skip(1),
        ));
        assert(framed(more.skip(1)) =~= Seq::<u8>::empty());
        assert(framed(fields) =~= Seq::<u8>::empty());
        assert(framed(more) =~= framed(fields) + (spec_u64_to_le_bytes(field.len() as u64)
            + field));
    } else {
        framed_grows(fields.skip(1), field);
        assert(more.skip(1) =~= fields.skip(1).push(field));
        assert(framed(more) =~= framed(fields) + (spec_u64_to_le_bytes(field.len() as u64)
            + field));
    }
}

/// Hashes fields behind their lengths.
pub fn digest(fields: &Vec<Vec<u8>>) -> (result: String)
    ensures
        result@ == digest_of(field_views(fields@)),
{
    let ghost all = field_views(fields@);
    let mut bytes: Vec<u8> = Vec::new();
    let mut index: usize = 0;
    assert(bytes@ =~= framed(all.take(0)));
    while index < fields.len()
        invariant
            index <= fields@.len(),
            all == field_views(fields@),
            bytes@ == framed(all.take(index as int)),
        decreases fields.len() - index,
    {
        let ghost before = bytes@;
        put_u64(&mut bytes, fields[index].len() as u64);
        put_bytes(&mut bytes, fields[index].as_slice());
        proof {
            let field = fields@[index as int]@;
            assert(all[index as int] == field);
            framed_grows(all.take(index as int), field);
            assert(all.take(index + 1) =~= all.take(index as int).push(field));
            assert(bytes@ =~= before + (spec_u64_to_le_bytes(field.len() as u64) + field));
        }
        index += 1;
    }
    assert(all.take(all.len() as int) =~= all);
    sha256_hex(bytes.as_slice())
}

proof fn lengths_read_back(value: u64)
    ensures
        spec_u64_from_le_bytes(spec_u64_to_le_bytes(value)) == value,
        spec_u64_to_le_bytes(value).len() == 8,
{
    lemma_auto_spec_u64_to_from_le_bytes();
}

/// Different lists of fields are hashed as different bytes: where a field ends is part of the input.
pub proof fn field_boundaries_are_framed(left: Seq<Seq<u8>>, right: Seq<Seq<u8>>)
    requires
        framed(left) == framed(right),
        forall|i: int| 0 <= i < left.len() ==> (#[trigger] left[i]).len() <= u64::MAX,
        forall|i: int| 0 <= i < right.len() ==> (#[trigger] right[i]).len() <= u64::MAX,
    ensures
        left == right,
    decreases left.len(),
{
    if left.len() > 0 {
        lengths_read_back(left[0].len() as u64);
    }
    if right.len() > 0 {
        lengths_read_back(right[0].len() as u64);
    }
    if left.len() == 0 || right.len() == 0 {
        if left.len() > 0 {
            assert(framed(left).len() >= 8);
        }
        if right.len() > 0 {
            assert(framed(right).len() >= 8);
        }
        assert(left =~= right);
    } else {
        let (a, b) = (left[0], right[0]);
        let (x, y) = (framed(left), framed(right));
        assert(x.take(8) =~= spec_u64_to_le_bytes(a.len() as u64));
        assert(y.take(8) =~= spec_u64_to_le_bytes(b.len() as u64));
        assert(a.len() == b.len());
        assert(x.subrange(8, 8 + a.len() as int) =~= a);
        assert(y.subrange(8, 8 + b.len() as int) =~= b);
        assert(x.skip(8 + a.len() as int) =~= framed(left.skip(1)));
        assert(y.skip(8 + b.len() as int) =~= framed(right.skip(1)));
        assert forall|i: int| 0 <= i < left.skip(1).len() implies (#[trigger] left.skip(1)[i]).len()
            <= u64::MAX by {
            assert(left.skip(1)[i] == left[i + 1]);
        }
        assert forall|i: int| 0 <= i < right.skip(1).len() implies (#[trigger] right.skip(
            1,
        )[i]).len() <= u64::MAX by {
            assert(right.skip(1)[i] == right[i + 1]);
        }
        field_boundaries_are_framed(left.skip(1), right.skip(1));
        assert(left =~= seq![a] + left.skip(1));
        assert(right =~= seq![b] + right.skip(1));
    }
}

/// The revision of the source and LLVM evidence and of the layout of the key.
pub open spec fn request_revision() -> Seq<u8> {
    vstd::utf8::encode_utf8("optic-request-2:source-llvm-1"@)
}

/// The key of an explicit request, or why it has none.
pub open spec fn request_key_of(
    workspace_root: Seq<char>,
    cargo_home: Seq<char>,
    cargo_version: Seq<u8>,
    driver_key: Seq<char>,
    inputs: Result<Seq<u8>, Seq<char>>,
) -> Result<Seq<char>, ErrorData> {
    match inputs {
        Err(problem) => Err(error::environment(EnvironmentProblem::Identity { problem })),
        Ok(inputs) => Ok(
            digest_of(
                seq![
                    request_revision(),
                    vstd::utf8::encode_utf8(workspace_root),
                    vstd::utf8::encode_utf8(cargo_home),
                    cargo_version,
                    vstd::utf8::encode_utf8(driver_key),
                    inputs,
                ],
            ),
        ),
    }
}

fn copy_bytes(bytes: &[u8]) -> (result: Vec<u8>)
    ensures
        result@ == bytes@,
{
    let mut copy: Vec<u8> = Vec::new();
    put_bytes(&mut copy, bytes);
    assert(copy@ =~= bytes@);
    copy
}

/// Adds a field.
pub fn add_field(fields: &mut Vec<Vec<u8>>, field: &[u8])
    ensures
        field_views(final(fields)@) == field_views(old(fields)@).push(field@),
{
    fields.push(copy_bytes(field));
    assert(field_views(fields@) =~= field_views(old(fields)@).push(field@));
}

/// The serialized build, package, target and directories, or why they cannot be serialized.
pub open spec fn inputs_view(inputs: Result<Vec<u8>, String>) -> Result<Seq<u8>, Seq<char>> {
    match inputs {
        Ok(bytes) => Ok(bytes@),
        Err(problem) => Err(problem@),
    }
}

/// Computes the key of an explicit request.
///
/// The invocation directory fixes ancestor Cargo configuration lookup. Cargo home fixes the
/// remaining configuration location. Cargo itself tracks the contents at those locations. The inputs
/// are the serialized build, package, target, target directory and build directory.
pub fn request_key(
    workspace_root: &str,
    cargo_home: &str,
    cargo_version: &[u8],
    driver_key: &str,
    inputs: Result<Vec<u8>, String>,
) -> (result: Result<String, Error>)
    ensures
        error::text_agrees(
            result,
            request_key_of(
                workspace_root@,
                cargo_home@,
                cargo_version@,
                driver_key@,
                inputs_view(inputs),
            ),
        ),
{
    match inputs {
        Err(problem) => Err(invalid_environment(EnvironmentProblem::Identity { problem })),
        Ok(inputs) => {
            let mut fields: Vec<Vec<u8>> = Vec::new();
            add_field(&mut fields, "optic-request-2:source-llvm-1".as_bytes());
            add_field(&mut fields, workspace_root.as_bytes());
            add_field(&mut fields, cargo_home.as_bytes());
            add_field(&mut fields, cargo_version);
            add_field(&mut fields, driver_key.as_bytes());
            add_field(&mut fields, inputs.as_slice());
            assert(field_views(fields@) =~= seq![
                request_revision(),
                vstd::utf8::encode_utf8(workspace_root@),
                vstd::utf8::encode_utf8(cargo_home@),
                cargo_version@,
                vstd::utf8::encode_utf8(driver_key@),
                inputs@,
            ]);
            Ok(digest(&fields))
        },
    }
}

} // verus!

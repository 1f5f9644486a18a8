//! Which names tokens spell.

use super::body_laws;
use super::error::{Fault, IndexError};
use super::model;
use super::model::{Cursor, Word};
use super::symbol;
use super::token_laws;
use crate::bytes;
use vstd::prelude::*;

verus! {

/// A part of a quoted name: a byte as it is, a doubled backslash, or a backslash before two
/// hexadecimal digits.
pub enum NamePart {
    Plain(u8),
    Backslash,
    Escaped(u8, u8),
}

/// The value of a hexadecimal digit.
pub open spec fn digit_value(digit: u8) -> int {
    if 0x30 <= digit <= 0x39 {
        digit - 0x30
    } else if 0x41 <= digit <= 0x46 {
        digit - 0x41 + 10
    } else {
        digit - 0x61 + 10
    }
}

/// A part as it is written.
pub open spec fn spelling(part: NamePart) -> Seq<u8> {
    match part {
        NamePart::Plain(byte) => seq![byte],
        NamePart::Backslash => seq![0x5cu8, 0x5cu8],
        NamePart::Escaped(high, low) => seq![0x5cu8, high, low],
    }
}

/// The byte that a part stands for.
pub open spec fn meaning(part: NamePart) -> u8 {
    match part {
        NamePart::Plain(byte) => byte,
        NamePart::Backslash => 0x5c,
        NamePart::Escaped(high, low) => (digit_value(high) * 16 + digit_value(low)) as u8,
    }
}

/// A part that can be written as it is.
pub open spec fn proper(part: NamePart) -> bool {
    match part {
        NamePart::Plain(byte) => byte != 0x5c && byte != 0x22 && byte != 0x0a && byte != 0x0d,
        NamePart::Backslash => true,
        NamePart::Escaped(high, low) => body_laws::hex(high) && body_laws::hex(low),
    }
}

/// Parts one behind the other.
pub open spec fn spellings(parts: Seq<NamePart>) -> Seq<u8>
    decreases parts.len(),
{
    if parts.len() == 0 {
        Seq::empty()
    } else {
        spelling(parts[0]) + spellings(parts.skip(1))
    }
}

/// The bytes that parts stand for.
pub open spec fn meanings(parts: Seq<NamePart>) -> Seq<u8> {
    parts.map_values(|part: NamePart| meaning(part))
}

proof fn parts_are_unescaped(parts: Seq<NamePart>)
    requires
        forall|i: int| 0 <= i < parts.len() ==> proper(#[trigger] parts[i]),
    ensures
        symbol::unescaped(spellings(parts)) == meanings(parts),
    decreases parts.len(),
{
    if parts.len() == 0 {
        assert(meanings(parts) =~= Seq::<u8>::empty());
    } else {
        let tail = parts.skip(1);
        assert forall|i: int| 0 <= i < tail.len() implies proper(#[trigger] tail[i]) by {
            assert(tail[i] == parts[i + 1]);
        }
        parts_are_unescaped(tail);
        let whole = spellings(parts);
        let rest = spellings(tail);
        assert(meanings(parts) =~= seq![meaning(parts[0])] + meanings(tail));
        assert(proper(parts[0]));
        match parts[0] {
            NamePart::Plain(byte) => {
                assert(whole[0] == byte);
                assert(whole.skip(1) =~= rest);
            },
            NamePart::Backslash => {
                assert(whole[0] == 0x5c && whole[1] == 0x5c);
                assert(whole.skip(2) =~= rest);
            },
            NamePart::Escaped(high, low) => {
                assert(whole[0] == 0x5c && whole[1] == high && whole[2] == low);
                assert(whole.skip(3) =~= rest);
                assert(bytes::hex_value(high) == digit_value(high));
                assert(bytes::hex_value(low) == digit_value(low));
            },
        }
    }
}

/// A quoted name spells the text of the bytes that its parts stand for.
pub proof fn quoted_names_are_unescaped(parts: Seq<NamePart>, name: Seq<char>, offset: u64)
    requires
        forall|i: int| 0 <= i < parts.len() ==> proper(#[trigger] parts[i]),
        meanings(parts) == vstd::utf8::encode_utf8(name),
    ensures
        symbol::symbol(
            Word { bytes: seq![0x40u8, 0x22u8] + spellings(parts) + seq![0x22u8], offset },
        ) == Ok::<Seq<char>, IndexError>(name),
{
    let token = seq![0x40u8, 0x22u8] + spellings(parts) + seq![0x22u8];
    parts_are_unescaped(parts);
    assert(token.subrange(2, token.len() - 1) =~= spellings(parts));
    assert(token[0] == 0x40 && token[1] == 0x22);
    vstd::utf8::encode_utf8_decode_utf8(name);
    vstd::utf8::encode_utf8_valid_utf8(name);
}

/// A quoted name whose bytes are no UTF-8 is refused.
pub proof fn other_names_are_refused(parts: Seq<NamePart>, offset: u64)
    requires
        forall|i: int| 0 <= i < parts.len() ==> proper(#[trigger] parts[i]),
        !vstd::utf8::valid_utf8(meanings(parts)),
    ensures
        symbol::symbol(
            Word { bytes: seq![0x40u8, 0x22u8] + spellings(parts) + seq![0x22u8], offset },
        ) == Err::<Seq<char>, IndexError>(
            IndexError::Malformed { offset, fault: Fault::NotUtf8 },
        ),
{
    let token = seq![0x40u8, 0x22u8] + spellings(parts) + seq![0x22u8];
    parts_are_unescaped(parts);
    assert(token.subrange(2, token.len() - 1) =~= spellings(parts));
    assert(token[0] == 0x40 && token[1] == 0x22);
}

/// A bare name that starts with a digit is a slot, and holds nothing but digits. Any other is
/// refused. A sign without a name is refused, and so is a token without a sign.
pub proof fn signs_and_slots_are_checked(token: Seq<u8>, offset: u64)
    ensures
        token.len() == 0 || token[0] != 0x40 || token.len() == 1 ==> symbol::symbol(
            Word { bytes: token, offset },
        ) == Err::<Seq<char>, IndexError>(
            IndexError::Malformed { offset, fault: Fault::NotSymbol },
        ),
        token.len() > 1 && token[0] == 0x40 && 0x30 <= token[1] <= 0x39 && (exists|i: int|
            1 < i < token.len() && !(0x30 <= #[trigger] token[i] <= 0x39)) ==> symbol::symbol(
            Word { bytes: token, offset },
        ) == Err::<Seq<char>, IndexError>(
            IndexError::Malformed { offset, fault: Fault::NotSlot },
        ),
{
    if token.len() > 1 && token[0] == 0x40 && 0x30 <= token[1] <= 0x39 && (exists|i: int|
        1 < i < token.len() && !(0x30 <= #[trigger] token[i] <= 0x39)) {
        let i = choose|i: int| 1 < i < token.len() && !(0x30 <= #[trigger] token[i] <= 0x39);
        assert(!bytes::digit(token[i]));
    }
}

/// The parts of a quoted name are read through the closing quote.
pub proof fn quoted_parts_are_read(c: Cursor, read: Seq<u8>, parts: Seq<NamePart>, rest: Seq<u8>)
    requires
        forall|i: int| 0 <= i < parts.len() ==> proper(#[trigger] parts[i]),
        c.rest == spellings(parts) + (seq![0x22u8] + rest),
        token_laws::room(c, spellings(parts).len() as int + 1),
    ensures
        model::quoted(c, read) == token_laws::given(
            read + spellings(parts) + seq![0x22u8],
            token_laws::at(c, rest, spellings(parts).len() as int + 1),
        ),
    decreases parts.len(),
{
    let after = c.next();
    if parts.len() == 0 {
        assert(c.rest[0] == 0x22);
        assert(after.rest =~= rest);
        assert(read.push(0x22u8) =~= read + spellings(parts) + seq![0x22u8]);
    } else {
        let tail = parts.skip(1);
        assert forall|i: int| 0 <= i < tail.len() implies proper(#[trigger] tail[i]) by {
            assert(tail[i] == parts[i + 1]);
        }
        assert(proper(parts[0]));
        let one = spelling(parts[0]);
        let behind = spellings(tail) + (seq![0x22u8] + rest);
        let next = token_laws::at(c, behind, one.len() as int);
        assert(c.rest =~= one + behind);
        quoted_parts_are_read(next, read + one, tail, rest);
        assert(read + one + spellings(tail) + seq![0x22u8] =~= read + spellings(parts)
            + seq![0x22u8]);
        assert(token_laws::at(next, rest, spellings(tail).len() as int + 1) == token_laws::at(
            c,
            rest,
            spellings(parts).len() as int + 1,
        ));
        one_part_is_read(c, read, parts[0], behind);
    }
}

proof fn one_part_is_read(c: Cursor, read: Seq<u8>, part: NamePart, behind: Seq<u8>)
    requires
        proper(part),
        c.rest == spelling(part) + behind,
        token_laws::room(c, spelling(part).len() as int),
    ensures
        model::quoted(c, read) == model::quoted(
            token_laws::at(c, behind, spelling(part).len() as int),
            read + spelling(part),
        ),
{
    let after = c.next();
    match part {
        NamePart::Plain(byte) => {
            assert(c.rest[0] == byte);
            assert(after.rest =~= behind);
            assert(read.push(byte) =~= read + spelling(part));
        },
        NamePart::Backslash => {
            assert(c.rest[0] == 0x5c && after.rest[0] == 0x5c);
            assert(after.next().rest =~= behind);
            assert(read.push(0x5cu8) + seq![0x5cu8] =~= read + spelling(part));
        },
        NamePart::Escaped(high, low) => {
            let middle = after.next();
            assert(c.rest[0] == 0x5c && after.rest[0] == high && middle.rest[0] == low);
            assert(middle.next().rest =~= behind);
            assert(read.push(0x5cu8) + seq![high, low] =~= read + spelling(part));
        },
    }
}

/// A quoted global name is one token, through its closing quote, whatever it holds.
pub proof fn quoted_names_are_tokens(
    c: Cursor,
    parts: Seq<NamePart>,
    rest: Seq<u8>,
    stop_at_newline: bool,
)
    requires
        forall|i: int| 0 <= i < parts.len() ==> proper(#[trigger] parts[i]),
        c.rest == seq![0x40u8, 0x22u8] + spellings(parts) + seq![0x22u8] + rest,
        token_laws::room(c, spellings(parts).len() as int + 3),
    ensures
        model::token(c, stop_at_newline) == token_laws::given(
            Some(
                Word {
                    bytes: seq![0x40u8, 0x22u8] + spellings(parts) + seq![0x22u8],
                    offset: c.offset,
                },
            ),
            token_laws::at(c, rest, spellings(parts).len() as int + 3),
        ),
{
    let after = c.next();
    let inside = after.next();
    assert(c.rest[0] == 0x40 && after.rest[0] == 0x22);
    assert(inside.rest =~= spellings(parts) + (seq![0x22u8] + rest));
    let start = seq![0x40u8, 0x22u8];
    quoted_parts_are_read(inside, start, parts, rest);
    assert(token_laws::at(inside, rest, spellings(parts).len() as int + 1) == token_laws::at(
        c,
        rest,
        spellings(parts).len() as int + 3,
    ));
    assert(model::gap(c, stop_at_newline) == token_laws::given(false, c));
}

} // verus!

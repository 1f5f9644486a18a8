//! Text helpers: UTF-8 decoding and decimal rendering.

use vstd::prelude::*;
use vstd::string::StringExecFns;

verus! {

/// The character of one decimal digit.
pub open spec fn digit_char(digit: nat) -> char {
    (digit % 10 + '0' as nat) as char
}

/// The decimal numeral of a number, without leading zeros.
pub open spec fn decimal(number: nat) -> Seq<char>
    decreases number,
{
    if number < 10 {
        seq![digit_char(number)]
    } else {
        decimal(number / 10).push(digit_char(number % 10))
    }
}

/// How `String::from_utf8` describes the first invalid sequence in bytes that are not valid UTF-8.
pub uninterp spec fn utf8_problem(bytes: Seq<u8>) -> Seq<char>;

/// Decodes bytes with `String::from_utf8`, which succeeds exactly on valid UTF-8 and then holds the
/// characters that the bytes encode. A failure describes the first invalid sequence.
#[verifier::external_body]
pub(crate) fn utf8_text(bytes: Vec<u8>) -> (result: Result<String, String>)
    ensures
        result is Ok <==> vstd::utf8::valid_utf8(bytes@),
        result matches Ok(text) ==> text@ == vstd::utf8::decode_utf8(bytes@),
        result matches Err(problem) ==> problem@ == utf8_problem(bytes@),
{
    String::from_utf8(bytes).map_err(|error| error.to_string())
}

/// The text that `String::from_utf8_lossy` gives for bytes.
pub uninterp spec fn with_replacements(bytes: Seq<u8>) -> Seq<char>;

/// The text of bytes: their characters if they are valid UTF-8, else the text with every invalid
/// sequence replaced.
pub open spec fn lossy(bytes: Seq<u8>) -> Seq<char> {
    if vstd::utf8::valid_utf8(bytes) {
        vstd::utf8::decode_utf8(bytes)
    } else {
        with_replacements(bytes)
    }
}

/// Decodes bytes with `String::from_utf8_lossy`, which keeps valid UTF-8 as it is and replaces every
/// invalid sequence.
#[verifier::external_body]
pub(crate) fn lossy_text(bytes: &[u8]) -> (result: String)
    ensures
        result@ == with_replacements(bytes@),
        vstd::utf8::valid_utf8(bytes@) ==> result@ == vstd::utf8::decode_utf8(bytes@),
{
    String::from_utf8_lossy(bytes).into_owned()
}

fn digit_text(digit: u64) -> (result: &'static str)
    requires
        digit < 10,
    ensures
        result@ == seq![digit_char(digit as nat)],
{
    proof {
        reveal_strlit("0");
        reveal_strlit("1");
        reveal_strlit("2");
        reveal_strlit("3");
        reveal_strlit("4");
        reveal_strlit("5");
        reveal_strlit("6");
        reveal_strlit("7");
        reveal_strlit("8");
        reveal_strlit("9");
    }
    let text = match digit {
        0 => "0",
        1 => "1",
        2 => "2",
        3 => "3",
        4 => "4",
        5 => "5",
        6 => "6",
        7 => "7",
        8 => "8",
        _ => "9",
    };
    assert(text@ =~= seq![digit_char(digit as nat)]);
    text
}

/// Appends the decimal numeral of a number.
pub fn push_decimal(text: &mut String, number: u64)
    ensures
        final(text)@ == old(text)@ + decimal(number as nat),
    decreases number,
{
    if number >= 10 {
        push_decimal(text, number / 10);
    }
    let ghost before = text@;
    text.append(digit_text(number % 10));
    proof {
        assert(text@ =~= before + seq![digit_char((number % 10) as nat)]);
        if number >= 10 {
            assert(decimal(number as nat) == decimal((number / 10) as nat).push(
                digit_char((number % 10) as nat),
            ));
            assert(text@ =~= old(text)@ + decimal(number as nat));
        } else {
            assert(text@ =~= old(text)@ + decimal(number as nat));
        }
    }
}

/// The character of one hexadecimal digit.
pub open spec fn hex_char(digit: nat) -> char {
    if digit % 16 < 10 {
        (digit % 16 + '0' as nat) as char
    } else {
        (digit % 16 - 10 + 'a' as nat) as char
    }
}

/// The last hexadecimal digits of a number.
pub open spec fn hex_digits(number: nat, count: nat) -> Seq<char>
    decreases count,
{
    if count == 0 {
        Seq::empty()
    } else {
        hex_digits(number / 16, (count - 1) as nat).push(hex_char(number % 16))
    }
}

/// Appends the last hexadecimal digits of a number.
pub fn push_hex(text: &mut String, number: u64, count: usize)
    ensures
        final(text)@ == old(text)@ + hex_digits(number as nat, count as nat),
    decreases count,
{
    if count > 0 {
        push_hex(text, number / 16, count - 1);
        let ghost before = text@;
        let digit: u8 = (number % 16) as u8;
        let character = if digit < 10 {
            (48 + digit) as char
        } else {
            (87 + digit) as char
        };
        text.push(character);
        assert(character == hex_char((number % 16) as nat));
        assert(text@ =~= old(text)@ + hex_digits(number as nat, count as nat));
    } else {
        assert(text@ =~= old(text)@ + hex_digits(number as nat, 0));
    }
}

/// The quoted and escaped form of a text that `Debug` formatting gives.
pub uninterp spec fn debugged(text: Seq<char>) -> Seq<char>;

/// Quotes and escapes a text with the standard `Debug` formatting of `str`.
#[verifier::external_body]
pub(crate) fn debug_text(text: &str) -> (result: String)
    ensures
        result@ == debugged(text@),
{
    format!("{text:?}")
}

/// The numerals of a list of bytes, each but the first behind a comma.
pub open spec fn items(bytes: Seq<u8>) -> Seq<char>
    decreases bytes.len(),
{
    if bytes.len() == 0 {
        Seq::empty()
    } else if bytes.len() == 1 {
        decimal(bytes[0] as nat)
    } else {
        items(bytes.drop_last()) + ", "@ + decimal(bytes.last() as nat)
    }
}

/// The bracketed list of bytes that `Debug` formatting gives.
pub open spec fn list(bytes: Seq<u8>) -> Seq<char> {
    "["@ + items(bytes) + "]"@
}

/// Appends a bracketed list of bytes.
pub fn push_list(text: &mut String, bytes: &Vec<u8>)
    ensures
        final(text)@ == old(text)@ + list(bytes@),
{
    text.append("[");
    let ghost start = text@;
    let mut index: usize = 0;
    assert(text@ =~= start + items(bytes@.take(0)));
    while index < bytes.len()
        invariant
            index <= bytes@.len(),
            text@ == start + items(bytes@.take(index as int)),
        decreases bytes.len() - index,
    {
        let ghost before = bytes@.take(index as int);
        let ghost after = bytes@.take(index + 1);
        assert(after.drop_last() =~= before);
        assert(after.last() == bytes@[index as int]);
        if index > 0 {
            text.append(", ");
        }
        push_decimal(text, bytes[index] as u64);
        proof {
            if index == 0 {
                assert(after.len() == 1);
                assert(text@ =~= start + items(after));
            } else {
                assert(text@ =~= start + (items(before) + ", "@ + decimal(
                    bytes@[index as int] as nat,
                )));
            }
        }
        index += 1;
    }
    assert(bytes@.take(bytes@.len() as int) =~= bytes@);
    text.append("]");
    assert(text@ =~= old(text)@ + list(bytes@));
}

/// Compares two texts.
pub fn same_text(left: &str, right: &str) -> (result: bool)
    ensures
        result == (left@ == right@),
{
    proof {
        vstd::utf8::encode_utf8_decode_utf8(left@);
        vstd::utf8::encode_utf8_decode_utf8(right@);
    }
    crate::bytes::same(left.as_bytes(), right.as_bytes())
}

} // verus!

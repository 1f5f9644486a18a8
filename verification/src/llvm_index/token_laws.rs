//! How written LLVM text falls into tokens.

use super::model;
use super::model::{Cursor, Step, Word};
use crate::bytes;
use vstd::prelude::*;

verus! {

/// The cursor behind a number of bytes.
pub open spec fn forward(c: Cursor, count: int) -> Cursor {
    Cursor { rest: c.rest.skip(count), offset: (c.offset + count) as u64, ..c }
}

/// A number of bytes can be taken within the range of offsets and the header budget, which is one
/// mebibyte.
pub open spec fn room(c: Cursor, count: int) -> bool {
    &&& c.offset + count <= u64::MAX
    &&& c.header matches Some(start) ==> start <= c.offset && c.offset - start + count <= 1048576
}

/// A byte of a bare name: an ASCII letter or digit, an underscore, a dot, a dollar sign or a
/// hyphen.
pub open spec fn name_byte(byte: u8) -> bool {
    ||| 0x61 <= byte <= 0x7a
    ||| 0x41 <= byte <= 0x5a
    ||| 0x30 <= byte <= 0x39
    ||| byte == 0x5f
    ||| byte == 0x2e
    ||| byte == 0x24
    ||| byte == 0x2d
}

/// Bytes that all belong to a bare name.
pub open spec fn name_run(word: Seq<u8>) -> bool {
    forall|i: int| 0 <= i < word.len() ==> name_byte(#[trigger] word[i])
}

/// A bare token: name bytes, with an optional `@`, `%` or `!` in front.
pub open spec fn bare_token(word: Seq<u8>) -> bool {
    &&& word.len() > 0
    &&& name_byte(word[0]) || word[0] == 0x40 || word[0] == 0x25 || word[0] == 0x21
    &&& name_run(word.skip(1))
}

/// A token of one byte that is neither a blank, a comment, a quote nor part of a name.
pub open spec fn mark_token(word: Seq<u8>) -> bool {
    &&& word.len() == 1
    &&& word[0] == 0x3d || word[0] == 0x2c || word[0] == 0x28 || word[0] == 0x29 || word[0] == 0x7b
        || word[0] == 0x7d || word[0] == 0x5b || word[0] == 0x5d || word[0] == 0x3c || word[0]
        == 0x3e || word[0] == 0x2a || word[0] == 0x3a
}

/// Blanks.
pub open spec fn blanks(gap: Seq<u8>) -> bool {
    forall|i: int| 0 <= i < gap.len() ==> #[trigger] gap[i] == 0x20
}

/// A reading step that succeeds.
pub open spec fn given<T>(value: T, c: Cursor) -> Step<T> {
    Ok((value, c))
}

/// Moving twice is moving by the sum.
pub proof fn forward_twice(c: Cursor, first: int, second: int)
    requires
        0 <= first,
        0 <= second,
        first + second <= c.rest.len(),
        c.offset + first + second <= u64::MAX,
    ensures
        forward(forward(c, first), second) == forward(c, first + second),
{
    assert(c.rest.skip(first).skip(second) =~= c.rest.skip(first + second));
}

/// A bare word is read up to the first byte that cannot belong to it.
pub proof fn bare_words_are_read(c: Cursor, read: Seq<u8>, word: Seq<u8>)
    requires
        word.len() < c.rest.len(),
        c.rest.take(word.len() as int) == word,
        name_run(word),
        !name_byte(c.rest[word.len() as int]),
        room(c, word.len() as int),
    ensures
        model::bare(c, read) == given(read + word, forward(c, word.len() as int)),
    decreases word.len(),
{
    if word.len() == 0 {
        assert(read + word =~= read);
        assert(c.rest.skip(0) =~= c.rest);
    } else {
        let rest = word.skip(1);
        assert(word[0] == c.rest[0]);
        assert(name_byte(word[0]));
        let after = c.next();
        assert(after == forward(c, 1));
        assert(after.rest.take(rest.len() as int) =~= rest);
        assert forall|i: int| 0 <= i < rest.len() implies name_byte(#[trigger] rest[i]) by {
            assert(rest[i] == word[i + 1]);
        }
        bare_words_are_read(after, read.push(word[0]), rest);
        assert(read.push(word[0]) + rest =~= read + word);
        forward_twice(c, 1, rest.len() as int);
    }
}

/// Blanks before a token are passed.
pub proof fn blanks_are_passed(c: Cursor, gap: Seq<u8>, stop_at_newline: bool)
    requires
        gap.len() < c.rest.len(),
        c.rest.take(gap.len() as int) == gap,
        blanks(gap),
        c.rest[gap.len() as int] != 0x3b,
        !bytes::space(c.rest[gap.len() as int]),
        room(c, gap.len() as int),
    ensures
        model::gap(c, stop_at_newline) == given(false, forward(c, gap.len() as int)),
    decreases gap.len(),
{
    if gap.len() == 0 {
        assert(c.rest.skip(0) =~= c.rest);
    } else {
        let rest = gap.skip(1);
        assert(gap[0] == c.rest[0]);
        let after = c.next();
        assert(after == forward(c, 1));
        assert(after.rest.take(rest.len() as int) =~= rest);
        assert forall|i: int| 0 <= i < rest.len() implies #[trigger] rest[i] == 0x20 by {
            assert(rest[i] == gap[i + 1]);
        }
        blanks_are_passed(after, rest, stop_at_newline);
        forward_twice(c, 1, rest.len() as int);
    }
}

/// A token is read behind its blanks, as it is written.
pub proof fn tokens_are_read(c: Cursor, gap: Seq<u8>, word: Seq<u8>, stop_at_newline: bool)
    requires
        gap.len() + word.len() < c.rest.len(),
        c.rest.take(gap.len() as int) == gap,
        c.rest.subrange(gap.len() as int, (gap.len() + word.len()) as int) == word,
        blanks(gap),
        bare_token(word) || mark_token(word),
        bare_token(word) ==> !name_byte(c.rest[(gap.len() + word.len()) as int])
            && c.rest[(gap.len() + word.len()) as int] != 0x22,
        room(c, (gap.len() + word.len()) as int),
    ensures
        model::token(c, stop_at_newline) == given(
            Some(Word { bytes: word, offset: (c.offset + gap.len()) as u64 }),
            forward(c, (gap.len() + word.len()) as int),
        ),
        model::required(c) == given(
            Word { bytes: word, offset: (c.offset + gap.len()) as u64 },
            forward(c, (gap.len() + word.len()) as int),
        ),
{
    let start = forward(c, gap.len() as int);
    assert(word[0] == c.rest[gap.len() as int]);
    blanks_are_passed(c, gap, stop_at_newline);
    blanks_are_passed(c, gap, false);
    let after = forward(start, 1);
    assert(start.rest[0] == word[0]);
    assert(model::take(start) == given(Some(word[0]), after));
    forward_twice(c, gap.len() as int, 1);
    if bare_token(word) {
        let rest = word.skip(1);
        assert(after.rest.take(rest.len() as int) =~= rest);
        bare_words_are_read(after, seq![word[0]], rest);
        assert(seq![word[0]] + rest =~= word);
        forward_twice(start, 1, rest.len() as int);
        forward_twice(c, gap.len() as int, word.len() as int);
        assert(after.rest[0] != 0x22) by {
            if rest.len() > 0 {
                assert(after.rest[0] == rest[0]);
                assert(name_byte(rest[0]));
            }
        }
        assert(model::completion(after, word[0]) == model::bare(after, seq![word[0]]));
    } else {
        assert(word =~= seq![word[0]]);
        assert(model::completion(after, word[0]) == given(word, after));
    }
}

/// The rest of a line is passed together with its line feed.
pub proof fn lines_are_passed(c: Cursor, content: Seq<u8>)
    requires
        content.len() < c.rest.len(),
        c.rest.take(content.len() as int) == content,
        forall|i: int| 0 <= i < content.len() ==> #[trigger] content[i] != 0x0a,
        c.rest[content.len() as int] == 0x0a,
        room(c, content.len() as int + 1),
    ensures
        model::line(c) == given((), forward(c, content.len() as int + 1)),
    decreases content.len(),
{
    let after = forward(c, 1);
    assert(after == c.next());
    if content.len() > 0 {
        let rest = content.skip(1);
        assert(content[0] == c.rest[0]);
        assert(after.rest.take(rest.len() as int) =~= rest);
        assert forall|i: int| 0 <= i < rest.len() implies #[trigger] rest[i] != 0x0a by {
            assert(rest[i] == content[i + 1]);
        }
        lines_are_passed(after, rest);
        forward_twice(c, 1, rest.len() as int + 1);
    }
}

/// The cursor with other bytes behind a number of bytes.
pub open spec fn at(c: Cursor, rest: Seq<u8>, count: int) -> Cursor {
    Cursor { rest, offset: (c.offset + count) as u64, ..c }
}

/// Blanks and a token, as they are written before further text, are one step.
pub proof fn written_tokens_are_read(
    c: Cursor,
    gap: Seq<u8>,
    word: Seq<u8>,
    rest: Seq<u8>,
    stop_at_newline: bool,
)
    requires
        c.rest == gap + (word + rest),
        rest.len() > 0,
        blanks(gap),
        bare_token(word) || mark_token(word),
        bare_token(word) ==> !name_byte(rest[0]) && rest[0] != 0x22,
        room(c, (gap.len() + word.len()) as int),
    ensures
        model::token(c, stop_at_newline) == given(
            Some(Word { bytes: word, offset: (c.offset + gap.len()) as u64 }),
            at(c, rest, (gap.len() + word.len()) as int),
        ),
        model::required(c) == given(
            Word { bytes: word, offset: (c.offset + gap.len()) as u64 },
            at(c, rest, (gap.len() + word.len()) as int),
        ),
{
    assert(c.rest.take(gap.len() as int) =~= gap);
    assert(c.rest.subrange(gap.len() as int, (gap.len() + word.len()) as int) =~= word);
    assert(c.rest.skip((gap.len() + word.len()) as int) =~= rest);
    assert(c.rest[(gap.len() + word.len()) as int] == rest[0]);
    tokens_are_read(c, gap, word, stop_at_newline);
}

/// Written text through a line feed is one line.
pub proof fn written_lines_are_passed(c: Cursor, content: Seq<u8>, rest: Seq<u8>)
    requires
        c.rest == content + (seq![0x0au8] + rest),
        forall|i: int| 0 <= i < content.len() ==> #[trigger] content[i] != 0x0a,
        room(c, content.len() as int + 1),
    ensures
        model::line(c) == given((), at(c, rest, content.len() as int + 1)),
{
    assert(c.rest.take(content.len() as int) =~= content);
    assert(c.rest.skip(content.len() as int + 1) =~= rest);
    assert(c.rest[content.len() as int] == 0x0a);
    lines_are_passed(c, content);
}

/// The bytes of ASCII text are its characters.
pub proof fn ascii_is_written_as_it_is(text: Seq<char>)
    requires
        vstd::utf8::is_ascii_chars(text),
    ensures
        vstd::utf8::encode_utf8(text).len() == text.len(),
        forall|i: int|
            0 <= i < text.len() ==> #[trigger] vstd::utf8::encode_utf8(text)[i] == text[i] as u8,
        vstd::utf8::valid_utf8(vstd::utf8::encode_utf8(text)),
        vstd::utf8::decode_utf8(vstd::utf8::encode_utf8(text)) == text,
{
    vstd::utf8::is_ascii_chars_encode_utf8(text);
    vstd::utf8::encode_utf8_valid_utf8(text);
    vstd::utf8::encode_utf8_decode_utf8(text);
}

} // verus!

//! What the scanner passes over inside a function body.

use super::error::{Fault, IndexError};
use super::model;
use super::model::{BodyState, Cursor};
use super::token_laws;
use vstd::prelude::*;

verus! {

/// Bytes of a body that neither open nor close a brace, a string or a comment.
pub open spec fn quiet(content: Seq<u8>) -> bool {
    forall|i: int|
        0 <= i < content.len() ==> #[trigger] content[i] != 0x22 && content[i] != 0x3b && content[i]
            != 0x7b && content[i] != 0x7d
}

/// Bytes without a line feed.
pub open spec fn one_line(content: Seq<u8>) -> bool {
    forall|i: int| 0 <= i < content.len() ==> #[trigger] content[i] != 0x0a
}

/// A hexadecimal digit.
pub open spec fn hex(byte: u8) -> bool {
    0x30 <= byte <= 0x39 || 0x41 <= byte <= 0x46 || 0x61 <= byte <= 0x66
}

/// The inside of a string: neither quotes nor line ends, and every backslash stands before another
/// one or before two hexadecimal digits.
pub open spec fn string_content(content: Seq<u8>) -> bool
    decreases content.len(),
{
    if content.len() == 0 {
        true
    } else if content[0] == 0x5c {
        if content.len() >= 2 && content[1] == 0x5c {
            string_content(content.skip(2))
        } else {
            content.len() >= 3 && hex(content[1]) && hex(content[2]) && string_content(
                content.skip(3),
            )
        }
    } else {
        content[0] != 0x22 && content[0] != 0x0a && content[0] != 0x0d && string_content(
            content.skip(1),
        )
    }
}

/// A place in a body that is neither in a string nor in a comment.
pub open spec fn open_at(depth: nat) -> BodyState {
    BodyState { depth, quoted: false, comment: false, escape_digits: 0 }
}

proof fn bytes_are_taken(c: Cursor, state: BodyState)
    requires
        c.rest.len() > 0,
        token_laws::room(c, 1),
    ensures
        model::take(c) == token_laws::given(Some(c.rest[0]), c.next()),
        c.next() == token_laws::at(c, c.rest.skip(1), 1),
{
}

/// Quiet bytes are passed.
pub proof fn quiet_bytes_are_passed(c: Cursor, content: Seq<u8>, rest: Seq<u8>, depth: nat)
    requires
        quiet(content),
        c.rest == content + rest,
        token_laws::room(c, content.len() as int),
    ensures
        model::body(c, open_at(depth)) == model::body(
            token_laws::at(c, rest, content.len() as int),
            open_at(depth),
        ),
    decreases content.len(),
{
    if content.len() == 0 {
        assert(c.rest =~= rest);
    } else {
        let tail = content.skip(1);
        let after = c.next();
        bytes_are_taken(c, open_at(depth));
        assert(c.rest[0] == content[0]);
        assert(after.rest =~= tail + rest);
        assert forall|i: int| 0 <= i < tail.len() implies #[trigger] tail[i] != 0x22 && tail[i]
            != 0x3b && tail[i] != 0x7b && tail[i] != 0x7d by {
            assert(tail[i] == content[i + 1]);
        }
        quiet_bytes_are_passed(after, tail, rest, depth);
        assert(token_laws::at(after, rest, tail.len() as int) == token_laws::at(
            c,
            rest,
            content.len() as int,
        ));
    }
}

proof fn commented_bytes_are_passed(c: Cursor, content: Seq<u8>, rest: Seq<u8>, depth: nat)
    requires
        one_line(content),
        c.rest == content + (seq![0x0au8] + rest),
        token_laws::room(c, content.len() as int + 1),
    ensures
        model::body(c, BodyState { comment: true, ..open_at(depth) }) == model::body(
            token_laws::at(c, rest, content.len() as int + 1),
            open_at(depth),
        ),
    decreases content.len(),
{
    let after = c.next();
    bytes_are_taken(c, open_at(depth));
    if content.len() == 0 {
        assert(c.rest[0] == 0x0a);
        assert(after.rest =~= rest);
    } else {
        let tail = content.skip(1);
        assert(c.rest[0] == content[0]);
        assert(after.rest =~= tail + (seq![0x0au8] + rest));
        assert forall|i: int| 0 <= i < tail.len() implies #[trigger] tail[i] != 0x0a by {
            assert(tail[i] == content[i + 1]);
        }
        commented_bytes_are_passed(after, tail, rest, depth);
        assert(token_laws::at(after, rest, tail.len() as int + 1) == token_laws::at(
            c,
            rest,
            content.len() as int + 1,
        ));
    }
}

/// A comment is passed through the end of its line, whatever it holds.
pub proof fn comments_are_passed(c: Cursor, content: Seq<u8>, rest: Seq<u8>, depth: nat)
    requires
        one_line(content),
        c.rest == seq![0x3bu8] + content + seq![0x0au8] + rest,
        token_laws::room(c, content.len() as int + 2),
    ensures
        model::body(c, open_at(depth)) == model::body(
            token_laws::at(c, rest, content.len() as int + 2),
            open_at(depth),
        ),
{
    bytes_are_taken(c, open_at(depth));
    let after = c.next();
    assert(after.rest =~= content + (seq![0x0au8] + rest));
    commented_bytes_are_passed(after, content, rest, depth);
    assert(token_laws::at(after, rest, content.len() as int + 1) == token_laws::at(
        c,
        rest,
        content.len() as int + 2,
    ));
}

proof fn quoted_bytes_are_passed(c: Cursor, content: Seq<u8>, rest: Seq<u8>, depth: nat)
    requires
        string_content(content),
        c.rest == content + rest,
        token_laws::room(c, content.len() as int),
    ensures
        model::body(c, BodyState { quoted: true, ..open_at(depth) }) == model::body(
            token_laws::at(c, rest, content.len() as int),
            BodyState { quoted: true, ..open_at(depth) },
        ),
    decreases content.len(),
{
    let state = BodyState { quoted: true, ..open_at(depth) };
    if content.len() == 0 {
        assert(c.rest =~= rest);
    } else {
        let after = c.next();
        bytes_are_taken(c, state);
        assert(c.rest[0] == content[0]);
        if content[0] != 0x5c {
            let tail = content.skip(1);
            assert(after.rest =~= tail + rest);
            quoted_bytes_are_passed(after, tail, rest, depth);
            assert(token_laws::at(after, rest, tail.len() as int) == token_laws::at(
                c,
                rest,
                content.len() as int,
            ));
        } else {
            let first = BodyState { escape_digits: 2, ..state };
            bytes_are_taken(after, first);
            assert(after.rest[0] == content[1]);
            let second = after.next();
            assert(model::body(c, state) == model::body(after, first));
            if content.len() >= 2 && content[1] == 0x5c {
                let tail = content.skip(2);
                assert(second.rest =~= tail + rest);
                quoted_bytes_are_passed(second, tail, rest, depth);
                assert(model::body(after, first) == model::body(second, state));
                assert(token_laws::at(second, rest, tail.len() as int) == token_laws::at(
                    c,
                    rest,
                    content.len() as int,
                ));
            } else {
                let middle = BodyState { escape_digits: 1, ..state };
                assert(model::body(after, first) == model::body(second, middle));
                bytes_are_taken(second, middle);
                assert(second.rest[0] == content[2]);
                let third = second.next();
                let tail = content.skip(3);
                assert(third.rest =~= tail + rest);
                assert(model::body(second, middle) == model::body(third, state));
                quoted_bytes_are_passed(third, tail, rest, depth);
                assert(token_laws::at(third, rest, tail.len() as int) == token_laws::at(
                    c,
                    rest,
                    content.len() as int,
                ));
            }
        }
    }
}

/// A string is passed through its closing quote. Braces and semicolons in it are content.
pub proof fn strings_are_passed(c: Cursor, content: Seq<u8>, rest: Seq<u8>, depth: nat)
    requires
        string_content(content),
        c.rest == seq![0x22u8] + content + seq![0x22u8] + rest,
        token_laws::room(c, content.len() as int + 2),
    ensures
        model::body(c, open_at(depth)) == model::body(
            token_laws::at(c, rest, content.len() as int + 2),
            open_at(depth),
        ),
{
    let state = BodyState { quoted: true, ..open_at(depth) };
    bytes_are_taken(c, open_at(depth));
    let after = c.next();
    let close = seq![0x22u8] + rest;
    assert(after.rest =~= content + close);
    quoted_bytes_are_passed(after, content, close, depth);
    let end = token_laws::at(after, close, content.len() as int);
    bytes_are_taken(end, state);
    assert(end.rest.skip(1) =~= rest);
    assert(end.next() == token_laws::at(c, rest, content.len() as int + 2));
}

/// An inner brace opens one level, and the brace that closes it goes back to the level before.
pub proof fn braces_nest(c: Cursor, content: Seq<u8>, rest: Seq<u8>, depth: nat)
    requires
        quiet(content),
        depth > 0,
        c.rest == seq![0x7bu8] + content + seq![0x7du8] + rest,
        token_laws::room(c, content.len() as int + 2),
    ensures
        model::body(c, open_at(depth)) == model::body(
            token_laws::at(c, rest, content.len() as int + 2),
            open_at(depth),
        ),
{
    bytes_are_taken(c, open_at(depth));
    let after = c.next();
    let close = seq![0x7du8] + rest;
    assert(after.rest =~= content + close);
    quiet_bytes_are_passed(after, content, close, depth + 1);
    let end = token_laws::at(after, close, content.len() as int);
    bytes_are_taken(end, open_at(depth + 1));
    assert(end.rest.skip(1) =~= rest);
    assert(end.next() == token_laws::at(c, rest, content.len() as int + 2));
}

/// A part of a body: quiet bytes, a string, a comment through the end of its line, or quiet bytes
/// in braces.
pub open spec fn part(piece: Seq<u8>) -> bool {
    ||| quiet(piece)
    ||| in_marks(piece, 0x22, 0x22) && string_content(piece.subrange(1, piece.len() - 1))
    ||| in_marks(piece, 0x3b, 0x0a) && one_line(piece.subrange(1, piece.len() - 1))
    ||| in_marks(piece, 0x7b, 0x7d) && quiet(piece.subrange(1, piece.len() - 1))
}

/// A text that starts and ends with given bytes.
pub open spec fn in_marks(piece: Seq<u8>, first: u8, last: u8) -> bool {
    piece.len() >= 2 && piece[0] == first && piece.last() == last
}

/// Parts one behind the other.
pub open spec fn written(pieces: Seq<Seq<u8>>) -> Seq<u8>
    decreases pieces.len(),
{
    if pieces.len() == 0 {
        Seq::empty()
    } else {
        pieces[0] + written(pieces.skip(1))
    }
}

proof fn parts_are_passed(c: Cursor, piece: Seq<u8>, rest: Seq<u8>, depth: nat)
    requires
        part(piece),
        depth > 0,
        c.rest == piece + rest,
        token_laws::room(c, piece.len() as int),
    ensures
        model::body(c, open_at(depth)) == model::body(
            token_laws::at(c, rest, piece.len() as int),
            open_at(depth),
        ),
{
    if quiet(piece) {
        quiet_bytes_are_passed(c, piece, rest, depth);
    } else {
        let inner = piece.subrange(1, piece.len() - 1);
        assert(c.rest =~= seq![piece[0]] + inner + seq![piece.last()] + rest);
        if in_marks(piece, 0x22, 0x22) && string_content(inner) {
            strings_are_passed(c, inner, rest, depth);
        } else if in_marks(piece, 0x3b, 0x0a) && one_line(inner) {
            comments_are_passed(c, inner, rest, depth);
        } else {
            braces_nest(c, inner, rest, depth);
        }
    }
}

proof fn pieces_are_passed(c: Cursor, pieces: Seq<Seq<u8>>, rest: Seq<u8>, depth: nat)
    requires
        forall|i: int| 0 <= i < pieces.len() ==> part(#[trigger] pieces[i]),
        depth > 0,
        c.rest == written(pieces) + rest,
        token_laws::room(c, written(pieces).len() as int),
    ensures
        model::body(c, open_at(depth)) == model::body(
            token_laws::at(c, rest, written(pieces).len() as int),
            open_at(depth),
        ),
    decreases pieces.len(),
{
    if pieces.len() == 0 {
        assert(c.rest =~= rest);
    } else {
        let tail = pieces.skip(1);
        let behind = written(tail) + rest;
        assert(c.rest =~= pieces[0] + behind);
        parts_are_passed(c, pieces[0], behind, depth);
        let after = token_laws::at(c, behind, pieces[0].len() as int);
        assert forall|i: int| 0 <= i < tail.len() implies part(#[trigger] tail[i]) by {
            assert(tail[i] == pieces[i + 1]);
        }
        pieces_are_passed(after, tail, rest, depth);
        assert(token_laws::at(after, rest, written(tail).len() as int) == token_laws::at(
            c,
            rest,
            written(pieces).len() as int,
        ));
    }
}

/// A body ends with the brace that closes it, behind all of its parts.
pub proof fn bodies_are_passed(c: Cursor, pieces: Seq<Seq<u8>>, rest: Seq<u8>)
    requires
        forall|i: int| 0 <= i < pieces.len() ==> part(#[trigger] pieces[i]),
        c.rest == written(pieces) + (seq![0x7du8] + rest),
        token_laws::room(c, written(pieces).len() as int + 1),
    ensures
        model::body(c, model::fresh_body()) == token_laws::given(
            (),
            token_laws::at(c, rest, written(pieces).len() as int + 1),
        ),
{
    let close = seq![0x7du8] + rest;
    pieces_are_passed(c, pieces, close, 1);
    let end = token_laws::at(c, close, written(pieces).len() as int);
    bytes_are_taken(end, open_at(1));
    assert(end.rest.skip(1) =~= rest);
    assert(end.next() == token_laws::at(c, rest, written(pieces).len() as int + 1));
}

/// A body that ends before its closing brace is refused where it ends.
pub proof fn unclosed_bodies_are_refused(c: Cursor, content: Seq<u8>, depth: nat)
    requires
        quiet(content),
        c.rest == content,
        c.ending is None,
        token_laws::room(c, content.len() as int),
    ensures
        model::body(c, open_at(depth)) == Err::<((), Cursor), IndexError>(
            IndexError::Malformed {
                offset: (c.offset + content.len()) as u64,
                fault: Fault::UnclosedBody,
            },
        ),
{
    let none = Seq::<u8>::empty();
    assert(c.rest =~= content + none);
    quiet_bytes_are_passed(c, content, none, depth);
}

/// A string of a body that does not end on its line is refused at the end of the line.
pub proof fn open_strings_are_refused(
    c: Cursor,
    content: Seq<u8>,
    end: u8,
    rest: Seq<u8>,
    depth: nat,
)
    requires
        string_content(content),
        end == 0x0a || end == 0x0d,
        c.rest == seq![0x22u8] + content + seq![end] + rest,
        token_laws::room(c, content.len() as int + 2),
    ensures
        model::body(c, open_at(depth)) == Err::<((), Cursor), IndexError>(
            IndexError::Malformed {
                offset: (c.offset + content.len() + 1) as u64,
                fault: Fault::BareNewline,
            },
        ),
{
    let state = BodyState { quoted: true, ..open_at(depth) };
    bytes_are_taken(c, open_at(depth));
    let after = c.next();
    let close = seq![end] + rest;
    assert(after.rest =~= content + close);
    quoted_bytes_are_passed(after, content, close, depth);
    bytes_are_taken(token_laws::at(after, close, content.len() as int), state);
}

} // verus!

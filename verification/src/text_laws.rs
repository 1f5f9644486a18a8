//! What holds of texts, lines, numerals and paths.

use crate::chars;
use crate::paths;
use crate::records;
use crate::records::{KeyData, SourceData};
use crate::text;
use vstd::prelude::*;

verus! {

/// The characters that count as white space: those with the Unicode property of that name.
pub open spec fn white_codes() -> Seq<int> {
    seq![
        0x9,
        0xa,
        0xb,
        0xc,
        0xd,
        0x20,
        0x85,
        0xa0,
        0x1680,
        0x2000,
        0x2001,
        0x2002,
        0x2003,
        0x2004,
        0x2005,
        0x2006,
        0x2007,
        0x2008,
        0x2009,
        0x200a,
        0x2028,
        0x2029,
        0x202f,
        0x205f,
        0x3000,
    ]
}

/// A trimmed text neither starts nor ends with white space, and only white space was taken away.
pub proof fn trimmed_texts_have_no_margins(content: Seq<char>)
    ensures
        ({
            let middle = chars::trimmed(content);
            &&& middle.len() > 0 ==> !chars::white(middle[0]) && !chars::white(middle.last())
            &&& exists|front: Seq<char>, back: Seq<char>|
                content == #[trigger] (front + middle + back) && (forall|i: int|
                    0 <= i < front.len() ==> chars::white(#[trigger] front[i])) && (forall|i: int|
                    0 <= i < back.len() ==> chars::white(#[trigger] back[i]))
        }),
{
    let start = chars::trimmed_start(content);
    let front = starts_are_white(content);
    let middle = chars::trimmed(content);
    let back = ends_are_white(start);
    assert(content =~= front + middle + back);
    if middle.len() > 0 {
        assert(middle[0] == start[0]);
    }
}

proof fn starts_are_white(content: Seq<char>) -> (front: Seq<char>)
    ensures
        content == front + chars::trimmed_start(content),
        forall|i: int| 0 <= i < front.len() ==> chars::white(#[trigger] front[i]),
        chars::trimmed_start(content).len() > 0 ==> !chars::white(
            chars::trimmed_start(content)[0],
        ),
    decreases content.len(),
{
    if content.len() > 0 && chars::white(content[0]) {
        let rest = starts_are_white(content.skip(1));
        let front = seq![content[0]] + rest;
        let middle = chars::trimmed_start(content);
        assert(content =~= seq![content[0]] + content.skip(1));
        assert(seq![content[0]] + (rest + middle) =~= front + middle);
        front
    } else {
        assert(content =~= Seq::<char>::empty() + content);
        Seq::empty()
    }
}

proof fn ends_are_white(content: Seq<char>) -> (back: Seq<char>)
    ensures
        content == chars::trimmed_end(content) + back,
        forall|i: int| 0 <= i < back.len() ==> chars::white(#[trigger] back[i]),
        chars::trimmed_end(content).len() > 0 ==> !chars::white(chars::trimmed_end(content).last()),
    decreases content.len(),
{
    if content.len() > 0 && chars::white(content.last()) {
        let rest = ends_are_white(content.drop_last());
        let back = rest.push(content.last());
        let middle = chars::trimmed_end(content);
        assert(content =~= content.drop_last().push(content.last()));
        assert((middle + rest).push(content.last()) =~= middle + back);
        back
    } else {
        assert(content =~= content + Seq::<char>::empty());
        Seq::empty()
    }
}

/// A character is white space exactly if its code is one of the listed.
pub proof fn white_characters_are_listed(character: char)
    ensures
        chars::white(character) <==> white_codes().contains(character as int),
{
    let codes = white_codes();
    let code = character as int;
    assert(codes[0] == 0x9 && codes[1] == 0xa && codes[2] == 0xb && codes[3] == 0xc && codes[4]
        == 0xd && codes[5] == 0x20 && codes[6] == 0x85 && codes[7] == 0xa0 && codes[8] == 0x1680);
    assert(codes[9] == 0x2000 && codes[10] == 0x2001 && codes[11] == 0x2002 && codes[12] == 0x2003
        && codes[13] == 0x2004 && codes[14] == 0x2005 && codes[15] == 0x2006 && codes[16]
        == 0x2007 && codes[17] == 0x2008 && codes[18] == 0x2009 && codes[19] == 0x200a);
    assert(codes[20] == 0x2028 && codes[21] == 0x2029 && codes[22] == 0x202f && codes[23] == 0x205f
        && codes[24] == 0x3000);
}

proof fn pieces_end_with_feeds(line: Seq<char>, rest: Seq<char>)
    requires
        !line.contains('\n'),
    ensures
        chars::piece_length(line + (seq!['\n'] + rest)) == line.len() + 1,
    decreases line.len(),
{
    let whole = line + (seq!['\n'] + rest);
    if line.len() == 0 {
        assert(whole[0] == '\n');
    } else {
        let tail = line.skip(1);
        assert(whole[0] == line[0] && line.contains(line[0]));
        assert(whole.skip(1) =~= tail + (seq!['\n'] + rest));
        assert forall|i: int| 0 <= i < tail.len() implies tail[i] != '\n' by {
            assert(tail[i] == line[i + 1]);
            assert(line.contains(line[i + 1]));
        }
        pieces_end_with_feeds(tail, rest);
    }
}

proof fn last_pieces_have_no_feed(line: Seq<char>)
    requires
        !line.contains('\n'),
    ensures
        chars::piece_length(line) == line.len(),
    decreases line.len(),
{
    if line.len() > 0 {
        let tail = line.skip(1);
        assert(line.contains(line[0]));
        assert forall|i: int| 0 <= i < tail.len() implies tail[i] != '\n' by {
            assert(tail[i] == line[i + 1]);
            assert(line.contains(line[i + 1]));
        }
        last_pieces_have_no_feed(tail);
    }
}

/// The lines of a text are the texts before its line feeds and the text behind the last, each
/// without a carriage return in front of its line feed.
pub proof fn lines_end_with_feeds(line: Seq<char>, rest: Seq<char>)
    requires
        !line.contains('\n'),
        line.len() > 0 ==> line.last() != '\r',
    ensures
        chars::lines_of(line + (seq!['\n'] + rest)) == seq![line] + chars::lines_of(rest),
        chars::lines_of(line + (seq!['\r', '\n'] + rest)) == seq![line] + chars::lines_of(rest),
        line.len() > 0 ==> chars::lines_of(line) == seq![line],
        chars::lines_of(Seq::empty()) == Seq::<Seq<char>>::empty(),
{
    let strip = |piece: Seq<char>| chars::line_of(piece);
    let whole = line + (seq!['\n'] + rest);
    pieces_end_with_feeds(line, rest);
    let length = line.len() as int + 1;
    assert(whole.take(length) =~= line + seq!['\n']);
    assert(whole.skip(length) =~= rest);
    assert((line + seq!['\n']).drop_last() =~= line);
    assert(chars::line_of(line + seq!['\n']) == line);
    assert(chars::pieces(whole) == seq![line + seq!['\n']] + chars::pieces(rest));
    assert(chars::lines_of(whole) =~= seq![line] + chars::lines_of(rest));
    let returned = line + seq!['\r'];
    let other = line + (seq!['\r', '\n'] + rest);
    assert(other =~= returned + (seq!['\n'] + rest));
    assert forall|i: int| 0 <= i < returned.len() implies returned[i] != '\n' by {
        if i < line.len() {
            assert(returned[i] == line[i]);
            assert(line.contains(line[i]));
        }
    }
    pieces_end_with_feeds(returned, rest);
    assert(other.take(length + 1) =~= returned + seq!['\n']);
    assert(other.skip(length + 1) =~= rest);
    assert((returned + seq!['\n']).drop_last() =~= returned);
    assert(returned.drop_last() =~= line);
    assert(chars::line_of(returned + seq!['\n']) == line);
    assert(chars::pieces(other) == seq![returned + seq!['\n']] + chars::pieces(rest));
    assert(chars::lines_of(other) =~= seq![line] + chars::lines_of(rest));
    let none = Seq::<char>::empty();
    assert(chars::pieces(none) =~= Seq::<Seq<char>>::empty());
    assert(chars::lines_of(none) =~= Seq::<Seq<char>>::empty());
    if line.len() > 0 {
        last_pieces_have_no_feed(line);
        assert(line.take(line.len() as int) =~= line);
        assert(line.skip(line.len() as int) =~= none);
        assert(line.last() != '\n') by {
            assert(line.contains(line[line.len() - 1]));
        }
        assert(chars::line_of(line) == line);
        assert(chars::pieces(line) =~= seq![line]);
        assert(chars::lines_of(line) =~= seq![line]);
    }
}

/// Texts are joined with the separator between them and nowhere else.
pub proof fn joined_texts_are_separated(
    left: Seq<Seq<char>>,
    right: Seq<Seq<char>>,
    separator: Seq<char>,
)
    requires
        left.len() > 0,
        right.len() > 0,
    ensures
        chars::joined(left + right, separator) == chars::joined(left, separator) + separator
            + chars::joined(right, separator),
        left.len() == 1 ==> chars::joined(left, separator) == left[0],
    decreases right.len(),
{
    let all = left + right;
    assert(all.last() == right.last());
    if right.len() == 1 {
        assert(all.drop_last() =~= left);
    } else {
        let start = right.drop_last();
        assert(all.drop_last() =~= left + start);
        joined_texts_are_separated(left, start, separator);
        let l = chars::joined(left, separator);
        let s = chars::joined(start, separator);
        assert(l + separator + s + separator + right.last() =~= l + separator + (s + separator
            + right.last()));
    }
}

/// Replacing changes exactly the characters that it is about.
pub proof fn replacements_are_exact(content: Seq<char>, from: char, to: char)
    ensures
        chars::replaced(content, from, to).len() == content.len(),
        forall|i: int| #![trigger chars::replaced(content, from, to)[i]]
            0 <= i < content.len() ==> chars::replaced(content, from, to)[i] == (if content[i]
                == from {
                to
            } else {
                content[i]
            }),
{
}

/// The number that decimal digits stand for.
pub open spec fn number_of(digits: Seq<char>) -> int
    decreases digits.len(),
{
    if digits.len() == 0 {
        0
    } else {
        number_of(digits.drop_last()) * 10 + (digits.last() as int - 0x30)
    }
}

/// A numeral stands for its number, holds digits alone, and has no leading zero.
pub proof fn numerals_stand_for_their_number(number: nat)
    ensures
        number_of(text::decimal(number)) == number,
        text::decimal(number).len() > 0,
        forall|i: int|
            0 <= i < text::decimal(number).len() ==> '0' <= #[trigger] text::decimal(number)[i]
                <= '9',
        number > 0 ==> text::decimal(number)[0] != '0',
    decreases number,
{
    let digits = text::decimal(number);
    reveal_with_fuel(number_of, 2);
    if number < 10 {
        assert(digits.drop_last() =~= Seq::<char>::empty());
    } else {
        numerals_stand_for_their_number(number / 10);
        assert(digits.drop_last() =~= text::decimal(number / 10));
        assert forall|i: int| 0 <= i < digits.len() implies '0' <= #[trigger] digits[i] <= '9' by {
            if i < digits.len() - 1 {
                assert(digits[i] == text::decimal(number / 10)[i]);
            }
        }
        assert(digits[0] == text::decimal(number / 10)[0]);
    }
}

/// The number that lower-case hexadecimal digits stand for.
pub open spec fn hex_number_of(digits: Seq<char>) -> int
    decreases digits.len(),
{
    if digits.len() == 0 {
        0
    } else {
        hex_number_of(digits.drop_last()) * 16 + (if digits.last() <= '9' {
            digits.last() as int - 0x30
        } else {
            digits.last() as int - 0x61 + 10
        })
    }
}

spec fn power(count: nat) -> nat
    decreases count,
{
    if count == 0 {
        1
    } else {
        16 * power((count - 1) as nat)
    }
}

proof fn hex_digits_stand_for(number: nat, count: nat)
    requires
        number < power(count),
    ensures
        text::hex_digits(number, count).len() == count,
        hex_number_of(text::hex_digits(number, count)) == number,
    decreases count,
{
    if count > 0 {
        let rest = number / 16;
        assert(rest < power((count - 1) as nat)) by (nonlinear_arith)
            requires
                number < 16 * power((count - 1) as nat),
                rest == number / 16,
        ;
        hex_digits_stand_for(rest, (count - 1) as nat);
        let digits = text::hex_digits(number, count);
        assert(digits.drop_last() =~= text::hex_digits(rest, (count - 1) as nat));
    }
}

/// Sixteen hexadecimal digits stand for their number. Two numbers have different digits.
pub proof fn hexadecimal_digits_stand_for_their_number(left: u64, right: u64)
    ensures
        text::hex_digits(left as nat, 16).len() == 16,
        hex_number_of(text::hex_digits(left as nat, 16)) == left,
        text::hex_digits(left as nat, 16) == text::hex_digits(right as nat, 16) ==> left == right,
{
    assert(power(16) == 0x1_0000_0000_0000_0000) by {
        reveal_with_fuel(power, 17);
    }
    hex_digits_stand_for(left as nat, 16);
    hex_digits_stand_for(right as nat, 16);
}

/// A plain name: not empty, without a separator, and neither of the two relative names.
pub open spec fn plain(name: Seq<char>) -> bool {
    &&& name.len() > 0
    &&& !name.contains('/')
    &&& name != seq!['.']
    &&& name != seq!['.', '.']
}

proof fn names_start_behind_separators(path: Seq<char>, start: int)
    requires
        0 < start <= path.len(),
        path[start - 1] == '/',
        forall|i: int| start <= i < path.len() ==> #[trigger] path[i] != '/',
    ensures
        paths::name_index(path) == start,
    decreases path.len(),
{
    if start < path.len() {
        assert(path[path.len() - 1] != '/');
        let front = path.drop_last();
        assert forall|i: int| start <= i < front.len() implies #[trigger] front[i] != '/' by {
            assert(front[i] == path[i]);
        }
        assert(front[start - 1] == path[start - 1]);
        names_start_behind_separators(front, start);
    }
}

/// A plain name below a directory is the name of the joined path, and the directory is its parent.
pub proof fn joined_paths_come_apart(base: Seq<char>, name: Seq<char>)
    requires
        plain(name),
        base.len() > 0,
        base.last() != '/',
        paths::trimmed(base) == base,
    ensures
        paths::joined(base, name) == base + seq!['/'] + name,
        paths::name_of(paths::joined(base, name)) == Some(name),
        paths::parent_of(paths::joined(base, name)) == Some(base),
{
    let path = base + seq!['/'] + name;
    assert(name.contains(name[0]));
    assert(paths::joined(base, name) == path);
    assert(path.last() == name.last());
    assert(name.contains(name[name.len() - 1]));
    if path.last() == '.' && path[path.len() - 2] == '/' {
        if name.len() > 1 {
            assert(path[path.len() - 2] == name[name.len() - 2]);
            assert(name.contains(name[name.len() - 2]));
        } else {
            assert(name =~= seq!['.']);
        }
    }
    assert(paths::trimmed(path) == path);
    let start = base.len() as int + 1;
    assert(path[start - 1] == '/');
    assert forall|i: int| start <= i < path.len() implies #[trigger] path[i] != '/' by {
        assert(path[i] == name[i - start]);
        assert(name.contains(name[i - start]));
    }
    names_start_behind_separators(path, start);
    assert(path.skip(start) =~= name);
    let front = path.take(start);
    assert(front =~= base + seq!['/']);
    assert(front.last() == '/');
    assert(front.drop_last() =~= base);
    assert(paths::trimmed(front) == base) by {
        reveal_with_fuel(paths::trimmed, 2);
    }
}

/// An absolute path replaces its base. A relative one stands below it, with one separator between.
pub proof fn joined_paths_stand_below(base: Seq<char>, path: Seq<char>)
    ensures
        path.len() > 0 && path[0] == '/' ==> paths::joined(base, path) == path,
        path.len() == 0 || path[0] != '/' ==> {
            &&& base.len() == 0 ==> paths::joined(base, path) == path
            &&& base.len() > 0 && base.last() == '/' ==> paths::joined(base, path) == base + path
            &&& base.len() > 0 && base.last() != '/' ==> paths::joined(base, path) == base + seq![
                '/',
            ] + path
        },
{
    if base.len() == 0 {
        assert(base + path =~= path);
    }
}

/// Instances are ordered by the crate of their definition, then by its path, then by their name and
/// last by their symbol.
pub proof fn keys_are_ordered_field_by_field(left: KeyData, right: KeyData)
    ensures
        left.definition_crate != right.definition_crate ==> (records::key_less(left, right)
            <==> crate::order::text_less(left.definition_crate, right.definition_crate)),
        left.definition_crate == right.definition_crate && left.definition_path
            != right.definition_path ==> (records::key_less(left, right)
            <==> crate::order::text_less(left.definition_path, right.definition_path)),
        left.definition_crate == right.definition_crate && left.definition_path
            == right.definition_path && left.display_name != right.display_name ==> (
        records::key_less(left, right) <==> crate::order::text_less(
            left.display_name,
            right.display_name,
        )),
        left.definition_crate == right.definition_crate && left.definition_path
            == right.definition_path && left.display_name == right.display_name ==> (
        records::key_less(left, right) <==> crate::order::text_less(
            left.raw_symbol,
            right.raw_symbol,
        )),
{
}

/// Bytes are compared like a dictionary: the first difference decides, and a start comes before what
/// continues it.
pub proof fn first_differences_decide(common: Seq<u8>, left: Seq<u8>, right: Seq<u8>)
    requires
        left.len() > 0 && right.len() > 0 ==> left[0] != right[0],
    ensures
        left.len() > 0 && right.len() > 0 ==> (crate::order::bytes_less(
            common + left,
            common + right,
        ) <==> left[0] < right[0]),
        left.len() == 0 ==> (crate::order::bytes_less(common + left, common + right) <==> right.len()
            > 0),
        left.len() > 0 && right.len() == 0 ==> !crate::order::bytes_less(
            common + left,
            common + right,
        ),
    decreases common.len(),
{
    if common.len() == 0 {
        assert(common + left =~= left);
        assert(common + right =~= right);
    } else {
        let tail = common.skip(1);
        assert((common + left).skip(1) =~= tail + left);
        assert((common + right).skip(1) =~= tail + right);
        first_differences_decide(tail, left, right);
    }
}

/// Two sources are the same exactly if both are missing for one reason, or both are available and
/// agree in their artifact, range and line and in the components of their path.
pub proof fn sources_are_compared(left: SourceData, right: SourceData)
    ensures
        left == right ==> records::same_source(left, right),
        records::same_source(left, right) ==> (left is Available <==> right is Available),
        left is Available && right is Available ==> (records::same_source(left, right) <==> {
            &&& left->artifact == right->artifact
            &&& left->start == right->start
            &&& left->length == right->length
            &&& left->line == right->line
            &&& paths::text_parts(left->path) == paths::text_parts(right->path)
        }),
        left is Unavailable && right is Unavailable ==> (records::same_source(left, right) <==> left
            == right),
{
}

} // verus!

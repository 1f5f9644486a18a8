//! What holds of every textual module.

use super::evidence::RecordData;
use super::llvm;
use super::llvm::{AliasPhase, Cursor, EndPhase, LineState, Phase};
use crate::bytes;
use vstd::prelude::*;

verus! {

/// Records come in input order, do not overlap, and lie within the module.
pub proof fn records_are_ordered(c: Cursor)
    ensures
        llvm::records(c, Seq::empty()) matches Ok(list) ==> {
            &&& forall|i: int|
                0 <= i < list.len() ==> c.offset <= (#[trigger] list[i]).start < list[i].end
                    <= c.offset + c.rest.len()
            &&& forall|i: int, j: int|
                0 <= i < j < list.len() ==> (#[trigger] list[i]).end <= (#[trigger] list[j]).start
        },
{
    records_are_ordered_behind(c, c, Seq::empty());
}

proof fn records_are_ordered_behind(origin: Cursor, c: Cursor, found: Seq<RecordData>)
    requires
        origin.offset <= c.offset,
        c.offset + c.rest.len() == origin.offset + origin.rest.len(),
        forall|i: int|
            0 <= i < found.len() ==> origin.offset <= (#[trigger] found[i]).start < found[i].end
                <= c.offset,
        forall|i: int, j: int|
            0 <= i < j < found.len() ==> (#[trigger] found[i]).end <= (#[trigger] found[j]).start,
    ensures
        llvm::records(c, found) matches Ok(list) ==> {
            &&& forall|i: int|
                0 <= i < list.len() ==> origin.offset <= (#[trigger] list[i]).start < list[i].end
                    <= origin.offset + origin.rest.len()
            &&& forall|i: int, j: int|
                0 <= i < j < list.len() ==> (#[trigger] list[i]).end <= (#[trigger] list[j]).start
        },
    decreases c.rest.len(),
{
    llvm::next_record_advances(c);
    if let Ok((Some(record), after)) = llvm::next_record(c) {
        records_are_ordered_behind(origin, after, found.push(record));
    }
}

/// A body line ends its function exactly if it holds a closing brace, whitespace around it, and
/// perhaps a comment.
pub proof fn closing_lines_are_recognized(line: Seq<u8>)
    ensures
        llvm::ends_body(llvm::end_run(EndPhase::LeadingWhitespace, line)) == llvm::closes(line),
    decreases line.len(),
{
    if line.len() > 0 {
        if bytes::space(line[0]) {
            closing_lines_are_recognized(line.skip(1));
        } else if line[0] == '}' as u8 {
            after_brace(line.skip(1));
        } else {
            stays(EndPhase::NotEnd, line.skip(1));
        }
    }
}

proof fn after_brace(line: Seq<u8>)
    ensures
        llvm::ends_body(llvm::end_run(EndPhase::AfterBrace, line)) == ({
            let rest = bytes::trimmed_start(line);
            rest.len() == 0 || rest[0] == ';' as u8
        }),
    decreases line.len(),
{
    if line.len() > 0 {
        if bytes::space(line[0]) {
            after_brace(line.skip(1));
        } else if line[0] == ';' as u8 {
            stays(EndPhase::Comment, line.skip(1));
        } else {
            stays(EndPhase::NotEnd, line.skip(1));
        }
    }
}

proof fn stays(phase: EndPhase, line: Seq<u8>)
    requires
        phase == EndPhase::Comment || phase == EndPhase::NotEnd,
    ensures
        llvm::end_run(phase, line) == phase,
    decreases line.len(),
{
    if line.len() > 0 {
        stays(phase, line.skip(1));
    }
}

/// What follows the sigil of an alias: a bare or quoted name and the alias keyword.
pub open spec fn alias_head(tail: Seq<u8>) -> bool {
    let pattern = llvm::utf8(" = alias "@);
    if tail.len() > 0 && tail[0] == '"' as u8 {
        llvm::closing_quote(tail, 1) matches Some(quote) && pattern.is_prefix_of(
            tail.skip(quote + 1),
        )
    } else {
        pattern.is_prefix_of(tail.skip(llvm::identifier_end(tail, 0)))
    }
}

/// The record that a line is: a declaration or a definition that starts the line, or an alias behind
/// whitespace. An alias loses the whitespace.
pub open spec fn record_of(line: Seq<u8>) -> Option<Seq<u8>> {
    let start = bytes::trimmed_start(line);
    if llvm::utf8("declare "@).is_prefix_of(line) || llvm::utf8("define "@).is_prefix_of(line) {
        Some(line)
    } else if start.len() > 0 && start[0] == '@' as u8 && alias_head(start.skip(1)) {
        Some(start)
    } else {
        None
    }
}

proof fn keyword_bytes()
    ensures
        llvm::utf8("declare "@).len() == 8,
        llvm::utf8("declare "@)[0] == 'd' as u8,
        llvm::utf8("declare "@)[2] == 'c' as u8,
        llvm::utf8("define "@).len() == 7,
        llvm::utf8("define "@)[0] == 'd' as u8,
        llvm::utf8("define "@)[2] == 'f' as u8,
        llvm::utf8(" = alias "@).len() == 9,
        llvm::utf8(" = alias "@)[0] == 0x20,
{
    reveal_strlit("declare ");
    reveal_strlit("define ");
    reveal_strlit(" = alias ");
    vstd::utf8::is_ascii_chars_encode_utf8("declare "@);
    vstd::utf8::is_ascii_chars_encode_utf8("define "@);
    vstd::utf8::is_ascii_chars_encode_utf8(" = alias "@);
}

proof fn record_run(state: LineState, tail: Seq<u8>)
    requires
        state.phase == Phase::Record,
    ensures
        llvm::line_run(state, tail) == (LineState {
            phase: Phase::Record,
            bytes: state.bytes + tail,
        }),
    decreases tail.len(),
{
    if tail.len() == 0 {
        assert(state.bytes + tail =~= state.bytes);
    } else {
        record_run(llvm::line_step(state, tail[0]), tail.skip(1));
        assert(state.bytes.push(tail[0]) + tail.skip(1) =~= state.bytes + tail);
    }
}

proof fn ignore_run(state: LineState, tail: Seq<u8>)
    requires
        state.phase == Phase::Ignore,
    ensures
        llvm::line_run(state, tail) == state,
    decreases tail.len(),
{
    if tail.len() > 0 {
        ignore_run(state, tail.skip(1));
    }
}

spec fn is_keyword(line: Seq<u8>) -> bool {
    llvm::utf8("declare "@).is_prefix_of(line) || llvm::utf8("define "@).is_prefix_of(line)
}

spec fn begins_keyword(read: Seq<u8>) -> bool {
    ||| read.is_prefix_of(llvm::utf8("declare "@)) && read.len() < 8
    ||| read.is_prefix_of(llvm::utf8("define "@)) && read.len() < 7
}

proof fn prefix_of_longer(keyword: Seq<u8>, read: Seq<u8>, tail: Seq<u8>)
    requires
        keyword.is_prefix_of(read + tail),
    ensures
        read.len() <= keyword.len() ==> read.is_prefix_of(keyword),
        read.len() >= keyword.len() ==> keyword.is_prefix_of(read),
{
    assert(forall|i: int| 0 <= i < keyword.len() ==> keyword[i] == (read + tail)[i]) by {
        assert(keyword =~= (read + tail).subrange(0, keyword.len() as int));
        assert forall|i: int| 0 <= i < keyword.len() implies keyword[i] == (read + tail)[i] by {
            assert((read + tail).subrange(0, keyword.len() as int)[i] == (read + tail)[i]);
        }
    }
    if read.len() <= keyword.len() {
        assert(read =~= keyword.subrange(0, read.len() as int));
    }
    if read.len() >= keyword.len() {
        assert(keyword =~= read.subrange(0, keyword.len() as int));
    }
}

proof fn keyword_run(read: Seq<u8>, tail: Seq<u8>)
    requires
        begins_keyword(read),
    ensures
        ({
            let end = llvm::line_run(LineState { phase: Phase::Keyword, bytes: read }, tail);
            if is_keyword(read + tail) {
                end == (LineState { phase: Phase::Record, bytes: read + tail })
            } else {
                end.phase != Phase::Record
            }
        }),
    decreases tail.len(),
{
    keyword_bytes();
    let declare = llvm::utf8("declare "@);
    let define = llvm::utf8("define "@);
    if tail.len() == 0 {
        assert(read + tail =~= read);
        if declare.is_prefix_of(read) {
            assert(read.len() == 7 ==> false);
        }
        if is_keyword(read) {
            if define.is_prefix_of(read) {
                assert(read.is_prefix_of(declare));
                assert(read[2] == declare[2]) by {
                    assert(read =~= declare.subrange(0, read.len() as int));
                }
                assert(define[2] == read[2]) by {
                    assert(define =~= read.subrange(0, 7));
                }
            }
        }
    } else {
        let next = read.push(tail[0]);
        assert(next + tail.skip(1) =~= read + tail);
        let state = LineState { phase: Phase::Keyword, bytes: read };
        if next == declare || next == define {
            record_run(LineState { phase: Phase::Record, bytes: next }, tail.skip(1));
            assert(next.is_prefix_of(read + tail)) by {
                assert(next =~= (read + tail).subrange(0, next.len() as int));
            }
        } else if next.is_prefix_of(declare) || next.is_prefix_of(define) {
            assert(begins_keyword(next)) by {
                if next.is_prefix_of(declare) && next.len() == 8 {
                    assert(next =~= declare);
                }
                if next.is_prefix_of(define) && next.len() == 7 {
                    assert(next =~= define);
                }
            }
            keyword_run(next, tail.skip(1));
        } else {
            ignore_run(llvm::ignored(), tail.skip(1));
            if declare.is_prefix_of(read + tail) {
                prefix_of_longer(declare, next, tail.skip(1));
                assert(false);
            }
            if define.is_prefix_of(read + tail) {
                prefix_of_longer(define, next, tail.skip(1));
                assert(next.len() == 8);
                assert(read.is_prefix_of(declare));
                assert(read =~= declare.subrange(0, 7));
                assert(define =~= next.subrange(0, 7));
                assert(define[2] == next[2]);
                assert(next[2] == read[2]);
                assert(read[2] == declare[2]);
                assert(false);
            }
        }
    }
}

proof fn pattern_run(read: Seq<u8>, matched: int, tail: Seq<u8>)
    requires
        0 <= matched < 9,
    ensures
        ({
            let end = llvm::line_run(
                LineState {
                    phase: Phase::Alias(AliasPhase::Pattern(matched as usize)),
                    bytes: read,
                },
                tail,
            );
            if llvm::utf8(" = alias "@).skip(matched).is_prefix_of(tail) {
                end == (LineState { phase: Phase::Record, bytes: read + tail })
            } else {
                end.phase != Phase::Record
            }
        }),
    decreases tail.len(),
{
    keyword_bytes();
    let pattern = llvm::utf8(" = alias "@);
    let left = pattern.skip(matched);
    if tail.len() > 0 {
        pattern_byte_run(read, matched, tail);
    }
}

proof fn pattern_byte_run(read: Seq<u8>, matched: int, tail: Seq<u8>)
    requires
        0 <= matched < 9,
        tail.len() > 0,
    ensures
        ({
            let step = llvm::pattern_step(tail[0], matched);
            let state = match step {
                Some(phase) => LineState { phase, bytes: read.push(tail[0]) },
                None => llvm::ignored(),
            };
            let end = llvm::line_run(state, tail.skip(1));
            if llvm::utf8(" = alias "@).skip(matched).is_prefix_of(tail) {
                end == (LineState { phase: Phase::Record, bytes: read + tail })
            } else {
                end.phase != Phase::Record
            }
        }),
    decreases tail.len(), 0int,
{
    keyword_bytes();
    let pattern = llvm::utf8(" = alias "@);
    let left = pattern.skip(matched);
    assert(left[0] == pattern[matched]);
    let next = read.push(tail[0]);
    assert(next + tail.skip(1) =~= read + tail);
    if pattern[matched] == tail[0] {
        assert(left.is_prefix_of(tail) == pattern.skip(matched + 1).is_prefix_of(tail.skip(1))) by {
            let shorter = pattern.skip(matched + 1);
            if left.is_prefix_of(tail) {
                assert(left =~= tail.subrange(0, left.len() as int));
                assert(shorter =~= tail.skip(1).subrange(0, shorter.len() as int)) by {
                    assert forall|i: int| 0 <= i < shorter.len() implies shorter[i] == tail.skip(
                        1,
                    )[i] by {
                        assert(shorter[i] == left[i + 1]);
                        assert(left[i + 1] == tail.subrange(0, left.len() as int)[i + 1]);
                    }
                }
            }
            if shorter.is_prefix_of(tail.skip(1)) {
                assert(shorter =~= tail.skip(1).subrange(0, shorter.len() as int));
                assert(left =~= tail.subrange(0, left.len() as int)) by {
                    assert forall|i: int| 0 <= i < left.len() implies left[i] == tail[i] by {
                        if i > 0 {
                            assert(left[i] == shorter[i - 1]);
                            assert(shorter[i - 1] == tail.skip(1).subrange(
                                0,
                                shorter.len() as int,
                            )[i - 1]);
                        }
                    }
                }
            }
        }
        if matched + 1 == 9 {
            record_run(LineState { phase: Phase::Record, bytes: next }, tail.skip(1));
            assert(pattern.skip(9) =~= Seq::empty());
            assert(pattern.skip(9).is_prefix_of(tail.skip(1))) by {
                assert(tail.skip(1).subrange(0, 0) =~= Seq::empty());
            }
        } else {
            pattern_run(next, matched + 1, tail.skip(1));
        }
    } else {
        ignore_run(llvm::ignored(), tail.skip(1));
        if left.is_prefix_of(tail) {
            assert(left =~= tail.subrange(0, left.len() as int));
            assert(left[0] == tail.subrange(0, left.len() as int)[0]);
        }
    }
}

proof fn unquoted_run(read: Seq<u8>, phase: AliasPhase, whole: Seq<u8>, at: int)
    requires
        0 <= at <= whole.len(),
        phase == AliasPhase::UnquotedName || (phase == AliasPhase::NameStart && at < whole.len()
            ==> whole[at] != '"' as u8),
        phase == AliasPhase::UnquotedName || phase == AliasPhase::NameStart,
    ensures
        ({
            let end = llvm::line_run(
                LineState { phase: Phase::Alias(phase), bytes: read },
                whole.skip(at),
            );
            if llvm::utf8(" = alias "@).is_prefix_of(whole.skip(llvm::identifier_end(whole, at))) {
                end == (LineState { phase: Phase::Record, bytes: read + whole.skip(at) })
            } else {
                end.phase != Phase::Record
            }
        }),
    decreases whole.len() - at,
{
    keyword_bytes();
    let pattern = llvm::utf8(" = alias "@);
    let tail = whole.skip(at);
    assert(pattern.skip(0) =~= pattern);
    if at < whole.len() {
        assert(tail[0] == whole[at]);
        assert(tail.skip(1) =~= whole.skip(at + 1));
        if llvm::identifier_byte(whole[at]) {
            unquoted_run(read.push(whole[at]), AliasPhase::UnquotedName, whole, at + 1);
            assert(read.push(whole[at]) + whole.skip(at + 1) =~= read + tail);
        } else {
            pattern_byte_run(read, 0, tail);
        }
    }
}

proof fn quoted_run(read: Seq<u8>, escaped: bool, whole: Seq<u8>, at: int)
    requires
        0 <= at <= whole.len(),
    ensures
        ({
            let phase = if escaped { AliasPhase::QuotedEscape } else { AliasPhase::QuotedName };
            let from = if escaped { at + 1 } else { at };
            let end = llvm::line_run(
                LineState { phase: Phase::Alias(phase), bytes: read },
                whole.skip(at),
            );
            if llvm::closing_quote(whole, from) matches Some(quote) && llvm::utf8(
                " = alias "@,
            ).is_prefix_of(whole.skip(quote + 1)) {
                end == (LineState { phase: Phase::Record, bytes: read + whole.skip(at) })
            } else {
                end.phase != Phase::Record
            }
        }),
    decreases whole.len() - at,
{
    keyword_bytes();
    let pattern = llvm::utf8(" = alias "@);
    let tail = whole.skip(at);
    assert(pattern.skip(0) =~= pattern);
    if at < whole.len() {
        assert(tail[0] == whole[at]);
        assert(tail.skip(1) =~= whole.skip(at + 1));
        let next = read.push(whole[at]);
        assert(next + whole.skip(at + 1) =~= read + tail);
        if escaped {
            quoted_run(next, false, whole, at + 1);
        } else if whole[at] == '\\' as u8 {
            quoted_run(next, true, whole, at + 1);
        } else if whole[at] == '"' as u8 {
            pattern_run(next, 0, whole.skip(at + 1));
        } else {
            quoted_run(next, false, whole, at + 1);
        }
    }
}

proof fn alias_run(tail: Seq<u8>)
    ensures
        ({
            let read = seq!['@' as u8];
            let end = llvm::line_run(
                LineState { phase: Phase::Alias(AliasPhase::NameStart), bytes: read },
                tail,
            );
            if alias_head(tail) {
                end == (LineState { phase: Phase::Record, bytes: read + tail })
            } else {
                end.phase != Phase::Record
            }
        }),
{
    let read = seq!['@' as u8];
    assert(tail.skip(0) =~= tail);
    if tail.len() > 0 && tail[0] == '"' as u8 {
        quoted_run(read.push(tail[0]), false, tail, 1);
        assert(read.push(tail[0]) + tail.skip(1) =~= read + tail);
    } else {
        unquoted_run(read, AliasPhase::NameStart, tail, 0);
    }
}

proof fn leading_run(line: Seq<u8>)
    ensures
        ({
            let end = llvm::line_run(
                LineState { phase: Phase::LeadingWhitespace, bytes: Seq::empty() },
                line,
            );
            let start = bytes::trimmed_start(line);
            if start.len() > 0 && start[0] == '@' as u8 && alias_head(start.skip(1)) {
                end == (LineState { phase: Phase::Record, bytes: start })
            } else {
                end.phase != Phase::Record
            }
        }),
    decreases line.len(),
{
    if line.len() > 0 {
        if bytes::space(line[0]) {
            leading_run(line.skip(1));
        } else if line[0] == '@' as u8 {
            assert(Seq::<u8>::empty().push('@' as u8) =~= seq!['@' as u8]);
            alias_run(line.skip(1));
            assert(seq!['@' as u8] + line.skip(1) =~= line);
        } else {
            ignore_run(LineState { phase: Phase::Ignore, bytes: Seq::empty() }, line.skip(1));
        }
    }
}

/// A line is retained exactly if it is a record, and then as that record.
pub proof fn retained_lines_are_records(line: Seq<u8>)
    ensures
        llvm::retained(line) == record_of(line),
{
    keyword_bytes();
    let declare = llvm::utf8("declare "@);
    let define = llvm::utf8("define "@);
    if is_keyword(line) {
        assert(line[0] == 'd' as u8) by {
            if declare.is_prefix_of(line) {
                assert(declare[0] == line.subrange(0, 8)[0]);
            } else {
                assert(define[0] == line.subrange(0, 7)[0]);
            }
        }
    }
    if line.len() > 0 {
        let read = Seq::<u8>::empty().push(line[0]);
        assert(read + line.skip(1) =~= line);
        if bytes::space(line[0]) {
            leading_run(line.skip(1));
        } else if line[0] == 'd' as u8 {
            assert(read =~= declare.subrange(0, 1));
            keyword_run(read, line.skip(1));
        } else if line[0] == '@' as u8 {
            assert(read =~= seq!['@' as u8]);
            alias_run(line.skip(1));
        } else {
            ignore_run(LineState { phase: Phase::Ignore, bytes: Seq::empty() }, line.skip(1));
        }
    }
}

} // verus!

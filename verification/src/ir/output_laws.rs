//! Laws of the Cargo output readers.

use super::cargo_output;
use super::cargo_output::{
    EventData, MessageData, StdoutState, MAX_CARGO_MESSAGE_BYTES, READ_BUFFER_BYTES,
};
use vstd::prelude::*;

verus! {

/// The bytes that reports forward, one behind the other.
pub open spec fn forwarded_bytes(reports: Seq<MessageData>) -> Seq<u8>
    decreases reports.len(),
{
    if reports.len() == 0 {
        Seq::empty()
    } else {
        match reports.last() {
            MessageData::Event(EventData::Stdout(bytes)) => forwarded_bytes(reports.drop_last())
                + bytes,
            _ => forwarded_bytes(reports.drop_last()),
        }
    }
}

/// A report forwards some bytes, and at most as many as a message may have.
pub open spec fn bounded_piece(report: MessageData) -> bool {
    match report {
        MessageData::Event(EventData::Stdout(bytes)) => 0 < bytes.len()
            <= MAX_CARGO_MESSAGE_BYTES,
        _ => false,
    }
}

/// Every report forwards a bounded piece.
pub open spec fn bounded_pieces(reports: Seq<MessageData>) -> bool {
    forall|i: int| 0 <= i < reports.len() ==> bounded_piece(#[trigger] reports[i])
}

/// An oversized line is reported as bounded pieces that together are the line, then as its length,
/// and as nothing else.
pub open spec fn forwarded_in_pieces(reports: Seq<MessageData>, line: Seq<u8>) -> bool {
    &&& reports.len() > 0
    &&& reports.last() == MessageData::MessageLimit(line.len() as usize)
    &&& bounded_pieces(reports.drop_last())
    &&& forwarded_bytes(reports) == line
}

/// What the reader reports does not depend on how the output is cut into reads.
pub proof fn pieces_do_not_matter(state: StdoutState, first: Seq<u8>, second: Seq<u8>)
    ensures
        ({
            let (middle, reports) = cargo_output::stdout_run(state, first);
            let (after, more) = cargo_output::stdout_run(middle, second);
            cargo_output::stdout_run(state, first + second) == (after, reports + more)
        }),
    decreases second.len(),
{
    let (middle, reports) = cargo_output::stdout_run(state, first);
    if second.len() == 0 {
        assert(first + second =~= first);
        assert(reports + Seq::<MessageData>::empty() =~= reports);
    } else {
        pieces_do_not_matter(state, first, second.drop_last());
        assert((first + second).drop_last() =~= first + second.drop_last());
        let (before, some) = cargo_output::stdout_run(middle, second.drop_last());
        let (after, more) = cargo_output::stdout_step(before, second.last());
        assert((reports + some) + more =~= reports + (some + more));
    }
}

proof fn forwarded_bytes_grow(reports: Seq<MessageData>, more: Seq<MessageData>)
    ensures
        forwarded_bytes(reports + more) == forwarded_bytes(reports) + forwarded_bytes(more),
    decreases more.len(),
{
    if more.len() == 0 {
        assert(reports + more =~= reports);
        assert(forwarded_bytes(reports) + Seq::<u8>::empty() =~= forwarded_bytes(reports));
    } else {
        forwarded_bytes_grow(reports, more.drop_last());
        assert((reports + more).drop_last() =~= reports + more.drop_last());
        match more.last() {
            MessageData::Event(EventData::Stdout(bytes)) => {
                assert((forwarded_bytes(reports) + forwarded_bytes(more.drop_last())) + bytes
                    =~= forwarded_bytes(reports) + (forwarded_bytes(more.drop_last()) + bytes));
            },
            _ => {},
        }
    }
}

proof fn one_forwarded(bytes: Seq<u8>)
    ensures
        forwarded_bytes(seq![cargo_output::forwarded(bytes)]) == bytes,
        forwarded_bytes(Seq::<MessageData>::empty()) == Seq::<u8>::empty(),
{
    let reports = seq![cargo_output::forwarded(bytes)];
    assert(reports.drop_last() =~= Seq::<MessageData>::empty());
    assert(reports.last() == MessageData::Event(EventData::Stdout(bytes)));
    assert(forwarded_bytes(reports) == forwarded_bytes(reports.drop_last()) + bytes);
    assert(Seq::<u8>::empty() + bytes =~= bytes);
}

/// Within a line, nothing is reported before it is too long, and then nothing is lost.
proof fn inside_a_line(line: Seq<u8>)
    requires
        line.len() < usize::MAX,
        forall|i: int| 0 <= i < line.len() ==> line[i] != '\n' as u8,
    ensures
        ({
            let (state, reports) = cargo_output::stdout_run(cargo_output::line_start(), line);
            &&& state.length == line.len()
            &&& state.oversized == (line.len() > MAX_CARGO_MESSAGE_BYTES)
            &&& !state.oversized ==> state.line == line && reports == Seq::<MessageData>::empty()
            &&& forwarded_bytes(reports) + state.line == line
            &&& bounded_pieces(reports)
            &&& state.oversized ==> state.line.len() < READ_BUFFER_BYTES
            &&& !state.oversized ==> state.line.len() <= MAX_CARGO_MESSAGE_BYTES
        }),
    decreases line.len(),
{
    let start = cargo_output::line_start();
    if line.len() == 0 {
        assert(forwarded_bytes(Seq::<MessageData>::empty()) + Seq::<u8>::empty() =~= line);
    } else {
        let earlier = line.drop_last();
        let byte = line.last();
        assert(line[line.len() - 1] != '\n' as u8);
        assert forall|i: int| 0 <= i < earlier.len() implies earlier[i] != '\n' as u8 by {
            assert(line[i] != '\n' as u8);
        }
        inside_a_line(earlier);
        let (before, reports) = cargo_output::stdout_run(start, earlier);
        let (after, more) = cargo_output::stdout_step(before, byte);
        one_forwarded(before.line);
        one_forwarded(before.line.push(byte));
        forwarded_bytes_grow(reports, more);
        assert(before.line.push(byte) =~= before.line + seq![byte]);
        assert(earlier + seq![byte] =~= line);
        assert(forwarded_bytes(reports) + (before.line + seq![byte]) =~= (forwarded_bytes(reports)
            + before.line) + seq![byte]);
        if !before.oversized && before.line.len() == MAX_CARGO_MESSAGE_BYTES {
            assert(more =~= seq![cargo_output::forwarded(before.line)]);
        } else if after.line.len() == 0 {
            assert(more =~= seq![cargo_output::forwarded(before.line.push(byte))]);
            assert(forwarded_bytes(reports) + forwarded_bytes(more) + after.line
                =~= forwarded_bytes(reports) + (before.line + seq![byte]));
        } else {
            assert(more =~= Seq::<MessageData>::empty());
            assert(forwarded_bytes(reports) + Seq::<u8>::empty() =~= forwarded_bytes(reports));
            if !after.oversized {
                assert(reports + more =~= Seq::<MessageData>::empty());
            }
        }
    }
}

/// A line of bounded length is reported as one message. A longer line is forwarded byte for byte in
/// pieces of bounded length, its length is reported behind them, and nothing else is reported.
pub proof fn lines_are_bounded_or_forwarded(line: Seq<u8>)
    requires
        line.len() < usize::MAX,
        forall|i: int| 0 <= i < line.len() ==> line[i] != '\n' as u8,
    ensures
        ({
            let ended = line.push('\n' as u8);
            let (state, reports) = cargo_output::stdout_run(cargo_output::line_start(), ended);
            &&& state == cargo_output::line_start()
            &&& ended.len() <= MAX_CARGO_MESSAGE_BYTES ==> reports == cargo_output::line_reports(
                ended,
            )
            &&& ended.len() > MAX_CARGO_MESSAGE_BYTES ==> forwarded_in_pieces(reports, ended)
        }),
{
    let ended = line.push('\n' as u8);
    inside_a_line(line);
    assert(ended.drop_last() =~= line);
    let (before, reports) = cargo_output::stdout_run(cargo_output::line_start(), line);
    let (after, more) = cargo_output::stdout_step(before, '\n' as u8);
    let limit = MessageData::MessageLimit(ended.len() as usize);
    forwarded_bytes_grow(reports, more);
    if ended.len() <= MAX_CARGO_MESSAGE_BYTES {
        assert(reports + more =~= cargo_output::line_reports(ended));
    } else {
        let last = more.drop_last();
        assert(more.last() == limit);
        assert((reports + more).last() == limit);
        one_forwarded(before.line);
        one_forwarded(before.line.push('\n' as u8));
        one_forwarded(seq!['\n' as u8]);
        assert(before.line.push('\n' as u8) =~= before.line + seq!['\n' as u8]);
        assert(line + seq!['\n' as u8] =~= ended);
        if !before.oversized {
            let head = seq![cargo_output::forwarded(before.line)];
            let rest = seq![cargo_output::forwarded(seq!['\n' as u8])];
            assert(last =~= head + rest);
            forwarded_bytes_grow(head, rest);
            assert(reports =~= Seq::<MessageData>::empty());
            assert(forwarded_bytes(reports + more) =~= before.line + seq!['\n' as u8]);
        } else {
            assert(last =~= seq![cargo_output::forwarded(before.line.push('\n' as u8))]);
            assert(forwarded_bytes(reports) + (before.line + seq!['\n' as u8])
                =~= (forwarded_bytes(reports) + before.line) + seq!['\n' as u8]);
        }
        assert((reports + more).drop_last() =~= reports + last);
    }
}

/// The same holds of the last line if the output ends without a line ending.
pub proof fn unfinished_lines_are_bounded_or_forwarded(line: Seq<u8>)
    requires
        line.len() < usize::MAX,
        forall|i: int| 0 <= i < line.len() ==> line[i] != '\n' as u8,
    ensures
        ({
            let (state, earlier) = cargo_output::stdout_run(cargo_output::line_start(), line);
            let reports = earlier + cargo_output::stdout_end(state);
            if line.len() == 0 {
                reports == Seq::<MessageData>::empty()
            } else if line.len() <= MAX_CARGO_MESSAGE_BYTES {
                reports == cargo_output::line_reports(line)
            } else {
                forwarded_in_pieces(reports, line)
            }
        }),
{
    inside_a_line(line);
    let (state, earlier) = cargo_output::stdout_run(cargo_output::line_start(), line);
    let more = cargo_output::stdout_end(state);
    let reports = earlier + more;
    if line.len() == 0 {
        assert(reports =~= Seq::<MessageData>::empty());
    } else if line.len() <= MAX_CARGO_MESSAGE_BYTES {
        assert(reports =~= cargo_output::line_reports(line));
    } else {
        let last = more.drop_last();
        forwarded_bytes_grow(earlier, more);
        one_forwarded(state.line);
        if state.line.len() > 0 {
            assert(last =~= seq![cargo_output::forwarded(state.line)]);
        } else {
            assert(last =~= Seq::<MessageData>::empty());
            assert(forwarded_bytes(earlier) + Seq::<u8>::empty() =~= forwarded_bytes(earlier));
        }
        assert(reports.drop_last() =~= earlier + last);
    }
}

/// Pushing pieces one after the other keeps exactly the end of all of them.
pub proof fn tails_keep_the_end(first: Seq<u8>, second: Seq<u8>, maximum: int)
    requires
        maximum >= 0,
    ensures
        cargo_output::ending(cargo_output::ending(first, maximum) + second, maximum)
            == cargo_output::ending(first + second, maximum),
        cargo_output::ending(first, maximum).len() <= maximum,
{
    assert(cargo_output::ending(cargo_output::ending(first, maximum) + second, maximum)
        =~= cargo_output::ending(first + second, maximum));
}

/// Cargo output counts as fresh exactly if an artifact was reported and none was stale.
pub proof fn freshness_needs_artifacts(fresh: Seq<bool>)
    requires
        fresh.len() < usize::MAX,
    ensures
        ({
            let run = artifact_run(fresh);
            cargo_output::fresh_artifacts(run.artifacts, run.stale) == (if fresh.len() > 0 && (
            forall|i: int| 0 <= i < fresh.len() ==> fresh[i]) {
                Some(fresh.len() as usize)
            } else {
                None
            })
        }),
{
    artifacts_are_counted(fresh);
}

/// The state behind artifacts alone.
pub open spec fn artifact_run(fresh: Seq<bool>) -> cargo_output::RunData
    decreases fresh.len(),
{
    if fresh.len() == 0 {
        cargo_output::run_start()
    } else {
        cargo_output::run_step(
            artifact_run(fresh.drop_last()),
            MessageData::Artifact(fresh.last()),
        )
    }
}

proof fn artifacts_are_counted(fresh: Seq<bool>)
    requires
        fresh.len() < usize::MAX,
    ensures
        artifact_run(fresh).artifacts == fresh.len(),
        artifact_run(fresh).stale == !(forall|i: int| 0 <= i < fresh.len() ==> fresh[i]),
    decreases fresh.len(),
{
    if fresh.len() > 0 {
        let earlier = fresh.drop_last();
        artifacts_are_counted(earlier);
        assert(forall|i: int| 0 <= i < earlier.len() ==> earlier[i] == fresh[i]);
        if artifact_run(earlier).stale {
            let i = choose|i: int| 0 <= i < earlier.len() && !earlier[i];
            assert(!fresh[i]);
        } else if !fresh.last() {
            assert(!fresh[fresh.len() - 1]);
        } else {
            assert forall|i: int| 0 <= i < fresh.len() implies fresh[i] by {
                if i < earlier.len() {
                    assert(earlier[i]);
                }
            }
        }
    }
}

} // verus!

//! How the lines of a remark file make documents.

use super::llvm_name_laws;
use super::remarks;
use super::remarks::{RemarkData, RemarkFault, RemarkParseLimits, StreamState};
use crate::bytes;
use crate::llvm_index::token_laws;
use vstd::prelude::*;

verus! {

/// What a line makes of a file.
pub open spec fn goes_on(state: StreamState, remark: Option<RemarkData>) -> Result<
    (StreamState, Option<RemarkData>),
    RemarkFault,
> {
    Ok((state, remark))
}

/// Blanks and line feeds.
pub open spec fn blank_run(back: Seq<u8>) -> bool {
    forall|i: int| 0 <= i < back.len() ==> bytes::space(#[trigger] back[i])
}

/// A line fits into the file, whose length is counted.
pub open spec fn fits_file(state: StreamState, line: Seq<u8>, limits: RemarkParseLimits) -> bool {
    state.total + line.len() <= limits.max_file_bytes
}

/// The state behind the bytes of a line.
pub open spec fn counted(state: StreamState, line: Seq<u8>) -> StreamState {
    StreamState { total: (state.total + line.len()) as u64, ..state }
}

proof fn markers_are_plain()
    ensures
        vstd::utf8::encode_utf8("---"@) == seq![0x2du8, 0x2du8, 0x2du8],
        vstd::utf8::encode_utf8("..."@) == seq![0x2eu8, 0x2eu8, 0x2eu8],
{
    reveal_strlit("---");
    reveal_strlit("...");
    assert("---"@ =~= seq!['-', '-', '-']);
    assert("..."@ =~= seq!['.', '.', '.']);
    token_laws::ascii_is_written_as_it_is("---"@);
    token_laws::ascii_is_written_as_it_is("..."@);
    assert(vstd::utf8::encode_utf8("---"@) =~= seq![0x2du8, 0x2du8, 0x2du8]);
    assert(vstd::utf8::encode_utf8("..."@) =~= seq![0x2eu8, 0x2eu8, 0x2eu8]);
}

/// Three dashes, with nothing but blanks behind them, start a document. Outside a document nothing
/// is completed by them; an open document is completed first.
pub proof fn dashes_start_documents(
    state: StreamState,
    back: Seq<u8>,
    limits: RemarkParseLimits,
)
    requires
        blank_run(back),
        fits_file(state, seq![0x2du8, 0x2du8, 0x2du8] + back, limits),
        3 + back.len() <= limits.max_document_bytes,
    ensures
        ({
            let line = seq![0x2du8, 0x2du8, 0x2du8] + back;
            let next = counted(state, line);
            &&& state.document.len() == 0 ==> remarks::with_line(state, line, limits) == goes_on(
                StreamState { saw_document: true, document: line, ..next },
                None,
            )
            &&& state.document.len() > 0 ==> match remarks::completed(next, limits) {
                Err(fault) => remarks::with_line(state, line, limits) == Err::<
                    (StreamState, Option<RemarkData>),
                    RemarkFault,
                >(fault),
                Ok((done, remark)) => remarks::with_line(state, line, limits) == goes_on(
                    StreamState { saw_document: true, document: line, ..done },
                    Some(remark),
                ),
            }
        }),
{
    let dashes = seq![0x2du8, 0x2du8, 0x2du8];
    let line = dashes + back;
    markers_are_plain();
    llvm_name_laws::ends_are_trimmed(dashes, back);
    let next = counted(state, line);
    assert(Seq::<u8>::empty() + line =~= line);
    if state.document.len() == 0 {
        assert(state.document =~= Seq::<u8>::empty());
    } else if let Ok((done, _)) = remarks::completed(next, limits) {
        assert(done.document =~= Seq::<u8>::empty());
    }
}

/// Three dots, with nothing but blanks behind them, end the open document. Without one they are
/// refused.
pub proof fn dots_end_documents(state: StreamState, back: Seq<u8>, limits: RemarkParseLimits)
    requires
        blank_run(back),
        fits_file(state, seq![0x2eu8, 0x2eu8, 0x2eu8] + back, limits),
        state.document.len() + 3 + back.len() <= limits.max_document_bytes,
        limits.max_document_bytes < usize::MAX,
    ensures
        ({
            let line = seq![0x2eu8, 0x2eu8, 0x2eu8] + back;
            let more = StreamState {
                document: state.document + line,
                ..counted(state, line)
            };
            &&& state.document.len() == 0 ==> remarks::with_line(state, line, limits) == Err::<
                (StreamState, Option<RemarkData>),
                RemarkFault,
            >(RemarkFault::StrayEnd)
            &&& state.document.len() > 0 ==> match remarks::completed(more, limits) {
                Err(fault) => remarks::with_line(state, line, limits) == Err::<
                    (StreamState, Option<RemarkData>),
                    RemarkFault,
                >(fault),
                Ok((done, remark)) => remarks::with_line(state, line, limits) == goes_on(
                    done,
                    Some(remark),
                ),
            }
        }),
{
    let dots = seq![0x2eu8, 0x2eu8, 0x2eu8];
    let line = dots + back;
    markers_are_plain();
    llvm_name_laws::ends_are_trimmed(dots, back);
    assert(bytes::trimmed_end(line) == dots);
    let dashes = vstd::utf8::encode_utf8("---"@);
    assert(dashes[0] == 0x2d && dots[0] == 0x2e);
    if dashes.is_prefix_of(dots) {
        assert(dots.subrange(0, 3)[0] == dots[0]);
    }
}

proof fn other_lines_are_no_markers(line: Seq<u8>)
    requires
        line.len() > 0,
        line[0] != 0x2d,
        line[0] != 0x2e,
    ensures
        !remarks::starts(bytes::trimmed_end(line)),
        bytes::trimmed_end(line) != vstd::utf8::encode_utf8("..."@),
{
    markers_are_plain();
    ends_keep_the_start(line);
    let marker = bytes::trimmed_end(line);
    let dashes = vstd::utf8::encode_utf8("---"@);
    let dots = vstd::utf8::encode_utf8("..."@);
    assert(dashes[0] == 0x2d && dots[0] == 0x2e);
    assert(dashes.len() == 3 && dots.len() == 3);
    if dashes.is_prefix_of(marker) {
        assert(marker.subrange(0, 3)[0] == marker[0]);
    }
}

proof fn ends_keep_the_start(line: Seq<u8>)
    ensures
        bytes::trimmed_end(line).len() <= line.len(),
        bytes::trimmed_end(line).len() > 0 ==> bytes::trimmed_end(line)[0] == line[0],
    decreases line.len(),
{
    if line.len() > 0 && bytes::space(line.last()) {
        ends_keep_the_start(line.drop_last());
    }
}

/// Inside a document, a line that starts neither with a dash nor with a dot belongs to it as it is.
pub proof fn content_joins_its_document(
    state: StreamState,
    line: Seq<u8>,
    limits: RemarkParseLimits,
)
    requires
        line.len() > 0,
        line[0] != 0x2d,
        line[0] != 0x2e,
        state.document.len() > 0,
        fits_file(state, line, limits),
        limits.max_document_bytes < usize::MAX,
    ensures
        state.document.len() + line.len() <= limits.max_document_bytes ==> remarks::with_line(
            state,
            line,
            limits,
        ) == goes_on(
            StreamState { document: state.document + line, ..counted(state, line) },
            None,
        ),
        state.document.len() + line.len() > limits.max_document_bytes ==> (remarks::with_line(
            state,
            line,
            limits,
        ) matches Err(RemarkFault::DocumentLength { maximum, .. }) && maximum
            == limits.max_document_bytes),
{
    other_lines_are_no_markers(line);
}

/// Outside a document only blank lines and comments may stand. Other content is refused: before the
/// first document for want of a start, behind one as stray.
pub proof fn stray_content_is_refused(
    state: StreamState,
    line: Seq<u8>,
    limits: RemarkParseLimits,
)
    requires
        line.len() > 0,
        line[0] != 0x2d,
        line[0] != 0x2e,
        !bytes::space(line[0]),
        state.document.len() == 0,
        fits_file(state, line, limits),
    ensures
        line[0] == 0x23 ==> remarks::with_line(state, line, limits) == goes_on(
            counted(state, line),
            None,
        ),
        line[0] != 0x23 && state.saw_document ==> remarks::with_line(state, line, limits) == Err::<
            (StreamState, Option<RemarkData>),
            RemarkFault,
        >(RemarkFault::StrayContent),
        line[0] != 0x23 && !state.saw_document ==> remarks::with_line(state, line, limits)
            == Err::<(StreamState, Option<RemarkData>), RemarkFault>(RemarkFault::NoStart),
{
    other_lines_are_no_markers(line);
    assert(bytes::trimmed_start(line) == line);
    ends_keep_the_start(line);
    starts_are_kept(line);
}

proof fn starts_are_kept(line: Seq<u8>)
    requires
        line.len() > 0,
        !bytes::space(line[0]),
    ensures
        bytes::trimmed_end(line).len() > 0,
    decreases line.len(),
{
    if bytes::space(line.last()) {
        let start = line.drop_last();
        if line.len() == 1 {
            assert(line.last() == line[0]);
        }
        assert(start[0] == line[0]);
        starts_are_kept(start);
    }
}

/// A file that is too long is refused, wherever the line stands that makes it so.
pub proof fn long_files_are_refused(
    state: StreamState,
    line: Seq<u8>,
    limits: RemarkParseLimits,
)
    requires
        state.total + line.len() > limits.max_file_bytes,
        limits.max_file_bytes < u64::MAX,
    ensures
        remarks::with_line(state, line, limits) matches Err(
            RemarkFault::FileLength { maximum, .. },
        ) && maximum == limits.max_file_bytes,
{
}

/// A document is completed only while remarks may follow. It is then counted and its bytes are gone.
pub proof fn completions_are_counted(state: StreamState, limits: RemarkParseLimits)
    ensures
        state.count >= limits.max_records ==> (remarks::completed(state, limits) matches Err(
            RemarkFault::RecordCount { maximum, .. },
        ) && maximum == limits.max_records),
        remarks::completed(state, limits) matches Ok((done, remark)) ==> {
            &&& state.count < limits.max_records
            &&& done.count == state.count + 1
            &&& done.document.len() == 0
            &&& done.total == state.total
            &&& done.saw_document == state.saw_document
            &&& (super::yaml::yaml_document(state.document) matches Ok(value)
                && remarks::remark_of(value, limits) == Ok::<RemarkData, RemarkFault>(remark))
        },
{
}

} // verus!

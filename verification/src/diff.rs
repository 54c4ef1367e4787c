//! Before/after previews of single edits, cut to the edited line.

use vstd::prelude::*;
use vstd::slice::slice_to_vec;
use vstd::utf8::{decode_utf8, valid_utf8};

use crate::edit::{append_range, spans_of, Edit, EditSpan};

verus! {

/// The preview of one edit: its 1-based line number and the line's text before
/// and after the edit, cut to a window around it.
#[derive(Debug, Clone)]
pub struct LineDiff {
    pub line_no: usize,
    pub start: String,
    pub new: String,
}

/// A UTF-8 continuation byte (`10xxxxxx`).
pub open spec fn is_continuation(b: u8) -> bool {
    b & 0xC0u8 == 0x80u8
}

/// The number of `\n` bytes in `data[..i]`.
pub open spec fn newlines_before(data: Seq<u8>, i: int) -> int
    decreases i,
{
    if i <= 0 {
        0
    } else {
        newlines_before(data, i - 1) + if data[i - 1] == 10u8 {
            1int
        } else {
            0int
        }
    }
}

/// The start of the line holding byte `i`: just after the last `\n` before `i`,
/// or 0.
pub open spec fn line_start(data: Seq<u8>, i: int) -> int
    decreases i,
{
    if i <= 0 {
        0
    } else if data[i - 1] == 10u8 {
        i
    } else {
        line_start(data, i - 1)
    }
}

/// The first `\n` at or after `i`, or the end of the data.
pub open spec fn next_newline(data: Seq<u8>, i: int) -> int
    decreases data.len() - i,
{
    if i < 0 || i >= data.len() {
        data.len() as int
    } else if data[i] == 10u8 {
        i
    } else {
        next_newline(data, i + 1)
    }
}

/// The end of the line holding byte `i`, a `\r` before the `\n` excluded.
pub open spec fn line_end(data: Seq<u8>, i: int) -> int {
    let nl = next_newline(data, i);
    if nl > line_start(data, i) && data[nl - 1] == 13u8 {
        nl - 1
    } else {
        nl
    }
}

/// The first position from `i` on that is not a continuation byte, or `limit`
/// if that comes first.
pub open spec fn skip_continuations(data: Seq<u8>, i: int, limit: int) -> int
    decreases limit - i,
{
    if 0 <= i && i < limit && i < data.len() && is_continuation(data[i]) {
        skip_continuations(data, i + 1, limit)
    } else {
        i
    }
}

pub open spec fn min_of(a: int, b: int) -> int {
    if a < b {
        a
    } else {
        b
    }
}

/// The bytes of the edit's line that follow the edited span.
pub open spec fn tail_room(data: Seq<u8>, e: EditSpan) -> int {
    let le = line_end(data, e.start);
    if le > e.end {
        le - e.end
    } else {
        0
    }
}

/// The bytes of the edit's line that precede the edited span.
pub open spec fn lead_room(data: Seq<u8>, e: EditSpan) -> int {
    e.start - line_start(data, e.start)
}

/// Where the preview window starts: at most `ctx` bytes before the edit, on the
/// edit's line, moved forward off any continuation bytes, but never past the
/// edit itself.
pub open spec fn window_start(data: Seq<u8>, e: EditSpan, ctx: int) -> int {
    min_of(
        skip_continuations(
            data,
            e.start - min_of(lead_room(data, e), ctx),
            line_end(data, e.start),
        ),
        e.start,
    )
}

/// Where the preview window ends: at most `ctx` bytes after the edit, on the
/// edit's line, moved forward off any continuation bytes.
pub open spec fn window_end(data: Seq<u8>, e: EditSpan, ctx: int) -> int {
    skip_continuations(data, e.end + min_of(tail_room(data, e), ctx), line_end(data, e.start))
}

/// The UTF-8 bytes of "…", marking a cut line.
pub open spec fn ellipsis() -> Seq<u8> {
    seq![0xE2u8, 0x80u8, 0xA6u8]
}

pub open spec fn cut_mark(cut: bool) -> Seq<u8> {
    if cut {
        ellipsis()
    } else {
        seq![]
    }
}

/// The edit can be previewed: its span lies within the data.
pub open spec fn diff_ready(data: Seq<u8>, e: EditSpan) -> bool {
    0 <= e.start <= e.end <= data.len()
}

/// The 1-based number of the edit's line.
pub open spec fn diff_line(data: Seq<u8>, e: EditSpan) -> int {
    newlines_before(data, e.start) + 1
}

/// The previewed bytes before the edit: the window, with "…" where the line
/// was cut.
pub open spec fn diff_old(data: Seq<u8>, e: EditSpan, ctx: int) -> Seq<u8> {
    cut_mark(lead_room(data, e) > ctx) + data.subrange(
        window_start(data, e, ctx),
        window_end(data, e, ctx),
    ) + cut_mark(tail_room(data, e) > ctx)
}

/// The previewed bytes after the edit: the window with the span replaced.
pub open spec fn diff_new(data: Seq<u8>, e: EditSpan, ctx: int) -> Seq<u8> {
    cut_mark(lead_room(data, e) > ctx) + data.subrange(window_start(data, e, ctx), e.start)
        + e.replacement + data.subrange(e.end, window_end(data, e, ctx)) + cut_mark(
        tail_room(data, e) > ctx,
    )
}

proof fn lemma_line_start_bounds(data: Seq<u8>, i: int)
    requires
        0 <= i,
    ensures
        0 <= line_start(data, i) <= i,
        newlines_before(data, i) <= i,
    decreases i,
{
    if i > 0 {
        lemma_line_start_bounds(data, i - 1);
    }
}

proof fn lemma_next_newline_bounds(data: Seq<u8>, i: int)
    requires
        0 <= i <= data.len(),
    ensures
        i <= next_newline(data, i) <= data.len(),
    decreases data.len() - i,
{
    if i < data.len() && data[i] != 10u8 {
        lemma_next_newline_bounds(data, i + 1);
    }
}

proof fn lemma_skip_bounds(data: Seq<u8>, i: int, limit: int)
    ensures
        i <= skip_continuations(data, i, limit),
        skip_continuations(data, i, limit) > i ==> skip_continuations(data, i, limit) <= limit
            && skip_continuations(data, i, limit) <= data.len(),
    decreases limit - i,
{
    if 0 <= i && i < limit && i < data.len() && is_continuation(data[i]) {
        lemma_skip_bounds(data, i + 1, limit);
    }
}

/// The line of byte `i` lies around it: `line_start <= i <= line_end <= len`
/// when `i` is not at a `\r\n` line break.
proof fn lemma_line_bounds(data: Seq<u8>, i: int)
    requires
        0 <= i <= data.len(),
    ensures
        0 <= line_start(data, i) <= i,
        line_start(data, i) <= line_end(data, i) <= data.len(),
        line_end(data, i) >= i - 1,
{
    lemma_line_start_bounds(data, i);
    lemma_next_newline_bounds(data, i);
}

/// The preview window of a previewable edit encloses the edit and lies within
/// the data.
pub proof fn lemma_window_bounds(data: Seq<u8>, e: EditSpan, ctx: int)
    requires
        diff_ready(data, e),
        0 <= ctx,
    ensures
        0 <= window_start(data, e, ctx) <= e.start,
        e.end <= window_end(data, e, ctx) <= data.len(),
{
    lemma_line_bounds(data, e.start);
    let le = line_end(data, e.start);
    let lead = e.start - min_of(lead_room(data, e), ctx);
    let trail = e.end + min_of(tail_room(data, e), ctx);
    lemma_skip_bounds(data, lead, le);
    lemma_skip_bounds(data, trail, le);
}

/// Counts the `\n` bytes before `i` and finds the start of `i`'s line.
fn scan_line_start(data: &[u8], i: usize) -> (res: (usize, usize))
    requires
        i <= data@.len(),
    ensures
        res.0 as int == newlines_before(data@, i as int),
        res.1 as int == line_start(data@, i as int),
        res.0 <= i,
        res.1 <= i,
{
    let mut count: usize = 0;
    let mut start: usize = 0;
    let mut j: usize = 0;
    while j < i
        invariant
            j <= i <= data@.len(),
            count as int == newlines_before(data@, j as int),
            start as int == line_start(data@, j as int),
            count <= j,
            start <= j,
        decreases i - j,
    {
        if data[j] == 10u8 {
            count += 1;
            start = j + 1;
        }
        j += 1;
    }
    (count, start)
}

/// The end of the line of byte `i` (a `\r` before its `\n` excluded), given the
/// line's start.
fn scan_line_end(data: &[u8], i: usize, start: usize) -> (end: usize)
    requires
        i <= data@.len(),
        start as int == line_start(data@, i as int),
    ensures
        end as int == line_end(data@, i as int),
        end <= data@.len(),
{
    let len = data.len();
    let mut nl = i;
    while nl < len && data[nl] != 10u8
        invariant
            i <= nl <= len,
            len == data@.len(),
            next_newline(data@, nl as int) == next_newline(data@, i as int),
        decreases len - nl,
    {
        nl += 1;
    }
    proof {
        lemma_line_start_bounds(data@, i as int);
    }
    if nl > start && data[nl - 1] == 13u8 {
        nl - 1
    } else {
        nl
    }
}

/// Moves `i` forward over continuation bytes, stopping at `limit`.
fn skip_continuation_bytes(data: &[u8], i: usize, limit: usize) -> (res: usize)
    requires
        limit <= data@.len(),
    ensures
        res as int == skip_continuations(data@, i as int, limit as int),
{
    let mut j = i;
    while j < limit && j < data.len() && (data[j] & 0xC0u8) == 0x80u8
        invariant
            i <= j,
            limit <= data@.len(),
            skip_continuations(data@, j as int, limit as int) == skip_continuations(
                data@,
                i as int,
                limit as int,
            ),
        decreases limit - j,
    {
        j += 1;
    }
    j
}

/// Appends the UTF-8 bytes of "…".
fn push_ellipsis(out: &mut Vec<u8>)
    ensures
        final(out)@ == old(out)@ + ellipsis(),
{
    out.push(0xE2u8);
    out.push(0x80u8);
    out.push(0xA6u8);
    assert(final(out)@ =~= old(out)@ + ellipsis());
}

/// The line number and the before/after bytes of the preview of one edit.
pub fn line_diff_bytes(data: &[u8], edit: &Edit, ctx: usize) -> (res: (usize, Vec<u8>, Vec<u8>))
    requires
        diff_ready(data@, edit@),
        data@.len() < usize::MAX,
    ensures
        res.0 as int == diff_line(data@, edit@),
        res.1@ == diff_old(data@, edit@, ctx as int),
        res.2@ == diff_new(data@, edit@, ctx as int),
{
    let ghost e = edit@;
    let ghost d = data@;
    let (count, ls) = scan_line_start(data, edit.start);
    let le = scan_line_end(data, edit.start, ls);
    let before = edit.start - ls;
    let after = if le > edit.end {
        le - edit.end
    } else {
        0
    };
    let lead = if before < ctx {
        before
    } else {
        ctx
    };
    let trail = if after < ctx {
        after
    } else {
        ctx
    };
    let skipped = skip_continuation_bytes(data, edit.start - lead, le);
    let bs = if skipped < edit.start {
        skipped
    } else {
        edit.start
    };
    let ae = skip_continuation_bytes(data, edit.end + trail, le);
    proof {
        lemma_line_bounds(d, e.start);
        lemma_skip_bounds(d, edit.end + trail, le as int);
    }
    let has_lead = before > ctx;
    let has_tail = after > ctx;

    let mut old_bytes: Vec<u8> = Vec::new();
    if has_lead {
        push_ellipsis(&mut old_bytes);
    }
    append_range(&mut old_bytes, data, bs, ae);
    if has_tail {
        push_ellipsis(&mut old_bytes);
    }

    let mut new_bytes: Vec<u8> = Vec::new();
    if has_lead {
        push_ellipsis(&mut new_bytes);
    }
    append_range(&mut new_bytes, data, bs, edit.start);
    let mut rep = slice_to_vec(edit.replacement.as_slice());
    new_bytes.append(&mut rep);
    append_range(&mut new_bytes, data, edit.end, ae);
    if has_tail {
        push_ellipsis(&mut new_bytes);
    }
    assert(old_bytes@ =~= diff_old(d, e, ctx as int));
    assert(new_bytes@ =~= diff_new(d, e, ctx as int));
    (count + 1, old_bytes, new_bytes)
}

/// The diffs are the previews of the spans, in order.
pub open spec fn previews(diffs: Seq<LineDiff>, data: Seq<u8>, spans: Seq<EditSpan>, ctx: int) -> bool {
    &&& diffs.len() == spans.len()
    &&& forall|k: int|
        0 <= k < spans.len() ==> {
            &&& #[trigger] diffs[k].line_no as int == diff_line(data, spans[k])
            &&& diffs[k].start@ == lossy_text(diff_old(data, spans[k], ctx))
            &&& diffs[k].new@ == lossy_text(diff_new(data, spans[k], ctx))
            &&& valid_utf8(diff_old(data, spans[k], ctx)) ==> diffs[k].start@ == decode_utf8(
                diff_old(data, spans[k], ctx),
            )
            &&& valid_utf8(diff_new(data, spans[k], ctx)) ==> diffs[k].new@ == decode_utf8(
                diff_new(data, spans[k], ctx),
            )
        }
}

/// Every span can be previewed.
pub open spec fn all_diff_ready(data: Seq<u8>, spans: Seq<EditSpan>) -> bool {
    forall|k: int| 0 <= k < spans.len() ==> diff_ready(data, #[trigger] spans[k])
}

/// What `String::from_utf8_lossy` makes of a byte string.
pub uninterp spec fn lossy_text(bytes: Seq<u8>) -> Seq<char>;

/// `String::from_utf8_lossy(bytes).into_owned()`.
///
/// Trusted: the result depends on the bytes alone, and, as std documents, valid
/// UTF-8 is decoded as it stands. What the function puts in place of invalid
/// sequences (U+FFFD) is not stated.
#[verifier::external_body]
fn lossy_string(bytes: &[u8]) -> (s: String)
    ensures
        s@ == lossy_text(bytes@),
        valid_utf8(bytes@) ==> s@ == decode_utf8(bytes@),
{
    String::from_utf8_lossy(bytes).into_owned()
}

/// The preview of each edit: its line number and the text of its line before
/// and after the edit, cut to `ctx` bytes around it.
pub fn build_diffs(data: &[u8], edits: &[Edit], ctx: usize) -> (diffs: Vec<LineDiff>)
    requires
        all_diff_ready(data@, spans_of(edits@)),
        data@.len() < usize::MAX,
    ensures
        previews(diffs@, data@, spans_of(edits@), ctx as int),
{
    let ghost spans = spans_of(edits@);
    let mut out: Vec<LineDiff> = Vec::new();
    let mut i: usize = 0;
    while i < edits.len()
        invariant
            i <= edits@.len(),
            data@.len() < usize::MAX,
            spans == spans_of(edits@),
            spans.len() == edits@.len(),
            all_diff_ready(data@, spans),
            out@.len() == i,
            forall|k: int|
                0 <= k < i ==> {
                    &&& #[trigger] out@[k].line_no as int == diff_line(data@, spans[k])
                    &&& out@[k].start@ == lossy_text(diff_old(data@, spans[k], ctx as int))
                    &&& out@[k].new@ == lossy_text(diff_new(data@, spans[k], ctx as int))
                    &&& valid_utf8(diff_old(data@, spans[k], ctx as int)) ==> out@[k].start@
                        == decode_utf8(diff_old(data@, spans[k], ctx as int))
                    &&& valid_utf8(diff_new(data@, spans[k], ctx as int)) ==> out@[k].new@
                        == decode_utf8(diff_new(data@, spans[k], ctx as int))
                },
        decreases edits@.len() - i,
    {
        assert(spans[i as int] == edits@[i as int]@);
        let (line_no, old_bytes, new_bytes) = line_diff_bytes(data, &edits[i], ctx);
        let start = lossy_string(old_bytes.as_slice());
        let new = lossy_string(new_bytes.as_slice());
        out.push(LineDiff { line_no, start, new });
        i += 1;
    }
    out
}

} // verus!

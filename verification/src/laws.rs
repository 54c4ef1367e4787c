//! Properties of find/replace and insert-after that hold for all inputs.

use vstd::prelude::*;

use crate::edit::{
    applied, cursor_before, hit_count, insert_spans, inserted, lemma_insert_spans_fit,
    lemma_replace_spans_fit, lemma_spliced_step, lemma_fit_at, replace_spans, replaced, spans_fit, spliced,
    EditSpan,
};
use crate::config::{
    cleaned_value, strip_back_nul, strip_back_white, strip_front_nul, strip_front_white, white_space,
};
use crate::batch::{lemma_previews_agree, looks_binary, same_file_edit, Summary};
use crate::diff::{
    diff_new, diff_old, diff_ready, lemma_window_bounds, previews, window_end, window_start, LineDiff,
};
use crate::edit::{repeated, utf8_of, Operation};
use crate::search::{lemma_occurrences_from_shape, occurrences, occurs_at};

verus! {

/// Replacing a pattern by itself copies the data back up to the end of each
/// occurrence.
proof fn lemma_self_replace_prefix(data: Seq<u8>, find: Seq<u8>, k: int)
    requires
        0 <= k <= occurrences(data, find).len(),
    ensures
        ({
            let spans = replace_spans(data, find, find);
            spliced(data, spans.take(k)) == data.subrange(0, cursor_before(spans, k))
        }),
    decreases k,
{
    let spans = replace_spans(data, find, find);
    if k == 0 {
        assert(spans.take(0) =~= Seq::<EditSpan>::empty());
    } else {
        lemma_self_replace_prefix(data, find, k - 1);
        lemma_spliced_step(data, spans, k - 1);
        lemma_replace_spans_fit(data, find, find);
        lemma_occurrences_from_shape(data, find, 0);
        let p = occurrences(data, find)[k - 1];
        assert(spans[k - 1].start == p);
        assert(occurs_at(data, find, p));
        let c = cursor_before(spans, k - 1);
        assert(data.subrange(0, c) + data.subrange(c, p) + find =~= data.subrange(0, p + find.len()));
    }
}

/// Replacing every occurrence of a pattern by the pattern itself leaves the
/// data unchanged.
pub proof fn law_replace_with_itself_is_identity(data: Seq<u8>, find: Seq<u8>)
    ensures
        replaced(data, find, find) == data,
{
    if find.len() > 0 {
        let spans = replace_spans(data, find, find);
        let n = spans.len() as int;
        lemma_self_replace_prefix(data, find, n);
        lemma_replace_spans_fit(data, find, find);
        assert(spans.take(n) =~= spans);
        if n > 0 {
            assert(spans[n - 1].end <= data.len());
        }
        let c = cursor_before(spans, n);
        assert(data.subrange(0, c) + data.subrange(c, data.len() as int) =~= data);
    }
}

/// Output length up to the end of the `k`-th replaced occurrence.
proof fn lemma_replace_prefix_len(data: Seq<u8>, find: Seq<u8>, replacement: Seq<u8>, k: int)
    requires
        0 <= k <= occurrences(data, find).len(),
    ensures
        ({
            let spans = replace_spans(data, find, replacement);
            spliced(data, spans.take(k)).len() == cursor_before(spans, k) + k * (
            replacement.len() - find.len())
        }),
    decreases k,
{
    let spans = replace_spans(data, find, replacement);
    if k == 0 {
        assert(spans.take(0) =~= Seq::<EditSpan>::empty());
    } else {
        lemma_replace_prefix_len(data, find, replacement, k - 1);
        lemma_spliced_step(data, spans, k - 1);
        lemma_replace_spans_fit(data, find, replacement);
        let d = replacement.len() - find.len();
        lemma_fit_at(data.len() as int, spans, k - 1);
        assert(spans[k - 1].end == spans[k - 1].start + find.len());
        assert(spans[k - 1].replacement == replacement);
        assert(k * d == (k - 1) * d + d) by (nonlinear_arith);
    }
}

/// Each replacement changes the length by the difference of the two patterns'
/// lengths: the output has `data.len() + n * (replacement.len() - find.len())`
/// bytes, `n` being the number of replacements made.
pub proof fn law_replace_length(data: Seq<u8>, find: Seq<u8>, replacement: Seq<u8>)
    ensures
        replaced(data, find, replacement).len() == data.len() + hit_count(data, find) * (
        replacement.len() - find.len()),
{
    if find.len() > 0 {
        let spans = replace_spans(data, find, replacement);
        let n = spans.len() as int;
        lemma_replace_prefix_len(data, find, replacement, n);
        lemma_replace_spans_fit(data, find, replacement);
        assert(spans.take(n) =~= spans);
        assert(n == hit_count(data, find));
        let c = cursor_before(spans, n);
        if n > 0 {
            lemma_fit_at(data.len() as int, spans, n - 1);
            assert(spans[n - 1].end <= data.len());
        }
        assert(0 <= c <= data.len());
        assert(spliced(data, spans).len() == c + n * (replacement.len() - find.len()));
        assert(applied(data, spans).len() == spliced(data, spans).len() + (data.len() - c));
        assert(replaced(data, find, replacement) == applied(data, spans));
        let d = replacement.len() - find.len();
        assert(replaced(data, find, replacement).len() == data.len() + n * d);
        assert(hit_count(data, find) * d == n * d);
    } else {
        assert(hit_count(data, find) == 0);
        assert(hit_count(data, find) * (replacement.len() - find.len()) == 0);
    }
}

/// Inserting after each occurrence and replacing each occurrence by itself
/// followed by the insertion build the same output prefix.
proof fn lemma_insert_prefix(data: Seq<u8>, after: Seq<u8>, insert: Seq<u8>, k: int)
    requires
        0 <= k <= occurrences(data, after).len(),
    ensures
        ({
            let ins = insert_spans(data, after, insert);
            let rep = replace_spans(data, after, after + insert);
            &&& spliced(data, ins.take(k)) == spliced(data, rep.take(k))
            &&& cursor_before(ins, k) == cursor_before(rep, k)
        }),
    decreases k,
{
    let ins = insert_spans(data, after, insert);
    let rep = replace_spans(data, after, after + insert);
    if k == 0 {
        assert(ins.take(0) =~= Seq::<EditSpan>::empty());
        assert(rep.take(0) =~= Seq::<EditSpan>::empty());
    } else {
        lemma_insert_prefix(data, after, insert, k - 1);
        lemma_spliced_step(data, ins, k - 1);
        lemma_spliced_step(data, rep, k - 1);
        lemma_insert_spans_fit(data, after, insert);
        lemma_replace_spans_fit(data, after, after + insert);
        lemma_occurrences_from_shape(data, after, 0);
        let p = occurrences(data, after)[k - 1];
        assert(occurs_at(data, after, p));
        assert(ins[k - 1].start == p + after.len());
        assert(rep[k - 1].start == p);
        let c = cursor_before(rep, k - 1);
        assert(data.subrange(c, p + after.len()) + insert =~= data.subrange(c, p) + (after
            + insert));
    }
}

/// Inserting `insert` after each occurrence of `after` is the same as replacing
/// each occurrence of `after` by `after` followed by `insert`.
pub proof fn law_insert_is_replace_with_anchor(data: Seq<u8>, after: Seq<u8>, insert: Seq<u8>)
    ensures
        inserted(data, after, insert) == replaced(data, after, after + insert),
{
    if after.len() > 0 {
        let ins = insert_spans(data, after, insert);
        let rep = replace_spans(data, after, after + insert);
        let n = occurrences(data, after).len() as int;
        lemma_insert_prefix(data, after, insert, n);
        assert(ins.take(n) =~= ins);
        assert(rep.take(n) =~= rep);
    }
}

/// Each insertion adds the inserted bytes: the output has
/// `data.len() + n * insert.len()` bytes, `n` being the number of insertions.
pub proof fn law_insert_length(data: Seq<u8>, after: Seq<u8>, insert: Seq<u8>)
    ensures
        inserted(data, after, insert).len() == data.len() + hit_count(data, after) * insert.len(),
{
    law_insert_is_replace_with_anchor(data, after, insert);
    law_replace_length(data, after, after + insert);
}

/// Where the pattern does not occur, replacing and inserting leave the data
/// unchanged.
pub proof fn law_no_occurrence_no_change(data: Seq<u8>, pattern: Seq<u8>, other: Seq<u8>)
    requires
        hit_count(data, pattern) == 0,
    ensures
        replaced(data, pattern, other) == data,
        inserted(data, pattern, other) == data,
{
    if pattern.len() > 0 {
        assert(data.subrange(0, data.len() as int) =~= data);
    }
}

/// Applying no edits leaves the data unchanged.
pub proof fn law_no_edits_no_change(data: Seq<u8>)
    ensures
        applied(data, Seq::<EditSpan>::empty()) == data,
{
    assert(data.subrange(0, data.len() as int) =~= data);
}

/// The edits an operation finds, once applied, give what the byte-level
/// function of the same kind gives: `replace_all_bytes` for a replace and
/// `insert_after_all_bytes` for an insert (for a non-empty pattern; an empty
/// pattern is refused before any operation is built).
pub proof fn law_operation_matches_byte_functions(op: Operation, data: Seq<u8>)
    ensures
        op matches Operation::Replace { find, replace } ==> utf8_of(find@).len() > 0 ==> applied(
            data,
            op.spans(data),
        ) == replaced(data, utf8_of(find@), utf8_of(replace@)),
        op matches Operation::Insert { after, insert } ==> utf8_of(after@).len() > 0 ==> applied(
            data,
            op.spans(data),
        ) == inserted(data, utf8_of(after@), utf8_of(insert@)),
        op matches Operation::Repeat { find, count } ==> utf8_of(find@).len() > 0 ==> applied(
            data,
            op.spans(data),
        ) == replaced(data, utf8_of(find@), repeated(utf8_of(find@), count as nat)),
{
}

proof fn lemma_repeated_len(s: Seq<u8>, n: nat)
    ensures
        repeated(s, n).len() == n * s.len(),
    decreases n,
{
    if n > 0 {
        lemma_repeated_len(s, (n - 1) as nat);
        assert(n * s.len() == (n - 1) * s.len() + s.len()) by (nonlinear_arith);
    }
}

/// Repeating each occurrence once leaves the data unchanged.
pub proof fn law_repeat_once_is_identity(data: Seq<u8>, find: Seq<u8>)
    ensures
        replaced(data, find, repeated(find, 1)) == data,
{
    assert(repeated(find, 0) =~= Seq::<u8>::empty());
    assert(repeated(find, 1) == repeated(find, 0) + find);
    assert(repeated(find, 1) =~= find);
    law_replace_with_itself_is_identity(data, find);
}

/// Repeating each of `n` occurrences `count` times adds `count - 1` copies of
/// the pattern per occurrence: the output has
/// `data.len() + n * (count - 1) * find.len()` bytes.
pub proof fn law_repeat_length(data: Seq<u8>, find: Seq<u8>, count: nat)
    ensures
        replaced(data, find, repeated(find, count)).len() == data.len() + hit_count(data, find) * (
        count - 1) * find.len(),
{
    lemma_repeated_len(find, count);
    law_replace_length(data, find, repeated(find, count));
    let n = hit_count(data, find);
    assert(n * (count * find.len() - find.len()) == n * (count - 1) * find.len())
        by (nonlinear_arith);
}

/// An edit whose replacement equals the bytes it covers previews the same
/// before and after.
pub proof fn law_unchanging_edit_previews_unchanged(data: Seq<u8>, e: EditSpan, ctx: int)
    requires
        diff_ready(data, e),
        0 <= ctx,
        e.replacement == data.subrange(e.start, e.end),
    ensures
        diff_new(data, e, ctx) == diff_old(data, e, ctx),
{
    lemma_window_bounds(data, e, ctx);
    let ws = window_start(data, e, ctx);
    let we = window_end(data, e, ctx);
    assert(data.subrange(ws, e.start) + data.subrange(e.start, e.end) + data.subrange(e.end, we)
        =~= data.subrange(ws, we));
}

/// A remembered directory that has no white space or NUL at either end is
/// read back exactly as it was stored.
pub proof fn law_clean_value_loads_back(dir: Seq<char>)
    requires
        dir.len() > 0,
        !white_space(dir[0]),
        !white_space(dir.last()),
        dir[0] != '\0',
        dir.last() != '\0',
    ensures
        cleaned_value(dir) == dir,
{
    assert(strip_front_white(dir) == dir);
    assert(strip_back_white(dir) == dir);
    assert(strip_front_nul(dir) == dir);
    assert(strip_back_nul(dir) == dir);
}

/// Reading a file decides the summary alone: two summaries that record the
/// same file read from the same starting summary report the same. Whether the
/// pass is a dry run plays no part in it (`Summary::visit_file` records
/// `Summary::visited` whatever `dry_run` is), so a dry run reports what a real
/// run reports and differs only in writing nothing.
pub proof fn law_dry_run_reports_same(
    old: Summary,
    dry: Summary,
    actual: Summary,
    path: String,
    data: Seq<u8>,
    op: Operation,
    ctx: int,
)
    requires
        Summary::visited(old, dry, path, data, op, ctx),
        Summary::visited(old, actual, path, data, op, ctx),
    ensures
        dry.same_report(&actual),
{
    let spans = op.spans(data);
    if !looks_binary(data) && spans.len() > 0 {
        let n = old.details@.len() as int;
        assert forall|i: int| 0 <= i < dry.details@.len() implies same_file_edit(
            #[trigger] dry.details@[i],
            actual.details@[i],
        ) by {
            if i < n {
                assert(dry.details@[i] == dry.details@.drop_last()[i]);
                assert(actual.details@[i] == actual.details@.drop_last()[i]);
            } else {
                lemma_previews_agree(dry.details@[i].diffs@, actual.details@[i].diffs@, data, spans, ctx);
            }
        }
    }
}

/// The output up to the end of the `k`-th of edits that each put back the
/// bytes they cover is the data up to there.
proof fn lemma_restoring_prefix(data: Seq<u8>, spans: Seq<EditSpan>, k: int)
    requires
        spans_fit(data.len() as int, spans),
        forall|j: int|
            0 <= j < spans.len() ==> #[trigger] spans[j].start <= spans[j].end
                && spans[j].replacement == data.subrange(spans[j].start, spans[j].end),
        0 <= k <= spans.len(),
    ensures
        spliced(data, spans.take(k)) == data.subrange(0, cursor_before(spans, k)),
    decreases k,
{
    if k == 0 {
        assert(spans.take(0) =~= Seq::<EditSpan>::empty());
    } else {
        lemma_restoring_prefix(data, spans, k - 1);
        lemma_spliced_step(data, spans, k - 1);
        lemma_fit_at(data.len() as int, spans, k - 1);
        let e = spans[k - 1];
        let c = cursor_before(spans, k - 1);
        assert(data.subrange(0, c) + data.subrange(c, e.start) + data.subrange(e.start, e.end)
            =~= data.subrange(0, e.end));
    }
}

/// Applying edits whose replacements are the very bytes they cover leaves the
/// data unchanged.
pub proof fn law_restoring_edits_no_change(data: Seq<u8>, spans: Seq<EditSpan>)
    requires
        spans_fit(data.len() as int, spans),
        forall|j: int|
            0 <= j < spans.len() ==> #[trigger] spans[j].start <= spans[j].end
                && spans[j].replacement == data.subrange(spans[j].start, spans[j].end),
    ensures
        applied(data, spans) == data,
{
    let n = spans.len() as int;
    lemma_restoring_prefix(data, spans, n);
    assert(spans.take(n) =~= spans);
    if n > 0 {
        lemma_fit_at(data.len() as int, spans, n - 1);
    }
    let c = cursor_before(spans, n);
    assert(data.subrange(0, c) + data.subrange(c, data.len() as int) =~= data);
}

/// Each preview depends on the data, the context size and its own edit only:
/// the preview of the `k`-th edit of a list is the preview of that edit alone.
pub proof fn law_preview_per_edit(diffs: Seq<LineDiff>, data: Seq<u8>, spans: Seq<EditSpan>, ctx: int)
    requires
        previews(diffs, data, spans, ctx),
    ensures
        forall|k: int|
            0 <= k < spans.len() ==> previews(seq![#[trigger] diffs[k]], data, seq![spans[k]], ctx),
{
    assert forall|k: int| 0 <= k < spans.len() implies previews(
        seq![#[trigger] diffs[k]],
        data,
        seq![spans[k]],
        ctx,
    ) by {
        let d1 = seq![diffs[k]];
        let s1 = seq![spans[k]];
        assert(diffs[k].line_no as int == crate::diff::diff_line(data, spans[k]));
        assert forall|j: int| 0 <= j < s1.len() implies #[trigger] d1[j].line_no as int
            == crate::diff::diff_line(data, s1[j]) by {
            assert(d1[j] == diffs[k]);
            assert(s1[j] == spans[k]);
        }
    }
}

/// The previews of two edit lists, one after the other, are the previews of
/// the two lists joined: previews never see the other edits.
pub proof fn law_previews_concatenate(
    d1: Seq<LineDiff>,
    s1: Seq<EditSpan>,
    d2: Seq<LineDiff>,
    s2: Seq<EditSpan>,
    data: Seq<u8>,
    ctx: int,
)
    requires
        previews(d1, data, s1, ctx),
        previews(d2, data, s2, ctx),
    ensures
        previews(d1 + d2, data, s1 + s2, ctx),
{
    let d = d1 + d2;
    let s = s1 + s2;
    assert forall|k: int| 0 <= k < s.len() implies #[trigger] d[k].line_no as int
        == crate::diff::diff_line(data, s[k]) by {
        if k < s1.len() {
            assert(d[k] == d1[k] && s[k] == s1[k]);
            assert(d1[k].line_no as int == crate::diff::diff_line(data, s1[k]));
        } else {
            assert(d[k] == d2[k - s1.len()] && s[k] == s2[k - s1.len()]);
            assert(d2[k - s1.len()].line_no as int == crate::diff::diff_line(data, s2[k - s1.len()]));
        }
    }
}

} // verus!

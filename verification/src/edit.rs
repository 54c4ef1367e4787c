//! Edits on a byte string: what a find/replace or insert-after operation
//! changes, and applying a list of such changes in one pass.

use vstd::prelude::*;
use vstd::slice::{slice_subrange, slice_to_vec};
use vstd::utf8::encode_utf8;

use crate::search::{find_all, lemma_occurrences_from_shape, occurrences, advance};

verus! {

/// One edit: the bytes `[start, end)` of the data are replaced by
/// `replacement`. An insertion has `start == end`.
#[derive(Debug, Clone)]
pub struct Edit {
    pub start: usize,
    pub end: usize,
    pub replacement: Vec<u8>,
}

/// The mathematical content of an [`Edit`].
pub struct EditSpan {
    pub start: int,
    pub end: int,
    pub replacement: Seq<u8>,
}

impl View for Edit {
    type V = EditSpan;

    open spec fn view(&self) -> EditSpan {
        EditSpan { start: self.start as int, end: self.end as int, replacement: self.replacement@ }
    }
}

/// The spans of a list of edits.
pub open spec fn spans_of(edits: Seq<Edit>) -> Seq<EditSpan> {
    edits.map_values(|e: Edit| e@)
}

/// Where copying from the data resumes before the `k`-th span: the end of
/// the span before it, or the start of the data.
pub open spec fn cursor_before(spans: Seq<EditSpan>, k: int) -> int {
    if k <= 0 {
        0
    } else {
        spans[k - 1].end
    }
}

/// The spans can be applied in order to data of length `len`: each starts at or
/// after the point where the previous one ended, and none reaches past the end.
pub open spec fn spans_fit(len: int, spans: Seq<EditSpan>) -> bool {
    &&& forall|k: int|
        #![trigger spans[k]]
        0 <= k < spans.len() ==> 0 <= spans[k].start <= len && 0 <= spans[k].end <= len
    &&& forall|j: int, k: int|
        #![trigger spans[j], spans[k]]
        0 <= j && k == j + 1 && k < spans.len() ==> spans[j].end <= spans[k].start
}

/// The `k`-th of fitting spans starts between the resume point and the end.
pub proof fn lemma_fit_at(len: int, spans: Seq<EditSpan>, k: int)
    requires
        spans_fit(len, spans),
        0 <= k < spans.len(),
    ensures
        0 <= cursor_before(spans, k) <= spans[k].start <= len,
        spans[k].end <= len,
{
    if k > 0 {
        assert(spans[k - 1].end <= spans[k].start);
        assert(spans[k - 1].end <= len);
    }
}

/// The output produced up to and including the last span: for each span, the
/// untouched bytes before it, then its replacement.
pub open spec fn spliced(data: Seq<u8>, spans: Seq<EditSpan>) -> Seq<u8>
    decreases spans.len(),
{
    if spans.len() == 0 {
        seq![]
    } else {
        let k = spans.len() - 1;
        spliced(data, spans.drop_last()) + data.subrange(cursor_before(spans, k), spans[k].start)
            + spans[k].replacement
    }
}

/// The data with the spans applied in order.
pub open spec fn applied(data: Seq<u8>, spans: Seq<EditSpan>) -> Seq<u8> {
    spliced(data, spans) + data.subrange(cursor_before(spans, spans.len() as int), data.len() as int)
}

/// The spans that replace each occurrence of `find` by `replacement`.
pub open spec fn replace_spans(data: Seq<u8>, find: Seq<u8>, replacement: Seq<u8>) -> Seq<EditSpan> {
    occurrences(data, find).map_values(
        |p: int| EditSpan { start: p, end: p + find.len(), replacement: replacement },
    )
}

/// The spans that insert `insert` right after each occurrence of `after`.
pub open spec fn insert_spans(data: Seq<u8>, after: Seq<u8>, insert: Seq<u8>) -> Seq<EditSpan> {
    occurrences(data, after).map_values(
        |p: int| EditSpan { start: p + after.len(), end: p + after.len(), replacement: insert },
    )
}

/// `data` with every non-overlapping occurrence of `find` replaced, left to
/// right; unchanged when `find` is empty.
pub open spec fn replaced(data: Seq<u8>, find: Seq<u8>, replacement: Seq<u8>) -> Seq<u8> {
    if find.len() == 0 {
        data
    } else {
        applied(data, replace_spans(data, find, replacement))
    }
}

/// `data` with `insert` placed after every non-overlapping occurrence of
/// `after`; unchanged when `after` is empty.
pub open spec fn inserted(data: Seq<u8>, after: Seq<u8>, insert: Seq<u8>) -> Seq<u8> {
    if after.len() == 0 {
        data
    } else {
        applied(data, insert_spans(data, after, insert))
    }
}

/// How many occurrences a replace or insert on `pattern` acts on (none for an
/// empty pattern).
pub open spec fn hit_count(data: Seq<u8>, pattern: Seq<u8>) -> nat {
    if pattern.len() == 0 {
        0
    } else {
        occurrences(data, pattern).len()
    }
}

/// The UTF-8 bytes of a string.
pub open spec fn utf8_of(s: Seq<char>) -> Seq<u8> {
    encode_utf8(s)
}

/// `s` repeated `n` times.
pub open spec fn repeated(s: Seq<u8>, n: nat) -> Seq<u8>
    decreases n,
{
    if n == 0 {
        seq![]
    } else {
        repeated(s, (n - 1) as nat) + s
    }
}

/// A text operation applied to every matching place of a file.
#[derive(Debug, Clone)]
pub enum Operation {
    /// Replace each occurrence of `find` by `replace`.
    Replace { find: String, replace: String },
    /// Insert `insert` right after each occurrence of `after`.
    Insert { after: String, insert: String },
    /// Repeat each occurrence of `find` `count` times in place
    /// (`123` repeated 3 times is `123123123`).
    Repeat { find: String, count: usize },
}

impl Operation {
    /// The spans this operation produces on `data`.
    pub open spec fn spans(&self, data: Seq<u8>) -> Seq<EditSpan> {
        match self {
            Operation::Replace { find, replace } => replace_spans(
                data,
                utf8_of(find@),
                utf8_of(replace@),
            ),
            Operation::Insert { after, insert } => insert_spans(
                data,
                utf8_of(after@),
                utf8_of(insert@),
            ),
            Operation::Repeat { find, count } => replace_spans(
                data,
                utf8_of(find@),
                repeated(utf8_of(find@), *count as nat),
            ),
        }
    }

    /// The operation's display name: "替换" for a replace, "插入" for an
    /// insert, "重复" for a repeat.
    pub fn name(&self) -> (name: &'static str)
        ensures
            self is Replace ==> name@ == "替换"@,
            self is Insert ==> name@ == "插入"@,
            self is Repeat ==> name@ == "重复"@,
    {
        match self {
            Operation::Replace { .. } => "替换",
            Operation::Insert { .. } => "插入",
            Operation::Repeat { .. } => "重复",
        }
    }

    /// One edit per non-overlapping occurrence of the operation's pattern in
    /// `data`, left to right: a replace or repeat covers the occurrence, an
    /// insert sits right after it.
    pub fn edits_for(&self, data: &[u8]) -> (edits: Vec<Edit>)
        ensures
            spans_of(edits@) == self.spans(data@),
            spans_fit(data@.len() as int, spans_of(edits@)),
    {
        match self {
            Operation::Replace { find, replace } => {
                occurrence_edits(data, find.as_str().as_bytes(), replace.as_str().as_bytes(), false)
            },
            Operation::Insert { after, insert } => {
                occurrence_edits(data, after.as_str().as_bytes(), insert.as_str().as_bytes(), true)
            },
            Operation::Repeat { find, count } => {
                let f = find.as_str().as_bytes();
                let copies = repeat_bytes(f, *count);
                occurrence_edits(data, f, copies.as_slice(), false)
            },
        }
    }
}

/// `s` repeated `count` times.
fn repeat_bytes(s: &[u8], count: usize) -> (r: Vec<u8>)
    ensures
        r@ == repeated(s@, count as nat),
{
    let mut r: Vec<u8> = Vec::new();
    let mut i: usize = 0;
    while i < count
        invariant
            i <= count,
            r@ == repeated(s@, i as nat),
        decreases count - i,
    {
        let mut copy = slice_to_vec(s);
        r.append(&mut copy);
        i += 1;
    }
    r
}

/// The replace spans of `find` can be applied to `data`.
pub proof fn lemma_replace_spans_fit(data: Seq<u8>, find: Seq<u8>, replacement: Seq<u8>)
    ensures
        spans_fit(data.len() as int, replace_spans(data, find, replacement)),
        forall|k: int|
            #![trigger replace_spans(data, find, replacement)[k]]
            0 <= k < occurrences(data, find).len() ==> {
                let span = replace_spans(data, find, replacement)[k];
                &&& span.start == occurrences(data, find)[k]
                &&& 0 <= span.start
                &&& span.end == span.start + find.len()
                &&& span.replacement == replacement
            },
{
    lemma_occurrences_from_shape(data, find, 0);
    let ps = occurrences(data, find);
    let spans = replace_spans(data, find, replacement);
    assert forall|j: int, k: int|
        #![trigger spans[j], spans[k]]
        0 <= j && k == j + 1 && k < spans.len() implies spans[j].end <= spans[k].start by {
        assert(ps[j] + advance(find) <= ps[j + 1]);
    }
}

/// The insert spans of `after` can be applied to `data`.
pub proof fn lemma_insert_spans_fit(data: Seq<u8>, after: Seq<u8>, insert: Seq<u8>)
    ensures
        spans_fit(data.len() as int, insert_spans(data, after, insert)),
        forall|k: int|
            #![trigger insert_spans(data, after, insert)[k]]
            0 <= k < occurrences(data, after).len() ==> {
                let span = insert_spans(data, after, insert)[k];
                &&& span.start == occurrences(data, after)[k] + after.len()
                &&& 0 <= occurrences(data, after)[k]
                &&& span.end == span.start
                &&& span.replacement == insert
            },
{
    lemma_occurrences_from_shape(data, after, 0);
    let ps = occurrences(data, after);
    let spans = insert_spans(data, after, insert);
    assert forall|j: int, k: int|
        #![trigger spans[j], spans[k]]
        0 <= j && k == j + 1 && k < spans.len() implies spans[j].end <= spans[k].start by {
        assert(ps[j] + advance(after) <= ps[j + 1]);
    }
}

/// The edits for every occurrence of `needle`: replacing it by `replacement`,
/// or, when `keep_needle`, inserting `replacement` after it.
fn occurrence_edits(data: &[u8], needle: &[u8], replacement: &[u8], keep_needle: bool) -> (edits: Vec<
    Edit,
>)
    ensures
        spans_of(edits@) == (if keep_needle {
            insert_spans(data@, needle@, replacement@)
        } else {
            replace_spans(data@, needle@, replacement@)
        }),
        spans_fit(data@.len() as int, spans_of(edits@)),
{
    let positions = find_all(data, needle);
    let dlen = data.len();
    let nlen = needle.len();
    let ghost ps = occurrences(data@, needle@);
    let ghost target = if keep_needle {
        insert_spans(data@, needle@, replacement@)
    } else {
        replace_spans(data@, needle@, replacement@)
    };
    proof {
        lemma_occurrences_from_shape(data@, needle@, 0);
        lemma_replace_spans_fit(data@, needle@, replacement@);
        lemma_insert_spans_fit(data@, needle@, replacement@);
    }
    let mut edits: Vec<Edit> = Vec::new();
    let mut i: usize = 0;
    while i < positions.len()
        invariant
            i <= positions@.len(),
            dlen == data@.len(),
            nlen == needle@.len(),
            positions@.len() == ps.len(),
            ps == occurrences(data@, needle@),
            target.len() == ps.len(),
            forall|k: int| 0 <= k < positions@.len() ==> positions@[k] as int == #[trigger] ps[k],
            forall|k: int| 0 <= k < ps.len() ==> #[trigger] ps[k] + needle@.len() <= data@.len(),
            target == (if keep_needle {
                insert_spans(data@, needle@, replacement@)
            } else {
                replace_spans(data@, needle@, replacement@)
            }),
            edits@.len() == i,
            forall|k: int| 0 <= k < i ==> #[trigger] edits@[k]@ == target[k],
        decreases positions@.len() - i,
    {
        let m = positions[i];
        assert(m as int == ps[i as int]);
        assert(ps[i as int] + needle@.len() <= data@.len());
        let (start, end) = if keep_needle {
            (m + nlen, m + nlen)
        } else {
            (m, m + nlen)
        };
        let edit = Edit { start, end, replacement: slice_to_vec(replacement) };
        proof {
            let p = ps[i as int];
            if keep_needle {
                assert(target[i as int] == EditSpan {
                    start: p + needle@.len(),
                    end: p + needle@.len(),
                    replacement: replacement@,
                });
            } else {
                assert(target[i as int] == EditSpan {
                    start: p,
                    end: p + needle@.len(),
                    replacement: replacement@,
                });
            }
        }
        edits.push(edit);
        i += 1;
    }
    assert(spans_of(edits@) =~= target);
    edits
}

/// Extending the prefix of spans by one more span appends the gap before it and
/// its replacement.
pub proof fn lemma_spliced_step(data: Seq<u8>, spans: Seq<EditSpan>, i: int)
    requires
        0 <= i < spans.len(),
    ensures
        spliced(data, spans.take(i + 1)) == spliced(data, spans.take(i)) + data.subrange(
            cursor_before(spans, i),
            spans[i].start,
        ) + spans[i].replacement,
{
    let next = spans.take(i + 1);
    assert(next.drop_last() =~= spans.take(i));
    assert(next[i] == spans[i]);
    if i > 0 {
        assert(next[i - 1] == spans[i - 1]);
    }
    assert(cursor_before(next, i) == cursor_before(spans, i));
}

/// Appends `data[from..to]` to `out`.
pub(crate) fn append_range(out: &mut Vec<u8>, data: &[u8], from: usize, to: usize)
    requires
        from <= to <= data@.len(),
    ensures
        final(out)@ == old(out)@ + data@.subrange(from as int, to as int),
{
    let mut piece = slice_to_vec(slice_subrange(data, from, to));
    out.append(&mut piece);
}

/// Applies edits in order and returns the new bytes with the number of edits.
pub fn apply_edits(data: &[u8], edits: &[Edit]) -> (res: (Vec<u8>, usize))
    requires
        spans_fit(data@.len() as int, spans_of(edits@)),
    ensures
        res.0@ == applied(data@, spans_of(edits@)),
        res.1 == edits@.len(),
{
    let ghost spans = spans_of(edits@);
    let mut out: Vec<u8> = Vec::with_capacity(data.len());
    let mut cursor: usize = 0;
    let mut i: usize = 0;
    while i < edits.len()
        invariant
            i <= edits@.len(),
            spans == spans_of(edits@),
            spans_fit(data@.len() as int, spans),
            cursor as int == cursor_before(spans, i as int),
            out@ == spliced(data@, spans.take(i as int)),
        decreases edits@.len() - i,
    {
        let e = &edits[i];
        assert(spans[i as int] == e@);
        proof {
            lemma_fit_at(data@.len() as int, spans, i as int);
        }
        let ghost prefix = out@;
        append_range(&mut out, data, cursor, e.start);
        let mut rep = slice_to_vec(e.replacement.as_slice());
        out.append(&mut rep);
        proof {
            lemma_spliced_step(data@, spans, i as int);
            assert(out@ == prefix + data@.subrange(cursor as int, e.start as int) + e.replacement@);
        }
        cursor = e.end;
        i += 1;
    }
    proof {
        assert(spans.take(edits@.len() as int) =~= spans);
        if i > 0 {
            assert(spans[i - 1].end <= data@.len());
        }
    }
    append_range(&mut out, data, cursor, data.len());
    (out, edits.len())
}

/// Replaces every non-overlapping occurrence of `find` (left to right) by
/// `replace`, and returns the new bytes with the number of replacements. An
/// empty `find` changes nothing.
pub fn replace_all_bytes(data: &[u8], find: &[u8], replace: &[u8]) -> (res: (Vec<u8>, usize))
    ensures
        res.0@ == replaced(data@, find@, replace@),
        res.1 == hit_count(data@, find@),
{
    if find.len() == 0 {
        return (slice_to_vec(data), 0);
    }
    let edits = occurrence_edits(data, find, replace, false);
    apply_edits(data, edits.as_slice())
}

/// Inserts `insert` right after every non-overlapping occurrence of `after`,
/// and returns the new bytes with the number of insertions. An empty `after`
/// changes nothing.
pub fn insert_after_all_bytes(data: &[u8], after: &[u8], insert: &[u8]) -> (res: (Vec<u8>, usize))
    ensures
        res.0@ == inserted(data@, after@, insert@),
        res.1 == hit_count(data@, after@),
{
    if after.len() == 0 {
        return (slice_to_vec(data), 0);
    }
    let edits = occurrence_edits(data, after, insert, true);
    apply_edits(data, edits.as_slice())
}

} // verus!

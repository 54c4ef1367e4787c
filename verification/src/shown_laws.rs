//! Properties of what the front ends show: which forms can be previewed, the
//! line numbers of previews, the rows of the preview list and the lines of a
//! command-line report.

use vstd::prelude::*;

use crate::batch::FileEdit;
use crate::diff::{diff_line, newlines_before, LineDiff};
use crate::edit::EditSpan;
use crate::form::{all_rows, diff_row, file_rows, number_width, Form, Mode, PreviewRow};
use crate::report::{diff_lines, error_lines, file_lines, plain, LineTone, Shown};
use crate::text::decimal_chars;

verus! {

/// Whether the form can be previewed depends on the directory, the mode and
/// the text the mode searches for only: never on the replacement, the
/// inserted text or the repeat count.
pub proof fn law_preview_ignores_new_text(f: Form, g: Form)
    requires
        f.dir == g.dir,
        f.mode == g.mode,
        f.find == g.find,
        f.after == g.after,
    ensures
        f.preview_allowed() == g.preview_allowed(),
{
}

/// A form with a directory and the text its mode searches for (`find` for a
/// replace or a repeat, `after` for an insert) can be previewed, whatever else
/// it holds (an empty replacement deletes every match); a form without either
/// cannot.
pub proof fn law_preview_needs_dir_and_search_text(f: Form)
    ensures
        f.dir@.len() > 0 && (f.mode == Mode::Insert ==> f.after@.len() > 0) && (f.mode
            != Mode::Insert ==> f.find@.len() > 0) ==> f.preview_allowed(),
        f.dir@.len() == 0 ==> !f.preview_allowed(),
        f.mode == Mode::Insert && f.after@.len() == 0 ==> !f.preview_allowed(),
        f.mode != Mode::Insert && f.find@.len() == 0 ==> !f.preview_allowed(),
{
}

/// Whether a byte is a line feed.
pub open spec fn is_line_feed() -> spec_fn(u8) -> bool {
    |b: u8| b == 10u8
}

proof fn lemma_newlines_are_line_feeds(data: Seq<u8>, i: int)
    requires
        0 <= i <= data.len(),
    ensures
        newlines_before(data, i) == data.subrange(0, i).filter(is_line_feed()).len(),
    decreases i,
{
    reveal(Seq::filter);
    if i > 0 {
        lemma_newlines_are_line_feeds(data, i - 1);
        let s = data.subrange(0, i);
        assert(s.drop_last() =~= data.subrange(0, i - 1));
        assert(s.last() == data[i - 1]);
    } else {
        assert(data.subrange(0, 0).len() == 0);
    }
}

/// An edit is previewed on line one plus the number of line feeds before its
/// start.
pub proof fn law_line_number_counts_line_feeds(data: Seq<u8>, e: EditSpan)
    requires
        0 <= e.start <= data.len(),
    ensures
        diff_line(data, e) == data.subrange(0, e.start).filter(is_line_feed()).len() + 1,
{
    lemma_newlines_are_line_feeds(data, e.start);
}

/// The preview lines of a file's edits: three per edit, in order, namely the
/// edit's own line number ("第 n 行"), the text before it marked as removed
/// and the text after it marked as added, both led by two spaces.
pub proof fn law_diff_lines_per_edit(diffs: Seq<LineDiff>)
    ensures
        diff_lines(diffs).len() == 3 * diffs.len(),
        forall|k: int|
            0 <= k < diffs.len() ==> {
                &&& diff_lines(diffs)[3 * k] == (Seq::<char>::empty(), "第 "@ + decimal_chars(
                    (#[trigger] diffs[k]).line_no as nat,
                ) + " 行"@, LineTone::Plain)
                &&& diff_lines(diffs)[3 * k + 1] == ("  "@, "- "@ + diffs[k].start@, LineTone::Removed)
                &&& diff_lines(diffs)[3 * k + 2] == ("  "@, "+ "@ + diffs[k].new@, LineTone::Added)
            },
    decreases diffs.len(),
{
    if diffs.len() > 0 {
        let rest = diffs.drop_last();
        law_diff_lines_per_edit(rest);
        let n = rest.len() as int;
        assert forall|k: int| 0 <= k < diffs.len() implies {
            &&& diff_lines(diffs)[3 * k] == (Seq::<char>::empty(), "第 "@ + decimal_chars(
                (#[trigger] diffs[k]).line_no as nat,
            ) + " 行"@, LineTone::Plain)
            &&& diff_lines(diffs)[3 * k + 1] == ("  "@, "- "@ + diffs[k].start@, LineTone::Removed)
            &&& diff_lines(diffs)[3 * k + 2] == ("  "@, "+ "@ + diffs[k].new@, LineTone::Added)
        } by {
            if k < n {
                assert(diffs[k] == rest[k]);
            }
        }
    }
}

/// The lines listing files, for a list of files, are the lines of each part
/// of the list, one part after the other: no file's lines depend on another.
pub proof fn law_file_lines_concatenate(a: Seq<FileEdit>, b: Seq<FileEdit>, show_diff: bool)
    ensures
        file_lines(a + b, show_diff) == file_lines(a, show_diff) + file_lines(b, show_diff),
    decreases b.len(),
{
    if b.len() == 0 {
        assert(a + b =~= a);
        assert(file_lines(a, show_diff) + file_lines(b, show_diff) =~= file_lines(a, show_diff));
    } else {
        law_file_lines_concatenate(a, b.drop_last(), show_diff);
        assert((a + b).drop_last() =~= a + b.drop_last());
        assert((a + b).last() == b.last());
    }
}

/// The lines of one modified file: its path with its own number of edits,
/// "  path（n 处）" alone, or "文件: path（n 处）" followed by its previews.
pub proof fn law_file_lines_of_one_file(f: FileEdit)
    ensures
        file_lines(seq![f], false) == seq![
            plain("  "@ + f.path@ + "（"@ + decimal_chars(f.diffs@.len()) + " 处）"@),
        ],
        file_lines(seq![f], true) == seq![
            plain("文件: "@ + f.path@ + "（"@ + decimal_chars(f.diffs@.len()) + " 处）"@),
        ] + diff_lines(f.diffs@),
{
    let one = seq![f];
    assert(one.drop_last() =~= Seq::<FileEdit>::empty());
    assert(one.last() == f);
    assert(file_lines(one.drop_last(), false) =~= Seq::<Shown>::empty());
    assert(file_lines(one.drop_last(), true) =~= Seq::<Shown>::empty());
    assert("  "@ + f.path@ + "（"@ + decimal_chars(f.diffs@.len()) + " 处）"@ =~= "  "@ + (f.path@
        + "（"@ + decimal_chars(f.diffs@.len()) + " 处）"@));
    assert("文件: "@ + f.path@ + "（"@ + decimal_chars(f.diffs@.len()) + " 处）"@ =~= "文件: "@ + (
    f.path@ + "（"@ + decimal_chars(f.diffs@.len()) + " 处）"@));
    assert(file_lines(one, false) =~= seq![
        plain("  "@ + f.path@ + "（"@ + decimal_chars(f.diffs@.len()) + " 处）"@),
    ]);
    assert(file_lines(one, true) =~= seq![
        plain("文件: "@ + f.path@ + "（"@ + decimal_chars(f.diffs@.len()) + " 处）"@),
    ] + diff_lines(f.diffs@));
}

/// The error lines of two lists of errors, one after the other, are those of
/// the two lists joined.
pub proof fn law_error_lines_concatenate(a: Seq<(String, String)>, b: Seq<(String, String)>)
    ensures
        error_lines(a + b) == error_lines(a) + error_lines(b),
        forall|k: int|
            0 <= k < b.len() ==> error_lines(b)[k] == plain(
                "错误["@ + (#[trigger] b[k]).0@ + "]: "@ + b[k].1@,
            ),
        error_lines(b).len() == b.len(),
    decreases b.len(),
{
    if b.len() == 0 {
        assert(a + b =~= a);
        assert(error_lines(a) + error_lines(b) =~= error_lines(a));
    } else {
        law_error_lines_concatenate(a, b.drop_last());
        assert((a + b).drop_last() =~= a + b.drop_last());
        assert((a + b).last() == b.last());
        assert forall|k: int| 0 <= k < b.len() implies error_lines(b)[k] == plain(
            "错误["@ + (#[trigger] b[k]).0@ + "]: "@ + b[k].1@,
        ) by {
            if k < b.len() - 1 {
                assert(b[k] == b.drop_last()[k]);
            }
        }
    }
}

/// The preview rows of a list of files are the rows of each part of the list,
/// one part after the other: no file's rows depend on another.
pub proof fn law_rows_concatenate(a: Seq<FileEdit>, b: Seq<FileEdit>)
    ensures
        all_rows(a + b) == all_rows(a) + all_rows(b),
    decreases b.len(),
{
    if b.len() == 0 {
        assert(a + b =~= a);
        assert(all_rows(a) + all_rows(b) =~= all_rows(a));
    } else {
        law_rows_concatenate(a, b.drop_last());
        assert((a + b).drop_last() =~= a + b.drop_last());
        assert((a + b).last() == b.last());
    }
}

/// The preview rows of one file: a header with its path and its own number
/// of edits, one row per edit in order with that edit's line number and
/// texts, then a separator.
pub proof fn law_rows_of_one_file(f: FileEdit)
    ensures
        all_rows(seq![f]) == file_rows(f),
        file_rows(f).len() == f.diffs@.len() + 2,
        file_rows(f)[0] == (PreviewRow::FileHeader { path: f.path, count: f.diffs.len() }),
        forall|k: int|
            0 <= k < f.diffs@.len() ==> file_rows(f)[k + 1] == (PreviewRow::Diff {
                line_no: (#[trigger] f.diffs@[k]).line_no,
                num_width: number_width(f.diffs@) as usize,
                old: f.diffs@[k].start,
                new: f.diffs@[k].new,
            }),
        file_rows(f)[f.diffs@.len() + 1int] == PreviewRow::Separator,
{
    let one = seq![f];
    assert(one.drop_last() =~= Seq::<FileEdit>::empty());
    assert(all_rows(one.drop_last()) =~= Seq::<PreviewRow>::empty());
    assert(all_rows(one) =~= file_rows(f));
    assert forall|k: int| 0 <= k < f.diffs@.len() implies file_rows(f)[k + 1] == (PreviewRow::Diff {
        line_no: (#[trigger] f.diffs@[k]).line_no,
        num_width: number_width(f.diffs@) as usize,
        old: f.diffs@[k].start,
        new: f.diffs@[k].new,
    }) by {
        assert(file_rows(f)[k + 1] == diff_row(f.diffs@[k], number_width(f.diffs@)));
    }
}

} // verus!

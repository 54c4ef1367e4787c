//! What a command-line run tells its user: the directory it works on and the
//! lines of its report.

use vstd::prelude::*;

use crate::batch::{FileEdit, Summary};
use crate::diff::LineDiff;
use crate::edit::Operation;
use crate::text::{decimal_chars, decimal_text};

verus! {

/// Where the directory of a run comes from.
#[derive(Debug)]
pub enum ChosenDir {
    /// Given on the command line; it is remembered for later runs.
    Given(String),
    /// The one remembered from an earlier run.
    Saved(String),
}

/// The message of a run that names no directory when none is remembered.
pub open spec fn no_directory_text() -> Seq<char> {
    "未指定目录，也没有已保存的默认目录。\n请用 `txtbatch --dir <目录> ...` 或先运行 `txtbatch set-dir <目录>`"@
}

/// The directory of a run: the one given, else the remembered one, else an
/// error that says how to name one. `saved` is only looked at when no
/// directory is given.
pub fn resolve_dir(given: Option<String>, saved: Option<String>) -> (r: Result<ChosenDir, String>)
    ensures
        given matches Some(d) ==> (r matches Ok(ChosenDir::Given(g)) && g == d),
        given is None ==> (saved matches Some(s) ==> (r matches Ok(ChosenDir::Saved(t)) && t == s)),
        given is None && saved is None ==> (r matches Err(m) && m@ == no_directory_text()),
{
    match given {
        Some(d) => Ok(ChosenDir::Given(d)),
        None => match saved {
            Some(s) => Ok(ChosenDir::Saved(s)),
            None => Err(
                "未指定目录，也没有已保存的默认目录。\n请用 `txtbatch --dir <目录> ...` 或先运行 `txtbatch set-dir <目录>`".to_owned(),
            ),
        },
    }
}

/// How a line of the report is shown: as it is, or marked as text that an
/// edit removes or adds.
#[derive(Debug, Clone, Copy, PartialEq, Eq)]
pub enum LineTone {
    Plain,
    Removed,
    Added,
}

/// A line of the report: `lead` as it is, then `body` in the line's tone.
#[derive(Debug)]
pub struct ReportLine {
    pub lead: String,
    pub body: String,
    pub tone: LineTone,
}

/// What a report line shows: its lead, its body and its tone.
pub type Shown = (Seq<char>, Seq<char>, LineTone);

/// What a report line shows.
pub open spec fn shown(line: ReportLine) -> Shown {
    (line.lead@, line.body@, line.tone)
}

/// What a list of report lines shows, line by line.
pub open spec fn shown_all(lines: Seq<ReportLine>) -> Seq<Shown> {
    lines.map_values(|line: ReportLine| shown(line))
}

/// A line with no lead, shown as it is.
pub open spec fn plain(text: Seq<char>) -> Shown {
    (Seq::empty(), text, LineTone::Plain)
}

/// The verb a report uses for the operation.
pub open spec fn verb(op: Operation) -> Seq<char> {
    match op {
        Operation::Replace { .. } => "替换"@,
        Operation::Insert { .. } => "插入"@,
        Operation::Repeat { .. } => "重复"@,
    }
}

/// The lines that show the previews of one file: for each edit, its line
/// number, then the line before the edit marked as removed and the line after
/// it marked as added, both indented by two spaces.
pub open spec fn diff_lines(diffs: Seq<LineDiff>) -> Seq<Shown>
    decreases diffs.len(),
{
    if diffs.len() == 0 {
        Seq::empty()
    } else {
        let d = diffs.last();
        diff_lines(diffs.drop_last()) + seq![
            plain("第 "@ + decimal_chars(d.line_no as nat) + " 行"@),
            ("  "@, "- "@ + d.start@, LineTone::Removed),
            ("  "@, "+ "@ + d.new@, LineTone::Added),
        ]
    }
}

/// A modified file's path with its number of edits.
pub open spec fn file_heading(file: FileEdit) -> Seq<char> {
    file.path@ + "（"@ + decimal_chars(file.diffs@.len()) + " 处）"@
}

/// The lines that list the modified files: with the previews, each file's
/// heading and then its previews; without them, each file's heading indented
/// by two spaces.
pub open spec fn file_lines(details: Seq<FileEdit>, show_diff: bool) -> Seq<Shown>
    decreases details.len(),
{
    if details.len() == 0 {
        Seq::empty()
    } else {
        let file = details.last();
        file_lines(details.drop_last(), show_diff) + if show_diff {
            seq![plain("文件: "@ + file_heading(file))] + diff_lines(file.diffs@)
        } else {
            seq![plain("  "@ + file_heading(file))]
        }
    }
}

/// One line per recorded error, with its path and message.
pub open spec fn error_lines(errors: Seq<(String, String)>) -> Seq<Shown>
    decreases errors.len(),
{
    if errors.len() == 0 {
        Seq::empty()
    } else {
        let e = errors.last();
        error_lines(errors.drop_last()) + seq![plain("错误["@ + e.0@ + "]: "@ + e.1@)]
    }
}

/// The notice that starts the report of a dry run.
pub open spec fn notice_lines(dry_run: bool) -> Seq<Shown> {
    if dry_run {
        seq![plain("[dry-run] 以下为预览，未写入任何文件"@)]
    } else {
        Seq::empty()
    }
}

/// The counts of scanned and modified files and of edits.
pub open spec fn counts_text(s: Summary, op: Operation) -> Seq<char> {
    "扫描文件 "@ + decimal_chars(s.files_scanned as nat) + " 个，修改 "@ + decimal_chars(
        s.files_modified as nat,
    ) + " 个，共 "@ + decimal_chars(s.total_edits as nat) + " 处"@ + verb(op)
}

/// The count of binary files skipped, if any were.
pub open spec fn skip_lines(s: Summary) -> Seq<Shown> {
    if s.binary_skipped > 0 {
        seq![plain("跳过二进制文件 "@ + decimal_chars(s.binary_skipped as nat) + " 个"@)]
    } else {
        Seq::empty()
    }
}

/// The modified files, if any, with their previews when asked for.
pub open spec fn listing_lines(s: Summary, show_diff: bool) -> Seq<Shown> {
    if s.modified@.len() > 0 {
        if show_diff {
            file_lines(s.details@, true)
        } else {
            seq![plain("修改的文件:"@)] + file_lines(s.details@, false)
        }
    } else {
        Seq::empty()
    }
}

/// The count of files where nothing was found, if any.
pub open spec fn unmatched_lines(s: Summary) -> Seq<Shown> {
    if s.unmatched@.len() > 0 {
        seq![plain("未找到匹配的文件 "@ + decimal_chars(s.unmatched@.len()) + " 个"@)]
    } else {
        Seq::empty()
    }
}

/// The report of a run: a dry-run notice for a dry run; the counts of scanned
/// and modified files and of edits; the count of binary files skipped, if
/// any; the modified files, if any, with their previews when asked for; the
/// count of files where nothing was found, if any; and the errors.
pub open spec fn report(summary: Summary, op: Operation, dry_run: bool, show_diff: bool) -> Seq<Shown> {
    notice_lines(dry_run) + seq![plain(counts_text(summary, op))] + skip_lines(summary)
        + listing_lines(summary, show_diff) + unmatched_lines(summary) + error_lines(summary.errors@)
}

proof fn lemma_shown_push(lines: Seq<ReportLine>, line: ReportLine)
    ensures
        shown_all(lines.push(line)) == shown_all(lines).push(shown(line)),
{
    assert(shown_all(lines.push(line)) =~= shown_all(lines).push(shown(line)));
}

/// Appends a line.
fn push_line(lines: &mut Vec<ReportLine>, lead: &str, body: String, tone: LineTone)
    ensures
        shown_all(final(lines)@) == shown_all(old(lines)@).push((lead@, body@, tone)),
{
    let line = ReportLine { lead: lead.to_owned(), body, tone };
    proof {
        lemma_shown_push(lines@, line);
    }
    lines.push(line);
}

/// `a` followed by `b`.
fn joined(a: &str, b: &str) -> (s: String)
    ensures
        s@ == a@ + b@,
{
    let mut s = a.to_owned();
    s.append(b);
    s
}

/// A modified file's path with its number of edits.
fn heading_text(file: &FileEdit) -> (s: String)
    ensures
        s@ == file_heading(*file),
{
    let mut s = joined(file.path.as_str(), "（");
    s.append(decimal_text(file.diffs.len()).as_str());
    s.append(" 处）");
    s
}

/// Appends the lines that show `diffs`.
fn push_diff_lines(lines: &mut Vec<ReportLine>, diffs: &Vec<LineDiff>)
    ensures
        shown_all(final(lines)@) == shown_all(old(lines)@) + diff_lines(diffs@),
{
    proof {
        reveal_strlit("");
        assert(""@ =~= Seq::<char>::empty());
    }
    let ghost start = shown_all(lines@);
    let mut i: usize = 0;
    while i < diffs.len()
        invariant
            i <= diffs@.len(),
            shown_all(lines@) == start + diff_lines(diffs@.take(i as int)),
            ""@ == Seq::<char>::empty(),
        decreases diffs@.len() - i,
    {
        let d = &diffs[i];
        let mut number = joined("第 ", decimal_text(d.line_no).as_str());
        number.append(" 行");
        push_line(lines, "", number, LineTone::Plain);
        push_line(lines, "  ", joined("- ", d.start.as_str()), LineTone::Removed);
        push_line(lines, "  ", joined("+ ", d.new.as_str()), LineTone::Added);
        proof {
            let taken = diffs@.take(i + 1);
            assert(taken.drop_last() =~= diffs@.take(i as int));
            assert(taken.last() == *d);
            assert(shown_all(lines@) =~= start + diff_lines(taken));
        }
        i += 1;
    }
    assert(diffs@.take(diffs@.len() as int) =~= diffs@);
}

/// Appends the lines that list `details`.
fn push_file_lines(lines: &mut Vec<ReportLine>, details: &Vec<FileEdit>, show_diff: bool)
    ensures
        shown_all(final(lines)@) == shown_all(old(lines)@) + file_lines(details@, show_diff),
{
    proof {
        reveal_strlit("");
        assert(""@ =~= Seq::<char>::empty());
    }
    let ghost start = shown_all(lines@);
    let mut i: usize = 0;
    while i < details.len()
        invariant
            i <= details@.len(),
            shown_all(lines@) == start + file_lines(details@.take(i as int), show_diff),
            ""@ == Seq::<char>::empty(),
        decreases details@.len() - i,
    {
        let file = &details[i];
        let ghost before = shown_all(lines@);
        if show_diff {
            push_line(lines, "", joined("文件: ", heading_text(file).as_str()), LineTone::Plain);
            push_diff_lines(lines, &file.diffs);
        } else {
            push_line(lines, "", joined("  ", heading_text(file).as_str()), LineTone::Plain);
        }
        proof {
            let taken = details@.take(i + 1);
            assert(taken.drop_last() =~= details@.take(i as int));
            assert(taken.last() == *file);
            if show_diff {
                assert(shown_all(lines@) =~= before + (seq![plain("文件: "@ + file_heading(*file))]
                    + diff_lines(file.diffs@)));
            }
            assert(shown_all(lines@) =~= start + file_lines(taken, show_diff));
        }
        i += 1;
    }
    assert(details@.take(details@.len() as int) =~= details@);
}

/// Appends one line per error.
fn push_error_lines(lines: &mut Vec<ReportLine>, errors: &Vec<(String, String)>)
    ensures
        shown_all(final(lines)@) == shown_all(old(lines)@) + error_lines(errors@),
{
    proof {
        reveal_strlit("");
        assert(""@ =~= Seq::<char>::empty());
    }
    let ghost start = shown_all(lines@);
    let mut i: usize = 0;
    while i < errors.len()
        invariant
            i <= errors@.len(),
            shown_all(lines@) == start + error_lines(errors@.take(i as int)),
            ""@ == Seq::<char>::empty(),
        decreases errors@.len() - i,
    {
        let e = &errors[i];
        let mut text = joined("错误[", e.0.as_str());
        text.append("]: ");
        text.append(e.1.as_str());
        push_line(lines, "", text, LineTone::Plain);
        proof {
            let taken = errors@.take(i + 1);
            assert(taken.drop_last() =~= errors@.take(i as int));
            assert(taken.last() == *e);
            assert(shown_all(lines@) =~= start + error_lines(taken));
        }
        i += 1;
    }
    assert(errors@.take(errors@.len() as int) =~= errors@);
}

/// The counts of scanned and modified files and of edits.
fn counts_line(s: &Summary, op: &Operation) -> (text: String)
    ensures
        text@ == counts_text(*s, *op),
{
    let mut text = joined("扫描文件 ", decimal_text(s.files_scanned).as_str());
    text.append(" 个，修改 ");
    text.append(decimal_text(s.files_modified).as_str());
    text.append(" 个，共 ");
    text.append(decimal_text(s.total_edits).as_str());
    text.append(" 处");
    text.append(op.name());
    text
}

/// The lines a run reports once its pass is over (see [`report`]).
pub fn report_lines(summary: &Summary, op: &Operation, dry_run: bool, show_diff: bool) -> (lines: Vec<ReportLine>)
    ensures
        shown_all(lines@) == report(*summary, *op, dry_run, show_diff),
{
    proof {
        reveal_strlit("");
        assert(""@ =~= Seq::<char>::empty());
    }
    let s = summary;
    let mut lines: Vec<ReportLine> = Vec::new();
    if dry_run {
        push_line(&mut lines, "", "[dry-run] 以下为预览，未写入任何文件".to_owned(), LineTone::Plain);
    }
    assert(shown_all(lines@) =~= notice_lines(dry_run));
    let ghost head = shown_all(lines@);
    push_line(&mut lines, "", counts_line(s, op), LineTone::Plain);
    assert(shown_all(lines@) =~= head + seq![plain(counts_text(*s, *op))]);
    let ghost head = shown_all(lines@);
    if s.binary_skipped > 0 {
        let mut skipped = joined("跳过二进制文件 ", decimal_text(s.binary_skipped).as_str());
        skipped.append(" 个");
        push_line(&mut lines, "", skipped, LineTone::Plain);
    }
    assert(shown_all(lines@) =~= head + skip_lines(*s));
    let ghost head = shown_all(lines@);
    if s.modified.len() > 0 {
        if !show_diff {
            push_line(&mut lines, "", "修改的文件:".to_owned(), LineTone::Plain);
        }
        push_file_lines(&mut lines, &s.details, show_diff);
    }
    assert(shown_all(lines@) =~= head + listing_lines(*s, show_diff));
    let ghost head = shown_all(lines@);
    if s.unmatched.len() > 0 {
        let mut unmatched = joined("未找到匹配的文件 ", decimal_text(s.unmatched.len()).as_str());
        unmatched.append(" 个");
        push_line(&mut lines, "", unmatched, LineTone::Plain);
    }
    assert(shown_all(lines@) =~= head + unmatched_lines(*s));
    push_error_lines(&mut lines, &s.errors);
    lines
}

} // verus!

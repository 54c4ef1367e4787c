//! The state behind the desktop front end: which actions the form allows, the
//! operation it describes, and the rows of the preview it shows. Drawing the
//! form and the rows is the front end's.

use vstd::prelude::*;

use crate::batch::{FileEdit, Summary};
use crate::diff::LineDiff;
use crate::edit::Operation;
use crate::text::{decimal_chars, decimal_text};

verus! {

/// Which kind of operation the form edits.
#[derive(Debug, Clone, Copy, PartialEq, Eq)]
pub enum Mode {
    Replace,
    Insert,
    Repeat,
}

/// How a status message is shown: neutral, as a success, or as a failure.
#[derive(Debug, Clone, Copy, PartialEq, Eq)]
pub enum Tone {
    Neutral,
    Success,
    Failure,
}

/// The state of the form: its fields, the preview shown, and the status line.
#[derive(Debug)]
pub struct Form {
    pub dir: String,
    pub mode: Mode,
    pub find: String,
    pub replace_with: String,
    pub after: String,
    pub insert_text: String,
    pub repeat_count: usize,
    pub preview: Option<Summary>,
    pub status: String,
    pub tone: Tone,
}

impl Form {
    /// The fields as they are when the form opens with the remembered
    /// directory: replace mode, empty texts, a repeat count of 2, no preview
    /// and no status.
    pub fn new(saved_dir: String) -> (form: Form)
        ensures
            form.dir == saved_dir,
            form.mode == Mode::Replace,
            form.find@.len() == 0,
            form.replace_with@.len() == 0,
            form.after@.len() == 0,
            form.insert_text@.len() == 0,
            form.repeat_count == 2,
            form.preview is None,
            form.status@.len() == 0,
            form.tone == Tone::Neutral,
    {
        Form {
            dir: saved_dir,
            mode: Mode::Replace,
            find: String::new(),
            replace_with: String::new(),
            after: String::new(),
            insert_text: String::new(),
            repeat_count: 2,
            preview: None,
            status: String::new(),
            tone: Tone::Neutral,
        }
    }

    /// Everything but the preview and the status line is the same in both.
    pub open spec fn same_fields(&self, other: &Form) -> bool {
        &&& self.dir == other.dir
        &&& self.mode == other.mode
        &&& self.find == other.find
        &&& self.replace_with == other.replace_with
        &&& self.after == other.after
        &&& self.insert_text == other.insert_text
        &&& self.repeat_count == other.repeat_count
    }

    /// A preview can be asked for: a directory is given, and so is the text
    /// the current mode searches for.
    pub open spec fn preview_allowed(&self) -> bool {
        &&& self.dir@.len() > 0
        &&& match self.mode {
            Mode::Replace => self.find@.len() > 0,
            Mode::Insert => self.after@.len() > 0,
            Mode::Repeat => self.find@.len() > 0,
        }
    }

    /// Whether the preview button is enabled.
    pub fn can_preview(&self) -> (ok: bool)
        ensures
            ok == self.preview_allowed(),
    {
        !self.dir.as_str().is_empty() && match self.mode {
            Mode::Replace => !self.find.as_str().is_empty(),
            Mode::Insert => !self.after.as_str().is_empty(),
            Mode::Repeat => !self.find.as_str().is_empty(),
        }
    }

    /// Whether the apply and cancel buttons are enabled: a preview could be
    /// asked for, and one is shown.
    pub fn can_apply(&self) -> (ok: bool)
        ensures
            ok == (self.preview_allowed() && self.preview is Some),
    {
        self.can_preview() && self.preview.is_some()
    }

    /// The directory field was edited: the preview no longer applies.
    pub fn on_dir_edited(&mut self)
        ensures
            final(self).preview is None,
            final(self).same_fields(old(self)),
            final(self).status == old(self).status,
            final(self).tone == old(self).tone,
    {
        self.preview = None;
    }

    /// A directory was picked in the folder dialog: it becomes the directory,
    /// and the preview no longer applies.
    pub fn on_dir_picked(&mut self, dir: String)
        ensures
            final(self).dir == dir,
            final(self).preview is None,
            final(self).mode == old(self).mode,
            final(self).find == old(self).find,
            final(self).replace_with == old(self).replace_with,
            final(self).after == old(self).after,
            final(self).insert_text == old(self).insert_text,
            final(self).repeat_count == old(self).repeat_count,
            final(self).status == old(self).status,
            final(self).tone == old(self).tone,
    {
        self.dir = dir;
        self.preview = None;
    }

    /// Cancel was clicked: the preview is dropped and the status says so.
    pub fn on_cancel(&mut self)
        ensures
            final(self).preview is None,
            final(self).status@ == "已取消"@,
            final(self).tone == Tone::Neutral,
            final(self).same_fields(old(self)),
    {
        self.preview = None;
        self.status = "已取消".to_owned();
        self.tone = Tone::Neutral;
    }

    /// A preview was asked for, but the directory does not exist: the status
    /// names it as a failure, and the preview is kept.
    pub fn on_missing_dir(&mut self)
        ensures
            final(self).status@ == "目录不存在: "@ + old(self).dir@,
            final(self).tone == Tone::Failure,
            final(self).preview == old(self).preview,
            final(self).same_fields(old(self)),
    {
        let mut status = "目录不存在: ".to_owned();
        status.append(self.dir.as_str());
        self.status = status;
        self.tone = Tone::Failure;
    }

    /// A preview pass ended: on success its summary is shown and the status
    /// gives the number of edits; on failure the preview is dropped and the
    /// status gives the error.
    pub fn on_preview_done(&mut self, result: Result<Summary, String>)
        ensures
            final(self).same_fields(old(self)),
            result matches Ok(s) ==> {
                &&& final(self).status@ == "预览完成，共 "@ + decimal_chars(s.total_edits as nat)
                    + " 处修改"@
                &&& final(self).tone == Tone::Success
                &&& final(self).preview == Some(s)
            },
            result matches Err(e) ==> {
                &&& final(self).status@ == "预览失败: "@ + e@
                &&& final(self).tone == Tone::Failure
                &&& final(self).preview is None
            },
    {
        match result {
            Ok(summary) => {
                let count = decimal_text(summary.total_edits);
                let mut status = "预览完成，共 ".to_owned();
                status.append(count.as_str());
                status.append(" 处修改");
                self.status = status;
                self.tone = Tone::Success;
                self.preview = Some(summary);
            },
            Err(message) => {
                let mut status = "预览失败: ".to_owned();
                status.append(message.as_str());
                self.status = status;
                self.tone = Tone::Failure;
                self.preview = None;
            },
        }
    }

    /// An apply pass ended: on success its summary is shown and the status
    /// gives the numbers of edits and of files; on failure the status gives the
    /// error and the preview is kept.
    pub fn on_apply_done(&mut self, result: Result<Summary, String>)
        ensures
            final(self).same_fields(old(self)),
            result matches Ok(s) ==> {
                &&& final(self).status@ == "已成功应用 "@ + decimal_chars(s.total_edits as nat)
                    + " 处修改到 "@ + decimal_chars(s.files_modified as nat) + " 个文件"@
                &&& final(self).tone == Tone::Success
                &&& final(self).preview == Some(s)
            },
            result matches Err(e) ==> {
                &&& final(self).status@ == "应用失败: "@ + e@
                &&& final(self).tone == Tone::Failure
                &&& final(self).preview == old(self).preview
            },
    {
        match result {
            Ok(summary) => {
                let edits = decimal_text(summary.total_edits);
                let files = decimal_text(summary.files_modified);
                let mut status = "已成功应用 ".to_owned();
                status.append(edits.as_str());
                status.append(" 处修改到 ");
                status.append(files.as_str());
                status.append(" 个文件");
                self.status = status;
                self.tone = Tone::Success;
                self.preview = Some(summary);
            },
            Err(message) => {
                let mut status = "应用失败: ".to_owned();
                status.append(message.as_str());
                self.status = status;
                self.tone = Tone::Failure;
            },
        }
    }

    /// The preview rows to show: those of the shown summary when it modified
    /// at least one file, otherwise none (the placeholder is shown).
    pub fn shown_rows(&self) -> (rows: Option<Vec<PreviewRow>>)
        ensures
            rows is Some <==> (self.preview matches Some(s) && s.files_modified > 0),
            rows matches Some(r) ==> r@ == all_rows(self.preview->Some_0.details@),
    {
        match &self.preview {
            Some(summary) => {
                if summary.files_modified > 0 {
                    Some(preview_rows(&summary.details))
                } else {
                    None
                }
            },
            None => None,
        }
    }

    /// The operation the form describes in its current mode.
    pub fn make_operation(&self) -> (op: Operation)
        ensures
            self.mode == Mode::Replace ==> (op matches Operation::Replace { find, replace }
                && find == self.find && replace == self.replace_with),
            self.mode == Mode::Insert ==> (op matches Operation::Insert { after, insert }
                && after == self.after && insert == self.insert_text),
            self.mode == Mode::Repeat ==> (op matches Operation::Repeat { find, count }
                && find == self.find && count == self.repeat_count),
    {
        match self.mode {
            Mode::Replace => Operation::Replace {
                find: self.find.clone(),
                replace: self.replace_with.clone(),
            },
            Mode::Insert => Operation::Insert {
                after: self.after.clone(),
                insert: self.insert_text.clone(),
            },
            Mode::Repeat => Operation::Repeat { find: self.find.clone(), count: self.repeat_count },
        }
    }
}

/// One row of the preview list.
#[derive(Debug, Clone)]
pub enum PreviewRow {
    /// A file and how many edits it has.
    FileHeader { path: String, count: usize },
    /// One edit, with the width its file's line-number column takes.
    Diff { line_no: usize, num_width: usize, old: String, new: String },
    /// The end of a file's rows.
    Separator,
}

/// The number of decimal digits of `n`.
pub open spec fn decimal_digits(n: nat) -> nat
    decreases n,
{
    if n < 10 {
        1
    } else {
        1 + decimal_digits(n / 10)
    }
}

/// The largest line number among the diffs, 0 for none.
pub open spec fn max_line(diffs: Seq<LineDiff>) -> nat
    decreases diffs.len(),
{
    if diffs.len() == 0 {
        0
    } else {
        let rest = max_line(diffs.drop_last());
        if diffs.last().line_no > rest {
            diffs.last().line_no as nat
        } else {
            rest
        }
    }
}

/// The width of a file's line-number column: the digits of its largest line
/// number, at least three.
pub open spec fn number_width(diffs: Seq<LineDiff>) -> nat {
    let d = decimal_digits(max_line(diffs));
    if d < 3 {
        3
    } else {
        d
    }
}

/// The row of one edit, with the file's line-number width.
pub open spec fn diff_row(d: LineDiff, width: nat) -> PreviewRow {
    PreviewRow::Diff { line_no: d.line_no, num_width: width as usize, old: d.start, new: d.new }
}

/// The rows of one file: its header, one row per edit, and a separator.
pub open spec fn file_rows(file: FileEdit) -> Seq<PreviewRow> {
    seq![(PreviewRow::FileHeader { path: file.path, count: file.diffs@.len() as usize })]
        + file.diffs@.map_values(|d: LineDiff| diff_row(d, number_width(file.diffs@)))
        + seq![PreviewRow::Separator]
}

/// The rows of all files, in order.
pub open spec fn all_rows(details: Seq<FileEdit>) -> Seq<PreviewRow>
    decreases details.len(),
{
    if details.len() == 0 {
        seq![]
    } else {
        all_rows(details.drop_last()) + file_rows(details.last())
    }
}

proof fn lemma_digits_bound(x: nat)
    requires
        x >= 1,
    ensures
        decimal_digits(x) <= x,
    decreases x,
{
    if x >= 10 {
        lemma_digits_bound(x / 10);
    }
}

/// The number of decimal digits of `n`.
fn digits(n: usize) -> (d: usize)
    ensures
        d == decimal_digits(n as nat),
{
    let mut m = n;
    let mut d: usize = 1;
    proof {
        if n >= 1 {
            lemma_digits_bound(n as nat);
        }
    }
    while m >= 10
        invariant
            d + decimal_digits(m as nat) == decimal_digits(n as nat) + 1,
            m <= n,
            n >= 1 ==> decimal_digits(n as nat) <= n,
        decreases m,
    {
        assert(decimal_digits(m as nat) == 1 + decimal_digits((m / 10) as nat));
        m = m / 10;
        d = d + 1;
    }
    d
}

/// The width of the line-number column for a file's diffs.
fn line_number_width(diffs: &Vec<LineDiff>) -> (w: usize)
    ensures
        w == number_width(diffs@),
{
    let mut largest: usize = 0;
    let mut i: usize = 0;
    while i < diffs.len()
        invariant
            i <= diffs@.len(),
            largest == max_line(diffs@.take(i as int)),
        decreases diffs@.len() - i,
    {
        assert(diffs@.take(i + 1).drop_last() =~= diffs@.take(i as int));
        if diffs[i].line_no > largest {
            largest = diffs[i].line_no;
        }
        i += 1;
    }
    assert(diffs@.take(diffs@.len() as int) =~= diffs@);
    let d = digits(largest);
    if d < 3 {
        3
    } else {
        d
    }
}

/// The preview rows of one file.
fn rows_of_file(file: &FileEdit) -> (rows: Vec<PreviewRow>)
    ensures
        rows@ == file_rows(*file),
{
    let width = line_number_width(&file.diffs);
    let mut rows: Vec<PreviewRow> = Vec::new();
    rows.push(PreviewRow::FileHeader { path: file.path.clone(), count: file.diffs.len() });
    let mut j: usize = 0;
    while j < file.diffs.len()
        invariant
            j <= file.diffs@.len(),
            width == number_width(file.diffs@),
            rows@.len() == 1 + j,
            rows@[0] == (PreviewRow::FileHeader { path: file.path, count: file.diffs@.len() as usize }),
            forall|k: int|
                0 <= k < j ==> #[trigger] rows@[1 + k] == diff_row(file.diffs@[k], width as nat),
        decreases file.diffs@.len() - j,
    {
        let d = &file.diffs[j];
        rows.push(PreviewRow::Diff {
            line_no: d.line_no,
            num_width: width,
            old: d.start.clone(),
            new: d.new.clone(),
        });
        j += 1;
    }
    rows.push(PreviewRow::Separator);
    proof {
        let fr = file_rows(*file);
        assert forall|k: int| 0 <= k < fr.len() implies #[trigger] rows@[k] == fr[k] by {
            if 1 <= k <= file.diffs@.len() {
                assert(rows@[1 + (k - 1)] == diff_row(file.diffs@[k - 1], width as nat));
            }
        }
        assert(rows@ =~= fr);
    }
    rows
}

/// The preview rows for the modified files.
pub fn preview_rows(details: &Vec<FileEdit>) -> (rows: Vec<PreviewRow>)
    ensures
        rows@ == all_rows(details@),
{
    let mut rows: Vec<PreviewRow> = Vec::new();
    let mut i: usize = 0;
    while i < details.len()
        invariant
            i <= details@.len(),
            rows@ == all_rows(details@.take(i as int)),
        decreases details@.len() - i,
    {
        let mut more = rows_of_file(&details[i]);
        rows.append(&mut more);
        proof {
            assert(details@.take(i + 1).drop_last() =~= details@.take(i as int));
            assert(details@.take(i + 1).last() == details@[i as int]);
        }
        i += 1;
    }
    assert(details@.take(details@.len() as int) =~= details@);
    rows
}

} // verus!

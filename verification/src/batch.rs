//! One pass over the files of a directory: which files are skipped, which are
//! rewritten, and the summary reported at the end. The walk itself and the file
//! reads and writes are the caller's; each file's outcome is decided here.

use vstd::prelude::*;

use crate::diff::{all_diff_ready, build_diffs, previews, LineDiff};
use crate::edit::{
    insert_spans, lemma_insert_spans_fit, lemma_replace_spans_fit, replace_spans, spans_fit,
};
use crate::search::occurrences;
use crate::edit::{applied, apply_edits, spans_of, Edit, Operation};

verus! {

/// How many leading bytes are probed for a NUL byte.
pub const BINARY_PROBE: usize = 8000;

/// The data holds a NUL byte within its first `BINARY_PROBE` bytes.
pub open spec fn looks_binary(data: Seq<u8>) -> bool {
    exists|i: int| 0 <= i < data.len() && i < BINARY_PROBE && data[i] == 0u8
}

/// Whether the data looks binary: a NUL byte within its first 8000 bytes.
pub fn is_binary(data: &[u8]) -> (binary: bool)
    ensures
        binary == looks_binary(data@),
{
    let n = if data.len() < BINARY_PROBE {
        data.len()
    } else {
        BINARY_PROBE
    };
    let mut i: usize = 0;
    while i < n
        invariant
            i <= n,
            n <= data@.len(),
            n <= BINARY_PROBE,
            n == data@.len() || n == BINARY_PROBE,
            forall|k: int| 0 <= k < i ==> data@[k] != 0u8,
        decreases n - i,
    {
        if data[i] == 0u8 {
            return true;
        }
        i += 1;
    }
    false
}

/// The edits made to one file, with their previews.
#[derive(Debug, Clone)]
pub struct FileEdit {
    pub path: String,
    pub diffs: Vec<LineDiff>,
}

/// The number of previews listed over all files.
pub open spec fn diff_total(details: Seq<FileEdit>) -> int
    decreases details.len(),
{
    if details.len() == 0 {
        0
    } else {
        diff_total(details.drop_last()) + details.last().diffs@.len()
    }
}

/// Two lists of previews show the same: the same line numbers and texts, in
/// the same order.
pub open spec fn same_previews(a: Seq<LineDiff>, b: Seq<LineDiff>) -> bool {
    &&& a.len() == b.len()
    &&& forall|k: int|
        0 <= k < a.len() ==> {
            &&& #[trigger] a[k].line_no == b[k].line_no
            &&& a[k].start@ == b[k].start@
            &&& a[k].new@ == b[k].new@
        }
}

/// Two entries name the same file and show the same previews.
pub open spec fn same_file_edit(a: FileEdit, b: FileEdit) -> bool {
    &&& a.path@ == b.path@
    &&& same_previews(a.diffs@, b.diffs@)
}

/// The text that starts the message of an entry that could not be walked.
pub open spec fn walk_failure_text() -> Seq<char> {
    "遍历失败: "@
}

/// The text that starts the message of a file that could not be read.
pub open spec fn read_failure_text() -> Seq<char> {
    "读取失败: "@
}

/// The text that starts the message of a file that could not be written.
pub open spec fn write_failure_text() -> Seq<char> {
    "写入失败: "@
}

/// The error entry records a file that could not be read.
pub open spec fn is_read_failure(entry: (String, String)) -> bool {
    let prefix = read_failure_text();
    &&& entry.1@.len() >= prefix.len()
    &&& entry.1@.take(prefix.len() as int) == prefix
}

/// The number of error entries that record a file that could not be read.
pub open spec fn read_failures(errors: Seq<(String, String)>) -> nat
    decreases errors.len(),
{
    if errors.len() == 0 {
        0
    } else {
        read_failures(errors.drop_last()) + if is_read_failure(errors.last()) {
            1nat
        } else {
            0nat
        }
    }
}

/// Appending an entry counts it when it records a read failure.
pub proof fn lemma_read_failures_push(errors: Seq<(String, String)>, entry: (String, String))
    ensures
        read_failures(errors.push(entry)) == read_failures(errors) + if is_read_failure(entry) {
            1nat
        } else {
            0nat
        },
{
    assert(errors.push(entry).drop_last() =~= errors);
}

/// The outcome of a pass over a directory.
#[derive(Debug)]
pub struct Summary {
    pub files_scanned: usize,
    pub files_modified: usize,
    pub total_edits: usize,
    pub binary_skipped: usize,
    pub modified: Vec<String>,
    pub details: Vec<FileEdit>,
    pub unmatched: Vec<String>,
    pub errors: Vec<(String, String)>,
}

impl Default for Summary {
    fn default() -> (s: Self)
        ensures
            s.wf(),
            s.files_scanned == 0,
            s.files_modified == 0,
            s.total_edits == 0,
            s.binary_skipped == 0,
            s.modified@.len() == 0,
            s.details@.len() == 0,
            s.unmatched@.len() == 0,
            s.errors@.len() == 0,
    {
        Summary {
            files_scanned: 0,
            files_modified: 0,
            total_edits: 0,
            binary_skipped: 0,
            modified: Vec::new(),
            details: Vec::new(),
            unmatched: Vec::new(),
            errors: Vec::new(),
        }
    }
}

/// The spans of an operation on any data fit the data and can be previewed.
pub proof fn lemma_op_spans_ready(op: Operation, data: Seq<u8>)
    ensures
        spans_fit(data.len() as int, op.spans(data)),
        all_diff_ready(data, op.spans(data)),
{
    let spans = op.spans(data);
    match op {
        Operation::Insert { after, insert } => {
            let (a, i) = (crate::edit::utf8_of(after@), crate::edit::utf8_of(insert@));
            lemma_insert_spans_fit(data, a, i);
            assert forall|k: int| 0 <= k < spans.len() implies crate::diff::diff_ready(
                data,
                #[trigger] spans[k],
            ) by {
                assert(spans[k] == insert_spans(data, a, i)[k]);
            }
        },
        Operation::Replace { find, replace } => {
            let (f, r) = (crate::edit::utf8_of(find@), crate::edit::utf8_of(replace@));
            lemma_replace_spans_fit(data, f, r);
            assert forall|k: int| 0 <= k < spans.len() implies crate::diff::diff_ready(
                data,
                #[trigger] spans[k],
            ) by {
                assert(spans[k] == replace_spans(data, f, r)[k]);
            }
        },
        Operation::Repeat { find, count } => {
            let f = crate::edit::utf8_of(find@);
            let r = crate::edit::repeated(f, count as nat);
            lemma_replace_spans_fit(data, f, r);
            assert forall|k: int| 0 <= k < spans.len() implies crate::diff::diff_ready(
                data,
                #[trigger] spans[k],
            ) by {
                assert(spans[k] == replace_spans(data, f, r)[k]);
            }
        },
    }
}

impl Summary {
    /// The counters agree with the lists: each modified file has one entry in
    /// `modified` and one in `details`, in the same order, with at least one
    /// preview; `total_edits` is the number of previews listed; every scanned
    /// file is exactly one of modified, skipped as binary, unmatched, or
    /// unreadable with a read-failure entry in `errors`.
    pub open spec fn wf(&self) -> bool {
        &&& self.modified@.len() == self.files_modified
        &&& self.details@.len() == self.files_modified
        &&& forall|i: int|
            0 <= i < self.details@.len() ==> #[trigger] self.details@[i].path@ == self.modified@[i]@
                && self.details@[i].diffs@.len() > 0
        &&& self.total_edits == diff_total(self.details@)
        &&& self.files_scanned == self.files_modified + self.binary_skipped + self.unmatched@.len()
            + read_failures(self.errors@)
    }

    /// Everything but the error list is the same in both.
    pub open spec fn same_outcomes(&self, other: &Summary) -> bool {
        &&& self.files_scanned == other.files_scanned
        &&& self.files_modified == other.files_modified
        &&& self.total_edits == other.total_edits
        &&& self.binary_skipped == other.binary_skipped
        &&& self.modified@ == other.modified@
        &&& self.details@ == other.details@
        &&& self.unmatched@ == other.unmatched@
    }

    /// Both report the same results: the same counters, the same file lists,
    /// and for each modified file the same path and the same previews (line
    /// numbers and texts). The error lists are left out.
    pub open spec fn same_results(&self, other: &Summary) -> bool {
        &&& self.files_scanned == other.files_scanned
        &&& self.files_modified == other.files_modified
        &&& self.total_edits == other.total_edits
        &&& self.binary_skipped == other.binary_skipped
        &&& self.modified@ == other.modified@
        &&& self.unmatched@ == other.unmatched@
        &&& self.details@.len() == other.details@.len()
        &&& forall|i: int|
            0 <= i < self.details@.len() ==> same_file_edit(
                #[trigger] self.details@[i],
                other.details@[i],
            )
    }

    /// Both report the same, error lists included.
    pub open spec fn same_report(&self, other: &Summary) -> bool {
        &&& self.same_results(other)
        &&& self.errors@ == other.errors@
    }

    /// A step that records errors other than read failures only (possibly
    /// none): everything else is unchanged and no error entry is lost.
    pub open spec fn errors_noted(old: Summary, new: Summary) -> bool {
        &&& new.same_outcomes(&old)
        &&& new.errors@.len() >= old.errors@.len()
        &&& read_failures(new.errors@) == read_failures(old.errors@)
    }

    /// A file was found but could not be read: it is counted as scanned,
    /// nothing else but the error list changes, and one error entry, a read
    /// failure, is recorded.
    pub open spec fn read_failed(old: Summary, new: Summary) -> bool {
        &&& new.files_scanned == old.files_scanned + 1
        &&& read_failures(new.errors@) == read_failures(old.errors@) + 1
        &&& new.files_modified == old.files_modified
        &&& new.total_edits == old.total_edits
        &&& new.binary_skipped == old.binary_skipped
        &&& new.modified@ == old.modified@
        &&& new.details@ == old.details@
        &&& new.unmatched@ == old.unmatched@
        &&& new.errors@.len() == old.errors@.len() + 1
    }

    /// One step of a pass over a directory, from `old` to `new`.
    pub open spec fn pass_step(old: Summary, new: Summary, event: PassEvent, op: Operation, ctx: int) -> bool {
        match event {
            PassEvent::ErrorsOnly => Summary::errors_noted(old, new),
            PassEvent::ReadFailed => Summary::read_failed(old, new),
            PassEvent::Read { path, data } => Summary::visited(old, new, path, data, op, ctx),
        }
    }

    /// What reading `data` from `path` does to the summary `old`, giving
    /// `new`: a file that looks binary is counted as skipped, one where the
    /// operation finds nothing is listed as unmatched, and any other is listed
    /// as modified with the previews of its edits.
    pub open spec fn visited(
        old: Summary,
        new: Summary,
        path: String,
        data: Seq<u8>,
        op: Operation,
        ctx: int,
    ) -> bool {
        let spans = op.spans(data);
        &&& new.files_scanned == old.files_scanned + 1
        &&& new.errors@ == old.errors@
        &&& looks_binary(data) ==> {
            &&& new.binary_skipped == old.binary_skipped + 1
            &&& new.files_modified == old.files_modified
            &&& new.total_edits == old.total_edits
            &&& new.modified@ == old.modified@
            &&& new.details@ == old.details@
            &&& new.unmatched@ == old.unmatched@
        }
        &&& !looks_binary(data) && spans.len() == 0 ==> {
            &&& new.binary_skipped == old.binary_skipped
            &&& new.files_modified == old.files_modified
            &&& new.total_edits == old.total_edits
            &&& new.modified@ == old.modified@
            &&& new.details@ == old.details@
            &&& new.unmatched@ == old.unmatched@.push(path)
        }
        &&& !looks_binary(data) && spans.len() > 0 ==> {
            &&& new.binary_skipped == old.binary_skipped
            &&& new.files_modified == old.files_modified + 1
            &&& new.total_edits == old.total_edits + spans.len()
            &&& new.modified@ == old.modified@.push(path)
            &&& new.details@.len() == old.details@.len() + 1
            &&& new.details@.drop_last() == old.details@
            &&& new.details@.last().path == path
            &&& previews(new.details@.last().diffs@, data, spans, ctx)
            &&& new.unmatched@ == old.unmatched@
        }
    }

    /// An entry of the directory could not be read while walking it: the
    /// error is recorded with an empty path and the message
    /// "遍历失败: " followed by `detail`.
    pub fn note_walk_error(&mut self, detail: String)
        requires
            old(self).wf(),
        ensures
            final(self).wf(),
            final(self).same_outcomes(old(self)),
            final(self).errors@.len() == old(self).errors@.len() + 1,
            final(self).errors@.drop_last() == old(self).errors@,
            final(self).errors@.last().0@.len() == 0,
            final(self).errors@.last().1@ == walk_failure_text() + detail@,
            Summary::errors_noted(*old(self), *final(self)),
    {
        let message = failure_message("遍历失败: ", &detail);
        let entry = (String::new(), message);
        proof {
            reveal_strlit("遍历失败: ");
            reveal_strlit("读取失败: ");
            lemma_read_failures_push(self.errors@, entry);
            assert(!is_read_failure(entry)) by {
                if is_read_failure(entry) {
                    assert(entry.1@[0] == read_failure_text()[0]);
                }
            }
        }
        self.errors.push(entry);
        assert(self.errors@.drop_last() =~= old(self).errors@);
    }

    /// A file was found but could not be read: it counts as scanned, and the
    /// error is recorded with its path and the message "读取失败: " followed
    /// by `detail`.
    pub fn note_read_error(&mut self, path: String, detail: String)
        requires
            old(self).wf(),
            old(self).files_scanned < usize::MAX,
        ensures
            final(self).wf(),
            final(self).files_scanned == old(self).files_scanned + 1,
            final(self).files_modified == old(self).files_modified,
            final(self).total_edits == old(self).total_edits,
            final(self).binary_skipped == old(self).binary_skipped,
            final(self).modified@ == old(self).modified@,
            final(self).details@ == old(self).details@,
            final(self).unmatched@ == old(self).unmatched@,
            final(self).errors@.len() == old(self).errors@.len() + 1,
            final(self).errors@.drop_last() == old(self).errors@,
            final(self).errors@.last().0 == path,
            final(self).errors@.last().1@ == read_failure_text() + detail@,
            Summary::read_failed(*old(self), *final(self)),
    {
        let message = failure_message("读取失败: ", &detail);
        let entry = (path, message);
        proof {
            reveal_strlit("读取失败: ");
            lemma_read_failures_push(self.errors@, entry);
            assert(entry.1@.take(read_failure_text().len() as int) =~= read_failure_text());
        }
        self.files_scanned = self.files_scanned + 1;
        self.errors.push(entry);
        assert(self.errors@.drop_last() =~= old(self).errors@);
    }

    /// Writing a file's new contents failed: the error is recorded with its
    /// path and the message "写入失败: " followed by `detail`.
    pub fn note_write_error(&mut self, path: String, detail: String)
        requires
            old(self).wf(),
        ensures
            final(self).wf(),
            final(self).same_outcomes(old(self)),
            final(self).errors@.len() == old(self).errors@.len() + 1,
            final(self).errors@.drop_last() == old(self).errors@,
            final(self).errors@.last().0 == path,
            final(self).errors@.last().1@ == write_failure_text() + detail@,
            Summary::errors_noted(*old(self), *final(self)),
    {
        let message = failure_message("写入失败: ", &detail);
        let entry = (path, message);
        proof {
            reveal_strlit("写入失败: ");
            reveal_strlit("读取失败: ");
            lemma_read_failures_push(self.errors@, entry);
            assert(!is_read_failure(entry)) by {
                if is_read_failure(entry) {
                    assert(entry.1@[0] == read_failure_text()[0]);
                }
            }
        }
        self.errors.push(entry);
        assert(self.errors@.drop_last() =~= old(self).errors@);
    }

    /// Decides the outcome for a file that was read (see [`Summary::visited`]),
    /// given the operation's edits on it (`op.edits_for(data)`; they are not
    /// looked at for a file that looks binary). The result is the new contents
    /// to write: given only for a modified file outside a dry run, and then the
    /// data with the edits applied.
    pub fn visit_file(
        &mut self,
        path: String,
        data: &[u8],
        op: &Operation,
        edits: &[Edit],
        dry_run: bool,
        ctx: usize,
    ) -> (write: Option<Vec<u8>>)
        requires
            old(self).wf(),
            old(self).files_scanned < usize::MAX,
            data@.len() < usize::MAX,
            !looks_binary(data@) ==> spans_of(edits@) == op.spans(data@),
            !looks_binary(data@) ==> old(self).total_edits + op.spans(data@).len() <= usize::MAX,
        ensures
            final(self).wf(),
            Summary::visited(*old(self), *final(self), path, data@, *op, ctx as int),
            write is Some <==> (!looks_binary(data@) && op.spans(data@).len() > 0 && !dry_run),
            write matches Some(bytes) ==> bytes@ == applied(data@, op.spans(data@)),
    {
        self.files_scanned = self.files_scanned + 1;
        if is_binary(data) {
            self.binary_skipped = self.binary_skipped + 1;
            return None;
        }
        if edits.len() == 0 {
            self.unmatched.push(path);
            return None;
        }
        proof {
            lemma_op_spans_ready(*op, data@);
        }
        let (new_data, count) = apply_edits(data, edits);
        let diffs = build_diffs(data, edits, ctx);
        let ghost old_details = self.details@;
        self.files_modified = self.files_modified + 1;
        self.total_edits = self.total_edits + count;
        self.modified.push(path.clone());
        self.details.push(FileEdit { path, diffs });
        proof {
            assert(self.details@.drop_last() =~= old_details);
            assert forall|i: int| 0 <= i < self.details@.len() implies #[trigger] self.details@[i].path@
                == self.modified@[i]@ && self.details@[i].diffs@.len() > 0 by {
                if i < old_details.len() {
                    assert(self.details@[i] == old_details[i]);
                }
            }
        }
        if dry_run {
            None
        } else {
            Some(new_data)
        }
    }
}

/// `prefix` followed by `detail`.
fn failure_message(prefix: &str, detail: &String) -> (message: String)
    ensures
        message@ == prefix@ + detail@,
{
    let mut message = prefix.to_owned();
    message.append(detail.as_str());
    message
}

/// What one entry of a pass over a directory amounts to.
pub enum PassEvent {
    /// Only errors were recorded (an entry the walk could not read, a write
    /// that failed), or nothing at all.
    ErrorsOnly,
    /// A file was found but could not be read.
    ReadFailed,
    /// A file was read: its path and contents.
    Read { path: String, data: Seq<u8> },
}

/// A step of a pass keeps the summary consistent.
pub proof fn lemma_step_keeps_wf(old: Summary, new: Summary, event: PassEvent, op: Operation, ctx: int)
    requires
        old.wf(),
        Summary::pass_step(old, new, event, op, ctx),
    ensures
        new.wf(),
{
    match event {
        PassEvent::Read { path, data } => {
            let spans = op.spans(data);
            if !looks_binary(data) && spans.len() > 0 {
                let n = old.details@.len() as int;
                assert(new.details@.drop_last() == old.details@);
                assert(diff_total(new.details@) == diff_total(old.details@) + new.details@.last().diffs@.len());
                assert forall|i: int| 0 <= i < new.details@.len() implies #[trigger] new.details@[i].path@
                    == new.modified@[i]@ && new.details@[i].diffs@.len() > 0 by {
                    if i < n {
                        assert(new.details@[i] == new.details@.drop_last()[i]);
                        assert(old.details@[i].path@ == old.modified@[i]@);
                    }
                }
            }
        },
        _ => {},
    }
}

/// Every summary along a pass is consistent when the first one is.
proof fn lemma_pass_prefix_wf(states: Seq<Summary>, events: Seq<PassEvent>, op: Operation, ctx: int, i: int)
    requires
        states.len() == events.len() + 1,
        states[0].wf(),
        forall|j: int|
            0 <= j < events.len() ==> Summary::pass_step(states[j], states[j + 1], #[trigger] events[j], op, ctx),
        0 <= i <= events.len(),
    ensures
        states[i].wf(),
    decreases i,
{
    if i > 0 {
        lemma_pass_prefix_wf(states, events, op, ctx, i - 1);
        lemma_step_keeps_wf(states[i - 1], states[i], events[i - 1], op, ctx);
    }
}

/// Over a whole pass, the summary stays consistent: each modified file is
/// listed once in `modified` and once in `details` with at least one preview,
/// `total_edits` is the number of previews, and the scanned files number the
/// modified ones, the binary ones skipped, the unmatched ones and the
/// read-failure entries of `errors` together.
pub proof fn law_pass_keeps_summary_consistent(
    states: Seq<Summary>,
    events: Seq<PassEvent>,
    op: Operation,
    ctx: int,
)
    requires
        states.len() == events.len() + 1,
        states[0].wf(),
        forall|j: int|
            0 <= j < events.len() ==> Summary::pass_step(states[j], states[j + 1], #[trigger] events[j], op, ctx),
    ensures
        forall|i: int| 0 <= i < states.len() ==> (#[trigger] states[i]).wf(),
{
    assert forall|i: int| 0 <= i < states.len() implies (#[trigger] states[i]).wf() by {
        lemma_pass_prefix_wf(states, events, op, ctx, i);
    }
}

/// The same step from summaries that report the same results gives summaries
/// that report the same results.
pub proof fn lemma_step_same_results(
    a: Summary,
    a2: Summary,
    b: Summary,
    b2: Summary,
    event: PassEvent,
    op: Operation,
    ctx: int,
)
    requires
        a.same_results(&b),
        Summary::pass_step(a, a2, event, op, ctx),
        Summary::pass_step(b, b2, event, op, ctx),
    ensures
        a2.same_results(&b2),
{
    let n = a.details@.len() as int;
    let grew = match event {
        PassEvent::Read { path, data } => !looks_binary(data) && op.spans(data).len() > 0,
        _ => false,
    };
    if grew {
        assert(a2.details@.drop_last() == a.details@);
        assert(b2.details@.drop_last() == b.details@);
    } else {
        assert(a2.details@ == a.details@);
        assert(b2.details@ == b.details@);
    }
    assert forall|i: int| 0 <= i < a2.details@.len() implies same_file_edit(
        #[trigger] a2.details@[i],
        b2.details@[i],
    ) by {
        if i < n {
            if grew {
                assert(a2.details@[i] == a2.details@.drop_last()[i]);
                assert(b2.details@[i] == b2.details@.drop_last()[i]);
            }
            assert(a2.details@[i] == a.details@[i]);
            assert(b2.details@[i] == b.details@[i]);
            assert(same_file_edit(a.details@[i], b.details@[i]));
        } else {
            let data = match event {
                PassEvent::Read { path, data } => data,
                _ => arbitrary(),
            };
            lemma_previews_agree(a2.details@[i].diffs@, b2.details@[i].diffs@, data, op.spans(data), ctx);
        }
    }
}

/// Two lists of previews of the same edits on the same data show the same.
pub proof fn lemma_previews_agree(
    a: Seq<LineDiff>,
    b: Seq<LineDiff>,
    data: Seq<u8>,
    spans: Seq<crate::edit::EditSpan>,
    ctx: int,
)
    requires
        previews(a, data, spans, ctx),
        previews(b, data, spans, ctx),
    ensures
        same_previews(a, b),
{
    assert forall|k: int| 0 <= k < a.len() implies {
        &&& #[trigger] a[k].line_no == b[k].line_no
        &&& a[k].start@ == b[k].start@
        &&& a[k].new@ == b[k].new@
    } by {
        assert(a[k].line_no as int == crate::diff::diff_line(data, spans[k]));
        assert(b[k].line_no as int == crate::diff::diff_line(data, spans[k]));
    }
}

proof fn lemma_pass_prefix_same(
    dry: Seq<Summary>,
    actual: Seq<Summary>,
    events: Seq<PassEvent>,
    op: Operation,
    ctx: int,
    i: int,
)
    requires
        dry.len() == events.len() + 1,
        actual.len() == events.len() + 1,
        dry[0].same_results(&actual[0]),
        forall|j: int|
            0 <= j < events.len() ==> Summary::pass_step(dry[j], dry[j + 1], #[trigger] events[j], op, ctx),
        forall|j: int|
            0 <= j < events.len() ==> Summary::pass_step(actual[j], actual[j + 1], #[trigger] events[j], op, ctx),
        0 <= i <= events.len(),
    ensures
        dry[i].same_results(&actual[i]),
    decreases i,
{
    if i > 0 {
        lemma_pass_prefix_same(dry, actual, events, op, ctx, i - 1);
        lemma_step_same_results(dry[i - 1], dry[i], actual[i - 1], actual[i], events[i - 1], op, ctx);
    }
}

/// Two passes over the same entries, from summaries that report the same
/// results, end reporting the same results. `Summary::visit_file` records the
/// same step whether or not it is a dry run, and a failed write only adds an
/// error (in a dry run, where nothing is written, that step records nothing),
/// so a dry run reports what a real run reports, errors aside.
pub proof fn law_pass_dry_run_reports_same(
    dry: Seq<Summary>,
    actual: Seq<Summary>,
    events: Seq<PassEvent>,
    op: Operation,
    ctx: int,
)
    requires
        dry.len() == events.len() + 1,
        actual.len() == events.len() + 1,
        dry[0].same_results(&actual[0]),
        forall|j: int|
            0 <= j < events.len() ==> Summary::pass_step(dry[j], dry[j + 1], #[trigger] events[j], op, ctx),
        forall|j: int|
            0 <= j < events.len() ==> Summary::pass_step(actual[j], actual[j + 1], #[trigger] events[j], op, ctx),
    ensures
        dry.last().same_results(&actual.last()),
{
    lemma_pass_prefix_same(dry, actual, events, op, ctx, events.len() as int);
}

} // verus!

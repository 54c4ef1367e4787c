use txtbatch::form::{preview_rows, Form, Mode, PreviewRow, Tone};
use txtbatch::{is_binary, FileEdit, LineDiff, Operation, Summary, DEFAULT_CTX};

fn visit(s: &mut Summary, path: String, data: &[u8], op: &Operation, dry_run: bool, ctx: usize) -> Option<Vec<u8>> {
    let edits = if is_binary(data) { Vec::new() } else { op.edits_for(data) };
    s.visit_file(path, data, op, &edits, dry_run, ctx)
}


fn form(mode: Mode) -> Form {
    let mut f = Form::new("/work".to_string());
    f.mode = mode;
    f.replace_with = "R".to_string();
    f.insert_text = "I".to_string();
    f.repeat_count = 3;
    f
}

fn modified_summary() -> Summary {
    let mut s = Summary::default();
    let op = Operation::Replace { find: "a".into(), replace: "b".into() };
    visit(&mut s, "x.txt".to_string(), b"a a", &op, true, DEFAULT_CTX);
    s
}

#[test]
fn preview_needs_dir_and_pattern() {
    let mut f = form(Mode::Replace);
    assert!(!f.can_preview());
    f.find = "x".to_string();
    assert!(f.can_preview());
    assert!(!f.can_apply());
    f.on_preview_done(Ok(Summary::default()));
    assert!(f.can_apply());
    f.dir.clear();
    assert!(!f.can_preview());
    assert!(!f.can_apply());

    let mut f = form(Mode::Insert);
    f.find = "x".to_string();
    assert!(!f.can_preview());
    f.after = "a".to_string();
    assert!(f.can_preview());

    let mut f = form(Mode::Repeat);
    assert!(!f.can_preview());
    f.find = "x".to_string();
    assert!(f.can_preview());
}

#[test]
fn make_operation_follows_mode() {
    let mut f = form(Mode::Replace);
    f.find = "x".to_string();
    f.after = "a".to_string();
    match f.make_operation() {
        Operation::Replace { find, replace } => {
            assert_eq!(find, "x");
            assert_eq!(replace, "R");
        }
        _ => panic!("expected a replace"),
    }
    f.mode = Mode::Insert;
    match f.make_operation() {
        Operation::Insert { after, insert } => {
            assert_eq!(after, "a");
            assert_eq!(insert, "I");
        }
        _ => panic!("expected an insert"),
    }
    f.mode = Mode::Repeat;
    match f.make_operation() {
        Operation::Repeat { find, count } => {
            assert_eq!(find, "x");
            assert_eq!(count, 3);
        }
        _ => panic!("expected a repeat"),
    }
}

fn diff(line_no: usize) -> LineDiff {
    LineDiff { line_no, start: format!("old{line_no}"), new: format!("new{line_no}") }
}

#[test]
fn preview_rows_per_file() {
    let details = vec![
        FileEdit { path: "a.txt".to_string(), diffs: vec![diff(2), diff(1234)] },
        FileEdit { path: "b.txt".to_string(), diffs: vec![diff(7)] },
    ];
    let rows = preview_rows(&details);
    assert_eq!(rows.len(), 7);
    match &rows[0] {
        PreviewRow::FileHeader { path, count } => {
            assert_eq!(path, "a.txt");
            assert_eq!(*count, 2);
        }
        _ => panic!("expected a header"),
    }
    match &rows[1] {
        PreviewRow::Diff { line_no, num_width, old, new } => {
            assert_eq!(*line_no, 2);
            assert_eq!(*num_width, 4);
            assert_eq!(old, "old2");
            assert_eq!(new, "new2");
        }
        _ => panic!("expected a diff"),
    }
    assert!(matches!(rows[3], PreviewRow::Separator));
    match &rows[5] {
        PreviewRow::Diff { line_no, num_width, .. } => {
            assert_eq!(*line_no, 7);
            assert_eq!(*num_width, 3);
        }
        _ => panic!("expected a diff"),
    }
    assert!(matches!(rows[6], PreviewRow::Separator));
    assert!(preview_rows(&Vec::new()).is_empty());
}


#[test]
fn new_form_defaults() {
    let f = Form::new("/saved".to_string());
    assert_eq!(f.dir, "/saved");
    assert_eq!(f.mode, Mode::Replace);
    assert!(f.find.is_empty() && f.after.is_empty());
    assert!(f.preview.is_none());
    assert!(f.status.is_empty());
    assert_eq!(f.tone, Tone::Neutral);
}

#[test]
fn form_events_update_preview_and_status() {
    let mut f = form(Mode::Replace);
    f.find = "a".to_string();
    f.on_preview_done(Ok(modified_summary()));
    assert_eq!(f.status, "预览完成，共 2 处修改");
    assert_eq!(f.tone, Tone::Success);
    assert!(f.preview.is_some());
    assert_eq!(f.shown_rows().unwrap().len(), 4);

    f.on_dir_edited();
    assert!(f.preview.is_none());
    assert!(f.shown_rows().is_none());

    f.on_preview_done(Ok(modified_summary()));
    f.on_cancel();
    assert!(f.preview.is_none());
    assert_eq!(f.status, "已取消");
    assert_eq!(f.tone, Tone::Neutral);

    f.on_preview_done(Err("boom".to_string()));
    assert_eq!(f.status, "预览失败: boom");
    assert_eq!(f.tone, Tone::Failure);

    f.on_apply_done(Ok(modified_summary()));
    assert_eq!(f.status, "已成功应用 2 处修改到 1 个文件");
    f.on_apply_done(Err("disk".to_string()));
    assert_eq!(f.status, "应用失败: disk");
    assert!(f.preview.is_some());

    f.on_missing_dir();
    assert_eq!(f.status, "目录不存在: /work");
    assert_eq!(f.tone, Tone::Failure);

    f.on_dir_picked("/other".to_string());
    assert_eq!(f.dir, "/other");
    assert!(f.preview.is_none());

    f.on_preview_done(Ok(Summary::default()));
    assert!(f.shown_rows().is_none());
}

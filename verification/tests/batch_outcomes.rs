use txtbatch::batch::BINARY_PROBE;
use txtbatch::{is_binary, Operation, Summary, DEFAULT_CTX};

fn visit(s: &mut Summary, path: String, data: &[u8], op: &Operation, dry_run: bool, ctx: usize) -> Option<Vec<u8>> {
    let edits = if is_binary(data) { Vec::new() } else { op.edits_for(data) };
    s.visit_file(path, data, op, &edits, dry_run, ctx)
}


fn replace(find: &str, with: &str) -> Operation {
    Operation::Replace { find: find.into(), replace: with.into() }
}

#[test]
fn binary_detection() {
    assert!(is_binary(b"a\x00b"));
    assert!(is_binary(&[0u8; 10]));
    assert!(!is_binary(b"plain text"));
}

#[test]
fn binary_probe_limited_to_leading_bytes() {
    let mut data = vec![b'a'; BINARY_PROBE];
    data.push(0);
    assert!(!is_binary(&data));
    data[BINARY_PROBE - 1] = 0;
    assert!(is_binary(&data));
    assert!(!is_binary(b""));
}

#[test]
fn visit_rewrites_matching_file() {
    let mut s = Summary::default();
    let op = replace("foo", "FOO");
    let write = visit(&mut s, "a.txt".to_string(), b"foo bar\nfoo", &op, false, DEFAULT_CTX);
    assert_eq!(write, Some(b"FOO bar\nFOO".to_vec()));
    let write = visit(&mut s, "sub/b.txt".to_string(), b"nothing", &op, false, DEFAULT_CTX);
    assert_eq!(write, None);
    assert_eq!(s.files_scanned, 2);
    assert_eq!(s.files_modified, 1);
    assert_eq!(s.total_edits, 2);
    assert_eq!(s.unmatched, vec!["sub/b.txt".to_string()]);
    assert_eq!(s.errors.len(), 0);
    assert_eq!(s.modified, vec!["a.txt".to_string()]);
    assert_eq!(s.details.len(), 1);
    assert_eq!(s.details[0].path, "a.txt");
    assert_eq!(s.details[0].diffs.len(), 2);
    assert_eq!(s.details[0].diffs[0].line_no, 1);
    assert_eq!(s.details[0].diffs[0].start, "foo bar");
    assert_eq!(s.details[0].diffs[0].new, "FOO bar");
    assert_eq!(s.details[0].diffs[1].line_no, 2);
}

#[test]
fn visit_dry_run_gives_nothing_to_write() {
    let mut s = Summary::default();
    let write = visit(&mut s, "a.txt".to_string(), b"foo", &replace("foo", "bar"), true, DEFAULT_CTX);
    assert_eq!(write, None);
    assert_eq!(s.files_modified, 1);
    assert_eq!(s.total_edits, 1);
}

#[test]
fn visit_insert_after_anchor() {
    let mut s = Summary::default();
    let op = Operation::Insert { after: "你好".into(), insert: " ".into() };
    let write = visit(&mut s, "a.txt".to_string(), "你好世界".as_bytes(), &op, false, DEFAULT_CTX);
    assert_eq!(write, Some("你好 世界".as_bytes().to_vec()));
}

#[test]
fn visit_skips_and_counts_binary() {
    let mut s = Summary::default();
    let op = replace("foo", "x");
    assert_eq!(visit(&mut s, "bin.png".to_string(), &[0u8, 1, 2, 3], &op, false, DEFAULT_CTX), None);
    assert_eq!(
        visit(&mut s, "text.txt".to_string(), b"foo foo", &op, false, DEFAULT_CTX),
        Some(b"x x".to_vec())
    );
    assert_eq!(s.binary_skipped, 1);
    assert_eq!(s.files_scanned, 2);
    assert_eq!(s.files_modified, 1);
    assert_eq!(s.total_edits, 2);
    assert_eq!(s.modified.len(), 1);
}

#[test]
fn visit_reports_unmatched() {
    let mut s = Summary::default();
    assert_eq!(visit(&mut s, "a.txt".to_string(), b"hello", &replace("zzz", "x"), false, DEFAULT_CTX), None);
    assert_eq!(s.files_modified, 0);
    assert_eq!(s.unmatched.len(), 1);
}

#[test]
fn empty_summary() {
    let s = Summary::default();
    assert_eq!(s.files_scanned, 0);
    assert_eq!(s.files_modified, 0);
    assert_eq!(s.total_edits, 0);
    assert!(s.details.is_empty());
}

#[test]
fn errors_are_recorded() {
    let mut s = Summary::default();
    s.note_walk_error("walk failed".to_string());
    s.note_read_error("a.txt".to_string(), "read failed".to_string());
    s.note_write_error("b.txt".to_string(), "write failed".to_string());
    assert_eq!(s.files_scanned, 1);
    assert_eq!(
        s.errors,
        vec![
            (String::new(), "遍历失败: walk failed".to_string()),
            ("a.txt".to_string(), "读取失败: read failed".to_string()),
            ("b.txt".to_string(), "写入失败: write failed".to_string()),
        ]
    );
    let read_failures = s.errors.iter().filter(|(_, m)| m.starts_with("读取失败")).count();
    assert_eq!(s.files_scanned, s.files_modified + s.binary_skipped + s.unmatched.len() + read_failures);
    assert_eq!(s.files_modified, 0);
}

#[test]
fn visit_processes_non_utf8_text_after_anchor() {
    let mut s = Summary::default();
    let op = Operation::Insert { after: "x\n".into(), insert: "y".into() };
    let write = visit(&mut s, "a.txt".to_string(), b"x\n\xba\xc3", &op, true, DEFAULT_CTX);
    assert_eq!(write, None);
    assert_eq!(s.files_modified, 1);
    assert_eq!(s.total_edits, 1);
    assert_eq!(s.details[0].diffs.len(), 1);
    assert_eq!(s.details[0].diffs[0].line_no, 2);
    assert_eq!(s.details[0].diffs[0].start, "\u{fffd}\u{fffd}");
    assert_eq!(s.details[0].diffs[0].new, "y\u{fffd}\u{fffd}");
    let write = visit(&mut s, "b.txt".to_string(), b"x\n\xba\xc3", &op, false, DEFAULT_CTX);
    assert_eq!(write, Some(b"x\ny\xba\xc3".to_vec()));
}

#[test]
fn dry_and_real_runs_report_the_same() {
    let op = replace("foo", "bar");
    let files: [(&str, &[u8]); 3] = [("a", b"foo\nfoo"), ("b", b"\x00foo"), ("c", b"none")];
    let mut dry = Summary::default();
    let mut real = Summary::default();
    for (path, data) in files {
        assert_eq!(visit(&mut dry, path.to_string(), data, &op, true, DEFAULT_CTX), None);
        visit(&mut real, path.to_string(), data, &op, false, DEFAULT_CTX);
    }
    assert_eq!(dry.files_scanned, real.files_scanned);
    assert_eq!(dry.files_modified, real.files_modified);
    assert_eq!(dry.total_edits, real.total_edits);
    assert_eq!(dry.binary_skipped, real.binary_skipped);
    assert_eq!(dry.modified, real.modified);
    assert_eq!(dry.unmatched, real.unmatched);
    assert_eq!(dry.details[0].diffs[1].new, real.details[0].diffs[1].new);
    assert_eq!(
        real.files_scanned,
        real.files_modified + real.binary_skipped + real.unmatched.len()
    );
}

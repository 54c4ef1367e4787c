use txtbatch::report::{report_lines, resolve_dir, ChosenDir, LineTone, ReportLine};
use txtbatch::{is_binary, Operation, Summary, DEFAULT_CTX};

fn visit(s: &mut Summary, path: &str, data: &[u8], op: &Operation, dry_run: bool) -> Option<Vec<u8>> {
    let edits = if is_binary(data) { Vec::new() } else { op.edits_for(data) };
    s.visit_file(path.to_string(), data, op, &edits, dry_run, DEFAULT_CTX)
}

fn texts(lines: &[ReportLine]) -> Vec<(String, String, LineTone)> {
    lines.iter().map(|l| (l.lead.clone(), l.body.clone(), l.tone)).collect()
}

fn plain(text: &str) -> (String, String, LineTone) {
    (String::new(), text.to_string(), LineTone::Plain)
}

#[test]
fn given_directory_is_used_and_remembered() {
    match resolve_dir(Some("/a".to_string()), Some("/b".to_string())) {
        Ok(ChosenDir::Given(d)) => assert_eq!(d, "/a"),
        other => panic!("unexpected {other:?}"),
    }
}

#[test]
fn saved_directory_is_used_when_none_given() {
    match resolve_dir(None, Some("/b".to_string())) {
        Ok(ChosenDir::Saved(d)) => assert_eq!(d, "/b"),
        other => panic!("unexpected {other:?}"),
    }
}

#[test]
fn no_directory_is_an_error() {
    match resolve_dir(None, None) {
        Err(m) => {
            assert!(m.starts_with("未指定目录，也没有已保存的默认目录。"));
            assert!(m.contains("txtbatch set-dir <目录>"));
        }
        other => panic!("unexpected {other:?}"),
    }
}

#[test]
fn dry_run_report_with_previews() {
    let op = Operation::Replace { find: "foo".into(), replace: "bar".into() };
    let mut s = Summary::default();
    visit(&mut s, "a.txt", b"foo", &op, true);
    let lines = report_lines(&s, &op, true, true);
    assert_eq!(
        texts(&lines),
        vec![
            plain("[dry-run] 以下为预览，未写入任何文件"),
            plain("扫描文件 1 个，修改 1 个，共 1 处替换"),
            plain("文件: a.txt（1 处）"),
            plain("第 1 行"),
            ("  ".to_string(), "- foo".to_string(), LineTone::Removed),
            ("  ".to_string(), "+ bar".to_string(), LineTone::Added),
        ]
    );
}

#[test]
fn report_lists_files_skips_and_errors() {
    let op = Operation::Insert { after: "x".into(), insert: "y".into() };
    let mut s = Summary::default();
    visit(&mut s, "a.txt", b"x x", &op, false);
    visit(&mut s, "b.bin", b"\x00x", &op, false);
    visit(&mut s, "c.txt", b"none", &op, false);
    s.note_read_error("d.txt".to_string(), "denied".to_string());
    let lines = report_lines(&s, &op, false, false);
    assert_eq!(
        texts(&lines),
        vec![
            plain("扫描文件 4 个，修改 1 个，共 2 处插入"),
            plain("跳过二进制文件 1 个"),
            plain("修改的文件:"),
            plain("  a.txt（2 处）"),
            plain("未找到匹配的文件 1 个"),
            plain("错误[d.txt]: 读取失败: denied"),
        ]
    );
}

#[test]
fn empty_report_has_only_counts() {
    let op = Operation::Repeat { find: "a".into(), count: 2 };
    let lines = report_lines(&Summary::default(), &op, false, true);
    assert_eq!(texts(&lines), vec![plain("扫描文件 0 个，修改 0 个，共 0 处重复")]);
}

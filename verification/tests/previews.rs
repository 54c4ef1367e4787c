use txtbatch::diff::line_diff_bytes;
use txtbatch::{build_diffs, Edit};

#[test]
fn build_diffs_lines_and_truncation() {
    let data = b"aaaaa\n00000 hello world and beyond\nlast";
    let hello = memchr::memmem::find(b"00000 hello", b"hello").unwrap();
    let start = 6 + hello;
    let edits = vec![Edit {
        start,
        end: start + 5,
        replacement: b"hi".to_vec(),
    }];
    let diffs = build_diffs(data, &edits, 4);
    assert_eq!(diffs.len(), 1);
    assert_eq!(diffs[0].line_no, 2);
    assert!(diffs[0].start.starts_with('\u{2026}'), "应带前置省略号");
    assert!(diffs[0].start.contains("hello"));
    assert!(diffs[0].new.contains("hi"));
}

#[test]
fn build_diffs_insert_after_anchor() {
    let data = "你好世界".as_bytes();
    let edits = vec![Edit {
        start: "你好".as_bytes().len(),
        end: "你好".as_bytes().len(),
        replacement: " !!".as_bytes().to_vec(),
    }];
    let diffs = build_diffs(data, &edits, 24);
    assert_eq!(diffs[0].line_no, 1);
    assert_eq!(diffs[0].start, "你好世界");
    assert_eq!(diffs[0].new, "你好 !!世界");
}

#[test]
fn build_diffs_one_edit_per_line() {
    let data = b"a\nb\nc";
    let edits = vec![
        Edit { start: 2, end: 2, replacement: b"@".to_vec() },
        Edit { start: 4, end: 4, replacement: b"@".to_vec() },
    ];
    let diffs = build_diffs(data, &edits, 24);
    assert_eq!(diffs.len(), 2);
    assert_eq!(diffs[0].line_no, 2);
    assert_eq!(diffs[1].line_no, 3);
    assert_eq!(diffs[0].start, "b");
    assert_eq!(diffs[0].new, "@b");
    assert_eq!(diffs[1].start, "c");
    assert_eq!(diffs[1].new, "@c");
}

#[test]
fn build_diffs_same_line_multiple_hits() {
    let data = b"ab ab";
    let edits = [
        Edit { start: 0, end: 2, replacement: b"X".to_vec() },
        Edit { start: 3, end: 5, replacement: b"Y".to_vec() },
    ];
    let diffs = build_diffs(data, &edits, 24);
    assert_eq!(diffs.len(), 2);
    assert_eq!(diffs[0].line_no, 1);
    assert_eq!(diffs[1].line_no, 1);
    assert_eq!(diffs[0].new, "X ab");
    assert_eq!(diffs[1].new, "ab Y");
}

#[test]
fn preview_bytes_cut_on_both_sides() {
    let data = b"0123456789TARGET9876543210";
    let edit = Edit { start: 10, end: 16, replacement: b"t".to_vec() };
    let (line_no, old, new) = line_diff_bytes(data, &edit, 3);
    assert_eq!(line_no, 1);
    assert_eq!(old, "\u{2026}789TARGET987\u{2026}".as_bytes());
    assert_eq!(new, "\u{2026}789t987\u{2026}".as_bytes());
}

#[test]
fn preview_drops_carriage_return_and_counts_lines() {
    let data = b"first\r\nsecond line\r\nthird";
    let edit = Edit { start: 14, end: 18, replacement: b"LINE".to_vec() };
    let (line_no, old, new) = line_diff_bytes(data, &edit, 24);
    assert_eq!(line_no, 2);
    assert_eq!(old, b"second line");
    assert_eq!(new, b"second LINE");
}

#[test]
fn preview_window_moves_off_continuation_bytes() {
    // "好" is three bytes; two bytes of context before the edit land inside it.
    let data = "好x".as_bytes();
    let edit = Edit { start: 3, end: 4, replacement: b"y".to_vec() };
    let (_, old, new) = line_diff_bytes(data, &edit, 2);
    assert_eq!(old, "\u{2026}x".as_bytes());
    assert_eq!(new, "\u{2026}y".as_bytes());
}

#[test]
fn preview_window_never_passes_the_edit() {
    // With no context the window would move off continuation bytes past the
    // edit; it starts at the edit instead.
    let data = "好x".as_bytes();
    let edit = Edit { start: 1, end: 1, replacement: b"!".to_vec() };
    let (line_no, old, new) = line_diff_bytes(data, &edit, 0);
    assert_eq!(line_no, 1);
    assert_eq!(old, b"\xe2\x80\xa6\xa5\xbd\xe2\x80\xa6");
    assert_eq!(new, b"\xe2\x80\xa6!\xa5\xbd\xe2\x80\xa6");
}

#[test]
fn preview_of_invalid_utf8_uses_replacement_character() {
    let data = b"a\xffb";
    let edits = vec![Edit { start: 0, end: 1, replacement: b"c".to_vec() }];
    let diffs = build_diffs(data, &edits, 24);
    assert_eq!(diffs[0].start, "a\u{fffd}b");
    assert_eq!(diffs[0].new, "c\u{fffd}b");
}

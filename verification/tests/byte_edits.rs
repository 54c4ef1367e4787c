use txtbatch::text::decimal_text;
use txtbatch::{apply_edits, insert_after_all_bytes, replace_all_bytes, Edit, Operation};

#[test]
fn replace_basic() {
    let (out, n) = replace_all_bytes(b"hello world hello", b"hello", b"hi");
    assert_eq!(out, b"hi world hi");
    assert_eq!(n, 2);
}

#[test]
fn replace_chinese_bytes() {
    let (out, n) = replace_all_bytes("你好世界".as_bytes(), "世界".as_bytes(), "中国".as_bytes());
    assert_eq!(out, "你好中国".as_bytes());
    assert_eq!(n, 1);
}

#[test]
fn replace_none() {
    let (out, n) = replace_all_bytes(b"abc", b"xyz", b"1");
    assert_eq!(out, b"abc");
    assert_eq!(n, 0);
}

#[test]
fn replace_empty_find_no_op() {
    let (out, n) = replace_all_bytes(b"abc", b"", b"x");
    assert_eq!(out, b"abc");
    assert_eq!(n, 0);
}

#[test]
fn replace_utf8_bom_preserved() {
    let (out, n) = replace_all_bytes(b"\xef\xbb\xbfabc", b"abc", b"def");
    assert_eq!(out, b"\xef\xbb\xbfdef");
    assert_eq!(n, 1);
}

#[test]
fn replace_gbk_bytes_no_utf8_decode() {
    let (out, n) = replace_all_bytes(b"\xc4\xe3\xba\xc3", b"\xba\xc3", b"\xb2\xbb\xb4\xed");
    assert_eq!(out, b"\xc4\xe3\xb2\xbb\xb4\xed");
    assert_eq!(n, 1);
}

#[test]
fn insert_basic() {
    let (out, n) = insert_after_all_bytes(b"a,b", b",", b" x");
    assert_eq!(out, b"a, xb");
    assert_eq!(n, 1);
}

#[test]
fn insert_multiple() {
    let (out, n) = insert_after_all_bytes(b"abab", b"ab", b"-");
    assert_eq!(out, b"ab-ab-");
    assert_eq!(n, 2);
}

#[test]
fn insert_none() {
    let (out, n) = insert_after_all_bytes(b"abc", b"z", b"!");
    assert_eq!(out, b"abc");
    assert_eq!(n, 0);
}

#[test]
fn insert_adjacent_no_overlap() {
    let (out, n) = insert_after_all_bytes(b"aaa", b"aa", b"!");
    assert_eq!(out, b"aa!a");
    assert_eq!(n, 1);
}

#[test]
fn operation_apply_roundtrip() {
    let op = Operation::Replace {
        find: "foo".into(),
        replace: "bar".into(),
    };
    let edits = op.edits_for(b"foo foo");
    let (out, n) = apply_edits(b"foo foo", &edits);
    assert_eq!(out, b"bar bar");
    assert_eq!(n, 2);

    let op = Operation::Insert {
        after: "foo".into(),
        insert: "!".into(),
    };
    let edits = op.edits_for(b"foo");
    let (out, n) = apply_edits(b"foo", &edits);
    assert_eq!(out, b"foo!");
    assert_eq!(n, 1);
}

#[test]
fn edits_for_matches_count_and_spans() {
    let op = Operation::Replace {
        find: "ab".into(),
        replace: "X".into(),
    };
    let edits = op.edits_for(b"ab X ab");
    assert_eq!(edits.len(), 2);
    assert_eq!((edits[0].start, edits[0].end), (0, 2));
    assert_eq!((edits[1].start, edits[1].end), (5, 7));

    let op = Operation::Insert {
        after: "ab".into(),
        insert: "-".into(),
    };
    let edits = op.edits_for(b"abab");
    assert_eq!(edits.len(), 2);
    assert_eq!((edits[0].start, edits[0].end), (2, 2));
    assert_eq!((edits[1].start, edits[1].end), (4, 4));
}

#[test]
fn operation_names() {
    let replace = Operation::Replace { find: "a".into(), replace: "b".into() };
    let insert = Operation::Insert { after: "a".into(), insert: "b".into() };
    let repeat = Operation::Repeat { find: "a".into(), count: 2 };
    assert_eq!(replace.name(), "替换");
    assert_eq!(insert.name(), "插入");
    assert_eq!(repeat.name(), "重复");
}

#[test]
fn replace_overlapping_candidates_leftmost_first() {
    let (out, n) = replace_all_bytes(b"aaaa", b"aa", b"b");
    assert_eq!(out, b"bb");
    assert_eq!(n, 2);
    let (out, n) = replace_all_bytes(b"aaa", b"aa", b"b");
    assert_eq!(out, b"ba");
    assert_eq!(n, 1);
}

#[test]
fn replace_with_itself_keeps_data() {
    let data = b"one two one two one";
    let (out, n) = replace_all_bytes(data, b"one", b"one");
    assert_eq!(out, data);
    assert_eq!(n, 3);
}

#[test]
fn insert_equals_replace_with_anchor() {
    let data = "甲乙甲乙丙".as_bytes();
    let (inserted, n1) = insert_after_all_bytes(data, "甲".as_bytes(), b"!");
    let (replaced, n2) = replace_all_bytes(data, "甲".as_bytes(), "甲!".as_bytes());
    assert_eq!(inserted, replaced);
    assert_eq!(n1, n2);
    assert_eq!(inserted, "甲!乙甲!乙丙".as_bytes());
}

#[test]
fn replace_length_formula() {
    let data = b"xx-xx-xx";
    let (out, n) = replace_all_bytes(data, b"xx", b"yyyy");
    assert_eq!(n, 3);
    assert_eq!(out.len(), data.len() + n * 2);
    let (out, n) = insert_after_all_bytes(data, b"-", b"abc");
    assert_eq!(n, 2);
    assert_eq!(out.len(), data.len() + n * 3);
}

#[test]
fn apply_no_edits_copies_data() {
    let (out, n) = apply_edits(b"unchanged", &[]);
    assert_eq!(out, b"unchanged");
    assert_eq!(n, 0);
}

#[test]
fn apply_edits_in_order() {
    let edits = vec![
        Edit { start: 0, end: 1, replacement: b"X".to_vec() },
        Edit { start: 3, end: 3, replacement: b"++".to_vec() },
        Edit { start: 4, end: 6, replacement: Vec::new() },
    ];
    let (out, n) = apply_edits(b"abcdefg", &edits);
    assert_eq!(out, b"Xbc++dg");
    assert_eq!(n, 3);
}

#[test]
fn edits_for_empty_pattern_hits_every_position() {
    let op = Operation::Insert { after: "".into(), insert: "-".into() };
    let edits = op.edits_for(b"ab");
    let starts: Vec<usize> = edits.iter().map(|e| e.start).collect();
    assert_eq!(starts, vec![0, 1, 2]);
    let (out, n) = apply_edits(b"ab", &edits);
    assert_eq!(out, b"-a-b-");
    assert_eq!(n, 3);
}

#[test]
fn repeat_each_occurrence() {
    let op = Operation::Repeat { find: "123".into(), count: 3 };
    let edits = op.edits_for(b"a123b123");
    assert_eq!(edits.len(), 2);
    assert_eq!((edits[0].start, edits[0].end), (1, 4));
    assert_eq!(edits[0].replacement, b"123123123");
    let (out, n) = apply_edits(b"a123b123", &edits);
    assert_eq!(out, b"a123123123b123123123");
    assert_eq!(n, 2);
}

#[test]
fn repeat_once_or_never() {
    let once = Operation::Repeat { find: "ab".into(), count: 1 };
    let edits = once.edits_for(b"xabyab");
    assert_eq!(apply_edits(b"xabyab", &edits).0, b"xabyab");
    let never = Operation::Repeat { find: "ab".into(), count: 0 };
    let edits = never.edits_for(b"xabyab");
    assert_eq!(apply_edits(b"xabyab", &edits).0, b"xy");
}

#[test]
fn decimal_text_writes_digits() {
    assert_eq!(decimal_text(0), "0");
    assert_eq!(decimal_text(7), "7");
    assert_eq!(decimal_text(10), "10");
    assert_eq!(decimal_text(1234567), "1234567");
    assert_eq!(decimal_text(usize::MAX), usize::MAX.to_string());
}

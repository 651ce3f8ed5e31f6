use herdr_reviewr::diff::{Row, Span};
use herdr_reviewr::file_list::{Entry, Row as FileRow, RowKind};
use herdr_reviewr::selection::{
    copied_status, files_text, lines_text, read_text, slice_chars, token_at, Point, Surface,
    TextDrag,
};

fn spans(text: &str) -> Vec<Span> {
    vec![Span { text: text.into() }]
}

fn ctx(text: &str) -> Row {
    Row::Context { old_no: 1, new_no: 1, spans: spans(text) }
}

fn del(text: &str) -> Row {
    Row::Deletion { old_no: 1, spans: spans(text), emphasis: vec![] }
}

fn ins(text: &str) -> Row {
    Row::Insertion { new_no: 1, spans: spans(text), emphasis: vec![] }
}

fn fold(hidden: usize) -> Row {
    Row::Fold { lines: (0..hidden).map(|_| ctx("hidden")).collect() }
}

fn point(row: usize, chr: usize) -> Point {
    Point { row, chr }
}

#[test]
fn endpoints_order_by_row_then_char_and_include_both_ends() {
    let drag = TextDrag { surface: Surface::Read, anchor: point(3, 7), extent: point(1, 2) };
    assert_eq!(drag.ordered(), (point(1, 2), point(3, 7)));
    let same_row = TextDrag { surface: Surface::Read, anchor: point(2, 9), extent: point(2, 4) };
    assert_eq!(same_row.ordered(), (point(2, 4), point(2, 9)));
}

#[test]
fn read_text_slices_the_end_rows_and_takes_middles_whole() {
    let rows = vec![ctx("let alpha = 1;"), ctx("let beta = 2;"), ctx("let gamma = 3;")];
    let got = read_text(&rows, point(0, 4), point(2, 8));
    assert_eq!(got, "alpha = 1;\nlet beta = 2;\nlet gamma");
}

#[test]
fn read_text_on_one_row_takes_the_inclusive_span() {
    let rows = vec![ctx("let alpha = 1;")];
    assert_eq!(read_text(&rows, point(0, 4), point(0, 8)), "alpha");
}

#[test]
fn read_text_skips_folds_and_takes_change_rows() {
    let rows = vec![ctx("a"), fold(2), del("removed"), ins("added")];
    assert_eq!(read_text(&rows, point(0, 0), point(3, 4)), "a\nremoved\nadded");
}

#[test]
fn read_text_clamps_past_the_end() {
    let rows = vec![ctx("ab")];
    assert_eq!(read_text(&rows, point(0, 0), point(9, 99)), "ab");
    assert_eq!(read_text(&rows, point(0, 1), point(0, 99)), "b");
}

#[test]
fn lines_text_cuts_the_first_and_last_lines() {
    let lines = vec!["one two".to_string(), "three".to_string(), "four five".to_string()];
    assert_eq!(lines_text(&lines, point(0, 4), point(2, 3)), "two\nthree\nfour");
    assert_eq!(lines_text(&lines, point(5, 0), point(9, 9)), "");
    assert_eq!(slice_chars("日本語", 1, None), "本語");
    assert_eq!(slice_chars("abc", 2, Some(0)), "");
}

#[test]
fn copied_status_counts_chars_and_pluralizes() {
    assert_eq!(copied_status("x"), "copied 1 char");
    assert_eq!(copied_status("a\nb\nc"), "copied 5 chars");
    assert_eq!(copied_status("日本"), "copied 2 chars");
    assert_eq!(copied_status(""), "copied 0 chars");
}

#[test]
fn token_at_expands_words_and_rejects_everything_else() {
    let line = "let foo_bar2 = 日本(x);";
    assert_eq!(token_at(line, 0), Some((0, 2)), "start of `let`");
    assert_eq!(token_at(line, 6), Some((4, 11)), "underscores and digits join `foo_bar2`");
    assert_eq!(token_at(line, 3), None, "whitespace acts as the click");
    assert_eq!(token_at(line, 13), None, "punctuation acts as the click");
    assert_eq!(token_at(line, 15), Some((15, 16)), "non-ASCII letters are word chars");
    assert_eq!(token_at(line, 99), None, "past the text acts as the click");
    assert_eq!(token_at("", 0), None, "an empty line has no word");
}

#[test]
fn files_text_yields_repo_relative_paths_for_dir_and_file_rows() {
    let entries = vec![Entry {
        path: "sub/two.rs".into(),
        previous_path: None,
        annotation: None,
        ignored: false,
        is_dir: false,
    }];
    let rows = vec![
        FileRow {
            depth: 0,
            name: "sub".into(),
            kind: RowKind::Dir { path: "sub".into(), expanded: true },
            ignored: false,
        },
        FileRow {
            depth: 1,
            name: "two.rs".into(),
            kind: RowKind::File { index: 0, annotation: None },
            ignored: false,
        },
    ];
    assert_eq!(files_text(&rows, &entries, 0, 1), "sub\nsub/two.rs");
    assert_eq!(files_text(&rows, &entries, 1, 1), "sub/two.rs");
}

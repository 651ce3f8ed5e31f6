use herdr_reviewr::export::{
    clipboard_not_found, clipboard_tools, counted_comments, format_all, format_comment,
    normalize_text, select_first_present, Agent, Clipboard, ExportTarget, Tool,
};
use herdr_reviewr::model::{Comment, Side};
use herdr_reviewr::placement::HostOs;

fn picked<'a>(tools: &'a [Tool], present: impl Fn(&str) -> bool) -> Option<(&'a str, Vec<&'a str>)> {
    select_first_present(tools, present)
        .map(|i| (tools[i].0.as_str(), tools[i].1.iter().map(String::as_str).collect()))
}

#[test]
fn export_clipboard_tool_selection_prefers_list_order_and_can_be_empty() {
    let unix = clipboard_tools(HostOs::Unix);
    assert!(picked(&unix, |_| false).is_none());
    assert_eq!(picked(&unix, |c| c == "xclip"), Some(("xclip", vec!["-selection", "clipboard"])));
    assert_eq!(picked(&unix, |c| c == "pbcopy" || c == "xclip").map(|(cmd, _)| cmd), Some("pbcopy"));
    let windows = clipboard_tools(HostOs::Windows);
    assert!(picked(&windows, |_| false).is_none());
    assert_eq!(picked(&windows, |c| c == "clip"), Some(("clip", vec![])));
}

#[test]
fn export_confirmations_name_the_actual_result_and_pluralize_comments() {
    let agent = Agent { pane: "w8:p1".into(), name: "release-bot".into() };
    assert_eq!(agent.success_message(1), "added 1 comment to release-bot");
    assert_eq!(agent.success_message(2), "added 2 comments to release-bot");
    assert_eq!(Clipboard.success_message(1), "copied 1 comment");
    assert_eq!(Clipboard.success_message(2), "copied 2 comments");
    assert_eq!(agent.failure_message(), "agent not found");
    assert_eq!(Clipboard.failure_message(), "clipboard failed");
    assert_eq!((agent.label(), Clipboard.label()), ("agent", "clipboard"));
    assert_eq!(counted_comments(0), "0 comments");
}

#[test]
fn export_windows_clip_selected_as_tool() {
    let windows_tools: Vec<Tool> = vec![("clip".to_string(), vec![])];
    assert_eq!(picked(&windows_tools, |c| c == "clip"), Some(("clip", vec![])));
    assert!(picked(&windows_tools, |_| false).is_none());
}

#[test]
fn export_windows_no_tool_error_is_windows_specific() {
    let message = clipboard_not_found(HostOs::Windows);
    assert!(!message.contains("wl-clipboard"));
    assert!(!message.contains("xclip"));
    assert!(!message.contains("xsel"));
    assert!(clipboard_not_found(HostOs::Unix).contains("xclip"));
}

fn comment(file: &str, side: Side, start: u32, end: u32, lines: &str, text: &str) -> Comment {
    Comment {
        file: file.into(),
        side,
        start,
        end,
        lines: lines.into(),
        text: text.into(),
        diff_anchored: true,
    }
}

#[test]
fn block_is_location_snippet_text() {
    let c = comment(
        "extruct/core/llm_registry.py",
        Side::New,
        40,
        41,
        "-from .z import w\n+from .x import y",
        "this import path looks wrong",
    );
    assert_eq!(
        format_comment(&c),
        "extruct/core/llm_registry.py:40-41\n-from .z import w\n+from .x import y\nthis import path looks wrong"
    );
}

#[test]
fn removed_side_marks_the_header() {
    let c = comment("a.rs", Side::Old, 38, 38, "-    cleanup()", "still needed");
    assert_eq!(format_comment(&c), "a.rs:38 (removed)\n-    cleanup()\nstill needed");
}

#[test]
fn multiline_text_keeps_breaks_but_drops_blank_lines() {
    let c = comment("a.rs", Side::New, 1, 1, "+x", "first line\n\n  \nsecond line\n");
    assert_eq!(format_comment(&c), "a.rs:1\n+x\nfirst line\nsecond line");
    assert_eq!(normalize_text("a  \r\nb\t\n"), "a\nb");
    assert_eq!(normalize_text(""), "");
}

#[test]
fn all_sorts_by_file_then_start_with_blank_separator() {
    let b = comment("b.rs", Side::New, 5, 5, "+x", "two");
    let a2 = comment("a.rs", Side::New, 20, 20, "+y", "later");
    let a1 = comment("a.rs", Side::New, 3, 3, "+z", "earlier");
    let out = format_all(&[&b, &a2, &a1]);
    assert_eq!(out, "a.rs:3\n+z\nearlier\n\na.rs:20\n+y\nlater\n\nb.rs:5\n+x\ntwo");
}

#[test]
fn equal_keys_keep_their_input_order() {
    let first = comment("a.rs", Side::New, 3, 3, "+a", "first");
    let second = comment("a.rs", Side::Old, 3, 3, "-b", "second");
    let out = format_all(&[&first, &second]);
    assert_eq!(out, "a.rs:3\n+a\nfirst\n\na.rs:3 (removed)\n-b\nsecond");
}

use herdr_reviewr::copy::{
    source_cells, source_segments,
    display_column_to_char_index, elide_head, extend_display_end_if_overflowing,
    file_selection_start_column, map_elided_column, map_file_column, stats_str, stream_source,
    token_char_range, SourcePoint, char_index_to_display_column, is_double_click, Click, Pane,
    mouse_event, select_token, set_anchor, CopyAction, MouseInput, Rect, Selection, SourceSelection,
    State,
};
use unicode_width::UnicodeWidthStr;

#[test]
fn display_columns_map_tabs_and_wide_glyphs_to_source_chars() {
    let text = "\t界x";
    assert_eq!(display_column_to_char_index(text, 0), 0);
    assert_eq!(display_column_to_char_index(text, 3), 0);
    assert_eq!(display_column_to_char_index(text, 4), 1);
    assert_eq!(display_column_to_char_index(text, 5), 1);
    assert_eq!(display_column_to_char_index(text, 6), 2);
    assert_eq!(display_column_to_char_index(text, 99), 3);
}

#[test]
fn elided_names_map_the_visible_tail_and_overflow_to_the_full_name() {
    let full = "src/very-long-file.rs";
    let shown = "…/file.rs";
    let tail_start = full.width() - "/file.rs".width();
    assert_eq!(map_elided_column(full, shown, 1), tail_start);
    assert_eq!(map_elided_column(full, shown, shown.width()), full.width());
}

#[test]
fn basename_columns_map_back_to_the_relative_path_suffix() {
    let full = "app/controllers/application_controller.rb";
    let shown = "application_controller.rb";
    let prefix = full.width() - shown.width();
    assert_eq!(map_file_column(full, shown, 0), prefix);
    assert_eq!(map_file_column(full, shown, shown.width() - 1), full.width() - 1);
}

#[test]
fn directory_columns_map_the_visible_name_to_the_full_path_suffix() {
    let full = "scripts/bench-results/";
    let shown = "bench-results/";
    let prefix = full.width() - shown.width();
    assert_eq!(map_file_column(full, shown, 0), prefix);
    assert_eq!(map_file_column(full, shown, shown.width() - 1), full.width() - 1);
}

#[test]
fn the_right_edge_expands_only_when_source_text_continues() {
    assert_eq!(extend_display_end_if_overflowing(20, 9, true), usize::MAX);
    assert_eq!(extend_display_end_if_overflowing(10, 9, true), 9);
    assert_eq!(extend_display_end_if_overflowing(20, 9, false), 9);
}

#[test]
fn a_multi_file_selection_starts_at_the_full_first_path() {
    let full = "scripts/bench-results/baseline-v0.18.1-chained.json";
    let shown = "baseline-v0.18.1-chained.json";
    let prefix = 4;
    assert_eq!(file_selection_start_column(full, shown, prefix, prefix), 0);
    assert_eq!(
        file_selection_start_column(full, shown, prefix, prefix + 1),
        full.width() - shown.width() + 1
    );
}

#[test]
fn dotted_identifiers_are_one_double_click_token() {
    let text = "some.model.method = x";
    let model = text.chars().position(|ch| ch == 'm').unwrap();
    assert_eq!(token_char_range(text, model), Some((0, "some.model.method".chars().count())));
    assert_eq!(
        token_char_range(text, text.chars().position(|ch| ch == '=').unwrap()),
        Some((18, 19))
    );
}

#[test]
fn source_selection_keeps_the_full_line_and_crosses_source_lines() {
    let lines = vec![Some("a very long line".to_string()), Some("next line".to_string())];
    assert_eq!(
        stream_source(
            &lines,
            SourcePoint { line: 0, display_column: 0 },
            SourcePoint { line: 0, display_column: usize::MAX },
        ),
        Some("a very long line".to_string())
    );
    assert_eq!(
        stream_source(
            &lines,
            SourcePoint { line: 0, display_column: 2 },
            SourcePoint { line: 1, display_column: usize::MAX },
        ),
        Some("very long line\nnext line".to_string())
    );
}

#[test]
fn a_fold_elsewhere_does_not_force_visual_copy() {
    let lines = vec![Some("kept".to_string()), None, Some("other".to_string())];
    assert_eq!(
        stream_source(
            &lines,
            SourcePoint { line: 0, display_column: 0 },
            SourcePoint { line: 0, display_column: usize::MAX },
        ),
        Some("kept".to_string())
    );
    assert_eq!(
        stream_source(
            &lines,
            SourcePoint { line: 0, display_column: 0 },
            SourcePoint { line: 2, display_column: usize::MAX },
        ),
        None
    );
}

#[test]
fn a_backwards_selection_copies_the_same_text_as_a_forwards_one() {
    let lines = vec![Some("alpha beta".to_string()), Some("gamma".to_string())];
    let a = SourcePoint { line: 0, display_column: 6 };
    let b = SourcePoint { line: 1, display_column: 2 };
    assert_eq!(stream_source(&lines, a, b), Some("beta\ngam".to_string()));
    assert_eq!(stream_source(&lines, b, a), stream_source(&lines, a, b));
}

#[test]
fn tabs_run_to_the_next_four_column_stop() {
    assert_eq!(char_index_to_display_column("a\tb", 0), 0);
    assert_eq!(char_index_to_display_column("a\tb", 1), 1);
    assert_eq!(char_index_to_display_column("a\tb", 2), 4);
    assert_eq!(char_index_to_display_column("a\tb", 9), 5);
}

#[test]
fn the_badge_counts_additions_and_deletions() {
    assert_eq!(stats_str(0, 0), "");
    assert_eq!(stats_str(3, 0), "+3");
    assert_eq!(stats_str(0, 12), "−12");
    assert_eq!(stats_str(7, 2), "+7 −2");
}

#[test]
fn long_names_lose_their_head_at_a_separator() {
    assert_eq!(elide_head("src/main.rs", 20), "src/main.rs");
    assert_eq!(elide_head("a/b/cdef.rs", 10), "…/cdef.rs");
    assert_eq!(elide_head("a/b/cdef.rs", 8), "…cdef.rs");
    assert_eq!(elide_head("abcdefgh", 4), "…fgh");
}

#[test]
fn a_double_click_needs_the_same_pane_row_and_window() {
    let last = Some(Click { pane: Pane::Diff, point: (10, 4), at_ms: 0 });
    assert!(is_double_click(last, Pane::Diff, (12, 4), 300));
    assert!(!is_double_click(last, Pane::Diff, (13, 4), 300));
    assert!(!is_double_click(last, Pane::Files, (10, 4), 300));
    assert!(!is_double_click(last, Pane::Diff, (10, 5), 300));
    assert!(!is_double_click(last, Pane::Diff, (10, 4), 501));
    assert!(!is_double_click(None, Pane::Diff, (10, 4), 0));
}

#[test]
fn wrapped_source_segments_drop_only_continuation_padding() {
    let cells = source_cells("alpha beta");
    assert_eq!(source_segments(&cells, 5, true), vec![(0, 5), (6, 10)],);
}

#[test]
fn source_cells_expand_tabs_to_the_next_stop() {
    let cells = source_cells("a\tb");
    let shown: Vec<(char, usize)> = cells.iter().map(|c| (c.ch, c.width)).collect();
    assert_eq!(shown, vec![('a', 1), (' ', 1), (' ', 1), (' ', 1), ('b', 1)]);
    let wide = source_cells("界");
    assert_eq!((wide[0].ch, wide[0].width), ('界', 2));
}

#[test]
fn source_segments_cover_the_unwrapped_empty_and_unbreakable_cases() {
    let cells = source_cells("abcdefgh");
    assert_eq!(source_segments(&cells, 3, false), vec![(0, 8)]);
    assert_eq!(source_segments(&source_cells(""), 3, true), vec![(0, 0)]);
    assert_eq!(source_segments(&cells, 3, true), vec![(0, 3), (3, 6), (6, 8)]);
    assert_eq!(source_segments(&source_cells("ab   cd"), 3, true), vec![(0, 3), (5, 7)]);
    assert_eq!(source_segments(&source_cells("abc"), 0, true), vec![(0, 1), (1, 2), (2, 3)]);
}

const FILES: Rect = Rect { x: 0, y: 1, width: 20, height: 10 };
const DIFF: Rect = Rect { x: 20, y: 1, width: 60, height: 10 };

#[test]
fn a_press_starts_a_one_point_selection_and_a_drag_extends_it_clamped_to_the_pane() {
    let mut state = State::new();
    let a = mouse_event(&mut state, MouseInput::LeftDown { column: 25, row: 3 }, FILES, DIFF, 1000);
    assert_eq!(a, CopyAction::ResolveAnchor { pane: Pane::Diff, point: (25, 3) });
    assert_eq!(state.selection, Some(Selection { pane: Pane::Diff, start: (25, 3), end: (25, 3) }));
    assert_eq!(state.last_click, Some(Click { pane: Pane::Diff, point: (25, 3), at_ms: 1000 }));
    let anchor = SourcePoint { line: 7, display_column: 5 };
    set_anchor(&mut state, Some(anchor));
    assert_eq!(state.source_anchor, Some(anchor));

    let a = mouse_event(
        &mut state,
        MouseInput::LeftDrag { column: 200, row: 40, shifted_start: None },
        FILES,
        DIFF,
        1100,
    );
    assert_eq!(a, CopyAction::Repaint);
    assert_eq!(state.selection, Some(Selection { pane: Pane::Diff, start: (25, 3), end: (79, 10) }));
    assert_eq!(state.last_click, None);
    assert_eq!(state.source_anchor, Some(anchor));

    let a = mouse_event(
        &mut state,
        MouseInput::LeftDrag { column: 30, row: 5, shifted_start: Some(2) },
        FILES,
        DIFF,
        1200,
    );
    assert_eq!(a, CopyAction::Repaint);
    assert_eq!(state.selection, Some(Selection { pane: Pane::Diff, start: (25, 2), end: (30, 5) }));

    let sel = state.selection.unwrap();
    assert_eq!(mouse_event(&mut state, MouseInput::LeftUp, FILES, DIFF, 1300), CopyAction::Copy(sel));
    assert_eq!(mouse_event(&mut state, MouseInput::Other, FILES, DIFF, 1300), CopyAction::Ignore);
}

#[test]
fn a_second_press_nearby_within_the_window_is_a_double_click() {
    let mut state = State::new();
    mouse_event(&mut state, MouseInput::LeftDown { column: 5, row: 4 }, FILES, DIFF, 1000);
    set_anchor(&mut state, Some(SourcePoint { line: 1, display_column: 1 }));
    let a = mouse_event(&mut state, MouseInput::LeftDown { column: 7, row: 4 }, FILES, DIFF, 1400);
    assert_eq!(a, CopyAction::ResolveToken { pane: Pane::Files, point: (7, 4) });
    assert_eq!(state.source_anchor, None);
    let token = Selection { pane: Pane::Files, start: (4, 4), end: (9, 4) };
    let span = SourceSelection {
        start: SourcePoint { line: 3, display_column: 4 },
        end: SourcePoint { line: 3, display_column: 9 },
    };
    select_token(&mut state, Pane::Files, (7, 4), Some((token, Some(span))));
    assert_eq!(state.selection, Some(token));
    assert_eq!(state.source_override, Some(span));

    // Too late for a double click: a fresh one-point selection.
    let a = mouse_event(&mut state, MouseInput::LeftDown { column: 7, row: 4 }, FILES, DIFF, 2000);
    assert_eq!(a, CopyAction::ResolveAnchor { pane: Pane::Files, point: (7, 4) });
    assert_eq!(state.source_override, None);

    // No token under the double click: the point itself.
    let a = mouse_event(&mut state, MouseInput::LeftDown { column: 8, row: 4 }, FILES, DIFF, 2100);
    assert_eq!(a, CopyAction::ResolveToken { pane: Pane::Files, point: (8, 4) });
    select_token(&mut state, Pane::Files, (8, 4), None);
    assert_eq!(state.selection, Some(Selection { pane: Pane::Files, start: (8, 4), end: (8, 4) }));
}

#[test]
fn a_press_outside_both_panes_forgets_the_click_and_keeps_the_selection() {
    let mut state = State::new();
    mouse_event(&mut state, MouseInput::LeftDown { column: 5, row: 4 }, FILES, DIFF, 10);
    let before = state.selection;
    let a = mouse_event(&mut state, MouseInput::LeftDown { column: 5, row: 0 }, FILES, DIFF, 20);
    assert_eq!(a, CopyAction::Repaint);
    assert_eq!(state.last_click, None);
    assert_eq!(state.source_anchor, None);
    assert_eq!(state.selection, before);
    // A release with no selection copies nothing.
    let mut empty = State::new();
    assert_eq!(mouse_event(&mut empty, MouseInput::LeftUp, FILES, DIFF, 0), CopyAction::Repaint);
}

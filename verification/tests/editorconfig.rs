use herdr_reviewr::editorconfig::{effective_tab_width, DEFAULT_TAB_WIDTH};

#[test]
fn a_positive_width_wins_and_anything_else_is_the_default() {
    assert_eq!(effective_tab_width(Some(2)), 2);
    assert_eq!(effective_tab_width(Some(8)), 8);
    assert_eq!(effective_tab_width(Some(0)), DEFAULT_TAB_WIDTH);
    assert_eq!(effective_tab_width(None), 4);
}

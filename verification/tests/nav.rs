use herdr_reviewr::model::Scope;
use herdr_reviewr::nav::{command_file_name, fnv1a, parse_scope, parse_tab, NavCommand, Tab};

#[test]
fn scope_spellings_parse_long_and_short() {
    assert_eq!(parse_scope("uncommitted"), Some(Scope::Uncommitted));
    assert_eq!(parse_scope("u"), Some(Scope::Uncommitted));
    assert_eq!(parse_scope("branch"), Some(Scope::Branch));
    assert_eq!(parse_scope("b"), Some(Scope::Branch));
    assert_eq!(parse_scope("last-turn"), Some(Scope::LastTurn));
    assert_eq!(parse_scope("t"), Some(Scope::LastTurn));
    assert_eq!(parse_scope("Branch"), None);
    assert_eq!(parse_scope(""), None);
}

#[test]
fn tab_spellings_parse_by_name_and_number() {
    assert_eq!(parse_tab("changes"), Some(Tab::Changes));
    assert_eq!(parse_tab("1"), Some(Tab::Changes));
    assert_eq!(parse_tab("all"), Some(Tab::AllFiles));
    assert_eq!(parse_tab("all-files"), Some(Tab::AllFiles));
    assert_eq!(parse_tab("2"), Some(Tab::AllFiles));
    assert_eq!(parse_tab("pr"), Some(Tab::Pr));
    assert_eq!(parse_tab("3"), Some(Tab::Pr));
    assert_eq!(parse_tab("4"), None);
}

#[test]
fn fnv1a_matches_the_published_vectors() {
    assert_eq!(fnv1a(b""), 0xcbf2_9ce4_8422_2325);
    assert_eq!(fnv1a(b"a"), 0xaf63_dc4c_8601_ec8c);
    assert_eq!(fnv1a(b"foobar"), 0x8594_4171_f739_67e8);
}

#[test]
fn distinct_repos_get_distinct_command_files() {
    let a = command_file_name(b"/a/repo");
    let b = command_file_name(b"/b/repo");
    assert_ne!(a, b);
    assert!(a.starts_with("herdr-reviewr-nav-"));
    assert!(a.ends_with(".json"));
    assert_eq!(a.len(), "herdr-reviewr-nav-".len() + 16 + ".json".len());
    assert_eq!(command_file_name(b""), "herdr-reviewr-nav-cbf29ce484222325.json");
}

#[test]
fn an_empty_command_moves_nothing() {
    let cmd = NavCommand::default();
    assert_eq!(cmd, NavCommand { tab: None, scope: None, file: None });
}

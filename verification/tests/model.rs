use herdr_reviewr::comments::{Author, Status};
use herdr_reviewr::model::{Comment, CommentStore, Scope, Side};

fn comment(file: &str, start: u32, end: u32, text: &str) -> Comment {
    Comment {
        file: file.into(),
        side: Side::New,
        start,
        end,
        lines: "+x".into(),
        text: text.into(),
        diff_anchored: true,
    }
}

#[test]
fn scope_cycles_and_labels() {
    assert_eq!(Scope::Uncommitted.cycle(), Scope::Branch);
    assert_eq!(Scope::Branch.cycle(), Scope::LastTurn);
    assert_eq!(Scope::LastTurn.cycle(), Scope::Uncommitted);
    assert_eq!(Scope::Uncommitted.label(), "uncommitted");
    assert_eq!(Scope::LastTurn.label(), "last turn");
}

#[test]
fn location_formats_range_single_and_removed() {
    let mut c = comment("a.rs", 40, 52, "x");
    assert_eq!(c.location(), "a.rs:40-52");
    c.end = 40;
    assert_eq!(c.location(), "a.rs:40");
    c.side = Side::Old;
    assert_eq!(c.location(), "a.rs:40 (removed)");
}

#[test]
fn add_get_edit() {
    let mut s = CommentStore::new();
    let i = s.add(comment("a.rs", 1, 1, "first"));
    assert_eq!(s.len(), 1);
    assert_eq!(s.get(i).unwrap().comment.text, "first");
    assert!(s.edit(i, "second".into()));
    assert_eq!(s.get(i).unwrap().comment.text, "second");
    assert!(!s.edit(99, "nope".into()));
}

#[test]
fn add_wraps_fresh_lifecycle_metadata() {
    let mut s = CommentStore::new();
    let i = s.add(comment("a.rs", 1, 1, "first"));
    let sc = s.get(i).unwrap();
    assert!(sc.id.starts_with("c-"), "a fresh id: {}", sc.id);
    assert_eq!(sc.author, Author::User);
    assert_eq!(sc.status, Status::Open);
}

#[test]
fn set_status_flips_in_place_and_reports_out_of_range() {
    let mut s = CommentStore::new();
    let i = s.add(comment("a.rs", 1, 1, "one"));
    assert!(s.set_status(i, Status::Resolved));
    assert_eq!(s.get(i).unwrap().status, Status::Resolved);
    assert!(!s.set_status(99, Status::Open));
}

#[test]
fn take_removes_one_and_replace_rebuilds_the_set() {
    let mut s = CommentStore::new();
    s.add(comment("a.rs", 1, 1, "one"));
    s.add(comment("b.rs", 2, 2, "two"));
    let taken = s.take(0).unwrap();
    assert_eq!(taken.comment.text, "one");
    assert_eq!(s.len(), 1);
    assert!(s.take(5).is_none());
    s.replace(Vec::new());
    assert!(s.is_empty());
}

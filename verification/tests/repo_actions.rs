use herdr_reviewr::model::{ChangeKind, ChangedFile};
use herdr_reviewr::repo_actions::{
    add_args, change_paths, commit_refusal, discard_plan, discard_refusal, head_check, literal,
    path_check, push_target, reset_args, restore_args, selection_pathspecs, untrack_args,
    GuardedChange, GuardedSelection, Kind, PathState, Request, WorktreeState,
};

fn changed(path: &str, kind: ChangeKind, previous: Option<&str>) -> ChangedFile {
    ChangedFile {
        path: path.into(),
        kind,
        additions: 0,
        deletions: 0,
        previous_path: previous.map(str::to_string),
    }
}

fn state(path: &str, worktree: WorktreeState) -> PathState {
    PathState { path: path.into(), worktree, index: b"100644 abc 0\tx\0".to_vec() }
}

fn guarded(file: ChangedFile) -> GuardedChange {
    let paths = change_paths(&file)
        .iter()
        .map(|p| state(p, WorktreeState::File { len: 3, hash: 7 }))
        .collect();
    GuardedChange { file, paths }
}

fn selection(files: Vec<ChangedFile>) -> GuardedSelection {
    GuardedSelection { head: Some("abc123".into()), changes: files.into_iter().map(guarded).collect() }
}

#[test]
fn a_request_names_its_operation() {
    assert_eq!(Request::Push.kind(), Kind::Push);
    assert_eq!(Request::OpenCommit { files: vec![] }.kind(), Kind::PrepareCommit);
    assert_eq!(
        Request::Discard { selection: selection(vec![]) }.kind(),
        Kind::Discard
    );
}

#[test]
fn a_rename_guards_both_of_its_paths_old_first() {
    let file = changed("new.rs", ChangeKind::Renamed, Some("old.rs"));
    assert_eq!(change_paths(&file), vec!["old.rs".to_string(), "new.rs".to_string()]);
    assert_eq!(change_paths(&changed("a.rs", ChangeKind::Modified, None)), vec!["a.rs".to_string()]);
}

#[test]
fn pathspecs_are_literal_and_each_appears_once() {
    assert_eq!(literal("a*.rs"), ":(top,literal)a*.rs");
    let sel = selection(vec![
        changed("a.rs", ChangeKind::Modified, None),
        changed("b.rs", ChangeKind::Renamed, Some("a.rs")),
    ]);
    assert_eq!(
        selection_pathspecs(&sel),
        vec![":(top,literal)a.rs".to_string(), ":(top,literal)b.rs".to_string()]
    );
}

#[test]
fn picking_keeps_the_selected_rows_with_their_guards() {
    let sel = selection(vec![
        changed("a.rs", ChangeKind::Modified, None),
        changed("b.rs", ChangeKind::Added, None),
        changed("c.rs", ChangeKind::Deleted, None),
    ]);
    let picked = sel.selected(&[true, false, true]);
    assert_eq!(picked.head, sel.head);
    assert_eq!(picked.changes, vec![sel.changes[0].clone(), sel.changes[2].clone()]);
    assert_eq!(sel.selected(&[false]).changes.len(), 0, "rows past the picks are not picked");
}

#[test]
fn a_commit_needs_rows_and_a_message() {
    assert_eq!(
        commit_refusal(&selection(vec![]), "msg"),
        Some("select at least one file".to_string())
    );
    let sel = selection(vec![changed("a.rs", ChangeKind::Modified, None)]);
    assert_eq!(commit_refusal(&sel, "  \n"), Some("commit message required".to_string()));
    assert_eq!(commit_refusal(&sel, "fix"), None);
    assert_eq!(discard_refusal(&selection(vec![])), Some("discard requires one file".to_string()));
    assert_eq!(discard_refusal(&sel), None);
}

#[test]
fn a_changed_guard_is_rejected() {
    assert_eq!(head_check(&Some("a".into()), &Some("a".into())), Ok(()));
    assert_eq!(
        head_check(&Some("a".into()), &Some("b".into())),
        Err("HEAD changed; reopen the dialog and try again".to_string())
    );
    let seen = state("a.rs", WorktreeState::File { len: 3, hash: 7 });
    assert_eq!(path_check("a.rs", &seen, &seen.clone()), Ok(()));
    let edited = state("a.rs", WorktreeState::File { len: 4, hash: 7 });
    assert_eq!(
        path_check("a.rs", &seen, &edited),
        Err("a.rs changed; reopen the dialog and try again".to_string())
    );
    let link = state("a.rs", WorktreeState::Symlink(b"t".to_vec()));
    assert!(path_check("a.rs", &link, &state("a.rs", WorktreeState::Symlink(b"u".to_vec()))).is_err());
}

#[test]
fn discard_restores_paths_in_head_and_removes_the_rest() {
    let change = guarded(changed("new.rs", ChangeKind::Renamed, Some("old.rs")));
    let (restore, remove) = discard_plan(&change, &vec![true, false]);
    assert_eq!(restore, vec![":(top,literal)old.rs".to_string()]);
    assert_eq!(remove, vec![1]);
    let specs = restore;
    assert_eq!(
        restore_args(&specs),
        ["restore", "--source=HEAD", "--staged", "--worktree", "--", ":(top,literal)old.rs"]
            .map(String::from)
            .to_vec()
    );
    assert_eq!(
        untrack_args("new.rs"),
        ["rm", "--quiet", "--cached", "-f", "--", ":(top,literal)new.rs"].map(String::from).to_vec()
    );
}

#[test]
fn the_commit_argument_lists_wrap_the_pathspecs() {
    let specs = vec![":(top,literal)a.rs".to_string()];
    assert_eq!(add_args(&specs), ["add", "-A", "--", ":(top,literal)a.rs"].map(String::from).to_vec());
    assert_eq!(
        reset_args(&specs),
        ["reset", "--quiet", "HEAD", "--", ":(top,literal)a.rs"].map(String::from).to_vec()
    );
}

#[test]
fn push_targets_the_configured_upstream() {
    assert_eq!(
        push_target("main\n", "origin\0refs/heads/main\n"),
        Ok(("main".to_string(), "origin".to_string(), "HEAD:refs/heads/main".to_string()))
    );
    assert_eq!(
        push_target("topic\n", "\0\n"),
        Err("topic has no configured upstream".to_string())
    );
    assert_eq!(
        push_target("topic", ""),
        Err("topic has no configured upstream".to_string())
    );
}

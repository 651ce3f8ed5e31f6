use herdr_reviewr::forge::gitlab::{
    admit_commit_mrs, build_snapshot, merge_comments, normalize_checks, parse_u64, OidClass,
};
use herdr_reviewr::forge::{Association, CheckStatus, CommentKind, PrState, Sync};
use herdr_reviewr::json::Json;

fn obj(members: Vec<(&str, Json)>) -> Json {
    Json::Object(members.into_iter().map(|(k, v)| (k.to_string(), v)).collect())
}

fn s(text: &str) -> Json {
    Json::Str(text.to_string())
}

fn n(v: u64) -> Json {
    Json::UInt(v)
}

fn arr(items: Vec<Json>) -> Json {
    Json::Array(items)
}

fn empty_assoc() -> Association {
    Association { open: vec![], merged: vec![], closed: vec![] }
}

fn detail_node(source: Option<&str>, jobs_more: bool, discussions_more: bool) -> Json {
    obj(vec![
        ("iid", s("81")),
        ("title", s("t")),
        ("webUrl", s("u")),
        ("description", s("## Summary")),
        ("state", s("opened")),
        ("draft", Json::Bool(true)),
        ("sourceBranch", s("feat/x")),
        ("targetBranch", s("main")),
        ("diffHeadSha", s("abc")),
        ("conflicts", Json::Bool(false)),
        ("detailedMergeStatus", s("MERGEABLE")),
        ("sourceProject", source.map_or(Json::Null, |id| obj(vec![("id", s(id))]))),
        ("targetProject", obj(vec![("id", s("gid://gitlab/Project/1"))])),
        (
            "headPipeline",
            obj(vec![(
                "jobs",
                obj(vec![
                    ("pageInfo", obj(vec![("hasNextPage", Json::Bool(jobs_more))])),
                    ("nodes", arr(vec![])),
                ]),
            )]),
        ),
        (
            "discussions",
            obj(vec![
                ("pageInfo", obj(vec![("hasNextPage", Json::Bool(discussions_more))])),
                ("nodes", arr(vec![])),
            ]),
        ),
    ])
}

#[test]
fn snapshot_parses_the_string_iid_and_carries_identity() {
    let snap = build_snapshot(&detail_node(Some("gid://gitlab/Project/1"), false, false), Sync::InSync);
    assert_eq!(snap.number, 81);
    assert_eq!(snap.body, "## Summary");
    assert_eq!(snap.state, PrState::Open);
    assert!(snap.is_draft);
    assert_eq!(snap.head_ref, "feat/x");
    assert_eq!(snap.base_ref, "main");
    assert!(!snap.head_is_fork);
    assert!(!snap.truncated);
    let bare = obj(vec![("iid", s("5"))]);
    let snap = build_snapshot(&bare, Sync::InSync);
    assert_eq!(snap.number, 5);
    assert_eq!(snap.head_ref, "");
}

#[test]
fn a_differing_or_deleted_source_project_marks_the_fork() {
    assert!(build_snapshot(&detail_node(Some("gid://gitlab/Project/2"), false, false), Sync::InSync).head_is_fork);
    assert!(build_snapshot(&detail_node(None, false, false), Sync::InSync).head_is_fork);
}

#[test]
fn truncated_flips_when_jobs_or_discussions_have_a_next_page() {
    let src = Some("gid://gitlab/Project/1");
    assert!(build_snapshot(&detail_node(src, true, false), Sync::InSync).truncated);
    assert!(build_snapshot(&detail_node(src, false, true), Sync::InSync).truncated);
}

fn note(system: bool, body: &str, at: &str, user: &str, bot: bool, position: Json) -> Json {
    obj(vec![
        ("system", Json::Bool(system)),
        ("body", s(body)),
        ("createdAt", s(at)),
        ("author", obj(vec![("username", s(user)), ("bot", Json::Bool(bot))])),
        ("position", position),
    ])
}

fn discussion(resolved: bool, count: u64, root: Json) -> Json {
    obj(vec![
        ("resolved", Json::Bool(resolved)),
        ("notes", obj(vec![("count", n(count)), ("nodes", arr(vec![root]))])),
    ])
}

#[test]
fn discussions_split_into_findings_and_comments_and_skip_system_noise() {
    let discussions = arr(vec![
        discussion(false, 1, note(true, "assigned to @sean", "2026-07-21T10:00:00Z", "sean", false, Json::Null)),
        discussion(
            true,
            3,
            note(
                false,
                "off-by-one here",
                "2026-07-21T11:00:00Z",
                "maintainer",
                false,
                obj(vec![("filePath", s("src/a.rs")), ("newLine", n(10)), ("oldLine", Json::Null)]),
            ),
        ),
        discussion(false, 1, note(false, "please add a changelog entry", "2026-07-21T12:00:00Z", "maintainer", false, Json::Null)),
    ]);
    let cs = merge_comments(&discussions);
    assert_eq!(cs.len(), 2, "the system note is dropped");
    assert_eq!(cs[0].kind, CommentKind::Comment);
    assert_eq!(cs[0].anchor, "comment");
    let f = &cs[1];
    assert_eq!(f.kind, CommentKind::Finding);
    assert_eq!(f.anchor, "src/a.rs:10");
    assert!(f.is_resolved);
    assert!(!f.is_outdated, "GitLab has no outdated flag; never guessed");
    assert_eq!(f.reply_count, 2);
    assert_eq!(f.snippet, None, "GitLab returns no diff hunk");
}

#[test]
fn a_service_accounts_prose_collapses_by_the_bot_flag_not_its_name() {
    let bot_note = |body: &str, at: &str| {
        discussion(false, 1, note(false, body, at, "group_17406_bot_1", true, Json::Null))
    };
    let discussions = arr(vec![
        bot_note("old status", "2026-07-21T09:00:00Z"),
        bot_note("new status", "2026-07-21T10:00:00Z"),
    ]);
    let cs = merge_comments(&discussions);
    assert_eq!(cs.len(), 1, "only the bot's latest MR-level post survives");
    assert_eq!(cs[0].body, "new status");
    assert!(cs[0].author_is_bot);
}

#[test]
fn an_old_line_anchors_a_finding_when_the_new_line_is_absent() {
    let discussions = arr(vec![discussion(
        false,
        1,
        note(false, "gone", "2026-07-21T09:00:00Z", "r", false, obj(vec![("filePath", s("b.rs")), ("oldLine", n(4))])),
    )]);
    let cs = merge_comments(&discussions);
    assert_eq!(cs[0].anchor, "b.rs:4");
    assert_eq!(cs[0].reply_count, 0);
}

fn row(iid: u64, state: &str, sha: &str, project: u64) -> Json {
    obj(vec![
        ("iid", n(iid)),
        ("state", s(state)),
        ("sha", s(sha)),
        ("source_branch", s("feat")),
        ("merged_at", Json::Null),
        ("created_at", s("2026-07-01T00:00:00Z")),
        ("target_project_id", n(project)),
    ])
}

fn numbers(prs: &[herdr_reviewr::forge::AssocPr]) -> Vec<u64> {
    prs.iter().map(|p| p.number).collect()
}

#[test]
fn commit_rows_admit_by_class_and_filter_on_the_target_project() {
    let rows = arr(vec![
        row(7, "opened", "abc", 1),
        row(8, "merged", "def", 1),
        row(9, "opened", "zzz", 2),
        row(7, "opened", "abc", 1),
    ]);
    let mut assoc = empty_assoc();
    admit_commit_mrs(&mut assoc, &rows, 1, OidClass::Point);
    assert_eq!(numbers(&assoc.open), [7]);
    assert_eq!(numbers(&assoc.merged), [8]);

    let rows = arr(vec![row(10, "merged", "parked", 1), row(11, "merged", "other", 1), row(12, "opened", "parked", 1)]);
    let absorbed = vec!["parked".to_string()];
    let mut assoc = empty_assoc();
    admit_commit_mrs(&mut assoc, &rows, 1, OidClass::Absorbed(&absorbed));
    assert_eq!(numbers(&assoc.merged), [10]);
    assert!(assoc.open.is_empty());

    let rows = arr(vec![row(13, "merged", "tip", 1), row(14, "opened", "tip", 1), row(15, "opened", "other", 1)]);
    let mut assoc = empty_assoc();
    admit_commit_mrs(&mut assoc, &rows, 1, OidClass::Head("tip"));
    assert_eq!(numbers(&assoc.open), [14]);
    assert_eq!(numbers(&assoc.merged), [13]);
}

#[test]
fn jobs_take_the_latest_row_per_name() {
    let job = |name: &str, status: &str| obj(vec![("name", s(name)), ("status", s(status))]);
    let checks = normalize_checks(&arr(vec![
        job("test", "FAILED"),
        job("lint", "MANUAL"),
        job("test", "SUCCESS"),
        job("", "RUNNING"),
    ]));
    assert_eq!(checks.len(), 2);
    assert_eq!(checks[0].name, "test");
    assert_eq!(checks[0].status, CheckStatus::Success);
    assert_eq!(checks[1].status, CheckStatus::Skipped);
}

#[test]
fn iids_read_as_from_str_does() {
    assert_eq!(parse_u64("81"), Some(81));
    assert_eq!(parse_u64("+7"), Some(7));
    assert_eq!(parse_u64(""), None);
    assert_eq!(parse_u64("+"), None);
    assert_eq!(parse_u64("-1"), None);
    assert_eq!(parse_u64("1a"), None);
    assert_eq!(parse_u64("18446744073709551615"), Some(u64::MAX));
    assert_eq!(parse_u64("18446744073709551616"), None);
}

use herdr_reviewr::forge::{CommentKind, Merge, Sync};
use herdr_reviewr::forge::CheckStatus;
use herdr_reviewr::forge_core::bitbucket::{
    build_snapshot, checks_url, count_replies, credential_password_of, credential_query,
    curl_config, map_activities, open_entries, open_listing_url, past_entries, past_listing_url,
    pr_url, status_checks,
};
use herdr_reviewr::json::Json;

fn obj(members: Vec<(&str, Json)>) -> Json {
    Json::Object(members.into_iter().map(|(k, v)| (k.to_string(), v)).collect())
}

fn s(text: &str) -> Json {
    Json::Str(text.to_string())
}

fn n(v: u64) -> Json {
    Json::UInt(v)
}

fn author(name: &str) -> Json {
    obj(vec![("name", s(name))])
}

#[test]
fn map_activities_maps_anchored_findings_general_comments_and_bots() {
    let activities = Json::Array(vec![
        obj(vec![
            ("action", s("COMMENTED")),
            (
                "commentAnchor",
                obj(vec![("path", s("src/a.rs")), ("line", n(12)), ("orphaned", Json::Bool(false))]),
            ),
            (
                "comment",
                obj(vec![
                    ("text", s("fix this")),
                    ("state", s("RESOLVED")),
                    ("createdDate", n(1_752_192_000_000)),
                    ("author", author("persijano")),
                    (
                        "comments",
                        Json::Array(vec![
                            obj(vec![
                                ("text", s("on it")),
                                ("createdDate", n(1_752_192_100_000)),
                                ("author", author("reviewer2")),
                            ]),
                            obj(vec![
                                ("text", s("done")),
                                ("createdDate", n(1_752_192_200_000)),
                                ("author", author("persijano")),
                            ]),
                        ]),
                    ),
                ]),
            ),
        ]),
        obj(vec![
            ("action", s("COMMENTED")),
            ("commentAnchor", obj(vec![("path", s("src/b.rs")), ("orphaned", Json::Bool(true))])),
            (
                "comment",
                obj(vec![
                    ("text", s("stale line")),
                    ("createdDate", n(1_752_192_300_000)),
                    ("author", author("persijano")),
                ]),
            ),
        ]),
        obj(vec![
            ("action", s("COMMENTED")),
            (
                "comment",
                obj(vec![
                    ("text", s("looks good overall")),
                    ("createdDate", n(1_752_192_400_000)),
                    ("author", author("reviewer2")),
                ]),
            ),
        ]),
        obj(vec![
            ("action", s("COMMENTED")),
            (
                "comment",
                obj(vec![
                    ("text", s("automated note")),
                    ("createdDate", n(1_752_192_500_000)),
                    ("author", obj(vec![("name", s("ci-runner")), ("type", s("SERVICE"))])),
                ]),
            ),
        ]),
        obj(vec![
            ("action", s("APPROVED")),
            (
                "comment",
                obj(vec![
                    ("text", s("should be dropped")),
                    ("createdDate", n(1_752_192_600_000)),
                    ("author", author("x")),
                ]),
            ),
        ]),
    ]);
    let cs = map_activities(&activities);
    assert_eq!(cs.len(), 4);

    let finding = cs.iter().find(|c| c.anchor == "src/a.rs:12").unwrap();
    assert_eq!(finding.kind, CommentKind::Finding);
    assert!(finding.is_resolved);
    assert!(!finding.is_outdated);
    assert_eq!(finding.reply_count, 2);

    let orphaned = cs.iter().find(|c| c.anchor == "src/b.rs").unwrap();
    assert!(orphaned.is_outdated);
    assert!(!orphaned.is_resolved);
    assert_eq!(orphaned.reply_count, 0);

    let plain = cs.iter().find(|c| c.author == "reviewer2").unwrap();
    assert_eq!(plain.kind, CommentKind::Comment);
    assert_eq!(plain.anchor, "comment");

    let bot = cs.iter().find(|c| c.author == "ci-runner").unwrap();
    assert!(bot.author_is_bot);
}

#[test]
fn map_activities_falls_back_to_a_name_suffix_when_no_user_type_is_present() {
    let one = |name: &str| {
        obj(vec![
            ("action", s("COMMENTED")),
            (
                "comment",
                obj(vec![("text", s("hi")), ("createdDate", n(0)), ("author", author(name))]),
            ),
        ])
    };
    let activities = Json::Array(vec![one("deploy_bot"), one("release-bot"), one("persijano")]);
    let cs = map_activities(&activities);
    assert!(cs.iter().find(|c| c.author == "deploy_bot").unwrap().author_is_bot);
    assert!(cs.iter().find(|c| c.author == "release-bot").unwrap().author_is_bot);
    assert!(!cs.iter().find(|c| c.author == "persijano").unwrap().author_is_bot);
}

#[test]
fn mapped_activities_come_newest_first_with_iso_times() {
    let one = |text: &str, ms: u64| {
        obj(vec![
            ("action", s("COMMENTED")),
            (
                "comment",
                obj(vec![("text", s(text)), ("createdDate", n(ms)), ("author", author("a"))]),
            ),
        ])
    };
    let activities = Json::Array(vec![
        one("first", 0),
        one(" second ", 1_752_192_000_000),
        one("third", 0),
    ]);
    let cs = map_activities(&activities);
    let bodies: Vec<&str> = cs.iter().map(|c| c.body.as_str()).collect();
    assert_eq!(bodies, vec!["second", "first", "third"]);
    assert_eq!(cs[0].created_at, "2025-07-11T00:00:00Z");
    assert_eq!(cs[1].created_at, "1970-01-01T00:00:00Z");
    assert!(map_activities(&Json::Null).is_empty());
}

#[test]
fn replies_count_the_whole_thread() {
    let leaf = obj(vec![("text", s("x"))]);
    let mid = obj(vec![("comments", Json::Array(vec![leaf]))]);
    let root = obj(vec![("comments", Json::Array(vec![mid, obj(vec![])]))]);
    assert_eq!(count_replies(&root), 3);
    assert_eq!(count_replies(&Json::Null), 0);
}

fn detail(from_key: &str) -> Json {
    obj(vec![
        ("id", n(42)),
        ("title", s("Add feature")),
        ("state", s("OPEN")),
        ("draft", Json::Bool(true)),
        (
            "links",
            obj(vec![(
                "self",
                Json::Array(vec![obj(vec![(
                    "href",
                    s("https://bb.example.com/projects/TEAM/repos/svc/pull-requests/42"),
                )])]),
            )]),
        ),
        (
            "fromRef",
            obj(vec![
                ("displayId", s("feat/x")),
                ("latestCommit", s("abc123")),
                (
                    "repository",
                    obj(vec![("slug", s("svc")), ("project", obj(vec![("key", s(from_key))]))]),
                ),
            ]),
        ),
        (
            "toRef",
            obj(vec![
                ("displayId", s("main")),
                (
                    "repository",
                    obj(vec![("slug", s("svc")), ("project", obj(vec![("key", s("TEAM"))]))]),
                ),
            ]),
        ),
    ])
}

#[test]
fn build_snapshot_detects_a_fork_by_differing_project_key_case_insensitively() {
    let d = detail("team");
    let snap = build_snapshot(&d, Merge::Clean, vec![], vec![], Sync::InSync, false);
    assert_eq!(snap.number, 42);
    assert!(snap.is_draft);
    assert!(!snap.head_is_fork);
    assert_eq!(snap.head_ref, "feat/x");
    assert_eq!(snap.base_ref, "main");
    assert_eq!(snap.url, "https://bb.example.com/projects/TEAM/repos/svc/pull-requests/42");

    let forked = detail("OTHER");
    assert!(build_snapshot(&forked, Merge::Clean, vec![], vec![], Sync::InSync, false).head_is_fork);

    let bare = obj(vec![("id", n(7))]);
    let snap = build_snapshot(&bare, Merge::Clean, vec![], vec![], Sync::InSync, false);
    assert!(!snap.is_draft);
    assert_eq!(snap.head_ref, "");
    assert!(!snap.head_is_fork);
}

#[test]
fn open_listing_entries_carry_the_head_commit_and_skip_idless_rows() {
    let v = obj(vec![(
        "values",
        Json::Array(vec![
            obj(vec![("id", n(7)), ("fromRef", obj(vec![("latestCommit", s("abc"))]))]),
            obj(vec![("id", s("x"))]),
            obj(vec![("id", n(9))]),
        ]),
    )]);
    assert_eq!(open_entries(&v), vec![(7, "abc".to_string()), (9, String::new())]);
    assert!(open_entries(&obj(vec![])).is_empty());
}

#[test]
fn the_newest_closed_pr_wins_and_ties_go_to_the_later_row() {
    let v = obj(vec![(
        "values",
        Json::Array(vec![
            obj(vec![("id", n(1)), ("state", s("MERGED")), ("createdDate", n(1_000))]),
            obj(vec![("id", n(2)), ("state", s("OPEN")), ("createdDate", n(9_000_000))]),
            obj(vec![("id", n(3)), ("state", s("DECLINED")), ("createdDate", n(86_400_000))]),
            obj(vec![("id", n(4)), ("state", s("MERGED")), ("createdDate", n(86_400_000))]),
        ]),
    )]);
    assert_eq!(past_entries(&v), vec![(4, "1970-01-02T00:00:00Z".to_string())]);
    let open_only = obj(vec![(
        "values",
        Json::Array(vec![obj(vec![("id", n(2)), ("state", s("OPEN")), ("createdDate", n(5))])]),
    )]);
    assert!(past_entries(&open_only).is_empty());
}

#[test]
fn build_statuses_are_named_by_name_else_key() {
    let v = obj(vec![(
        "values",
        Json::Array(vec![
            obj(vec![("name", s("ci")), ("state", s("SUCCESSFUL"))]),
            obj(vec![("key", s("lint")), ("state", s("FAILED"))]),
            obj(vec![("state", s("INPROGRESS"))]),
        ]),
    )]);
    let checks = status_checks(&v);
    assert_eq!(checks.len(), 2);
    assert_eq!((checks[0].name.as_str(), checks[0].status), ("ci", CheckStatus::Success));
    assert_eq!((checks[1].name.as_str(), checks[1].status), ("lint", CheckStatus::Failure));
}

#[test]
fn rest_urls_and_the_token_stay_in_their_places() {
    let base = "https://bb.example/rest/api/latest/projects/P/repos/r";
    assert_eq!(
        open_listing_url(base, "feat/x"),
        format!("{base}/pull-requests?state=OPEN&direction=OUTGOING&at=refs/heads/feat%2Fx&limit=100")
    );
    assert_eq!(
        past_listing_url(base, "main"),
        format!("{base}/pull-requests?state=ALL&direction=OUTGOING&at=refs/heads/main&limit=20")
    );
    assert_eq!(pr_url(base, 42, "/merge"), format!("{base}/pull-requests/42/merge"));
    assert_eq!(
        checks_url("bb.example", "abc"),
        "https://bb.example/rest/build-status/latest/commits/abc?limit=100"
    );
    assert_eq!(curl_config("t0k"), "header = \"Authorization: Bearer t0k\"\n");
    assert_eq!(credential_query("bb.example"), "protocol=https\nhost=bb.example\n\n");
}

#[test]
fn the_credential_helper_password_is_its_first_password_line() {
    assert_eq!(
        credential_password_of("protocol=https\nhost=h\nusername=u\npassword=s3cret\n"),
        Some("s3cret".to_string())
    );
    assert_eq!(credential_password_of("password=a\r\npassword=b\n"), Some("a".to_string()));
    assert_eq!(credential_password_of("username=u\n"), None);
    assert_eq!(credential_password_of(""), None);
}

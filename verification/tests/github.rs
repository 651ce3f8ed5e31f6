use herdr_reviewr::forge::github::{
    build_association_query, build_snapshot, closed_aliases, merge_comments, normalize_checks,
    parse_association,
};
use herdr_reviewr::forge::{CheckStatus, CommentKind, Sync};
use herdr_reviewr::git::PublicationPoint;
use herdr_reviewr::json::Json;

fn obj(members: Vec<(&str, Json)>) -> Json {
    Json::Object(members.into_iter().map(|(k, v)| (k.to_string(), v)).collect())
}

fn s(text: &str) -> Json {
    Json::Str(text.to_string())
}

fn n(v: u64) -> Json {
    Json::UInt(v)
}

fn arr(items: Vec<Json>) -> Json {
    Json::Array(items)
}

fn point(oid: &str, names: &[&str]) -> PublicationPoint {
    PublicationPoint { oid: oid.to_string(), names: names.iter().map(|n| (*n).to_string()).collect() }
}

fn page(flag: &str, more: bool) -> Json {
    obj(vec![(flag, Json::Bool(more))])
}

fn pr_node(
    number: u64,
    state: &str,
    head: &str,
    head_ref: &str,
    created: &str,
    merged: Option<&str>,
    base: &str,
) -> Json {
    obj(vec![
        ("number", n(number)),
        ("state", s(state)),
        ("headRefOid", s(head)),
        ("headRefName", s(head_ref)),
        ("createdAt", s(created)),
        ("mergedAt", merged.map_or(Json::Null, s)),
        ("baseRepository", obj(vec![("id", s(base))])),
    ])
}

fn assoc_node(number: u64, state: &str, head: &str) -> Json {
    pr_node(number, state, head, "feat", "2026-07-01T00:00:00Z", None, "R1")
}

fn response(src: Vec<(&str, Vec<Json>)>, tgt: Vec<(&str, Json)>) -> Json {
    let src_members = src
        .into_iter()
        .map(|(alias, nodes)| {
            (alias, obj(vec![("associatedPullRequests", obj(vec![("nodes", arr(nodes))]))]))
        })
        .collect();
    obj(vec![("data", obj(vec![("src", obj(src_members)), ("tgt", obj(tgt))]))])
}

fn numbers(prs: &[herdr_reviewr::forge::AssocPr]) -> Vec<u64> {
    prs.iter().map(|p| p.number).collect()
}

fn detail_base() -> Vec<(&'static str, Json)> {
    vec![
        ("number", n(1)),
        ("title", s("t")),
        ("url", s("u")),
        ("state", s("OPEN")),
        ("isDraft", Json::Bool(false)),
        ("baseRefName", s("main")),
        ("mergeable", s("MERGEABLE")),
        ("mergeStateStatus", s("CLEAN")),
    ]
}

fn detail(body: Option<&str>, contexts_more: bool, reviews_prev: bool, comments_prev: bool, threads_prev: bool) -> Json {
    let mut members = detail_base();
    if let Some(b) = body {
        members.push(("body", s(b)));
    }
    members.push((
        "commits",
        obj(vec![(
            "nodes",
            arr(vec![obj(vec![(
                "commit",
                obj(vec![(
                    "statusCheckRollup",
                    obj(vec![(
                        "contexts",
                        obj(vec![("pageInfo", page("hasNextPage", contexts_more)), ("nodes", arr(vec![]))]),
                    )]),
                )]),
            )])]),
        )]),
    ));
    let surface = |prev: bool| {
        obj(vec![
            ("pageInfo", obj(vec![("hasNextPage", Json::Bool(false)), ("hasPreviousPage", Json::Bool(prev))])),
            ("nodes", arr(vec![])),
        ])
    };
    members.push(("reviews", surface(reviews_prev)));
    members.push(("comments", surface(comments_prev)));
    members.push(("reviewThreads", surface(threads_prev)));
    obj(members)
}

#[test]
fn truncated_flips_when_any_capped_surface_has_a_next_page() {
    let base = detail(None, false, false, false, false);
    assert!(!build_snapshot(&base, Sync::InSync).truncated, "all pages complete → not truncated");
    assert_eq!(build_snapshot(&base, Sync::InSync).body, "");
    let with_body = detail(Some("## Summary\nfixes things"), false, false, false, false);
    assert_eq!(build_snapshot(&with_body, Sync::InSync).body, "## Summary\nfixes things");
    assert!(build_snapshot(&detail(None, false, false, true, false), Sync::InSync).truncated);
    assert!(build_snapshot(&detail(None, false, false, false, true), Sync::InSync).truncated);
    assert!(build_snapshot(&detail(None, true, false, false, false), Sync::InSync).truncated);
    assert!(build_snapshot(&detail(None, false, true, false, false), Sync::InSync).truncated);
}

#[test]
fn checks_take_the_latest_run_per_name() {
    let run = |name: &str, status: &str, conclusion: Option<&str>| {
        let mut m = vec![("__typename", s("CheckRun")), ("name", s(name)), ("status", s(status))];
        if let Some(c) = conclusion {
            m.push(("conclusion", s(c)));
        }
        obj(m)
    };
    let rollup = arr(vec![
        run("tests", "COMPLETED", Some("FAILURE")),
        run("tests", "COMPLETED", Some("SUCCESS")),
        run("build", "IN_PROGRESS", None),
        run("lint", "COMPLETED", Some("SKIPPED")),
        run("codeql", "COMPLETED", Some("NEUTRAL")),
        obj(vec![("__typename", s("StatusContext")), ("context", s("deploy")), ("state", s("PENDING"))]),
    ]);
    let checks = normalize_checks(&rollup);
    assert_eq!(checks.len(), 5);
    let tests = checks.iter().find(|c| c.name == "tests").unwrap();
    assert_eq!(tests.status, CheckStatus::Success);
    assert_eq!(checks.iter().find(|c| c.name == "build").unwrap().status, CheckStatus::Running);
    assert_eq!(checks.iter().find(|c| c.name == "lint").unwrap().status, CheckStatus::Skipped);
    assert_eq!(checks.iter().find(|c| c.name == "codeql").unwrap().status, CheckStatus::Skipped);
    assert_eq!(checks.iter().find(|c| c.name == "deploy").unwrap().status, CheckStatus::Pending);
    assert_eq!(checks[0].name, "tests", "a re-run keeps the first position");
}

#[test]
fn absorbed_aliases_admit_only_an_exact_head_merged_pr() {
    let v = response(
        vec![(
            "p0",
            vec![
                pr_node(82, "MERGED", "parked", "fix", "2026-07-01T00:00:00Z", Some("2026-07-02T00:00:00Z"), "R1"),
                pr_node(90, "MERGED", "other", "else", "2026-07-01T00:00:00Z", Some("2026-07-03T00:00:00Z"), "R1"),
                pr_node(91, "OPEN", "parked", "fix", "2026-07-01T00:00:00Z", None, "R1"),
            ],
        )],
        vec![("id", s("R1"))],
    );
    let absorbed = vec!["parked".to_string()];
    let a = parse_association(&v, &[], &absorbed, None, &[]);
    assert_eq!(numbers(&a.merged), [82]);
    assert!(a.open.is_empty());
}

#[test]
fn head_alias_admits_only_exact_head_matches_open_or_merged() {
    let v = response(
        vec![(
            "p0",
            vec![
                assoc_node(10, "MERGED", "tip"),
                assoc_node(11, "OPEN", "tip"),
                assoc_node(12, "CLOSED", "tip"),
                assoc_node(13, "MERGED", "other"),
                assoc_node(14, "OPEN", "other"),
            ],
        )],
        vec![("id", s("R1"))],
    );
    let a = parse_association(&v, &[], &[], Some("tip"), &[]);
    assert_eq!(numbers(&a.open), [11]);
    assert_eq!(numbers(&a.merged), [10]);
    assert!(a.closed.is_empty(), "the exact-identity path never fills closed");
}

#[test]
fn alias_index_classes_stay_aligned_with_all_three_sources_present() {
    let v = response(
        vec![
            ("p0", vec![assoc_node(20, "OPEN", "elsewhere")]),
            ("p1", vec![assoc_node(21, "MERGED", "parked")]),
            ("p2", vec![assoc_node(22, "MERGED", "tip")]),
        ],
        vec![("id", s("R1"))],
    );
    let points = vec![point("published", &[])];
    let absorbed = vec!["parked".to_string()];
    let a = parse_association(&v, &points, &absorbed, Some("tip"), &[]);
    assert_eq!(numbers(&a.open), [20], "containment");
    assert_eq!(numbers(&a.merged), [21, 22], "exact");
}

#[test]
fn association_query_aliases_points_and_closed_names_and_never_inlines_values() {
    let points = vec![point("aaa", &[]), point("bbb", &["feat", "backup"])];
    let closed = closed_aliases(&points);
    assert_eq!(
        closed
            .iter()
            .map(|(alias, var, i, name)| (alias.as_str(), var.as_str(), *i, name.as_str()))
            .collect::<Vec<_>>(),
        [("c1_0", "b1_0", 1, "feat"), ("c1_1", "b1_1", 1, "backup")]
    );
    let q = build_association_query(points.len(), &closed);
    assert!(q.starts_with(
        "query($so:String!,$sn:String!,$to:String!,$tn:String!,\
         $p0:GitObjectID!,$p1:GitObjectID!,$b1_0:String!,$b1_1:String!)"
    ));
    assert!(q.contains("src:repository(owner:$so,name:$sn){p0:object(oid:$p0)"));
    assert!(q.contains("associatedPullRequests(first:100)"));
    assert!(q.contains("baseRepository{id}"));
    assert!(q.contains("tgt:repository(owner:$to,name:$tn){id "));
    assert!(q.contains("c1_0:pullRequests(headRefName:$b1_0, states:[CLOSED]"));
    assert!(q.contains("c1_1:pullRequests(headRefName:$b1_1, states:[CLOSED]"));
    let bare = vec![point("aaa", &[])];
    let q = build_association_query(bare.len(), &closed_aliases(&bare));
    assert!(q.contains("tgt:repository(owner:$to,name:$tn){id }"));
}

#[test]
fn closed_lookups_stop_at_eight_pairs() {
    let names = ["a", "b", "c", "d", "e"];
    let points = vec![point("x", &names), point("y", &names)];
    let closed = closed_aliases(&points);
    assert_eq!(closed.len(), 8);
    assert_eq!(closed[7].0, "c1_2");
    assert_eq!(closed[7].1, "b1_2");
}

#[test]
fn parse_association_splits_lifecycles_filters_by_repo_id_and_dedups() {
    let v = response(
        vec![
            (
                "p0",
                vec![
                    pr_node(7, "OPEN", "abc", "feat-x", "2026-07-01T00:00:00Z", None, "R1"),
                    pr_node(8, "MERGED", "def", "feat-y", "2026-06-01T00:00:00Z", Some("2026-06-02T00:00:00Z"), "R1"),
                    pr_node(9, "OPEN", "zzz", "other", "2026-07-01T00:00:00Z", None, "R-other"),
                ],
            ),
            ("p1", vec![pr_node(7, "OPEN", "abc", "feat-x", "2026-07-01T00:00:00Z", None, "R1")]),
        ],
        vec![
            ("id", s("R1")),
            (
                "c1_0",
                obj(vec![(
                    "nodes",
                    arr(vec![
                        obj(vec![
                            ("number", n(5)),
                            ("headRefOid", s("p1oid")),
                            ("headRefName", s("old-name")),
                            ("createdAt", s("2026-05-01T00:00:00Z")),
                        ]),
                        obj(vec![
                            ("number", n(6)),
                            ("headRefOid", s("impostor")),
                            ("headRefName", s("old-name")),
                            ("createdAt", s("2026-05-02T00:00:00Z")),
                        ]),
                    ]),
                )]),
            ),
        ],
    );
    let points = vec![point("p0oid", &[]), point("p1oid", &["old-name"])];
    let a = parse_association(&v, &points, &[], None, &closed_aliases(&points));
    assert_eq!(numbers(&a.open), [7]);
    assert_eq!(numbers(&a.merged), [8]);
    assert_eq!(numbers(&a.closed), [5]);
    assert_eq!(a.merged[0].merged_at, "2026-06-02T00:00:00Z");
}

#[test]
fn snapshot_carries_the_head_ref_and_fork_marker() {
    let node = obj(vec![
        ("number", n(5)),
        ("title", s("t")),
        ("url", s("u")),
        ("state", s("OPEN")),
        ("isDraft", Json::Bool(false)),
        ("headRefName", s("persiyanov/feature")),
        ("isCrossRepository", Json::Bool(true)),
        ("baseRefName", s("main")),
        ("mergeable", s("MERGEABLE")),
        ("mergeStateStatus", s("CLEAN")),
        ("commits", obj(vec![("nodes", arr(vec![]))])),
        ("reviews", obj(vec![("nodes", arr(vec![]))])),
        ("comments", obj(vec![("nodes", arr(vec![]))])),
        ("reviewThreads", obj(vec![("nodes", arr(vec![]))])),
    ]);
    let snap = build_snapshot(&node, Sync::InSync);
    assert_eq!(snap.head_ref, "persiyanov/feature");
    assert!(snap.head_is_fork);
    let bare = obj(vec![("number", n(5))]);
    let snap = build_snapshot(&bare, Sync::InSync);
    assert_eq!(snap.head_ref, "");
    assert!(!snap.head_is_fork);
}

fn thread(path: &str, line: Option<u64>, outdated: bool, total: u64, login: &str, body: &str, at: &str) -> Json {
    obj(vec![
        ("isResolved", Json::Bool(false)),
        ("isOutdated", Json::Bool(outdated)),
        ("path", s(path)),
        ("line", line.map_or(Json::Null, n)),
        (
            "comments",
            obj(vec![
                ("totalCount", n(total)),
                (
                    "nodes",
                    arr(vec![obj(vec![
                        ("author", obj(vec![("login", s(login))])),
                        ("body", s(body)),
                        ("createdAt", s(at)),
                    ])]),
                ),
            ]),
        ),
    ])
}

fn prose(login: &str, body: &str, key: &str, at: &str) -> Json {
    obj(vec![("author", obj(vec![("login", s(login))])), ("body", s(body)), (key, s(at))])
}

#[test]
fn comments_merge_three_surfaces_newest_first() {
    let reviews = arr(vec![prose("codex[bot]", "Codex review.", "submittedAt", "2026-06-27T10:00:00Z")]);
    let issues = arr(vec![prose("persijano", "watch the 404s", "createdAt", "2026-06-27T12:00:00Z")]);
    let threads = arr(vec![thread("a.py", None, true, 2, "aider[bot]", "SSRF", "2026-06-27T11:00:00Z")]);
    let cs = merge_comments(&reviews, &issues, &threads);
    assert_eq!(cs.len(), 3);
    assert_eq!(
        cs.iter().map(|c| c.created_at.as_str()).collect::<Vec<_>>(),
        ["2026-06-27T12:00:00Z", "2026-06-27T11:00:00Z", "2026-06-27T10:00:00Z"]
    );
    assert_eq!(cs[0].author, "persijano");
    assert_eq!(cs[0].kind, CommentKind::Comment);
    assert!(!cs[0].author_is_bot);
    assert_eq!(cs[1].kind, CommentKind::Finding);
    assert_eq!(cs[2].kind, CommentKind::Review);
    let f = cs.iter().find(|c| c.kind == CommentKind::Finding).unwrap();
    assert_eq!(f.anchor, "a.py");
    assert!(f.is_outdated);
    assert_eq!(f.reply_count, 1);
}

#[test]
fn a_bots_prose_collapses_to_its_latest_a_humans_is_kept() {
    let reviews = arr(vec![
        prose("aider[bot]", "old review", "submittedAt", "2026-06-27T09:00:00Z"),
        prose("aider[bot]", "new review", "submittedAt", "2026-06-27T10:00:00Z"),
        prose("persijano", "note one", "submittedAt", "2026-06-27T09:30:00Z"),
        prose("persijano", "note two", "submittedAt", "2026-06-27T09:45:00Z"),
    ]);
    let cs = merge_comments(&reviews, &arr(vec![]), &arr(vec![]));
    let bot: Vec<_> = cs.iter().filter(|c| c.author == "aider[bot]").collect();
    assert_eq!(bot.len(), 1);
    assert_eq!(bot[0].body, "new review");
    assert_eq!(cs.iter().filter(|c| c.author == "persijano").count(), 2);
}

#[test]
fn a_bots_findings_are_each_kept_even_as_its_prose_collapses() {
    let reviews = arr(vec![
        prose("aider[bot]", "old prose", "submittedAt", "2026-06-27T09:00:00Z"),
        prose("aider[bot]", "new prose", "submittedAt", "2026-06-27T09:30:00Z"),
    ]);
    let threads = arr(vec![
        thread("a.py", Some(10), false, 1, "aider[bot]", "finding one", "2026-06-27T10:00:00Z"),
        thread("b.py", Some(20), false, 1, "aider[bot]", "finding two", "2026-06-27T11:00:00Z"),
    ]);
    let cs = merge_comments(&reviews, &arr(vec![]), &threads);
    assert_eq!(cs.iter().filter(|c| c.kind == CommentKind::Finding).count(), 2);
    assert_eq!(cs.iter().filter(|c| c.kind == CommentKind::Review).count(), 1);
    assert!(cs.iter().any(|c| c.anchor == "b.py:20"));
}

#[test]
fn blank_prose_is_dropped_and_empty_hunks_carry_no_snippet() {
    let reviews = arr(vec![prose("a", "   ", "submittedAt", "2026-06-27T09:00:00Z")]);
    let threads = arr(vec![obj(vec![
        ("path", s("c.rs")),
        (
            "comments",
            obj(vec![(
                "nodes",
                arr(vec![obj(vec![("body", s(" x ")), ("diffHunk", s(""))])]),
            )]),
        ),
    ])]);
    let cs = merge_comments(&reviews, &Json::Null, &threads);
    assert_eq!(cs.len(), 1);
    assert_eq!(cs[0].body, "x");
    assert_eq!(cs[0].snippet, None);
    assert_eq!(cs[0].reply_count, 0);
}

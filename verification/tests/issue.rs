use herdr_reviewr::json::Json;
use herdr_reviewr::git::{Forge, RepoTarget, RepositoryIdentity};
use herdr_reviewr::issue::{
    classify_failure, fetch_gate, list_args, list_view, order_as_tree, parse_issues, parse_issues_doc, Issue,
    IssueAssignee,
    IssueError, IssueFilter, IssuePriority, IssueQuery, IssueState, IssueView,
};
use std::collections::HashSet;

#[test]
fn filter_cycles_open_closed_all() {
    assert_eq!(IssueFilter::Open.cycle(), IssueFilter::Closed);
    assert_eq!(IssueFilter::Closed.cycle(), IssueFilter::All);
    assert_eq!(IssueFilter::All.cycle(), IssueFilter::Open);
    assert_eq!(IssueFilter::Open.gh_state(), "open");
}

#[test]
fn assignee_and_priority_cycle() {
    assert_eq!(IssueAssignee::All.cycle(), IssueAssignee::Mine);
    assert_eq!(IssueAssignee::Mine.cycle(), IssueAssignee::All);
    assert_eq!(IssuePriority::Any.cycle(), IssuePriority::P0);
    assert_eq!(IssuePriority::P0.cycle(), IssuePriority::P1);
    assert_eq!(IssuePriority::P1.cycle(), IssuePriority::P2);
    assert_eq!(IssuePriority::P2.cycle(), IssuePriority::Any);
    assert_eq!(IssuePriority::P1.gh_label(), Some("p1"));
    assert_eq!(IssuePriority::Any.gh_label(), None);
}

#[test]
fn query_summary_omits_default_assignee_and_priority() {
    let q = IssueQuery::new();
    assert_eq!(q.summary(), "open");
    let mine = IssueQuery { assignee: IssueAssignee::Mine, ..IssueQuery::new() };
    assert_eq!(mine.summary(), "open · mine");
    let p0 = IssueQuery { priority: IssuePriority::P0, ..IssueQuery::new() };
    assert_eq!(p0.summary(), "open · p0");
    let both = IssueQuery {
        state: IssueFilter::Closed,
        assignee: IssueAssignee::Mine,
        priority: IssuePriority::P2,
    };
    assert_eq!(both.nav_title(), "closed · mine · p2");
}

fn bare(number: u64, parent: Option<u64>) -> Issue {
    Issue {
        number,
        title: format!("#{number}"),
        body: String::new(),
        state: IssueState::Open,
        author: "a".into(),
        updated_at: String::new(),
        url: String::new(),
        labels: vec![],
        parent_number: parent,
        sub_completed: 0,
        sub_total: 0,
        comments: vec![],
    }
}

#[test]
fn order_as_tree_nests_children_under_present_parents() {
    let ordered = order_as_tree(vec![bare(2, Some(1)), bare(1, None), bare(3, None)]);
    assert_eq!(ordered.iter().map(|i| i.number).collect::<Vec<_>>(), vec![1, 2, 3]);
}

#[test]
fn order_as_tree_leaves_orphan_children_top_level() {
    let ordered = order_as_tree(vec![bare(2, Some(99)), bare(1, None)]);
    assert_eq!(
        ordered.iter().map(|i| i.number).collect::<Vec<_>>(),
        vec![2, 1],
        "orphan child keeps its place among roots"
    );
}

#[test]
fn order_as_tree_keeps_every_issue_and_lists_grandchildren_after_the_roots() {
    let input = vec![bare(3, Some(2)), bare(2, Some(1)), bare(1, None), bare(4, Some(1)), bare(5, None)];
    let ordered = order_as_tree(input);
    assert_eq!(ordered.iter().map(|i| i.number).collect::<Vec<_>>(), vec![1, 2, 4, 5, 3]);
}

#[test]
fn tree_depth_indents_only_under_a_listed_parent() {
    let present: HashSet<u64> = [1, 2].into_iter().collect();
    assert_eq!(bare(2, Some(1)).tree_depth(&present), 1);
    assert_eq!(bare(3, Some(9)).tree_depth(&present), 0);
    assert_eq!(bare(1, None).tree_depth(&present), 0);
}

fn target(forge: Forge, host: &str) -> RepoTarget {
    RepoTarget { forge, host: host.into(), owner: "o".into(), name: "r".into() }
}

#[test]
fn issue_fetch_gates_non_github_and_unusable_remotes() {
    assert_eq!(fetch_gate(&RepositoryIdentity::Missing), Err(IssueView::NeedsForgeRemote));
    assert_eq!(
        fetch_gate(&RepositoryIdentity::Repository(target(Forge::GitLab, "gitlab.com"))),
        Err(IssueView::NeedsGitHub)
    );
    assert_eq!(
        fetch_gate(&RepositoryIdentity::Repository(target(Forge::GitHub, "github.com"))),
        Ok(target(Forge::GitHub, "github.com"))
    );
}

#[test]
fn list_arguments_pin_the_host_and_compose_the_filters() {
    let q = IssueQuery {
        state: IssueFilter::Closed,
        assignee: IssueAssignee::Mine,
        priority: IssuePriority::P1,
    };
    let args = list_args(&target(Forge::GitHub, "GitHub.com"), q);
    assert_eq!(
        args,
        [
            "issue", "list", "--repo", "o/r", "--state", "closed", "--limit", "100", "--json",
            "number,title,body,state,author,updatedAt,url,labels,parent,subIssuesSummary,comments",
            "--assignee", "@me", "--label", "p1",
        ]
    );
    let enterprise = list_args(&target(Forge::GitHub, "ghe.corp"), IssueQuery::new());
    assert_eq!(enterprise[3], "ghe.corp/o/r");
    assert_eq!(enterprise.len(), 10);
}

#[test]
fn issue_failures_classify_and_offer_remedies() {
    assert_eq!(
        classify_failure("HTTP 401: Bad credentials", "github.com"),
        IssueError::NotAuthed("github.com".into())
    );
    assert_eq!(classify_failure("  rate limited \n", "github.com"), IssueError::Other("rate limited".into()));
    assert_eq!(IssueView::from(IssueError::NoCli), IssueView::NoCli);
    assert_eq!(
        IssueView::NoCli.retry_remedy("r").as_deref(),
        Some("GitHub CLI not found. Install `gh`, then press r.")
    );
    assert_eq!(
        IssueView::Error("offline".into()).retry_remedy("R").as_deref(),
        Some("GitHub unavailable: offline. Press R to retry.")
    );
    assert_eq!(IssueView::NeedsGitHub.retry_remedy("r"), None);
}

#[test]
fn a_full_page_is_flagged_truncated() {
    let full: Vec<Issue> = (1..=100).map(|n| bare(n, None)).collect();
    match list_view(IssueQuery::new(), full) {
        IssueView::List(snap) => {
            assert!(snap.truncated);
            assert_eq!(snap.issues.len(), 100);
        }
        other => panic!("unexpected {other:?}"),
    }
    match list_view(IssueQuery::new(), vec![bare(1, None)]) {
        IssueView::List(snap) => assert!(!snap.truncated),
        other => panic!("unexpected {other:?}"),
    }
}

fn jobj(members: Vec<(&str, Json)>) -> Json {
    Json::Object(members.into_iter().map(|(k, v)| (k.to_string(), v)).collect())
}

fn js(text: &str) -> Json {
    Json::Str(text.to_string())
}

#[test]
fn parse_issues_doc_reads_the_document() {
    let value = Json::Array(vec![
        jobj(vec![
            ("number", Json::UInt(42)),
            ("title", js("Fix the pane")),
            ("body", js("Details here")),
            ("state", js("OPEN")),
            ("author", jobj(vec![("login", js("alice"))])),
            ("updatedAt", js("2026-08-01T12:00:00Z")),
            ("url", js("https://github.com/o/r/issues/42")),
            (
                "labels",
                Json::Array(vec![jobj(vec![("name", js("bug"))]), jobj(vec![("name", js("ui"))])]),
            ),
            ("parent", Json::Null),
            (
                "subIssuesSummary",
                jobj(vec![
                    ("completed", Json::UInt(1)),
                    ("percentCompleted", Json::UInt(50)),
                    ("total", Json::UInt(2)),
                ]),
            ),
            (
                "comments",
                Json::Array(vec![
                    jobj(vec![
                        ("author", jobj(vec![("login", js("carol"))])),
                        ("body", js("older note")),
                        ("createdAt", js("2026-07-01T12:00:00Z")),
                        ("url", js("https://github.com/o/r/issues/42#issuecomment-1")),
                    ]),
                    jobj(vec![
                        ("author", jobj(vec![("login", js("dave"))])),
                        ("body", js("newer note")),
                        ("createdAt", js("2026-08-01T12:00:00Z")),
                        ("url", js("https://github.com/o/r/issues/42#issuecomment-2")),
                    ]),
                ]),
            ),
        ]),
        jobj(vec![
            ("number", Json::UInt(7)),
            ("title", js("Done")),
            ("body", js("")),
            ("state", js("CLOSED")),
            ("author", jobj(vec![("login", js("bob"))])),
            ("updatedAt", js("2026-07-01T12:00:00Z")),
            ("url", js("https://github.com/o/r/issues/7")),
            ("labels", Json::Array(vec![])),
            ("parent", jobj(vec![("number", Json::UInt(42)), ("title", js("Fix the pane"))])),
            (
                "subIssuesSummary",
                jobj(vec![
                    ("completed", Json::UInt(0)),
                    ("percentCompleted", Json::UInt(0)),
                    ("total", Json::UInt(0)),
                ]),
            ),
            ("comments", Json::Array(vec![])),
        ]),
    ]);
    let issues = parse_issues_doc(&value).unwrap();
    assert_eq!(issues.len(), 2);
    assert_eq!(issues[0].number, 42);
    assert_eq!(issues[0].title, "Fix the pane");
    assert_eq!(issues[0].state, IssueState::Open);
    assert_eq!(issues[0].author, "alice");
    assert_eq!(issues[0].labels, vec!["bug", "ui"]);
    assert_eq!(issues[0].parent_number, None);
    assert_eq!(issues[0].sub_completed, 1);
    assert_eq!(issues[0].sub_total, 2);
    assert_eq!(issues[0].comments.len(), 2);
    assert_eq!(issues[0].comments[0].author, "dave", "comments are newest-first");
    assert_eq!(issues[0].comments[1].author, "carol");
    assert_eq!(issues[1].state, IssueState::Closed);
    assert_eq!(issues[1].parent_number, Some(42));
    assert!(issues[1].comments.is_empty());
}

#[test]
fn issue_rows_without_a_number_and_empty_comments_are_dropped() {
    let value = Json::Array(vec![
        jobj(vec![("title", js("no number"))]),
        jobj(vec![("number", Json::UInt(0))]),
        jobj(vec![
            ("number", Json::UInt(3)),
            ("state", js("closed")),
            (
                "comments",
                Json::Array(vec![
                    jobj(vec![("body", js(""))]),
                    jobj(vec![("author", jobj(vec![("login", js("ci[bot]"))]))]),
                ]),
            ),
            ("labels", Json::Array(vec![jobj(vec![("name", Json::UInt(1))])])),
        ]),
    ]);
    let issues = parse_issues_doc(&value).unwrap();
    assert_eq!(issues.len(), 1);
    assert_eq!(issues[0].number, 3);
    assert_eq!(issues[0].state, IssueState::Closed);
    assert!(issues[0].labels.is_empty());
    assert_eq!(issues[0].comments.len(), 1);
    assert!(issues[0].comments[0].author_is_bot);
    assert!(matches!(
        parse_issues_doc(&Json::Null),
        Err(IssueError::Other(m)) if m == "issue list JSON is not an array"
    ));
}

#[test]
fn order_as_tree_moves_every_issue_exactly_once_even_with_repeated_numbers() {
    let input = vec![
        bare(3, Some(2)),
        bare(1, None),
        bare(2, Some(1)),
        bare(1, None),
        bare(4, Some(2)),
        bare(5, Some(9)),
    ];
    let ordered = order_as_tree(input.clone());
    let mut got: Vec<(u64, Option<u64>)> = ordered.iter().map(|i| (i.number, i.parent_number)).collect();
    let mut want: Vec<(u64, Option<u64>)> = input.iter().map(|i| (i.number, i.parent_number)).collect();
    assert_eq!(
        got,
        vec![(1, None), (2, Some(1)), (1, None), (5, Some(9)), (3, Some(2)), (4, Some(2))]
    );
    got.sort();
    want.sort();
    assert_eq!(got, want);
}

#[test]
fn parse_issues_reads_gh_json_shape() {
    let json = r#"[
      {
        "number": 42,
        "title": "Fix the pane",
        "body": "Details here",
        "state": "OPEN",
        "author": {"login": "alice"},
        "updatedAt": "2026-08-01T12:00:00Z",
        "url": "https://github.com/o/r/issues/42",
        "labels": [{"name": "bug"}, {"name": "ui"}],
        "parent": null,
        "subIssuesSummary": {"completed": 1, "percentCompleted": 50, "total": 2},
        "comments": [
          {
            "author": {"login": "carol"},
            "body": "older note",
            "createdAt": "2026-07-01T12:00:00Z",
            "url": "https://github.com/o/r/issues/42#issuecomment-1"
          },
          {
            "author": {"login": "dave"},
            "body": "newer note",
            "createdAt": "2026-08-01T12:00:00Z",
            "url": "https://github.com/o/r/issues/42#issuecomment-2"
          }
        ]
      },
      {
        "number": 7,
        "title": "Done",
        "body": "",
        "state": "CLOSED",
        "author": {"login": "bob"},
        "updatedAt": "2026-07-01T12:00:00Z",
        "url": "https://github.com/o/r/issues/7",
        "labels": [],
        "parent": {"number": 42, "title": "Fix the pane"},
        "subIssuesSummary": {"completed": 0, "percentCompleted": 0, "total": 0},
        "comments": []
      }
    ]"#;
    let issues = parse_issues(json).unwrap();
    assert_eq!(issues.len(), 2);
    assert_eq!(issues[0].number, 42);
    assert_eq!(issues[0].title, "Fix the pane");
    assert_eq!(issues[0].state, IssueState::Open);
    assert_eq!(issues[0].author, "alice");
    assert_eq!(issues[0].labels, vec!["bug", "ui"]);
    assert_eq!(issues[0].parent_number, None);
    assert_eq!(issues[0].sub_completed, 1);
    assert_eq!(issues[0].sub_total, 2);
    assert_eq!(issues[0].comments.len(), 2);
    assert_eq!(issues[0].comments[0].author, "dave", "comments are newest-first");
    assert_eq!(issues[0].comments[1].author, "carol");
    assert_eq!(issues[1].state, IssueState::Closed);
    assert_eq!(issues[1].parent_number, Some(42));
    assert!(issues[1].comments.is_empty());
}

#[test]
fn parse_issues_refuses_text_that_is_not_json() {
    match parse_issues("not json") {
        Err(IssueError::Other(m)) => assert!(m.starts_with("invalid issue list JSON: "), "{m}"),
        other => panic!("unexpected {other:?}"),
    }
    assert!(matches!(
        parse_issues("{}"),
        Err(IssueError::Other(m)) if m == "issue list JSON is not an array"
    ));
    assert_eq!(parse_issues("[]").unwrap().len(), 0);
}

use herdr_reviewr::forge::{
    derive_sync, dedup_bot_prose, fetch_gate, nominated_head, parse_iso, pick_closed, pick_merged,
    pick_open, relative_age, resolve_pick, select_source, AssocPr, Association, Check,
    CheckStatus, CliError, Comment, CommentKind, Merge, Pick, PrSnapshot, PrState, PrView, Sync,
};
use herdr_reviewr::git::{
    Forge, PrFetchInput, PrLocalState, PublicationPoint, RepoTarget, RepositoryIdentity,
};

fn point(oid: &str, names: &[&str]) -> PublicationPoint {
    PublicationPoint { oid: oid.to_string(), names: names.iter().map(|n| (*n).to_string()).collect() }
}

fn input(head: &str, points: Vec<PublicationPoint>, up: Option<&str>) -> PrFetchInput {
    PrFetchInput {
        repository: RepositoryIdentity::Missing,
        origin_repository: None,
        local: PrLocalState {
            head_oid: Some(head.to_string()),
            base_oid: Some("base".to_string()),
            points,
            absorbed: Vec::new(),
            head_nominates: false,
            upstream: up.map(str::to_string),
            detached: false,
        },
    }
}

fn assoc(number: u64, head_oid: &str, head_ref: &str) -> AssocPr {
    AssocPr {
        number,
        head_oid: head_oid.to_string(),
        head_ref: head_ref.to_string(),
        merged_at: String::new(),
        created_at: String::new(),
    }
}

fn target(forge: Forge, host: &str, owner: &str, name: &str) -> RepoTarget {
    RepoTarget { forge, host: host.to_string(), owner: owner.to_string(), name: name.to_string() }
}

#[test]
fn fetch_gates_resolve_without_touching_the_forge() {
    let gated = |input: &PrFetchInput| fetch_gate(input).err();
    let mut missing = input("head", vec![], None);
    missing.repository = RepositoryIdentity::Missing;
    assert_eq!(gated(&missing), Some(PrView::NeedsForgeRemote));

    let mut unsupported = input("head", vec![], None);
    unsupported.repository = RepositoryIdentity::Unsupported("bitbucket.org".into());
    assert_eq!(gated(&unsupported), Some(PrView::UnsupportedHost("bitbucket.org".into())));

    let repo = RepositoryIdentity::Repository(target(Forge::GitHub, "github.com", "owner", "repo"));
    let mut detached = input("head", vec![], None);
    detached.repository = repo.clone();
    detached.local.detached = true;
    assert_eq!(gated(&detached), Some(PrView::Detached));

    let mut zero_work = input("head", vec![], None);
    zero_work.repository = repo;
    assert_eq!(gated(&zero_work), Some(PrView::NoPr));
}

#[test]
fn a_gated_fetch_with_published_work_plans_the_target_and_source() {
    let repo = target(Forge::GitHub, "github.com", "acme", "widgets");
    let fork = target(Forge::GitHub, "github.com", "me", "widgets");
    let mut published = input("tip", vec![point("aaa", &["feat"])], None);
    published.repository = RepositoryIdentity::Repository(repo.clone());
    published.origin_repository = Some(fork.clone());
    let plan = fetch_gate(&published).unwrap();
    assert_eq!(plan.target, repo);
    assert_eq!(plan.source, fork);
    assert_eq!(plan.head, None);
}

#[test]
fn the_head_nominates_only_when_flagged_and_not_already_a_point() {
    let mut local = input("tip", vec![], None).local;
    assert_eq!(nominated_head(&local), None, "an unflagged HEAD never nominates");
    local.head_nominates = true;
    assert_eq!(nominated_head(&local), Some("tip"), "a flagged HEAD nominates alone");
    local.points = vec![point("tip", &["feat"])];
    assert_eq!(nominated_head(&local), None, "a point already carries the OID");
}

#[test]
fn pick_open_prefers_head_then_point_then_upstream_else_surfaces_the_count() {
    let one = [assoc(1, "aaa", "feat")];
    assert_eq!(pick_open(&one, &input("zzz", vec![], None).local), Pick::One(1));
    assert_eq!(pick_open(&[], &input("zzz", vec![], None).local), Pick::Empty);

    let two = [assoc(1, "aaa", "feat"), assoc(2, "bbb", "cont")];
    assert_eq!(pick_open(&two, &input("bbb", vec![], None).local), Pick::One(2));
    assert_eq!(pick_open(&two, &input("zzz", vec![point("aaa", &[])], None).local), Pick::One(1));
    assert_eq!(pick_open(&two, &input("zzz", vec![], Some("cont")).local), Pick::One(2));
    assert_eq!(pick_open(&two, &input("zzz", vec![], None).local), Pick::Ambiguous(2));
    let dup = [assoc(1, "aaa", "feat"), assoc(2, "aaa", "feat")];
    assert_eq!(pick_open(&dup, &input("aaa", vec![], Some("feat")).local), Pick::Ambiguous(2));
    let crossed = [assoc(1, "aaa", "feat"), assoc(2, "bbb", "cont")];
    assert_eq!(
        pick_open(&crossed, &input("aaa", vec![point("bbb", &[])], Some("cont")).local),
        Pick::One(1)
    );
    assert_eq!(
        pick_open(&crossed, &input("zzz", vec![point("aaa", &[])], Some("cont")).local),
        Pick::One(1)
    );
}

#[test]
fn source_selection_prefers_a_same_host_origin_else_the_target() {
    let github = |host: &str, owner: &str, name: &str| target(Forge::GitHub, host, owner, name);
    let t = github("github.com", "acme", "widgets");
    let fork = github("github.com", "contributor", "widgets");
    let foreign = github("ghe.corp.test", "me", "widgets");
    assert_eq!(select_source(Some(&fork), &t), &fork);
    assert_eq!(select_source(Some(&foreign), &t), &t);
    assert_eq!(select_source(None, &t), &t);
}

#[test]
fn merged_pick_takes_the_newest_merge_and_closed_pick_the_newest_created() {
    let merged = [
        AssocPr { merged_at: "2026-06-01T00:00:00Z".into(), ..assoc(1, "a", "x") },
        AssocPr { merged_at: "2026-06-03T00:00:00Z".into(), ..assoc(2, "b", "y") },
        AssocPr { merged_at: "2026-06-03T00:00:00Z".into(), ..assoc(3, "c", "z") },
    ];
    assert_eq!(pick_merged(&merged), Some(2));
    assert_eq!(pick_merged(&[]), None);
    let closed = [
        AssocPr { created_at: "2026-05-01T00:00:00Z".into(), ..assoc(4, "d", "x") },
        AssocPr { created_at: "2026-05-09T00:00:00Z".into(), ..assoc(5, "e", "y") },
    ];
    assert_eq!(pick_closed(&closed), Some(5));
}

#[test]
fn resolve_pick_falls_back_from_open_to_merged_to_closed() {
    let local = input("zzz", vec![], None).local;
    let empty = Association { open: vec![], merged: vec![], closed: vec![] };
    assert_eq!(resolve_pick(&empty, &local), Err(PrView::NoPr));
    let closed_only = Association {
        open: vec![],
        merged: vec![],
        closed: vec![AssocPr { created_at: "2026-05-01T00:00:00Z".into(), ..assoc(4, "d", "x") }],
    };
    assert_eq!(resolve_pick(&closed_only, &local), Ok(4));
    let ambiguous = Association {
        open: vec![assoc(1, "aaa", "feat"), assoc(2, "bbb", "cont")],
        merged: vec![assoc(9, "c", "z")],
        closed: vec![],
    };
    assert_eq!(resolve_pick(&ambiguous, &local), Err(PrView::Ambiguous(2)));
}

fn snap(statuses: &[CheckStatus]) -> PrSnapshot {
    PrSnapshot {
        forge: Forge::GitHub,
        number: 1,
        title: String::new(),
        url: String::new(),
        body: String::new(),
        state: PrState::Open,
        is_draft: false,
        head_ref: String::new(),
        head_is_fork: false,
        base_ref: String::new(),
        merge: Merge::Clean,
        sync: Sync::InSync,
        checks: statuses.iter().map(|&s| Check { name: "c".into(), status: s }).collect(),
        comments: Vec::new(),
        truncated: false,
    }
}

#[test]
fn forge_rollup_fails_on_any_failure_else_running_else_success() {
    assert_eq!(snap(&[]).checks_rollup(), None);
    assert_eq!(
        snap(&[CheckStatus::Success, CheckStatus::Success]).checks_rollup(),
        Some(CheckStatus::Success)
    );
    assert_eq!(
        snap(&[CheckStatus::Success, CheckStatus::Running]).checks_rollup(),
        Some(CheckStatus::Running)
    );
    assert_eq!(
        snap(&[CheckStatus::Running, CheckStatus::Failure]).checks_rollup(),
        Some(CheckStatus::Failure)
    );
}

#[test]
fn failing_checks_count_only_failures() {
    let s = snap(&[CheckStatus::Failure, CheckStatus::Success, CheckStatus::Failure]);
    assert_eq!(s.failing_checks(), 2);
    assert_eq!(snap(&[CheckStatus::Pending]).failing_checks(), 0);
    assert_eq!(snap(&[CheckStatus::Pending]).checks_rollup(), Some(CheckStatus::Running));
}

#[test]
fn forge_sync_leads_with_unpushed_and_tolerates_a_missing_head() {
    assert_eq!(derive_sync(None), Sync::Unknown);
    assert_eq!(derive_sync(Some((0, 0))), Sync::InSync);
    assert_eq!(derive_sync(Some((2, 0))), Sync::Unpushed(2));
    assert_eq!(derive_sync(Some((0, 3))), Sync::Behind(3));
    assert_eq!(derive_sync(Some((2, 3))), Sync::Unpushed(2));
}

#[test]
fn local_git_failures_degrade_to_the_git_error_view() {
    assert_eq!(
        PrView::from(CliError::LocalGit("rev-list failed".into())),
        PrView::GitError("rev-list failed".into())
    );
    assert_eq!(PrView::from(CliError::Missing(Forge::GitLab)), PrView::NoCli(Forge::GitLab));
}

#[test]
fn retry_remedies_name_the_tool_the_host_and_the_key() {
    assert_eq!(
        PrView::NoCli(Forge::GitHub).retry_remedy("r").as_deref(),
        Some("GitHub CLI not found. Install `gh`, then press r.")
    );
    assert_eq!(
        PrView::NotAuthed(Forge::GitLab, "gitlab.com".into()).retry_remedy("R").as_deref(),
        Some("Not signed in to gitlab.com. Run `glab auth login --hostname gitlab.com`, then press R.")
    );
    assert_eq!(
        PrView::Error("offline".into()).retry_remedy("r").as_deref(),
        Some("Forge unavailable: offline. Press r to retry.")
    );
    assert_eq!(PrView::NoPr.retry_remedy("r"), None);
}

#[test]
fn forge_relative_age_buckets_by_magnitude() {
    let now = parse_iso("2026-06-27T12:00:00Z").unwrap() as u64;
    assert_eq!(relative_age("2026-06-27T11:55:00Z", now), "5m");
    assert_eq!(relative_age("2026-06-27T10:00:00Z", now), "2h");
    assert_eq!(relative_age("2026-06-24T12:00:00Z", now), "3d");
    assert_eq!(relative_age("2026-06-13T12:00:00Z", now), "2w");
    assert_eq!(relative_age("garbage", now), "");
    assert_eq!(relative_age("2026-06-27T12:00:30Z", now), "0s");
}

#[test]
fn forge_parse_iso_anchors_the_epoch_and_the_feb_year_branch() {
    assert_eq!(parse_iso("1970-01-01T00:00:00Z"), Some(0));
    assert_eq!(parse_iso("2000-02-29T00:00:00Z"), Some(951_782_400));
    assert_eq!(parse_iso("not-a-date"), None);
    assert_eq!(parse_iso("1969-12-31T23:59:59Z"), Some(-1));
}

fn comment(kind: CommentKind, author: &str, bot: bool, created_at: &str) -> Comment {
    Comment {
        kind,
        author: author.to_string(),
        author_is_bot: bot,
        anchor: "review".to_string(),
        body: String::new(),
        snippet: None,
        created_at: created_at.to_string(),
        is_resolved: false,
        is_outdated: false,
        reply_count: 0,
    }
}

#[test]
fn a_bots_prose_collapses_to_its_latest_and_findings_and_humans_stay() {
    let mut cs = vec![
        comment(CommentKind::Review, "ci[bot]", true, "2026-01-01T00:00:00Z"),
        comment(CommentKind::Comment, "ci[bot]", true, "2026-01-03T00:00:00Z"),
        comment(CommentKind::Finding, "ci[bot]", true, "2026-01-02T00:00:00Z"),
        comment(CommentKind::Comment, "alice", false, "2026-01-01T00:00:00Z"),
        comment(CommentKind::Comment, "alice", false, "2026-01-02T00:00:00Z"),
    ];
    dedup_bot_prose(&mut cs);
    let kept: Vec<(&str, &str)> =
        cs.iter().map(|c| (c.author.as_str(), c.created_at.as_str())).collect();
    assert_eq!(
        kept,
        [
            ("ci[bot]", "2026-01-03T00:00:00Z"),
            ("ci[bot]", "2026-01-02T00:00:00Z"),
            ("alice", "2026-01-01T00:00:00Z"),
            ("alice", "2026-01-02T00:00:00Z"),
        ]
    );
}

#[test]
fn parse_iso_refuses_anything_but_a_real_timestamp_of_the_fixed_shape() {
    assert_eq!(parse_iso("2026-06-27T12:00:00X"), None);
    assert_eq!(parse_iso("2026-13-45T00:00:00Z"), None);
    assert_eq!(parse_iso("2026-13-01T00:00:00Z"), None);
    assert_eq!(parse_iso("2023-02-29T00:00:00Z"), None);
    assert_eq!(parse_iso("2023-04-31T00:00:00Z"), None);
    assert_eq!(parse_iso("2023-01-01T24:00:00Z"), None);
    assert_eq!(parse_iso("2023-01-01T00:60:00Z"), None);
    assert_eq!(parse_iso("2023-01-01T00:00:60Z"), None);
    assert_eq!(parse_iso("+023-01-01T00:00:00Z"), None);
    assert_eq!(parse_iso("2023-01-01T00:00:00Zjunk"), None);
    assert_eq!(parse_iso("2023-01-01T00:00:00.000Z"), None);
    assert_eq!(parse_iso("2024-02-29T00:00:00Z"), Some(1_709_164_800));
    assert_eq!(parse_iso("9999-12-31T23:59:59Z"), Some(253_402_300_799));
}

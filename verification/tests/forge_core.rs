use herdr_reviewr::forge::github;
use herdr_reviewr::forge::gitlab;
use herdr_reviewr::forge::{CliError, Pick};
use herdr_reviewr::forge_core::bitbucket::{
    base, check_status, classify, derive_merge, epoch_ms_to_iso, is_truncated, parse_state,
    token_from,
};
use herdr_reviewr::forge_core::proc::RunFail;
use herdr_reviewr::forge_core::{
    derive_sync, enc, fetch_gate, parse_iso, relative_age, select_historical, select_open, Check,
    CheckStatus, ForgeError, Merge, PrFetchInput, PrSnapshot, PrState, PrView, Sync,
};
use herdr_reviewr::git::{Forge, RepoTarget, RepositoryIdentity};
use herdr_reviewr::json::Json;

fn snap(statuses: &[CheckStatus]) -> PrSnapshot {
    PrSnapshot {
        number: 1,
        title: String::new(),
        url: String::new(),
        state: PrState::Open,
        is_draft: false,
        head_ref: String::new(),
        head_is_fork: false,
        base_ref: String::new(),
        merge: Merge::Clean,
        sync: Sync::InSync,
        checks: statuses.iter().map(|&s| Check { name: "c".into(), status: s }).collect(),
        comments: Vec::new(),
        truncated: false,
    }
}

#[test]
fn mod_rollup_fails_on_any_failure_else_running_else_success() {
    assert_eq!(snap(&[]).checks_rollup(), None);
    assert_eq!(
        snap(&[CheckStatus::Success, CheckStatus::Success]).checks_rollup(),
        Some(CheckStatus::Success)
    );
    assert_eq!(
        snap(&[CheckStatus::Success, CheckStatus::Running]).checks_rollup(),
        Some(CheckStatus::Running)
    );
    assert_eq!(
        snap(&[CheckStatus::Running, CheckStatus::Failure]).checks_rollup(),
        Some(CheckStatus::Failure)
    );
    assert_eq!(snap(&[CheckStatus::Failure, CheckStatus::Failure]).failing_checks(), 2);
}

#[test]
fn select_open_takes_the_earliest_candidate_with_any_open_pr() {
    let per = vec![vec![], vec![(12, "aaa".to_string())], vec![(99, "bbb".to_string())]];
    assert_eq!(select_open(&per, Some("zzz")), Pick::One(12));
    assert_eq!(select_open(&[vec![], vec![]], Some("zzz")), Pick::Empty);
    assert_eq!(select_open(&[], None), Pick::Empty);
}

#[test]
fn select_open_disambiguates_one_name_by_the_pinned_head_else_surfaces_the_count() {
    let two = vec![vec![(1, "aaa".to_string()), (2, "bbb".to_string())]];
    assert_eq!(select_open(&two, Some("bbb")), Pick::One(2));
    assert_eq!(select_open(&two, None), Pick::Ambiguous(2));
    assert_eq!(select_open(&two, Some("zzz")), Pick::Ambiguous(2));
    let dup = vec![vec![(1, "aaa".to_string()), (2, "aaa".to_string())]];
    assert_eq!(select_open(&dup, Some("aaa")), Pick::Ambiguous(2));
}

#[test]
fn select_historical_takes_the_newest_created_and_ties_to_the_earlier_candidate() {
    let per = vec![
        vec![(1, "2026-06-01T00:00:00Z".to_string())],
        vec![(2, "2026-06-03T00:00:00Z".to_string())],
        vec![(3, "2026-06-03T00:00:00Z".to_string())],
    ];
    assert_eq!(select_historical(&per), Some(2));
    assert_eq!(select_historical(&[vec![], vec![]]), None);
}

#[test]
fn mod_relative_age_buckets_by_magnitude() {
    let now = parse_iso("2026-06-27T12:00:00Z").unwrap() as u64;
    assert_eq!(relative_age("2026-06-27T11:55:00Z", now), "5m");
    assert_eq!(relative_age("2026-06-27T10:00:00Z", now), "2h");
    assert_eq!(relative_age("2026-06-24T12:00:00Z", now), "3d");
    assert_eq!(relative_age("2026-06-13T12:00:00Z", now), "2w");
    assert_eq!(relative_age("garbage", now), "");
}

#[test]
fn mod_parse_iso_anchors_the_epoch_and_the_feb_year_branch() {
    assert_eq!(parse_iso("1970-01-01T00:00:00Z"), Some(0));
    assert_eq!(parse_iso("2000-02-29T00:00:00Z"), Some(951_782_400));
    assert_eq!(parse_iso("not-a-date"), None);
}

#[test]
fn mod_sync_leads_with_unpushed_and_tolerates_a_missing_head() {
    assert_eq!(derive_sync(None), Sync::Unknown);
    assert_eq!(derive_sync(Some((0, 0))), Sync::InSync);
    assert_eq!(derive_sync(Some((2, 0))), Sync::Unpushed(2));
    assert_eq!(derive_sync(Some((0, 3))), Sync::Behind(3));
    assert_eq!(derive_sync(Some((2, 3))), Sync::Unpushed(2));
}

fn fetch_input(origin: RepositoryIdentity, candidates: &[&str]) -> PrFetchInput {
    PrFetchInput {
        origin,
        branch: None,
        head_oid: None,
        candidates: candidates.iter().map(|c| c.to_string()).collect(),
        base: None,
        base_branches: Vec::new(),
    }
}

#[test]
fn the_core_gates_origins_and_a_detached_head_before_any_backend() {
    let target = RepoTarget {
        forge: Forge::Bitbucket,
        host: "bb.example.com".into(),
        owner: "TEAM".into(),
        name: "svc".into(),
    };
    assert_eq!(
        fetch_gate(&fetch_input(RepositoryIdentity::Missing, &["feat"])),
        Err(PrView::NeedsSupportedOrigin)
    );
    assert_eq!(
        fetch_gate(&fetch_input(RepositoryIdentity::Malformed("github.com".into()), &["feat"])),
        Err(PrView::MalformedOrigin("github.com".into()))
    );
    assert_eq!(
        fetch_gate(&fetch_input(RepositoryIdentity::Repository(target.clone()), &[])),
        Err(PrView::NoPr(Vec::new()))
    );
    assert_eq!(
        fetch_gate(&fetch_input(RepositoryIdentity::Repository(target.clone()), &["feat"])),
        Ok(target)
    );
}

#[test]
fn backend_failures_map_to_their_degraded_views_and_remedies() {
    assert_eq!(PrView::from(ForgeError::NoCli("curl")), PrView::NoCli("curl"));
    assert_eq!(PrView::from(ForgeError::Other("boom".into())), PrView::Error("boom".into()));
    assert_eq!(
        PrView::NoCli("glab").retry_remedy().as_deref(),
        Some("glab not found — install `glab`, then press r")
    );
    assert_eq!(
        PrView::NotAuthed { forge: Forge::Bitbucket, host: "bb.example.com".into() }
            .retry_remedy()
            .as_deref(),
        Some("not signed in — check BITBUCKET_TOKEN for bb.example.com, then press r")
    );
    assert_eq!(
        PrView::NoToken("bb.example.com".into()).retry_remedy().as_deref(),
        Some("no token for bb.example.com — set BITBUCKET_TOKEN or add it to git credentials, then press r")
    );
    assert_eq!(PrView::Loading.retry_remedy(), None);
}

#[test]
fn enc_keeps_unreserved_and_escapes_the_rest() {
    assert_eq!(enc("TEAM"), "TEAM");
    assert_eq!(enc("feat/x y"), "feat%2Fx%20y");
    assert_eq!(enc("é"), "%C3%A9");
}

#[test]
fn parse_state_maps_the_three_bitbucket_lifecycles() {
    assert_eq!(parse_state("OPEN"), PrState::Open);
    assert_eq!(parse_state("MERGED"), PrState::Merged);
    assert_eq!(parse_state("DECLINED"), PrState::Closed);
    assert_eq!(parse_state("anything-else"), PrState::Open);
}

fn obj(members: Vec<(&str, Json)>) -> Json {
    Json::Object(members.into_iter().map(|(k, v)| (k.to_string(), v)).collect())
}

#[test]
fn derive_merge_folds_conflicted_and_vetoed_but_not_a_clean_response() {
    let merge = |can: bool, conflicted: bool, vetoes: Vec<Json>| {
        derive_merge(&obj(vec![
            ("canMerge", Json::Bool(can)),
            ("conflicted", Json::Bool(conflicted)),
            ("vetoes", Json::Array(vetoes)),
        ]))
    };
    assert_eq!(merge(false, true, vec![]), Merge::Conflicting);
    assert_eq!(
        merge(false, false, vec![obj(vec![("summaryMessage", Json::Str("blocked".into()))])]),
        Merge::Blocked
    );
    assert_eq!(merge(true, false, vec![]), Merge::Clean);
    assert_eq!(merge(false, false, vec![]), Merge::Clean);
    assert_eq!(derive_merge(&Json::Null), Merge::Clean);
}

#[test]
fn check_status_maps_every_documented_arm() {
    assert_eq!(check_status("SUCCESSFUL"), CheckStatus::Success);
    assert_eq!(check_status("FAILED"), CheckStatus::Failure);
    assert_eq!(check_status("INPROGRESS"), CheckStatus::Running);
    assert_eq!(check_status("CANCELLED"), CheckStatus::Skipped);
    assert_eq!(check_status("UNKNOWN"), CheckStatus::Pending);
    assert_eq!(check_status("anything-else"), CheckStatus::Pending);
}

#[test]
fn epoch_ms_round_trips_through_parse_iso() {
    for ms in [0i64, 1_752_192_000_000, 4_102_444_799_000] {
        let iso = epoch_ms_to_iso(ms);
        assert_eq!(parse_iso(&iso), Some(ms / 1000));
    }
    assert_eq!(epoch_ms_to_iso(0), "1970-01-01T00:00:00Z");
    assert_eq!(epoch_ms_to_iso(-1), "1969-12-31T23:59:59Z");
}

#[test]
fn token_from_prefers_the_env_var_over_the_credential_helper() {
    assert_eq!(
        token_from(Some("env-token".to_string()), || Some("cred-pw".to_string())),
        Ok("env-token".to_string())
    );
    assert_eq!(token_from(None, || Some("cred-pw".to_string())), Ok("cred-pw".to_string()));
    assert_eq!(
        token_from(Some(String::new()), || Some("cred-pw".to_string())),
        Ok("cred-pw".to_string())
    );
    assert!(token_from(None, || None).is_err());
    assert!(token_from(Some(String::new()), || Some(String::new())).is_err());
}

#[test]
fn token_from_never_calls_the_credential_helper_when_env_is_set() {
    let calls = std::cell::Cell::new(0);
    let result = token_from(Some("env-token".to_string()), || {
        calls.set(calls.get() + 1);
        Some("cred-pw".to_string())
    });
    assert_eq!(result, Ok("env-token".to_string()));
    assert_eq!(calls.get(), 0, "credential helper closure must not run when env wins");
}

#[test]
fn classify_maps_curl_failures() {
    assert_eq!(classify(RunFail::NotFound, "bb.example.com"), ForgeError::NoCli("curl"));
    assert_eq!(
        classify(
            RunFail::Failed { stderr: "HTTP 401 Unauthorized".to_string() },
            "bb.example.com"
        ),
        ForgeError::NotAuthed { forge: Forge::Bitbucket, host: "bb.example.com".to_string() }
    );
    assert_eq!(
        classify(RunFail::Failed { stderr: "HTTP 403 Forbidden".to_string() }, "bb.example.com"),
        ForgeError::NotAuthed { forge: Forge::Bitbucket, host: "bb.example.com".to_string() }
    );
    assert_eq!(
        classify(RunFail::Failed { stderr: "HTTP 500".to_string() }, "bb.example.com"),
        ForgeError::Other("HTTP 500".to_string())
    );
    assert_eq!(
        classify(RunFail::Cancelled, "bb.example.com"),
        ForgeError::Other("request cancelled".to_string())
    );
}

#[test]
fn the_rest_base_encodes_the_project_and_slug_and_pages_report_truncation() {
    assert_eq!(
        base("bb.example.com", "TEAM", "my svc"),
        "https://bb.example.com/rest/api/latest/projects/TEAM/repos/my%20svc"
    );
    assert!(is_truncated(&obj(vec![("isLastPage", Json::Bool(false))])));
    assert!(!is_truncated(&obj(vec![("isLastPage", Json::Bool(true))])));
    assert!(!is_truncated(&Json::Null));
}

#[test]
fn merge_surfaces_only_conflicts_and_blocked() {
    assert_eq!(github::derive_merge(Some("CONFLICTING"), Some("DIRTY")), Merge::Conflicting);
    assert_eq!(github::derive_merge(Some("MERGEABLE"), Some("BLOCKED")), Merge::Blocked);
    assert_eq!(github::derive_merge(Some("MERGEABLE"), Some("CLEAN")), Merge::Clean);
    assert_eq!(github::derive_merge(Some("MERGEABLE"), Some("BEHIND")), Merge::Clean);
    assert_eq!(github::derive_merge(Some("MERGEABLE"), Some("UNSTABLE")), Merge::Clean);
    assert_eq!(github::derive_merge(Some("UNKNOWN"), Some("UNKNOWN")), Merge::Clean);
    assert_eq!(github::derive_merge(Some("UNKNOWN"), Some("DIRTY")), Merge::Conflicting);
    assert_eq!(github::derive_merge(None, Some("DIRTY")), Merge::Conflicting);
    assert_eq!(github::derive_merge(None, None), Merge::Clean);
}

#[test]
fn parse_state_maps_the_three_github_lifecycles() {
    assert_eq!(github::parse_state("MERGED"), PrState::Merged);
    assert_eq!(github::parse_state("CLOSED"), PrState::Closed);
    assert_eq!(github::parse_state("OPEN"), PrState::Open);
    assert_eq!(github::parse_state("anything-else"), PrState::Open);
}

#[test]
fn gh_failure_classifies_by_stderr_wording() {
    assert_eq!(
        github::classify_failure("gh auth login required", "github.example.com"),
        CliError::NotAuthed(Forge::GitHub, "github.example.com".to_string())
    );
    assert_eq!(
        github::classify_failure("You are not logged into any GitHub hosts", "github.com"),
        CliError::NotAuthed(Forge::GitHub, "github.com".to_string())
    );
    assert_eq!(
        github::classify_failure("HTTP 500 something", "github.com"),
        CliError::Other("HTTP 500 something".into())
    );
}

#[test]
fn graphql_arguments_always_pin_the_canonical_host() {
    let args = github::graphql_args(
        "github.example.com",
        "query($o:String!){viewer{login}}",
        &[("o".to_string(), "owner".to_string())],
    );
    assert_eq!(&args[..4], ["api", "graphql", "--hostname", "github.example.com"]);
    assert!(args.windows(2).any(|pair| pair == ["-f", "o=owner"]));
}

#[test]
fn github_check_nodes_normalise_runs_and_statuses() {
    let node = |members: Vec<(&str, &str)>| {
        obj(members.into_iter().map(|(k, v)| (k, Json::Str(v.to_string()))).collect())
    };
    assert_eq!(github::check_status(&node(vec![("state", "SUCCESS")])), CheckStatus::Success);
    assert_eq!(github::check_status(&node(vec![("state", "ERROR")])), CheckStatus::Failure);
    assert_eq!(
        github::check_status(&node(vec![("status", "COMPLETED"), ("conclusion", "NEUTRAL")])),
        CheckStatus::Skipped
    );
    assert_eq!(
        github::check_status(&node(vec![("status", "COMPLETED"), ("conclusion", "TIMED_OUT")])),
        CheckStatus::Failure
    );
    assert_eq!(github::check_status(&node(vec![("status", "IN_PROGRESS")])), CheckStatus::Running);
    assert_eq!(github::check_status(&node(vec![("status", "QUEUED")])), CheckStatus::Pending);
    assert!(github::is_bot("renovate[bot]"));
    assert!(!github::is_bot("octocat"));
}

#[test]
fn merge_surfaces_only_conflicts_and_reviewer_actionable_blockers() {
    assert_eq!(gitlab::derive_merge(true, Some("MERGEABLE")), Merge::Conflicting);
    assert_eq!(gitlab::derive_merge(false, Some("CONFLICT")), Merge::Conflicting);
    assert_eq!(gitlab::derive_merge(false, Some("NOT_APPROVED")), Merge::Blocked);
    assert_eq!(gitlab::derive_merge(false, Some("DISCUSSIONS_NOT_RESOLVED")), Merge::Blocked);
    assert_eq!(gitlab::derive_merge(false, Some("POLICIES_DENIED")), Merge::Blocked);
    assert_eq!(gitlab::derive_merge(false, Some("MERGEABLE")), Merge::Clean);
    assert_eq!(gitlab::derive_merge(false, Some("CHECKING")), Merge::Clean);
    assert_eq!(gitlab::derive_merge(false, Some("CI_STILL_RUNNING")), Merge::Clean);
    assert_eq!(gitlab::derive_merge(false, Some("NEED_REBASE")), Merge::Clean);
    assert_eq!(gitlab::derive_merge(false, Some("NOT_OPEN")), Merge::Clean);
    assert_eq!(gitlab::derive_merge(false, None), Merge::Clean);
}

#[test]
fn parse_state_maps_the_gitlab_lifecycles() {
    assert_eq!(gitlab::parse_state("merged"), PrState::Merged);
    assert_eq!(gitlab::parse_state("closed"), PrState::Closed);
    assert_eq!(gitlab::parse_state("opened"), PrState::Open);
    assert_eq!(gitlab::parse_state("locked"), PrState::Open);
}

#[test]
fn gitlab_job_statuses_fold_to_check_statuses() {
    assert_eq!(gitlab::check_status("SUCCESS"), CheckStatus::Success);
    assert_eq!(gitlab::check_status("RUNNING"), CheckStatus::Running);
    assert_eq!(gitlab::check_status("MANUAL"), CheckStatus::Skipped);
    assert_eq!(gitlab::check_status("SKIPPED"), CheckStatus::Skipped);
    assert_eq!(gitlab::check_status("FAILED"), CheckStatus::Failure);
    assert_eq!(gitlab::check_status("CANCELED"), CheckStatus::Failure);
    assert_eq!(gitlab::check_status("SCHEDULED"), CheckStatus::Pending);
}

#[test]
fn nested_namespaces_and_branch_names_percent_encode() {
    assert_eq!(gitlab::percent_encode("group/sub/repo"), "group%2Fsub%2Frepo");
    assert_eq!(gitlab::percent_encode("feat/kms-signing"), "feat%2Fkms-signing");
    assert_eq!(gitlab::percent_encode("release-1.0_x~y"), "release-1.0_x~y");
    assert_eq!(gitlab::percent_encode("a b#c"), "a%20b%23c");
}

#[test]
fn glab_failure_classifies_by_stderr_wording() {
    assert_eq!(
        gitlab::classify_failure(
            "To get started with GitLab CLI, please run: glab auth login",
            "gitlab.example.test"
        ),
        CliError::NotAuthed(Forge::GitLab, "gitlab.example.test".to_string())
    );
    assert_eq!(
        gitlab::classify_failure("glab: 401 Unauthorized (HTTP 401)", "gitlab.com"),
        CliError::NotAuthed(Forge::GitLab, "gitlab.com".to_string())
    );
    assert_eq!(
        gitlab::classify_failure("HTTP 500 something", "gitlab.com"),
        CliError::Other("HTTP 500 something".into())
    );
}

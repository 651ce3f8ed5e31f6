use herdr_reviewr::pane_action::{parse_context, CloseOutcome, Mode, PaneEntry, Probe, Refusal};
use herdr_reviewr::pane_flow::{
    step, ActionConfig, ActionEvent, ActionRequest, ActionState, ActionTarget,
};
use herdr_reviewr::placement::{ToggleDirection, TogglePlacement};

fn config(placement: TogglePlacement) -> ActionConfig {
    ActionConfig { auto_open: true, placement, direction: ToggleDirection::Right }
}

fn pane(id: &str, cwd: Option<&str>) -> PaneEntry {
    PaneEntry { pane_id: id.to_string(), foreground_cwd: cwd.map(str::to_string) }
}

fn start(mode: &str) -> ActionState {
    ActionState::Start { mode_arg: mode.to_string() }
}

#[test]
fn a_broken_config_refuses_before_the_mode_is_read() {
    let (next, req) = step(start("bogus"), ActionEvent::ConfigRead(Err("bad config".into())));
    assert_eq!(next, ActionState::Done);
    assert_eq!(req, ActionRequest::Finish(Err(Refusal::Loud("bad config".into()))));
    let (_, req) = step(start("bogus"), ActionEvent::ConfigRead(Ok(config(TogglePlacement::Split))));
    assert_eq!(
        req,
        ActionRequest::Finish(Err(Refusal::Loud(
            "unknown mode 'bogus' (toggle | open | close | auto-open)".into()
        )))
    );
}

#[test]
fn a_toggle_opens_in_the_focused_panes_live_checkout() {
    let cfg = config(TogglePlacement::Split);
    let (state, req) = step(start("toggle"), ActionEvent::ConfigRead(Ok(cfg)));
    assert_eq!(req, ActionRequest::RepairLaunchPaths);
    let (state, req) = step(state, ActionEvent::Repaired { already_open: true });
    assert_eq!(req, ActionRequest::ReadContext);
    let context = parse_context(r#"{"focused_pane_id":"p1","focused_pane_cwd":"/launch"}"#);
    let (state, req) = step(
        state,
        ActionEvent::ContextRead { workspace: "w1".into(), pane_id: "p1".into(), context, event: None },
    );
    assert_eq!(req, ActionRequest::ListPanes("w1".into()));
    let panes = vec![pane("p1", Some("/live")), pane("p2", None)];
    let (state, req) = step(state, ActionEvent::Listed(Some(panes)));
    assert_eq!(req, ActionRequest::ProbePanes(vec!["p1".into(), "p2".into()]));
    let (state, req) = step(state, ActionEvent::Probed(vec![Probe::NotReviewr, Probe::NotReviewr]));
    assert_eq!(
        req,
        ActionRequest::CheckRepos { live: Some("/live".into()), context_cwd: Some("/launch".into()) }
    );
    let (state, req) = step(state, ActionEvent::ReposChecked { live_is_repo: true, cwd_is_repo: true });
    assert_eq!(
        req,
        ActionRequest::OpenPane {
            placement: vec![
                "--placement".into(),
                "split".into(),
                "--target-pane".into(),
                "p1".into(),
                "--direction".into(),
                "right".into(),
            ],
            cwd: "/live".into(),
            focus: "--focus",
            workspace: "w1".into(),
        }
    );
    let (state, req) = step(state, ActionEvent::Opened(Some(("p9".into(), Some("t3".into())))));
    assert_eq!(state, ActionState::Done);
    assert_eq!(req, ActionRequest::Finish(Ok(Some("opened p9 (split) in w1".into()))));
}

#[test]
fn a_toggle_closes_the_open_review_panes() {
    let state = ActionState::Probing {
        mode: Mode::Toggle,
        config: config(TogglePlacement::Split),
        target: ActionTarget { workspace: "w1".into(), pane_id: String::new(), cwd: None },
        context: None,
        panes: vec![pane("p1", None), pane("p2", None)],
    };
    let (state, req) = step(state, ActionEvent::Probed(vec![Probe::Reviewr, Probe::NotReviewr]));
    assert_eq!(req, ActionRequest::ClosePanes(vec!["p1".into()]));
    let (_, req) = step(state, ActionEvent::Closed(vec![("p1".into(), CloseOutcome::Gone)]));
    assert_eq!(req, ActionRequest::Finish(Ok(Some("closed p1 in w1".into()))));
    let failed = ActionState::Closing { mode: Mode::Close, workspace: "w1".into() };
    let (_, req) = step(failed, ActionEvent::Closed(vec![("p1".into(), CloseOutcome::Failed)]));
    assert_eq!(
        req,
        ActionRequest::Finish(Err(Refusal::Loud("herdr pane close failed for p1 in w1".into())))
    );
}

#[test]
fn an_unreadable_probe_refuses_rather_than_reading_as_no_pane() {
    let state = ActionState::Probing {
        mode: Mode::Open,
        config: config(TogglePlacement::Split),
        target: ActionTarget { workspace: "w1".into(), pane_id: String::new(), cwd: None },
        context: None,
        panes: vec![pane("p1", None)],
    };
    let (_, req) = step(state, ActionEvent::Probed(vec![Probe::Unreadable]));
    assert_eq!(
        req,
        ActionRequest::Finish(Err(Refusal::Loud("herdr pane process-info failed in w1".into())))
    );
}

#[test]
fn the_event_targets_its_payload_and_refuses_silently() {
    let mut cfg = config(TogglePlacement::Tab);
    let (state, _) = step(start("auto-open"), ActionEvent::ConfigRead(Ok(cfg)));
    let (done, req) = step(state, ActionEvent::Repaired { already_open: true });
    assert_eq!(done, ActionState::Done);
    assert_eq!(req, ActionRequest::Finish(Err(Refusal::Silent)));

    cfg.auto_open = false;
    let (state, _) = step(start("auto-open"), ActionEvent::ConfigRead(Ok(cfg)));
    let (_, req) = step(state, ActionEvent::Repaired { already_open: false });
    assert_eq!(req, ActionRequest::Finish(Err(Refusal::Silent)));

    let state = ActionState::Targeting { mode: Mode::AutoOpen, config: config(TogglePlacement::Tab) };
    let event = r#"{"data":{"worktree":{"open_workspace_id":"w2","path":"/p"}}}"#;
    let (state, req) = step(
        state,
        ActionEvent::ContextRead {
            workspace: "w1".into(),
            pane_id: "p1".into(),
            context: None,
            event: Some(event.into()),
        },
    );
    assert_eq!(req, ActionRequest::ListPanes("w2".into()));
    match state {
        ActionState::Listing { target, .. } => {
            assert_eq!(target, ActionTarget { workspace: "w2".into(), pane_id: String::new(), cwd: Some("/p".into()) });
        }
        other => panic!("unexpected {other:?}"),
    }

    let state = ActionState::Targeting { mode: Mode::AutoOpen, config: config(TogglePlacement::Tab) };
    let (_, req) = step(
        state,
        ActionEvent::ContextRead {
            workspace: String::new(),
            pane_id: String::new(),
            context: None,
            event: Some("{}".into()),
        },
    );
    assert_eq!(req, ActionRequest::Finish(Err(Refusal::Silent)));
}

#[test]
fn a_tab_open_renames_its_tab_and_a_manual_action_without_a_workspace_refuses_loudly() {
    let state = ActionState::Opening { mode: Mode::Open, config: config(TogglePlacement::Tab), workspace: "w1".into() };
    let (state, req) = step(state, ActionEvent::Opened(Some(("p9".into(), Some("t3".into())))));
    assert_eq!(req, ActionRequest::RenameTab("t3".into()));
    let (_, req) = step(state, ActionEvent::Renamed);
    assert_eq!(req, ActionRequest::Finish(Ok(Some("opened p9 (tab) in w1".into()))));

    let state = ActionState::Opening { mode: Mode::Open, config: config(TogglePlacement::Tab), workspace: "w1".into() };
    let (_, req) = step(state, ActionEvent::Opened(Some((String::new(), None))));
    assert_eq!(req, ActionRequest::Finish(Err(Refusal::Loud("herdr plugin pane open failed".into()))));

    let state = ActionState::Targeting { mode: Mode::Open, config: config(TogglePlacement::Split) };
    let (_, req) = step(
        state,
        ActionEvent::ContextRead { workspace: String::new(), pane_id: String::new(), context: None, event: None },
    );
    assert_eq!(
        req,
        ActionRequest::Finish(Err(Refusal::Loud("no workspace context (invoke from inside herdr)".into())))
    );

    let state = ActionState::Checking {
        mode: Mode::Open,
        config: config(TogglePlacement::Split),
        target: ActionTarget { workspace: "w1".into(), pane_id: String::new(), cwd: Some("/x".into()) },
        panes: vec![],
        live: None,
    };
    let (_, req) = step(state, ActionEvent::ReposChecked { live_is_repo: false, cwd_is_repo: false });
    assert_eq!(req, ActionRequest::Finish(Err(Refusal::Loud("not a git repo: '/x'".into()))));
}

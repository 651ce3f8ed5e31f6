use herdr_reviewr::forge_core::{PrFetchInput, PrView};
use herdr_reviewr::git::RepositoryIdentity;
use herdr_reviewr::refresh::{
    ConfigGate, PrCoordinator, PrEffect, PrRefresh, ProbeOutcome, StatusClock, TaggedPr,
};

fn input(head: &str) -> PrFetchInput {
    PrFetchInput {
        origin: RepositoryIdentity::Missing,
        branch: Some("feature".to_string()),
        head_oid: Some(head.to_string()),
        candidates: vec!["feature".to_string()],
        base: None,
        base_branches: vec!["main".to_string()],
    }
}

#[test]
fn superseded_completion_never_applies_and_schedules_the_new_generation() {
    let a = input("a");
    let mut refresh = PrRefresh::new(true);
    assert!(refresh.observed(a.clone(), 0, true).is_none());
    let (old_generation, old_input) = refresh.take_fetch().unwrap();

    refresh.trigger();
    refresh.completed(
        TaggedPr {
            generation: old_generation,
            config_epoch: 0,
            input: old_input,
            view: PrView::NoPr(vec![]),
        },
        0,
        true,
    );
    assert!(refresh.observed(a, 0, true).is_none());

    let (new_generation, _) = refresh.take_fetch().unwrap();
    assert_ne!(new_generation, old_generation);
}

#[test]
fn changed_input_clears_instead_of_applying_a_completed_old_snapshot() {
    let a = input("a");
    let b = input("b");
    let mut refresh = PrRefresh::new(true);
    refresh.observed(a.clone(), 0, true);
    let (generation, old_input) = refresh.take_fetch().unwrap();
    refresh.completed(
        TaggedPr { generation, config_epoch: 0, input: old_input, view: PrView::NoPr(vec![]) },
        0,
        true,
    );

    assert!(matches!(refresh.observed(b, 0, true), Some(PrEffect::Clear)));
}

#[test]
fn stale_config_epoch_and_off_tab_input_change_do_not_start_or_apply_work() {
    let a = input("a");
    let b = input("b");
    let mut refresh = PrRefresh::new(true);
    refresh.observed(a.clone(), 1, true);
    let (generation, old_input) = refresh.take_fetch().unwrap();
    refresh.completed(
        TaggedPr { generation, config_epoch: 1, input: old_input, view: PrView::NoPr(vec![]) },
        2,
        false,
    );
    assert!(matches!(refresh.observed(b, 2, false), Some(PrEffect::Clear)));
    assert!(refresh.take_fetch().is_none());
}

#[test]
fn matching_completion_applies_only_after_the_verification_probe() {
    let a = input("a");
    let mut refresh = PrRefresh::new(true);
    refresh.observed(a.clone(), 3, true);
    let (generation, fetch_input) = refresh.take_fetch().unwrap();
    refresh.completed(
        TaggedPr {
            generation,
            config_epoch: 3,
            input: fetch_input,
            view: PrView::NoPr(vec!["feature".to_string()]),
        },
        3,
        true,
    );

    assert!(matches!(refresh.observed(a, 3, true), Some(PrEffect::Apply(PrView::NoPr(_)))));
}

#[test]
fn a_failed_verification_probe_keeps_the_completion_for_the_next_probe() {
    let a = input("a");
    let mut refresh = PrRefresh::new(true);
    refresh.observed(a.clone(), 0, true);
    let (generation, fetch_input) = refresh.take_fetch().unwrap();
    refresh.completed(
        TaggedPr { generation, config_epoch: 0, input: fetch_input, view: PrView::NoPr(vec![]) },
        0,
        true,
    );

    assert!(refresh.take_fetch().is_none());
    assert!(matches!(refresh.observed(a, 0, true), Some(PrEffect::Apply(PrView::NoPr(_)))));
}

#[test]
fn config_change_off_the_pr_tab_does_not_schedule_a_fetch() {
    let mut refresh = PrRefresh::new(false);
    refresh.observed(input("a"), 0, false);
    refresh.config_changed(false);
    assert!(refresh.take_fetch().is_none());
}

#[test]
fn a_fetch_is_handed_out_once_and_carries_the_observed_input() {
    let mut refresh = PrRefresh::new(true);
    assert!(refresh.take_fetch().is_none(), "nothing observed yet");
    refresh.observed(input("a"), 0, true);
    let (generation, taken) = refresh.take_fetch().unwrap();
    assert_eq!(generation, 1);
    assert_eq!(taken, input("a"));
    assert!(refresh.take_fetch().is_none());
}

#[test]
fn an_invalidated_refresh_forgets_what_it_saw() {
    let mut refresh = PrRefresh::new(true);
    refresh.observed(input("a"), 0, true);
    refresh.invalidate();
    assert!(refresh.current_input.is_none());
    assert!(refresh.take_fetch().is_none());
    assert_eq!(refresh.generation, 2);
}

#[test]
fn the_generation_wraps_instead_of_overflowing() {
    let mut refresh = PrRefresh::new(true);
    refresh.generation = u64::MAX;
    refresh.trigger();
    assert_eq!(refresh.generation, 0);
}

#[test]
fn cancelling_a_fetch_retains_worker_ownership_until_completion() {
    let mut coordinator = PrCoordinator::new(true, 10);
    assert_eq!(coordinator.wait_started, Some(10));
    coordinator.active_fetch = Some((7, 3));
    assert!(coordinator.config_changed(true));
    assert_eq!(coordinator.active_fetch_tag(), Some((7, 3)));
    assert!(coordinator.probe_pending);
    let mut idle = PrCoordinator::new(false, 0);
    assert!(!idle.stop());
    assert!(idle.recover(5) == false && idle.wait_started == Some(5));
}

#[test]
fn config_gates_read_their_outcome() {
    assert!(!ConfigGate::Blocked.ready());
    assert!(ConfigGate::Unchanged.ready());
    assert!(ConfigGate::Unchanged.pr_unchanged());
    assert!(!ConfigGate::Changed { file_reloaded: true, pr_changed: true }.pr_unchanged());
    assert!(ConfigGate::Changed { file_reloaded: true, pr_changed: false }.file_reloaded());
    assert!(!ConfigGate::Unchanged.file_reloaded());
}

#[test]
fn the_event_loop_steps_a_probe_a_fetch_and_a_verified_paint() {
    let mut pr = PrCoordinator::new(true, 0);
    assert!(!pr.start_probe(false, 0), "no probe while the configuration is not ready");
    assert!(pr.start_probe(true, 0));
    assert!(pr.start_fetch(0).is_none(), "no fetch while a probe is in flight");
    assert!(!pr.probe_arrived(9), "a probe of another epoch is not ours");
    assert!(pr.probe_arrived(0));
    match pr.probe_settled(0, ConfigGate::Unchanged, 0, Ok(input("a")), true, 5) {
        ProbeOutcome::Observed { effect: None, .. } => {}
        other => panic!("expected a plain observation, got {other:?}"),
    }
    let (generation, fetched) = pr.start_fetch(0).expect("a fetch is needed");
    assert!(pr.start_fetch(0).is_none(), "at most one fetch in flight");
    assert!(!pr.fetch_arrived(generation + 1, 0));
    assert!(pr.fetch_arrived(generation, 0));
    pr.fetch_settled(
        TaggedPr { generation, config_epoch: 0, input: fetched, view: PrView::NoPr(vec![]) },
        ConfigGate::Unchanged,
        0,
        true,
    );
    assert!(pr.start_probe(true, 0), "a verification probe is due");
    assert!(pr.probe_arrived(0));
    match pr.probe_settled(0, ConfigGate::Unchanged, 0, Ok(input("a")), true, 9) {
        ProbeOutcome::Observed { effect: Some(PrEffect::Apply(PrView::NoPr(_))), .. } => {}
        other => panic!("expected the snapshot to paint, got {other:?}"),
    }
    assert_eq!(pr.wait_started, None, "painting ends the loading wait");
}

#[test]
fn a_probe_that_raced_a_completion_is_discarded() {
    let mut pr = PrCoordinator::new(true, 0);
    assert!(pr.start_probe(true, 0));
    assert!(pr.probe_arrived(0));
    pr.probe_settled(0, ConfigGate::Unchanged, 0, Ok(input("a")), true, 1);
    let (generation, fetched) = pr.start_fetch(0).unwrap();
    pr.active_probe_epoch = Some(0);
    assert!(pr.fetch_arrived(generation, 0));
    pr.fetch_settled(
        TaggedPr { generation, config_epoch: 0, input: fetched, view: PrView::NoPr(vec![]) },
        ConfigGate::Unchanged,
        0,
        true,
    );
    assert!(pr.discard_probe_result);
    assert!(pr.probe_arrived(0));
    assert!(matches!(
        pr.probe_settled(0, ConfigGate::Unchanged, 0, Ok(input("a")), true, 2),
        ProbeOutcome::Ignored
    ));
    assert!(pr.probe_pending, "another probe is due");
}

#[test]
fn a_probe_of_an_old_epoch_reconfigures_instead_of_painting() {
    let mut pr = PrCoordinator::new(true, 0);
    assert!(pr.start_probe(true, 0));
    assert!(pr.probe_arrived(0));
    assert!(matches!(
        pr.probe_settled(0, ConfigGate::Unchanged, 1, Ok(input("a")), true, 3),
        ProbeOutcome::Reconfigured { cancel: false }
    ));
    assert!(matches!(
        pr.probe_settled(0, ConfigGate::Blocked, 0, Err("boom".into()), true, 3),
        ProbeOutcome::Ignored
    ));
    assert!(matches!(
        pr.probe_settled(0, ConfigGate::Unchanged, 0, Err("boom".into()), true, 3),
        ProbeOutcome::Failed(message) if message == "boom"
    ));
}

#[test]
fn polling_starts_a_wait_and_the_loading_indicator_comes_after_the_delay() {
    let mut pr = PrCoordinator::new(false, 0);
    pr.poll_due(100);
    assert_eq!(pr.wait_started, Some(100));
    assert!(pr.probe_pending);
    pr.poll_due(150);
    assert_eq!(pr.wait_started, Some(100), "a running wait keeps its start");
    assert!(!pr.loading_due(200, 250));
    assert!(pr.loading_due(350, 250));
    assert_eq!(pr.wait_started, None);
    assert!(!pr.loading_due(999, 250));
}

#[test]
fn a_status_line_expires_after_its_ttl_and_a_new_message_restarts_the_clock() {
    let mut clock = StatusClock::new(0);
    assert!(!clock.expire("saved", 10, 100));
    assert!(!clock.expire("saved", 50, 100));
    assert!(!clock.expire("copied", 105, 100), "a new message restarts the clock");
    assert!(clock.expire("copied", 205, 100));
    assert!(!clock.expire("", 1000, 100), "an empty line never expires");
}

use herdr_reviewr::search::{
    file_total, paths_only, SearchJob, SearchOutcome, SearchWorker, CODE_LIMIT, FILE_LIMIT,
};

fn query(generation: u64, text: &str) -> SearchJob {
    SearchJob::Query { generation, query: text.to_string() }
}

fn track(path: &str) -> SearchJob {
    SearchJob::Track { path: path.to_string() }
}

#[test]
fn the_newest_query_wins_and_every_pick_is_recorded_in_order() {
    let mut worker = SearchWorker::new();
    let round = worker.round(vec![query(1, "a"), track("x.rs"), query(2, "ab"), track("y.rs")]);
    assert_eq!(round.tracks, vec!["x.rs".to_string(), "y.rs".to_string()]);
    assert_eq!(round.run, Some((2, "ab".to_string())));
    assert!(!worker.waiting());
}

#[test]
fn a_query_before_the_scan_parks_and_runs_when_nothing_newer_arrives() {
    let mut worker = SearchWorker::new();
    let completion = worker.park(3, "fn main".to_string());
    assert_eq!(completion.generation, 3);
    assert!(matches!(completion.outcome, SearchOutcome::Indexing));
    assert!(worker.waiting());
    let round = worker.round(vec![track("z.rs")]);
    assert_eq!(round.run, Some((3, "fn main".to_string())));
    assert!(!worker.waiting());
}

#[test]
fn a_fresh_query_supersedes_the_parked_one() {
    let mut worker = SearchWorker::new();
    worker.park(3, "old".to_string());
    let round = worker.round(vec![query(4, "new")]);
    assert_eq!(round.run, Some((4, "new".to_string())));
    assert!(!worker.waiting());
    assert_eq!(worker.round(vec![]).run, None);
}

#[test]
fn a_blank_query_shows_paths_only_and_the_total_covers_the_rows() {
    assert!(paths_only("   "));
    assert!(paths_only(""));
    assert!(!paths_only(" fn "));
    assert_eq!(file_total(3, 5), 5);
    assert_eq!(file_total(120, 50), 120);
    assert_eq!((FILE_LIMIT, CODE_LIMIT), (50, 200));
}

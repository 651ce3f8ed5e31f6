use herdr_reviewr::pane_action::{
    choose_cwd, close_outcome, close_report, is_reviewr_pane, names_reviewr_binary, open_args,
    opened_message, placement_args, react_to_existing, unknown_mode, CloseOutcome, Existing,
    ForegroundProcess, Mode, Refusal,
};
use herdr_reviewr::json::Json;
use herdr_reviewr::pane_action::{
    already_open_in, context_cwd, event_already_open, event_target, focused_pane_live_cwd,
    parse_context, parse_event_target, probe_outcome, probe_summary, EventTarget, PaneEntry, Probe,
    open_reply, pane_list, process_reply,
};

fn obj(members: Vec<(&str, Json)>) -> Json {
    Json::Object(members.into_iter().map(|(k, v)| (k.to_string(), v)).collect())
}

fn s(text: &str) -> Json {
    Json::Str(text.to_string())
}
use herdr_reviewr::placement::{HostOs, ToggleDirection, TogglePlacement};

fn process(argv0: &str, argv: &[&str]) -> ForegroundProcess {
    ForegroundProcess {
        argv0: Some(argv0.to_string()),
        argv: argv.iter().map(|s| (*s).to_string()).collect(),
    }
}

#[test]
fn identity_matches_unix_and_windows_shapes() {
    assert!(names_reviewr_binary("herdr-reviewr"));
    assert!(names_reviewr_binary("/plugin/bin/herdr-reviewr"));
    assert!(names_reviewr_binary(r"C:\plugin\bin\herdr-reviewr.exe"));
    assert!(names_reviewr_binary(r"\\?\C:\plugin\bin\herdr-reviewr.EXE"));
    assert!(names_reviewr_binary(r"C:\plugin\bin\herdr-reviewr.Exe"), "mixed-case suffix");
    assert!(names_reviewr_binary("target/debug/herdr-reviewr"));
    assert!(!names_reviewr_binary("zsh"));
    assert!(!names_reviewr_binary("herdr-reviewr-other"));
}

#[test]
fn the_windows_pane_launcher_counts_even_though_only_powershell_is_reported() {
    let processes = vec![ForegroundProcess {
        argv0: Some(r"C:\WINDOWS\System32\WindowsPowerShell\v1.0\powershell.EXE".to_string()),
        argv: vec![
            r"C:\WINDOWS\System32\WindowsPowerShell\v1.0\powershell.EXE".to_string(),
            "-NoProfile".to_string(),
            "-NonInteractive".to_string(),
            "-Command".to_string(),
            r#"& "$env:HERDR_PLUGIN_ROOT\bin\herdr-reviewr.exe""#.to_string(),
        ],
    }];
    assert!(is_reviewr_pane(HostOs::Windows, &processes));
    assert!(!is_reviewr_pane(HostOs::Unix, &processes), "the launcher shape is Windows-only");
}

#[test]
fn an_unrelated_powershell_pane_does_not_count() {
    let processes = vec![process(
        r"C:\WINDOWS\System32\WindowsPowerShell\v1.0\powershell.EXE",
        &[r"C:\WINDOWS\System32\WindowsPowerShell\v1.0\powershell.EXE"],
    )];
    assert!(!is_reviewr_pane(HostOs::Windows, &processes));
}

#[test]
fn a_wrapped_launch_counts_through_its_child() {
    let processes = vec![
        process("cargo", &["cargo", "run"]),
        process("target/debug/herdr-reviewr", &["target/debug/herdr-reviewr"]),
    ];
    assert!(is_reviewr_pane(HostOs::Unix, &processes));
}

#[test]
fn a_flag_run_never_counts_as_the_review_ui() {
    let processes = vec![process("herdr-reviewr", &["herdr-reviewr", "--resolve-plugin-config"])];
    assert!(!is_reviewr_pane(HostOs::Unix, &processes));
    let pane_action = vec![process("herdr-reviewr", &["herdr-reviewr", "--pane-action", "toggle"])];
    assert!(!is_reviewr_pane(HostOs::Unix, &pane_action));
}

#[test]
fn a_plain_shell_never_counts() {
    let processes = vec![process("zsh", &["-zsh"])];
    assert!(!is_reviewr_pane(HostOs::Unix, &processes));
}

#[test]
fn modes_parse_and_unknown_modes_refuse_loudly() {
    assert_eq!(Mode::parse("auto-open"), Some(Mode::AutoOpen));
    assert_eq!(Mode::parse("bogus"), None);
    assert_eq!(
        unknown_mode("bogus"),
        Refusal::Loud("unknown mode 'bogus' (toggle | open | close | auto-open)".into())
    );
    assert_eq!(Refusal::for_mode(Mode::AutoOpen, "x".into()), Refusal::Silent);
    assert_eq!(Refusal::for_mode(Mode::Open, "x".into()), Refusal::Loud("x".into()));
}

#[test]
fn each_mode_reacts_to_existing_panes() {
    let none: Vec<String> = vec![];
    let two = vec!["p1".to_string(), "p2".to_string()];
    assert_eq!(react_to_existing(Mode::Close, &none, "w1"), Existing::Report("close: nothing open in w1".into()));
    assert_eq!(react_to_existing(Mode::Close, &two, "w1"), Existing::CloseAll);
    assert_eq!(react_to_existing(Mode::Toggle, &two, "w1"), Existing::CloseAll);
    assert_eq!(react_to_existing(Mode::Toggle, &none, "w1"), Existing::OpenNew);
    assert_eq!(
        react_to_existing(Mode::Open, &two, "w1"),
        Existing::Report("open: already open (p1 p2) in w1".into())
    );
    assert_eq!(react_to_existing(Mode::AutoOpen, &two, "w1"), Existing::Quiet);
}

#[test]
fn the_open_cwd_prefers_the_live_repository_and_names_every_rejected_candidate() {
    assert_eq!(choose_cwd(Some("/live"), true, Some("/ctx"), true), Ok("/live".into()));
    assert_eq!(choose_cwd(Some("/live"), false, Some("/ctx"), true), Ok("/ctx".into()));
    assert_eq!(
        choose_cwd(Some("/live"), false, Some("/ctx"), false),
        Err("not a git repo: '/ctx' (live cwd '/live')".into())
    );
    assert_eq!(choose_cwd(None, false, None, false), Err("not a git repo: '<no cwd>'".into()));
}

#[test]
fn placement_and_open_arguments_compose() {
    let split = placement_args(TogglePlacement::Split, ToggleDirection::Down, "", Some("p1")).unwrap();
    assert_eq!(split, ["--placement", "split", "--target-pane", "p1", "--direction", "down"]);
    assert_eq!(
        placement_args(TogglePlacement::Zoomed, ToggleDirection::Down, "", None),
        Err("no pane to attach to".into())
    );
    let tab = placement_args(TogglePlacement::Tab, ToggleDirection::Right, "p9", None).unwrap();
    let args = open_args("acme.reviewr", HostOs::Unix, &tab, "w1", "/repo", "--focus");
    assert_eq!(
        args,
        [
            "plugin", "pane", "open", "--plugin", "acme.reviewr", "--entrypoint", "pane-unix",
            "--placement", "tab", "--workspace", "w1", "--cwd", "/repo", "--focus"
        ]
    );
    assert_eq!(
        opened_message(Mode::Open, "p3", TogglePlacement::Tab, "w1").as_deref(),
        Some("opened p3 (tab) in w1")
    );
    assert_eq!(opened_message(Mode::AutoOpen, "p3", TogglePlacement::Tab, "w1"), None);
}

#[test]
fn a_close_sweep_converges_on_gone_panes_and_names_failures() {
    assert_eq!(close_outcome(Err("error: pane_not_found")), CloseOutcome::Gone);
    assert_eq!(close_outcome(Err("boom")), CloseOutcome::Failed);
    assert_eq!(close_outcome(Ok(())), CloseOutcome::Closed);
    let ok = vec![("p1".to_string(), CloseOutcome::Closed), ("p2".to_string(), CloseOutcome::Gone)];
    assert_eq!(close_report(&ok, "w1"), Ok("closed p1 p2 in w1".into()));
    let bad = vec![("p1".to_string(), CloseOutcome::Failed), ("p2".to_string(), CloseOutcome::Closed)];
    assert_eq!(close_report(&bad, "w1"), Err(" p1".into()));
}

#[test]
fn event_target_reads_created_and_opened_shapes() {
    let created = obj(vec![
        ("event", s("worktree_created")),
        (
            "data",
            obj(vec![
                (
                    "workspace",
                    obj(vec![
                        ("workspace_id", s("w9")),
                        ("worktree", obj(vec![("checkout_path", s("/repo"))])),
                    ]),
                ),
                ("worktree", obj(vec![("path", s("/repo")), ("open_workspace_id", s("w9"))])),
            ]),
        ),
    ]);
    let target = event_target(Some(&created));
    assert_eq!(target.workspace.as_deref(), Some("w9"));
    assert_eq!(target.cwd.as_deref(), Some("/repo"));
}

#[test]
fn an_opened_event_falls_back_to_the_worktree_fields() {
    let opened = obj(vec![(
        "data",
        obj(vec![("worktree", obj(vec![("path", s("/wt")), ("open_workspace_id", s("w2"))]))]),
    )]);
    let target = event_target(Some(&opened));
    assert_eq!(target.workspace.as_deref(), Some("w2"));
    assert_eq!(target.cwd.as_deref(), Some("/wt"));
    let unparsed = event_target(None);
    assert_eq!((unparsed.workspace, unparsed.cwd), (None, None));
    let present_but_not_text = obj(vec![(
        "data",
        obj(vec![
            ("workspace", obj(vec![("workspace_id", Json::UInt(3))])),
            ("worktree", obj(vec![("open_workspace_id", s("w2"))])),
        ]),
    )]);
    assert_eq!(event_target(Some(&present_but_not_text)).workspace, None);
}

#[test]
fn already_open_is_read_from_the_event_data() {
    let yes = obj(vec![("data", obj(vec![("already_open", Json::Bool(true))]))]);
    let no = obj(vec![("data", obj(vec![("already_open", Json::Bool(false))]))]);
    assert!(event_already_open(Some(&yes)));
    assert!(!event_already_open(Some(&no)));
    assert!(!event_already_open(Some(&obj(vec![]))));
    assert!(!event_already_open(None));
}

#[test]
fn the_context_names_the_focused_cwd_then_the_workspace_cwd() {
    let both = obj(vec![("focused_pane_cwd", s("/a")), ("workspace_cwd", s("/b"))]);
    assert_eq!(context_cwd(Some(&both)), Some("/a".to_string()));
    let ws = obj(vec![("workspace_cwd", s("/b"))]);
    assert_eq!(context_cwd(Some(&ws)), Some("/b".to_string()));
    assert_eq!(context_cwd(None), None);
}

#[test]
fn the_focused_panes_live_cwd_comes_from_the_listing() {
    let panes = vec![
        PaneEntry { pane_id: "p1".into(), foreground_cwd: Some("/one".into()) },
        PaneEntry { pane_id: "p2".into(), foreground_cwd: None },
    ];
    let ctx = obj(vec![("focused_pane_id", s("p1"))]);
    assert_eq!(focused_pane_live_cwd(Some(&ctx), &panes), Some("/one".to_string()));
    let ctx2 = obj(vec![("focused_pane_id", s("p2"))]);
    assert_eq!(focused_pane_live_cwd(Some(&ctx2), &panes), None);
    let gone = obj(vec![("focused_pane_id", s("p9"))]);
    assert_eq!(focused_pane_live_cwd(Some(&gone), &panes), None);
}

#[test]
fn probes_classify_gone_panes_as_not_the_ui_and_shape_failures_as_unreadable() {
    let ui = vec![process("/bin/herdr-reviewr", &["herdr-reviewr"])];
    assert_eq!(probe_outcome(HostOs::Unix, Ok(Some(ui))), Probe::Reviewr);
    assert_eq!(probe_outcome(HostOs::Unix, Ok(Some(vec![]))), Probe::NotReviewr);
    assert_eq!(probe_outcome(HostOs::Unix, Ok(None)), Probe::Unreadable);
    assert_eq!(
        probe_outcome(HostOs::Unix, Err("error: pane_not_found".into())),
        Probe::NotReviewr
    );
    assert_eq!(probe_outcome(HostOs::Unix, Err("timeout".into())), Probe::Unreadable);

    let panes = vec![
        PaneEntry { pane_id: "a".into(), foreground_cwd: None },
        PaneEntry { pane_id: "b".into(), foreground_cwd: None },
        PaneEntry { pane_id: "c".into(), foreground_cwd: None },
    ];
    let (existing, unreadable) =
        probe_summary(&panes, &[Probe::Reviewr, Probe::Unreadable, Probe::Reviewr]);
    assert_eq!(existing, vec!["a".to_string(), "c".to_string()]);
    assert!(unreadable);
}

#[test]
fn event_payload_text_reads_its_target_and_unreadable_text_names_nothing() {
    let created = r#"{"event":"worktree_created","data":{"workspace":{"workspace_id":"w1","worktree":{"checkout_path":"/wt"}}}}"#;
    assert_eq!(
        parse_event_target(created),
        EventTarget { workspace: Some("w1".into()), cwd: Some("/wt".into()) }
    );
    let opened = r#"{"data":{"worktree":{"open_workspace_id":"w2","path":"/p"},"already_open":true}}"#;
    assert_eq!(
        parse_event_target(opened),
        EventTarget { workspace: Some("w2".into()), cwd: Some("/p".into()) }
    );
    assert!(already_open_in(opened));
    assert!(!already_open_in(created));
    assert_eq!(parse_event_target("not json"), EventTarget { workspace: None, cwd: None });
    assert!(!already_open_in("not json"));
}

#[test]
fn the_context_payload_is_parsed_once_and_read_by_every_reader() {
    let ctx = parse_context(r#"{"focused_pane_id":"p2","focused_pane_cwd":"/a"}"#);
    assert_eq!(context_cwd(ctx.as_ref()), Some("/a".to_string()));
    let panes = vec![PaneEntry { pane_id: "p2".into(), foreground_cwd: Some("/live".into()) }];
    assert_eq!(focused_pane_live_cwd(ctx.as_ref(), &panes), Some("/live".to_string()));
    assert_eq!(parse_context("{oops"), None);
}

#[test]
fn a_pane_listing_reads_each_row_and_refuses_a_bad_one() {
    let json = r#"{"result":{"panes":[{"pane_id":"p1","foreground_cwd":"/a"},{"pane_id":"p2","foreground_cwd":null},{"pane_id":"p3"}]}}"#;
    assert_eq!(
        pane_list(json),
        Some(vec![
            PaneEntry { pane_id: "p1".into(), foreground_cwd: Some("/a".into()) },
            PaneEntry { pane_id: "p2".into(), foreground_cwd: None },
            PaneEntry { pane_id: "p3".into(), foreground_cwd: None },
        ])
    );
    assert_eq!(pane_list(r#"{"result":{"panes":[{"foreground_cwd":"/a"}]}}"#), None);
    assert_eq!(pane_list(r#"{"result":{"panes":[]}}"#), Some(vec![]));
    assert_eq!(pane_list("garbage"), None);
}

#[test]
fn a_process_reply_without_its_list_is_unreadable_and_an_empty_list_counts_zero() {
    let json = r#"{"result":{"process_info":{"foreground_processes":[{"argv0":"/bin/herdr-reviewr","argv":["herdr-reviewr","--x"]},{"argv":["zsh"]}]}}}"#;
    assert_eq!(
        process_reply(json),
        Some(vec![
            ForegroundProcess {
                argv0: Some("/bin/herdr-reviewr".into()),
                argv: vec!["herdr-reviewr".into(), "--x".into()],
            },
            ForegroundProcess { argv0: None, argv: vec!["zsh".into()] },
        ])
    );
    assert_eq!(process_reply(r#"{"result":{"process_info":{}}}"#), None);
    assert_eq!(
        process_reply(r#"{"result":{"process_info":{"foreground_processes":[]}}}"#),
        Some(vec![])
    );
    assert_eq!(
        process_reply(r#"{"result":{"process_info":{"foreground_processes":[{"argv":[1]}]}}}"#),
        None
    );
}

#[test]
fn an_open_reply_names_the_pane_and_its_tab() {
    let json = r#"{"result":{"plugin_pane":{"pane":{"pane_id":"w1:p9","tab_id":"w1:t3"}}}}"#;
    assert_eq!(open_reply(json), Some(("w1:p9".to_string(), Some("w1:t3".to_string()))));
    let no_tab = r#"{"result":{"plugin_pane":{"pane":{"pane_id":"w1:p9"}}}}"#;
    assert_eq!(open_reply(no_tab), Some(("w1:p9".to_string(), None)));
    assert_eq!(open_reply(r#"{"result":{"plugin_pane":{}}}"#), None);
    assert_eq!(open_reply("not json"), None);
}

use herdr_reviewr::herdr::{
    agent_status, focus_args, parse_agents, parse_tab_labels, pick, send_target, send_text_args,
    status_of, tab_label_for, AgentChoice, AgentPane, Pick, SendTarget, Status,
};

fn agent(pane: &str, tab: &str, ws: &str) -> AgentPane {
    AgentPane {
        agent: Some("aider".to_string()),
        agent_status: Status::Working,
        pane_id: pane.to_string(),
        tab_id: tab.to_string(),
        workspace_id: ws.to_string(),
        name: None,
        terminal_title_stripped: None,
    }
}

fn non_agent_pane(pane: &str, tab: &str, ws: &str) -> AgentPane {
    AgentPane { agent: None, agent_status: Status::Unknown, ..agent(pane, tab, ws) }
}

fn choice(kind: &str, name: Option<&str>, tab_label: Option<&str>, title: &str) -> AgentChoice {
    AgentChoice {
        pane_id: "w:p1".to_string(),
        kind: kind.to_string(),
        name: name.map(str::to_string),
        tab_label: tab_label.map(str::to_string),
        status: Status::Idle,
        title: title.to_string(),
    }
}

#[derive(Debug, PartialEq, Eq)]
enum Picked {
    One(String),
    Many(Vec<String>),
    Nobody,
}

fn picked(agents: &[AgentPane], tab: Option<&str>, ws: Option<&str>, me: Option<&str>) -> Picked {
    match pick(agents, tab, ws, me) {
        Pick::One(i) => Picked::One(agents[i].pane_id.clone()),
        Pick::Many(v) => Picked::Many(v.iter().map(|&i| agents[i].pane_id.clone()).collect()),
        Pick::Nobody => Picked::Nobody,
    }
}

#[test]
fn pick_prefers_the_tab_agent_over_the_workspace() {
    let agents = vec![agent("w8:p1", "w8:t1", "w8"), agent("w8:p2", "w8:t2", "w8")];
    assert_eq!(picked(&agents, Some("w8:t2"), Some("w8"), None), Picked::One("w8:p2".into()));
}

#[test]
fn pick_falls_back_to_the_sole_workspace_agent() {
    let agents = vec![agent("w8:p1", "w8:t1", "w8")];
    assert_eq!(picked(&agents, Some("w8:tX"), Some("w8"), None), Picked::One("w8:p1".into()));
}

#[test]
fn the_reviewr_pane_excludes_itself_so_the_real_agent_resolves() {
    let agents = vec![agent("w8:p1", "w8:t1", "w8"), agent("w8:p5", "w8:t1", "w8")];
    assert_eq!(
        picked(&agents, Some("w8:t1"), Some("w8"), Some("w8:p5")),
        Picked::One("w8:p1".into())
    );
}

#[test]
fn non_agent_panes_do_not_make_the_tab_ambiguous() {
    let agents = vec![agent("w3:p1", "w3:t1", "w3"), non_agent_pane("w3:p4", "w3:t1", "w3")];
    assert_eq!(
        picked(&agents, Some("w3:t1"), Some("w3"), Some("w3:p5")),
        Picked::One("w3:p1".into())
    );
}

#[test]
fn only_non_agent_panes_resolve_to_none() {
    let agents = vec![non_agent_pane("w3:p2", "w3:t1", "w3"), non_agent_pane("w3:p4", "w3:t1", "w3")];
    assert_eq!(picked(&agents, Some("w3:t1"), Some("w3"), None), Picked::Nobody);
}

#[test]
fn no_matching_agent_resolves_to_none() {
    let agents = vec![agent("w9:p1", "w9:t1", "w9")];
    assert_eq!(picked(&agents, Some("w8:t1"), Some("w8"), None), Picked::Nobody);
}

#[test]
fn two_workspace_agents_go_to_the_picker_with_the_exact_set() {
    let agents = vec![agent("w8:p1", "w8:t1", "w8"), agent("w8:p2", "w8:t2", "w8")];
    assert_eq!(
        picked(&agents, Some("w8:tZ"), Some("w8"), None),
        Picked::Many(vec!["w8:p1".into(), "w8:p2".into()])
    );
}

#[test]
fn two_tab_agents_go_to_the_picker_even_without_a_workspace_id() {
    let agents = vec![agent("w8:p1", "w8:t1", "w8"), agent("w8:p2", "w8:t1", "w8")];
    assert_eq!(
        picked(&agents, Some("w8:t1"), None, None),
        Picked::Many(vec!["w8:p1".into(), "w8:p2".into()])
    );
}

#[test]
fn row_lead_prefers_name_then_kind() {
    assert_eq!(choice("codex", Some("fbig-import"), None, "t").lead(), "fbig-import");
    assert_eq!(choice("aider", None, None, "t").lead(), "aider");
    assert_eq!(choice("codex", Some(""), None, "t").lead(), "codex");
}

#[test]
fn row_tab_note_is_shown_only_when_it_adds_over_the_kind() {
    assert_eq!(choice("codex", None, Some("upgrade test"), "t").tab_note(), Some("upgrade test"));
    assert_eq!(choice("codex", None, Some("codex"), "t").tab_note(), None);
    assert_eq!(choice("aider", None, None, "t").tab_note(), None);
    assert_eq!(choice("aider", None, Some(""), "t").tab_note(), None);
}

#[test]
fn the_picker_rows_join_tab_labels_and_a_single_agent_reports_its_status() {
    let mut a = agent("w8:p1", "w8:t1", "w8");
    a.name = Some(String::new());
    a.terminal_title_stripped = Some("port to kotlin".into());
    let agents = vec![a, agent("w8:p2", "w8:t2", "w8")];
    let labels = vec![("w8:t1".to_string(), "old".to_string()), ("w8:t1".to_string(), "upgrade".to_string())];
    match send_target(&agents, Some("w8:tZ"), Some("w8"), None, &labels) {
        SendTarget::Many(rows) => {
            assert_eq!(rows.len(), 2);
            assert_eq!(rows[0].tab_label.as_deref(), Some("upgrade"));
            assert_eq!(rows[0].name, None);
            assert_eq!(rows[0].title, "port to kotlin");
            assert_eq!(rows[1].tab_label, None);
        }
        other => panic!("expected the picker, got {other:?}"),
    }
    assert_eq!(agent_status(&agents, Some("w8:t2"), Some("w8"), None), Some(Status::Working));
    assert_eq!(agent_status(&agents, Some("w8:tZ"), Some("w8"), None), None);
    assert!(matches!(send_target(&agents, Some("w8:t2"), None, None, &[]), SendTarget::One(p) if p == "w8:p2"));
    assert_eq!(send_text_args("w8:p2", "hi"), ["pane", "send-text", "w8:p2", "hi"]);
    assert_eq!(focus_args("w8:p2"), ["agent", "focus", "w8:p2"]);
}

#[test]
fn parse_agents_accepts_the_envelope_and_defaults_absent_fields() {
    let wrapped = r#"{"result":{"agents":[{"agent":"aider","agent_status":"working","pane_id":"w8:p1","tab_id":"w8:t1","workspace_id":"w8"}]}}"#;
    // name/terminal_title_stripped are absent → None (agent() sets both None).
    assert_eq!(parse_agents(wrapped).unwrap(), [agent("w8:p1", "w8:t1", "w8")]);
    assert!(parse_agents("[]").is_err());
    assert_eq!(status_of("starting"), Status::Unknown);
}

#[test]
fn parse_agents_reads_the_name_and_title_fields_when_present() {
    let json = r#"{"result":{"agents":[{"agent":"codex","agent_status":"idle","pane_id":"w:p1","tab_id":"w:t1","workspace_id":"w","name":"fbig-import","terminal_title_stripped":"port to kotlin"}]}}"#;
    let parsed = parse_agents(json).unwrap();
    assert_eq!(parsed[0].name.as_deref(), Some("fbig-import"));
    assert_eq!(parsed[0].terminal_title_stripped.as_deref(), Some("port to kotlin"));
}

#[test]
fn parse_tab_labels_reads_labels_and_skips_unlabeled_tabs() {
    let json =
        r#"{"result":{"tabs":[{"tab_id":"w:t1","label":"upgrade test"},{"tab_id":"w:t2"}]}}"#;
    let labels = parse_tab_labels(json).unwrap();
    assert_eq!(tab_label_for(&labels, "w:t1").as_deref(), Some("upgrade test"));
    assert!(tab_label_for(&labels, "w:t2").is_none(), "a tab with no label is skipped");
}

#[test]
fn agent_and_tab_replies_of_the_wrong_shape_are_refused() {
    assert_eq!(parse_agents("not json"), Err("parsing agent list".to_string()));
    assert_eq!(parse_agents(r#"{"result":{}}"#), Err("parsing agent list".to_string()));
    // A row missing its pane id does not read.
    let missing = r#"{"result":{"agents":[{"agent_status":"idle","tab_id":"t","workspace_id":"w"}]}}"#;
    assert_eq!(parse_agents(missing), Err("parsing agent list".to_string()));
    // A null optional member reads as absent; an unknown member is ignored.
    let nulls = r#"{"result":{"agents":[{"agent":null,"agent_status":"done","pane_id":"p","tab_id":"t","workspace_id":"w","extra":1}]}}"#;
    let parsed = parse_agents(nulls).unwrap();
    assert_eq!(parsed[0].agent, None);
    assert_eq!(parsed[0].agent_status, Status::Done);
    assert_eq!(parse_tab_labels(r#"{"result":{"tabs":[{"label":"x"}]}}"#), Err("parsing tab list".to_string()));
    assert_eq!(parse_tab_labels("{}"), Err("parsing tab list".to_string()));
    assert_eq!(parse_tab_labels(r#"{"result":{"tabs":[]}}"#), Ok(vec![]));
}

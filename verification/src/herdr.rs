//! The send-target decision over the panes herdr lists: which agent a `Send` goes to, the
//! picker rows when several could, the agent status turn tracking follows, and the reading of
//! herdr's `agent list` and `tab list` replies. Calling the herdr CLI and reading its
//! environment is the application's work.

use vstd::prelude::*;

use crate::json::{get_spec, json_parse, parse_json, str_spec, Json};
use crate::text::{owned, push_string, str_eq, views};

verus! {

/// An agent's reported state (`agent_status`); any other value reads as unknown.
#[derive(Clone, Copy, Debug, PartialEq, Eq, Structural)]
pub enum Status {
    Idle,
    Working,
    Blocked,
    Done,
    Unknown,
}

/// One pane as `herdr agent list` reports it.
#[derive(Clone, Debug, PartialEq, Eq)]
pub struct AgentPane {
    /// The agent kind; absent for a non-agent pane (a plugin sidebar, a plain shell).
    pub agent: Option<String>,
    pub agent_status: Status,
    pub pane_id: String,
    pub tab_id: String,
    pub workspace_id: String,
    /// The agent session name, when set.
    pub name: Option<String>,
    /// The pane's live terminal title.
    pub terminal_title_stripped: Option<String>,
}

/// One agent offered in the picker. `pane_id` is the send target and is never displayed.
#[derive(Clone, Debug, PartialEq, Eq)]
pub struct AgentChoice {
    /// The pane to write to.
    pub pane_id: String,
    /// The agent kind (`codex`, `aider`).
    pub kind: String,
    /// The session name, when set.
    pub name: Option<String>,
    /// The tab's label, when known.
    pub tab_label: Option<String>,
    pub status: Status,
    /// The terminal title (empty when the pane reports none).
    pub title: String,
}

/// The row's lead label: the session name if set and non-empty, else the agent kind.
pub open spec fn lead_spec(c: AgentChoice) -> Seq<char> {
    match c.name {
        Some(n) => if n@.len() > 0 {
            n@
        } else {
            c.kind@
        },
        None => c.kind@,
    }
}

/// The tab label shown as context: only a non-empty label that differs from the kind.
pub open spec fn tab_note_spec(c: AgentChoice) -> Option<Seq<char>> {
    match c.tab_label {
        Some(l) => if l@.len() > 0 && l@ != c.kind@ {
            Some(l@)
        } else {
            None
        },
        None => None,
    }
}

impl AgentChoice {
    /// The row's lead label: the session name if set, else the agent kind.
    pub fn lead(&self) -> (s: &str)
        ensures
            s@ == lead_spec(*self),
    {
        match &self.name {
            Some(n) => if !n.as_str().is_empty() {
                n.as_str()
            } else {
                self.kind.as_str()
            },
            None => self.kind.as_str(),
        }
    }

    /// The tab label to show as context, only when it adds information beyond the kind.
    pub fn tab_note(&self) -> (s: Option<&str>)
        ensures
            match s {
                Some(l) => tab_note_spec(*self) == Some(l@),
                None => tab_note_spec(*self) is None,
            },
    {
        match &self.tab_label {
            Some(l) => if !l.as_str().is_empty() && !str_eq(l.as_str(), self.kind.as_str()) {
                Some(l.as_str())
            } else {
                None
            },
            None => None,
        }
    }
}

/// Where a `Send` goes once the candidates are resolved: straight to the sole pane, to the
/// picker over several, or nowhere.
#[derive(Debug)]
pub enum SendTarget {
    One(String),
    Many(Vec<AgentChoice>),
    Nobody,
}

/// Which identifier a candidate set is projected by.
#[derive(Clone, Copy, Debug, PartialEq, Eq, Structural)]
pub enum Scope {
    Tab,
    Workspace,
}

/// The pane's identifier in a scope.
pub open spec fn scope_id(a: AgentPane, scope: Scope) -> Seq<char> {
    match scope {
        Scope::Tab => a.tab_id@,
        Scope::Workspace => a.workspace_id@,
    }
}

/// Whether pane `a` is a candidate in the scope `want`, excluding our own pane `me`: a real
/// agent (it carries an `agent` field) whose scope id is `want`.
pub open spec fn is_candidate(a: AgentPane, scope: Scope, want: Seq<char>, me: Option<Seq<char>>)
    -> bool {
    a.agent is Some && scope_id(a, scope) == want && me != Some(a.pane_id@)
}

/// The candidate positions in list order; none without a scope id.
pub open spec fn candidates_spec(
    agents: Seq<AgentPane>,
    scope: Scope,
    want: Option<Seq<char>>,
    me: Option<Seq<char>>,
) -> Seq<int> {
    match want {
        Some(w) => Seq::new(agents.len(), |i: int| i).filter(
            |i: int| is_candidate(agents[i], scope, w, me),
        ),
        None => Seq::empty(),
    }
}

/// The classified candidates: one pane, several for the picker, or none.
#[derive(Debug, PartialEq, Eq)]
pub enum Pick {
    One(usize),
    Many(Vec<usize>),
    Nobody,
}

/// The decision over candidate positions.
pub enum Decision {
    One(int),
    Many(Seq<int>),
    Nobody,
}

/// A sole tab agent wins; otherwise the widest non-empty candidate set decides (the workspace
/// when present, else the tab): one is `One`, several `Many`; `Nobody` only when both are
/// empty.
pub open spec fn decide(in_tab: Seq<int>, in_ws: Seq<int>) -> Decision {
    if in_tab.len() == 1 {
        Decision::One(in_tab[0])
    } else if in_ws.len() == 1 {
        Decision::One(in_ws[0])
    } else if in_ws.len() == 0 && in_tab.len() == 0 {
        Decision::Nobody
    } else if in_ws.len() == 0 {
        Decision::Many(in_tab)
    } else {
        Decision::Many(in_ws)
    }
}

/// The decision for `agents` seen from our tab, workspace, and pane.
pub open spec fn decision(agents: Seq<AgentPane>, tab: Option<Seq<char>>, ws: Option<Seq<char>>, me: Option<Seq<char>>) -> Decision {
    decide(
        candidates_spec(agents, Scope::Tab, tab, me),
        candidates_spec(agents, Scope::Workspace, ws, me),
    )
}

/// Whether a pick is the decision.
pub open spec fn picks(p: Pick, d: Decision) -> bool {
    match (p, d) {
        (Pick::One(i), Decision::One(j)) => i == j,
        (Pick::Many(v), Decision::Many(s)) => v@.map_values(|i: usize| i as int) == s,
        (Pick::Nobody, Decision::Nobody) => true,
        _ => false,
    }
}

/// The view of an optional string.
pub open spec fn opt_seq(o: Option<&str>) -> Option<Seq<char>> {
    match o {
        Some(s) => Some(s@),
        None => None,
    }
}

/// The real agents whose scope id is `want`, ignoring our own pane `me`, by position.
pub fn candidates(agents: &[AgentPane], scope: Scope, want: Option<&str>, me: Option<&str>) -> (c:
    Vec<usize>)
    ensures
        c@.map_values(|i: usize| i as int) == candidates_spec(agents@, scope, opt_seq(want), opt_seq(me)),
        forall|k: int| 0 <= k < c@.len() ==> c@[k] < agents@.len(),
{
    let mut c: Vec<usize> = Vec::new();
    let w = match want {
        Some(w) => w,
        None => {
            proof {
                assert(c@.map_values(|i: usize| i as int) =~= Seq::<int>::empty());
            }
            return c;
        },
    };
    let ghost idx = Seq::new(agents@.len(), |i: int| i);
    let ghost pred = |i: int| is_candidate(agents@[i], scope, w@, opt_seq(me));
    let mut i: usize = 0;
    while i < agents.len()
        invariant
            i <= agents@.len(),
            idx == Seq::new(agents@.len(), |i: int| i),
            pred == (|i: int| is_candidate(agents@[i], scope, w@, opt_seq(me))),
            c@.map_values(|i: usize| i as int) == idx.take(i as int).filter(pred),
            forall|k: int| 0 <= k < c@.len() ==> c@[k] < i,
        decreases agents@.len() - i,
    {
        proof {
            assert(idx.take(i + 1) =~= idx.take(i as int).push(i as int));
            idx.take(i as int).lemma_filter_push(i as int, pred);
        }
        let a = &agents[i];
        let id = match scope {
            Scope::Tab => a.tab_id.as_str(),
            Scope::Workspace => a.workspace_id.as_str(),
        };
        let mine = match me {
            Some(m) => str_eq(m, a.pane_id.as_str()),
            None => false,
        };
        if a.agent.is_some() && str_eq(id, w) && !mine {
            let ghost before = c@;
            c.push(i);
            proof {
                assert(c@.map_values(|i: usize| i as int) =~= before.map_values(
                    |i: usize| i as int,
                ).push(i as int));
            }
        }
        i = i + 1;
    }
    proof {
        assert(idx.take(agents@.len() as int) =~= idx);
    }
    c
}

/// Classify the candidates of `agents` for our tab `tab`, workspace `ws`, and pane `me`.
pub fn pick(agents: &[AgentPane], tab: Option<&str>, ws: Option<&str>, me: Option<&str>) -> (p:
    Pick)
    ensures
        picks(p, decision(agents@, opt_seq(tab), opt_seq(ws), opt_seq(me))),
        match p {
            Pick::One(i) => i < agents@.len(),
            Pick::Many(v) => forall|k: int| 0 <= k < v@.len() ==> v@[k] < agents@.len(),
            Pick::Nobody => true,
        },
{
    let in_tab = candidates(agents, Scope::Tab, tab, me);
    if in_tab.len() == 1 {
        return Pick::One(in_tab[0]);
    }
    let in_ws = candidates(agents, Scope::Workspace, ws, me);
    if in_ws.len() == 1 {
        Pick::One(in_ws[0])
    } else if in_ws.len() == 0 && in_tab.len() == 0 {
        Pick::Nobody
    } else if in_ws.len() == 0 {
        Pick::Many(in_tab)
    } else {
        Pick::Many(in_ws)
    }
}

/// The label of tab `tab_id` among `(tab_id, label)` pairs; a later pair for the same tab
/// replaces an earlier one.
pub open spec fn label_of(labels: Seq<(String, String)>, tab_id: Seq<char>) -> Option<Seq<char>>
    decreases labels.len(),
{
    if labels.len() == 0 {
        None
    } else if labels.last().0@ == tab_id {
        Some(labels.last().1@)
    } else {
        label_of(labels.drop_last(), tab_id)
    }
}

/// The label of a tab, if listed.
pub fn tab_label_for(labels: &[(String, String)], tab_id: &str) -> (l: Option<String>)
    ensures
        match l {
            Some(s) => label_of(labels@, tab_id@) == Some(s@),
            None => label_of(labels@, tab_id@) is None,
        },
{
    let mut i = labels.len();
    proof {
        assert(labels@.take(labels@.len() as int) =~= labels@);
    }
    while i > 0
        invariant
            i <= labels@.len(),
            label_of(labels@, tab_id@) == label_of(labels@.take(i as int), tab_id@),
        decreases i,
    {
        proof {
            assert(labels@.take(i as int).drop_last() =~= labels@.take(i - 1));
        }
        if str_eq(labels[i - 1].0.as_str(), tab_id) {
            return Some(labels[i - 1].1.clone());
        }
        i = i - 1;
    }
    None
}

/// The picker choice a pane offers, its tab label looked up in `labels`.
pub open spec fn choice_spec(a: AgentPane, labels: Seq<(String, String)>, c: AgentChoice) -> bool {
    &&& c.pane_id@ == a.pane_id@
    &&& c.kind@ == match a.agent {
        Some(k) => k@,
        None => Seq::empty(),
    }
    &&& match a.name {
        Some(n) => if n@.len() > 0 {
            c.name is Some && c.name->0@ == n@
        } else {
            c.name is None
        },
        None => c.name is None,
    }
    &&& match label_of(labels, a.tab_id@) {
        Some(l) => c.tab_label is Some && c.tab_label->0@ == l,
        None => c.tab_label is None,
    }
    &&& c.status == a.agent_status
    &&& c.title@ == match a.terminal_title_stripped {
        Some(t) => t@,
        None => Seq::empty(),
    }
}

/// Build the picker choice for a pane.
pub fn to_choice(a: &AgentPane, labels: &[(String, String)]) -> (c: AgentChoice)
    ensures
        choice_spec(*a, labels@, c),
{
    AgentChoice {
        pane_id: a.pane_id.clone(),
        kind: match &a.agent {
            Some(k) => k.clone(),
            None => String::new(),
        },
        name: match &a.name {
            Some(n) => if !n.as_str().is_empty() {
                Some(n.clone())
            } else {
                None
            },
            None => None,
        },
        tab_label: tab_label_for(labels, a.tab_id.as_str()),
        status: a.agent_status,
        title: match &a.terminal_title_stripped {
            Some(t) => t.clone(),
            None => String::new(),
        },
    }
}

/// The send target: the sole candidate's pane, the picker rows over several (tab labels
/// joined from `labels`), or nobody.
pub fn send_target(
    agents: &[AgentPane],
    tab: Option<&str>,
    ws: Option<&str>,
    me: Option<&str>,
    labels: &[(String, String)],
) -> (t: SendTarget)
    ensures
        match decision(agents@, opt_seq(tab), opt_seq(ws), opt_seq(me)) {
            Decision::One(i) => t matches SendTarget::One(p) && p@ == agents@[i].pane_id@,
            Decision::Many(v) => t matches SendTarget::Many(cs) && cs@.len() == v.len() && forall|
                k: int,
            | 0 <= k < v.len() ==> choice_spec(agents@[v[k]], labels@, #[trigger] cs@[k]),
            Decision::Nobody => t is Nobody,
        },
{
    match pick(agents, tab, ws, me) {
        Pick::One(i) => SendTarget::One(agents[i].pane_id.clone()),
        Pick::Nobody => SendTarget::Nobody,
        Pick::Many(v) => {
            let mut cs: Vec<AgentChoice> = Vec::new();
            let mut k: usize = 0;
            while k < v.len()
                invariant
                    k <= v@.len(),
                    cs@.len() == k,
                    forall|j: int| 0 <= j < v@.len() ==> v@[j] < agents@.len(),
                    forall|j: int|
                        0 <= j < k ==> choice_spec(agents@[v@[j] as int], labels@, #[trigger] cs@[j]),
                decreases v@.len() - k,
            {
                cs.push(to_choice(&agents[v[k]], labels));
                k = k + 1;
            }
            SendTarget::Many(cs)
        },
    }
}

/// The resolved agent's status for turn tracking: only when a single agent resolves.
pub fn agent_status(agents: &[AgentPane], tab: Option<&str>, ws: Option<&str>, me: Option<&str>) -> (s:
    Option<Status>)
    ensures
        match decision(agents@, opt_seq(tab), opt_seq(ws), opt_seq(me)) {
            Decision::One(i) => s == Some(agents@[i].agent_status),
            _ => s is None,
        },
{
    match pick(agents, tab, ws, me) {
        Pick::One(i) => Some(agents[i].agent_status),
        _ => None,
    }
}

/// The herdr arguments that write literal text into a pane's input without submitting.
pub fn send_text_args(pane: &str, text: &str) -> (args: Vec<String>)
    ensures
        views(args@) == seq!["pane"@, "send-text"@, pane@, text@],
{
    let mut args: Vec<String> = Vec::new();
    push_string(&mut args, owned("pane"));
    push_string(&mut args, owned("send-text"));
    push_string(&mut args, owned(pane));
    push_string(&mut args, owned(text));
    proof {
        assert(views(args@) =~= seq!["pane"@, "send-text"@, pane@, text@]);
    }
    args
}

/// The herdr arguments that focus an agent pane.
pub fn focus_args(pane: &str) -> (args: Vec<String>)
    ensures
        views(args@) == seq!["agent"@, "focus"@, pane@],
{
    let mut args: Vec<String> = Vec::new();
    push_string(&mut args, owned("agent"));
    push_string(&mut args, owned("focus"));
    push_string(&mut args, owned(pane));
    proof {
        assert(views(args@) =~= seq!["agent"@, "focus"@, pane@]);
    }
    args
}

/// The status an `agent_status` text names; any other text reads as unknown.
pub open spec fn status_named(s: Seq<char>) -> Status {
    if s == "idle"@ {
        Status::Idle
    } else if s == "working"@ {
        Status::Working
    } else if s == "blocked"@ {
        Status::Blocked
    } else if s == "done"@ {
        Status::Done
    } else {
        Status::Unknown
    }
}

/// The status an `agent_status` text names.
pub fn status_of(s: &str) -> (st: Status)
    ensures
        st == status_named(s@),
{
    if str_eq(s, "idle") {
        Status::Idle
    } else if str_eq(s, "working") {
        Status::Working
    } else if str_eq(s, "blocked") {
        Status::Blocked
    } else if str_eq(s, "done") {
        Status::Done
    } else {
        Status::Unknown
    }
}

/// An optional text member: absent or `null` reads as `Some(None)`, a string as
/// `Some(Some(text))`; any other value is unreadable (`None`).
pub open spec fn opt_member(v: Json, key: Seq<char>) -> Option<Option<Seq<char>>> {
    match get_spec(v, key) {
        None => Some(None),
        Some(Json::Null) => Some(None),
        Some(Json::Str(s)) => Some(Some(s@)),
        _ => None,
    }
}

/// A required text member.
pub open spec fn text_member(v: Json, key: Seq<char>) -> Option<Seq<char>> {
    match get_spec(v, key) {
        Some(x) => str_spec(x),
        None => None,
    }
}

/// An optional text as plain characters.
pub open spec fn opt_chars(o: Option<String>) -> Option<Seq<char>> {
    match o {
        Some(s) => Some(s@),
        None => None,
    }
}

/// The items of `result.<key>` in a herdr reply envelope, when the reply is an object whose
/// `result` is an object holding that array.
pub open spec fn envelope(v: Json, key: Seq<char>) -> Option<Seq<Json>> {
    match (v, get_spec(v, "result"@)) {
        (Json::Object(_), Some(r)) => match (r, get_spec(r, key)) {
            (Json::Object(_), Some(Json::Array(items))) => Some(items@),
            _ => None,
        },
        _ => None,
    }
}

/// Whether an agent row reads: an object with text `agent_status`, `pane_id`, `tab_id` and
/// `workspace_id`, and `agent`, `name` and `terminal_title_stripped` each absent, `null` or
/// text.
pub open spec fn agent_readable(v: Json) -> bool {
    &&& v is Object
    &&& opt_member(v, "agent"@) is Some
    &&& text_member(v, "agent_status"@) is Some
    &&& text_member(v, "pane_id"@) is Some
    &&& text_member(v, "tab_id"@) is Some
    &&& text_member(v, "workspace_id"@) is Some
    &&& opt_member(v, "name"@) is Some
    &&& opt_member(v, "terminal_title_stripped"@) is Some
}

/// `a` is what a readable agent row says.
pub open spec fn agent_row(v: Json, a: AgentPane) -> bool {
    &&& opt_member(v, "agent"@) == Some(opt_chars(a.agent))
    &&& a.agent_status == status_named(text_member(v, "agent_status"@)->0)
    &&& text_member(v, "pane_id"@) == Some(a.pane_id@)
    &&& text_member(v, "tab_id"@) == Some(a.tab_id@)
    &&& text_member(v, "workspace_id"@) == Some(a.workspace_id@)
    &&& opt_member(v, "name"@) == Some(opt_chars(a.name))
    &&& opt_member(v, "terminal_title_stripped"@) == Some(opt_chars(a.terminal_title_stripped))
}

/// Whether a `herdr agent list` reply reads: JSON whose `result.agents` rows all read.
pub open spec fn agents_readable(text: Seq<char>) -> bool {
    json_parse(text) matches Ok(v) && envelope(v, "agents"@) matches Some(rows) && forall|i: int|
        0 <= i < rows.len() ==> #[trigger] agent_readable(rows[i])
}

/// An optional text member read from a row.
fn read_opt(v: &Json, key: &str) -> (r: Option<Option<String>>)
    ensures
        match r {
            Some(o) => opt_member(*v, key@) == Some(opt_chars(o)),
            None => opt_member(*v, key@) is None,
        },
{
    match v.get(key) {
        None => Some(None),
        Some(Json::Null) => Some(None),
        Some(Json::Str(s)) => Some(Some(owned(s.as_str()))),
        Some(_) => None,
    }
}

/// A required text member read from a row.
fn read_text(v: &Json, key: &str) -> (r: Option<String>)
    ensures
        match r {
            Some(s) => text_member(*v, key@) == Some(s@),
            None => text_member(*v, key@) is None,
        },
{
    match v.get(key) {
        Some(Json::Str(s)) => Some(owned(s.as_str())),
        _ => None,
    }
}

/// One agent row, when it reads.
fn read_agent(v: &Json) -> (r: Option<AgentPane>)
    ensures
        match r {
            Some(a) => agent_readable(*v) && agent_row(*v, a),
            None => !agent_readable(*v),
        },
{
    match v {
        Json::Object(_) => {},
        _ => {
            return None;
        },
    }
    let agent = match read_opt(v, "agent") {
        Some(o) => o,
        None => {
            return None;
        },
    };
    let status = match read_text(v, "agent_status") {
        Some(s) => status_of(s.as_str()),
        None => {
            return None;
        },
    };
    let pane_id = match read_text(v, "pane_id") {
        Some(s) => s,
        None => {
            return None;
        },
    };
    let tab_id = match read_text(v, "tab_id") {
        Some(s) => s,
        None => {
            return None;
        },
    };
    let workspace_id = match read_text(v, "workspace_id") {
        Some(s) => s,
        None => {
            return None;
        },
    };
    let name = match read_opt(v, "name") {
        Some(o) => o,
        None => {
            return None;
        },
    };
    let title = match read_opt(v, "terminal_title_stripped") {
        Some(o) => o,
        None => {
            return None;
        },
    };
    Some(
        AgentPane {
            agent,
            agent_status: status,
            pane_id,
            tab_id,
            workspace_id,
            name,
            terminal_title_stripped: title,
        },
    )
}

/// The array `result.<key>` of a herdr reply envelope.
pub fn envelope_items<'a>(v: &'a Json, key: &str) -> (r: Option<&'a Vec<Json>>)
    ensures
        match r {
            Some(items) => envelope(*v, key@) == Some(items@),
            None => envelope(*v, key@) is None,
        },
{
    match v {
        Json::Object(_) => {},
        _ => {
            return None;
        },
    }
    let result = match v.get("result") {
        Some(r) => r,
        None => {
            return None;
        },
    };
    match result {
        Json::Object(_) => {},
        _ => {
            return None;
        },
    }
    match result.get(key) {
        Some(Json::Array(items)) => Some(items),
        _ => None,
    }
}

/// The agents a `herdr agent list` reply lists, in order: each row's members read by name,
/// unknown members ignored, an absent or `null` optional member read as none, and any other
/// `agent_status` text read as unknown. A reply that is not JSON, not the documented envelope,
/// or with a row that does not read is refused.
pub fn parse_agents(json: &str) -> (r: Result<Vec<AgentPane>, String>)
    ensures
        match r {
            Ok(agents) => json_parse(json@) matches Ok(v) && envelope(v, "agents"@) matches Some(rows)
                && agents@.len() == rows.len() && forall|i: int|
                0 <= i < rows.len() ==> #[trigger] agent_row(rows[i], agents@[i]),
            Err(m) => !agents_readable(json@) && m@ == "parsing agent list"@,
        },
{
    let v = match parse_json(json) {
        Ok(v) => v,
        Err(_) => {
            return Err(owned("parsing agent list"));
        },
    };
    let rows = match envelope_items(&v, "agents") {
        Some(rows) => rows,
        None => {
            return Err(owned("parsing agent list"));
        },
    };
    let mut agents: Vec<AgentPane> = Vec::new();
    let mut i: usize = 0;
    while i < rows.len()
        invariant
            i <= rows@.len(),
            json_parse(json@) == Ok::<Json, Seq<char>>(v),
            envelope(v, "agents"@) == Some(rows@),
            agents@.len() == i,
            forall|j: int| 0 <= j < i ==> #[trigger] agent_row(rows@[j], agents@[j]),
            forall|j: int| 0 <= j < i ==> #[trigger] agent_readable(rows@[j]),
        decreases rows@.len() - i,
    {
        match read_agent(&rows[i]) {
            Some(a) => {
                agents.push(a);
            },
            None => {
                return Err(owned("parsing agent list"));
            },
        }
        i = i + 1;
    }
    Ok(agents)
}

/// Whether a tab row reads: an object with a text `tab_id` and a `label` absent, `null` or
/// text.
pub open spec fn tab_readable(v: Json) -> bool {
    v is Object && text_member(v, "tab_id"@) is Some && opt_member(v, "label"@) is Some
}

/// The `(tab_id, label)` pairs of the labelled rows among the first `k`, in order.
pub open spec fn labelled(rows: Seq<Json>, k: int) -> Seq<(Seq<char>, Seq<char>)>
    decreases k,
{
    if k <= 0 {
        Seq::empty()
    } else {
        labelled(rows, k - 1) + match opt_member(rows[k - 1], "label"@) {
            Some(Some(l)) => seq![(text_member(rows[k - 1], "tab_id"@)->0, l)],
            _ => Seq::empty(),
        }
    }
}

/// A pair of owned texts as plain characters.
pub open spec fn pair_chars(p: (String, String)) -> (Seq<char>, Seq<char>) {
    (p.0@, p.1@)
}

/// Whether a `herdr tab list` reply reads: JSON whose `result.tabs` rows all read.
pub open spec fn tabs_readable(text: Seq<char>) -> bool {
    json_parse(text) matches Ok(v) && envelope(v, "tabs"@) matches Some(rows) && forall|i: int|
        0 <= i < rows.len() ==> #[trigger] tab_readable(rows[i])
}

/// One tab row's id and label, when it reads.
fn read_tab(v: &Json) -> (r: Option<(String, Option<String>)>)
    ensures
        match r {
            Some((id, label)) => tab_readable(*v) && text_member(*v, "tab_id"@) == Some(id@)
                && opt_member(*v, "label"@) == Some(opt_chars(label)),
            None => !tab_readable(*v),
        },
{
    match v {
        Json::Object(_) => {},
        _ => {
            return None;
        },
    }
    let tab_id = match read_text(v, "tab_id") {
        Some(t) => t,
        None => {
            return None;
        },
    };
    match read_opt(v, "label") {
        Some(label) => Some((tab_id, label)),
        None => None,
    }
}

/// The `(tab_id, label)` pairs of a `herdr tab list` reply, tabs without a label skipped, in
/// order. A reply that is not JSON, not the documented envelope, or with a row that does not
/// read is refused.
pub fn parse_tab_labels(json: &str) -> (r: Result<Vec<(String, String)>, String>)
    ensures
        match r {
            Ok(pairs) => json_parse(json@) matches Ok(v) && envelope(v, "tabs"@) matches Some(rows)
                && pairs@.map_values(|p: (String, String)| pair_chars(p)) == labelled(rows, rows.len() as int),
            Err(m) => !tabs_readable(json@) && m@ == "parsing tab list"@,
        },
{
    let v = match parse_json(json) {
        Ok(v) => v,
        Err(_) => {
            return Err(owned("parsing tab list"));
        },
    };
    let rows = match envelope_items(&v, "tabs") {
        Some(rows) => rows,
        None => {
            return Err(owned("parsing tab list"));
        },
    };
    let mut pairs: Vec<(String, String)> = Vec::new();
    let mut i: usize = 0;
    while i < rows.len()
        invariant
            i <= rows@.len(),
            json_parse(json@) == Ok::<Json, Seq<char>>(v),
            envelope(v, "tabs"@) == Some(rows@),
            pairs@.map_values(|p: (String, String)| pair_chars(p)) == labelled(rows@, i as int),
            forall|j: int| 0 <= j < i ==> #[trigger] tab_readable(rows@[j]),
        decreases rows@.len() - i,
    {
        match read_tab(&rows[i]) {
            Some((tab_id, Some(l))) => {
                pairs.push((tab_id, l));
            },
            Some((_, None)) => {},
            None => {
                proof {
                    assert(!tab_readable(rows@[i as int]));
                    assert(!tabs_readable(json@)) by {
                        if tabs_readable(json@) {
                            let v2 = json_parse(json@)->Ok_0;
                            assert(v2 == v);
                            let rows2 = envelope(v2, "tabs"@)->0;
                            assert(rows2 == rows@);
                            assert(forall|j: int| 0 <= j < rows2.len() ==> #[trigger] tab_readable(rows2[j]));
                            assert(tab_readable(rows2[i as int]));
                        }
                    }
                }
                return Err(owned("parsing tab list"));
            },
        }
        proof {
            assert(pairs@.map_values(|p: (String, String)| pair_chars(p)) =~= labelled(rows@, i + 1));
        }
        i = i + 1;
    }
    Ok(pairs)
}


/// A sole agent in our tab is sent to, whatever the workspace holds.
pub proof fn law_a_sole_tab_agent_is_sent_to(
    agents: Seq<AgentPane>,
    tab: Option<Seq<char>>,
    ws: Option<Seq<char>>,
    me: Option<Seq<char>>,
)
    requires
        candidates_spec(agents, Scope::Tab, tab, me).len() == 1,
    ensures
        decision(agents, tab, ws, me) == Decision::One(candidates_spec(agents, Scope::Tab, tab, me)[0]),
{
}

/// Without a sole tab agent, a sole workspace agent is sent to.
pub proof fn law_a_sole_workspace_agent_is_sent_to(
    agents: Seq<AgentPane>,
    tab: Option<Seq<char>>,
    ws: Option<Seq<char>>,
    me: Option<Seq<char>>,
)
    requires
        candidates_spec(agents, Scope::Tab, tab, me).len() != 1,
        candidates_spec(agents, Scope::Workspace, ws, me).len() == 1,
    ensures
        decision(agents, tab, ws, me) == Decision::One(
            candidates_spec(agents, Scope::Workspace, ws, me)[0],
        ),
{
}

/// When neither our tab nor our workspace holds exactly one agent and the workspace holds
/// several, the picker lists every workspace agent, in list order: the widest set, never only
/// the tab's.
pub proof fn law_the_picker_lists_every_workspace_agent(
    agents: Seq<AgentPane>,
    tab: Option<Seq<char>>,
    ws: Option<Seq<char>>,
    me: Option<Seq<char>>,
)
    requires
        candidates_spec(agents, Scope::Tab, tab, me).len() != 1,
        candidates_spec(agents, Scope::Workspace, ws, me).len() >= 2,
    ensures
        decision(agents, tab, ws, me) == Decision::Many(candidates_spec(agents, Scope::Workspace, ws, me)),
{
}

/// With no workspace agent to widen to, several tab agents go to the picker.
pub proof fn law_without_workspace_agents_the_tab_agents_are_picked_from(
    agents: Seq<AgentPane>,
    tab: Option<Seq<char>>,
    ws: Option<Seq<char>>,
    me: Option<Seq<char>>,
)
    requires
        candidates_spec(agents, Scope::Tab, tab, me).len() >= 2,
        candidates_spec(agents, Scope::Workspace, ws, me).len() == 0,
    ensures
        decision(agents, tab, ws, me) == Decision::Many(candidates_spec(agents, Scope::Tab, tab, me)),
{
}

/// A send goes nowhere exactly when neither our tab nor our workspace holds a candidate.
pub proof fn law_nobody_only_without_candidates(
    agents: Seq<AgentPane>,
    tab: Option<Seq<char>>,
    ws: Option<Seq<char>>,
    me: Option<Seq<char>>,
)
    ensures
        (decision(agents, tab, ws, me) is Nobody) <==> (candidates_spec(agents, Scope::Tab, tab, me).len()
            == 0 && candidates_spec(agents, Scope::Workspace, ws, me).len() == 0),
{
}


/// The candidates in a scope are exactly the real agents (those carrying an `agent` field)
/// whose scope id is ours, other than our own pane; without a scope id there are none.
pub proof fn law_candidates_are_the_real_agents_in_scope(
    agents: Seq<AgentPane>,
    scope: Scope,
    want: Option<Seq<char>>,
    me: Option<Seq<char>>,
    i: int,
)
    ensures
        candidates_spec(agents, scope, want, me).contains(i) <==> (want is Some && 0 <= i
            < agents.len() && agents[i].agent is Some && scope_id(agents[i], scope) == want->0
            && me != Some(agents[i].pane_id@)),
{
    match want {
        None => {},
        Some(w) => {
            let idx = Seq::new(agents.len(), |k: int| k);
            let pred = |k: int| is_candidate(agents[k], scope, w, me);
            let c = idx.filter(pred);
            assert(c == candidates_spec(agents, scope, want, me));
            if c.contains(i) {
                idx.lemma_filter_contains_rev(pred, i);
                let j = choose|j: int| 0 <= j < c.len() && c[j] == i;
                idx.lemma_filter_pred(pred, j);
            }
            if 0 <= i < agents.len() && is_candidate(agents[i], scope, w, me) {
                assert(idx[i] == i);
                idx.lemma_filter_contains(pred, i);
            }
        },
    }
}

} // verus!

//! `herdr-reviewr sidebar <toggle|open|close|auto-open>`: the sidebar actions and event hook.
//! The workspace's sidebar is any pane labeled "reviewr" in the live pane list. Actions refuse
//! loudly and report successes; the auto-open event refuses silently. The decisions are here,
//! from the herdr payload texts on; calling herdr and git is the application's work.

use vstd::prelude::*;

use crate::json::{at_path, json_parse, parse_json, path_spec, str_spec, at_spec, Json};
use crate::placement::{HostOs, ToggleDirection, TogglePlacement};
use crate::text::{join, join_strings, owned, push_str, push_string, str_eq, views};

verus! {

/// The invocation mode.
#[derive(Clone, Copy, Debug, PartialEq, Eq, Structural)]
pub enum Mode {
    Toggle,
    Open,
    Close,
    AutoOpen,
}

/// The mode an argument names; no argument means `toggle`.
pub open spec fn mode_spec(arg: Option<Seq<char>>) -> Result<Mode, Seq<char>> {
    let a = match arg {
        Some(a) => a,
        None => "toggle"@,
    };
    if a == "toggle"@ {
        Ok(Mode::Toggle)
    } else if a == "open"@ {
        Ok(Mode::Open)
    } else if a == "close"@ {
        Ok(Mode::Close)
    } else if a == "auto-open"@ {
        Ok(Mode::AutoOpen)
    } else {
        Err("unknown mode '"@ + a + "' (toggle | open | close | auto-open)"@)
    }
}

/// The view of an optional string.
pub open spec fn opt_seq(o: Option<&str>) -> Option<Seq<char>> {
    match o {
        Some(s) => Some(s@),
        None => None,
    }
}

impl Mode {
    /// The invocation mode, defaulting to `toggle`.
    pub fn parse(arg: Option<&str>) -> (r: Result<Mode, String>)
        ensures
            match r {
                Ok(m) => mode_spec(opt_seq(arg)) == Ok::<Mode, Seq<char>>(m),
                Err(e) => mode_spec(opt_seq(arg)) == Err::<Mode, Seq<char>>(e@),
            },
    {
        let a = match arg {
            Some(a) => a,
            None => "toggle",
        };
        if str_eq(a, "toggle") {
            Ok(Mode::Toggle)
        } else if str_eq(a, "open") {
            Ok(Mode::Open)
        } else if str_eq(a, "close") {
            Ok(Mode::Close)
        } else if str_eq(a, "auto-open") {
            Ok(Mode::AutoOpen)
        } else {
            let mut e = owned("unknown mode '");
            push_str(&mut e, a);
            push_str(&mut e, "' (toggle | open | close | auto-open)");
            Err(e)
        }
    }

    /// Whether this is the auto-open event.
    pub fn is_auto(self) -> (b: bool)
        ensures
            b == (self == Mode::AutoOpen),
    {
        self == Mode::AutoOpen
    }
}

/// Workspace/pane/cwd context, read from the action environment or the event payload.
#[derive(Debug, PartialEq, Eq)]
pub struct Context {
    pub workspace: Option<String>,
    pub pane: Option<String>,
    pub cwd: Option<String>,
}

/// A non-empty string value.
pub open spec fn non_empty_spec(v: Json) -> Option<Seq<char>> {
    match str_spec(v) {
        Some(s) => if s.len() > 0 {
            Some(s)
        } else {
            None
        },
        None => None,
    }
}

/// The view of an optional owned string.
pub open spec fn opt_string(o: Option<String>) -> Option<Seq<char>> {
    match o {
        Some(s) => Some(s@),
        None => None,
    }
}

/// A non-empty string at `keys` under `v`.
fn non_empty_at(v: &Json, keys: &[&str]) -> (r: Option<String>)
    ensures
        opt_string(r) == non_empty_spec(path_spec(*v, keys@)),
{
    match at_path(v, keys) {
        Some(x) => match x.as_str() {
            Some(s) => if !s.is_empty() {
                Some(owned(s))
            } else {
                None
            },
            None => None,
        },
        None => None,
    }
}

/// The first of two optional values that is present.
pub open spec fn or_else(a: Option<Seq<char>>, b: Option<Seq<char>>) -> Option<Seq<char>> {
    match a {
        Some(x) => Some(x),
        None => b,
    }
}

/// `.focused_pane_cwd // .workspace_cwd` of a context document.
pub open spec fn context_cwd_spec(context: Json) -> Option<Seq<char>> {
    or_else(
        non_empty_spec(path_spec(context, seq!["focused_pane_cwd"])),
        non_empty_spec(path_spec(context, seq!["workspace_cwd"])),
    )
}

/// `.focused_pane_cwd // .workspace_cwd` from the action context payload; `None` when the
/// payload is not JSON.
pub fn context_cwd(json: &str) -> (r: Option<String>)
    ensures
        opt_string(r) == match json_parse(json@) {
            Ok(v) => context_cwd_spec(v),
            Err(_) => None,
        },
{
    match parse_json(json) {
        Ok(v) => context_cwd_of(&v),
        Err(_) => None,
    }
}

/// `.focused_pane_cwd // .workspace_cwd` of the action context document.
pub fn context_cwd_of(context: &Json) -> (r: Option<String>)
    ensures
        opt_string(r) == context_cwd_spec(*context),
{
    let focused = ["focused_pane_cwd"];
    let ws = ["workspace_cwd"];
    proof {
        assert(focused@ =~= seq!["focused_pane_cwd"]);
        assert(ws@ =~= seq!["workspace_cwd"]);
    }
    match non_empty_at(context, &focused) {
        Some(c) => Some(c),
        None => non_empty_at(context, &ws),
    }
}

/// The workspace an event targets: `.data.workspace.workspace_id`, else
/// `.data.worktree.open_workspace_id`.
pub open spec fn event_workspace_spec(event: Json) -> Option<Seq<char>> {
    or_else(
        non_empty_spec(path_spec(event, seq!["data", "workspace", "workspace_id"])),
        non_empty_spec(path_spec(event, seq!["data", "worktree", "open_workspace_id"])),
    )
}

/// The directory an event targets: `.data.workspace.worktree.checkout_path`, else
/// `.data.worktree.path`.
pub open spec fn event_cwd_spec(event: Json) -> Option<Seq<char>> {
    or_else(
        non_empty_spec(path_spec(event, seq!["data", "workspace", "worktree", "checkout_path"])),
        non_empty_spec(path_spec(event, seq!["data", "worktree", "path"])),
    )
}

/// The event fires without a focused pane: its target is the fresh workspace in its payload.
/// A payload that is not JSON targets nothing.
pub fn event_context(json: &str) -> (c: Context)
    ensures
        c.pane is None,
        opt_string(c.workspace) == match json_parse(json@) {
            Ok(v) => event_workspace_spec(v),
            Err(_) => None,
        },
        opt_string(c.cwd) == match json_parse(json@) {
            Ok(v) => event_cwd_spec(v),
            Err(_) => None,
        },
{
    match parse_json(json) {
        Ok(v) => event_context_of(&v),
        Err(_) => Context { workspace: None, pane: None, cwd: None },
    }
}

/// The event document's target: `.data.workspace.workspace_id` (else
/// `.data.worktree.open_workspace_id`) and `.data.workspace.worktree.checkout_path` (else
/// `.data.worktree.path`); no pane.
pub fn event_context_of(event: &Json) -> (c: Context)
    ensures
        c.pane is None,
        opt_string(c.workspace) == event_workspace_spec(*event),
        opt_string(c.cwd) == event_cwd_spec(*event),
{
    let ws_primary = ["data", "workspace", "workspace_id"];
    let ws_fallback = ["data", "worktree", "open_workspace_id"];
    let cwd_primary = ["data", "workspace", "worktree", "checkout_path"];
    let cwd_fallback = ["data", "worktree", "path"];
    let workspace = match non_empty_at(event, &ws_primary) {
        Some(w) => Some(w),
        None => non_empty_at(event, &ws_fallback),
    };
    let cwd = match non_empty_at(event, &cwd_primary) {
        Some(c) => Some(c),
        None => non_empty_at(event, &cwd_fallback),
    };
    proof {
        assert(ws_primary@ =~= seq!["data", "workspace", "workspace_id"]);
        assert(ws_fallback@ =~= seq!["data", "worktree", "open_workspace_id"]);
        assert(cwd_primary@ =~= seq!["data", "workspace", "worktree", "checkout_path"]);
        assert(cwd_fallback@ =~= seq!["data", "worktree", "path"]);
    }
    Context { workspace, pane: None, cwd }
}

/// The panes of a `pane list` payload (none when it has no such array).
pub open spec fn panes_spec(list: Json) -> Seq<Json> {
    match path_spec(list, seq!["result", "panes"]) {
        Json::Array(items) => items@,
        _ => Seq::empty(),
    }
}

/// Whether a listed pane is labeled `reviewr`.
pub open spec fn is_sidebar(p: Json) -> bool {
    str_spec(at_spec(p, "label"@)) == Some("reviewr"@)
}

/// The pane ids of the sidebars among the first `k` panes, in list order (a pane without a
/// non-empty id is skipped).
pub open spec fn sidebars_upto(panes: Seq<Json>, k: int) -> Seq<Seq<char>>
    decreases k,
{
    if k <= 0 {
        Seq::empty()
    } else {
        let p = panes[k - 1];
        sidebars_upto(panes, k - 1) + if is_sidebar(p) && non_empty_spec(at_spec(p, "pane_id"@)) is Some {
            seq![non_empty_spec(at_spec(p, "pane_id"@))->0]
        } else {
            Seq::empty()
        }
    }
}

/// The sidebar pane ids of a `pane list` document, in list order.
pub open spec fn sidebars_spec(list: Json) -> Seq<Seq<char>> {
    sidebars_upto(panes_spec(list), panes_spec(list).len() as int)
}

/// Every pane id labeled "reviewr" in a `pane list` snapshot: the workspace's sidebar, any
/// tab, any placement. A payload that is not JSON reads as no sidebar.
pub fn sidebar_panes(panes_json: &str) -> (ids: Vec<String>)
    ensures
        views(ids@) == match json_parse(panes_json@) {
            Ok(v) => sidebars_spec(v),
            Err(_) => Seq::empty(),
        },
{
    match parse_json(panes_json) {
        Ok(v) => sidebar_panes_of(&v),
        Err(_) => {
            let ids: Vec<String> = Vec::new();
            proof {
                assert(views(ids@) =~= Seq::<Seq<char>>::empty());
            }
            ids
        },
    }
}

/// Every pane id labeled "reviewr" in a `pane list` document; a document without a pane
/// array reads as no sidebar.
pub fn sidebar_panes_of(list: &Json) -> (ids: Vec<String>)
    ensures
        views(ids@) == sidebars_spec(*list),
{
    let path = ["result", "panes"];
    let mut ids: Vec<String> = Vec::new();
    proof {
        assert(path@ =~= seq!["result", "panes"]);
    }
    let panes = match at_path(list, &path) {
        Some(x) => match x.as_array() {
            Some(items) => items,
            None => {
                proof {
                    assert(views(ids@) =~= Seq::<Seq<char>>::empty());
                }
                return ids;
            },
        },
        None => {
            proof {
                assert(views(ids@) =~= Seq::<Seq<char>>::empty());
            }
            return ids;
        },
    };
    let mut i: usize = 0;
    proof {
        assert(views(ids@) =~= Seq::<Seq<char>>::empty());
    }
    while i < panes.len()
        invariant
            i <= panes@.len(),
            panes@ == panes_spec(*list),
            views(ids@) == sidebars_upto(panes@, i as int),
        decreases panes@.len() - i,
    {
        let p = &panes[i];
        let labeled = match crate::json::str_field(p, "label") {
            Some(l) => str_eq(l, "reviewr"),
            None => false,
        };
        if labeled {
            match crate::json::str_field(p, "pane_id") {
                Some(id) => if !id.is_empty() {
                    push_string(&mut ids, owned(id));
                },
                None => {},
            }
        }
        proof {
            assert(views(ids@) =~= sidebars_upto(panes@, i + 1));
        }
        i = i + 1;
    }
    ids
}

/// The first listed pane's non-empty id.
pub open spec fn first_pane_spec(list: Json) -> Option<Seq<char>> {
    if panes_spec(list).len() > 0 {
        non_empty_spec(at_spec(panes_spec(list)[0], "pane_id"@))
    } else {
        None
    }
}

/// The workspace's first pane id, the split/zoomed attach fallback when no pane is focused;
/// `None` when the snapshot is not JSON.
pub fn first_pane_id(panes_json: &str) -> (r: Option<String>)
    ensures
        opt_string(r) == match json_parse(panes_json@) {
            Ok(v) => first_pane_spec(v),
            Err(_) => None,
        },
{
    match parse_json(panes_json) {
        Ok(v) => first_pane_id_of(&v),
        Err(_) => None,
    }
}

/// The first pane id of a `pane list` document.
pub fn first_pane_id_of(list: &Json) -> (r: Option<String>)
    ensures
        opt_string(r) == first_pane_spec(*list),
{
    let path = ["result", "panes"];
    proof {
        assert(path@ =~= seq!["result", "panes"]);
    }
    match at_path(list, &path) {
        Some(x) => match x.as_array() {
            Some(items) => if items.len() > 0 {
                match crate::json::str_field(&items[0], "pane_id") {
                    Some(id) => if !id.is_empty() {
                        Some(owned(id))
                    } else {
                        None
                    },
                    None => None,
                }
            } else {
                None
            },
            None => None,
        },
        None => None,
    }
}

/// The `plugin pane open` placement tail: split and zoomed attach to `target` (a split also
/// names its direction), tab targets the workspace, overlay needs neither.
pub open spec fn open_args_spec(
    placement: TogglePlacement,
    direction: ToggleDirection,
    workspace: Seq<char>,
    target: Option<Seq<char>>,
) -> Result<Seq<Seq<char>>, Seq<char>> {
    let head = seq!["--placement"@, placement.spelling()];
    match placement {
        TogglePlacement::Tab => Ok(head + seq!["--workspace"@, workspace]),
        TogglePlacement::Overlay => Ok(head),
        _ => match target {
            None => Err("no pane to attach to in "@ + workspace),
            Some(t) => Ok(
                head + seq!["--target-pane"@, t] + if placement == TogglePlacement::Split {
                    seq!["--direction"@, direction.spelling()]
                } else {
                    Seq::empty()
                },
            ),
        },
    }
}

/// The `plugin pane open` placement argument tail.
pub fn open_args(
    placement: TogglePlacement,
    direction: ToggleDirection,
    workspace: &str,
    target: Option<&str>,
) -> (r: Result<Vec<String>, String>)
    ensures
        match r {
            Ok(args) => open_args_spec(placement, direction, workspace@, opt_seq(target)) == Ok::<
                Seq<Seq<char>>,
                Seq<char>,
            >(views(args@)),
            Err(m) => open_args_spec(placement, direction, workspace@, opt_seq(target)) == Err::<
                Seq<Seq<char>>,
                Seq<char>,
            >(m@),
        },
{
    let mut args: Vec<String> = Vec::new();
    push_string(&mut args, owned("--placement"));
    push_string(&mut args, owned(placement.as_str()));
    match placement {
        TogglePlacement::Tab => {
            push_string(&mut args, owned("--workspace"));
            push_string(&mut args, owned(workspace));
        },
        TogglePlacement::Overlay => {},
        _ => {
            let t = match target {
                Some(t) => t,
                None => {
                    let mut m = owned("no pane to attach to in ");
                    push_str(&mut m, workspace);
                    return Err(m);
                },
            };
            push_string(&mut args, owned("--target-pane"));
            push_string(&mut args, owned(t));
            if placement == TogglePlacement::Split {
                push_string(&mut args, owned("--direction"));
                push_string(&mut args, owned(direction.as_str()));
            }
        },
    }
    proof {
        assert(views(args@) =~= open_args_spec(placement, direction, workspace@, opt_seq(target))->Ok_0);
    }
    Ok(args)
}

/// Focus follows the placement on a manual open; the event never takes it.
pub fn focus_flag(is_auto: bool, placement: TogglePlacement) -> (f: &'static str)
    ensures
        f@ == if !is_auto && placement != TogglePlacement::Split {
            "--focus"@
        } else {
            "--no-focus"@
        },
{
    if !is_auto && placement != TogglePlacement::Split {
        "--focus"
    } else {
        "--no-focus"
    }
}

/// Event policy gates the event alone: it is gated when disabled or for a placement other
/// than split or tab.
pub fn auto_open_gated(auto_open: bool, placement: TogglePlacement) -> (b: bool)
    ensures
        b == (!auto_open || !(placement == TogglePlacement::Split || placement
            == TogglePlacement::Tab)),
{
    !auto_open || !(placement == TogglePlacement::Split || placement == TogglePlacement::Tab)
}

/// The manifest pane entrypoint for the platform: Windows has its own twin.
pub fn entrypoint(os: HostOs) -> (e: &'static str)
    ensures
        e@ == match os {
            HostOs::Windows => "sidebar-windows"@,
            HostOs::Unix => "sidebar"@,
        },
{
    match os {
        HostOs::Windows => "sidebar-windows",
        HostOs::Unix => "sidebar",
    }
}

/// The refusal for an open whose cwd is not a repository.
pub fn not_a_repo(cwd: &str) -> (m: String)
    ensures
        m@ == "not a git repo: '"@ + (if cwd@.len() == 0 {
            "<no cwd>"@
        } else {
            cwd@
        }) + "'"@,
{
    let mut m = owned("not a git repo: '");
    if cwd.is_empty() {
        push_str(&mut m, "<no cwd>");
    } else {
        push_str(&mut m, cwd);
    }
    push_str(&mut m, "'");
    m
}

/// ` id` for every pane whose close succeeded (or failed), in order.
pub open spec fn listed(results: Seq<(String, bool)>, ok: bool) -> Seq<char>
    decreases results.len(),
{
    if results.len() == 0 {
        Seq::empty()
    } else {
        listed(results.drop_last(), ok) + if results.last().1 == ok {
            " "@ + results.last().0@
        } else {
            Seq::empty()
        }
    }
}

/// The close sweep's report: every pane closed is `closed ... in ws`; any failure is the
/// refusal `failed to close ... in ws`.
pub fn close_report(results: &[(String, bool)], workspace: &str) -> (r: Result<String, String>)
    ensures
        match r {
            Ok(m) => listed(results@, false).len() == 0 && m@ == "closed"@ + listed(results@, true)
                + " in "@ + workspace@,
            Err(m) => listed(results@, false).len() > 0 && m@ == "failed to close"@ + listed(
                results@,
                false,
            ) + " in "@ + workspace@,
        },
{
    let mut closed = String::new();
    let mut failed = String::new();
    let mut i: usize = 0;
    while i < results.len()
        invariant
            i <= results@.len(),
            closed@ == listed(results@.take(i as int), true),
            failed@ == listed(results@.take(i as int), false),
        decreases results@.len() - i,
    {
        proof {
            assert(results@.take(i + 1).drop_last() =~= results@.take(i as int));
        }
        if results[i].1 {
            push_str(&mut closed, " ");
            push_str(&mut closed, results[i].0.as_str());
        } else {
            push_str(&mut failed, " ");
            push_str(&mut failed, results[i].0.as_str());
        }
        i = i + 1;
    }
    proof {
        assert(results@.take(results@.len() as int) =~= results@);
    }
    if failed.as_str().is_empty() {
        let mut m = owned("closed");
        push_str(&mut m, closed.as_str());
        push_str(&mut m, " in ");
        push_str(&mut m, workspace);
        Ok(m)
    } else {
        let mut m = owned("failed to close");
        push_str(&mut m, failed.as_str());
        push_str(&mut m, " in ");
        push_str(&mut m, workspace);
        Err(m)
    }
}


/// What a run does once the workspace's sidebars are listed.
#[derive(Debug, PartialEq, Eq)]
pub enum SidebarStep {
    /// `close` with nothing open: report it and succeed.
    NothingToClose { report: String },
    /// Close every listed sidebar.
    Close,
    /// Something is open already: succeed, reporting it for an explicit `open`.
    AlreadyOpen { message: Option<String> },
    /// Open a sidebar.
    Open,
}

/// What a run in `mode` does given the sidebars `existing` in `workspace`: `close` closes them
/// (or reports none), `toggle` closes them or opens one, `open` and the event open one unless
/// one is open already.
pub fn sidebar_step(mode: Mode, existing: &Vec<String>, workspace: &str) -> (st: SidebarStep)
    ensures
        match mode {
            Mode::Close => if existing@.len() == 0 {
                st matches SidebarStep::NothingToClose { report } && report@ == "close: nothing open in "@
                    + workspace@
            } else {
                st == SidebarStep::Close
            },
            Mode::Toggle => st == (if existing@.len() == 0 {
                SidebarStep::Open
            } else {
                SidebarStep::Close
            }),
            Mode::Open => if existing@.len() == 0 {
                st == SidebarStep::Open
            } else {
                st matches SidebarStep::AlreadyOpen { message: Some(m) } && m@ == "open: already open ("@
                    + join(views(existing@), " "@) + ") in "@ + workspace@
            },
            Mode::AutoOpen => st == (if existing@.len() == 0 {
                SidebarStep::Open
            } else {
                SidebarStep::AlreadyOpen { message: None }
            }),
        },
{
    match mode {
        Mode::Close => if existing.len() == 0 {
            let mut m = owned("close: nothing open in ");
            push_str(&mut m, workspace);
            SidebarStep::NothingToClose { report: m }
        } else {
            SidebarStep::Close
        },
        Mode::Toggle => if existing.len() == 0 {
            SidebarStep::Open
        } else {
            SidebarStep::Close
        },
        Mode::Open => if existing.len() == 0 {
            SidebarStep::Open
        } else {
            let mut m = owned("open: already open (");
            let ids = join_strings(existing, " ");
            push_str(&mut m, ids.as_str());
            push_str(&mut m, ") in ");
            push_str(&mut m, workspace);
            SidebarStep::AlreadyOpen { message: Some(m) }
        },
        Mode::AutoOpen => if existing.len() == 0 {
            SidebarStep::Open
        } else {
            SidebarStep::AlreadyOpen { message: None }
        },
    }
}

/// How a refusal ends a run: the event fails silently (exit 0, nothing printed); an action
/// prints the message and exits 1.
pub fn refusal_exit(is_auto: bool, message: &str) -> (r: (u8, Option<String>))
    ensures
        is_auto ==> r.0 == 0 && r.1 is None,
        !is_auto ==> r.0 == 1 && (r.1 matches Some(m) && m@ == message@),
{
    if is_auto {
        (0, None)
    } else {
        (1, Some(owned(message)))
    }
}

} // verus!

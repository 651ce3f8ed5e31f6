//! The order of a pane action's steps, as a machine from state and outside result to the next
//! state and the next outside request.
//!
//! The whole plugin config is validated first, before even the mode argument is read, so a
//! broken config is never masked by an unrelated argument mistake. The launch paths are then
//! repaired, and the auto-open event passes its gates before any workspace or pane is looked
//! at. One pane listing serves the whole run; a failed listing or an unreadable probe refuses
//! rather than reading as "no review pane". Only then does the mode react to the panes already
//! open, and an open resolves its directory, its placement, the open itself and, for a tab, the
//! tab's name. The front end performs each request and hands back its result.

use vstd::prelude::*;

use crate::json::{get_spec, Json};
use crate::pane_action::{
    choose_cwd, context_cwd, cwd_spec, event_names, existing_spec, first_cwd, focus_flag,
    focused_pane_live_cwd, opened_message, opt_seq, opt_str, opt_text, parse_event_target,
    parsed_spec, placement_args, placement_spec, probe_summary, react_to_existing, close_report,
    listed, first_present, unknown_mode, CloseOutcome, Existing, Mode, PaneEntry, Probe, Refusal,
};
use crate::placement::{ToggleDirection, TogglePlacement};
use crate::text::{owned, push_str, views};

verus! {

/// The plugin config values a pane action reads.
#[derive(Clone, Copy, Debug, PartialEq, Eq)]
pub struct ActionConfig {
    pub auto_open: bool,
    pub placement: TogglePlacement,
    pub direction: ToggleDirection,
}

/// Where an action acts: its workspace, the acting pane (empty: none), and the directory an
/// open would start in.
#[derive(Debug, PartialEq, Eq)]
pub struct ActionTarget {
    pub workspace: String,
    pub pane_id: String,
    pub cwd: Option<String>,
}

/// Where a pane action stands between two outside steps.
#[derive(Debug, PartialEq, Eq)]
pub enum ActionState {
    /// Nothing read yet; `mode_arg` is the argument the action was started with.
    Start { mode_arg: String },
    /// Config and mode are known; the launch paths are being repaired.
    Gating { mode: Mode, config: ActionConfig },
    /// Waiting for the workspace context.
    Targeting { mode: Mode, config: ActionConfig },
    /// Waiting for the workspace's pane listing.
    Listing { mode: Mode, config: ActionConfig, target: ActionTarget, context: Option<Json> },
    /// Waiting for a probe of each listed pane.
    Probing {
        mode: Mode,
        config: ActionConfig,
        target: ActionTarget,
        context: Option<Json>,
        panes: Vec<PaneEntry>,
    },
    /// Waiting for the close of every open review pane.
    Closing { mode: Mode, workspace: String },
    /// Waiting to learn which candidate directories are git checkouts.
    Checking {
        mode: Mode,
        config: ActionConfig,
        target: ActionTarget,
        panes: Vec<PaneEntry>,
        live: Option<String>,
    },
    /// Waiting for the pane open.
    Opening { mode: Mode, config: ActionConfig, workspace: String },
    /// Waiting for the new tab's rename; `message` is what the action ends with.
    Renaming { message: Option<String> },
    /// The action has ended.
    Done,
}

/// What the front end hands back after a request.
#[derive(Debug, PartialEq, Eq)]
pub enum ActionEvent {
    /// The validated config, or its validation error.
    ConfigRead(Result<ActionConfig, String>),
    /// The launch paths were repaired; for the event, whether its workspace was already open.
    Repaired { already_open: bool },
    /// The environment's workspace and pane ids (empty when unset), the parsed plugin context,
    /// and the event payload when one was given.
    ContextRead { workspace: String, pane_id: String, context: Option<Json>, event: Option<String> },
    /// The workspace's panes, or `None` when the listing failed or did not parse.
    Listed(Option<Vec<PaneEntry>>),
    /// One probe per listed pane, in listing order.
    Probed(Vec<Probe>),
    /// How each close went, in order.
    Closed(Vec<(String, CloseOutcome)>),
    /// Whether the live directory and the context directory are git checkouts.
    ReposChecked { live_is_repo: bool, cwd_is_repo: bool },
    /// The opened pane's id and its tab, or `None` when the open failed or did not parse.
    Opened(Option<(String, Option<String>)>),
    /// The tab rename ran (its outcome never fails the action).
    Renamed,
}

/// What the front end does next.
#[derive(Debug, PartialEq, Eq)]
pub enum ActionRequest {
    /// Repair the stable launch paths, then read whether the event's workspace was already open.
    RepairLaunchPaths,
    /// Read the workspace context.
    ReadContext,
    /// List the panes of this workspace.
    ListPanes(String),
    /// Probe each of these panes for the review UI.
    ProbePanes(Vec<String>),
    /// Close each of these panes.
    ClosePanes(Vec<String>),
    /// Check whether each of these directories is a git checkout.
    CheckRepos { live: Option<String>, context_cwd: Option<String> },
    /// Open the review pane with these placement arguments, in `cwd`, with this focus flag.
    OpenPane { placement: Vec<String>, cwd: String, focus: &'static str, workspace: String },
    /// Rename this tab after the plugin.
    RenameTab(String),
    /// End the action: a message to print (or none), or a refusal.
    Finish(Result<Option<String>, Refusal>),
}

/// `r` is the refusal `message` becomes in `mode`.
pub open spec fn refusal_spec(mode: Mode, message: Seq<char>, r: Refusal) -> bool {
    if mode == Mode::AutoOpen {
        r == Refusal::Silent
    } else {
        r matches Refusal::Loud(m) && m@ == message
    }
}

/// The action ends with the refusal `message` becomes in `mode`.
pub open spec fn refused(mode: Mode, message: Seq<char>, next: ActionState, req: ActionRequest)
    -> bool {
    &&& next == ActionState::Done
    &&& req matches ActionRequest::Finish(Err(r))
    &&& refusal_spec(mode, message, r)
}

/// The refusal `message` becomes in `mode`.
fn refuse(mode: Mode, message: String) -> (r: (ActionState, ActionRequest))
    ensures
        refused(mode, message@, r.0, r.1),
{
    let refusal = if mode == Mode::AutoOpen {
        Refusal::Silent
    } else {
        Refusal::Loud(message)
    };
    (ActionState::Done, ActionRequest::Finish(Err(refusal)))
}

/// `prefix` followed by `rest`.
fn concat(prefix: &str, rest: &str) -> (s: String)
    ensures
        s@ == prefix@ + rest@,
{
    let mut s = owned(prefix);
    push_str(&mut s, rest);
    s
}

/// The config is checked first, then the mode argument.
pub open spec fn begin_spec(
    mode_arg: Seq<char>,
    config: Result<ActionConfig, String>,
    next: ActionState,
    req: ActionRequest,
) -> bool {
    match config {
        Err(m) => next == ActionState::Done && req == ActionRequest::Finish(
            Err(Refusal::Loud(m)),
        ),
        Ok(c) => match Mode::named(mode_arg) {
            None => {
                &&& next == ActionState::Done
                &&& req matches ActionRequest::Finish(Err(Refusal::Loud(m)))
                &&& m@ == "unknown mode '"@ + mode_arg + "' (toggle | open | close | auto-open)"@
            },
            Some(mode) => next == (ActionState::Gating { mode, config: c })
                && req == ActionRequest::RepairLaunchPaths,
        },
    }
}

/// Start an action from the config's validation.
pub fn begin(mode_arg: &str, config: Result<ActionConfig, String>) -> (r: (ActionState, ActionRequest))
    ensures
        begin_spec(mode_arg@, config, r.0, r.1),
{
    match config {
        Err(m) => (ActionState::Done, ActionRequest::Finish(Err(Refusal::Loud(m)))),
        Ok(c) => match Mode::parse(mode_arg) {
            None => (ActionState::Done, ActionRequest::Finish(Err(unknown_mode(mode_arg)))),
            Some(mode) => (ActionState::Gating { mode, config: c }, ActionRequest::RepairLaunchPaths),
        },
    }
}

/// The event passes only when auto-open is enabled, for a split or tab placement, and when its
/// workspace was not already open; any refusal there is silent. Explicit actions pass.
pub open spec fn gate_spec(
    mode: Mode,
    c: ActionConfig,
    already_open: bool,
    next: ActionState,
    req: ActionRequest,
) -> bool {
    if mode == Mode::AutoOpen && !(c.auto_open && (c.placement == TogglePlacement::Split
        || c.placement == TogglePlacement::Tab) && !already_open) {
        next == ActionState::Done && req == ActionRequest::Finish(Err(Refusal::Silent))
    } else {
        next == (ActionState::Targeting { mode, config: c }) && req == ActionRequest::ReadContext
    }
}

/// Gate the event after the launch-path repair.
pub fn gate(mode: Mode, c: ActionConfig, already_open: bool) -> (r: (ActionState, ActionRequest))
    ensures
        gate_spec(mode, c, already_open, r.0, r.1),
{
    if mode == Mode::AutoOpen && !(c.auto_open && (c.placement == TogglePlacement::Split
        || c.placement == TogglePlacement::Tab) && !already_open) {
        (ActionState::Done, ActionRequest::Finish(Err(Refusal::Silent)))
    } else {
        (ActionState::Targeting { mode, config: c }, ActionRequest::ReadContext)
    }
}

/// The context's directory: `focused_pane_cwd`, else `workspace_cwd` (the first present),
/// when it is a string.
pub open spec fn context_dir(context: Option<Json>) -> Option<Seq<char>> {
    match context {
        Some(v) => opt_str(first_present(get_spec(v, "focused_pane_cwd"@), get_spec(v, "workspace_cwd"@))),
        None => None,
    }
}

/// Whether the workspace context comes from the event payload: only for the event, and only
/// when a payload was given.
pub open spec fn from_event(mode: Mode, event: Option<String>) -> bool {
    mode == Mode::AutoOpen && event is Some && event->0@.len() > 0
}

/// An optional text, or the empty text.
pub open spec fn or_empty(o: Option<Seq<char>>) -> Seq<char> {
    match o {
        Some(s) => s,
        None => Seq::empty(),
    }
}

/// The target the context names: the environment's workspace and pane with the context's
/// directory, or for the event the workspace and checkout its payload names, with no pane.
/// Without a workspace the action refuses; otherwise the workspace's panes are listed.
pub open spec fn target_spec(
    mode: Mode,
    c: ActionConfig,
    workspace: Seq<char>,
    pane_id: Seq<char>,
    context: Option<Json>,
    event: Option<String>,
    next: ActionState,
    req: ActionRequest,
) -> bool {
    let named = event_names(parsed_spec(event->0@));
    let ws = if from_event(mode, event) {
        or_empty(named.0)
    } else {
        workspace
    };
    let pane = if from_event(mode, event) {
        Seq::empty()
    } else {
        pane_id
    };
    let dir = if from_event(mode, event) {
        named.1
    } else {
        context_dir(context)
    };
    if ws.len() == 0 {
        refused(mode, "no workspace context (invoke from inside herdr)"@, next, req)
    } else {
        &&& next matches ActionState::Listing { mode: m, config: k, target, context: x } && m == mode
            && k == c && target.workspace@ == ws && target.pane_id@ == pane && opt_text(target.cwd)
            == dir && x == context
        &&& req matches ActionRequest::ListPanes(w) && w@ == ws
    }
}

/// Resolve the target from the workspace context.
pub fn target(
    mode: Mode,
    c: ActionConfig,
    workspace: String,
    pane_id: String,
    context: Option<Json>,
    event: Option<String>,
) -> (r: (ActionState, ActionRequest))
    ensures
        target_spec(mode, c, workspace@, pane_id@, context, event, r.0, r.1),
{
    let dir = context_cwd(
        match &context {
            Some(v) => Some(v),
            None => None,
        },
    );
    let (ws, pane, cwd) = match event {
        Some(e) => if mode == Mode::AutoOpen && !e.as_str().is_empty() {
            let t = parse_event_target(e.as_str());
            let ws = match t.workspace {
                Some(w) => w,
                None => String::new(),
            };
            (ws, String::new(), t.cwd)
        } else {
            (workspace, pane_id, dir)
        },
        None => (workspace, pane_id, dir),
    };
    proof {
        assert(ws@.len() == 0 ==> ws@ =~= Seq::<char>::empty());
    }
    if ws.as_str().is_empty() {
        return refuse(mode, owned("no workspace context (invoke from inside herdr)"));
    }
    let w = owned(ws.as_str());
    (
        ActionState::Listing { mode, config: c, target: ActionTarget { workspace: ws, pane_id: pane, cwd }, context },
        ActionRequest::ListPanes(w),
    )
}

/// The ids of the listed panes, in order.
pub open spec fn pane_ids(panes: Seq<PaneEntry>) -> Seq<Seq<char>> {
    panes.map_values(|p: PaneEntry| p.pane_id@)
}

/// The ids of the listed panes, in order.
fn ids_of(panes: &Vec<PaneEntry>) -> (ids: Vec<String>)
    ensures
        views(ids@) == pane_ids(panes@),
{
    let mut ids: Vec<String> = Vec::new();
    let mut i: usize = 0;
    while i < panes.len()
        invariant
            i <= panes@.len(),
            views(ids@) == pane_ids(panes@.take(i as int)),
        decreases panes@.len() - i,
    {
        ids.push(owned(panes[i].pane_id.as_str()));
        proof {
            assert(pane_ids(panes@.take(i + 1)) =~= pane_ids(panes@.take(i as int)).push(
                panes@[i as int].pane_id@,
            ));
            assert(views(ids@) =~= pane_ids(panes@.take(i + 1)));
        }
        i = i + 1;
    }
    proof {
        assert(panes@.take(panes@.len() as int) =~= panes@);
    }
    ids
}

/// A failed listing refuses; otherwise every listed pane is probed.
pub open spec fn listing_spec(
    mode: Mode,
    c: ActionConfig,
    target: ActionTarget,
    context: Option<Json>,
    listed: Option<Vec<PaneEntry>>,
    next: ActionState,
    req: ActionRequest,
) -> bool {
    match listed {
        None => refused(mode, "herdr pane list failed for "@ + target.workspace@, next, req),
        Some(panes) => {
            &&& next == (ActionState::Probing { mode, config: c, target, context, panes })
            &&& req matches ActionRequest::ProbePanes(ids) && views(ids@) == pane_ids(panes@)
        },
    }
}

/// Go on from the pane listing.
pub fn after_listing(
    mode: Mode,
    c: ActionConfig,
    target: ActionTarget,
    context: Option<Json>,
    listed: Option<Vec<PaneEntry>>,
) -> (r: (ActionState, ActionRequest))
    ensures
        listing_spec(mode, c, target, context, listed, r.0, r.1),
{
    match listed {
        None => refuse(mode, concat("herdr pane list failed for ", target.workspace.as_str())),
        Some(panes) => {
            let ids = ids_of(&panes);
            (ActionState::Probing { mode, config: c, target, context, panes }, ActionRequest::ProbePanes(ids))
        },
    }
}

/// The ids of the panes whose probe found the review UI, in listing order.
pub open spec fn found(panes: Seq<PaneEntry>, probes: Seq<Probe>) -> Seq<Seq<char>> {
    Seq::new(panes.len(), |i: int| i).filter(|i: int| probes[i] == Probe::Reviewr).map_values(
        |i: int| panes[i].pane_id@,
    )
}

/// The directory of the focused pane's live process, per the context, when listed and known.
pub open spec fn live_dir(context: Option<Json>, panes: Seq<PaneEntry>) -> Option<Seq<char>> {
    match context {
        Some(v) => match opt_str(get_spec(v, "focused_pane_id"@)) {
            Some(id) => first_cwd(panes, id),
            None => None,
        },
        None => None,
    }
}

/// How the action goes on from the review panes already open, once the mode has reacted.
pub open spec fn reaction_spec(
    e: Existing,
    mode: Mode,
    c: ActionConfig,
    target: ActionTarget,
    context: Option<Json>,
    panes: Seq<PaneEntry>,
    existing: Seq<Seq<char>>,
    next: ActionState,
    req: ActionRequest,
) -> bool {
    match e {
        Existing::Report(m) => next == ActionState::Done && req == ActionRequest::Finish(
            Ok(Some(m)),
        ),
        Existing::Quiet => next == ActionState::Done && req == ActionRequest::Finish(Ok(None)),
        Existing::CloseAll => {
            &&& next matches ActionState::Closing { mode: m, workspace: w } && m == mode && w@
                == target.workspace@
            &&& req matches ActionRequest::ClosePanes(ids) && views(ids@) == existing
        },
        Existing::OpenNew => {
            let live = if mode == Mode::AutoOpen {
                None
            } else {
                live_dir(context, panes)
            };
            &&& next matches ActionState::Checking { mode: m, config: k, target: t, panes: p, live: l }
                && m == mode && k == c && t == target && p@ == panes && opt_text(l) == live
            &&& req matches ActionRequest::CheckRepos { live: l, context_cwd: d } && opt_text(l)
                == live && opt_text(d) == opt_text(target.cwd)
        },
    }
}

/// Any unreadable probe refuses (it must never read as "no review pane"); otherwise the mode
/// reacts to the review panes found.
pub open spec fn probing_spec(
    mode: Mode,
    c: ActionConfig,
    target: ActionTarget,
    context: Option<Json>,
    panes: Seq<PaneEntry>,
    probes: Seq<Probe>,
    next: ActionState,
    req: ActionRequest,
) -> bool {
    if exists|i: int| 0 <= i < probes.len() && #[trigger] probes[i] == Probe::Unreadable {
        refused(mode, "herdr pane process-info failed in "@ + target.workspace@, next, req)
    } else {
        exists|e: Existing, names: Seq<String>|
            #![trigger existing_spec(mode, names, target.workspace@, e)]
            views(names) == found(panes, probes) && existing_spec(mode, names, target.workspace@, e)
                && reaction_spec(
                e,
                mode,
                c,
                target,
                context,
                panes,
                found(panes, probes),
                next,
                req,
            )
    }
}

/// An owned copy of an optional text.
fn copy_opt(o: &Option<String>) -> (r: Option<String>)
    ensures
        opt_text(r) == opt_text(*o),
{
    match o {
        Some(s) => Some(owned(s.as_str())),
        None => None,
    }
}

/// Go on from the probes.
pub fn after_probes(
    mode: Mode,
    c: ActionConfig,
    target: ActionTarget,
    context: Option<Json>,
    panes: Vec<PaneEntry>,
    probes: Vec<Probe>,
) -> (r: (ActionState, ActionRequest))
    requires
        probes@.len() == panes@.len(),
    ensures
        probing_spec(mode, c, target, context, panes@, probes@, r.0, r.1),
{
    let (existing, unreadable) = probe_summary(panes.as_slice(), probes.as_slice());
    if unreadable {
        return refuse(mode, concat("herdr pane process-info failed in ", target.workspace.as_str()));
    }
    let e = react_to_existing(mode, &existing, target.workspace.as_str());
    let ghost e0 = e;
    match e {
        Existing::Report(m) => (ActionState::Done, ActionRequest::Finish(Ok(Some(m)))),
        Existing::Quiet => (ActionState::Done, ActionRequest::Finish(Ok(None))),
        Existing::CloseAll => {
            let w = owned(target.workspace.as_str());
            (ActionState::Closing { mode, workspace: w }, ActionRequest::ClosePanes(existing))
        },
        Existing::OpenNew => {
            let live = if mode == Mode::AutoOpen {
                None
            } else {
                focused_pane_live_cwd(
                    match &context {
                        Some(v) => Some(v),
                        None => None,
                    },
                    panes.as_slice(),
                )
            };
            let l = copy_opt(&live);
            let d = copy_opt(&target.cwd);
            let r = (
                ActionState::Checking { mode, config: c, target, panes, live },
                ActionRequest::CheckRepos { live: l, context_cwd: d },
            );
            proof {
                assert(reaction_spec(e0, mode, c, target, context, panes@, found(panes@, probes@), r.0, r.1));
                assert(views(existing@) == found(panes@, probes@));
            }
            r
        },
    }
}

/// Every pane closed (or already gone) ends the action naming them; any failure refuses,
/// naming the panes that may still run.
pub open spec fn closing_spec(
    mode: Mode,
    workspace: Seq<char>,
    results: Seq<(String, CloseOutcome)>,
    next: ActionState,
    req: ActionRequest,
) -> bool {
    if listed(results, true).len() == 0 {
        &&& next == ActionState::Done
        &&& req matches ActionRequest::Finish(Ok(Some(m)))
        &&& m@ == "closed"@ + listed(results, false) + " in "@ + workspace
    } else {
        refused(mode, "herdr pane close failed for"@ + listed(results, true) + " in "@ + workspace, next, req)
    }
}

/// End the action from the close results.
pub fn after_close(mode: Mode, workspace: String, results: Vec<(String, CloseOutcome)>) -> (r: (
    ActionState,
    ActionRequest,
))
    ensures
        closing_spec(mode, workspace@, results@, r.0, r.1),
{
    match close_report(results.as_slice(), workspace.as_str()) {
        Ok(m) => (ActionState::Done, ActionRequest::Finish(Ok(Some(m)))),
        Err(failed) => {
            let mut m = concat("herdr pane close failed for", failed.as_str());
            push_str(&mut m, " in ");
            push_str(&mut m, workspace.as_str());
            refuse(mode, m)
        },
    }
}

/// The first listed pane's id.
pub open spec fn first_id(panes: Seq<PaneEntry>) -> Option<Seq<char>> {
    if panes.len() > 0 {
        Some(panes[0].pane_id@)
    } else {
        None
    }
}

/// The open's directory is the live one when it is a checkout, else the context's when it
/// is; then the placement is resolved; each failure refuses. Otherwise the pane opens.
pub open spec fn checking_spec(
    mode: Mode,
    c: ActionConfig,
    target: ActionTarget,
    panes: Seq<PaneEntry>,
    live: Option<String>,
    live_is_repo: bool,
    cwd_is_repo: bool,
    next: ActionState,
    req: ActionRequest,
) -> bool {
    match cwd_spec(opt_text(live), live_is_repo, opt_text(target.cwd), cwd_is_repo) {
        Err(m) => refused(mode, m, next, req),
        Ok(dir) => match placement_spec(c.placement, c.direction, target.pane_id@, first_id(panes)) {
            Err(m) => refused(mode, m + " in "@ + target.workspace@, next, req),
            Ok(args) => {
                &&& next matches ActionState::Opening { mode: m, config: k, workspace: w } && m
                    == mode && k == c && w@ == target.workspace@
                &&& req matches ActionRequest::OpenPane { placement: a, cwd: d, focus: f, workspace: w }
                    && views(a@) == args && d@ == dir && w@ == target.workspace@ && f@ == if mode
                    == Mode::AutoOpen {
                    "--no-focus"@
                } else {
                    "--focus"@
                }
            },
        },
    }
}

/// A borrowed view of an optional text.
fn as_deref(o: &Option<String>) -> (r: Option<&str>)
    ensures
        opt_seq(r) == opt_text(*o),
{
    match o {
        Some(s) => Some(s.as_str()),
        None => None,
    }
}

/// Go on from the directory checks.
pub fn after_repo_checks(
    mode: Mode,
    c: ActionConfig,
    target: ActionTarget,
    panes: Vec<PaneEntry>,
    live: Option<String>,
    live_is_repo: bool,
    cwd_is_repo: bool,
) -> (r: (ActionState, ActionRequest))
    ensures
        checking_spec(mode, c, target, panes@, live, live_is_repo, cwd_is_repo, r.0, r.1),
{
    let dir = match choose_cwd(as_deref(&live), live_is_repo, as_deref(&target.cwd), cwd_is_repo) {
        Ok(d) => d,
        Err(m) => {
            return refuse(mode, m);
        },
    };
    let first = if panes.len() > 0 {
        Some(panes[0].pane_id.as_str())
    } else {
        None
    };
    proof {
        assert(opt_seq(first) == first_id(panes@));
    }
    let args = match placement_args(c.placement, c.direction, target.pane_id.as_str(), first) {
        Ok(a) => a,
        Err(m) => {
            let mut msg = m;
            push_str(&mut msg, " in ");
            push_str(&mut msg, target.workspace.as_str());
            return refuse(mode, msg);
        },
    };
    let focus = focus_flag(mode);
    let w = owned(target.workspace.as_str());
    let w2 = owned(target.workspace.as_str());
    (
        ActionState::Opening { mode, config: c, workspace: w },
        ActionRequest::OpenPane { placement: args, cwd: dir, focus, workspace: w2 },
    )
}

/// A failed open (or one naming no pane) refuses. Otherwise a manual open ends naming the new
/// pane and its placement and the event ends quietly, after a tab open's tab is renamed.
pub open spec fn opening_spec(
    mode: Mode,
    c: ActionConfig,
    workspace: Seq<char>,
    opened: Option<(String, Option<String>)>,
    next: ActionState,
    req: ActionRequest,
) -> bool {
    match opened {
        Some((id, tab)) if id@.len() > 0 => {
            let message = if mode == Mode::AutoOpen {
                None
            } else {
                Some("opened "@ + id@ + " ("@ + c.placement.spelling() + ") in "@ + workspace)
            };
            if c.placement == TogglePlacement::Tab && tab is Some {
                &&& next matches ActionState::Renaming { message: m } && opt_text(m) == message
                &&& req matches ActionRequest::RenameTab(t) && t@ == tab->0@
            } else {
                &&& next == ActionState::Done
                &&& req matches ActionRequest::Finish(Ok(m)) && opt_text(m) == message
            }
        },
        _ => refused(mode, "herdr plugin pane open failed"@, next, req),
    }
}

/// Go on from the open.
pub fn after_open(mode: Mode, c: ActionConfig, workspace: String, opened: Option<(String, Option<String>)>)
    -> (r: (ActionState, ActionRequest))
    ensures
        opening_spec(mode, c, workspace@, opened, r.0, r.1),
{
    match opened {
        Some((id, tab)) => {
            if id.as_str().is_empty() {
                return refuse(mode, owned("herdr plugin pane open failed"));
            }
            let message = opened_message(mode, id.as_str(), c.placement, workspace.as_str());
            match tab {
                Some(t) => if c.placement == TogglePlacement::Tab {
                    (ActionState::Renaming { message }, ActionRequest::RenameTab(t))
                } else {
                    (ActionState::Done, ActionRequest::Finish(Ok(message)))
                },
                None => (ActionState::Done, ActionRequest::Finish(Ok(message))),
            }
        },
        None => refuse(mode, owned("herdr plugin pane open failed")),
    }
}

/// Whether `event` answers the request that left the action in `state`.
pub open spec fn fits(state: ActionState, event: ActionEvent) -> bool {
    match state {
        ActionState::Start { .. } => event is ConfigRead,
        ActionState::Gating { .. } => event is Repaired,
        ActionState::Targeting { .. } => event is ContextRead,
        ActionState::Listing { .. } => event is Listed,
        ActionState::Probing { panes, .. } => event matches ActionEvent::Probed(probes)
            && probes@.len() == panes@.len(),
        ActionState::Closing { .. } => event is Closed,
        ActionState::Checking { .. } => event is ReposChecked,
        ActionState::Opening { .. } => event is Opened,
        ActionState::Renaming { .. } => event is Renamed,
        ActionState::Done => false,
    }
}

/// The transition from `state` on `event` to `next` with request `req`.
pub open spec fn step_spec(state: ActionState, event: ActionEvent, next: ActionState, req: ActionRequest)
    -> bool {
    match (state, event) {
        (ActionState::Start { mode_arg }, ActionEvent::ConfigRead(config)) => begin_spec(
            mode_arg@,
            config,
            next,
            req,
        ),
        (ActionState::Gating { mode, config }, ActionEvent::Repaired { already_open }) => gate_spec(
            mode,
            config,
            already_open,
            next,
            req,
        ),
        (
            ActionState::Targeting { mode, config },
            ActionEvent::ContextRead { workspace, pane_id, context, event },
        ) => target_spec(mode, config, workspace@, pane_id@, context, event, next, req),
        (ActionState::Listing { mode, config, target, context }, ActionEvent::Listed(listed)) => listing_spec(
            mode,
            config,
            target,
            context,
            listed,
            next,
            req,
        ),
        (
            ActionState::Probing { mode, config, target, context, panes },
            ActionEvent::Probed(probes),
        ) => probing_spec(mode, config, target, context, panes@, probes@, next, req),
        (ActionState::Closing { mode, workspace }, ActionEvent::Closed(results)) => closing_spec(
            mode,
            workspace@,
            results@,
            next,
            req,
        ),
        (
            ActionState::Checking { mode, config, target, panes, live },
            ActionEvent::ReposChecked { live_is_repo, cwd_is_repo },
        ) => checking_spec(mode, config, target, panes@, live, live_is_repo, cwd_is_repo, next, req),
        (ActionState::Opening { mode, config, workspace }, ActionEvent::Opened(opened)) => opening_spec(
            mode,
            config,
            workspace@,
            opened,
            next,
            req,
        ),
        (ActionState::Renaming { message }, ActionEvent::Renamed) => next == ActionState::Done
            && req == ActionRequest::Finish(Ok(message)),
        _ => false,
    }
}

/// One step of a pane action: from where it stands and what the last request gave back, to
/// where it stands next and what to do next.
pub fn step(state: ActionState, event: ActionEvent) -> (r: (ActionState, ActionRequest))
    requires
        fits(state, event),
    ensures
        step_spec(state, event, r.0, r.1),
{
    match state {
        ActionState::Start { mode_arg } => match event {
            ActionEvent::ConfigRead(config) => begin(mode_arg.as_str(), config),
            _ => (ActionState::Done, ActionRequest::Finish(Err(Refusal::Silent))),
        },
        ActionState::Gating { mode, config } => match event {
            ActionEvent::Repaired { already_open } => gate(mode, config, already_open),
            _ => (ActionState::Done, ActionRequest::Finish(Err(Refusal::Silent))),
        },
        ActionState::Targeting { mode, config } => match event {
            ActionEvent::ContextRead { workspace, pane_id, context, event } => target(
                mode,
                config,
                workspace,
                pane_id,
                context,
                event,
            ),
            _ => (ActionState::Done, ActionRequest::Finish(Err(Refusal::Silent))),
        },
        ActionState::Listing { mode, config, target, context } => match event {
            ActionEvent::Listed(listed) => after_listing(mode, config, target, context, listed),
            _ => (ActionState::Done, ActionRequest::Finish(Err(Refusal::Silent))),
        },
        ActionState::Probing { mode, config, target, context, panes } => match event {
            ActionEvent::Probed(probes) => after_probes(mode, config, target, context, panes, probes),
            _ => (ActionState::Done, ActionRequest::Finish(Err(Refusal::Silent))),
        },
        ActionState::Closing { mode, workspace } => match event {
            ActionEvent::Closed(results) => after_close(mode, workspace, results),
            _ => (ActionState::Done, ActionRequest::Finish(Err(Refusal::Silent))),
        },
        ActionState::Checking { mode, config, target, panes, live } => match event {
            ActionEvent::ReposChecked { live_is_repo, cwd_is_repo } => after_repo_checks(
                mode,
                config,
                target,
                panes,
                live,
                live_is_repo,
                cwd_is_repo,
            ),
            _ => (ActionState::Done, ActionRequest::Finish(Err(Refusal::Silent))),
        },
        ActionState::Opening { mode, config, workspace } => match event {
            ActionEvent::Opened(opened) => after_open(mode, config, workspace, opened),
            _ => (ActionState::Done, ActionRequest::Finish(Err(Refusal::Silent))),
        },
        ActionState::Renaming { message } => (ActionState::Done, ActionRequest::Finish(Ok(message))),
        ActionState::Done => (ActionState::Done, ActionRequest::Finish(Err(Refusal::Silent))),
    }
}

/// The mode an action in `state` runs in, once known.
pub open spec fn mode_of(state: ActionState) -> Option<Mode> {
    match state {
        ActionState::Gating { mode, .. } => Some(mode),
        ActionState::Targeting { mode, .. } => Some(mode),
        ActionState::Listing { mode, .. } => Some(mode),
        ActionState::Probing { mode, .. } => Some(mode),
        ActionState::Closing { mode, .. } => Some(mode),
        ActionState::Checking { mode, .. } => Some(mode),
        ActionState::Opening { mode, .. } => Some(mode),
        _ => None,
    }
}

/// Once its mode is known, the auto-open event never refuses loudly: whatever step it is at
/// and whatever comes back, its refusals are silent.
pub proof fn law_event_refuses_silently(
    state: ActionState,
    event: ActionEvent,
    next: ActionState,
    req: ActionRequest,
)
    requires
        fits(state, event),
        step_spec(state, event, next, req),
        mode_of(state) == Some(Mode::AutoOpen),
    ensures
        !(req matches ActionRequest::Finish(Err(Refusal::Loud(_)))),
{
    match state {
        ActionState::Probing { mode, config, target, context, panes } => {
            let probes = event->Probed_0;
            if !(exists|i: int| 0 <= i < probes@.len() && #[trigger] probes@[i] == Probe::Unreadable) {
                let (e, names) = choose|e: Existing, names: Seq<String>|
                    #![trigger existing_spec(mode, names, target.workspace@, e)]
                    views(names) == found(panes@, probes@) && existing_spec(
                        mode,
                        names,
                        target.workspace@,
                        e,
                    ) && reaction_spec(e, mode, config, target, context, panes@, found(panes@, probes@), next, req);
                assert(existing_spec(mode, names, target.workspace@, e));
            }
        },
        _ => {},
    }
}

/// A step leaves the action done exactly when its request is to finish.
pub proof fn law_only_a_finish_ends_the_action(
    state: ActionState,
    event: ActionEvent,
    next: ActionState,
    req: ActionRequest,
)
    requires
        fits(state, event),
        step_spec(state, event, next, req),
    ensures
        (next == ActionState::Done) == (req is Finish),
{
    match state {
        ActionState::Probing { mode, config, target, context, panes } => {
            let probes = event->Probed_0;
            if !(exists|i: int| 0 <= i < probes@.len() && #[trigger] probes@[i] == Probe::Unreadable) {
                let (e, names) = choose|e: Existing, names: Seq<String>|
                    #![trigger existing_spec(mode, names, target.workspace@, e)]
                    views(names) == found(panes@, probes@) && existing_spec(
                        mode,
                        names,
                        target.workspace@,
                        e,
                    ) && reaction_spec(e, mode, config, target, context, panes@, found(panes@, probes@), next, req);
                assert(existing_spec(mode, names, target.workspace@, e));
            }
        },
        _ => {},
    }
}

} // verus!

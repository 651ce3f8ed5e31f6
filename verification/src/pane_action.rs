//! The pane-action state machine's decisions: `toggle` / `open` / `close` and the worktree
//! auto-open event. Which processes count as the review UI, how a mode reacts to the panes
//! already open, which cwd an open uses, the placement and open arguments, and the messages a
//! run ends with, and the reading of herdr's replies and payload texts. Reading the environment
//! and calling herdr is the application's work; it hands each reply to the function that reads
//! it, and [`crate::pane_flow`] orders the steps.

use vstd::prelude::*;

use crate::herdr::{envelope, opt_chars, opt_member, text_member};
use crate::json::{bool_spec, get_spec, json_parse, parse_json, str_spec, Json};
use crate::placement::{HostOs, ToggleDirection, TogglePlacement};
use crate::text::{
    ascii_lower_seq, contains_seq, contains_str, eq_ignore_ascii_case, eq_ignore_case_spec,
    has_prefix, join, join_strings, owned, push_str, push_string, str_eq, to_ascii_lowercase,
    to_chars, views,
};

verus! {

/// Recognized anywhere in argv: a process invoked with this flag is orchestration, never the
/// review UI.
pub const FLAG: &'static str = "--pane-action";

/// One action mode.
#[derive(Clone, Copy, Debug, PartialEq, Eq, Structural)]
pub enum Mode {
    Toggle,
    Open,
    Close,
    AutoOpen,
}

impl Mode {
    /// The mode an argument names.
    pub open spec fn named(s: Seq<char>) -> Option<Mode> {
        if s == "toggle"@ {
            Some(Mode::Toggle)
        } else if s == "open"@ {
            Some(Mode::Open)
        } else if s == "close"@ {
            Some(Mode::Close)
        } else if s == "auto-open"@ {
            Some(Mode::AutoOpen)
        } else {
            None
        }
    }

    /// Parse a mode argument.
    pub fn parse(s: &str) -> (m: Option<Mode>)
        ensures
            m == Mode::named(s@),
    {
        if str_eq(s, "toggle") {
            Some(Mode::Toggle)
        } else if str_eq(s, "open") {
            Some(Mode::Open)
        } else if str_eq(s, "close") {
            Some(Mode::Close)
        } else if str_eq(s, "auto-open") {
            Some(Mode::AutoOpen)
        } else {
            None
        }
    }
}

/// A manual action's refusal prints one stderr line and exits 1; an auto-open event's runtime
/// refusal is silent.
#[derive(Debug, PartialEq, Eq)]
pub enum Refusal {
    Silent,
    Loud(String),
}

impl Refusal {
    /// The refusal `message` becomes in `mode`: silent for the event, loud otherwise.
    pub fn for_mode(mode: Mode, message: String) -> (r: Refusal)
        ensures
            mode == Mode::AutoOpen ==> r == Refusal::Silent,
            mode != Mode::AutoOpen ==> r == Refusal::Loud(message),
    {
        if mode == Mode::AutoOpen {
            Refusal::Silent
        } else {
            Refusal::Loud(message)
        }
    }
}

/// The refusal for an argument that names no mode.
pub fn unknown_mode(arg: &str) -> (r: Refusal)
    ensures
        r matches Refusal::Loud(m) && m@ == "unknown mode '"@ + arg@
            + "' (toggle | open | close | auto-open)"@,
{
    let mut m = owned("unknown mode '");
    push_str(&mut m, arg);
    push_str(&mut m, "' (toggle | open | close | auto-open)");
    Refusal::Loud(m)
}

/// The last path segment of `s` after `/` or `\`.
pub open spec fn base_name(s: Seq<char>) -> Seq<char>
    decreases s.len(),
{
    if s.len() == 0 {
        s
    } else if s.last() == '/' || s.last() == '\\' {
        Seq::empty()
    } else {
        base_name(s.drop_last()).push(s.last())
    }
}

/// Whether `path` names the review binary: its base name, after an optional `\\?\` prefix,
/// is `herdr-reviewr` or `herdr-reviewr.exe`, compared ASCII-case-insensitively.
pub open spec fn names_binary_spec(path: Seq<char>) -> bool {
    let stripped = if has_prefix(path, "\\\\?\\"@) {
        path.skip(4)
    } else {
        path
    };
    let base = base_name(stripped);
    eq_ignore_case_spec(base, "herdr-reviewr"@) || eq_ignore_case_spec(base, "herdr-reviewr.exe"@)
}

/// Whether `path` (an `argv0` or `argv[0]`) names the review binary.
pub fn names_reviewr_binary(path: &str) -> (b: bool)
    ensures
        b == names_binary_spec(path@),
{
    let cs = to_chars(path);
    let prefix = to_chars("\\\\?\\");
    let strip = crate::text::starts_with(path, "\\\\?\\");
    proof {
        reveal_strlit("\\\\?\\");
    }
    let start: usize = if strip {
        4
    } else {
        0
    };
    let mut from = start;
    let mut i = start;
    while i < cs.len()
        invariant
            cs@ == path@,
            start <= from <= i <= cs@.len(),
            start <= cs@.len(),
            base_name(cs@.subrange(start as int, i as int)) == cs@.subrange(from as int, i as int),
        decreases cs@.len() - i,
    {
        proof {
            assert(cs@.subrange(start as int, i + 1).drop_last() =~= cs@.subrange(
                start as int,
                i as int,
            ));
        }
        if cs[i] == '/' || cs[i] == '\\' {
            from = i + 1;
            proof {
                assert(cs@.subrange(from as int, i + 1) =~= Seq::<char>::empty());
            }
        } else {
            proof {
                assert(cs@.subrange(from as int, i + 1) =~= cs@.subrange(from as int, i as int).push(
                    cs@[i as int],
                ));
            }
        }
        i = i + 1;
    }
    let mut base = String::new();
    let mut k = from;
    while k < cs.len()
        invariant
            from <= k <= cs@.len(),
            base@ == cs@.subrange(from as int, k as int),
        decreases cs@.len() - k,
    {
        crate::text::push_char(&mut base, cs[k]);
        proof {
            assert(base@ =~= cs@.subrange(from as int, k + 1));
        }
        k = k + 1;
    }
    proof {
        if strip {
            assert(cs@.subrange(4, cs@.len() as int) =~= path@.skip(4));
        } else {
            assert(cs@.subrange(0, cs@.len() as int) =~= path@);
        }
    }
    eq_ignore_ascii_case(base.as_str(), "herdr-reviewr") || eq_ignore_ascii_case(
        base.as_str(),
        "herdr-reviewr.exe",
    )
}

/// Whether an argument list runs an internal, non-UI command.
pub open spec fn internal_spec(argv: Seq<String>) -> bool {
    exists|i: int|
        0 <= i < argv.len() && ((#[trigger] argv[i])@ == "--resolve-plugin-config"@ || argv[i]@
            == FLAG@)
}

/// A process running an internal command (`--resolve-plugin-config`, `--pane-action`) never
/// counts as the review UI.
pub fn is_internal_command(argv: &[String]) -> (b: bool)
    ensures
        b == internal_spec(argv@),
{
    let mut i: usize = 0;
    while i < argv.len()
        invariant
            i <= argv@.len(),
            forall|k: int|
                0 <= k < i ==> !((#[trigger] argv@[k])@ == "--resolve-plugin-config"@ || argv@[k]@
                    == FLAG@),
        decreases argv@.len() - i,
    {
        if str_eq(argv[i].as_str(), "--resolve-plugin-config") || str_eq(argv[i].as_str(), FLAG) {
            return true;
        }
        i = i + 1;
    }
    false
}

/// Whether an argument list is the Windows pane launcher: a PowerShell wrapper whose command
/// names both the plugin root variable and the review binary.
pub open spec fn launcher_spec(argv: Seq<String>) -> bool {
    exists|i: int|
        0 <= i < argv.len() && contains_seq(
            ascii_lower_seq((#[trigger] argv[i])@),
            "$env:herdr_plugin_root"@,
        ) && contains_seq(ascii_lower_seq(argv[i]@), "herdr-reviewr.exe"@)
}

/// Whether `argv` is the Windows pane launcher's PowerShell wrapper.
pub fn is_windows_pane_launcher(argv: &[String]) -> (b: bool)
    ensures
        b == launcher_spec(argv@),
{
    let mut i: usize = 0;
    while i < argv.len()
        invariant
            i <= argv@.len(),
            forall|k: int|
                0 <= k < i ==> !(contains_seq(
                    ascii_lower_seq((#[trigger] argv@[k])@),
                    "$env:herdr_plugin_root"@,
                ) && contains_seq(ascii_lower_seq(argv@[k]@), "herdr-reviewr.exe"@)),
        decreases argv@.len() - i,
    {
        let lower = to_ascii_lowercase(argv[i].as_str());
        if contains_str(lower.as_str(), "$env:herdr_plugin_root") && contains_str(
            lower.as_str(),
            "herdr-reviewr.exe",
        ) {
            return true;
        }
        i = i + 1;
    }
    false
}

/// One foreground process of a pane, as `herdr pane process-info` reports it.
#[derive(Clone, Debug, PartialEq, Eq)]
pub struct ForegroundProcess {
    pub argv0: Option<String>,
    pub argv: Vec<String>,
}

/// Whether a process is the review UI: identified by its executable (`argv0` or `argv[0]`, or
/// on Windows the pane launcher wrapper) and not running an internal command.
pub open spec fn process_is_ui(os: HostOs, p: ForegroundProcess) -> bool {
    let identified = (p.argv0 is Some && names_binary_spec(p.argv0->0@)) || (p.argv@.len() > 0
        && names_binary_spec(p.argv@[0]@)) || (os == HostOs::Windows && launcher_spec(p.argv@));
    identified && !internal_spec(p.argv@)
}

/// Whether any of a pane's foreground processes is the review UI.
pub fn is_reviewr_pane(os: HostOs, processes: &[ForegroundProcess]) -> (b: bool)
    ensures
        b == exists|i: int| 0 <= i < processes@.len() && process_is_ui(os, #[trigger] processes@[i]),
{
    let mut i: usize = 0;
    while i < processes.len()
        invariant
            i <= processes@.len(),
            forall|k: int| 0 <= k < i ==> !process_is_ui(os, #[trigger] processes@[k]),
        decreases processes@.len() - i,
    {
        let p = &processes[i];
        let by_argv0 = match &p.argv0 {
            Some(a) => names_reviewr_binary(a.as_str()),
            None => false,
        };
        let by_first = p.argv.len() > 0 && names_reviewr_binary(p.argv[0].as_str());
        let by_launcher = os == HostOs::Windows && is_windows_pane_launcher(p.argv.as_slice());
        if (by_argv0 || by_first || by_launcher) && !is_internal_command(p.argv.as_slice()) {
            return true;
        }
        i = i + 1;
    }
    false
}

/// The value a JSON pointer of member names reaches, if every step is present.
pub open spec fn pointer_spec(v: Json, keys: Seq<Seq<char>>) -> Option<Json>
    decreases keys.len(),
{
    if keys.len() == 0 {
        Some(v)
    } else {
        match get_spec(v, keys[0]) {
            Some(x) => pointer_spec(x, keys.drop_first()),
            None => None,
        }
    }
}

/// The text of an optionally present value, if it is a string.
pub open spec fn opt_str(o: Option<Json>) -> Option<Seq<char>> {
    match o {
        Some(x) => str_spec(x),
        None => None,
    }
}

/// The value two member steps below `v`.
fn pointer2<'a>(v: &'a Json, a: &str, b: &str) -> (out: Option<&'a Json>)
    ensures
        match out {
            Some(x) => pointer_spec(*v, seq![a@, b@]) == Some(*x),
            None => pointer_spec(*v, seq![a@, b@]) is None,
        },
{
    proof {
        reveal_with_fuel(pointer_spec, 3);
        assert(seq![a@, b@].drop_first() =~= seq![b@]);
        assert(seq![b@].drop_first() =~= Seq::<Seq<char>>::empty());
    }
    match v.get(a) {
        Some(x) => x.get(b),
        None => None,
    }
}

/// The value three member steps below `v`.
fn pointer3<'a>(v: &'a Json, a: &str, b: &str, c: &str) -> (out: Option<&'a Json>)
    ensures
        match out {
            Some(x) => pointer_spec(*v, seq![a@, b@, c@]) == Some(*x),
            None => pointer_spec(*v, seq![a@, b@, c@]) is None,
        },
{
    proof {
        reveal_with_fuel(pointer_spec, 4);
        assert(seq![a@, b@, c@].drop_first() =~= seq![b@, c@]);
        assert(seq![b@, c@].drop_first() =~= seq![c@]);
        assert(seq![c@].drop_first() =~= Seq::<Seq<char>>::empty());
    }
    match v.get(a) {
        Some(x) => match x.get(b) {
            Some(y) => y.get(c),
            None => None,
        },
        None => None,
    }
}

/// A present value's text, as an owned string, if it is a string.
fn owned_str(o: Option<&Json>) -> (out: Option<String>)
    ensures
        match out {
            Some(s) => opt_str(match o {
                Some(x) => Some(*x),
                None => None,
            }) == Some(s@),
            None => opt_str(match o {
                Some(x) => Some(*x),
                None => None,
            }) is None,
        },
{
    match o {
        Some(x) => match x.as_str() {
            Some(t) => Some(owned(t)),
            None => None,
        },
        None => None,
    }
}

/// An optional string's text.
pub open spec fn opt_text(o: Option<String>) -> Option<Seq<char>> {
    match o {
        Some(s) => Some(s@),
        None => None,
    }
}

/// The workspace and checkout a worktree event names.
#[derive(Debug, PartialEq, Eq)]
pub struct EventTarget {
    pub workspace: Option<String>,
    pub cwd: Option<String>,
}

/// The first of two pointers that is present.
pub open spec fn first_present(a: Option<Json>, b: Option<Json>) -> Option<Json> {
    match a {
        Some(x) => Some(x),
        None => b,
    }
}

/// What a worktree event names: its workspace (`data.workspace.workspace_id`, else
/// `data.worktree.open_workspace_id`) and checkout (`data.workspace.worktree.checkout_path`,
/// else `data.worktree.path`), each when the first present of the two is a string; nothing
/// when the event did not parse.
pub open spec fn event_names(event: Option<Json>) -> (Option<Seq<char>>, Option<Seq<char>>) {
    match event {
        None => (None, None),
        Some(v) => {
            let data = get_spec(v, "data"@);
            let on = |keys: Seq<Seq<char>>| match data {
                Some(d) => pointer_spec(d, keys),
                None => None,
            };
            (
                opt_str(
                    first_present(
                        on(seq!["workspace"@, "workspace_id"@]),
                        on(seq!["worktree"@, "open_workspace_id"@]),
                    ),
                ),
                opt_str(
                    first_present(
                        on(seq!["workspace"@, "worktree"@, "checkout_path"@]),
                        on(seq!["worktree"@, "path"@]),
                    ),
                ),
            )
        },
    }
}

/// Whether `t` holds what a worktree event names.
pub open spec fn event_target_spec(event: Option<Json>, t: EventTarget) -> bool {
    (opt_text(t.workspace), opt_text(t.cwd)) == event_names(event)
}

/// What a worktree event names (`None`: the event did not parse).
pub fn event_target(event: Option<&Json>) -> (t: EventTarget)
    ensures
        event_target_spec(
            match event {
                Some(v) => Some(*v),
                None => None,
            },
            t,
        ),
{
    match event {
        None => EventTarget { workspace: None, cwd: None },
        Some(v) => match v.get("data") {
            None => EventTarget { workspace: None, cwd: None },
            Some(d) => {
                let w = match pointer2(d, "workspace", "workspace_id") {
                    Some(x) => Some(x),
                    None => pointer2(d, "worktree", "open_workspace_id"),
                };
                let c = match pointer3(d, "workspace", "worktree", "checkout_path") {
                    Some(x) => Some(x),
                    None => pointer2(d, "worktree", "path"),
                };
                EventTarget { workspace: owned_str(w), cwd: owned_str(c) }
            },
        },
    }
}

/// Whether the event says the workspace was already open: `data.already_open` is `true`.
pub fn event_already_open(event: Option<&Json>) -> (b: bool)
    ensures
        b == match event {
            Some(v) => match pointer_spec(*v, seq!["data"@, "already_open"@]) {
                Some(x) => bool_spec(x) == Some(true),
                None => false,
            },
            None => false,
        },
{
    match event {
        Some(v) => match pointer2(v, "data", "already_open") {
            Some(x) => match x.as_bool() {
                Some(b) => b,
                None => false,
            },
            None => false,
        },
        None => false,
    }
}

/// The cwd the plugin context names: `focused_pane_cwd`, else `workspace_cwd` (the first
/// present), when it is a string.
pub fn context_cwd(context: Option<&Json>) -> (c: Option<String>)
    ensures
        opt_text(c) == match context {
            Some(v) => opt_str(first_present(
                get_spec(*v, "focused_pane_cwd"@),
                get_spec(*v, "workspace_cwd"@),
            )),
            None => None,
        },
{
    match context {
        Some(v) => {
            let x = match v.get("focused_pane_cwd") {
                Some(x) => Some(x),
                None => v.get("workspace_cwd"),
            };
            owned_str(x)
        },
        None => None,
    }
}

/// A parse outcome as an optional document (`None`: not JSON).
pub open spec fn parsed_spec(text: Seq<char>) -> Option<Json> {
    match json_parse(text) {
        Ok(v) => Some(v),
        Err(_) => None,
    }
}

/// The plugin context payload parsed once per run, to be threaded to every reader
/// (`None` when it is not JSON).
pub fn parse_context(context: &str) -> (r: Option<Json>)
    ensures
        r == parsed_spec(context@),
{
    match parse_json(context) {
        Ok(v) => Some(v),
        Err(_) => None,
    }
}

/// What a worktree event payload names; a payload that is not JSON names nothing.
pub fn parse_event_target(event: &str) -> (t: EventTarget)
    ensures
        event_target_spec(parsed_spec(event@), t),
{
    match parse_context(event) {
        Some(v) => event_target(Some(&v)),
        None => event_target(None),
    }
}

/// Whether an event payload says the workspace was already open (`false` when it is not
/// JSON).
pub fn already_open_in(event: &str) -> (b: bool)
    ensures
        b == match parsed_spec(event@) {
            Some(v) => match pointer_spec(v, seq!["data"@, "already_open"@]) {
                Some(x) => bool_spec(x) == Some(true),
                None => false,
            },
            None => false,
        },
{
    match parse_context(event) {
        Some(v) => event_already_open(Some(&v)),
        None => event_already_open(None),
    }
}

/// One listed pane: its id and the cwd of its foreground process, when known.
#[derive(Clone, Debug, PartialEq, Eq)]
pub struct PaneEntry {
    pub pane_id: String,
    pub foreground_cwd: Option<String>,
}

/// The cwd of the first listed pane with id `id`, when known.
pub open spec fn first_cwd(panes: Seq<PaneEntry>, id: Seq<char>) -> Option<Seq<char>>
    decreases panes.len(),
{
    if panes.len() == 0 {
        None
    } else if panes[0].pane_id@ == id {
        opt_text(panes[0].foreground_cwd)
    } else {
        first_cwd(panes.drop_first(), id)
    }
}

/// The live cwd of the pane the plugin context says is focused: the first listed pane with
/// that id, if its cwd is known.
pub fn focused_pane_live_cwd(context: Option<&Json>, panes: &[PaneEntry]) -> (c: Option<String>)
    ensures
        opt_text(c) == match context {
            Some(v) => match opt_str(get_spec(*v, "focused_pane_id"@)) {
                Some(id) => first_cwd(panes@, id),
                None => None,
            },
            None => None,
        },
{
    let v = match context {
        Some(v) => v,
        None => {
            return None;
        },
    };
    let id = match v.get("focused_pane_id") {
        Some(x) => match x.as_str() {
            Some(t) => t,
            None => {
                return None;
            },
        },
        None => {
            return None;
        },
    };
    let mut i: usize = 0;
    proof {
        assert(panes@.skip(0) =~= panes@);
    }
    while i < panes.len()
        invariant
            i <= panes@.len(),
            first_cwd(panes@, id@) == first_cwd(panes@.skip(i as int), id@),
            context == Some(v),
            opt_str(get_spec(*v, "focused_pane_id"@)) == Some(id@),
        decreases panes@.len() - i,
    {
        proof {
            assert(panes@.skip(i as int).drop_first() =~= panes@.skip(i + 1));
            assert(panes@.skip(i as int)[0] == panes@[i as int]);
        }
        if str_eq(panes[i].pane_id.as_str(), id) {
            proof {
                assert(first_cwd(panes@.skip(i as int), id@) == opt_text(
                    panes@[i as int].foreground_cwd,
                ));
            }
            let r = match &panes[i].foreground_cwd {
                Some(c) => Some(owned(c.as_str())),
                None => None,
            };
            assert(opt_text(r) == opt_text(panes@[i as int].foreground_cwd));
            return r;
        }
        i = i + 1;
    }
    None
}

/// How reading one pane's processes went.
#[derive(Clone, Copy, Debug, PartialEq, Eq, Structural)]
pub enum Probe {
    Reviewr,
    NotReviewr,
    Unreadable,
}

/// What one pane's process read shows: its foreground processes (`None`: the reply had no
/// `foreground_processes` list), or herdr's error. A pane gone between the listing and the read
/// (`pane_not_found`) is not the review UI; any other failure, and a reply of the wrong shape,
/// is unreadable.
pub fn probe_outcome(os: HostOs, read: Result<Option<Vec<ForegroundProcess>>, String>) -> (p: Probe)
    ensures
        p == match read {
            Ok(Some(ps)) => if exists|i: int| 0 <= i < ps@.len() && process_is_ui(os, #[trigger] ps@[i]) {
                Probe::Reviewr
            } else {
                Probe::NotReviewr
            },
            Ok(None) => Probe::Unreadable,
            Err(e) => if contains_seq(e@, "pane_not_found"@) {
                Probe::NotReviewr
            } else {
                Probe::Unreadable
            },
        },
{
    match read {
        Ok(Some(ps)) => if is_reviewr_pane(os, ps.as_slice()) {
            Probe::Reviewr
        } else {
            Probe::NotReviewr
        },
        Ok(None) => Probe::Unreadable,
        Err(e) => if contains_str(e.as_str(), "pane_not_found") {
            Probe::NotReviewr
        } else {
            Probe::Unreadable
        },
    }
}

/// The panes whose probe found the review UI, in listing order, and whether any probe was
/// unreadable.
pub fn probe_summary(panes: &[PaneEntry], probes: &[Probe]) -> (r: (Vec<String>, bool))
    requires
        probes@.len() == panes@.len(),
    ensures
        views(r.0@) == Seq::new(panes@.len(), |i: int| i).filter(|i: int| probes@[i] == Probe::Reviewr).map_values(
            |i: int| panes@[i].pane_id@,
        ),
        r.1 == exists|i: int| 0 <= i < probes@.len() && #[trigger] probes@[i] == Probe::Unreadable,
{
    let ghost idx = Seq::new(panes@.len(), |i: int| i);
    let ghost keep = |i: int| probes@[i] == Probe::Reviewr;
    let mut existing: Vec<String> = Vec::new();
    let mut unreadable = false;
    let mut i: usize = 0;
    while i < panes.len()
        invariant
            i <= panes@.len(),
            probes@.len() == panes@.len(),
            idx == Seq::new(panes@.len(), |i: int| i),
            keep == (|i: int| probes@[i] == Probe::Reviewr),
            views(existing@) == idx.take(i as int).filter(keep).map_values(|i: int| panes@[i].pane_id@),
            unreadable == exists|j: int| 0 <= j < i && #[trigger] probes@[j] == Probe::Unreadable,
        decreases panes@.len() - i,
    {
        proof {
            assert(idx.take(i + 1) =~= idx.take(i as int).push(i as int));
            idx.take(i as int).lemma_filter_push(i as int, keep);
        }
        match probes[i] {
            Probe::Reviewr => {
                push_string(&mut existing, owned(panes[i].pane_id.as_str()));
                proof {
                    assert(views(existing@) =~= idx.take(i + 1).filter(keep).map_values(
                        |i: int| panes@[i].pane_id@,
                    ));
                }
            },
            Probe::NotReviewr => {},
            Probe::Unreadable => {
                unreadable = true;
            },
        }
        i = i + 1;
    }
    proof {
        assert(idx.take(panes@.len() as int) =~= idx);
    }
    (existing, unreadable)
}

/// Event policy gates the auto-open event alone: it proceeds only when enabled, for a split or
/// tab placement, and when its workspace was not already open.
pub fn auto_open_proceeds(auto_open: bool, placement: TogglePlacement, already_open: bool) -> (b:
    bool)
    ensures
        b == (auto_open && (placement == TogglePlacement::Split || placement == TogglePlacement::Tab)
            && !already_open),
{
    auto_open && (placement == TogglePlacement::Split || placement == TogglePlacement::Tab)
        && !already_open
}

/// What a mode does with the review panes already open in the workspace.
#[derive(Debug, PartialEq, Eq)]
pub enum Existing {
    /// Nothing blocks an open: go on to open one.
    OpenNew,
    /// Close every existing pane.
    CloseAll,
    /// End with this message.
    Report(String),
    /// End quietly.
    Quiet,
}

/// The reaction to `existing` review panes: close closes them (or reports nothing open),
/// toggle closes them or opens, open reports them or opens, the event opens only when none is
/// open.
pub open spec fn existing_spec(mode: Mode, existing: Seq<String>, workspace: Seq<char>, e: Existing) -> bool {
    match mode {
        Mode::Close => if existing.len() == 0 {
            e matches Existing::Report(m) && m@ == "close: nothing open in "@ + workspace
        } else {
            e == Existing::CloseAll
        },
        Mode::Toggle => if existing.len() == 0 {
            e == Existing::OpenNew
        } else {
            e == Existing::CloseAll
        },
        Mode::Open => if existing.len() == 0 {
            e == Existing::OpenNew
        } else {
            e matches Existing::Report(m) && m@ == "open: already open ("@ + join(
                views(existing),
                " "@,
            ) + ") in "@ + workspace
        },
        Mode::AutoOpen => if existing.len() == 0 {
            e == Existing::OpenNew
        } else {
            e == Existing::Quiet
        },
    }
}

/// Decide what `mode` does with the existing review panes of `workspace`.
pub fn react_to_existing(mode: Mode, existing: &Vec<String>, workspace: &str) -> (e: Existing)
    ensures
        existing_spec(mode, existing@, workspace@, e),
{
    match mode {
        Mode::Close => if existing.len() == 0 {
            let mut m = owned("close: nothing open in ");
            push_str(&mut m, workspace);
            Existing::Report(m)
        } else {
            Existing::CloseAll
        },
        Mode::Toggle => if existing.len() == 0 {
            Existing::OpenNew
        } else {
            Existing::CloseAll
        },
        Mode::Open => if existing.len() == 0 {
            Existing::OpenNew
        } else {
            let mut m = owned("open: already open (");
            let names = join_strings(existing, " ");
            push_str(&mut m, names.as_str());
            push_str(&mut m, ") in ");
            push_str(&mut m, workspace);
            Existing::Report(m)
        },
        Mode::AutoOpen => if existing.len() == 0 {
            Existing::OpenNew
        } else {
            Existing::Quiet
        },
    }
}

/// The cwd an open uses: the focused pane's live cwd when it is a repository, else the
/// context cwd when it is one; otherwise the refusal names every rejected candidate.
pub open spec fn cwd_spec(
    live: Option<Seq<char>>,
    live_is_repo: bool,
    context: Option<Seq<char>>,
    context_is_repo: bool,
) -> Result<Seq<char>, Seq<char>> {
    if live is Some && live_is_repo {
        Ok(live->0)
    } else if context is Some && context_is_repo {
        Ok(context->0)
    } else {
        let named = match context {
            Some(c) => c,
            None => "<no cwd>"@,
        };
        let note = match live {
            Some(l) => " (live cwd '"@ + l + "')"@,
            None => Seq::empty(),
        };
        Err("not a git repo: '"@ + named + "'"@ + note)
    }
}

/// The view of an optional string.
pub open spec fn opt_seq(o: Option<&str>) -> Option<Seq<char>> {
    match o {
        Some(s) => Some(s@),
        None => None,
    }
}

/// Choose the open's cwd from the live and context candidates and whether each is a
/// repository.
pub fn choose_cwd(live: Option<&str>, live_is_repo: bool, context: Option<&str>, context_is_repo: bool) -> (r:
    Result<String, String>)
    ensures
        match r {
            Ok(c) => cwd_spec(opt_seq(live), live_is_repo, opt_seq(context), context_is_repo) == Ok::<
                Seq<char>,
                Seq<char>,
            >(c@),
            Err(m) => cwd_spec(opt_seq(live), live_is_repo, opt_seq(context), context_is_repo)
                == Err::<Seq<char>, Seq<char>>(m@),
        },
{
    if let Some(l) = live {
        if live_is_repo {
            return Ok(owned(l));
        }
    }
    if let Some(c) = context {
        if context_is_repo {
            return Ok(owned(c));
        }
    }
    let mut m = owned("not a git repo: '");
    match context {
        Some(c) => push_str(&mut m, c),
        None => push_str(&mut m, "<no cwd>"),
    }
    push_str(&mut m, "'");
    if let Some(l) = live {
        push_str(&mut m, " (live cwd '");
        push_str(&mut m, l);
        push_str(&mut m, "')");
    }
    proof {
        let named = match opt_seq(context) {
            Some(c) => c,
            None => "<no cwd>"@,
        };
        let note = match opt_seq(live) {
            Some(l) => " (live cwd '"@ + l + "')"@,
            None => Seq::empty(),
        };
        assert(m@ =~= "not a git repo: '"@ + named + "'"@ + note);
    }
    Err(m)
}

/// A manual open takes focus; the event never does.
pub fn focus_flag(mode: Mode) -> (f: &'static str)
    ensures
        f@ == if mode == Mode::AutoOpen {
            "--no-focus"@
        } else {
            "--focus"@
        },
{
    if mode == Mode::AutoOpen {
        "--no-focus"
    } else {
        "--focus"
    }
}

/// The placement argument tail: a split or zoomed open attaches to the acting pane, else the
/// workspace's first pane (a split also names its direction); tab and overlay need no target.
pub open spec fn placement_spec(
    placement: TogglePlacement,
    direction: ToggleDirection,
    pane_id: Seq<char>,
    first_pane: Option<Seq<char>>,
) -> Result<Seq<Seq<char>>, Seq<char>> {
    match placement {
        TogglePlacement::Tab => Ok(seq!["--placement"@, "tab"@]),
        TogglePlacement::Overlay => Ok(seq!["--placement"@, "overlay"@]),
        _ => {
            let target = if pane_id.len() == 0 {
                first_pane
            } else {
                Some(pane_id)
            };
            match target {
                None => Err("no pane to attach to"@),
                Some(t) => Ok(
                    seq!["--placement"@, placement.spelling(), "--target-pane"@, t] + if placement
                        == TogglePlacement::Split {
                        seq!["--direction"@, direction.spelling()]
                    } else {
                        Seq::empty()
                    },
                ),
            }
        },
    }
}

/// The placement arguments for one open.
pub fn placement_args(
    placement: TogglePlacement,
    direction: ToggleDirection,
    pane_id: &str,
    first_pane: Option<&str>,
) -> (r: Result<Vec<String>, String>)
    ensures
        match r {
            Ok(args) => placement_spec(placement, direction, pane_id@, opt_seq(first_pane)) == Ok::<
                Seq<Seq<char>>,
                Seq<char>,
            >(views(args@)),
            Err(m) => placement_spec(placement, direction, pane_id@, opt_seq(first_pane)) == Err::<
                Seq<Seq<char>>,
                Seq<char>,
            >(m@),
        },
{
    let mut args: Vec<String> = Vec::new();
    match placement {
        TogglePlacement::Tab => {
            push_string(&mut args, owned("--placement"));
            push_string(&mut args, owned("tab"));
            proof {
                assert(views(args@) =~= seq!["--placement"@, "tab"@]);
            }
            Ok(args)
        },
        TogglePlacement::Overlay => {
            push_string(&mut args, owned("--placement"));
            push_string(&mut args, owned("overlay"));
            proof {
                assert(views(args@) =~= seq!["--placement"@, "overlay"@]);
            }
            Ok(args)
        },
        _ => {
            let target = if pane_id.is_empty() {
                match first_pane {
                    Some(f) => owned(f),
                    None => return Err(owned("no pane to attach to")),
                }
            } else {
                owned(pane_id)
            };
            push_string(&mut args, owned("--placement"));
            push_string(&mut args, owned(placement.as_str()));
            push_string(&mut args, owned("--target-pane"));
            push_string(&mut args, target);
            if placement == TogglePlacement::Split {
                push_string(&mut args, owned("--direction"));
                push_string(&mut args, owned(direction.as_str()));
            }
            proof {
                assert(views(args@) =~= placement_spec(
                    placement,
                    direction,
                    pane_id@,
                    opt_seq(first_pane),
                )->Ok_0);
            }
            Ok(args)
        },
    }
}

/// The manifest pane entrypoint for the platform (pane ids are unique across platforms).
pub fn entrypoint(os: HostOs) -> (e: &'static str)
    ensures
        e@ == match os {
            HostOs::Windows => "pane-windows"@,
            HostOs::Unix => "pane-unix"@,
        },
{
    match os {
        HostOs::Windows => "pane-windows",
        HostOs::Unix => "pane-unix",
    }
}

/// Whether the placement arguments open a tab (`--placement tab`), which targets the
/// workspace.
pub open spec fn is_tab_open(placement_args: Seq<Seq<char>>) -> bool {
    placement_args.len() >= 2 && placement_args[0] == "--placement"@ && placement_args[1] == "tab"@
}

/// The `herdr plugin pane open` arguments.
pub open spec fn open_args_spec(
    plugin_id: Seq<char>,
    os: HostOs,
    placement_args: Seq<Seq<char>>,
    workspace: Seq<char>,
    cwd: Seq<char>,
    focus: Seq<char>,
) -> Seq<Seq<char>> {
    seq![
        "plugin"@,
        "pane"@,
        "open"@,
        "--plugin"@,
        plugin_id,
        "--entrypoint"@,
        match os {
            HostOs::Windows => "pane-windows"@,
            HostOs::Unix => "pane-unix"@,
        },
    ] + placement_args + if is_tab_open(placement_args) {
        seq!["--workspace"@, workspace]
    } else {
        Seq::empty()
    } + seq!["--cwd"@, cwd, focus]
}

/// Compose the `herdr plugin pane open` arguments for one open.
pub fn open_args(
    plugin_id: &str,
    os: HostOs,
    placement_args: &Vec<String>,
    workspace: &str,
    cwd: &str,
    focus: &str,
) -> (args: Vec<String>)
    ensures
        views(args@) == open_args_spec(plugin_id@, os, views(placement_args@), workspace@, cwd@, focus@),
{
    let mut args: Vec<String> = Vec::new();
    push_string(&mut args, owned("plugin"));
    push_string(&mut args, owned("pane"));
    push_string(&mut args, owned("open"));
    push_string(&mut args, owned("--plugin"));
    push_string(&mut args, owned(plugin_id));
    push_string(&mut args, owned("--entrypoint"));
    push_string(&mut args, owned(entrypoint(os)));
    let ghost head = views(args@);
    let mut i: usize = 0;
    while i < placement_args.len()
        invariant
            i <= placement_args@.len(),
            views(args@) == head + views(placement_args@).take(i as int),
        decreases placement_args@.len() - i,
    {
        push_string(&mut args, placement_args[i].clone());
        proof {
            assert(views(placement_args@).take(i + 1) =~= views(placement_args@).take(i as int).push(
                placement_args@[i as int]@,
            ));
        }
        i = i + 1;
    }
    proof {
        assert(views(placement_args@).take(placement_args@.len() as int) =~= views(placement_args@));
    }
    let tab = placement_args.len() >= 2 && str_eq(placement_args[0].as_str(), "--placement")
        && str_eq(placement_args[1].as_str(), "tab");
    if tab {
        push_string(&mut args, owned("--workspace"));
        push_string(&mut args, owned(workspace));
    }
    push_string(&mut args, owned("--cwd"));
    push_string(&mut args, owned(cwd));
    push_string(&mut args, owned(focus));
    proof {
        assert(views(args@) =~= open_args_spec(
            plugin_id@,
            os,
            views(placement_args@),
            workspace@,
            cwd@,
            focus@,
        ));
    }
    args
}

/// How one `pane close` went.
#[derive(Clone, Copy, Debug, PartialEq, Eq, Structural)]
pub enum CloseOutcome {
    Closed,
    /// The pane was already gone (`pane_not_found`): the same end state.
    Gone,
    Failed,
}

/// A failed `pane close` whose stderr says the pane is gone converges like a close.
pub fn close_outcome(result: Result<(), &str>) -> (o: CloseOutcome)
    ensures
        match result {
            Ok(_) => o == CloseOutcome::Closed,
            Err(stderr) => o == if contains_seq(stderr@, "pane_not_found"@) {
                CloseOutcome::Gone
            } else {
                CloseOutcome::Failed
            },
        },
{
    match result {
        Ok(_) => CloseOutcome::Closed,
        Err(stderr) => if contains_str(stderr, "pane_not_found") {
            CloseOutcome::Gone
        } else {
            CloseOutcome::Failed
        },
    }
}

/// ` id` for every pane whose outcome is (or is not) a failure, in order.
pub open spec fn listed(panes: Seq<(String, CloseOutcome)>, failed: bool) -> Seq<char>
    decreases panes.len(),
{
    if panes.len() == 0 {
        Seq::empty()
    } else {
        let last = panes.last();
        listed(panes.drop_last(), failed) + if (last.1 == CloseOutcome::Failed) == failed {
            " "@ + last.0@
        } else {
            Seq::empty()
        }
    }
}

/// The close sweep's report: every pane closed (or already gone) is `closed ... in ws`; any
/// failure names the panes that may still run.
pub fn close_report(panes: &[(String, CloseOutcome)], workspace: &str) -> (r: Result<String, String>)
    ensures
        match r {
            Ok(m) => listed(panes@, true).len() == 0 && m@ == "closed"@ + listed(panes@, false)
                + " in "@ + workspace@,
            Err(f) => listed(panes@, true).len() > 0 && f@ == listed(panes@, true),
        },
{
    let mut closed = String::new();
    let mut failed = String::new();
    let mut i: usize = 0;
    while i < panes.len()
        invariant
            i <= panes@.len(),
            closed@ == listed(panes@.take(i as int), false),
            failed@ == listed(panes@.take(i as int), true),
        decreases panes@.len() - i,
    {
        proof {
            assert(panes@.take(i + 1).drop_last() =~= panes@.take(i as int));
        }
        if panes[i].1 == CloseOutcome::Failed {
            push_str(&mut failed, " ");
            push_str(&mut failed, panes[i].0.as_str());
        } else {
            push_str(&mut closed, " ");
            push_str(&mut closed, panes[i].0.as_str());
        }
        i = i + 1;
    }
    proof {
        assert(panes@.take(panes@.len() as int) =~= panes@);
    }
    if failed.as_str().is_empty() {
        let mut m = owned("closed");
        push_str(&mut m, closed.as_str());
        push_str(&mut m, " in ");
        push_str(&mut m, workspace);
        Ok(m)
    } else {
        Err(failed)
    }
}

/// A manual open ends by naming the new pane and its placement; the event ends quietly.
pub fn opened_message(mode: Mode, pane_id: &str, placement: TogglePlacement, workspace: &str) -> (m:
    Option<String>)
    ensures
        mode == Mode::AutoOpen ==> m is None,
        mode != Mode::AutoOpen ==> m is Some && m->0@ == "opened "@ + pane_id@ + " ("@
            + placement.spelling() + ") in "@ + workspace@,
{
    if mode == Mode::AutoOpen {
        return None;
    }
    let mut m = owned("opened ");
    push_str(&mut m, pane_id);
    push_str(&mut m, " (");
    push_str(&mut m, placement.as_str());
    push_str(&mut m, ") in ");
    push_str(&mut m, workspace);
    Some(m)
}

/// Whether a listed pane row reads: an object with a text `pane_id` and a `foreground_cwd`
/// absent, `null` or text.
pub open spec fn pane_row_readable(v: Json) -> bool {
    v is Object && text_member(v, "pane_id"@) is Some && opt_member(v, "foreground_cwd"@) is Some
}

/// `p` is what a readable pane row says.
pub open spec fn pane_row(v: Json, p: PaneEntry) -> bool {
    text_member(v, "pane_id"@) == Some(p.pane_id@) && opt_member(v, "foreground_cwd"@) == Some(
        opt_chars(p.foreground_cwd),
    )
}

/// Whether a `herdr pane list` reply reads: JSON whose `result.panes` rows all read.
pub open spec fn pane_list_readable(text: Seq<char>) -> bool {
    json_parse(text) matches Ok(v) && envelope(v, "panes"@) matches Some(rows) && forall|i: int|
        0 <= i < rows.len() ==> #[trigger] pane_row_readable(rows[i])
}

/// One listed pane, when its row reads.
fn read_pane_row(v: &Json) -> (r: Option<PaneEntry>)
    ensures
        match r {
            Some(p) => pane_row_readable(*v) && pane_row(*v, p),
            None => !pane_row_readable(*v),
        },
{
    match v {
        Json::Object(_) => {},
        _ => {
            return None;
        },
    }
    let id = match v.get("pane_id") {
        Some(Json::Str(s)) => owned(s.as_str()),
        _ => {
            return None;
        },
    };
    let cwd = match v.get("foreground_cwd") {
        None => None,
        Some(Json::Null) => None,
        Some(Json::Str(s)) => Some(owned(s.as_str())),
        Some(_) => {
            return None;
        },
    };
    Some(PaneEntry { pane_id: id, foreground_cwd: cwd })
}

/// The panes a `herdr pane list` reply lists, in order; `None` when the reply is not JSON,
/// not the documented envelope, or has a row that does not read (a failed listing must never
/// read as "no panes").
pub fn pane_list(json: &str) -> (r: Option<Vec<PaneEntry>>)
    ensures
        match r {
            Some(panes) => json_parse(json@) matches Ok(v) && envelope(v, "panes"@) matches Some(rows)
                && panes@.len() == rows.len() && forall|i: int|
                0 <= i < rows.len() ==> #[trigger] pane_row(rows[i], panes@[i]),
            None => !pane_list_readable(json@),
        },
{
    let v = match parse_json(json) {
        Ok(v) => v,
        Err(_) => {
            return None;
        },
    };
    let rows = match crate::herdr::envelope_items(&v, "panes") {
        Some(rows) => rows,
        None => {
            return None;
        },
    };
    let mut panes: Vec<PaneEntry> = Vec::new();
    let mut i: usize = 0;
    while i < rows.len()
        invariant
            i <= rows@.len(),
            json_parse(json@) == Ok::<Json, Seq<char>>(v),
            envelope(v, "panes"@) == Some(rows@),
            panes@.len() == i,
            forall|j: int| 0 <= j < i ==> #[trigger] pane_row(rows@[j], panes@[j]),
            forall|j: int| 0 <= j < i ==> #[trigger] pane_row_readable(rows@[j]),
        decreases rows@.len() - i,
    {
        match read_pane_row(&rows[i]) {
            Some(p) => {
                panes.push(p);
            },
            None => {
                proof {
                    assert(!pane_list_readable(json@)) by {
                        if pane_list_readable(json@) {
                            let rows2 = envelope(json_parse(json@)->Ok_0, "panes"@)->0;
                            assert(rows2 == rows@);
                            assert(pane_row_readable(rows2[i as int]));
                        }
                    }
                }
                return None;
            },
        }
        i = i + 1;
    }
    Some(panes)
}

/// The member `key` of an object, when it is itself an object.
pub open spec fn object_member(v: Json, key: Seq<char>) -> Option<Json> {
    match (v, get_spec(v, key)) {
        (Json::Object(_), Some(Json::Object(m))) => Some(Json::Object(m)),
        _ => None,
    }
}

/// The member `key` of an object, when it is itself an object.
fn object_member_of<'a>(v: &'a Json, key: &str) -> (r: Option<&'a Json>)
    ensures
        match r {
            Some(x) => object_member(*v, key@) == Some(*x),
            None => object_member(*v, key@) is None,
        },
{
    match v {
        Json::Object(_) => match v.get(key) {
            Some(x) => match x {
                Json::Object(_) => Some(x),
                _ => None,
            },
            None => None,
        },
        _ => None,
    }
}

/// Whether a process row reads: an object whose `argv0` is absent, `null` or text and whose
/// `argv` is absent or an array of texts.
pub open spec fn process_readable(v: Json) -> bool {
    &&& v is Object
    &&& opt_member(v, "argv0"@) is Some
    &&& match get_spec(v, "argv"@) {
        None => true,
        Some(Json::Array(items)) => forall|k: int| 0 <= k < items@.len() ==> #[trigger] str_spec(items@[k]) is Some,
        _ => false,
    }
}

/// `p` is what a readable process row says (an absent `argv` is empty).
pub open spec fn process_row(v: Json, p: ForegroundProcess) -> bool {
    &&& opt_member(v, "argv0"@) == Some(opt_chars(p.argv0))
    &&& match get_spec(v, "argv"@) {
        Some(Json::Array(items)) => p.argv@.len() == items@.len() && forall|k: int|
            0 <= k < items@.len() ==> #[trigger] str_spec(items@[k]) == Some(p.argv@[k]@),
        _ => p.argv@.len() == 0,
    }
}

/// The rows of `result.process_info.foreground_processes` in a process-info reply.
pub open spec fn process_rows(v: Json) -> Option<Seq<Json>> {
    match object_member(v, "result"@) {
        Some(r) => match object_member(r, "process_info"@) {
            Some(info) => match get_spec(info, "foreground_processes"@) {
                Some(Json::Array(items)) => Some(items@),
                _ => None,
            },
            None => None,
        },
        None => None,
    }
}

/// Whether a process-info reply reads: JSON whose foreground process rows all read.
pub open spec fn process_reply_readable(text: Seq<char>) -> bool {
    json_parse(text) matches Ok(v) && process_rows(v) matches Some(rows) && forall|i: int|
        0 <= i < rows.len() ==> #[trigger] process_readable(rows[i])
}

/// One process row, when it reads.
fn read_process(v: &Json) -> (r: Option<ForegroundProcess>)
    ensures
        match r {
            Some(p) => process_readable(*v) && process_row(*v, p),
            None => !process_readable(*v),
        },
{
    match v {
        Json::Object(_) => {},
        _ => {
            return None;
        },
    }
    let argv0 = match v.get("argv0") {
        None => None,
        Some(Json::Null) => None,
        Some(Json::Str(s)) => Some(owned(s.as_str())),
        Some(_) => {
            return None;
        },
    };
    let mut argv: Vec<String> = Vec::new();
    match v.get("argv") {
        None => {},
        Some(Json::Array(items)) => {
            let mut k: usize = 0;
            while k < items.len()
                invariant
                    k <= items@.len(),
                    get_spec(*v, "argv"@) == Some(Json::Array(*items)),
                    argv@.len() == k,
                    forall|j: int| 0 <= j < k ==> #[trigger] str_spec(items@[j]) == Some(argv@[j]@),
                decreases items@.len() - k,
            {
                match &items[k] {
                    Json::Str(s) => {
                        argv.push(owned(s.as_str()));
                    },
                    _ => {
                        proof {
                            assert(str_spec(items@[k as int]) is None);
                        }
                        return None;
                    },
                }
                k = k + 1;
            }
        },
        Some(_) => {
            return None;
        },
    }
    Some(ForegroundProcess { argv0, argv })
}

/// The foreground processes a `herdr pane process-info` reply lists, in order; `None` when
/// the reply is not JSON, lacks the `foreground_processes` list, or has a row that does not
/// read (only a present-but-empty list may count zero).
pub fn process_reply(json: &str) -> (r: Option<Vec<ForegroundProcess>>)
    ensures
        match r {
            Some(ps) => json_parse(json@) matches Ok(v) && process_rows(v) matches Some(rows)
                && ps@.len() == rows.len() && forall|i: int|
                0 <= i < rows.len() ==> #[trigger] process_row(rows[i], ps@[i]),
            None => !process_reply_readable(json@),
        },
{
    let v = match parse_json(json) {
        Ok(v) => v,
        Err(_) => {
            return None;
        },
    };
    let result = match object_member_of(&v, "result") {
        Some(r) => r,
        None => {
            return None;
        },
    };
    let info = match object_member_of(result, "process_info") {
        Some(i) => i,
        None => {
            return None;
        },
    };
    let rows = match info.get("foreground_processes") {
        Some(Json::Array(items)) => items,
        _ => {
            return None;
        },
    };
    let mut ps: Vec<ForegroundProcess> = Vec::new();
    let mut i: usize = 0;
    while i < rows.len()
        invariant
            i <= rows@.len(),
            json_parse(json@) == Ok::<Json, Seq<char>>(v),
            process_rows(v) == Some(rows@),
            ps@.len() == i,
            forall|j: int| 0 <= j < i ==> #[trigger] process_row(rows@[j], ps@[j]),
            forall|j: int| 0 <= j < i ==> #[trigger] process_readable(rows@[j]),
        decreases rows@.len() - i,
    {
        match read_process(&rows[i]) {
            Some(p) => {
                ps.push(p);
            },
            None => {
                proof {
                    assert(!process_reply_readable(json@)) by {
                        if process_reply_readable(json@) {
                            let rows2 = process_rows(json_parse(json@)->Ok_0)->0;
                            assert(rows2 == rows@);
                            assert(process_readable(rows2[i as int]));
                        }
                    }
                }
                return None;
            },
        }
        i = i + 1;
    }
    Some(ps)
}

/// What the pane a `herdr plugin pane open` reply names: `result.plugin_pane.pane`'s text
/// `pane_id` and its `tab_id` (absent or `null`: none).
pub open spec fn opened_spec(text: Seq<char>) -> Option<(Seq<char>, Option<Seq<char>>)> {
    match json_parse(text) {
        Ok(v) => match object_member(v, "result"@) {
            Some(r) => match object_member(r, "plugin_pane"@) {
                Some(pp) => match object_member(pp, "pane"@) {
                    Some(pane) => match (text_member(pane, "pane_id"@), opt_member(pane, "tab_id"@)) {
                        (Some(id), Some(tab)) => Some((id, tab)),
                        _ => None,
                    },
                    None => None,
                },
                None => None,
            },
            None => None,
        },
        Err(_) => None,
    }
}

/// The pane a `herdr plugin pane open` reply names, and its tab; `None` when the reply does not
/// read.
pub fn open_reply(json: &str) -> (r: Option<(String, Option<String>)>)
    ensures
        match r {
            Some((id, tab)) => opened_spec(json@) == Some((id@, opt_chars(tab))),
            None => opened_spec(json@) is None,
        },
{
    let v = match parse_json(json) {
        Ok(v) => v,
        Err(_) => {
            return None;
        },
    };
    let result = match object_member_of(&v, "result") {
        Some(r) => r,
        None => {
            return None;
        },
    };
    let pp = match object_member_of(result, "plugin_pane") {
        Some(x) => x,
        None => {
            return None;
        },
    };
    let pane = match object_member_of(pp, "pane") {
        Some(x) => x,
        None => {
            return None;
        },
    };
    let id = match pane.get("pane_id") {
        Some(Json::Str(s)) => owned(s.as_str()),
        _ => {
            return None;
        },
    };
    match pane.get("tab_id") {
        None => Some((id, None)),
        Some(Json::Null) => Some((id, None)),
        Some(Json::Str(t)) => Some((id, Some(owned(t.as_str())))),
        Some(_) => None,
    }
}

} // verus!

//! Formatting comments and exporting them to the agent or the clipboard. A comment becomes a
//! block of its location, the diff snippet, then the text; many comments sort by file then
//! start line. Running the clipboard tool or herdr is the application's work.

use vstd::prelude::*;

use crate::model::{location_spec, Comment};
use crate::placement::HostOs;
use crate::text::{
    all_ws, decimal, is_ws, join, join_strings, lex_lt, owned, push_str, push_string, push_u64,
    str_lt, to_chars, trim_end_chars, trim_end_spec, views,
};

verus! {

/// The pieces of `s` between `\n` separators, in order (an empty `s` is one empty piece).
pub open spec fn pieces(s: Seq<char>) -> Seq<Seq<char>>
    decreases s.len(),
{
    if s.len() == 0 {
        seq![Seq::empty()]
    } else {
        let p = pieces(s.drop_last());
        if s.last() == '\n' {
            p.push(Seq::empty())
        } else {
            p.update(p.len() - 1, p.last().push(s.last()))
        }
    }
}

/// `s` without carriage returns.
pub open spec fn no_cr(s: Seq<char>) -> Seq<char>
    decreases s.len(),
{
    if s.len() == 0 {
        s
    } else if s.last() == '\r' {
        no_cr(s.drop_last())
    } else {
        no_cr(s.drop_last()).push(s.last())
    }
}

/// Each line with its trailing white space trimmed, the blank ones dropped.
pub open spec fn kept_lines(lines: Seq<Seq<char>>) -> Seq<Seq<char>>
    decreases lines.len(),
{
    if lines.len() == 0 {
        Seq::empty()
    } else {
        kept_lines(lines.drop_last()) + if all_ws(lines.last()) {
            Seq::empty()
        } else {
            seq![trim_end_spec(lines.last())]
        }
    }
}

/// Comment text for export: carriage returns dropped, each line's trailing space trimmed,
/// blank lines dropped (a comment can never introduce the blank-line block separator).
pub open spec fn normalize_spec(text: Seq<char>) -> Seq<char> {
    join(kept_lines(pieces(no_cr(text))), "\n"@)
}

/// Every piece of `s` is non-empty at least once: `pieces` never yields an empty list.
proof fn lemma_pieces_nonempty(s: Seq<char>)
    ensures
        pieces(s).len() >= 1,
    decreases s.len(),
{
    if s.len() > 0 {
        lemma_pieces_nonempty(s.drop_last());
    }
}

/// The lines kept from a list that grew by one.
proof fn lemma_kept_push(lines: Seq<Seq<char>>, l: Seq<char>)
    ensures
        kept_lines(lines.push(l)) == kept_lines(lines) + if all_ws(l) {
            Seq::<Seq<char>>::empty()
        } else {
            seq![trim_end_spec(l)]
        },
{
    assert(lines.push(l).drop_last() =~= lines);
}

/// Whether a trimmed line is blank.
fn blank(cs: &Vec<char>) -> (b: bool)
    ensures
        b == all_ws(cs@),
{
    let mut i: usize = 0;
    while i < cs.len()
        invariant
            i <= cs@.len(),
            forall|k: int| 0 <= k < i ==> is_ws(#[trigger] cs@[k]),
        decreases cs@.len() - i,
    {
        if !crate::text::is_whitespace(cs[i]) {
            return false;
        }
        i = i + 1;
    }
    true
}

/// Comment text for export.
pub fn normalize_text(text: &str) -> (out: String)
    ensures
        out@ == normalize_spec(text@),
{
    let cs = to_chars(text);
    let mut done: Vec<String> = Vec::new();
    let mut cur: Vec<char> = Vec::new();
    let mut i: usize = 0;
    proof {
        assert(cs@.take(0) =~= Seq::<char>::empty());
        assert(views(done@) =~= kept_lines(pieces(no_cr(cs@.take(0))).drop_last()));
    }
    while i < cs.len()
        invariant
            cs@ == text@,
            i <= cs@.len(),
            pieces(no_cr(cs@.take(i as int))).len() >= 1,
            views(done@) == kept_lines(pieces(no_cr(cs@.take(i as int))).drop_last()),
            cur@ == pieces(no_cr(cs@.take(i as int))).last(),
        decreases cs@.len() - i,
    {
        let ghost before = no_cr(cs@.take(i as int));
        proof {
            assert(cs@.take(i + 1).drop_last() =~= cs@.take(i as int));
            lemma_pieces_nonempty(before);
            assert(before.push('\n').drop_last() =~= before);
            assert(before.push(cs@[i as int]).drop_last() =~= before);
        }
        let c = cs[i];
        if c == '\r' {
        } else if c == '\n' {
            let line = trim_end_chars(cur.as_slice());
            proof {
                lemma_kept_push(pieces(before).drop_last(), cur@);
                assert(pieces(before).drop_last().push(cur@) =~= pieces(before));
                assert(pieces(before.push('\n')).drop_last() =~= pieces(before));
            }
            if !blank(&cur) {
                push_string(&mut done, crate::text::from_chars(line.as_slice()));
            }
            cur = Vec::new();
            proof {
                assert(no_cr(cs@.take(i + 1)) == before.push('\n'));
                assert(views(done@) =~= kept_lines(pieces(before.push('\n')).drop_last()));
            }
        } else {
            cur.push(c);
            proof {
                assert(no_cr(cs@.take(i + 1)) == before.push(c));
                assert(pieces(before.push(c)).drop_last() =~= pieces(before).drop_last());
            }
        }
        i = i + 1;
    }
    let ghost ps = pieces(no_cr(cs@));
    proof {
        assert(cs@.take(cs@.len() as int) =~= cs@);
        lemma_kept_push(ps.drop_last(), cur@);
        assert(ps.drop_last().push(cur@) =~= ps);
    }
    if !blank(&cur) {
        let line = trim_end_chars(cur.as_slice());
        push_string(&mut done, crate::text::from_chars(line.as_slice()));
    }
    proof {
        assert(views(done@) =~= kept_lines(ps));
    }
    join_strings(&done, "\n")
}

/// One comment as its export block: location, snippet, then normalised text.
pub open spec fn block_spec(c: Comment) -> Seq<char> {
    location_spec(c.file@, c.side, c.start as nat, c.end as nat) + "\n"@ + c.lines@ + "\n"@
        + normalize_spec(c.text@)
}

/// One comment as its export block: location, snippet, then text.
pub fn format_comment(comment: &Comment) -> (out: String)
    ensures
        out@ == block_spec(*comment),
{
    let mut out = comment.location();
    push_str(&mut out, "\n");
    push_str(&mut out, comment.lines.as_str());
    push_str(&mut out, "\n");
    let t = normalize_text(comment.text.as_str());
    push_str(&mut out, t.as_str());
    out
}

/// The export order: by file, then by start line.
pub open spec fn before(a: Comment, b: Comment) -> bool {
    lex_lt(a.file@, b.file@) || (a.file@ == b.file@ && a.start < b.start)
}

/// The stable sort of positions `order` over `comments`: each position once, ascending by
/// (file, start) and, among equal keys, by input position.
pub open spec fn sorted_order(comments: Seq<&Comment>, order: Seq<usize>) -> bool {
    &&& order.len() == comments.len()
    &&& forall|k: int| 0 <= k < order.len() ==> order[k] < comments.len()
    &&& forall|k: int, l: int|
        0 <= k < l < order.len() ==> (before(*comments[order[k] as int], *comments[order[l] as int])
            || (!before(*comments[order[l] as int], *comments[order[k] as int]) && order[k]
            < order[l]))
}

/// Whether comment `a` sorts strictly before `b`.
fn sorts_before(a: &Comment, b: &Comment) -> (r: bool)
    ensures
        r == before(*a, *b),
{
    str_lt(a.file.as_str(), b.file.as_str()) || (a.file == b.file && a.start < b.start)
}

/// `before` is a strict weak order: asymmetric, and its incomparability is transitive.
proof fn lemma_before_order(a: Comment, b: Comment, c: Comment)
    ensures
        !(before(a, b) && before(b, a)),
        before(a, b) && before(b, c) ==> before(a, c),
        !before(a, b) && !before(b, a) && !before(b, c) && !before(c, b) ==> !before(a, c)
            && !before(c, a),
        before(a, b) && !before(b, c) && !before(c, b) ==> before(a, c),
        !before(a, b) && !before(b, a) && before(b, c) ==> before(a, c),
{
    crate::text::lemma_lex_asymmetric(a.file@, b.file@);
    crate::text::lemma_lex_irreflexive(a.file@);
    crate::text::lemma_lex_total(a.file@, b.file@);
    crate::text::lemma_lex_total(b.file@, c.file@);
    crate::text::lemma_lex_total(a.file@, c.file@);
    if lex_lt(a.file@, b.file@) && lex_lt(b.file@, c.file@) {
        crate::text::lemma_lex_transitive(a.file@, b.file@, c.file@);
    }
    crate::text::lemma_lex_asymmetric(a.file@, c.file@);
    crate::text::lemma_lex_asymmetric(b.file@, c.file@);
}

/// The stable export order of `comments`.
pub fn export_order(comments: &[&Comment]) -> (order: Vec<usize>)
    ensures
        sorted_order(comments@, order@),
{
    let mut order: Vec<usize> = Vec::new();
    let mut i: usize = 0;
    while i < comments.len()
        invariant
            i <= comments@.len(),
            order@.len() == i,
            forall|k: int| 0 <= k < order@.len() ==> order@[k] < i,
            forall|k: int, l: int|
                0 <= k < l < order@.len() ==> (before(
                    *comments@[order@[k] as int],
                    *comments@[order@[l] as int],
                ) || (!before(*comments@[order@[l] as int], *comments@[order@[k] as int])
                    && order@[k] < order@[l])),
        decreases comments@.len() - i,
    {
        let mut p: usize = 0;
        while p < order.len() && !sorts_before(comments[i], comments[order[p]])
            invariant
                p <= order@.len(),
                i < comments@.len(),
                forall|k: int| 0 <= k < order@.len() ==> order@[k] < i,
                forall|k: int| 0 <= k < p ==> !before(*comments@[i as int], *comments@[order@[k] as int]),
            decreases order@.len() - p,
        {
            p = p + 1;
        }
        let ghost old_order = order@;
        proof {
            assert forall|k: int| p <= k < old_order.len() implies before(
                *comments@[i as int],
                *comments@[old_order[k] as int],
            ) by {
                if k > p {
                    let a = *comments@[i as int];
                    let b = *comments@[old_order[p as int] as int];
                    let c = *comments@[old_order[k] as int];
                    lemma_before_order(a, b, c);
                    lemma_before_order(b, c, a);
                    lemma_before_order(c, a, b);
                }
            }
        }
        order.insert(p, i);
        proof {
            assert forall|k: int, l: int| 0 <= k < l < order@.len() implies (before(
                *comments@[order@[k] as int],
                *comments@[order@[l] as int],
            ) || (!before(*comments@[order@[l] as int], *comments@[order@[k] as int])
                && order@[k] < order@[l])) by {
                if k < p && l == p {
                    let a = *comments@[order@[k] as int];
                    let b = *comments@[i as int];
                    lemma_before_order(a, b, a);
                } else if k < p && l > p {
                    assert(order@[l] == old_order[l - 1]);
                } else if k == p && l > p {
                    assert(order@[l] == old_order[l - 1]);
                } else if k > p {
                    assert(order@[k] == old_order[k - 1]);
                    assert(order@[l] == old_order[l - 1]);
                }
            }
        }
        i = i + 1;
    }
    order
}

/// The blocks of `comments` in `order`.
pub open spec fn blocks(comments: Seq<&Comment>, order: Seq<usize>) -> Seq<Seq<char>> {
    Seq::new(order.len(), |k: int| block_spec(*comments[order[k] as int]))
}

/// Many comments, sorted by file then start line (stably), one blank line between blocks.
pub fn format_all(comments: &[&Comment]) -> (out: String)
    ensures
        exists|order: Seq<usize>|
            sorted_order(comments@, order) && out@ == join(blocks(comments@, order), "\n\n"@),
{
    let order = export_order(comments);
    let mut parts: Vec<String> = Vec::new();
    let mut k: usize = 0;
    while k < order.len()
        invariant
            k <= order@.len(),
            sorted_order(comments@, order@),
            views(parts@) == blocks(comments@, order@).take(k as int),
        decreases order@.len() - k,
    {
        push_string(&mut parts, format_comment(comments[order[k]]));
        proof {
            assert(views(parts@) =~= blocks(comments@, order@).take(k + 1));
        }
        k = k + 1;
    }
    proof {
        assert(blocks(comments@, order@).take(order@.len() as int) =~= blocks(comments@, order@));
    }
    join_strings(&parts, "\n\n")
}

/// `N comment(s)`.
pub open spec fn counted_spec(count: nat) -> Seq<char> {
    decimal(count) + if count == 1 {
        " comment"@
    } else {
        " comments"@
    }
}

/// `N comment` or `N comments`.
pub fn counted_comments(count: usize) -> (s: String)
    ensures
        s@ == counted_spec(count as nat),
{
    let mut s = String::new();
    push_u64(&mut s, count as u64);
    if count == 1 {
        push_str(&mut s, " comment");
    } else {
        push_str(&mut s, " comments");
    }
    s
}

/// A destination comments can be exported to: its label and the status lines after an
/// export. Delivering the text is the application's.
pub trait ExportTarget {
    /// The destination's name.
    fn label(&self) -> &'static str;

    /// The confirmation shown after a successful export of `count` comments.
    fn success_message(&self, count: usize) -> String;

    /// The one short sentence shown after a failed export.
    fn failure_message(&self) -> String;
}

/// The system clipboard, via the first available platform clipboard tool.
#[derive(Debug)]
pub struct Clipboard;

impl ExportTarget for Clipboard {
    fn label(&self) -> (s: &'static str)
        ensures
            s@ == "clipboard"@,
    {
        "clipboard"
    }

    fn success_message(&self, count: usize) -> (s: String)
        ensures
            s@ == "copied "@ + counted_spec(count as nat),
    {
        let mut s = owned("copied ");
        let c = counted_comments(count);
        push_str(&mut s, c.as_str());
        s
    }

    fn failure_message(&self) -> (s: String)
        ensures
            s@ == "clipboard failed"@,
    {
        owned("clipboard failed")
    }
}

/// One chosen agent pane (decided before the export runs): its input is filled, then it is
/// focused.
#[derive(Clone, Debug)]
pub struct Agent {
    pub pane: String,
    pub name: String,
}

impl ExportTarget for Agent {
    fn label(&self) -> (s: &'static str)
        ensures
            s@ == "agent"@,
    {
        "agent"
    }

    /// Names the agent it addressed: the send is irreversible.
    fn success_message(&self, count: usize) -> (s: String)
        ensures
            s@ == "added "@ + counted_spec(count as nat) + " to "@ + self.name@,
    {
        let mut s = owned("added ");
        let c = counted_comments(count);
        push_str(&mut s, c.as_str());
        push_str(&mut s, " to ");
        push_str(&mut s, self.name.as_str());
        s
    }

    fn failure_message(&self) -> (s: String)
        ensures
            s@ == "agent not found"@,
    {
        owned("agent not found")
    }
}

/// A clipboard tool and the arguments that make it read stdin into the system clipboard.
pub type Tool = (String, Vec<String>);

/// The platform's clipboard tools in preference order: `clip` on Windows; `pbcopy`, `wl-copy`,
/// `xclip`, `xsel` elsewhere.
pub fn clipboard_tools(os: HostOs) -> (tools: Vec<Tool>)
    ensures
        tools@.len() == if os == HostOs::Windows {
            1nat
        } else {
            4nat
        },
        os == HostOs::Windows ==> tools@[0].0@ == "clip"@ && tools@[0].1@.len() == 0,
        os == HostOs::Unix ==> tools@[0].0@ == "pbcopy"@ && tools@[0].1@.len() == 0
            && tools@[1].0@ == "wl-copy"@ && tools@[1].1@.len() == 0 && tools@[2].0@ == "xclip"@
            && views(tools@[2].1@) == seq!["-selection"@, "clipboard"@] && tools@[3].0@ == "xsel"@
            && views(tools@[3].1@) == seq!["--clipboard"@, "--input"@],
{
    let mut tools: Vec<Tool> = Vec::new();
    if os == HostOs::Windows {
        tools.push((owned("clip"), Vec::new()));
        return tools;
    }
    tools.push((owned("pbcopy"), Vec::new()));
    tools.push((owned("wl-copy"), Vec::new()));
    let mut xclip: Vec<String> = Vec::new();
    push_string(&mut xclip, owned("-selection"));
    push_string(&mut xclip, owned("clipboard"));
    proof {
        assert(views(xclip@) =~= seq!["-selection"@, "clipboard"@]);
    }
    tools.push((owned("xclip"), xclip));
    let mut xsel: Vec<String> = Vec::new();
    push_string(&mut xsel, owned("--clipboard"));
    push_string(&mut xsel, owned("--input"));
    proof {
        assert(views(xsel@) =~= seq!["--clipboard"@, "--input"@]);
    }
    tools.push((owned("xsel"), xsel));
    tools
}

/// The error when no clipboard tool is found, worded for the platform.
pub fn clipboard_not_found(os: HostOs) -> (s: &'static str)
    ensures
        s@ == if os == HostOs::Windows {
            "no clipboard tool found — `clip` should be built into Windows; use Send instead"@
        } else {
            "no clipboard tool found (install wl-clipboard, xclip, or xsel) — use Send instead"@
        },
{
    if os == HostOs::Windows {
        "no clipboard tool found — `clip` should be built into Windows; use Send instead"
    } else {
        "no clipboard tool found (install wl-clipboard, xclip, or xsel) — use Send instead"
    }
}

/// `present` answered `answer` when asked about (a string equal to) `name`.
pub open spec fn answered<F: Fn(&str) -> bool>(present: F, name: Seq<char>, answer: bool) -> bool {
    exists|s: &str| s@ == name && #[trigger] present.ensures((s,), answer)
}

/// The first tool whose command `present` reports on `PATH`, in list order. `present` is
/// asked about each tool in turn until one answers yes.
pub fn select_first_present<F: Fn(&str) -> bool>(tools: &[Tool], present: F) -> (r: Option<usize>)
    requires
        forall|s: &str| #[trigger] present.requires((s,)),
    ensures
        match r {
            Some(i) => i < tools@.len() && answered(present, tools@[i as int].0@, true) && forall|
                j: int,
            | 0 <= j < i ==> answered(present, (#[trigger] tools@[j]).0@, false),
            None => forall|j: int|
                0 <= j < tools@.len() ==> answered(present, (#[trigger] tools@[j]).0@, false),
        },
{
    let mut i: usize = 0;
    while i < tools.len()
        invariant
            i <= tools@.len(),
            forall|s: &str| #[trigger] present.requires((s,)),
            forall|j: int| 0 <= j < i ==> answered(present, (#[trigger] tools@[j]).0@, false),
        decreases tools@.len() - i,
    {
        let name = tools[i].0.as_str();
        let yes = present(name);
        if yes {
            return Some(i);
        }
        i = i + 1;
    }
    None
}

} // verus!

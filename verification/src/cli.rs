//! The agent-facing command line: `comment add|list|resolve|rm` and `skill-path`.
//!
//! Argument reading is exact: an unknown flag, a flag without its value, or a value the flag
//! does not accept is a usage error (exit 2); a store failure or an unknown id is exit 1 with
//! one line naming the problem; success is exit 0.

use vstd::prelude::*;

use crate::comments::{
    author_named, record_spec, side_named, to_value, Author, Status, StoredComment,
};
use crate::forge::gitlab::{parse_u64, parse_u64_spec};
use crate::json::Json;
use crate::model::{Comment, Side};
use crate::text::{decimal, line_end, lemma_line_end, owned, push_str, push_u64, str_eq, to_chars, from_chars, views};

verus! {

/// What one command line asks for.
#[derive(Debug, PartialEq, Eq)]
pub enum Invocation {
    /// `comment add`: store this comment under this author.
    Add { author: Author, comment: Comment },
    /// `comment list`: as JSON or as rows; resolved comments too, or only open ones.
    List { json: bool, all: bool },
    /// `comment resolve <id>`.
    Resolve { id: String },
    /// `comment rm <id>`.
    Remove { id: String },
    /// `skill-path`.
    SkillPath,
    /// A usage error: print the usage text, exit 2.
    Usage,
    /// Flags that read correctly but contradict each other: print the message, exit 2.
    Refused { message: String },
}

/// What `u32::from_str` reads.
pub open spec fn parse_u32_spec(s: Seq<char>) -> Option<u32> {
    match parse_u64_spec(s) {
        Some(n) => if n <= u32::MAX {
            Some(n as u32)
        } else {
            None
        },
        None => None,
    }
}

/// `u32::from_str`.
pub fn parse_u32(s: &str) -> (r: Option<u32>)
    ensures
        r == parse_u32_spec(s@),
{
    match parse_u64(s) {
        Some(n) => if n <= 0xffff_ffffu64 {
            Some(n as u32)
        } else {
            None
        },
        None => None,
    }
}

/// The number a line flag's value reads as (zero where it reads as none).
pub open spec fn u32_of(s: Seq<char>) -> u32 {
    match parse_u32_spec(s) {
        Some(n) => n,
        None => 0,
    }
}

/// `comment add` accepts value `v` for flag `f`.
pub open spec fn add_flag_ok(f: Seq<char>, v: Seq<char>) -> bool {
    ||| f == "--file"@
    ||| f == "--lines"@
    ||| f == "--text"@
    ||| (f == "--start"@ || f == "--end"@) && parse_u32_spec(v) is Some
    ||| f == "--side"@ && side_named(v) is Some
    ||| f == "--author"@ && author_named(v) is Some
}

/// The `q`-th flag–value pair of `r` is one `comment add` accepts.
pub open spec fn pair_ok(r: Seq<Seq<char>>, q: int) -> bool {
    add_flag_ok(r[2 * q], r[2 * q + 1])
}

/// `r` reads as flag–value pairs, each accepted.
pub open spec fn add_flags_ok(r: Seq<Seq<char>>) -> bool {
    &&& r.len() % 2 == 0
    &&& forall|q: int| 0 <= q < r.len() / 2 ==> #[trigger] pair_ok(r, q)
}

/// The value of the last of the first `n` pairs of `r` whose flag is `f`.
pub open spec fn last_value(r: Seq<Seq<char>>, f: Seq<char>, n: nat) -> Option<Seq<char>>
    decreases n,
{
    if n == 0 {
        None
    } else if r[2 * (n - 1)] == f {
        Some(r[2 * (n - 1) + 1])
    } else {
        last_value(r, f, (n - 1) as nat)
    }
}

/// The side `--side` chose (new when absent).
pub open spec fn side_of(v: Option<Seq<char>>) -> Side {
    match v {
        Some(s) => match side_named(s) {
            Some(side) => side,
            None => Side::New,
        },
        None => Side::New,
    }
}

/// The author `--author` chose (the agent when absent).
pub open spec fn author_of(v: Option<Seq<char>>) -> Author {
    match v {
        Some(s) => match author_named(s) {
            Some(a) => a,
            None => Author::Agent,
        },
        None => Author::Agent,
    }
}

/// What `comment add <r>` asks for.
pub open spec fn add_spec(r: Seq<Seq<char>>, inv: Invocation) -> bool {
    let n = (r.len() / 2) as nat;
    if !add_flags_ok(r) {
        inv is Usage
    } else {
        match (last_value(r, "--file"@, n), last_value(r, "--start"@, n), last_value(r, "--text"@, n)) {
            (Some(file), Some(st), Some(text)) => {
                let start = u32_of(st);
                let end = match last_value(r, "--end"@, n) {
                    Some(e) => u32_of(e),
                    None => start,
                };
                if start == 0 {
                    inv matches Invocation::Refused { message } && message@
                        == "--start must be >= 1"@
                } else if end < start {
                    inv matches Invocation::Refused { message } && message@
                        == "--end must be >= --start"@
                } else {
                    inv matches Invocation::Add { author, comment } && {
                        &&& author == author_of(last_value(r, "--author"@, n))
                        &&& comment.file@ == file
                        &&& comment.side == side_of(last_value(r, "--side"@, n))
                        &&& comment.start == start
                        &&& comment.end == end
                        &&& comment.lines@ == match last_value(r, "--lines"@, n) {
                            Some(l) => l,
                            None => Seq::<char>::empty(),
                        }
                        &&& comment.text@ == text
                        &&& comment.diff_anchored
                    }
                }
            },
            _ => inv is Usage,
        }
    }
}

/// What `comment list <r>` asks for.
pub open spec fn list_spec(r: Seq<Seq<char>>, inv: Invocation) -> bool {
    if forall|k: int| 0 <= k < r.len() ==> r[k] == "--json"@ || r[k] == "--all"@ {
        inv == (Invocation::List { json: r.contains("--json"@), all: r.contains("--all"@) })
    } else {
        inv is Usage
    }
}

/// What `comment <c>` asks for.
pub open spec fn comment_spec(c: Seq<Seq<char>>, inv: Invocation) -> bool {
    if c.len() >= 1 && c[0] == "add"@ {
        add_spec(c.skip(1), inv)
    } else if c.len() >= 1 && c[0] == "list"@ {
        list_spec(c.skip(1), inv)
    } else if c.len() >= 1 && c[0] == "resolve"@ {
        if c.len() == 2 {
            inv matches Invocation::Resolve { id } && id@ == c[1]
        } else {
            inv is Usage
        }
    } else if c.len() >= 1 && c[0] == "rm"@ {
        if c.len() == 2 {
            inv matches Invocation::Remove { id } && id@ == c[1]
        } else {
            inv is Usage
        }
    } else {
        inv is Usage
    }
}

/// What the command line `a` (program name first) asks for.
pub open spec fn invocation_spec(a: Seq<Seq<char>>, inv: Invocation) -> bool {
    if a.len() >= 2 && a[1] == "comment"@ {
        comment_spec(a.skip(2), inv)
    } else if a.len() >= 2 && a[1] == "skill-path"@ {
        inv is SkillPath
    } else {
        inv is Usage
    }
}

/// The add flags tell themselves apart.
proof fn lemma_add_flags_distinct()
    ensures
        "--file"@.len() == 6 && "--file"@[2] == 'f',
        "--lines"@.len() == 7 && "--lines"@[2] == 'l',
        "--text"@.len() == 6 && "--text"@[2] == 't',
        "--start"@.len() == 7 && "--start"@[2] == 's',
        "--end"@.len() == 5,
        "--side"@.len() == 6 && "--side"@[2] == 's',
        "--author"@.len() == 8,
{
    reveal_strlit("--file");
    reveal_strlit("--lines");
    reveal_strlit("--text");
    reveal_strlit("--start");
    reveal_strlit("--end");
    reveal_strlit("--side");
    reveal_strlit("--author");
}

/// The list flags tell themselves apart.
proof fn lemma_list_flags_distinct()
    ensures
        "--json"@ != "--all"@,
{
    reveal_strlit("--json");
    reveal_strlit("--all");
    assert("--json"@.len() != "--all"@.len());
}

/// The optional string's characters.
pub open spec fn opt_view(o: Option<String>) -> Option<Seq<char>> {
    match o {
        Some(s) => Some(s@),
        None => None,
    }
}

/// The value of a line flag as read so far.
pub open spec fn opt_line(v: Option<Seq<char>>) -> Option<u32> {
    match v {
        Some(s) => Some(u32_of(s)),
        None => None,
    }
}

/// Read `comment add`'s flags, `args[3..]`.
fn parse_add(args: &Vec<String>) -> (inv: Invocation)
    requires
        args@.len() >= 3,
    ensures
        add_spec(views(args@).skip(3), inv),
{
    let ghost r = views(args@).skip(3);
    let mut file: Option<String> = None;
    let mut start: Option<u32> = None;
    let mut end: Option<u32> = None;
    let mut side = Side::New;
    let mut lines = String::new();
    let mut author = Author::Agent;
    let mut text: Option<String> = None;
    let mut p: usize = 0;
    let mut i: usize = 3;
    proof {
        lemma_add_flags_distinct();
    }
    while i < args.len()
        invariant
            i == 3 + 2 * p,
            r == views(args@).skip(3),
            r.len() == args@.len() - 3,
            3 + 2 * p <= args@.len(),
            forall|q: int| 0 <= q < p ==> #[trigger] pair_ok(r, q),
            opt_view(file) == last_value(r, "--file"@, p as nat),
            opt_view(text) == last_value(r, "--text"@, p as nat),
            start == opt_line(last_value(r, "--start"@, p as nat)),
            end == opt_line(last_value(r, "--end"@, p as nat)),
            side == side_of(last_value(r, "--side"@, p as nat)),
            author == author_of(last_value(r, "--author"@, p as nat)),
            lines@ == match last_value(r, "--lines"@, p as nat) {
                Some(l) => l,
                None => Seq::<char>::empty(),
            },
            "--file"@.len() == 6 && "--file"@[2] == 'f',
            "--lines"@.len() == 7 && "--lines"@[2] == 'l',
            "--text"@.len() == 6 && "--text"@[2] == 't',
            "--start"@.len() == 7 && "--start"@[2] == 's',
            "--end"@.len() == 5,
            "--side"@.len() == 6 && "--side"@[2] == 's',
            "--author"@.len() == 8,
        decreases args@.len() - i,
    {
        assert(r[2 * p as int] == args@[i as int]@);
        if i + 1 >= args.len() {
            proof {
                assert(r.len() % 2 == 1);
            }
            return Invocation::Usage;
        }
        assert(r[2 * p + 1] == args@[i + 1]@);
        let flag = args[i].as_str();
        let value = args[i + 1].as_str();
        if str_eq(flag, "--file") {
            file = Some(owned(value));
        } else if str_eq(flag, "--start") {
            match parse_u32(value) {
                Some(n) => {
                    start = Some(n);
                },
                None => {
                    proof {
                        assert(!pair_ok(r, p as int));
                    }
                    return Invocation::Usage;
                },
            }
        } else if str_eq(flag, "--end") {
            match parse_u32(value) {
                Some(n) => {
                    end = Some(n);
                },
                None => {
                    proof {
                        assert(!pair_ok(r, p as int));
                    }
                    return Invocation::Usage;
                },
            }
        } else if str_eq(flag, "--side") {
            match crate::comments::side_parse(value) {
                Some(s) => {
                    side = s;
                },
                None => {
                    proof {
                        assert(!pair_ok(r, p as int));
                    }
                    return Invocation::Usage;
                },
            }
        } else if str_eq(flag, "--lines") {
            lines = owned(value);
        } else if str_eq(flag, "--author") {
            match Author::parse(value) {
                Some(a) => {
                    author = a;
                },
                None => {
                    proof {
                        assert(!pair_ok(r, p as int));
                    }
                    return Invocation::Usage;
                },
            }
        } else if str_eq(flag, "--text") {
            text = Some(owned(value));
        } else {
            proof {
                assert(!pair_ok(r, p as int));
            }
            return Invocation::Usage;
        }
        proof {
            assert(pair_ok(r, p as int));
        }
        p = p + 1;
        i = i + 2;
    }
    let ghost n = (r.len() / 2) as nat;
    proof {
        assert(n == p);
        assert(add_flags_ok(r));
    }
    match (file, start, text) {
        (Some(file), Some(start), Some(text)) => {
            let end = match end {
                Some(e) => e,
                None => start,
            };
            if start == 0 {
                Invocation::Refused { message: owned("--start must be >= 1") }
            } else if end < start {
                Invocation::Refused { message: owned("--end must be >= --start") }
            } else {
                Invocation::Add {
                    author,
                    comment: Comment { file, side, start, end, lines, text, diff_anchored: true },
                }
            }
        },
        _ => Invocation::Usage,
    }
}

/// Read `comment list`'s flags, `args[3..]`.
fn parse_list(args: &Vec<String>) -> (inv: Invocation)
    requires
        args@.len() >= 3,
    ensures
        list_spec(views(args@).skip(3), inv),
{
    let ghost r = views(args@).skip(3);
    let mut json = false;
    let mut all = false;
    let mut i: usize = 3;
    while i < args.len()
        invariant
            r == views(args@).skip(3),
            3 <= i <= args@.len(),
            forall|k: int| 0 <= k < i - 3 ==> r[k] == "--json"@ || r[k] == "--all"@,
            json == r.take(i - 3).contains("--json"@),
            all == r.take(i - 3).contains("--all"@),
        decreases args@.len() - i,
    {
        assert(r[i - 3] == args@[i as int]@);
        let flag = args[i].as_str();
        if str_eq(flag, "--json") {
            json = true;
        } else if str_eq(flag, "--all") {
            all = true;
        } else {
            return Invocation::Usage;
        }
        proof {
            lemma_list_flags_distinct();
            let t = r.take(i - 2);
            assert(t =~= r.take(i - 3).push(r[i - 3]));
            assert(t[i - 3] == r[i - 3]);
            if json {
                if !r.take(i - 3).contains("--json"@) {
                    assert(t.contains("--json"@));
                }
            }
            if all {
                if !r.take(i - 3).contains("--all"@) {
                    assert(t.contains("--all"@));
                }
            }
            assert(t.contains("--json"@) ==> json) by {
                if t.contains("--json"@) {
                    let k = choose|k: int| 0 <= k < t.len() && t[k] == "--json"@;
                    if k < i - 3 {
                        assert(r.take(i - 3)[k] == "--json"@);
                    }
                }
            }
            assert(t.contains("--all"@) ==> all) by {
                if t.contains("--all"@) {
                    let k = choose|k: int| 0 <= k < t.len() && t[k] == "--all"@;
                    if k < i - 3 {
                        assert(r.take(i - 3)[k] == "--all"@);
                    }
                }
            }
        }
        i = i + 1;
    }
    proof {
        assert(r.take(i - 3) =~= r);
    }
    Invocation::List { json, all }
}

/// What the command line `args` (program name first) asks for.
pub fn parse_invocation(args: &Vec<String>) -> (inv: Invocation)
    ensures
        invocation_spec(views(args@), inv),
{
    let ghost a = views(args@);
    if args.len() >= 2 && str_eq(args[1].as_str(), "comment") {
        let ghost c = a.skip(2);
        if args.len() >= 3 {
            assert(c[0] == args@[2]@);
        }
        if args.len() >= 3 && str_eq(args[2].as_str(), "add") {
            proof {
                assert(c.skip(1) =~= a.skip(3));
            }
            parse_add(args)
        } else if args.len() >= 3 && str_eq(args[2].as_str(), "list") {
            proof {
                assert(c.skip(1) =~= a.skip(3));
            }
            parse_list(args)
        } else if args.len() >= 3 && str_eq(args[2].as_str(), "resolve") {
            if args.len() == 4 {
                assert(c[1] == args@[3]@);
                Invocation::Resolve { id: owned(args[3].as_str()) }
            } else {
                Invocation::Usage
            }
        } else if args.len() >= 3 && str_eq(args[2].as_str(), "rm") {
            if args.len() == 4 {
                assert(c[1] == args@[3]@);
                Invocation::Remove { id: owned(args[3].as_str()) }
            } else {
                Invocation::Usage
            }
        } else {
            Invocation::Usage
        }
    } else if args.len() >= 2 && str_eq(args[1].as_str(), "skill-path") {
        Invocation::SkillPath
    } else {
        Invocation::Usage
    }
}

/// The rows `comment list` shows: every comment with `all`, else the open ones, in order.
pub fn listed(rows: &Vec<StoredComment>, all: bool) -> (out: Vec<StoredComment>)
    ensures
        out@ == rows@.filter(|c: StoredComment| all || c.status == Status::Open),
{
    let ghost keep = |c: StoredComment| all || c.status == Status::Open;
    let mut out: Vec<StoredComment> = Vec::new();
    let mut i: usize = 0;
    while i < rows.len()
        invariant
            i <= rows@.len(),
            keep == (|c: StoredComment| all || c.status == Status::Open),
            out@ == rows@.take(i as int).filter(keep),
        decreases rows@.len() - i,
    {
        proof {
            assert(rows@.take(i + 1) =~= rows@.take(i as int).push(rows@[i as int]));
            rows@.take(i as int).lemma_filter_push(rows@[i as int], keep);
        }
        if all || matches!(rows[i].status, Status::Open) {
            out.push(rows[i].duplicate());
        }
        i = i + 1;
    }
    proof {
        assert(rows@.take(rows@.len() as int) =~= rows@);
    }
    out
}

/// The first line of `t` as `str::lines` gives it: up to the first `\n`, without a `\r`
/// just before it; empty for empty text.
pub open spec fn first_line_spec(t: Seq<char>) -> Seq<char> {
    let k = line_end(t, 0);
    let l = t.take(k as int);
    if k < t.len() && l.len() > 0 && l.last() == '\r' {
        l.drop_last()
    } else {
        l
    }
}

/// The first line of `t`.
pub fn first_line(t: &str) -> (out: String)
    ensures
        out@ == first_line_spec(t@),
{
    let cs = to_chars(t);
    let mut k: usize = 0;
    while k < cs.len() && cs[k] != '\n'
        invariant
            cs@ == t@,
            k <= cs@.len(),
            line_end(cs@, k as nat) == line_end(cs@, 0),
        decreases cs@.len() - k,
    {
        k = k + 1;
    }
    proof {
        lemma_line_end(cs@, 0);
    }
    let ghost l = cs@.take(k as int);
    let stop: usize = if k < cs.len() && k > 0 && cs[k - 1] == '\r' { k - 1 } else { k };
    let mut out = String::new();
    let mut j: usize = 0;
    while j < stop
        invariant
            cs@ == t@,
            stop <= k <= cs@.len(),
            j <= stop,
            out@ == cs@.take(j as int),
        decreases stop - j,
    {
        crate::text::push_char(&mut out, cs[j]);
        j = j + 1;
        proof {
            assert(out@ =~= cs@.take(j as int));
        }
    }
    proof {
        if stop < k {
            assert(cs@.take(j as int) =~= l.drop_last());
        } else {
            assert(cs@.take(j as int) =~= l);
        }
    }
    out
}

/// One row of `comment list`: id, status, author, `file:start-end`, the first line of the
/// text, two spaces apart.
pub open spec fn row_spec(sc: StoredComment) -> Seq<char> {
    sc.id@ + "  "@ + sc.status.spelling() + "  "@ + sc.author.spelling() + "  "@
        + sc.comment.file@ + ":"@ + decimal(sc.comment.start as nat) + "-"@ + decimal(
        sc.comment.end as nat,
    ) + "  "@ + first_line_spec(sc.comment.text@)
}

/// One row of `comment list`.
pub fn row_line(sc: &StoredComment) -> (out: String)
    ensures
        out@ == row_spec(*sc),
{
    let mut out = owned(sc.id.as_str());
    push_str(&mut out, "  ");
    push_str(&mut out, sc.status.as_str());
    push_str(&mut out, "  ");
    push_str(&mut out, sc.author.as_str());
    push_str(&mut out, "  ");
    push_str(&mut out, sc.comment.file.as_str());
    push_str(&mut out, ":");
    push_u64(&mut out, sc.comment.start as u64);
    push_str(&mut out, "-");
    push_u64(&mut out, sc.comment.end as u64);
    push_str(&mut out, "  ");
    let line = first_line(sc.comment.text.as_str());
    push_str(&mut out, line.as_str());
    out
}

/// `comment list --json`: an array of the rows' stored documents, in order.
pub fn list_json(rows: &Vec<StoredComment>) -> (v: Json)
    ensures
        v matches Json::Array(items) && items@.len() == rows@.len() && forall|i: int|
            0 <= i < rows@.len() ==> record_spec(rows@[i], #[trigger] items@[i]),
{
    let mut items: Vec<Json> = Vec::new();
    let mut i: usize = 0;
    while i < rows.len()
        invariant
            i <= rows@.len(),
            items@.len() == i,
            forall|j: int| 0 <= j < i ==> record_spec(rows@[j], #[trigger] items@[j]),
        decreases rows@.len() - i,
    {
        items.push(to_value(&rows[i]));
        i = i + 1;
    }
    Json::Array(items)
}

/// What `resolve` or `rm` of `id` reports once the store answered: nothing when the comment
/// changed; else the one line naming the problem (exit 1).
pub fn change_report(id: &str, changed: Result<bool, String>) -> (r: Option<String>)
    ensures
        match changed {
            Ok(true) => r is None,
            Ok(false) => r matches Some(m) && m@ == "no such comment: "@ + id@,
            Err(e) => r matches Some(m) && m@ == e@,
        },
{
    match changed {
        Ok(true) => None,
        Ok(false) => {
            let mut m = owned("no such comment: ");
            push_str(&mut m, id);
            Some(m)
        },
        Err(e) => Some(e),
    }
}

/// Where the skill file lies relative to a development checkout.
pub open spec fn skill_rel() -> Seq<char> {
    "skills/reviewr-comments/SKILL.md"@
}

/// Where `skill-path` points: the installed file beside the executable when it exists, else
/// the checkout's when that exists; else the line naming both places looked at (exit 1),
/// with the relative path standing in for an installed place that could not be formed.
pub fn skill_location(installed: Option<String>, installed_exists: bool, dev_exists: bool) -> (r: Result<String, String>)
    ensures
        match installed {
            Some(p) if installed_exists => r matches Ok(q) && q@ == p@,
            _ => if dev_exists {
                r matches Ok(q) && q@ == skill_rel()
            } else {
                r matches Err(m) && m@ == "SKILL.md not found at "@ + match installed {
                    Some(p) => p@,
                    None => skill_rel(),
                } + " or "@ + skill_rel()
            },
        },
{
    match installed {
        Some(p) if installed_exists => Ok(p),
        _ => if dev_exists {
            Ok(owned("skills/reviewr-comments/SKILL.md"))
        } else {
            let mut m = owned("SKILL.md not found at ");
            match installed {
                Some(p) => push_str(&mut m, p.as_str()),
                None => push_str(&mut m, "skills/reviewr-comments/SKILL.md"),
            }
            push_str(&mut m, " or ");
            push_str(&mut m, "skills/reviewr-comments/SKILL.md");
            Err(m)
        },
    }
}

} // verus!

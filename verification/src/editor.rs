//! Resolving the editor command for `edit` on a file.
//!
//! Two sources, in order: the `editor` config key, whose value is a template the user owns
//! outright, and `$VISUAL`/`$EDITOR`, whose binary name selects the argument dialect. This
//! module is process-free: it builds an argv, and the caller spawns it.

use vstd::prelude::*;

use crate::text::{
    all_ws, contains_seq, decimal, from_chars, has_prefix, is_blank, is_ws, is_whitespace,
    push_char, push_string, str_eq, to_chars, u64_string, views,
};

verus! {

/// How an editor spells "open this file at this line".
#[derive(Clone, Copy, Debug, PartialEq, Eq, Structural)]
pub enum LineArg {
    /// `+42 <path>` — the vi family, nano, micro, kakoune, emacs, `BBEdit`, gedit.
    Plus,
    /// `<path>:42` — helix, Zed, Sublime Text.
    Suffix,
    /// `-g <path>:42` — the VS Code family.
    Goto,
    /// `--line 42 <path>` — the `JetBrains` family, Xcode, Kate, `TextMate`.
    Flag,
}

/// One editor family: how it takes a line, and whether it draws in a window of its own.
#[derive(Clone, Copy, Debug, PartialEq, Eq, Structural)]
pub struct Dialect {
    pub line: LineArg,
    pub window: bool,
}

/// The host platform, where a binary name means different editors on different systems.
#[derive(Clone, Copy, Debug, PartialEq, Eq, Structural)]
pub enum Platform {
    MacOs,
    Other,
}

/// A resolved editor invocation: the program to run, its full argument list, and whether it
/// wants the terminal.
#[derive(Clone, Debug, PartialEq, Eq)]
pub struct EditorCommand {
    pub program: String,
    pub args: Vec<String>,
    pub wants_terminal: bool,
}

/// Why no editor ran.
#[derive(Debug, PartialEq, Eq, Structural)]
pub enum NoEditor {
    /// Neither the `editor` key nor `$VISUAL` nor `$EDITOR` is set.
    Unset,
    /// A value is set, but its first word is not a program name.
    NamesNoProgram,
}

/// The final component of path `p` as the standard library reads it, if there is one.
pub uninterp spec fn path_file_name(p: Seq<char>) -> Option<Seq<char>>;

/// The Unicode lowercase mapping of `s`.
pub uninterp spec fn lowercase(s: Seq<char>) -> Seq<char>;

/// `Path::file_name` of `p`, converted to a string.
#[verifier::external_body]
fn file_name_of(p: &str) -> (out: Option<String>)
    ensures
        match out {
            Some(n) => path_file_name(p@) == Some(n@),
            None => path_file_name(p@) is None,
        },
{
    std::path::Path::new(p).file_name().map(|n| n.to_string_lossy().into_owned())
}

/// `str::to_lowercase`: of an ASCII string, its ASCII lowercase.
#[verifier::external_body]
pub(crate) fn to_lowercase(s: &str) -> (out: String)
    ensures
        out@ == lowercase(s@),
        (forall|i: int| 0 <= i < s@.len() ==> (#[trigger] s@[i] as u32) < 128) ==> out@
            == crate::text::ascii_lower_seq(s@),
{
    s.to_lowercase()
}

/// The dialect a lowercase binary name selects.
pub open spec fn dialect_named(platform: Platform, n: Seq<char>) -> Option<Dialect> {
    if n == "vi"@ || n == "vim"@ || n == "nvim"@ || n == "lvim"@ || n == "vis"@ || n == "joe"@
        || n == "nano"@ || n == "micro"@ || n == "kak"@ || n == "emacs"@ || n == "emacsclient"@ {
        Some(Dialect { line: LineArg::Plus, window: false })
    } else if n == "hx"@ || n == "helix"@ {
        Some(Dialect { line: LineArg::Suffix, window: false })
    } else if n == "mvim"@ || n == "gvim"@ || n == "bbedit"@ || n == "gedit"@ {
        Some(Dialect { line: LineArg::Plus, window: true })
    } else if n == "code"@ || n == "code-insiders"@ || n == "codium"@ || n == "vscodium"@ || n
        == "cursor"@ || n == "windsurf"@ || n == "positron"@ {
        Some(Dialect { line: LineArg::Goto, window: true })
    } else if n == "subl"@ || n == "sublime_text"@ || n == "zed"@ || n == "zeditor"@ || n
        == "zedit"@ {
        Some(Dialect { line: LineArg::Suffix, window: true })
    } else if n == "xed"@ {
        Some(
            Dialect {
                line: if platform == Platform::MacOs {
                    LineArg::Flag
                } else {
                    LineArg::Plus
                },
                window: true,
            },
        )
    } else if n == "mate"@ || n == "kate"@ || n == "idea"@ || n == "pycharm"@ || n
        == "webstorm"@ || n == "goland"@ || n == "clion"@ || n == "phpstorm"@ || n
        == "rubymine"@ || n == "rider"@ || n == "datagrip"@ || n == "rustrover"@ || n
        == "dataspell"@ || n == "fleet"@ {
        Some(Dialect { line: LineArg::Flag, window: true })
    } else {
        None
    }
}

/// The dialect for a binary, matched on its lowercased file name.
pub open spec fn dialect_spec(platform: Platform, program: Seq<char>) -> Option<Dialect> {
    match path_file_name(program) {
        Some(n) => dialect_named(platform, lowercase(n)),
        None => None,
    }
}

fn dialect_of_name(platform: Platform, n: &str) -> (d: Option<Dialect>)
    ensures
        d == dialect_named(platform, n@),
{
    if str_eq(n, "vi") || str_eq(n, "vim") || str_eq(n, "nvim") || str_eq(n, "lvim") || str_eq(
        n,
        "vis",
    ) || str_eq(n, "joe") || str_eq(n, "nano") || str_eq(n, "micro") || str_eq(n, "kak")
        || str_eq(n, "emacs") || str_eq(n, "emacsclient") {
        Some(Dialect { line: LineArg::Plus, window: false })
    } else if str_eq(n, "hx") || str_eq(n, "helix") {
        Some(Dialect { line: LineArg::Suffix, window: false })
    } else if str_eq(n, "mvim") || str_eq(n, "gvim") || str_eq(n, "bbedit") || str_eq(n, "gedit") {
        Some(Dialect { line: LineArg::Plus, window: true })
    } else if str_eq(n, "code") || str_eq(n, "code-insiders") || str_eq(n, "codium") || str_eq(
        n,
        "vscodium",
    ) || str_eq(n, "cursor") || str_eq(n, "windsurf") || str_eq(n, "positron") {
        Some(Dialect { line: LineArg::Goto, window: true })
    } else if str_eq(n, "subl") || str_eq(n, "sublime_text") || str_eq(n, "zed") || str_eq(
        n,
        "zeditor",
    ) || str_eq(n, "zedit") {
        Some(Dialect { line: LineArg::Suffix, window: true })
    } else if str_eq(n, "xed") {
        let line = if platform == Platform::MacOs {
            LineArg::Flag
        } else {
            LineArg::Plus
        };
        Some(Dialect { line, window: true })
    } else if str_eq(n, "mate") || str_eq(n, "kate") || str_eq(n, "idea") || str_eq(n, "pycharm")
        || str_eq(n, "webstorm") || str_eq(n, "goland") || str_eq(n, "clion") || str_eq(
        n,
        "phpstorm",
    ) || str_eq(n, "rubymine") || str_eq(n, "rider") || str_eq(n, "datagrip") || str_eq(
        n,
        "rustrover",
    ) || str_eq(n, "dataspell") || str_eq(n, "fleet") {
        Some(Dialect { line: LineArg::Flag, window: true })
    } else {
        None
    }
}

/// The dialect for a binary, matched on its file name so an absolute `$EDITOR` resolves too.
pub fn dialect_for(platform: Platform, program: &str) -> (d: Option<Dialect>)
    ensures
        d == dialect_spec(platform, program@),
{
    match file_name_of(program) {
        Some(name) => {
            let lower = to_lowercase(name.as_str());
            dialect_of_name(platform, lower.as_str())
        },
        None => None,
    }
}

/// The word-splitter's state after some prefix of its input.
pub struct SplitState {
    pub words: Seq<Seq<char>>,
    pub word: Seq<char>,
    pub started: bool,
    pub quote: Option<char>,
}

/// One character of the quote-aware word splitter: a quote closes at its match, an
/// unquoted quote character opens one (and starts a word, so `''` is a word), unquoted white
/// space ends a started word, and anything else joins the current word.
pub open spec fn split_step(st: SplitState, ch: char) -> SplitState {
    match st.quote {
        Some(q) => if ch == q {
            SplitState { words: st.words, word: st.word, started: st.started, quote: None }
        } else {
            SplitState {
                words: st.words,
                word: st.word.push(ch),
                started: st.started,
                quote: st.quote,
            }
        },
        None => if ch == '"' || ch == '\'' {
            SplitState { words: st.words, word: st.word, started: true, quote: Some(ch) }
        } else if is_ws(ch) {
            if st.started {
                SplitState {
                    words: st.words.push(st.word),
                    word: Seq::empty(),
                    started: false,
                    quote: None,
                }
            } else {
                st
            }
        } else {
            SplitState { words: st.words, word: st.word.push(ch), started: true, quote: None }
        },
    }
}

/// The splitter's state after the first `n` characters of `s`.
pub open spec fn split_run(s: Seq<char>, n: nat) -> SplitState
    decreases n,
{
    if n == 0 || n > s.len() {
        SplitState { words: Seq::empty(), word: Seq::empty(), started: false, quote: None }
    } else {
        split_step(split_run(s, (n - 1) as nat), s[n - 1])
    }
}

/// The words of a command line, honouring quotes (no shell runs the command).
pub open spec fn split_words(s: Seq<char>) -> Seq<Seq<char>> {
    let st = split_run(s, s.len());
    if st.started {
        st.words.push(st.word)
    } else {
        st.words
    }
}

/// Split a command into words, honouring quotes. A quote closes at its match or at the end
/// of the string.
pub fn split_command(value: &str) -> (words: Vec<String>)
    ensures
        views(words@) == split_words(value@),
{
    let cs = to_chars(value);
    let mut words: Vec<String> = Vec::new();
    let mut word = String::new();
    let mut started = false;
    let mut quote: Option<char> = None;
    let mut i: usize = 0;
    while i < cs.len()
        invariant
            i <= cs@.len(),
            cs@ == value@,
            ({
                let st = split_run(value@, i as nat);
                &&& views(words@) == st.words
                &&& word@ == st.word
                &&& started == st.started
                &&& quote == st.quote
            }),
        decreases cs@.len() - i,
    {
        let ch = cs[i];
        proof {
            assert(split_run(value@, (i + 1) as nat) == split_step(
                split_run(value@, i as nat),
                ch,
            ));
        }
        match quote {
            Some(q) => {
                if ch == q {
                    quote = None;
                } else {
                    push_char(&mut word, ch);
                }
            },
            None => {
                if ch == '"' || ch == '\'' {
                    quote = Some(ch);
                    started = true;
                } else if is_whitespace(ch) {
                    if started {
                        let done = word;
                        proof {
                            assert(views(words@.push(done)) =~= views(words@).push(done@));
                        }
                        words.push(done);
                        word = String::new();
                        started = false;
                    }
                } else {
                    push_char(&mut word, ch);
                    started = true;
                }
            },
        }
        i = i + 1;
    }
    if started {
        let done = word;
        proof {
            assert(views(words@.push(done)) =~= views(words@).push(done@));
        }
        words.push(done);
    }
    words
}

/// `s` with every occurrence of the non-empty `pat` replaced by `rep`, scanning left to
/// right (`str::replace`).
pub open spec fn replace_all(s: Seq<char>, pat: Seq<char>, rep: Seq<char>) -> Seq<char>
    decreases s.len(),
{
    if s.len() == 0 || pat.len() == 0 {
        s
    } else if has_prefix(s, pat) {
        rep + replace_all(s.skip(pat.len() as int), pat, rep)
    } else {
        seq![s[0]] + replace_all(s.skip(1), pat, rep)
    }
}

proof fn lemma_replace_all_step(s: Seq<char>, pat: Seq<char>, rep: Seq<char>, i: int)
    requires
        0 <= i < s.len(),
        pat.len() > 0,
    ensures
        has_prefix(s.skip(i), pat) ==> replace_all(s.skip(i), pat, rep) == rep + replace_all(
            s.skip(i + pat.len()),
            pat,
            rep,
        ),
        !has_prefix(s.skip(i), pat) ==> replace_all(s.skip(i), pat, rep) == seq![s[i]]
            + replace_all(s.skip(i + 1), pat, rep),
{
    assert(s.skip(i).len() > 0);
    if has_prefix(s.skip(i), pat) {
        assert(s.skip(i).skip(pat.len() as int) =~= s.skip(i + pat.len()));
    } else {
        assert(s.skip(i).skip(1) =~= s.skip(i + 1));
        assert(s.skip(i)[0] == s[i]);
    }
}

/// Replace every occurrence of `pat` (non-empty) in `s` by `rep`.
pub fn replace(s: &str, pat: &str, rep: &str) -> (out: String)
    requires
        pat@.len() > 0,
    ensures
        out@ == replace_all(s@, pat@, rep@),
{
    let sc = to_chars(s);
    let pc = to_chars(pat);
    let rc = to_chars(rep);
    let mut out: Vec<char> = Vec::new();
    let mut i: usize = 0;
    proof {
        assert(sc@.skip(0) =~= sc@);
        assert(out@ + sc@ =~= sc@);
    }
    while i < sc.len()
        invariant
            i <= sc@.len(),
            sc@ == s@,
            pc@ == pat@,
            rc@ == rep@,
            pat@.len() > 0,
            out@ + replace_all(sc@.skip(i as int), pc@, rc@) == replace_all(sc@, pc@, rc@),
        decreases sc@.len() - i,
    {
        proof {
            lemma_replace_all_step(sc@, pc@, rc@, i as int);
        }
        let hit = crate::text::matches_at(sc.as_slice(), pc.as_slice(), i);
        proof {
            if hit {
                assert(sc@.skip(i as int).take(pc@.len() as int) =~= sc@.subrange(
                    i as int,
                    i + pc@.len(),
                ));
            } else {
                if pc@.len() <= sc@.skip(i as int).len() {
                    assert(sc@.skip(i as int).take(pc@.len() as int) =~= sc@.subrange(
                        i as int,
                        i + pc@.len(),
                    ));
                }
            }
        }
        if hit {
            let ghost before = out@;
            let mut k: usize = 0;
            while k < rc.len()
                invariant
                    k <= rc@.len(),
                    out@ == before + rc@.take(k as int),
                decreases rc@.len() - k,
            {
                out.push(rc[k]);
                k = k + 1;
                proof {
                    assert(out@ =~= before + rc@.take(k as int));
                }
            }
            proof {
                assert(rc@.take(rc@.len() as int) =~= rc@);
                assert(out@ + replace_all(sc@.skip(i + pc@.len()), pc@, rc@) =~= before + (rc@
                    + replace_all(sc@.skip(i + pc@.len()), pc@, rc@)));
            }
            i = i + pc.len();
        } else {
            let ghost before = out@;
            out.push(sc[i]);
            proof {
                assert(out@ + replace_all(sc@.skip(i + 1), pc@, rc@) =~= before + (seq![sc@[i as int]]
                    + replace_all(sc@.skip(i + 1), pc@, rc@)));
            }
            i = i + 1;
        }
    }
    proof {
        assert(sc@.skip(i as int).len() == 0);
        assert(out@ + replace_all(sc@.skip(i as int), pc@, rc@) =~= out@);
    }
    from_chars(out.as_slice())
}

/// Whether an argument list carries a long wait flag.
pub open spec fn has_wait_flag(args: Seq<Seq<char>>) -> bool {
    exists|i: int| 0 <= i < args.len() && (args[i] == "--wait"@ || args[i] == "--block"@)
}

/// Whether the command draws in the pane it was launched from: a long wait flag names a
/// window editor whatever its binary is called; failing that, the binary's own name decides,
/// and an unknown binary gets the pane.
pub open spec fn wants_terminal_spec(
    platform: Platform,
    program: Seq<char>,
    args: Seq<Seq<char>>,
) -> bool {
    if has_wait_flag(args) {
        false
    } else {
        match dialect_spec(platform, program) {
            Some(d) => !d.window,
            None => true,
        }
    }
}

fn wants_terminal(platform: Platform, program: &str, args: &Vec<String>) -> (b: bool)
    ensures
        b == wants_terminal_spec(platform, program@, views(args@)),
{
    let mut i: usize = 0;
    while i < args.len()
        invariant
            i <= args@.len(),
            forall|j: int|
                0 <= j < i ==> !(#[trigger] views(args@)[j] == "--wait"@ || views(args@)[j]
                    == "--block"@),
        decreases args@.len() - i,
    {
        if str_eq(args[i].as_str(), "--wait") || str_eq(args[i].as_str(), "--block") {
            proof {
                assert(views(args@)[i as int] == args@[i as int]@);
            }
            return false;
        }
        i = i + 1;
    }
    match dialect_for(platform, program) {
        Some(d) => !d.window,
        None => true,
    }
}

/// The words of a template after `{line}` then `{file}` substitution.
pub open spec fn substitute(w: Seq<char>, file: Seq<char>, line: nat) -> Seq<char> {
    replace_all(replace_all(w, "{line}"@, decimal(line)), "{file}"@, file)
}

/// What the `editor` template `template` resolves to for `file` at `line`.
pub open spec fn template_result(
    platform: Platform,
    template: Seq<char>,
    file: Seq<char>,
    line: nat,
) -> Result<(Seq<char>, Seq<Seq<char>>), NoEditor> {
    let words = split_words(template).map_values(|w: Seq<char>| substitute(w, file, line));
    if words.len() == 0 || words[0].len() == 0 {
        Err(NoEditor::NamesNoProgram)
    } else {
        let rest = words.skip(1);
        let args = if contains_seq(template, "{file}"@) {
            rest
        } else {
            rest.push(file)
        };
        Ok((words[0], args))
    }
}

/// The line-argument shape for a dialect, appended after the value's words.
pub open spec fn line_args(d: Option<Dialect>, file: Seq<char>, line: nat) -> Seq<Seq<char>> {
    match d {
        None => seq![file],
        Some(d) => match d.line {
            LineArg::Plus => seq![seq!['+'] + decimal(line), file],
            LineArg::Suffix => seq![file + seq![':'] + decimal(line)],
            LineArg::Goto => seq!["-g"@, file + seq![':'] + decimal(line)],
            LineArg::Flag => seq!["--line"@, decimal(line), file],
        },
    }
}

/// The environment value in force: `$VISUAL` unless blank, then `$EDITOR` unless blank.
pub open spec fn env_value(visual: Option<Seq<char>>, editor: Option<Seq<char>>) -> Option<
    Seq<char>,
> {
    match visual {
        Some(v) if !all_ws(v) => Some(v),
        _ => match editor {
            Some(e) if !all_ws(e) => Some(e),
            _ => None,
        },
    }
}

/// What an environment editor value resolves to for `file` at `line`.
pub open spec fn env_result(
    platform: Platform,
    value: Seq<char>,
    file: Seq<char>,
    line: nat,
) -> Result<(Seq<char>, Seq<Seq<char>>), NoEditor> {
    let words = split_words(value);
    if words.len() == 0 || words[0].len() == 0 {
        Err(NoEditor::NamesNoProgram)
    } else {
        Ok(
            (
                words[0],
                words.skip(1) + line_args(dialect_spec(platform, words[0]), file, line),
            ),
        )
    }
}

/// The full resolution: the template when configured, else the environment.
pub open spec fn resolve_spec(
    platform: Platform,
    configured: Option<Seq<char>>,
    visual: Option<Seq<char>>,
    editor: Option<Seq<char>>,
    file: Seq<char>,
    line: nat,
) -> Result<(Seq<char>, Seq<Seq<char>>), NoEditor> {
    match configured {
        Some(t) => template_result(platform, t, file, line),
        None => match env_value(visual, editor) {
            Some(v) => env_result(platform, v, file, line),
            None => Err(NoEditor::Unset),
        },
    }
}

/// An optional borrowed string's view.
pub open spec fn opt_view(o: Option<&str>) -> Option<Seq<char>> {
    match o {
        Some(s) => Some(s@),
        None => None,
    }
}

/// Whether a command matches its resolution: same program and arguments, and the pane goes
/// to it exactly when [`wants_terminal_spec`] says so.
pub open spec fn command_matches(
    platform: Platform,
    r: Result<EditorCommand, NoEditor>,
    s: Result<(Seq<char>, Seq<Seq<char>>), NoEditor>,
) -> bool {
    match (r, s) {
        (Ok(c), Ok((p, a))) => c.program@ == p && views(c.args@) == a && c.wants_terminal
            == wants_terminal_spec(platform, p, a),
        (Err(e1), Err(e2)) => e1 == e2,
        _ => false,
    }
}

fn first_and_rest(words: Vec<String>) -> (out: (String, Vec<String>))
    requires
        words@.len() > 0,
    ensures
        out.0@ == views(words@)[0],
        views(out.1@) == views(words@).skip(1),
{
    let mut words = words;
    let ghost orig = words@;
    let first = words.remove(0);
    proof {
        assert(views(words@) =~= views(orig).skip(1));
    }
    (first, words)
}

/// Build the command from a user template, substituting every `{line}` and then every
/// `{file}` — so a path is only ever placed into text nothing reads again, and a file named
/// `{line}.cshtml` stays a file name. A template that names no `{file}` gets the path
/// appended.
pub fn from_template(platform: Platform, template: &str, file: &str, line: u32) -> (r: Result<
    EditorCommand,
    NoEditor,
>)
    ensures
        command_matches(platform, r, template_result(platform, template@, file@, line as nat)),
{
    let named_file = crate::text::contains_str(template, "{file}");
    let line_s = u64_string(line as u64);
    let raw = split_command(template);
    let ghost spec_words = split_words(template@).map_values(
        |w: Seq<char>| substitute(w, file@, line as nat),
    );
    let mut words: Vec<String> = Vec::new();
    let mut i: usize = 0;
    while i < raw.len()
        invariant
            i <= raw@.len(),
            views(raw@) == split_words(template@),
            line_s@ == decimal(line as nat),
            spec_words == split_words(template@).map_values(
                |w: Seq<char>| substitute(w, file@, line as nat),
            ),
            views(words@) == spec_words.take(i as int),
        decreases raw@.len() - i,
    {
        proof {
            reveal_strlit("{line}");
            reveal_strlit("{file}");
        }
        let once = replace(raw[i].as_str(), "{line}", line_s.as_str());
        let twice = replace(once.as_str(), "{file}", file);
        proof {
            assert(views(raw@)[i as int] == raw@[i as int]@);
            assert(twice@ == spec_words[i as int]);
        }
        push_string(&mut words, twice);
        i = i + 1;
        proof {
            assert(views(words@) =~= spec_words.take(i as int));
        }
    }
    proof {
        assert(spec_words.take(raw@.len() as int) =~= spec_words);
    }
    if words.len() == 0 || words[0].as_str().is_empty() {
        proof {
            if words@.len() > 0 {
                assert(views(words@)[0] == words@[0]@);
            }
        }
        return Err(NoEditor::NamesNoProgram);
    }
    proof {
        assert(views(words@)[0] == words@[0]@);
    }
    let (program, mut args) = first_and_rest(words);
    if !named_file {
        push_string(&mut args, crate::text::owned(file));
    }
    let wants = wants_terminal(platform, program.as_str(), &args);
    Ok(EditorCommand { program, args, wants_terminal: wants })
}

fn owned_opt_nonblank(o: Option<&str>) -> (r: Option<String>)
    ensures
        match o {
            Some(s) if !all_ws(s@) => r matches Some(v) && v@ == s@,
            _ => r is None,
        },
{
    match o {
        Some(s) => if is_blank(s) {
            None
        } else {
            Some(crate::text::owned(s))
        },
        None => None,
    }
}

fn string_with_line(prefix: Option<char>, body: &str, sep: Option<char>, line: u32) -> (out:
    String)
    ensures
        out@ == (match prefix {
            Some(c) => seq![c],
            None => Seq::empty(),
        }) + body@ + (match sep {
            Some(c) => seq![c],
            None => Seq::empty(),
        }) + decimal(line as nat),
{
    let mut out = String::new();
    match prefix {
        Some(c) => push_char(&mut out, c),
        None => {},
    }
    crate::text::push_str(&mut out, body);
    match sep {
        Some(c) => push_char(&mut out, c),
        None => {},
    }
    crate::text::push_u64(&mut out, line as u64);
    proof {
        assert(out@ =~= (match prefix {
            Some(c) => seq![c],
            None => Seq::empty(),
        }) + body@ + (match sep {
            Some(c) => seq![c],
            None => Seq::empty(),
        }) + decimal(line as nat));
    }
    out
}

fn from_env(platform: Platform, value: &str, file: &str, line: u32) -> (r: Result<
    EditorCommand,
    NoEditor,
>)
    ensures
        command_matches(platform, r, env_result(platform, value@, file@, line as nat)),
{
    let words = split_command(value);
    if words.len() == 0 || words[0].as_str().is_empty() {
        proof {
            if words@.len() > 0 {
                assert(views(words@)[0] == words@[0]@);
            }
        }
        return Err(NoEditor::NamesNoProgram);
    }
    proof {
        assert(views(words@)[0] == words@[0]@);
    }
    let (program, mut args) = first_and_rest(words);
    let d = dialect_for(platform, program.as_str());
    let ghost before = views(args@);
    proof {
        reveal_strlit("");
    }
    match d {
        None => {
            push_string(&mut args, crate::text::owned(file));
            proof {
                assert(views(args@) =~= before + line_args(d, file@, line as nat));
            }
        },
        Some(dd) => match dd.line {
            LineArg::Plus => {
                let plus = string_with_line(Some('+'), "", None, line);
                proof {
                    assert(plus@ =~= seq!['+'] + decimal(line as nat));
                }
                push_string(&mut args, plus);
                push_string(&mut args, crate::text::owned(file));
                proof {
                    assert(views(args@) =~= before + line_args(d, file@, line as nat));
                }
            },
            LineArg::Suffix => {
                let suffixed = string_with_line(None, file, Some(':'), line);
                proof {
                    assert(suffixed@ =~= file@ + seq![':'] + decimal(line as nat));
                }
                push_string(&mut args, suffixed);
                proof {
                    assert(views(args@) =~= before + line_args(d, file@, line as nat));
                }
            },
            LineArg::Goto => {
                push_string(&mut args, crate::text::owned("-g"));
                let suffixed = string_with_line(None, file, Some(':'), line);
                proof {
                    assert(suffixed@ =~= file@ + seq![':'] + decimal(line as nat));
                }
                push_string(&mut args, suffixed);
                proof {
                    assert(views(args@) =~= before + line_args(d, file@, line as nat));
                }
            },
            LineArg::Flag => {
                push_string(&mut args, crate::text::owned("--line"));
                push_string(&mut args, u64_string(line as u64));
                push_string(&mut args, crate::text::owned(file));
                proof {
                    assert(views(args@) =~= before + line_args(d, file@, line as nat));
                }
            },
        },
    }
    let wants = wants_terminal(platform, program.as_str(), &args);
    Ok(EditorCommand { program, args, wants_terminal: wants })
}

/// The command that opens `path` at `line` on `platform` (the host's, which the front end
/// knows from its build target).
///
/// `configured` is the `editor` config key: its value is the whole command, and `{file}` and
/// `{line}` substitute into it wherever they appear. With no key, `visual` then `editor_env`
/// supply the command (a blank value falls through), and its binary name selects a dialect;
/// an unrecognized binary opens the file without a line. `path` must be absolute, which is
/// what keeps a dialect that appends it bare from handing an editor a file name it reads as a
/// flag.
pub fn resolve(
    platform: Platform,
    configured: Option<&str>,
    visual: Option<&str>,
    editor_env: Option<&str>,
    path: &str,
    line: u32,
) -> (r: Result<EditorCommand, NoEditor>)
    ensures
        command_matches(
            platform,
            r,
            resolve_spec(
                platform,
                opt_view(configured),
                opt_view(visual),
                opt_view(editor_env),
                path@,
                line as nat,
            ),
        ),
{
    if let Some(template) = configured {
        return from_template(platform, template, path, line);
    }
    let v = owned_opt_nonblank(visual);
    let chosen = match v {
        Some(v) => Some(v),
        None => owned_opt_nonblank(editor_env),
    };
    match chosen {
        Some(value) => from_env(platform, value.as_str(), path, line),
        None => Err(NoEditor::Unset),
    }
}

/// A template word that is exactly `{file}` becomes exactly the path, whatever the path
/// spells — a path holding `{line}` is never substituted again.
pub proof fn law_file_placeholder_is_verbatim(file: Seq<char>, line: nat)
    ensures
        substitute("{file}"@, file, line) == file,
{
    reveal_strlit("{file}");
    reveal_strlit("{line}");
    let w = "{file}"@;
    assert(!has_prefix(w, "{line}"@)) by {
        assert(w[1] != "{line}"@[1]);
    }
    assert(replace_all(w, "{line}"@, decimal(line)) == w) by {
        assert forall|i: int| 0 <= i < w.len() implies !has_prefix(
            #[trigger] w.skip(i),
            "{line}"@,
        ) by {
            if i == 0 {
                assert(w.skip(0).take(6)[1] != "{line}"@[1]);
            }
        }
        lemma_replace_no_hit(w, "{line}"@, decimal(line));
    }
    assert(has_prefix(w, "{file}"@)) by {
        assert(w.take(6) =~= w);
    }
    assert(w.skip(6).len() == 0);
    assert(replace_all(w, "{file}"@, file) == file + replace_all(w.skip(6), "{file}"@, file));
    assert(file + replace_all(w.skip(6), "{file}"@, file) =~= file);
}

proof fn lemma_replace_no_hit(w: Seq<char>, pat: Seq<char>, rep: Seq<char>)
    requires
        pat.len() > 0,
        forall|i: int| 0 <= i < w.len() ==> !has_prefix(#[trigger] w.skip(i), pat),
    ensures
        replace_all(w, pat, rep) == w,
    decreases w.len(),
{
    if w.len() > 0 {
        assert(w.skip(0) =~= w);
        assert forall|i: int| 0 <= i < w.skip(1).len() implies !has_prefix(
            #[trigger] w.skip(1).skip(i),
            pat,
        ) by {
            assert(w.skip(1).skip(i) =~= w.skip(i + 1));
        }
        lemma_replace_no_hit(w.skip(1), pat, rep);
        assert(seq![w[0]] + w.skip(1) =~= w);
    }
}


/// The editor table: every documented binary name selects its family's line argument and
/// drawing place on every platform, and any other name selects none. The vi family, nano,
/// micro, kakoune and Emacs (`emacs`, `emacsclient`) take `+LINE <path>` in the pane; helix
/// takes `<path>:LINE` in the pane; MacVim, gVim, BBEdit and gedit take `+LINE <path>` in a
/// window; the VS Code family takes `-g <path>:LINE`; Sublime Text and Zed take
/// `<path>:LINE`; TextMate, Kate and the JetBrains family take `--line LINE <path>`; `xed` is
/// Xcode's `--line` opener on macOS and a gedit fork taking `+LINE` elsewhere.
pub proof fn law_the_editor_table(platform: Platform, n: Seq<char>)
    ensures
        (n == "vi"@ || n == "vim"@ || n == "nvim"@ || n == "lvim"@ || n == "vis"@ || n == "joe"@ || n == "nano"@ || n == "micro"@ || n == "kak"@ || n == "emacs"@ || n == "emacsclient"@) ==> dialect_named(platform, n) == Some(Dialect { line: LineArg::Plus, window: false }),
        (n == "hx"@ || n == "helix"@) ==> dialect_named(platform, n) == Some(Dialect { line: LineArg::Suffix, window: false }),
        (n == "mvim"@ || n == "gvim"@ || n == "bbedit"@ || n == "gedit"@) ==> dialect_named(platform, n) == Some(Dialect { line: LineArg::Plus, window: true }),
        (n == "code"@ || n == "code-insiders"@ || n == "codium"@ || n == "vscodium"@ || n == "cursor"@ || n == "windsurf"@ || n == "positron"@) ==> dialect_named(platform, n) == Some(Dialect { line: LineArg::Goto, window: true }),
        (n == "subl"@ || n == "sublime_text"@ || n == "zed"@ || n == "zeditor"@ || n == "zedit"@) ==> dialect_named(platform, n) == Some(Dialect { line: LineArg::Suffix, window: true }),
        (n == "mate"@ || n == "kate"@ || n == "idea"@ || n == "pycharm"@ || n == "webstorm"@ || n == "goland"@ || n == "clion"@ || n == "phpstorm"@ || n == "rubymine"@ || n == "rider"@ || n == "datagrip"@ || n == "rustrover"@ || n == "dataspell"@ || n == "fleet"@) ==> dialect_named(platform, n) == Some(Dialect { line: LineArg::Flag, window: true }),
        n == "xed"@ ==> dialect_named(platform, n) == Some(Dialect { line: if platform == Platform::MacOs { LineArg::Flag } else { LineArg::Plus }, window: true }),
        !(n == "vi"@ || n == "vim"@ || n == "nvim"@ || n == "lvim"@ || n == "vis"@ || n == "joe"@ || n == "nano"@ || n == "micro"@ || n == "kak"@ || n == "emacs"@ || n == "emacsclient"@ || n == "hx"@ || n == "helix"@ || n == "mvim"@ || n == "gvim"@ || n == "bbedit"@ || n == "gedit"@ || n == "code"@ || n == "code-insiders"@ || n == "codium"@ || n == "vscodium"@ || n == "cursor"@ || n == "windsurf"@ || n == "positron"@ || n == "subl"@ || n == "sublime_text"@ || n == "zed"@ || n == "zeditor"@ || n == "zedit"@ || n == "mate"@ || n == "kate"@ || n == "idea"@ || n == "pycharm"@ || n == "webstorm"@ || n == "goland"@ || n == "clion"@ || n == "phpstorm"@ || n == "rubymine"@ || n == "rider"@ || n == "datagrip"@ || n == "rustrover"@ || n == "dataspell"@ || n == "fleet"@ || n == "xed"@) ==> dialect_named(platform, n) is None,
{
    reveal_strlit("vi");
    reveal_strlit("vim");
    reveal_strlit("nvim");
    reveal_strlit("lvim");
    reveal_strlit("vis");
    reveal_strlit("joe");
    reveal_strlit("nano");
    reveal_strlit("micro");
    reveal_strlit("kak");
    reveal_strlit("emacs");
    reveal_strlit("emacsclient");
    reveal_strlit("hx");
    reveal_strlit("helix");
    reveal_strlit("mvim");
    reveal_strlit("gvim");
    reveal_strlit("bbedit");
    reveal_strlit("gedit");
    reveal_strlit("code");
    reveal_strlit("code-insiders");
    reveal_strlit("codium");
    reveal_strlit("vscodium");
    reveal_strlit("cursor");
    reveal_strlit("windsurf");
    reveal_strlit("positron");
    reveal_strlit("subl");
    reveal_strlit("sublime_text");
    reveal_strlit("zed");
    reveal_strlit("zeditor");
    reveal_strlit("zedit");
    reveal_strlit("mate");
    reveal_strlit("kate");
    reveal_strlit("idea");
    reveal_strlit("pycharm");
    reveal_strlit("webstorm");
    reveal_strlit("goland");
    reveal_strlit("clion");
    reveal_strlit("phpstorm");
    reveal_strlit("rubymine");
    reveal_strlit("rider");
    reveal_strlit("datagrip");
    reveal_strlit("rustrover");
    reveal_strlit("dataspell");
    reveal_strlit("fleet");
    reveal_strlit("xed");
    assert("vi"@ =~= seq!['v', 'i']);
    assert("vim"@ =~= seq!['v', 'i', 'm']);
    assert("nvim"@ =~= seq!['n', 'v', 'i', 'm']);
    assert("lvim"@ =~= seq!['l', 'v', 'i', 'm']);
    assert("vis"@ =~= seq!['v', 'i', 's']);
    assert("joe"@ =~= seq!['j', 'o', 'e']);
    assert("nano"@ =~= seq!['n', 'a', 'n', 'o']);
    assert("micro"@ =~= seq!['m', 'i', 'c', 'r', 'o']);
    assert("kak"@ =~= seq!['k', 'a', 'k']);
    assert("emacs"@ =~= seq!['e', 'm', 'a', 'c', 's']);
    assert("emacsclient"@ =~= seq!['e', 'm', 'a', 'c', 's', 'c', 'l', 'i', 'e', 'n', 't']);
    assert("hx"@ =~= seq!['h', 'x']);
    assert("helix"@ =~= seq!['h', 'e', 'l', 'i', 'x']);
    assert("mvim"@ =~= seq!['m', 'v', 'i', 'm']);
    assert("gvim"@ =~= seq!['g', 'v', 'i', 'm']);
    assert("bbedit"@ =~= seq!['b', 'b', 'e', 'd', 'i', 't']);
    assert("gedit"@ =~= seq!['g', 'e', 'd', 'i', 't']);
    assert("code"@ =~= seq!['c', 'o', 'd', 'e']);
    assert("code-insiders"@ =~= seq!['c', 'o', 'd', 'e', '-', 'i', 'n', 's', 'i', 'd', 'e', 'r', 's']);
    assert("codium"@ =~= seq!['c', 'o', 'd', 'i', 'u', 'm']);
    assert("vscodium"@ =~= seq!['v', 's', 'c', 'o', 'd', 'i', 'u', 'm']);
    assert("cursor"@ =~= seq!['c', 'u', 'r', 's', 'o', 'r']);
    assert("windsurf"@ =~= seq!['w', 'i', 'n', 'd', 's', 'u', 'r', 'f']);
    assert("positron"@ =~= seq!['p', 'o', 's', 'i', 't', 'r', 'o', 'n']);
    assert("subl"@ =~= seq!['s', 'u', 'b', 'l']);
    assert("sublime_text"@ =~= seq!['s', 'u', 'b', 'l', 'i', 'm', 'e', '_', 't', 'e', 'x', 't']);
    assert("zed"@ =~= seq!['z', 'e', 'd']);
    assert("zeditor"@ =~= seq!['z', 'e', 'd', 'i', 't', 'o', 'r']);
    assert("zedit"@ =~= seq!['z', 'e', 'd', 'i', 't']);
    assert("mate"@ =~= seq!['m', 'a', 't', 'e']);
    assert("kate"@ =~= seq!['k', 'a', 't', 'e']);
    assert("idea"@ =~= seq!['i', 'd', 'e', 'a']);
    assert("pycharm"@ =~= seq!['p', 'y', 'c', 'h', 'a', 'r', 'm']);
    assert("webstorm"@ =~= seq!['w', 'e', 'b', 's', 't', 'o', 'r', 'm']);
    assert("goland"@ =~= seq!['g', 'o', 'l', 'a', 'n', 'd']);
    assert("clion"@ =~= seq!['c', 'l', 'i', 'o', 'n']);
    assert("phpstorm"@ =~= seq!['p', 'h', 'p', 's', 't', 'o', 'r', 'm']);
    assert("rubymine"@ =~= seq!['r', 'u', 'b', 'y', 'm', 'i', 'n', 'e']);
    assert("rider"@ =~= seq!['r', 'i', 'd', 'e', 'r']);
    assert("datagrip"@ =~= seq!['d', 'a', 't', 'a', 'g', 'r', 'i', 'p']);
    assert("rustrover"@ =~= seq!['r', 'u', 's', 't', 'r', 'o', 'v', 'e', 'r']);
    assert("dataspell"@ =~= seq!['d', 'a', 't', 'a', 's', 'p', 'e', 'l', 'l']);
    assert("fleet"@ =~= seq!['f', 'l', 'e', 'e', 't']);
    assert("xed"@ =~= seq!['x', 'e', 'd']);
}

/// An environment editor whose binary is a terminal `+LINE` editor, Emacs among them, opens
/// the file at the line in the pane: `+LINE <path>` after the value's own words, whatever
/// directory the binary is named from and however its name is cased.
pub proof fn law_terminal_editors_open_at_the_line(
    platform: Platform,
    program: Seq<char>,
    file: Seq<char>,
    line: nat,
)
    requires
        path_file_name(program) is Some,
        ({
            let n = lowercase(path_file_name(program)->0);
            n == "vi"@ || n == "vim"@ || n == "nvim"@ || n == "lvim"@ || n == "vis"@ || n == "joe"@ || n == "nano"@ || n == "micro"@ || n == "kak"@ || n == "emacs"@ || n == "emacsclient"@
        }),
    ensures
        dialect_spec(platform, program) == Some(Dialect { line: LineArg::Plus, window: false }),
        line_args(dialect_spec(platform, program), file, line) == seq![seq!['+'] + decimal(line), file],
        wants_terminal_spec(platform, program, Seq::empty()),
{
    law_the_editor_table(platform, lowercase(path_file_name(program)->0));
    assert(!has_wait_flag(Seq::<Seq<char>>::empty()));
}

} // verus!

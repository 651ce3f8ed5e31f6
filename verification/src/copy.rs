//! Character-level, pane-local copy mode: the selection a drag paints, the double-click
//! recognition, and the mapping from painted columns back to source text (tabs expanded to
//! four-column stops, wide glyphs two or more columns). Display widths are the
//! `unicode-width` crate's; hit-testing against the laid-out panes is the front end's.

use vstd::prelude::*;

use crate::file_list::{self, RowKind};
use crate::text::{
    decimal, owned, ends_with, has_prefix, has_suffix, is_ws, join, join_strings, push_char, push_str, push_string, push_u64,
    to_chars, views,
};

verus! {

/// A terminal cell rectangle.
#[derive(Clone, Copy, Debug, PartialEq, Eq, Structural)]
pub struct Rect {
    pub x: u16,
    pub y: u16,
    pub width: u16,
    pub height: u16,
}

/// The pane a selection lives in.
#[derive(Clone, Copy, Debug, PartialEq, Eq, Structural)]
pub enum Pane {
    Files,
    Diff,
}

/// A painted selection: its pane and its two screen endpoints `(column, row)`.
#[derive(Clone, Copy, Debug, PartialEq, Eq)]
pub struct Selection {
    pub pane: Pane,
    pub start: (u16, u16),
    pub end: (u16, u16),
}

/// A point in the source text behind a painted position: a line and a display column
/// measured after tab expansion.
#[derive(Clone, Copy, Debug, PartialEq, Eq, Structural)]
pub struct SourcePoint {
    pub line: usize,
    pub display_column: usize,
}

/// A selection fixed in source coordinates (a double-clicked token).
#[derive(Clone, Copy, Debug, PartialEq, Eq, Structural)]
pub struct SourceSelection {
    pub start: SourcePoint,
    pub end: SourcePoint,
}

/// The last mouse-down, for double-click recognition: where, and when (milliseconds on the
/// front end's monotonic clock).
#[derive(Clone, Copy, Debug, PartialEq, Eq)]
pub struct Click {
    pub pane: Pane,
    pub point: (u16, u16),
    pub at_ms: u64,
}

/// The live copy gesture.
#[derive(Debug)]
pub struct State {
    pub selection: Option<Selection>,
    pub last_click: Option<Click>,
    pub source_override: Option<SourceSelection>,
    pub source_anchor: Option<SourcePoint>,
}

impl State {
    /// No gesture.
    pub fn new() -> (s: State)
        ensures
            s.selection is None && s.last_click is None && s.source_override is None
                && s.source_anchor is None,
    {
        State { selection: None, last_click: None, source_override: None, source_anchor: None }
    }

    /// Forget the gesture entirely.
    pub fn clear(&mut self)
        ensures
            final(self).selection is None,
            final(self).last_click is None,
            final(self).source_override is None,
            final(self).source_anchor is None,
    {
        self.selection = None;
        self.last_click = None;
        self.source_override = None;
        self.source_anchor = None;
    }
}

/// The double-click window in milliseconds.
pub const DOUBLE_CLICK_WINDOW_MS: u64 = 500;

/// Whether a press completes a double click: the previous one was in the same pane and row,
/// at most two columns away, and within the window.
pub open spec fn is_double_spec(last: Option<Click>, pane: Pane, point: (u16, u16), elapsed_ms: u64)
    -> bool {
    last is Some && last->0.pane == pane && last->0.point.1 == point.1 && (if last->0.point.0
        >= point.0 {
        last->0.point.0 - point.0
    } else {
        point.0 - last->0.point.0
    }) <= 2 && elapsed_ms <= DOUBLE_CLICK_WINDOW_MS
}

/// A mouse-down completes a double click when the previous one was in the same pane and row,
/// at most two columns away, and within the window.
pub fn is_double_click(last: Option<Click>, pane: Pane, point: (u16, u16), elapsed_ms: u64) -> (b:
    bool)
    ensures
        b == is_double_spec(last, pane, point, elapsed_ms),
{
    match last {
        Some(click) => {
            let dx = if click.point.0 >= point.0 {
                click.point.0 - point.0
            } else {
                point.0 - click.point.0
            };
            click.pane == pane && click.point.1 == point.1 && dx <= 2 && elapsed_ms
                <= DOUBLE_CLICK_WINDOW_MS
        },
        None => false,
    }
}

/// The last column (or row) of a span starting at `start` that is `len` long.
pub open spec fn last_of(start: u16, len: u16) -> int {
    let l = if len > 0 {
        len - 1
    } else {
        0
    };
    if start + l > u16::MAX {
        u16::MAX as int
    } else {
        start + l
    }
}

/// `v` clamped to `[lo, hi]` (the low bound wins a crossed range, as `Ord::clamp` requires
/// none).
pub open spec fn clamp_spec(v: int, lo: int, hi: int) -> int {
    if v < lo {
        lo
    } else if v > hi {
        hi
    } else {
        v
    }
}

/// Clamp a screen position into a pane rectangle.
pub fn clamp_point(rect: Rect, col: u16, row: u16) -> (p: (u16, u16))
    ensures
        p.0 == clamp_spec(col as int, rect.x as int, last_of(rect.x, rect.width)),
        p.1 == clamp_spec(row as int, rect.y as int, last_of(rect.y, rect.height)),
{
    let xe = rect.x.saturating_add(rect.width.saturating_sub(1));
    let ye = rect.y.saturating_add(rect.height.saturating_sub(1));
    let x = if col < rect.x {
        rect.x
    } else if col > xe {
        xe
    } else {
        col
    };
    let y = if row < rect.y {
        rect.y
    } else if row > ye {
        ye
    } else {
        row
    };
    (x, y)
}

/// The position `clamp_point` gives.
pub open spec fn clamped(rect: Rect, col: u16, row: u16) -> (u16, u16) {
    (
        clamp_spec(col as int, rect.x as int, last_of(rect.x, rect.width)) as u16,
        clamp_spec(row as int, rect.y as int, last_of(rect.y, rect.height)) as u16,
    )
}

/// One past the last column (or row) of a span, saturating at the screen's edge.
pub open spec fn end_of(start: u16, len: u16) -> int {
    if start + len > u16::MAX {
        u16::MAX as int
    } else {
        start + len
    }
}

/// Whether a screen position lies inside a rectangle.
pub open spec fn contains_spec(rect: Rect, col: u16, row: u16) -> bool {
    rect.x <= col && (col as int) < end_of(rect.x, rect.width) && rect.y <= row && (row as int)
        < end_of(rect.y, rect.height)
}

/// Whether a screen position lies inside a rectangle.
pub fn rect_contains(rect: Rect, col: u16, row: u16) -> (b: bool)
    ensures
        b == contains_spec(rect, col, row),
{
    let xe = rect.x.saturating_add(rect.width);
    let ye = rect.y.saturating_add(rect.height);
    rect.x <= col && col < xe && rect.y <= row && row < ye
}

/// The pane's rectangle among the two laid out.
pub open spec fn rect_of(files: Rect, diff: Rect, pane: Pane) -> Rect {
    match pane {
        Pane::Files => files,
        Pane::Diff => diff,
    }
}

/// The pane under a press: the file list first, then the diff.
pub open spec fn hit_spec(files: Rect, diff: Rect, col: u16, row: u16) -> Option<Pane> {
    if contains_spec(files, col, row) {
        Some(Pane::Files)
    } else if contains_spec(diff, col, row) {
        Some(Pane::Diff)
    } else {
        None
    }
}

/// Milliseconds since the last click (none elapse backwards).
pub open spec fn since_click(last: Option<Click>, now_ms: u64) -> u64 {
    match last {
        Some(c) => if now_ms >= c.at_ms {
            (now_ms - c.at_ms) as u64
        } else {
            0
        },
        None => 0,
    }
}

/// A mouse event as copy mode reads it. For a drag the front end passes the selection's start
/// row after any edge scroll it applied (`None`: the start stays).
#[derive(Clone, Copy, Debug, PartialEq, Eq)]
pub enum MouseInput {
    LeftDown { column: u16, row: u16 },
    LeftDrag { column: u16, row: u16, shifted_start: Option<u16> },
    LeftUp,
    Other,
}

/// What the front end does after a copy-mode mouse step.
#[derive(Clone, Copy, Debug, PartialEq, Eq)]
pub enum CopyAction {
    /// The event is not copy mode's.
    Ignore,
    /// The event was consumed; repaint.
    Repaint,
    /// A double click: find the token at `point` and hand it to [`select_token`].
    ResolveToken { pane: Pane, point: (u16, u16) },
    /// A fresh press: find the source point under `point` and hand it to [`set_anchor`].
    ResolveAnchor { pane: Pane, point: (u16, u16) },
    /// The gesture ended over this selection: copy its text (when not empty).
    Copy(Selection),
}

/// One copy-mode mouse step over the two laid-out pane rectangles, at `now_ms`.
///
/// A left press inside a pane clamps to it and is remembered as the last click; it completes a
/// double click (same pane and row, at most two columns away, within the window) or starts a
/// one-point selection. A press outside both panes forgets the last click and the anchor. A
/// drag forgets the last click and any token selection and moves the selection's end (and its
/// start row, after an edge scroll). A release copies the selection.
pub fn mouse_event(state: &mut State, input: MouseInput, files: Rect, diff: Rect, now_ms: u64)
    -> (a: CopyAction)
    ensures
        match input {
            MouseInput::LeftDown { column, row } => match hit_spec(files, diff, column, row) {
                Some(pane) => {
                    let point = clamped(rect_of(files, diff, pane), column, row);
                    let double = is_double_spec(
                        old(state).last_click,
                        pane,
                        point,
                        since_click(old(state).last_click, now_ms),
                    );
                    &&& final(state).last_click == Some(Click { pane, point, at_ms: now_ms })
                    &&& if double {
                        &&& final(state).selection == old(state).selection
                        &&& final(state).source_override == old(state).source_override
                        &&& final(state).source_anchor is None
                        &&& a == CopyAction::ResolveToken { pane, point }
                    } else {
                        &&& final(state).selection == Some(Selection { pane, start: point, end: point })
                        &&& final(state).source_override is None
                        &&& final(state).source_anchor == old(state).source_anchor
                        &&& a == CopyAction::ResolveAnchor { pane, point }
                    }
                },
                None => {
                    &&& final(state).last_click is None
                    &&& final(state).source_anchor is None
                    &&& final(state).selection == old(state).selection
                    &&& final(state).source_override == old(state).source_override
                    &&& a == CopyAction::Repaint
                },
            },
            MouseInput::LeftDrag { column, row, shifted_start } => {
                &&& final(state).last_click is None
                &&& final(state).source_override is None
                &&& final(state).source_anchor == old(state).source_anchor
                &&& final(state).selection == match old(state).selection {
                    Some(sel) => Some(
                        Selection {
                            pane: sel.pane,
                            start: (
                                sel.start.0,
                                match shifted_start {
                                    Some(y) => y,
                                    None => sel.start.1,
                                },
                            ),
                            end: clamped(rect_of(files, diff, sel.pane), column, row),
                        },
                    ),
                    None => None,
                }
                &&& a == CopyAction::Repaint
            },
            MouseInput::LeftUp => {
                &&& *final(state) == *old(state)
                &&& a == match old(state).selection {
                    Some(sel) => CopyAction::Copy(sel),
                    None => CopyAction::Repaint,
                }
            },
            MouseInput::Other => *final(state) == *old(state) && a == CopyAction::Ignore,
        },
{
    match input {
        MouseInput::LeftDown { column, row } => {
            let hit = if rect_contains(files, column, row) {
                Some(Pane::Files)
            } else if rect_contains(diff, column, row) {
                Some(Pane::Diff)
            } else {
                None
            };
            match hit {
                Some(pane) => {
                    let rect = match pane {
                        Pane::Files => files,
                        Pane::Diff => diff,
                    };
                    let point = clamp_point(rect, column, row);
                    let elapsed = match state.last_click {
                        Some(c) => now_ms.saturating_sub(c.at_ms),
                        None => 0,
                    };
                    let double = is_double_click(state.last_click, pane, point, elapsed);
                    state.last_click = Some(Click { pane, point, at_ms: now_ms });
                    if double {
                        state.source_anchor = None;
                        CopyAction::ResolveToken { pane, point }
                    } else {
                        state.selection = Some(Selection { pane, start: point, end: point });
                        state.source_override = None;
                        CopyAction::ResolveAnchor { pane, point }
                    }
                },
                None => {
                    state.last_click = None;
                    state.source_anchor = None;
                    CopyAction::Repaint
                },
            }
        },
        MouseInput::LeftDrag { column, row, shifted_start } => {
            state.last_click = None;
            state.source_override = None;
            match state.selection {
                Some(sel) => {
                    let start_y = match shifted_start {
                        Some(y) => y,
                        None => sel.start.1,
                    };
                    let rect = match sel.pane {
                        Pane::Files => files,
                        Pane::Diff => diff,
                    };
                    let end = clamp_point(rect, column, row);
                    state.selection = Some(
                        Selection { pane: sel.pane, start: (sel.start.0, start_y), end },
                    );
                },
                None => {},
            }
            CopyAction::Repaint
        },
        MouseInput::LeftUp => match state.selection {
            Some(sel) => CopyAction::Copy(sel),
            None => CopyAction::Repaint,
        },
        MouseInput::Other => CopyAction::Ignore,
    }
}

/// Finish a double click at `point`: select the token the front end found there (with its
/// source span, when it has one), or just the point.
pub fn select_token(
    state: &mut State,
    pane: Pane,
    point: (u16, u16),
    token: Option<(Selection, Option<SourceSelection>)>,
)
    ensures
        final(state).selection == Some(
            match token {
                Some((sel, _)) => sel,
                None => Selection { pane, start: point, end: point },
            },
        ),
        final(state).source_override == match token {
            Some((_, source)) => source,
            None => None,
        },
        final(state).last_click == old(state).last_click,
        final(state).source_anchor == old(state).source_anchor,
{
    match token {
        Some((sel, source)) => {
            state.selection = Some(sel);
            state.source_override = source;
        },
        None => {
            state.selection = Some(Selection { pane, start: point, end: point });
            state.source_override = None;
        },
    }
}

/// Finish a fresh press: remember the source point under it as the drag's anchor.
pub fn set_anchor(state: &mut State, anchor: Option<SourcePoint>)
    ensures
        final(state).source_anchor == anchor,
        final(state).selection == old(state).selection,
        final(state).last_click == old(state).last_click,
        final(state).source_override == old(state).source_override,
{
    state.source_anchor = anchor;
}

/// A selection's endpoints in reading order: by row, then by column.
pub fn ordered(selection: Selection) -> (p: ((u16, u16), (u16, u16)))
    ensures
        if selection.start.1 < selection.end.1 || (selection.start.1 == selection.end.1
            && selection.start.0 <= selection.end.0) {
            p == (selection.start, selection.end)
        } else {
            p == (selection.end, selection.start)
        },
{
    if selection.start.1 < selection.end.1 || (selection.start.1 == selection.end.1
        && selection.start.0 <= selection.end.0) {
        (selection.start, selection.end)
    } else {
        (selection.end, selection.start)
    }
}

/// The columns a character beyond U+00A0 occupies, per `unicode-width`.
pub uninterp spec fn wide_cols(c: char) -> nat;

/// `UnicodeWidthChar::width`: printable ASCII is one column, the C0 and C1 control codes have
/// no width, and every other character has the width the crate's tables give it.
pub open spec fn char_width_spec(c: char) -> Option<nat> {
    if (c as u32) < 0x20 || (0x7F <= (c as u32) && (c as u32) < 0xA0) {
        None
    } else if (c as u32) < 0x7F {
        Some(1)
    } else {
        Some(wide_cols(c))
    }
}

/// `UnicodeWidthChar::width` of `c`: `Some(1)` for printable ASCII, `None` for control codes,
/// otherwise the table width, never more than three columns (the largest width the crate's
/// tables hold).
#[verifier::external_body]
fn char_width(c: char) -> (w: Option<usize>)
    ensures
        match w {
            Some(n) => char_width_spec(c) == Some(n as nat) && n <= 3,
            None => char_width_spec(c) is None,
        },
        (c as u32) >= 0xA0 ==> w == Some(wide_cols(c) as usize),
{
    unicode_width::UnicodeWidthChar::width(c)
}

/// The display width of a string, per `unicode-width`.
pub uninterp spec fn str_cols(s: Seq<char>) -> nat;

/// `UnicodeWidthStr::width` of `s`; the contract names the result only.
#[verifier::external_body]
fn str_width(s: &str) -> (w: usize)
    ensures
        w == str_cols(s@),
{
    unicode_width::UnicodeWidthStr::width(s)
}

/// The columns one character takes at display column `col`: a tab runs to the next
/// four-column stop, a control code takes none.
pub open spec fn advance(c: char, col: nat) -> nat {
    if c == '\t' {
        (4 - col % 4) as nat
    } else {
        match char_width_spec(c) {
            Some(w) => w,
            None => 0,
        }
    }
}

/// The display column after the first `k` characters of `cs`.
pub open spec fn column_at(cs: Seq<char>, k: int) -> nat
    decreases k,
{
    if k <= 0 {
        0
    } else {
        let prev = column_at(cs, k - 1);
        prev + advance(cs[k - 1], prev)
    }
}

/// The columns character `c` advances at column `col`.
fn advance_of(c: char, col: usize) -> (w: usize)
    ensures
        w == advance(c, col as nat),
        w <= 4,
{
    if c == '\t' {
        4 - col % 4
    } else {
        match char_width(c) {
            Some(w) => w,
            None => 0,
        }
    }
}

/// The display column where character `char_index` of `text` starts (the end of the text
/// past its last character).
pub fn char_index_to_display_column(text: &str, char_index: usize) -> (col: usize)
    requires
        text@.len() * 4 <= usize::MAX,
    ensures
        col == column_at(text@, if char_index < text@.len() {
            char_index as int
        } else {
            text@.len() as int
        }),
{
    let cs = to_chars(text);
    let mut col: usize = 0;
    let mut i: usize = 0;
    while i < cs.len() && i < char_index
        invariant
            cs@ == text@,
            cs@.len() * 4 <= usize::MAX,
            i <= cs@.len(),
            i <= char_index,
            col == column_at(cs@, i as int),
            col <= 4 * i,
        decreases cs@.len() - i,
    {
        col = col + advance_of(cs[i], col);
        i = i + 1;
    }
    col
}

/// Whether some character at or after position `k` covers display column `column`.
pub open spec fn covers(cs: Seq<char>, column: nat, k: int) -> bool {
    k < cs.len() && column < column_at(cs, k + 1)
}

/// The first character at or after `k` whose span reaches past display column `column`, or
/// the length of `cs` when none does.
pub open spec fn char_index_from(cs: Seq<char>, column: nat, k: int) -> int
    decreases cs.len() - k,
{
    if k < 0 || k >= cs.len() {
        cs.len() as int
    } else if column < column_at(cs, k + 1) {
        k
    } else {
        char_index_from(cs, column, k + 1)
    }
}

/// The character of `cs` under display column `column` (its length past the end).
pub open spec fn char_index_spec(cs: Seq<char>, column: nat) -> int {
    char_index_from(cs, column, 0)
}

/// The source character under display column `column`: the first character whose span
/// reaches past it, or the text's length past the end.
pub fn display_column_to_char_index(text: &str, column: usize) -> (index: usize)
    requires
        text@.len() * 4 <= usize::MAX,
    ensures
        index == char_index_spec(text@, column as nat),
        index <= text@.len(),
        index < text@.len() ==> column < column_at(text@, index + 1),
        forall|k: int| 0 <= k < index ==> column >= #[trigger] column_at(text@, k + 1),
{
    let cs = to_chars(text);
    let mut col: usize = 0;
    let mut i: usize = 0;
    while i < cs.len()
        invariant
            cs@ == text@,
            cs@.len() * 4 <= usize::MAX,
            i <= cs@.len(),
            col == column_at(cs@, i as int),
            col <= 4 * i,
            forall|k: int| 0 <= k < i ==> column >= #[trigger] column_at(cs@, k + 1),
            char_index_from(cs@, column as nat, 0) == char_index_from(cs@, column as nat, i as int),
        decreases cs@.len() - i,
    {
        let w = advance_of(cs[i], col);
        if column < col + w {
            return i;
        }
        col = col + w;
        i = i + 1;
    }
    cs.len()
}

/// A whitespace character (Unicode `White_Space`).
fn whitespace(c: char) -> (b: bool)
    ensures
        b == is_ws(c),
{
    crate::text::is_whitespace(c)
}

/// A character of a dotted identifier: a letter, a digit, an underscore, or a dot.
pub open spec fn is_dotted(c: char) -> bool {
    crate::text::alphanumeric(c) || c == '_' || c == '.'
}

fn dotted_char(c: char) -> (b: bool)
    ensures
        b == is_dotted(c),
{
    crate::text::is_alphanumeric(c) || c == '_' || c == '.'
}

/// Whether `c` joins a double-clicked token started on a dotted (or other) character.
pub open spec fn accepts(dotted: bool, c: char) -> bool {
    if dotted {
        is_dotted(c)
    } else {
        !is_ws(c)
    }
}

/// Whether `c` joins the token.
fn accept_char(dotted: bool, c: char) -> (b: bool)
    ensures
        b == accepts(dotted, c),
{
    if dotted {
        dotted_char(c)
    } else {
        !whitespace(c)
    }
}

/// `[s, e)` is the maximal run of accepted characters around `index`.
pub open spec fn token_run(cs: Seq<char>, index: int, dotted: bool, s: int, e: int) -> bool {
    &&& 0 <= s <= index < e <= cs.len()
    &&& forall|k: int| s <= k < e ==> accepts(dotted, #[trigger] cs[k])
    &&& (s == 0 || !accepts(dotted, cs[s - 1]))
    &&& (e == cs.len() || !accepts(dotted, cs[e]))
}

/// The first non-dot position of `[s, e)` (or `e`).
pub open spec fn skip_dots(cs: Seq<char>, s: int, e: int) -> int
    decreases e - s,
{
    if s < e && cs[s] == '.' {
        skip_dots(cs, s + 1, e)
    } else {
        s
    }
}

/// The end of `[s, e)` with trailing dots dropped (at least `s`).
pub open spec fn drop_dots(cs: Seq<char>, s: int, e: int) -> int
    decreases e - s,
{
    if e > s && cs[e - 1] == '.' {
        drop_dots(cs, s, e - 1)
    } else {
        e
    }
}

/// The token a double click at `index` selects as `[start, end)`: a dotted identifier run
/// (outer dots dropped) when the character is part of one, else the run of non-space
/// characters; nothing on whitespace, past the text, or when only dots remain.
pub open spec fn token_spec(cs: Seq<char>, index: int, r: Option<(usize, usize)>) -> bool {
    if index >= cs.len() || is_ws(cs[index]) {
        r is None
    } else {
        let dotted = is_dotted(cs[index]);
        exists|s: int, e: int|
            #![trigger token_run(cs, index, dotted, s, e)]
            token_run(cs, index, dotted, s, e) && {
                let a = if dotted {
                    skip_dots(cs, s, e)
                } else {
                    s
                };
                let b = if dotted {
                    drop_dots(cs, a, e)
                } else {
                    e
                };
                if a < b {
                    r == Some((a as usize, b as usize))
                } else {
                    r is None
                }
            }
    }
}

/// The double-click token at character `index` of `text`, as a half-open char range.
pub fn token_char_range(text: &str, index: usize) -> (r: Option<(usize, usize)>)
    ensures
        token_spec(text@, index as int, r),
{
    let chars = to_chars(text);
    if index >= chars.len() || whitespace(chars[index]) {
        return None;
    }
    let dotted = dotted_char(chars[index]);
    let mut start = index;
    while start > 0 && accept_char(dotted, chars[start - 1])
        invariant
            chars@ == text@,
            start <= index < chars@.len(),
            dotted == is_dotted(chars@[index as int]),
            forall|k: int| start <= k <= index ==> accepts(dotted, #[trigger] chars@[k]),
        decreases start,
    {
        start = start - 1;
    }
    let mut end = index + 1;
    while end < chars.len() && accept_char(dotted, chars[end])
        invariant
            chars@ == text@,
            start <= index < end <= chars@.len(),
            forall|k: int| start <= k < end ==> accepts(dotted, #[trigger] chars@[k]),
            start == 0 || !accepts(dotted, chars@[start - 1]),
        decreases chars@.len() - end,
    {
        end = end + 1;
    }
    let ghost s0 = start as int;
    let ghost e0 = end as int;
    proof {
        assert(token_run(chars@, index as int, dotted, s0, e0));
    }
    if dotted {
        while start < end && chars[start] == '.'
            invariant
                chars@ == text@,
                s0 <= start <= end == e0 <= chars@.len(),
                skip_dots(chars@, s0, e0) == skip_dots(chars@, start as int, e0),
            decreases end - start,
        {
            start = start + 1;
        }
        let ghost a = start as int;
        while end > start && chars[end - 1] == '.'
            invariant
                chars@ == text@,
                a == start,
                start <= end <= e0 <= chars@.len(),
                drop_dots(chars@, a, e0) == drop_dots(chars@, a, end as int),
            decreases end,
        {
            end = end - 1;
        }
    }
    if start < end {
        Some((start, end))
    } else {
        None
    }
}

/// The characters of `text` from `start` on.
pub fn from_char(text: &str, start: usize) -> (out: String)
    ensures
        out@ == text@.skip(if start < text@.len() {
            start as int
        } else {
            text@.len() as int
        }),
{
    let cs = to_chars(text);
    let mut out = String::new();
    let mut i = start;
    let ghost s = if start < cs@.len() {
        start as int
    } else {
        cs@.len() as int
    };
    while i < cs.len()
        invariant
            cs@ == text@,
            s <= i <= cs@.len() || (i > cs@.len() && s == cs@.len()),
            s == if start < cs@.len() {
                start as int
            } else {
                cs@.len() as int
            },
            i >= start,
            out@ == cs@.subrange(s, if i < cs@.len() {
                i as int
            } else {
                cs@.len() as int
            }),
        decreases cs@.len() - i,
    {
        push_char(&mut out, cs[i]);
        proof {
            assert(out@ =~= cs@.subrange(s, i + 1));
        }
        i = i + 1;
    }
    proof {
        assert(out@ =~= cs@.skip(s));
    }
    out
}

/// The characters `start ..= end` of `text`, the end clamped to the text; empty when `start`
/// is past the text or after `end`.
pub open spec fn inclusive_spec(cs: Seq<char>, start: int, end: int) -> Seq<char> {
    if start >= cs.len() || start > end {
        Seq::empty()
    } else {
        cs.subrange(start, if end < cs.len() - 1 {
            end + 1
        } else {
            cs.len() as int
        })
    }
}

/// The characters `start ..= end` of `text`, clamped.
pub fn inclusive_chars(text: &str, start: usize, end: usize) -> (out: String)
    ensures
        out@ == inclusive_spec(text@, start as int, end as int),
{
    let cs = to_chars(text);
    if start >= cs.len() || start > end {
        return String::new();
    }
    let stop = if end < cs.len() - 1 {
        end + 1
    } else {
        cs.len()
    };
    let mut out = String::new();
    let mut i = start;
    while i < stop
        invariant
            cs@ == text@,
            start <= i <= stop <= cs@.len(),
            out@ == cs@.subrange(start as int, i as int),
        decreases stop - i,
    {
        push_char(&mut out, cs[i]);
        proof {
            assert(out@ =~= cs@.subrange(start as int, i + 1));
        }
        i = i + 1;
    }
    out
}

/// Source order on points: by line, then by display column.
pub open spec fn source_le(a: SourcePoint, b: SourcePoint) -> bool {
    a.line < b.line || (a.line == b.line && a.display_column <= b.display_column)
}


/// At the pane's right edge, a selection whose end column falls short of the source line's
/// width runs to the end of the line.
pub fn extend_display_end_if_overflowing(
    source_width: usize,
    selected_display_column: usize,
    at_right_edge: bool,
) -> (column: usize)
    ensures
        column == if at_right_edge && source_width > selected_display_column + 1 {
            usize::MAX
        } else {
            selected_display_column
        },
{
    if at_right_edge && source_width > selected_display_column.saturating_add(1) {
        usize::MAX
    } else {
        selected_display_column
    }
}

/// The minus sign the navigator paints before a deletion count.
pub open spec fn minus_sign() -> char {
    '\u{2212}'
}

/// The navigator's line counts: `+a`, `−d`, both separated by a space, or nothing.
pub open spec fn stats_spec(additions: u32, deletions: u32) -> Seq<char> {
    if additions == 0 && deletions == 0 {
        Seq::empty()
    } else if deletions == 0 {
        seq!['+'] + decimal(additions as nat)
    } else if additions == 0 {
        seq![minus_sign()] + decimal(deletions as nat)
    } else {
        seq!['+'] + decimal(additions as nat) + seq![' ', minus_sign()] + decimal(
            deletions as nat,
        )
    }
}

/// The line-count badge of a navigator file row.
pub fn stats_str(additions: u32, deletions: u32) -> (out: String)
    ensures
        out@ == stats_spec(additions, deletions),
{
    let mut out = String::new();
    if additions == 0 && deletions == 0 {
        return out;
    }
    if additions > 0 {
        push_char(&mut out, '+');
        push_u64(&mut out, additions as u64);
    }
    if additions > 0 && deletions > 0 {
        push_char(&mut out, ' ');
    }
    if deletions > 0 {
        push_char(&mut out, '\u{2212}');
        push_u64(&mut out, deletions as u64);
    }
    proof {
        if additions > 0 && deletions > 0 {
            assert(out@ =~= stats_spec(additions, deletions));
        } else if deletions == 0 {
            assert(out@ =~= stats_spec(additions, deletions));
        } else {
            assert(out@ =~= stats_spec(additions, deletions));
        }
    }
    out
}

/// The horizontal ellipsis that marks a head-elided name.
pub open spec fn ellipsis() -> char {
    '\u{2026}'
}

/// `min(a, b)` over integers.
pub open spec fn min_int(a: int, b: int) -> int {
    if a <= b {
        a
    } else {
        b
    }
}

/// A column of a head-elided name mapped back to the full name: column 0 (the ellipsis)
/// is the name's start, a tail column lands on the same tail of the full name, and anything
/// past the end clamps to the full width. A name shown whole maps column for column.
pub open spec fn elided_column_spec(full: Seq<char>, shown: Seq<char>, column: int) -> int {
    let fw = str_cols(full) as int;
    if fw <= str_cols(shown) || !(shown.len() > 0 && shown[0] == ellipsis()) {
        min_int(column, fw)
    } else if column == 0 {
        0
    } else {
        let tw = str_cols(shown.drop_first()) as int;
        let tail_start = if fw >= tw {
            fw - tw
        } else {
            0
        };
        min_int(tail_start + column - 1, fw)
    }
}

/// `a + b`, clamped to `cap`, computed without overflow.
fn add_capped(a: usize, b: usize, cap: usize) -> (r: usize)
    requires
        a <= cap,
    ensures
        r == min_int(a + b, cap as int),
{
    if b >= cap - a {
        cap
    } else {
        a + b
    }
}

/// Map a column of a possibly head-elided name back to the full source name.
pub fn map_elided_column(full: &str, shown: &str, column: usize) -> (mapped: usize)
    ensures
        mapped == elided_column_spec(full@, shown@, column as int),
{
    let full_width = str_width(full);
    if full_width <= str_width(shown) {
        return if column < full_width {
            column
        } else {
            full_width
        };
    }
    let sc = to_chars(shown);
    if sc.len() == 0 || sc[0] != '\u{2026}' {
        return if column < full_width {
            column
        } else {
            full_width
        };
    }
    if column == 0 {
        return 0;
    }
    let tail = from_char(shown, 1);
    proof {
        assert(tail@ =~= shown@.drop_first());
    }
    let tail_width = str_width(tail.as_str());
    let tail_start = full_width.saturating_sub(tail_width);
    add_capped(tail_start, column - 1, full_width)
}

/// A column of a navigator name mapped to the full path: elided names by their tail, a
/// basename or directory name by its place as the path's suffix, otherwise column for
/// column, clamped to the path's width.
pub open spec fn file_column_spec(full: Seq<char>, shown: Seq<char>, column: int) -> int {
    let fw = str_cols(full) as int;
    let sw = str_cols(shown) as int;
    if shown.len() > 0 && shown[0] == ellipsis() {
        elided_column_spec(full, shown, column)
    } else if has_suffix(full, shown) && fw > sw {
        min_int(fw - sw + column, fw)
    } else {
        min_int(column, fw)
    }
}

/// Map a column of the painted navigator name to the file's full relative path.
pub fn map_file_column(full: &str, shown: &str, column: usize) -> (mapped: usize)
    ensures
        mapped == file_column_spec(full@, shown@, column as int),
{
    let sc = to_chars(shown);
    if sc.len() > 0 && sc[0] == '\u{2026}' {
        return map_elided_column(full, shown, column);
    }
    let full_width = str_width(full);
    let shown_width = str_width(shown);
    if ends_with(full, shown) && full_width > shown_width {
        return add_capped(full_width - shown_width, column, full_width);
    }
    if column < full_width {
        column
    } else {
        full_width
    }
}

/// Where a multi-row navigator selection starts in the first file's path: a start on the
/// row's indent or marker takes the whole path.
pub fn file_selection_start_column(full: &str, shown: &str, prefix: usize, visible_column: usize)
    -> (column: usize)
    ensures
        column == if visible_column <= prefix {
            0
        } else {
            file_column_spec(full@, shown@, visible_column - prefix)
        },
{
    if visible_column <= prefix {
        0
    } else {
        map_file_column(full, shown, visible_column - prefix)
    }
}


/// The columns a character takes in a painted name (a control code takes none).
pub open spec fn cell_cols(c: char) -> nat {
    match char_width_spec(c) {
        Some(w) => w,
        None => 0,
    }
}

/// The columns of the last `n` characters of `cs`.
pub open spec fn suffix_cols(cs: Seq<char>, n: int) -> nat
    decreases n,
{
    if n <= 0 {
        0
    } else {
        cell_cols(cs[cs.len() - n]) + suffix_cols(cs, n - 1)
    }
}

/// How many trailing characters fit in `budget` columns, counting back from the end and
/// stopping at the first that does not fit; `n` characters are already counted.
pub open spec fn kept_tail(cs: Seq<char>, budget: nat, n: int) -> int
    decreases cs.len() - n,
{
    if 0 <= n < cs.len() && suffix_cols(cs, n + 1) <= budget {
        kept_tail(cs, budget, n + 1)
    } else {
        n
    }
}

/// The index of the first `/` in `s` at or after `i`, or the length when there is none.
pub open spec fn slash_from(s: Seq<char>, i: int) -> int
    decreases s.len() - i,
{
    if i < 0 || i >= s.len() {
        s.len() as int
    } else if s[i] == '/' {
        i
    } else {
        slash_from(s, i + 1)
    }
}

/// A name cut from the head to fit `max` columns: a name that fits is kept whole; otherwise
/// the longest tail that fits in `max - 1` columns, cut back to start at its first `/` when it
/// holds one, behind an ellipsis.
pub open spec fn elide_spec(name: Seq<char>, max: nat) -> Seq<char> {
    if str_cols(name) <= max {
        name
    } else {
        let budget = if max >= 1 {
            (max - 1) as nat
        } else {
            0
        };
        let n = kept_tail(name, budget, 0);
        let tail = name.subrange(name.len() - n, name.len() as int);
        let p = slash_from(tail, 0);
        seq![ellipsis()] + if p < tail.len() {
            tail.subrange(p, tail.len() as int)
        } else {
            tail
        }
    }
}

/// The first `/` of `cs` at or after `from`.
fn find_slash(cs: &Vec<char>, from: usize) -> (p: usize)
    requires
        from <= cs@.len(),
    ensures
        p == slash_from(cs@, from as int),
    decreases cs@.len() - from,
{
    if from >= cs.len() {
        cs.len()
    } else if cs[from] == '/' {
        from
    } else {
        find_slash(cs, from + 1)
    }
}

/// Cut `name` from the head to fit `max` columns.
pub fn elide_head(name: &str, max: usize) -> (out: String)
    ensures
        out@ == elide_spec(name@, max as nat),
{
    if str_width(name) <= max {
        return owned(name);
    }
    let budget = max.saturating_sub(1);
    let cs = to_chars(name);
    let len = cs.len();
    let mut width: usize = 0;
    let mut n: usize = 0;
    while n < len
        invariant_except_break
            len == cs@.len(),
            cs@ == name@,
            n <= len,
            width == suffix_cols(cs@, n as int),
            width <= budget,
            kept_tail(cs@, budget as nat, 0) == kept_tail(cs@, budget as nat, n as int),
        ensures
            len == cs@.len(),
            cs@ == name@,
            n <= len,
            kept_tail(cs@, budget as nat, 0) == n,
        decreases len - n,
    {
        let cw = match char_width(cs[len - 1 - n]) {
            Some(w) => w,
            None => 0,
        };
        assert(cw == cell_cols(cs@[cs@.len() - (n + 1)]));
        if cw > budget - width {
            break;
        }
        width = width + cw;
        n = n + 1;
    }
    let mut tail: Vec<char> = Vec::new();
    let mut i = len - n;
    while i < len
        invariant
            len == cs@.len(),
            cs@ == name@,
            n <= len,
            kept_tail(cs@, budget as nat, 0) == n,
            len - n <= i <= len,
            tail@ == cs@.subrange(len - n, i as int),
        decreases len - i,
    {
        tail.push(cs[i]);
        i = i + 1;
        proof {
            assert(tail@ =~= cs@.subrange(len - n, i as int));
        }
    }
    let p = find_slash(&tail, 0);
    let mut out = String::new();
    push_char(&mut out, '\u{2026}');
    let mut j = if p < tail.len() {
        p
    } else {
        0
    };
    let ghost start = j;
    while j < tail.len()
        invariant
            start <= j <= tail@.len(),
            start == if p < tail@.len() {
                p
            } else {
                0
            },
            p == slash_from(tail@, 0),
            tail@ == name@.subrange(name@.len() - kept_tail(name@, budget as nat, 0), name@.len() as int),
            budget == if max >= 1 { max - 1 } else { 0 },
            str_cols(name@) > max,
            out@ == seq![ellipsis()] + tail@.subrange(start as int, j as int),
        decreases tail@.len() - j,
    {
        push_char(&mut out, tail[j]);
        j = j + 1;
        proof {
            assert(out@ =~= seq![ellipsis()] + tail@.subrange(start as int, j as int));
        }
    }
    proof {
        assert(tail@.subrange(0, tail@.len() as int) =~= tail@);
    }
    out
}


/// The full text behind a navigator row: a directory's relative path with a trailing `/`, a
/// file's path from the entries, or the row's own name when its entry is gone.
pub open spec fn row_source_spec(row: file_list::Row, entries: Seq<file_list::Entry>) -> Seq<char> {
    match row.kind {
        RowKind::Dir { path, .. } => path@ + seq!['/'],
        RowKind::File { index, .. } => if index < entries.len() {
            entries[index as int].path@
        } else {
            row.name@
        },
    }
}

/// The source text of a navigator row.
pub fn file_row_text(row: &file_list::Row, entries: &Vec<file_list::Entry>) -> (out: String)
    ensures
        out@ == row_source_spec(*row, entries@),
{
    match &row.kind {
        RowKind::Dir { path, .. } => {
            let mut out = owned(path.as_str());
            push_char(&mut out, '/');
            out
        },
        RowKind::File { index, .. } => {
            if *index < entries.len() {
                owned(entries[*index].path.as_str())
            } else {
                owned(row.name.as_str())
            }
        },
    }
}

/// `a + b`, saturating at `usize::MAX`.
pub open spec fn sat_add(a: int, b: int) -> int {
    min_int(a + b, usize::MAX as int)
}

/// The indent of a row at `depth`: two spaces a level.
pub open spec fn indent_spec(depth: nat) -> Seq<char> {
    Seq::new(2 * depth, |i: int| ' ')
}

/// The disclosure arrow before a directory name.
pub open spec fn arrow_of(expanded: bool) -> Seq<char> {
    if expanded {
        seq!['\u{25be}', ' ']
    } else {
        seq!['\u{25b8}', ' ']
    }
}

/// The change marker before a file name, with its space.
pub open spec fn marker_of(annotation: Option<file_list::Annotation>) -> Seq<char> {
    match annotation {
        Some(a) => seq![a.change.marker_spec(), ' '],
        None => Seq::empty(),
    }
}

/// The line-count badge of a file row.
pub open spec fn badge_of(annotation: Option<file_list::Annotation>) -> Seq<char> {
    match annotation {
        Some(a) => stats_spec(a.additions, a.deletions),
        None => stats_spec(0, 0),
    }
}

/// How a navigator row lays out in `width` columns: its full source text, the name as painted,
/// and the columns before the name. A directory shows its own name and a `/` after the indent
/// and arrow; a file's name is cut from the head to leave room for the indent, marker, badge
/// and the two-column gap before a badge (never below one column).
pub open spec fn layout_spec(
    row: file_list::Row,
    entries: Seq<file_list::Entry>,
    width: nat,
    out: (Seq<char>, Seq<char>, int),
) -> bool {
    let indent_w = str_cols(indent_spec(row.depth as nat)) as int;
    &&& out.0 == row_source_spec(row, entries)
    &&& match row.kind {
        RowKind::Dir { expanded, .. } => {
            &&& out.1 == row.name@ + seq!['/']
            &&& out.2 == sat_add(indent_w, str_cols(arrow_of(expanded)) as int)
        },
        RowKind::File { annotation, .. } => {
            let marker_w = str_cols(marker_of(annotation)) as int;
            let badge = badge_of(annotation);
            let gap: int = if badge.len() == 0 {
                0
            } else {
                2
            };
            let fixed = sat_add(sat_add(sat_add(indent_w, marker_w), str_cols(badge) as int), gap);
            let room: int = if width > fixed {
                width - fixed
            } else {
                0
            };
            &&& out.1 == elide_spec(row.name@, if room >= 1 {
                room as nat
            } else {
                1
            })
            &&& out.2 == sat_add(indent_w, marker_w)
        },
    }
}

/// `n` levels of two-space indent.
fn indent_of(depth: usize) -> (out: String)
    requires
        depth <= usize::MAX / 2,
    ensures
        out@ == indent_spec(depth as nat),
{
    let mut out = String::new();
    let mut i: usize = 0;
    while i < 2 * depth
        invariant
            depth <= usize::MAX / 2,
            i <= 2 * depth,
            out@ == Seq::new(i as nat, |k: int| ' '),
        decreases 2 * depth - i,
    {
        push_char(&mut out, ' ');
        i = i + 1;
        proof {
            assert(out@ =~= Seq::new(i as nat, |k: int| ' '));
        }
    }
    out
}

/// Lay out a navigator row in `width` columns: its source text, its painted name, and the
/// columns before the name.
pub fn copy_file_name_layout(row: &file_list::Row, entries: &Vec<file_list::Entry>, width: usize)
    -> (out: (String, String, usize))
    requires
        row.depth <= usize::MAX / 2,
    ensures
        layout_spec(*row, entries@, width as nat, (out.0@, out.1@, out.2 as int)),
{
    let source = file_row_text(row, entries);
    let indent = indent_of(row.depth);
    let indent_w = str_width(indent.as_str());
    match &row.kind {
        RowKind::Dir { expanded, .. } => {
            let mut arrow = String::new();
            push_char(&mut arrow, if *expanded { '\u{25be}' } else { '\u{25b8}' });
            push_char(&mut arrow, ' ');
            proof {
                assert(arrow@ =~= arrow_of(*expanded));
            }
            let prefix = indent_w.saturating_add(str_width(arrow.as_str()));
            let mut shown = owned(row.name.as_str());
            push_char(&mut shown, '/');
            proof {
                assert(shown@ =~= row.name@ + seq!['/']);
            }
            (source, shown, prefix)
        },
        RowKind::File { annotation, .. } => {
            let mut marker = String::new();
            let (additions, deletions) = match annotation {
                Some(a) => {
                    push_char(&mut marker, a.change.marker());
                    push_char(&mut marker, ' ');
                    (a.additions, a.deletions)
                },
                None => (0, 0),
            };
            proof {
                assert(marker@ =~= marker_of(*annotation));
            }
            let stats = stats_str(additions, deletions);
            let gap: usize = if stats.as_str().is_empty() {
                0
            } else {
                2
            };
            let marker_w = str_width(marker.as_str());
            let fixed = indent_w.saturating_add(marker_w).saturating_add(
                str_width(stats.as_str()),
            ).saturating_add(gap);
            let room = width.saturating_sub(fixed);
            let shown = elide_head(row.name.as_str(), if room >= 1 { room } else { 1 });
            (source, shown, indent_w.saturating_add(marker_w))
        },
    }
}


/// Line `i` of a source listing, when it holds text.
pub open spec fn line_at(lines: Seq<Option<String>>, i: int) -> Option<Seq<char>> {
    if 0 <= i < lines.len() {
        match lines[i] {
            Some(s) => Some(s@),
            None => None,
        }
    } else {
        None
    }
}

/// Whether every line strictly between `a` and `b` holds text.
pub open spec fn all_text_between(lines: Seq<Option<String>>, a: int, b: int) -> bool {
    forall|i: int| a < i < b ==> (#[trigger] lines[i]) is Some
}

/// The text of the lines strictly between `a` and `b`.
pub open spec fn middle_lines(lines: Seq<Option<String>>, a: int, b: int) -> Seq<Seq<char>> {
    Seq::new((b - a - 1) as nat, |k: int| lines[a + 1 + k]->0@)
}

/// Whether every line of a listing is short enough that its display columns fit a `usize`.
pub open spec fn lines_fit(lines: Seq<Option<String>>) -> bool {
    forall|i: int| 0 <= i < lines.len() && (#[trigger] lines[i]) is Some ==> lines[i]->0@.len()
        * 4 <= usize::MAX
}

/// The source text between two points, in source order, both ends inclusive: within one
/// line its characters, across lines the first line from the start, the whole lines between,
/// and the last line up to the end, joined by newlines. Nothing when an end or a line between
/// has no source text (a fold).
pub open spec fn stream_spec(lines: Seq<Option<String>>, first: SourcePoint, second: SourcePoint)
    -> Option<Seq<char>> {
    let start = if source_le(first, second) {
        first
    } else {
        second
    };
    let end = if source_le(first, second) {
        second
    } else {
        first
    };
    match (line_at(lines, start.line as int), line_at(lines, end.line as int)) {
        (Some(sl), Some(el)) => {
            let sc = char_index_spec(sl, start.display_column as nat);
            let ec = char_index_spec(el, end.display_column as nat);
            if start.line == end.line {
                Some(inclusive_spec(sl, sc, ec))
            } else if all_text_between(lines, start.line as int, end.line as int) {
                Some(
                    join(
                        seq![sl.skip(sc)] + middle_lines(lines, start.line as int, end.line as int)
                            + seq![inclusive_spec(el, 0, ec)],
                        seq!['\n'],
                    ),
                )
            } else {
                None
            }
        },
        _ => None,
    }
}

/// The source text a selection between two points copies.
pub fn stream_source(lines: &[Option<String>], first: SourcePoint, second: SourcePoint) -> (out:
    Option<String>)
    requires
        lines_fit(lines@),
    ensures
        match out {
            Some(t) => stream_spec(lines@, first, second) == Some(t@),
            None => stream_spec(lines@, first, second) is None,
        },
{
    let first_first = first.line < second.line || (first.line == second.line
        && first.display_column <= second.display_column);
    let (start, end) = if first_first {
        (first, second)
    } else {
        (second, first)
    };
    if start.line >= lines.len() || end.line >= lines.len() {
        return None;
    }
    let start_line = match &lines[start.line] {
        Some(t) => t,
        None => {
            return None;
        },
    };
    let end_line = match &lines[end.line] {
        Some(t) => t,
        None => {
            return None;
        },
    };
    assert(lines@[start.line as int] is Some);
    assert(lines@[end.line as int] is Some);
    let start_char = display_column_to_char_index(start_line.as_str(), start.display_column);
    let end_char = display_column_to_char_index(end_line.as_str(), end.display_column);
    if start.line == end.line {
        return Some(inclusive_chars(start_line.as_str(), start_char, end_char));
    }
    let mut parts: Vec<String> = Vec::new();
    push_string(&mut parts, from_char(start_line.as_str(), start_char));
    let mut i = start.line + 1;
    while i < end.line
        invariant
            start == if source_le(first, second) {
                first
            } else {
                second
            },
            end == if source_le(first, second) {
                second
            } else {
                first
            },
            line_at(lines@, start.line as int) == Some(start_line@),
            line_at(lines@, end.line as int) == Some(end_line@),
            start.line < end.line < lines@.len(),
            start.line + 1 <= i <= end.line,
            all_text_between(lines@, start.line as int, i as int),
            views(parts@) == seq![start_line@.skip(start_char as int)] + middle_lines(
                lines@,
                start.line as int,
                i as int,
            ),
        decreases end.line - i,
    {
        match &lines[i] {
            Some(t) => {
                push_string(&mut parts, owned(t.as_str()));
            },
            None => {
                proof {
                    assert(lines@[i as int] is None);
                    assert(!all_text_between(lines@, start.line as int, end.line as int));
                }
                return None;
            },
        }
        proof {
            assert(views(parts@) =~= seq![start_line@.skip(start_char as int)] + middle_lines(
                lines@,
                start.line as int,
                i + 1,
            ));
        }
        i = i + 1;
    }
    push_string(&mut parts, inclusive_chars(end_line.as_str(), 0, end_char));
    let out = join_strings(&parts, "\n");
    proof {
        assert(views(parts@) =~= seq![start_line@.skip(start_char as int)] + middle_lines(
            lines@,
            start.line as int,
            end.line as int,
        ) + seq![inclusive_spec(end_line@, 0, end_char as int)]);
        reveal_strlit("\n");
        assert("\n"@ =~= seq!['\n']);
    }
    Some(out)
}


/// One display cell of a source line: a tab becomes the spaces up to its stop.
#[derive(Clone, Copy, Debug, PartialEq, Eq, Structural)]
pub struct SourceCell {
    pub ch: char,
    pub width: usize,
}

/// The cells of the first `k` characters of `cs`, as `(character, width)`: a tab expands to
/// one-column spaces up to the next four-column stop; any other character is one cell of its
/// display width (none for a control code).
pub open spec fn cells_spec(cs: Seq<char>, k: int) -> Seq<(char, nat)>
    decreases k,
{
    if k <= 0 {
        Seq::empty()
    } else {
        let prev = cells_spec(cs, k - 1);
        let col = column_at(cs, k - 1);
        let c = cs[k - 1];
        prev + if c == '\t' {
            Seq::new(advance(c, col), |i: int| (' ', 1nat))
        } else {
            seq![(c, advance(c, col))]
        }
    }
}

/// Cells as plain values.
pub open spec fn cells_view(cells: Seq<SourceCell>) -> Seq<(char, nat)> {
    cells.map_values(|c: SourceCell| (c.ch, c.width as nat))
}

/// Viewing a pushed cell appends its view.
proof fn lemma_cells_view_push(prev: Seq<SourceCell>, c: SourceCell)
    ensures
        cells_view(prev.push(c)) == cells_view(prev).push((c.ch, c.width as nat)),
{
    assert(cells_view(prev.push(c)) =~= cells_view(prev).push((c.ch, c.width as nat)));
}

/// The display cells of a source line.
pub fn source_cells(text: &str) -> (cells: Vec<SourceCell>)
    requires
        text@.len() * 4 <= usize::MAX,
    ensures
        cells_view(cells@) == cells_spec(text@, text@.len() as int),
{
    let cs = to_chars(text);
    let mut cells: Vec<SourceCell> = Vec::new();
    let mut column: usize = 0;
    let mut i: usize = 0;
    while i < cs.len()
        invariant
            cs@ == text@,
            cs@.len() * 4 <= usize::MAX,
            i <= cs@.len(),
            column == column_at(cs@, i as int),
            column <= 4 * i,
            cells_view(cells@) == cells_spec(cs@, i as int),
        decreases cs@.len() - i,
    {
        let ch = cs[i];
        let w = advance_of(ch, column);
        let ghost before = cells_view(cells@);
        if ch == '\t' {
            let mut j: usize = 0;
            while j < w
                invariant
                    j <= w,
                    cells_view(cells@) == before + Seq::new(j as nat, |k: int| (' ', 1nat)),
                decreases w - j,
            {
                let ghost prev = cells@;
                cells.push(SourceCell { ch: ' ', width: 1 });
                j = j + 1;
                proof {
                    assert(cells@ == prev.push(SourceCell { ch: ' ', width: 1 }));
                    assert(cells_view(cells@) =~= cells_view(prev).push((' ', 1nat)));
                    assert(cells_view(cells@) =~= before + Seq::new(j as nat, |k: int| (' ', 1nat)));
                }
            }
        } else {
            let ghost prev = cells@;
            let cell = SourceCell { ch, width: w };
            cells.push(cell);
            proof {
                lemma_cells_view_push(prev, cell);
                assert(cells@ == prev.push(cell));
                assert(cells_view(cells@) =~= before + seq![(ch, w as nat)]);
            }
        }
        column = column + w;
        i = i + 1;
        proof {
            assert(cells_view(cells@) =~= cells_spec(cs@, i as int));
        }
    }
    cells
}

/// Where the row starting at cell `start` stops filling `width` columns, scanning from
/// `limit` with `columns` taken so far: the first cell that would overflow (the row takes at
/// least one cell), or the end.
pub open spec fn fill_limit(cells: Seq<(char, nat)>, start: int, limit: int, columns: int, width: int) -> int
    decreases cells.len() - limit,
{
    if limit < 0 || limit >= cells.len() {
        cells.len() as int
    } else if columns + cells[limit].1 > width && limit > start {
        limit
    } else {
        fill_limit(cells, start, limit + 1, columns + cells[limit].1, width)
    }
}

/// The last space among cells `[from, to)`, if any.
pub open spec fn last_space(cells: Seq<(char, nat)>, from: int, to: int) -> Option<int>
    decreases to - from,
{
    if to <= from {
        None
    } else if cells[to - 1].0 == ' ' {
        Some(to - 1)
    } else {
        last_space(cells, from, to - 1)
    }
}

/// Where a wrapped row starting at `start` ends: the whole rest when it fits, else just past
/// the last space before the overflow, else at the overflow.
pub open spec fn row_end(cells: Seq<(char, nat)>, start: int, width: int) -> int {
    let limit = fill_limit(cells, start, start, 0, width);
    if limit == cells.len() {
        limit
    } else {
        match last_space(cells, start, limit) {
            Some(i) => i + 1,
            None => limit,
        }
    }
}

/// The first cell at or after `from` that is not a space (the padding a wrap drops).
pub open spec fn skip_spaces(cells: Seq<(char, nat)>, from: int) -> int
    decreases cells.len() - from,
{
    if from < 0 || from >= cells.len() || cells[from].0 != ' ' {
        from
    } else {
        skip_spaces(cells, from + 1)
    }
}

/// The wrapped rows from cell `start` on, each `(first cell, end cell)`; `fuel` bounds the
/// number of rows (each row takes at least one cell, so the cell count always suffices).
pub open spec fn rows_from(cells: Seq<(char, nat)>, start: int, width: int, fuel: nat) -> Seq<(int, int)>
    decreases fuel,
{
    if fuel == 0 || start < 0 || start >= cells.len() {
        Seq::empty()
    } else {
        let end = row_end(cells, start, width);
        if end >= cells.len() {
            seq![(start, cells.len() as int)]
        } else {
            seq![(start, end)] + rows_from(cells, skip_spaces(cells, end), width, (fuel - 1) as nat)
        }
    }
}

/// The rows a source line's cells wrap to at `width` columns: with wrapping off, the whole
/// line; an empty line is one empty row; otherwise rows filled greedily, broken after the last
/// space that fits, with the spaces at a break dropped from the next row's start.
pub open spec fn segments_spec(cells: Seq<(char, nat)>, width: int, wrap: bool) -> Seq<(int, int)> {
    if !wrap {
        seq![(0, cells.len() as int)]
    } else if cells.len() == 0 {
        seq![(0, 0)]
    } else {
        rows_from(cells, 0, width, cells.len())
    }
}

/// `fill_limit` moves past `start` and stays within the cells.
proof fn lemma_fill_limit(cells: Seq<(char, nat)>, start: int, limit: int, columns: int, width: int)
    requires
        0 <= start <= limit <= cells.len(),
        limit == start ==> columns == 0,
    ensures
        start < cells.len() ==> start < fill_limit(cells, start, limit, columns, width),
        fill_limit(cells, start, limit, columns, width) <= cells.len(),
        limit <= fill_limit(cells, start, limit, columns, width),
    decreases cells.len() - limit,
{
    if limit < cells.len() && !(columns + cells[limit].1 > width && limit > start) {
        lemma_fill_limit(cells, start, limit + 1, columns + cells[limit].1, width);
    }
}

/// `last_space` finds a space within the range.
proof fn lemma_last_space(cells: Seq<(char, nat)>, from: int, to: int)
    requires
        0 <= from,
        to <= cells.len(),
    ensures
        last_space(cells, from, to) matches Some(i) ==> from <= i < to && cells[i].0 == ' ',
    decreases to - from,
{
    if to > from && cells[to - 1].0 != ' ' {
        lemma_last_space(cells, from, to - 1);
    }
}

/// `skip_spaces` never moves back and stays within the cells.
proof fn lemma_skip_spaces(cells: Seq<(char, nat)>, from: int)
    requires
        0 <= from <= cells.len(),
    ensures
        from <= skip_spaces(cells, from) <= cells.len(),
    decreases cells.len() - from,
{
    if from < cells.len() && cells[from].0 == ' ' {
        lemma_skip_spaces(cells, from + 1);
    }
}

/// Rows from `start` need no more fuel than the cells left.
proof fn lemma_rows_fuel(cells: Seq<(char, nat)>, start: int, width: int, f1: nat, f2: nat)
    requires
        0 <= start <= cells.len(),
        f1 >= cells.len() - start,
        f2 >= cells.len() - start,
    ensures
        rows_from(cells, start, width, f1) == rows_from(cells, start, width, f2),
    decreases f1,
{
    if start < cells.len() {
        let end = row_end(cells, start, width);
        lemma_fill_limit(cells, start, start, 0, width);
        lemma_last_space(cells, start, fill_limit(cells, start, start, 0, width));
        if end < cells.len() {
            lemma_skip_spaces(cells, end);
            lemma_rows_fuel(cells, skip_spaces(cells, end), width, (f1 - 1) as nat, (f2 - 1) as nat);
        }
    }
}

/// The rows a source line's cells wrap to at `width` columns, each `(first cell, end cell)`.
pub fn source_segments(cells: &[SourceCell], width: usize, wrap: bool) -> (s: Vec<(usize, usize)>)
    ensures
        s@.map_values(|r: (usize, usize)| (r.0 as int, r.1 as int)) == segments_spec(
            cells_view(cells@),
            width as int,
            wrap,
        ),
{
    let ghost cv = cells_view(cells@);
    let mut segments: Vec<(usize, usize)> = Vec::new();
    if !wrap {
        segments.push((0, cells.len()));
        proof {
            assert(segments@.map_values(|r: (usize, usize)| (r.0 as int, r.1 as int)) =~= seq![
                (0int, cells@.len() as int),
            ]);
        }
        return segments;
    }
    if cells.len() == 0 {
        segments.push((0, 0));
        proof {
            assert(segments@.map_values(|r: (usize, usize)| (r.0 as int, r.1 as int)) =~= seq![
                (0int, 0int),
            ]);
        }
        return segments;
    }
    let n = cells.len();
    let mut start: usize = 0;
    proof {
        assert(segments@.map_values(|r: (usize, usize)| (r.0 as int, r.1 as int)) =~= Seq::<(int, int)>::empty());
    }
    while start < n
        invariant
            n == cells@.len(),
            cv == cells_view(cells@),
            cv.len() == n,
            n > 0,
            wrap,
            start <= n,
            segments@.map_values(|r: (usize, usize)| (r.0 as int, r.1 as int)) + rows_from(
                cv,
                start as int,
                width as int,
                (n - start) as nat,
            ) == rows_from(cv, 0, width as int, n as nat),
        decreases n - start,
    {
        let ghost before = segments@.map_values(|r: (usize, usize)| (r.0 as int, r.1 as int));
        let mut columns: usize = 0;
        let mut limit = start;
        proof {
            lemma_fill_limit(cv, start as int, start as int, 0, width as int);
        }
        while limit < n
            invariant
                n == cells@.len(),
                cv == cells_view(cells@),
                start < n,
                start <= limit <= n,
                limit == start ==> columns == 0,
                fill_limit(cv, start as int, limit as int, columns as int, width as int)
                    == fill_limit(cv, start as int, start as int, 0, width as int),
            ensures
                limit == fill_limit(cv, start as int, start as int, 0, width as int),
            decreases n - limit,
        {
            let cell_width = cells[limit].width;
            assert(cv[limit as int].1 == cell_width);
            let over = if columns > width {
                true
            } else {
                cell_width > width - columns
            };
            if over && limit > start {
                break;
            }
            columns = if limit == start {
                cell_width
            } else {
                columns + cell_width
            };
            limit = limit + 1;
        }
        let ghost lim = fill_limit(cv, start as int, start as int, 0, width as int);
        assert(limit == lim);
        proof {
            lemma_fill_limit(cv, start as int, start as int, 0, width as int);
            lemma_last_space(cv, start as int, limit as int);
        }
        if limit == n {
            segments.push((start, n));
            proof {
                assert(row_end(cv, start as int, width as int) == n);
                assert(rows_from(cv, start as int, width as int, (n - start) as nat) == seq![
                    (start as int, n as int),
                ]);
                assert(segments@.map_values(|r: (usize, usize)| (r.0 as int, r.1 as int)) =~= before
                    + seq![(start as int, n as int)]);
                assert(segments_spec(cv, width as int, true) == rows_from(cv, 0, width as int, n as nat));
            }
            return segments;
        }
        let mut k = limit;
        while k > start && cells[k - 1].ch != ' '
            invariant
                n == cells@.len(),
                cv == cells_view(cells@),
                start <= k <= limit < n,
                last_space(cv, start as int, k as int) == last_space(cv, start as int, limit as int),
            decreases k,
        {
            assert(cv[k - 1].0 == cells@[k - 1].ch);
            k = k - 1;
        }
        if k > start {
            assert(cv[k - 1].0 == cells@[k - 1].ch);
        }
        let end = if k > start { k } else { limit };
        assert(end == row_end(cv, start as int, width as int));
        segments.push((start, end));
        let mut next = end;
        proof {
            lemma_skip_spaces(cv, end as int);
            assert(skip_spaces(cv, end as int) == skip_spaces(cv, next as int));
        }
        while next < n && cells[next].ch == ' '
            invariant
                n == cells@.len(),
                cv == cells_view(cells@),
                end <= next <= n,
                skip_spaces(cv, end as int) == skip_spaces(cv, next as int),
            decreases n - next,
        {
            assert(cv[next as int].0 == cells@[next as int].ch);
            next = next + 1;
        }
        if next < n {
            assert(cv[next as int].0 == cells@[next as int].ch);
        }
        proof {
            assert(skip_spaces(cv, next as int) == next);
            lemma_skip_spaces(cv, end as int);
            lemma_rows_fuel(cv, next as int, width as int, (n - start - 1) as nat, (n - next) as nat);
            assert(rows_from(cv, start as int, width as int, (n - start) as nat) == seq![
                (start as int, end as int),
            ] + rows_from(cv, next as int, width as int, (n - start - 1) as nat));
            assert(segments@.map_values(|r: (usize, usize)| (r.0 as int, r.1 as int)) =~= before
                + seq![(start as int, end as int)]);
        }
        start = next;
    }
    proof {
        let sv = segments@.map_values(|r: (usize, usize)| (r.0 as int, r.1 as int));
        assert(rows_from(cv, start as int, width as int, (n - start) as nat) == Seq::<(int, int)>::empty());
        assert(sv + Seq::<(int, int)>::empty() =~= sv);
        assert(segments_spec(cv, width as int, true) == rows_from(cv, 0, width as int, n as nat));
    }
    segments
}

} // verus!

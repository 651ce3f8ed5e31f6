//! The persistent comment record: one JSON document per stored comment, keyed by its id.
//!
//! The document is written by hand (never derived), so an unknown field written by a newer
//! version survives a rewrite from an older one, and a document that fails any field check
//! reads as corrupt rather than as a wrong comment. The directory I/O around these records
//! lives with the binary; the record shape, its text, the id rules, and the timestamps live
//! here.

use vstd::prelude::*;
use vstd::utf8::encode_utf8;

use crate::json::{
    at_spec, flat_doc, get_spec, json_parse, json_render, json_string, lemma_member_index, member_index, parse_json,
    str_field, str_spec, u64_field, u64_spec, Json,
};
use crate::model::{Comment, Side};
use crate::text::{
    decimal, keyed_order, keyed_sort_order, lemma_lex_asymmetric, lemma_lex_irreflexive,
    lemma_lex_total, lemma_lex_transitive, lex_lt, owned, padded, push_chars, push_padded, push_str,
    push_string, str_eq, str_lt, views, char_count, ends_with, has_suffix, has_prefix, starts_with,
};
use crate::nav::{fnv1a, fnv1a_spec};

verus! {

/// Who left a comment: the CLI (an agent) or the TUI (a person at the keyboard).
#[derive(Clone, Copy, Debug, PartialEq, Eq, Structural)]
pub enum Author {
    User,
    Agent,
}

impl Author {
    /// The stored spelling.
    pub open spec fn spelling(self) -> Seq<char> {
        match self {
            Author::User => "user"@,
            Author::Agent => "agent"@,
        }
    }

    /// The stored spelling.
    pub fn as_str(self) -> (s: &'static str)
        ensures
            s@ == self.spelling(),
    {
        match self {
            Author::User => "user",
            Author::Agent => "agent",
        }
    }

    /// The author a stored spelling names.
    pub fn parse(s: &str) -> (a: Option<Author>)
        ensures
            a == (if s@ == "user"@ {
                Some(Author::User)
            } else if s@ == "agent"@ {
                Some(Author::Agent)
            } else {
                None
            }),
    {
        if str_eq(s, "user") {
            Some(Author::User)
        } else if str_eq(s, "agent") {
            Some(Author::Agent)
        } else {
            None
        }
    }
}

/// A comment's place in its lifecycle: still awaiting action, or resolved by either side.
#[derive(Clone, Copy, Debug, PartialEq, Eq, Structural)]
pub enum Status {
    Open,
    Resolved,
}

impl Status {
    /// The stored spelling.
    pub open spec fn spelling(self) -> Seq<char> {
        match self {
            Status::Open => "open"@,
            Status::Resolved => "resolved"@,
        }
    }

    /// The stored spelling.
    pub fn as_str(self) -> (s: &'static str)
        ensures
            s@ == self.spelling(),
    {
        match self {
            Status::Open => "open",
            Status::Resolved => "resolved",
        }
    }

    /// The status a stored spelling names.
    pub fn parse(s: &str) -> (st: Option<Status>)
        ensures
            st == (if s@ == "open"@ {
                Some(Status::Open)
            } else if s@ == "resolved"@ {
                Some(Status::Resolved)
            } else {
                None
            }),
    {
        if str_eq(s, "open") {
            Some(Status::Open)
        } else if str_eq(s, "resolved") {
            Some(Status::Resolved)
        } else {
            None
        }
    }
}

/// The stored spelling of a side.
pub open spec fn side_spelling(side: Side) -> Seq<char> {
    match side {
        Side::New => "new"@,
        Side::Old => "old"@,
    }
}

/// The stored spelling of a side.
pub fn side_str(side: Side) -> (s: &'static str)
    ensures
        s@ == side_spelling(side),
{
    match side {
        Side::New => "new",
        Side::Old => "old",
    }
}

/// The side a stored spelling names.
pub fn side_parse(s: &str) -> (side: Option<Side>)
    ensures
        side == (if s@ == "new"@ {
            Some(Side::New)
        } else if s@ == "old"@ {
            Some(Side::Old)
        } else {
            None
        }),
{
    if str_eq(s, "new") {
        Some(Side::New)
    } else if str_eq(s, "old") {
        Some(Side::Old)
    } else {
        None
    }
}

/// One persisted comment: lifecycle metadata plus the review-model comment.
#[derive(Clone, Debug, PartialEq, Eq)]
pub struct StoredComment {
    pub id: String,
    pub author: Author,
    pub status: Status,
    pub created_at: String,
    /// `diff_anchored` is not stored: every stored comment is diff-anchored by construction,
    /// so the loader sets it rather than spending a field on a constant.
    pub comment: Comment,
}

/// A store operation failed: the message is already formatted for a status line.
#[derive(Debug)]
pub struct StoreError(pub String);

impl StoreError {
    /// The formatted message.
    pub fn message(&self) -> (s: &str)
        ensures
            s@ == self.0@,
    {
        self.0.as_str()
    }
}

/// The shape `new_id` produces: a `c-` prefix over lowercase ASCII letters, digits, and `-`.
/// Ids are joined into file names, so a hostile id like `../../../evil` never passes.
pub open spec fn valid_id_spec(id: Seq<char>) -> bool {
    &&& id.len() >= 2
    &&& id[0] == 'c'
    &&& id[1] == '-'
    &&& forall|i: int|
        0 <= i < id.len() ==> ('a' <= #[trigger] id[i] && id[i] <= 'z') || ('0' <= id[i]
            && id[i] <= '9') || id[i] == '-'
}

/// Whether `id` has the shape [`new_id`] produces.
pub fn valid_id(id: &str) -> (b: bool)
    ensures
        b == valid_id_spec(id@),
{
    let cs = crate::text::to_chars(id);
    if cs.len() < 2 || cs[0] != 'c' || cs[1] != '-' {
        return false;
    }
    let mut i: usize = 0;
    while i < cs.len()
        invariant
            i <= cs@.len(),
            cs@ == id@,
            forall|j: int|
                0 <= j < i ==> ('a' <= #[trigger] cs@[j] && cs@[j] <= 'z') || ('0' <= cs@[j]
                    && cs@[j] <= '9') || cs@[j] == '-',
        decreases cs@.len() - i,
    {
        let c = cs[i];
        if !(('a' <= c && c <= 'z') || ('0' <= c && c <= '9') || c == '-') {
            return false;
        }
        i = i + 1;
    }
    true
}

/// The lowercase hexadecimal digit for `d < 16`.
pub open spec fn hex_digit(d: nat) -> char {
    if d < 10 {
        crate::text::digit(d)
    } else if d == 10 {
        'a'
    } else if d == 11 {
        'b'
    } else if d == 12 {
        'c'
    } else if d == 13 {
        'd'
    } else if d == 14 {
        'e'
    } else {
        'f'
    }
}

/// Four lowercase hexadecimal digits of `h < 0x10000` (`format!("{h:04x}")`).
pub open spec fn hex4(h: nat) -> Seq<char> {
    seq![hex_digit(h / 4096), hex_digit((h / 256) % 16), hex_digit((h / 16) % 16), hex_digit(h % 16)]
}

fn hex_char(d: u32) -> (c: char)
    requires
        d < 16,
    ensures
        c == hex_digit(d as nat),
{
    if d < 10 {
        let v = crate::text::decimal_chars(d as u64);
        v[0]
    } else if d == 10 {
        'a'
    } else if d == 11 {
        'b'
    } else if d == 12 {
        'c'
    } else if d == 13 {
        'd'
    } else if d == 14 {
        'e'
    } else {
        'f'
    }
}

/// The id shape: `c-<epoch-ms>-<4 lowercase hex>`.
pub open spec fn id_shape(ms: nat, h: nat) -> Seq<char> {
    "c-"@ + decimal(ms) + seq!['-'] + hex4(h)
}

/// Seconds and sub-second nanoseconds since the Unix epoch, read from the system clock
/// (`SystemTime::now().duration_since(UNIX_EPOCH)`, zero before the epoch).
#[verifier::external_body]
fn since_epoch() -> (out: (u64, u32))
    ensures
        out.1 < 1_000_000_000,
{
    let now = std::time::SystemTime::now().duration_since(std::time::UNIX_EPOCH).unwrap_or_default();
    (now.as_secs(), now.subsec_nanos())
}

/// The comment id for the clock reading `secs` seconds and `nanos` nanoseconds after the
/// epoch: `c-<epoch-ms>-<4 lowercase hex>`, the hex taken from the nanosecond remainder so two
/// ids in the same millisecond differ.
pub fn id_from_clock(secs: u64, nanos: u32) -> (id: String)
    requires
        nanos < 1_000_000_000,
    ensures
        id@ == id_shape(secs as nat * 1000 + nanos as nat / 1_000_000, nanos as nat % 65536),
        valid_id_spec(id@),
{
    let ms: u128 = (secs as u128) * 1000 + (nanos / 1_000_000) as u128;
    let h: u32 = nanos % 65536;
    let mut id = String::new();
    push_str(&mut id, "c-");
    let digits = crate::text::decimal_chars_u128(ms);
    push_chars(&mut id, digits.as_slice());
    crate::text::push_char(&mut id, '-');
    crate::text::push_char(&mut id, hex_char(h / 4096));
    crate::text::push_char(&mut id, hex_char((h / 256) % 16));
    crate::text::push_char(&mut id, hex_char((h / 16) % 16));
    crate::text::push_char(&mut id, hex_char(h % 16));
    proof {
        reveal_strlit("c-");
        assert(id@ =~= id_shape(ms as nat, h as nat));
        crate::text::lemma_decimal_digits(ms as nat);
        let d = decimal(ms as nat);
        assert forall|i: int| 0 <= i < id@.len() implies ('a' <= #[trigger] id@[i] && id@[i]
            <= 'z') || ('0' <= id@[i] && id@[i] <= '9') || id@[i] == '-' by {
            if 2 <= i < 2 + d.len() {
                assert(id@[i] == d[i - 2]);
            }
        }
    }
    id
}

/// A fresh comment id: `c-<epoch-ms>-<4 lowercase hex>` for the current clock reading. Which
/// reading that is rests on the clock; the id is `id_from_clock` of it.
pub fn new_id() -> (id: String)
    ensures
        exists|ms: nat, h: nat| h < 65536 && #[trigger] id_shape(ms, h) == id@,
        valid_id_spec(id@),
{
    let (secs, nanos) = since_epoch();
    id_from_clock(secs, nanos)
}

/// Ids of one millisecond whose nanosecond remainders differ (mod 65536) differ.
pub proof fn law_ids_of_one_millisecond_differ(ms: nat, h1: nat, h2: nat)
    requires
        h1 < 65536,
        h2 < 65536,
        h1 != h2,
    ensures
        id_shape(ms, h1) != id_shape(ms, h2),
{
    let a = id_shape(ms, h1);
    let b = id_shape(ms, h2);
    if a == b {
        let n = a.len() as int;
        assert(a.subrange(n - 4, n) =~= hex4(h1));
        assert(b.subrange(n - 4, n) =~= hex4(h2));
        lemma_hex4_injective(h1, h2);
    }
}

/// Four hexadecimal digits name one value.
proof fn lemma_hex4_injective(h1: nat, h2: nat)
    requires
        h1 < 65536,
        h2 < 65536,
        hex4(h1) == hex4(h2),
    ensures
        h1 == h2,
{
    assert(hex4(h1)[0] == hex4(h2)[0] && hex4(h1)[1] == hex4(h2)[1]);
    assert(hex4(h1)[2] == hex4(h2)[2] && hex4(h1)[3] == hex4(h2)[3]);
    lemma_hex_digit_injective(h1 / 4096, h2 / 4096);
    lemma_hex_digit_injective((h1 / 256) % 16, (h2 / 256) % 16);
    lemma_hex_digit_injective((h1 / 16) % 16, (h2 / 16) % 16);
    lemma_hex_digit_injective(h1 % 16, h2 % 16);
    lemma_hex_split(h1 as u32);
    lemma_hex_split(h2 as u32);
}

/// A value below 0x10000 is the sum of its four hexadecimal digits at their places.
proof fn lemma_hex_split(h: u32)
    requires
        h < 65536,
    ensures
        h == (h / 4096) * 4096 + ((h / 256) % 16) * 256 + ((h / 16) % 16) * 16 + h % 16,
{
    assert(h == (h / 4096) * 4096 + ((h / 256) % 16) * 256 + ((h / 16) % 16) * 16 + h % 16)
        by (bit_vector)
        requires
            h < 65536,
    ;
}

/// Distinct hexadecimal digit values give distinct characters.
proof fn lemma_hex_digit_injective(a: nat, b: nat)
    requires
        a < 16,
        b < 16,
    ensures
        hex_digit(a) == hex_digit(b) ==> a == b,
{
}

/// Days from 1970-01-01 of the proleptic Gregorian date `(y, m, d)` (Howard Hinnant's
/// `days_from_civil`).
pub open spec fn days_from_civil(y: int, m: int, d: int) -> int {
    let y = if m <= 2 {
        y - 1
    } else {
        y
    };
    let era = y / 400;
    let yoe = y - era * 400;
    let doy = (153 * (if m > 2 {
        m - 3
    } else {
        m + 9
    }) + 2) / 5 + d - 1;
    let doe = yoe * 365 + yoe / 4 - yoe / 100 + doy;
    era * 146_097 + doe - 719_468
}

/// Whether `y` is a Gregorian leap year.
pub open spec fn is_leap(y: int) -> bool {
    y % 4 == 0 && (y % 100 != 0 || y % 400 == 0)
}

/// The number of days in month `m` (1 to 12) of year `y`.
pub open spec fn days_in_month(y: int, m: int) -> int {
    if m == 2 {
        if is_leap(y) {
            29
        } else {
            28
        }
    } else if m == 4 || m == 6 || m == 9 || m == 11 {
        30
    } else {
        31
    }
}

/// The number of days in month `m` (1 to 12) of a year `y` of the common era.
pub fn month_length(y: i64, m: i64) -> (n: i64)
    requires
        y >= 0,
    ensures
        n == days_in_month(y as int, m as int),
{
    if m == 2 {
        if y % 4 == 0 && (y % 100 != 0 || y % 400 == 0) {
            29
        } else {
            28
        }
    } else if m == 4 || m == 6 || m == 9 || m == 11 {
        30
    } else {
        31
    }
}

/// The first day, within a 400-year era, of its March-based year `k` (0 to 400).
spec fn start_of(k: int) -> int {
    365 * k + k / 4 - k / 100 + k / 400
}

/// The March-based year of era day `doe`, by the rounding `civil_from_days` uses.
spec fn yoe_of(doe: int) -> int {
    (doe - doe / 1460 + doe / 36524 - doe / 146_096) / 365
}

/// The year count of an era day, before dividing by 365.
spec fn year_count(doe: int) -> int {
    doe - doe / 1460 + doe / 36524 - doe / 146_096
}

/// The rounding finds the year that starts on a given year start.
proof fn lemma_start_inverts(k: int)
    requires
        0 <= k <= 399,
    ensures
        yoe_of(start_of(k)) == k,
{
    let c = k / 100;
    let r = k % 100;
    let a = k / 4;
    let b = k % 4;
    let doe = start_of(k);
    assert(k == 100 * c + r && 0 <= r < 100 && 0 <= c <= 3);
    assert(k == 4 * a + b && 0 <= b < 4);
    assert(k / 400 == 0);
    assert(a == 25 * c + r / 4);
    assert(doe == 36524 * c + 365 * r + r / 4);
    assert(doe / 36524 == c);
    assert(doe == 1460 * a + (a + 365 * b - c));
    assert(0 <= a + 365 * b - c < 1460);
    assert(doe / 1460 == a);
    assert(doe / 146_096 == 0);
    assert(year_count(doe) == 365 * k);
}

/// The year count never falls as the era day grows by one.
proof fn lemma_year_count_step(x: int)
    requires
        0 <= x < 146_096,
    ensures
        year_count(x) <= year_count(x + 1),
{
    if (x + 1) / 146_096 > x / 146_096 {
        assert(x + 1 == 146_096);
        assert((x + 1) / 36524 == 4);
        assert(x / 36524 == 3);
        assert((x + 1) / 1460 == x / 1460);
    }
}

/// The year count never falls as the era day grows.
proof fn lemma_year_count_monotone(a: int, b: int)
    requires
        0 <= a <= b <= 146_096,
    ensures
        year_count(a) <= year_count(b),
    decreases b - a,
{
    if a < b {
        lemma_year_count_monotone(a, b - 1);
        lemma_year_count_step(b - 1);
    }
}

/// A year's length: 365 days, one more when the year its February falls in is a leap year.
proof fn lemma_year_length(k: int)
    requires
        0 <= k <= 399,
    ensures
        start_of(k + 1) - start_of(k) == 365 + if is_leap(k + 1) {
            1int
        } else {
            0int
        },
{
}

/// The March-based year that the rounding finds for era day `doe` does contain it.
proof fn lemma_year_contains(doe: int)
    requires
        0 <= doe <= 146_096,
    ensures
        0 <= yoe_of(doe) <= 399,
        start_of(yoe_of(doe)) <= doe < start_of(yoe_of(doe) + 1),
{
    lemma_year_of_era(doe);
    let y = yoe_of(doe);
    assert(y / 400 == 0);
    if y <= 398 && doe >= start_of(y + 1) {
        lemma_start_inverts(y + 1);
        assert(start_of(y + 1) <= 146_096);
        lemma_year_count_monotone(start_of(y + 1), doe);
        assert(yoe_of(doe) >= y + 1);
    }
    if y == 399 {
        assert(start_of(400) == 146_097);
    }
}

/// Within a March-based year of `364 + leap` last day, the day of month never passes the
/// month's length.
proof fn lemma_day_in_month(doy: int, leap: bool)
    requires
        0 <= doy <= 364 + if leap {
            1int
        } else {
            0int
        },
    ensures
        ({
            let mp = (5 * doy + 2) / 153;
            let d = doy - (153 * mp + 2) / 5 + 1;
            let m = if mp < 10 {
                mp + 3
            } else {
                mp - 9
            };
            &&& 0 <= mp <= 11
            &&& d <= if m == 2 {
                if leap {
                    29int
                } else {
                    28int
                }
            } else if m == 4 || m == 6 || m == 9 || m == 11 {
                30int
            } else {
                31int
            }
        }),
{
    let mp = (5 * doy + 2) / 153;
    assert(153 * mp <= 5 * doy + 2 < 153 * mp + 153);
    assert(0 <= mp <= 11);
}

/// Within a 400-year era, the year of day `doe` and that day's place in its
/// March-based year.
proof fn lemma_year_of_era(doe: int)
    requires
        0 <= doe <= 146_096,
    ensures
        ({
            let yoe = (doe - doe / 1460 + doe / 36524 - doe / 146_096) / 365;
            let doy = doe - (365 * yoe + yoe / 4 - yoe / 100);
            0 <= yoe <= 399 && 0 <= doy <= 365
        }),
{
    let q1 = doe / 1460;
    let q2 = doe / 36524;
    let q3 = doe / 146_096;
    let n = doe - q1 + q2 - q3;
    let yoe = n / 365;
    assert(0 <= q2 <= 4);
    assert(0 <= q3 <= 1);
    assert(0 <= n < 146_000);
    assert(0 <= yoe <= 399);
    let leap = yoe / 4 - yoe / 100;
    assert(365 * yoe <= n < 365 * yoe + 365);
    assert(365 * yoe + leap <= doe);
    assert(doe - (365 * yoe + leap) <= 365);
}

/// Within a March-based year, the month index and day of day-of-year `doy`.
proof fn lemma_month_of_year(doy: int)
    requires
        0 <= doy <= 365,
    ensures
        ({
            let mp = (5 * doy + 2) / 153;
            let d = doy - (153 * mp + 2) / 5 + 1;
            0 <= mp <= 11 && 1 <= d <= 31 && (153 * mp + 2) / 5 + d - 1 == doy
        }),
{
}

/// The day `civil_from_days` finds for era day `doe` of era `era` lies within its month.
#[verifier::spinoff_prover]
#[verifier::rlimit(50)]
proof fn lemma_civil_day_bound(doe: int, era: int)
    requires
        0 <= doe <= 146_096,
    ensures
        ({
            let yoe = yoe_of(doe);
            let doy = doe - (365 * yoe + yoe / 4 - yoe / 100);
            let mp = (5 * doy + 2) / 153;
            let d = doy - (153 * mp + 2) / 5 + 1;
            let m = if mp < 10 {
                mp + 3
            } else {
                mp - 9
            };
            let y = yoe + era * 400 + if m <= 2 {
                1int
            } else {
                0int
            };
            d <= days_in_month(y, m)
        }),
{
    let yoe = yoe_of(doe);
    lemma_year_contains(doe);
    lemma_year_length(yoe);
    assert(yoe / 400 == 0);
    let doy = doe - (365 * yoe + yoe / 4 - yoe / 100);
    lemma_day_in_month(doy, is_leap(yoe + 1));
    lemma_leap_shift(yoe + 1, era);
}

/// Whole 400-year eras leave leap years where they are.
proof fn lemma_leap_shift(j: int, era: int)
    ensures
        is_leap(j + era * 400) == is_leap(j),
{
    vstd::arithmetic::div_mod::lemma_mod_multiples_vanish(era * 100, j, 4);
    vstd::arithmetic::div_mod::lemma_mod_multiples_vanish(era * 4, j, 100);
    vstd::arithmetic::div_mod::lemma_mod_multiples_vanish(era, j, 400);
    assert(4 * (era * 100) + j == j + era * 400);
    assert(100 * (era * 4) + j == j + era * 400);
    assert(400 * era + j == j + era * 400);
}

/// Days since 1970-01-01 to a proleptic Gregorian `(year, month, day)` (Howard Hinnant's
/// `civil_from_days`).
pub fn civil_from_days(z: i64) -> (out: (i64, u32, u32))
    requires
        -1_000_000_000_000_000_000 <= z <= 1_000_000_000_000_000_000,
    ensures
        1 <= out.1 <= 12,
        1 <= out.2 <= days_in_month(out.0 as int, out.1 as int),
        days_from_civil(out.0 as int, out.1 as int, out.2 as int) == z,
        z >= 0 ==> out.0 >= 0,
{
    let z = z + 719_468;
    let era = if z >= 0 {
        z
    } else {
        z - 146_096
    } / 146_097;
    let day_of_era = z - era * 146_097;
    assert(0 <= day_of_era <= 146_096);
    proof {
        lemma_year_of_era(day_of_era as int);
    }
    let year_of_era = (day_of_era - day_of_era / 1460 + day_of_era / 36524 - day_of_era / 146_096)
        / 365;
    let year = year_of_era + era * 400;
    let day_of_year = day_of_era - (365 * year_of_era + year_of_era / 4 - year_of_era / 100);
    proof {
        lemma_month_of_year(day_of_year as int);
        lemma_civil_day_bound(day_of_era as int, era as int);
    }
    let mp = (5 * day_of_year + 2) / 153;
    let day = (day_of_year - (153 * mp + 2) / 5 + 1) as u32;
    let month = if mp < 10 {
        mp + 3
    } else {
        mp - 9
    } as u32;
    let out_year = if month <= 2 {
        year + 1
    } else {
        year
    };
    proof {
        let y = if month <= 2 {
            out_year - 1
        } else {
            out_year as int
        };
        assert(y == year);
        assert(y / 400 == era);
    }
    (out_year, month, day)
}

/// `"YYYY-MM-DDTHH:MM:SSZ"` for a Unix time in seconds.
pub open spec fn iso_spec(y: int, m: nat, d: nat, hh: nat, mm: nat, ss: nat) -> Seq<char> {
    padded(y as nat, 4) + seq!['-'] + padded(m, 2) + seq!['-'] + padded(d, 2) + seq!['T']
        + padded(hh, 2) + seq![':'] + padded(mm, 2) + seq![':'] + padded(ss, 2) + seq!['Z']
}

/// Whether `out` is `secs` rendered as `"YYYY-MM-DDTHH:MM:SSZ"`: the civil date of its day
/// count and the clock time of its remainder.
pub open spec fn is_iso_of(out: Seq<char>, secs: nat) -> bool {
    exists|y: int, m: nat, d: nat|
        #![trigger days_from_civil(y, m as int, d as int)]
        days_from_civil(y, m as int, d as int) == secs / 86400 && 1 <= m <= 12 && 1 <= d
            <= days_in_month(y, m as int) && y >= 0 && out == iso_spec(
            y,
            m,
            d,
            (secs % 86400 / 3600) as nat,
            (secs % 3600 / 60) as nat,
            (secs % 60) as nat,
        )
}

/// The ISO-8601 UTC timestamp of `secs` after the epoch.
pub fn iso_from_secs(secs: u64) -> (out: String)
    ensures
        is_iso_of(out@, secs as nat),
{
    let days = secs / 86400;
    let rem = secs % 86400;
    let (hour, min, sec) = (rem / 3600, (rem % 3600) / 60, rem % 60);
    proof {
        vstd::arithmetic::div_mod::lemma_mod_mod(secs as int, 3600, 24);
        vstd::arithmetic::div_mod::lemma_mod_mod(secs as int, 60, 1440);
        assert(rem % 3600 == secs % 3600);
        assert(rem % 60 == secs % 60);
    }
    let (year, month, day) = civil_from_days(days as i64);
    let mut out = String::new();
    push_padded(&mut out, year as u64, 4);
    crate::text::push_char(&mut out, '-');
    push_padded(&mut out, month as u64, 2);
    crate::text::push_char(&mut out, '-');
    push_padded(&mut out, day as u64, 2);
    crate::text::push_char(&mut out, 'T');
    push_padded(&mut out, hour, 2);
    crate::text::push_char(&mut out, ':');
    push_padded(&mut out, min, 2);
    crate::text::push_char(&mut out, ':');
    push_padded(&mut out, sec, 2);
    crate::text::push_char(&mut out, 'Z');
    proof {
        assert(out@ =~= iso_spec(
            year as int,
            month as nat,
            day as nat,
            (secs % 86400 / 3600) as nat,
            (secs % 3600 / 60) as nat,
            (secs % 60) as nat,
        ));
        assert(days_from_civil(year as int, month as int, day as int) == secs / 86400);
    }
    out
}

/// The current UTC time as `"YYYY-MM-DDTHH:MM:SSZ"`.
pub fn now_iso() -> (out: String)
    ensures
        exists|secs: nat| is_iso_of(out@, secs),
{
    let (secs, _) = since_epoch();
    iso_from_secs(secs)
}


/// Member `m` is the string field `key` holding `val`.
pub open spec fn str_member(m: (String, Json), key: Seq<char>, val: Seq<char>) -> bool {
    m.0@ == key && (m.1 matches Json::Str(x) && x@ == val)
}

/// The stored document of a comment: an object of exactly these members, in order — `id`,
/// `author`, `status`, `created_at`, `file`, `side`, `start`, `end`, `lines`, `text`.
/// `diff_anchored` is not a field.
pub open spec fn record_spec(sc: StoredComment, v: Json) -> bool {
    v matches Json::Object(m) && {
        let ms = m@;
        &&& ms.len() == 10
        &&& str_member(ms[0], "id"@, sc.id@)
        &&& str_member(ms[1], "author"@, sc.author.spelling())
        &&& str_member(ms[2], "status"@, sc.status.spelling())
        &&& str_member(ms[3], "created_at"@, sc.created_at@)
        &&& str_member(ms[4], "file"@, sc.comment.file@)
        &&& str_member(ms[5], "side"@, side_spelling(sc.comment.side))
        &&& ms[6].0@ == "start"@ && ms[6].1 == Json::UInt(sc.comment.start as u64)
        &&& ms[7].0@ == "end"@ && ms[7].1 == Json::UInt(sc.comment.end as u64)
        &&& str_member(ms[8], "lines"@, sc.comment.lines@)
        &&& str_member(ms[9], "text"@, sc.comment.text@)
    }
}

/// A string member `(key, val)`.
fn str_pair(key: &str, val: &str) -> (m: (String, Json))
    ensures
        str_member(m, key@, val@),
{
    (owned(key), Json::Str(owned(val)))
}

/// The stored document of a comment.
pub fn to_value(sc: &StoredComment) -> (v: Json)
    ensures
        record_spec(*sc, v),
{
    let mut m: Vec<(String, Json)> = Vec::new();
    m.push(str_pair("id", sc.id.as_str()));
    m.push(str_pair("author", sc.author.as_str()));
    m.push(str_pair("status", sc.status.as_str()));
    m.push(str_pair("created_at", sc.created_at.as_str()));
    m.push(str_pair("file", sc.comment.file.as_str()));
    m.push(str_pair("side", side_str(sc.comment.side)));
    m.push((owned("start"), Json::UInt(sc.comment.start as u64)));
    m.push((owned("end"), Json::UInt(sc.comment.end as u64)));
    m.push(str_pair("lines", sc.comment.lines.as_str()));
    m.push(str_pair("text", sc.comment.text.as_str()));
    Json::Object(m)
}

/// The author a stored spelling names.
pub open spec fn author_named(s: Seq<char>) -> Option<Author> {
    if s == "user"@ {
        Some(Author::User)
    } else if s == "agent"@ {
        Some(Author::Agent)
    } else {
        None
    }
}

/// The status a stored spelling names.
pub open spec fn status_named(s: Seq<char>) -> Option<Status> {
    if s == "open"@ {
        Some(Status::Open)
    } else if s == "resolved"@ {
        Some(Status::Resolved)
    } else {
        None
    }
}

/// The side a stored spelling names.
pub open spec fn side_named(s: Seq<char>) -> Option<Side> {
    if s == "new"@ {
        Some(Side::New)
    } else if s == "old"@ {
        Some(Side::Old)
    } else {
        None
    }
}

/// A string field of a document.
pub open spec fn field_str(v: Json, key: Seq<char>) -> Option<Seq<char>> {
    str_spec(at_spec(v, key))
}

/// A line-number field of a document, when it fits 32 bits.
pub open spec fn field_line(v: Json, key: Seq<char>) -> Option<u32> {
    match u64_spec(at_spec(v, key)) {
        Some(n) => if n <= u32::MAX {
            Some(n as u32)
        } else {
            None
        },
        None => None,
    }
}

/// Whether a document reads as a comment: every field present with its type, the id of the
/// valid shape, the spellings known, and the line numbers within 32 bits.
pub open spec fn readable(v: Json) -> bool {
    &&& field_str(v, "id"@) matches Some(id) && valid_id_spec(id)
    &&& field_str(v, "author"@) matches Some(a) && author_named(a) is Some
    &&& field_str(v, "status"@) matches Some(st) && status_named(st) is Some
    &&& field_str(v, "created_at"@) is Some
    &&& field_str(v, "file"@) is Some
    &&& field_str(v, "side"@) matches Some(sd) && side_named(sd) is Some
    &&& field_line(v, "start"@) is Some
    &&& field_line(v, "end"@) is Some
    &&& field_str(v, "lines"@) is Some
    &&& field_str(v, "text"@) is Some
}

/// Whether `sc` holds what a readable document holds, `diff_anchored` aside.
pub open spec fn read_fields(v: Json, sc: StoredComment) -> bool {
    &&& field_str(v, "id"@) == Some(sc.id@)
    &&& author_named(field_str(v, "author"@)->0) == Some(sc.author)
    &&& status_named(field_str(v, "status"@)->0) == Some(sc.status)
    &&& field_str(v, "created_at"@) == Some(sc.created_at@)
    &&& field_str(v, "file"@) == Some(sc.comment.file@)
    &&& side_named(field_str(v, "side"@)->0) == Some(sc.comment.side)
    &&& field_line(v, "start"@) == Some(sc.comment.start)
    &&& field_line(v, "end"@) == Some(sc.comment.end)
    &&& field_str(v, "lines"@) == Some(sc.comment.lines@)
    &&& field_str(v, "text"@) == Some(sc.comment.text@)
}

/// Whether `sc` is what a readable document holds, with `diff_anchored` false.
pub open spec fn read_from(v: Json, sc: StoredComment) -> bool {
    read_fields(v, sc) && !sc.comment.diff_anchored
}

/// Read a line-number field.
fn line_field(v: &Json, key: &str) -> (n: Option<u32>)
    ensures
        n == field_line(*v, key@),
{
    match u64_field(v, key) {
        Some(n) => if n <= 4294967295u64 {
            Some(n as u32)
        } else {
            None
        },
        None => None,
    }
}

/// Read a stored document: the comment it holds, or `None` when any field is missing,
/// mistyped or out of range, the id is not of the valid shape, or a spelling is unknown.
pub fn from_value(v: &Json) -> (r: Option<StoredComment>)
    ensures
        match r {
            Some(sc) => readable(*v) && read_from(*v, sc),
            None => !readable(*v),
        },
{
    let id = match str_field(v, "id") {
        Some(t) => t,
        None => return None,
    };
    if !valid_id(id) {
        return None;
    }
    let author = match str_field(v, "author") {
        Some(t) => match Author::parse(t) {
            Some(a) => a,
            None => return None,
        },
        None => return None,
    };
    let status = match str_field(v, "status") {
        Some(t) => match Status::parse(t) {
            Some(st) => st,
            None => return None,
        },
        None => return None,
    };
    let created_at = match str_field(v, "created_at") {
        Some(t) => t,
        None => return None,
    };
    let file = match str_field(v, "file") {
        Some(t) => t,
        None => return None,
    };
    let side = match str_field(v, "side") {
        Some(t) => match side_parse(t) {
            Some(sd) => sd,
            None => return None,
        },
        None => return None,
    };
    let start = match line_field(v, "start") {
        Some(n) => n,
        None => return None,
    };
    let end = match line_field(v, "end") {
        Some(n) => n,
        None => return None,
    };
    let lines = match str_field(v, "lines") {
        Some(t) => t,
        None => return None,
    };
    let text = match str_field(v, "text") {
        Some(t) => t,
        None => return None,
    };
    Some(
        StoredComment {
            id: owned(id),
            author,
            status,
            created_at: owned(created_at),
            comment: Comment {
                file: owned(file),
                side,
                start,
                end,
                lines: owned(lines),
                text: owned(text),
                diff_anchored: false,
            },
        },
    )
}

/// Reading back a written comment gives the same comment, its `diff_anchored` cleared: the
/// stored document carries every field, and only a valid id reads.
pub proof fn law_stored_comment_round_trips(sc: StoredComment, v: Json)
    requires
        record_spec(sc, v),
        valid_id_spec(sc.id@),
    ensures
        readable(v),
        field_str(v, "id"@) == Some(sc.id@),
        author_named(field_str(v, "author"@)->0) == Some(sc.author),
        status_named(field_str(v, "status"@)->0) == Some(sc.status),
        field_str(v, "created_at"@) == Some(sc.created_at@),
        field_str(v, "file"@) == Some(sc.comment.file@),
        side_named(field_str(v, "side"@)->0) == Some(sc.comment.side),
        field_line(v, "start"@) == Some(sc.comment.start),
        field_line(v, "end"@) == Some(sc.comment.end),
        field_str(v, "lines"@) == Some(sc.comment.lines@),
        field_str(v, "text"@) == Some(sc.comment.text@),
{
    reveal_strlit("id");
    reveal_strlit("author");
    reveal_strlit("status");
    reveal_strlit("created_at");
    reveal_strlit("file");
    reveal_strlit("side");
    reveal_strlit("start");
    reveal_strlit("end");
    reveal_strlit("lines");
    reveal_strlit("text");
    reveal_strlit("user");
    reveal_strlit("agent");
    reveal_strlit("open");
    reveal_strlit("resolved");
    reveal_strlit("new");
    reveal_strlit("old");
    reveal_with_fuel(member_index, 11);
    assert("user"@.len() == 4 && "user"@[0] == 'u');
    assert("agent"@.len() == 5 && "agent"@[0] == 'a');
    assert("open"@.len() == 4 && "open"@[0] == 'o');
    assert("resolved"@.len() == 8 && "resolved"@[0] == 'r');
    assert("new"@.len() == 3 && "new"@[0] == 'n');
    assert("old"@.len() == 3 && "old"@[0] == 'o');
    assert("id"@.len() == 2 && "id"@[0] == 'i');
    assert("author"@.len() == 6 && "author"@[0] == 'a');
    assert("status"@.len() == 6 && "status"@[0] == 's');
    assert("created_at"@.len() == 10 && "created_at"@[0] == 'c');
    assert("file"@.len() == 4 && "file"@[0] == 'f');
    assert("side"@.len() == 4 && "side"@[0] == 's');
    assert("start"@.len() == 5 && "start"@[0] == 's');
    assert("end"@.len() == 3 && "end"@[0] == 'e');
    assert("lines"@.len() == 5 && "lines"@[0] == 'l');
    assert("text"@.len() == 4 && "text"@[0] == 't');
    if let Json::Object(m) = v {
        let ms = m@;
        assert(member_index(ms, "id"@, 0) == 0);
        assert(member_index(ms, "author"@, 0) == 1);
        assert(member_index(ms, "status"@, 0) == 2);
        assert(member_index(ms, "created_at"@, 0) == 3);
        assert(member_index(ms, "file"@, 0) == 4);
        assert(member_index(ms, "side"@, 0) == 5);
        assert(member_index(ms, "start"@, 0) == 6);
        assert(member_index(ms, "end"@, 0) == 7);
        assert(member_index(ms, "lines"@, 0) == 8);
        assert(member_index(ms, "text"@, 0) == 9);
    }
}

impl StoredComment {
    /// A field-for-field copy.
    pub fn duplicate(&self) -> (c: StoredComment)
        ensures
            c == *self,
    {
        StoredComment {
            id: self.id.clone(),
            author: self.author,
            status: self.status,
            created_at: self.created_at.clone(),
            comment: Comment {
                file: self.comment.file.clone(),
                side: self.comment.side,
                start: self.comment.start,
                end: self.comment.end,
                lines: self.comment.lines.clone(),
                text: self.comment.text.clone(),
                diff_anchored: self.comment.diff_anchored,
            },
        }
    }
}

/// The ids of `cs`, in order.
pub open spec fn ids_of(cs: Seq<StoredComment>) -> Seq<Seq<char>> {
    Seq::new(cs.len(), |i: int| cs[i].id@)
}

/// The documents that read as comments, in order.
pub open spec fn readable_docs(docs: Seq<Json>) -> Seq<Json> {
    docs.filter(|v: Json| readable(v))
}

/// Whether `read` is the comments the readable documents hold, in order, each marked
/// diff-anchored (every stored comment is, by construction).
pub open spec fn loaded_from(docs: Seq<Json>, read: Seq<StoredComment>) -> bool {
    &&& read.len() == readable_docs(docs).len()
    &&& forall|i: int|
        0 <= i < read.len() ==> read_fields(readable_docs(docs)[i], #[trigger] read[i])
            && read[i].comment.diff_anchored
}

/// The store's comments from its documents: the readable ones, diff-anchored, sorted by id
/// (creation order); unreadable documents are skipped, never an error.
pub fn load_records(docs: &[Json]) -> (out: Vec<StoredComment>)
    ensures
        exists|read: Seq<StoredComment>, order: Seq<usize>|
            #[trigger] loaded_from(docs@, read) && #[trigger] keyed_order(ids_of(read), order, false)
                && out@ == Seq::new(order.len(), |k: int| read[order[k] as int]),
{
    let mut read: Vec<StoredComment> = Vec::new();
    let ghost all = docs@;
    let mut i: usize = 0;
    while i < docs.len()
        invariant
            all == docs@,
            i <= all.len(),
            read@.len() == all.take(i as int).filter(|v: Json| readable(v)).len(),
            forall|j: int|
                0 <= j < read@.len() ==> read_fields(
                    all.take(i as int).filter(|v: Json| readable(v))[j],
                    #[trigger] read@[j],
                ) && read@[j].comment.diff_anchored,
        decreases all.len() - i,
    {
        proof {
            assert(all.take(i + 1) =~= all.take(i as int).push(all[i as int]));
            all.take(i as int).lemma_filter_push(all[i as int], |v: Json| readable(v));
        }
        match from_value(&docs[i]) {
            Some(mut sc) => {
                sc.comment.diff_anchored = true;
                read.push(sc);
            },
            None => {},
        }
        i = i + 1;
    }
    proof {
        assert(all.take(all.len() as int) =~= all);
    }
    let mut ids: Vec<String> = Vec::new();
    let mut t: usize = 0;
    while t < read.len()
        invariant
            t <= read@.len(),
            views(ids@) == ids_of(read@).take(t as int),
        decreases read@.len() - t,
    {
        push_string(&mut ids, read[t].id.clone());
        t = t + 1;
        proof {
            assert(views(ids@) =~= ids_of(read@).take(t as int));
        }
    }
    proof {
        assert(ids_of(read@).take(read@.len() as int) =~= ids_of(read@));
    }
    let order = keyed_sort_order(&ids, false);
    let mut out: Vec<StoredComment> = Vec::new();
    let mut k: usize = 0;
    while k < order.len()
        invariant
            keyed_order(ids_of(read@), order@, false),
            k <= order@.len(),
            out@ == Seq::new(k as nat, |j: int| read@[order@[j] as int]),
        decreases order@.len() - k,
    {
        out.push(read[order[k]].duplicate());
        k = k + 1;
        proof {
            assert(out@ =~= Seq::new(k as nat, |j: int| read@[order@[j] as int]));
        }
    }
    proof {
        assert(loaded_from(docs@, read@));
    }
    out
}

/// A directory entry named `name` holds a stored comment: its extension (what follows its
/// last `.`, where that `.` is not the name's first character) is `json`.
pub open spec fn store_file_spec(name: Seq<char>) -> bool {
    name.len() > 5 && has_suffix(name, ".json"@)
}

/// A directory entry named `name` holds a stored comment.
pub fn store_file_name(name: &str) -> (b: bool)
    ensures
        b == store_file_spec(name@),
{
    let n = char_count(name);
    n > 5 && ends_with(name, ".json")
}

/// The directory entry `a` sorts strictly before `b`: by name, then by modification time.
pub open spec fn entry_before(a: (String, u128), b: (String, u128)) -> bool {
    lex_lt(a.0@, b.0@) || (a.0@ == b.0@ && a.1 < b.1)
}

/// `entry_before` orders strictly and its ties are transitive.
proof fn lemma_entry_order(a: (String, u128), b: (String, u128), c: (String, u128))
    ensures
        !(entry_before(a, b) && entry_before(b, a)),
        entry_before(a, b) && entry_before(b, c) ==> entry_before(a, c),
        !entry_before(a, b) && !entry_before(b, a) && !entry_before(b, c) && !entry_before(c, b)
            ==> !entry_before(a, c) && !entry_before(c, a),
        entry_before(a, b) && !entry_before(b, c) && !entry_before(c, b) ==> entry_before(a, c),
        !entry_before(a, b) && !entry_before(b, a) && entry_before(b, c) ==> entry_before(a, c),
{
    lemma_lex_asymmetric(a.0@, b.0@);
    lemma_lex_irreflexive(a.0@);
    lemma_lex_total(a.0@, b.0@);
    lemma_lex_total(b.0@, c.0@);
    lemma_lex_total(a.0@, c.0@);
    if lex_lt(a.0@, b.0@) && lex_lt(b.0@, c.0@) {
        lemma_lex_transitive(a.0@, b.0@, c.0@);
    }
    lemma_lex_asymmetric(a.0@, c.0@);
    lemma_lex_asymmetric(b.0@, c.0@);
}

/// `order` lists `items` sorted by name, then modification time: each position exactly once.
pub open spec fn entry_order(items: Seq<(String, u128)>, order: Seq<usize>) -> bool {
    &&& order.len() == items.len()
    &&& forall|k: int| 0 <= k < order.len() ==> order[k] < items.len()
    &&& forall|k: int, l: int|
        0 <= k < l < order.len() ==> (entry_before(items[order[k] as int], items[order[l] as int])
            || (!entry_before(items[order[l] as int], items[order[k] as int]) && order[k]
            < order[l]))
}

/// Whether entry `a` sorts strictly before `b`.
fn entry_lt(a: &(String, u128), b: &(String, u128)) -> (r: bool)
    ensures
        r == entry_before(*a, *b),
{
    str_lt(a.0.as_str(), b.0.as_str()) || (str_eq(a.0.as_str(), b.0.as_str()) && a.1 < b.1)
}

/// The sorted order of directory entries.
fn entry_sort_order(items: &Vec<(String, u128)>) -> (order: Vec<usize>)
    ensures
        entry_order(items@, order@),
{
    let ghost es = items@;
    let mut order: Vec<usize> = Vec::new();
    let mut i: usize = 0;
    while i < items.len()
        invariant
            es == items@,
            i <= es.len(),
            order@.len() == i,
            forall|k: int| 0 <= k < order@.len() ==> order@[k] < i,
            forall|k: int, l: int|
                0 <= k < l < order@.len() ==> (entry_before(es[order@[k] as int], es[order@[l] as int])
                    || (!entry_before(es[order@[l] as int], es[order@[k] as int]) && order@[k]
                    < order@[l])),
        decreases es.len() - i,
    {
        let mut p: usize = 0;
        while p < order.len() && !entry_lt(&items[i], &items[order[p]])
            invariant
                es == items@,
                p <= order@.len(),
                i < es.len(),
                forall|k: int| 0 <= k < order@.len() ==> order@[k] < i,
                forall|k: int| 0 <= k < p ==> !entry_before(es[i as int], es[order@[k] as int]),
            decreases order@.len() - p,
        {
            p = p + 1;
        }
        let ghost old_order = order@;
        proof {
            assert forall|k: int| p <= k < old_order.len() implies entry_before(
                es[i as int],
                es[old_order[k] as int],
            ) by {
                if k > p {
                    let a = es[i as int];
                    let b = es[old_order[p as int] as int];
                    let c = es[old_order[k] as int];
                    lemma_entry_order(a, b, c);
                    lemma_entry_order(b, c, a);
                    lemma_entry_order(c, a, b);
                }
            }
        }
        order.insert(p, i);
        proof {
            assert forall|k: int, l: int| 0 <= k < l < order@.len() implies (entry_before(
                es[order@[k] as int],
                es[order@[l] as int],
            ) || (!entry_before(es[order@[l] as int], es[order@[k] as int]) && order@[k]
                < order@[l])) by {
                if k < p && l == p {
                    let a = es[order@[k] as int];
                    let b = es[i as int];
                    lemma_entry_order(a, b, a);
                } else if k < p && l > p {
                    assert(order@[l] == old_order[l - 1]);
                } else if k == p && l > p {
                    assert(order@[l] == old_order[l - 1]);
                } else if k > p {
                    assert(order@[k] == old_order[k - 1]);
                    assert(order@[l] == old_order[l - 1]);
                }
            }
        }
        i = i + 1;
    }
    order
}

/// The `n` little-endian bytes of `m`.
pub open spec fn le_bytes(m: nat, n: nat) -> Seq<u8>
    decreases n,
{
    if n == 0 {
        Seq::empty()
    } else {
        seq![(m % 256) as u8] + le_bytes(m / 256, (n - 1) as nat)
    }
}

/// The bytes a signature hashes: each entry's UTF-8 name, then its modification time as
/// sixteen little-endian bytes.
pub open spec fn signature_stream(entries: Seq<(String, u128)>) -> Seq<u8>
    decreases entries.len(),
{
    if entries.len() == 0 {
        Seq::empty()
    } else {
        signature_stream(entries.drop_last()) + encode_utf8(entries.last().0@) + le_bytes(
            entries.last().1 as nat,
            16,
        )
    }
}

/// Append the `n` little-endian bytes of `m`.
fn push_le(out: &mut Vec<u8>, m: u128, n: usize)
    ensures
        final(out)@ == old(out)@ + le_bytes(m as nat, n as nat),
    decreases n,
{
    if n > 0 {
        out.push((m % 256) as u8);
        let ghost mid = out@;
        push_le(out, m / 256, n - 1);
        proof {
            assert(final(out)@ =~= old(out)@ + le_bytes(m as nat, n as nat));
        }
    } else {
        proof {
            assert(old(out)@ + le_bytes(m as nat, 0) =~= old(out)@);
        }
    }
}

/// The directory's change signature from its entries' names and modification times
/// (nanoseconds): the FNV-1a hash of the entries, sorted by name then time, each fed as its
/// UTF-8 name and sixteen little-endian time bytes. Any edit, addition or removal changes the
/// entries and, but for a hash collision, the signature.
pub fn entries_signature(items: &Vec<(String, u128)>) -> (h: u64)
    ensures
        exists|order: Seq<usize>|
            #[trigger] entry_order(items@, order) && h == fnv1a_spec(
                signature_stream(Seq::new(order.len(), |k: int| items@[order[k] as int])),
            ),
{
    let order = entry_sort_order(items);
    let ghost sorted = Seq::new(order@.len(), |k: int| items@[order@[k] as int]);
    let mut bytes: Vec<u8> = Vec::new();
    let mut k: usize = 0;
    while k < order.len()
        invariant
            entry_order(items@, order@),
            sorted == Seq::new(order@.len(), |j: int| items@[order@[j] as int]),
            k <= order@.len(),
            bytes@ == signature_stream(sorted.take(k as int)),
        decreases order@.len() - k,
    {
        let entry = &items[order[k]];
        let name_bytes = entry.0.as_str().as_bytes();
        let mut b: usize = 0;
        let ghost before = bytes@;
        while b < name_bytes.len()
            invariant
                b <= name_bytes@.len(),
                bytes@ == before + name_bytes@.take(b as int),
            decreases name_bytes@.len() - b,
        {
            bytes.push(name_bytes[b]);
            b = b + 1;
            proof {
                assert(bytes@ =~= before + name_bytes@.take(b as int));
            }
        }
        push_le(&mut bytes, entry.1, 16);
        k = k + 1;
        proof {
            assert(name_bytes@.take(name_bytes@.len() as int) =~= name_bytes@);
            assert(sorted.take(k as int).drop_last() =~= sorted.take(k - 1));
            assert(bytes@ =~= signature_stream(sorted.take(k as int)));
        }
    }
    proof {
        assert(sorted.take(order@.len() as int) =~= sorted);
    }
    fnv1a(bytes.as_slice())
}

/// A stored document with its `status` member set to `status`: an existing `status` member
/// is replaced in place, every other member kept as it is; without one, it is appended. An
/// empty (`null`) document becomes an object holding only the status.
pub open spec fn with_status_spec(doc: Json, status: Status, out: Json) -> bool {
    match doc {
        Json::Object(m) => out matches Json::Object(n) && {
            let k = member_index(m@, "status"@, 0);
            if k >= 0 {
                n@.len() == m@.len() && n@[k].0@ == "status"@ && (n@[k].1 matches Json::Str(t)
                    && t@ == status.spelling()) && forall|i: int|
                    0 <= i < m@.len() && i != k ==> #[trigger] n@[i] == m@[i]
            } else {
                n@.len() == m@.len() + 1 && n@.take(m@.len() as int) == m@ && n@.last().0@
                    == "status"@ && (n@.last().1 matches Json::Str(t) && t@ == status.spelling())
            }
        },
        _ => out matches Json::Object(n) && n@.len() == 1 && n@[0].0@ == "status"@ && (
        n@[0].1 matches Json::Str(t) && t@ == status.spelling()),
    }
}

/// Set a stored document's `status`, keeping every other member (fields this version does not
/// know survive a rewrite).
pub fn with_status(doc: Json, status: Status) -> (out: Json)
    requires
        doc is Object || doc is Null,
    ensures
        with_status_spec(doc, status, out),
{
    match doc {
        Json::Object(members) => {
            let mut m = members;
            let ghost orig = m@;
            let mut i: usize = 0;
            while i < m.len()
                invariant
                    m@ == orig,
                    doc matches Json::Object(mm) && mm@ == orig,
                    i <= m@.len(),
                    member_index(m@, "status"@, 0) == member_index(m@, "status"@, i as int),
                decreases m@.len() - i,
            {
                if str_eq(m[i].0.as_str(), "status") {
                    proof {
                        assert(member_index(orig, "status"@, i as int) == i as int);
                    }
                    m.set(i, (owned("status"), Json::Str(owned(status.as_str()))));
                    proof {
                        assert(m@ == orig.update(i as int, m@[i as int]));
                    }
                    return Json::Object(m);
                }
                proof {
                    lemma_member_index(m@, "status"@, i as int);
                }
                i = i + 1;
            }
            proof {
                lemma_member_index(m@, "status"@, i as int);
            }
            let ghost before = m@;
            m.push((owned("status"), Json::Str(owned(status.as_str()))));
            proof {
                assert(m@.take(before.len() as int) =~= before);
            }
            Json::Object(m)
        },
        _ => {
            let mut m: Vec<(String, Json)> = Vec::new();
            m.push((owned("status"), Json::Str(owned(status.as_str()))));
            Json::Object(m)
        },
    }
}


/// Unix path joining, as `Path::join` does it: an absolute `part` replaces `base`; otherwise
/// `part` follows `base`, with a `/` between unless `base` is empty or already ends in one.
pub open spec fn path_join(base: Seq<char>, part: Seq<char>) -> Seq<char> {
    if part.len() > 0 && part[0] == '/' {
        part
    } else if base.len() == 0 || base.last() == '/' {
        base + part
    } else {
        base + "/"@ + part
    }
}

/// Unix path joining.
pub fn join_path(base: &str, part: &str) -> (out: String)
    ensures
        out@ == path_join(base@, part@),
{
    proof {
        reveal_strlit("/");
        assert("/"@ =~= seq!['/']);
        if part@.len() > 0 {
            assert(has_prefix(part@, "/"@) <==> part@[0] == '/') by {
                if part@[0] == '/' {
                    assert(part@.take(1) =~= seq!['/']);
                }
                if has_prefix(part@, "/"@) {
                    assert(part@.take(1)[0] == part@[0]);
                }
            }
        }
        if base@.len() > 0 {
            assert(has_suffix(base@, "/"@) <==> base@.last() == '/') by {
                if base@.last() == '/' {
                    assert(base@.skip(base@.len() - 1) =~= seq!['/']);
                }
                if has_suffix(base@, "/"@) {
                    assert(base@.skip(base@.len() - 1)[0] == base@.last());
                }
            }
        }
    }
    if starts_with(part, "/") {
        return owned(part);
    }
    let mut out = owned(base);
    if !(char_count(base) == 0 || ends_with(base, "/")) {
        push_str(&mut out, "/");
    }
    push_str(&mut out, part);
    out
}

/// Where a repository's comments live: `reviewr/comments` under its git directory, which
/// `git rev-parse --git-dir` names either absolutely or relative to the repository.
pub fn comments_dir(repo: &str, git_dir: &str) -> (d: String)
    ensures
        d@ == path_join(path_join(path_join(repo@, git_dir@), "reviewr"@), "comments"@),
{
    let g = join_path(repo, git_dir);
    let r = join_path(g.as_str(), "reviewr");
    join_path(r.as_str(), "comments")
}


/// The documents of the texts that parse, in order; texts that are not JSON are skipped.
pub open spec fn parsed_docs(texts: Seq<Seq<char>>) -> Seq<Json>
    decreases texts.len(),
{
    if texts.len() == 0 {
        Seq::empty()
    } else {
        let rest = parsed_docs(texts.drop_last());
        match json_parse(texts.last()) {
            Ok(v) => rest.push(v),
            Err(_) => rest,
        }
    }
}

/// The store's comments from its files' texts: every text that parses as JSON and reads as a
/// comment, diff-anchored, sorted by id; a corrupt file is skipped, never an error.
pub fn load_texts(texts: &Vec<String>) -> (out: Vec<StoredComment>)
    ensures
        exists|read: Seq<StoredComment>, order: Seq<usize>|
            #[trigger] loaded_from(parsed_docs(views(texts@)), read) && #[trigger] keyed_order(
                ids_of(read),
                order,
                false,
            ) && out@ == Seq::new(order.len(), |k: int| read[order[k] as int]),
{
    let mut docs: Vec<Json> = Vec::new();
    let mut i: usize = 0;
    while i < texts.len()
        invariant
            i <= texts@.len(),
            docs@ == parsed_docs(views(texts@).take(i as int)),
        decreases texts@.len() - i,
    {
        proof {
            assert(views(texts@).take(i + 1).drop_last() =~= views(texts@).take(i as int));
            assert(views(texts@).take(i + 1).last() == texts@[i as int]@);
        }
        match parse_json(texts[i].as_str()) {
            Ok(v) => docs.push(v),
            Err(_) => {},
        }
        i = i + 1;
    }
    proof {
        assert(views(texts@).take(texts@.len() as int) =~= views(texts@));
    }
    load_records(docs.as_slice())
}

/// Why a status change could not be made to a comment file's text.
#[derive(Debug, PartialEq, Eq)]
pub enum StatusEditError {
    /// The text is not JSON; the parser's message.
    NotJson(String),
    /// The document is neither an object nor `null`, so it has no member to set.
    NotAnObject,
}

/// A comment file's text with its status set: the parser's error when it is not JSON, a
/// refusal when the document has no members, otherwise the document with `status` replaced
/// and every other member kept.
pub fn status_edit(text: &str, status: Status) -> (r: Result<Json, StatusEditError>)
    ensures
        match json_parse(text@) {
            Err(e) => r matches Err(StatusEditError::NotJson(m)) && m@ == e,
            Ok(doc) => if doc is Object || doc is Null {
                r matches Ok(out) && with_status_spec(doc, status, out)
            } else {
                r == Err::<Json, StatusEditError>(StatusEditError::NotAnObject)
            },
        },
{
    match parse_json(text) {
        Err(e) => Err(StatusEditError::NotJson(e)),
        Ok(doc) => match doc {
            Json::Object(_) | Json::Null => Ok(with_status(doc, status)),
            _ => Err(StatusEditError::NotAnObject),
        },
    }
}

/// The text a comment's file holds: its stored document, rendered.
pub fn record_text(sc: &StoredComment) -> (t: String)
    ensures
        exists|v: Json| record_spec(*sc, v) && t@ == #[trigger] json_render(v),
        valid_id_spec(sc.id@) ==> (json_parse(t@) matches Ok(w) && readable(w) && read_fields(w, *sc)),
{
    let v = to_value(sc);
    proof {
        lemma_record_is_flat(*sc, v);
    }
    let t = json_string(&v);
    proof {
        if valid_id_spec(sc.id@) {
            law_stored_comment_round_trips(*sc, v);
            let w = json_parse(t@)->Ok_0;
            assert(get_spec(w, "id"@) == get_spec(v, "id"@));
            assert(get_spec(w, "author"@) == get_spec(v, "author"@));
            assert(get_spec(w, "status"@) == get_spec(v, "status"@));
            assert(get_spec(w, "created_at"@) == get_spec(v, "created_at"@));
            assert(get_spec(w, "file"@) == get_spec(v, "file"@));
            assert(get_spec(w, "side"@) == get_spec(v, "side"@));
            assert(get_spec(w, "start"@) == get_spec(v, "start"@));
            assert(get_spec(w, "end"@) == get_spec(v, "end"@));
            assert(get_spec(w, "lines"@) == get_spec(v, "lines"@));
            assert(get_spec(w, "text"@) == get_spec(v, "text"@));
        }
    }
    t
}

/// A comment's document is flat: ten distinct keys, each with a string or integer value.
proof fn lemma_record_is_flat(sc: StoredComment, v: Json)
    requires
        record_spec(sc, v),
    ensures
        flat_doc(v),
{
    reveal_strlit("id");
    reveal_strlit("author");
    reveal_strlit("status");
    reveal_strlit("created_at");
    reveal_strlit("file");
    reveal_strlit("side");
    reveal_strlit("start");
    reveal_strlit("end");
    reveal_strlit("lines");
    reveal_strlit("text");
    let m = v->Object_0@;
    assert forall|i: int, j: int| 0 <= i < j < m.len() implies #[trigger] m[i].0@ != #[trigger] m[j].0@ by {
        assert(m[i].0@.len() != m[j].0@.len() || m[i].0@[0] != m[j].0@[0] || m[i].0@[1] != m[j].0@[1]);
    }
}

} // verus!

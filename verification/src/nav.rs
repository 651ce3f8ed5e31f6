//! The navigation channel between `herdr-reviewr nav` and a running sidebar: the one-shot
//! command it carries, the spellings it accepts, and the name of the command file, keyed by
//! an FNV-1a hash of the canonical repo path (stable across processes). Reading, writing and
//! removing the file belong to the front end.

use vstd::prelude::*;

use crate::model::Scope;
use crate::text::{push_char, push_str, str_eq};

verus! {

/// The sidebar's top-level tabs.
#[derive(Clone, Copy, Debug, PartialEq, Eq, Structural)]
pub enum Tab {
    Changes,
    AllFiles,
    Pr,
}

/// A one-shot navigation command. Every field is optional; present ones apply in
/// tab, scope, file order. Fields hold the command-line spellings, parsed on apply.
#[derive(Clone, Debug, Default, PartialEq, Eq)]
pub struct NavCommand {
    pub tab: Option<String>,
    pub scope: Option<String>,
    pub file: Option<String>,
}

/// The scope a command-line spelling names.
pub open spec fn scope_named(name: Seq<char>) -> Option<Scope> {
    if name == "uncommitted"@ || name == "u"@ {
        Some(Scope::Uncommitted)
    } else if name == "branch"@ || name == "b"@ {
        Some(Scope::Branch)
    } else if name == "last-turn"@ || name == "t"@ {
        Some(Scope::LastTurn)
    } else {
        None
    }
}

/// Parse a scope spelling: `uncommitted`/`u`, `branch`/`b`, `last-turn`/`t`.
pub fn parse_scope(name: &str) -> (s: Option<Scope>)
    ensures
        s == scope_named(name@),
{
    if str_eq(name, "uncommitted") || str_eq(name, "u") {
        Some(Scope::Uncommitted)
    } else if str_eq(name, "branch") || str_eq(name, "b") {
        Some(Scope::Branch)
    } else if str_eq(name, "last-turn") || str_eq(name, "t") {
        Some(Scope::LastTurn)
    } else {
        None
    }
}

/// The tab a command-line spelling names.
pub open spec fn tab_named(name: Seq<char>) -> Option<Tab> {
    if name == "changes"@ || name == "1"@ {
        Some(Tab::Changes)
    } else if name == "all"@ || name == "all-files"@ || name == "2"@ {
        Some(Tab::AllFiles)
    } else if name == "pr"@ || name == "3"@ {
        Some(Tab::Pr)
    } else {
        None
    }
}

/// Parse a tab spelling: `changes`/`1`, `all`/`all-files`/`2`, `pr`/`3`.
pub fn parse_tab(name: &str) -> (t: Option<Tab>)
    ensures
        t == tab_named(name@),
{
    if str_eq(name, "changes") || str_eq(name, "1") {
        Some(Tab::Changes)
    } else if str_eq(name, "all") || str_eq(name, "all-files") || str_eq(name, "2") {
        Some(Tab::AllFiles)
    } else if str_eq(name, "pr") || str_eq(name, "3") {
        Some(Tab::Pr)
    } else {
        None
    }
}

/// The 64-bit FNV offset basis.
pub const FNV_OFFSET: u64 = 0xcbf2_9ce4_8422_2325;

/// The 64-bit FNV prime.
pub const FNV_PRIME: u64 = 0x0100_0000_01b3;

/// FNV-1a over `bytes`: xor each byte in, then multiply by the prime, wrapping.
pub open spec fn fnv1a_spec(bytes: Seq<u8>) -> u64
    decreases bytes.len(),
{
    if bytes.len() == 0 {
        FNV_OFFSET
    } else {
        let h = fnv1a_spec(bytes.drop_last()) ^ (bytes.last() as u64);
        ((h as nat * FNV_PRIME as nat) % 0x1_0000_0000_0000_0000) as u64
    }
}

/// The FNV-1a hash of `bytes`.
pub fn fnv1a(bytes: &[u8]) -> (h: u64)
    ensures
        h == fnv1a_spec(bytes@),
{
    let mut hash: u64 = FNV_OFFSET;
    let mut i: usize = 0;
    while i < bytes.len()
        invariant
            i <= bytes@.len(),
            hash == fnv1a_spec(bytes@.take(i as int)),
        decreases bytes@.len() - i,
    {
        proof {
            assert(bytes@.take(i + 1).drop_last() =~= bytes@.take(i as int));
        }
        hash = hash ^ (bytes[i] as u64);
        hash = hash.wrapping_mul(FNV_PRIME);
        i = i + 1;
    }
    proof {
        assert(bytes@.take(bytes@.len() as int) =~= bytes@);
    }
    hash
}

/// The lowercase hex digit for `d < 16`.
pub open spec fn hex_digit(d: nat) -> char {
    if d < 10 {
        ((d + 48) as u32) as char
    } else {
        ((d + 87) as u32) as char
    }
}

/// The last `k` hex digits of `n`, most significant first, zero-padded.
pub open spec fn hex_digits(n: nat, k: nat) -> Seq<char>
    decreases k,
{
    if k == 0 {
        Seq::empty()
    } else {
        hex_digits(n / 16, (k - 1) as nat).push(hex_digit(n % 16))
    }
}

fn hex_char(d: u64) -> (c: char)
    requires
        d < 16,
    ensures
        c == hex_digit(d as nat),
{
    if d < 10 {
        ((d + 48) as u8) as char
    } else {
        ((d + 87) as u8) as char
    }
}

fn push_hex(out: &mut String, n: u64, k: usize)
    ensures
        final(out)@ == old(out)@ + hex_digits(n as nat, k as nat),
    decreases k,
{
    if k > 0 {
        push_hex(out, n / 16, k - 1);
        push_char(out, hex_char(n % 16));
        proof {
            assert(final(out)@ =~= old(out)@ + hex_digits(n as nat, k as nat));
        }
    } else {
        proof {
            assert(old(out)@ + hex_digits(n as nat, 0) =~= old(out)@);
        }
    }
}

/// The command file's name for the repo whose canonical path has `path_bytes`:
/// `herdr-reviewr-nav-` and the path's FNV-1a hash as sixteen hex digits, then `.json`.
pub fn command_file_name(path_bytes: &[u8]) -> (name: String)
    ensures
        name@ == "herdr-reviewr-nav-"@ + hex_digits(fnv1a_spec(path_bytes@) as nat, 16) + ".json"@,
{
    let hash = fnv1a(path_bytes);
    let mut name = String::new();
    push_str(&mut name, "herdr-reviewr-nav-");
    push_hex(&mut name, hash, 16);
    push_str(&mut name, ".json");
    proof {
        assert(name@ =~= "herdr-reviewr-nav-"@ + hex_digits(hash as nat, 16) + ".json"@);
    }
    name
}

} // verus!

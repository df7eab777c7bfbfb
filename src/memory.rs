//! Memory probe: RAM and swap usage from the `meminfo` key-value lines.
//!
//! Amounts are hundredths of a GiB, truncated by the memory-domain rule
//! (see [`memory_hundredths`]). That rule depends on the whole KiB of a
//! line's value only; reading the value, a floating-point number, is the
//! caller's part (see [`MeminfoLine`]).
use crate::error::ProbeError;
use crate::text::{chars_of, has_prefix, split, split_on, split_tokens, starts_with, string_of, tokens, views};
use vstd::prelude::*;

verus! {

/// Swap usage, in hundredths of a GiB.
#[derive(Debug, Clone, Copy, PartialEq, Eq, Structural)]
pub struct SwapInfo {
    pub total_size: i64,
    pub free_size: i64,
    pub used_size: i64,
}

/// RAM usage, in hundredths of a GiB, with the swap usage.
#[derive(Debug, Clone, Copy, PartialEq, Eq, Structural)]
pub struct MemoryInfo {
    pub total_size: i64,
    pub free_size: i64,
    pub used_size: i64,
    pub swap_info: SwapInfo,
}

/// A KiB count in hundredths of a GiB by the memory-domain rule: whole GiB,
/// plus the remaining MiB divided by ten and truncated.
pub open spec fn memory_hundredths(kib: nat) -> nat {
    (kib / 1048576) * 100 + (kib % 1048576) / 10240
}

/// A KiB count converted by the memory-domain rule.
pub fn memory_gib(kib: u64) -> (r: i64)
    ensures
        r as nat == memory_hundredths(kib as nat),
        0 <= r <= 2_000_000_000_000_000,
{
    let whole: u64 = kib / 1048576;
    let rest: u64 = (kib % 1048576) / 10240;
    assert(whole <= 17592186044416) by (nonlinear_arith)
        requires
            whole == kib / 1048576,
    ;
    (whole * 100 + rest) as i64
}

/// One line of `meminfo`, with the whole KiB of its value field (see
/// [`value_field`]) as a floating-point reader takes it: zero where the line
/// has no such field or it is not a number.
pub struct MeminfoLine {
    pub text: String,
    pub kib: u64,
}

/// The lines of the `meminfo` text.
pub fn meminfo_lines(text: &str) -> (r: Vec<String>)
    ensures
        r@.len() == split(text@, '\n').len(),
        forall|i: int| 0 <= i < r@.len() ==> #[trigger] r@[i]@ == split(text@, '\n')[i],
{
    let pieces = split_on(&chars_of(text), '\n');
    let mut r: Vec<String> = Vec::new();
    let mut k: usize = 0;
    while k < pieces.len()
        invariant
            k <= pieces@.len(),
            views(pieces@) == split(text@, '\n'),
            r@.len() == k,
            forall|i: int| 0 <= i < k ==> #[trigger] r@[i]@ == split(text@, '\n')[i],
        decreases pieces.len() - k,
    {
        assert(views(pieces@)[k as int] == pieces@[k as int]@);
        r.push(string_of(pieces[k].as_slice()));
        k = k + 1;
    }
    r
}

/// The value field of a `meminfo` line: its second whitespace-separated field.
pub open spec fn value_field_of(line: Seq<char>) -> Option<Seq<char>> {
    if tokens(line).len() > 1 {
        Some(tokens(line)[1])
    } else {
        None
    }
}

/// The value field of a `meminfo` line.
pub fn value_field(line: &str) -> (r: Option<String>)
    ensures
        match r {
            Some(v) => value_field_of(line@) == Some(v@),
            None => value_field_of(line@) is None,
        },
{
    let t = split_tokens(&chars_of(line));
    if t.len() > 1 {
        Some(string_of(t[1].as_slice()))
    } else {
        None
    }
}

/// The keys that one call looks for: one for the total, one for the free
/// amount and, where the used amount is read rather than computed, one for it.
struct MemoryKeys {
    pub total: Vec<char>,
    pub free: Vec<char>,
    pub used: Option<Vec<char>>,
}

/// Which key a line counts for: 0 total, 1 free, 2 used, 3 none. A line is
/// tested against the keys in that order.
pub open spec fn line_kind(line: Seq<char>, total: Seq<char>, free: Seq<char>, used: Option<Seq<char>>) -> nat {
    if has_prefix(line, total) {
        0
    } else if has_prefix(line, free) {
        1
    } else if used matches Some(u) && has_prefix(line, u) {
        2
    } else {
        3
    }
}

spec fn used_view(k: MemoryKeys) -> Option<Seq<char>> {
    match k.used {
        Some(u) => Some(u@),
        None => None,
    }
}

/// The view of an optional key.
pub open spec fn key_view(k: Option<&str>) -> Option<Seq<char>> {
    match k {
        Some(u) => Some(u@),
        None => None,
    }
}

/// The first line that counts for `kind`.
pub open spec fn first_of_kind(
    lines: Seq<MeminfoLine>,
    total: Seq<char>,
    free: Seq<char>,
    used: Option<Seq<char>>,
    kind: nat,
) -> Option<MeminfoLine>
    decreases lines.len(),
{
    if lines.len() == 0 {
        None
    } else if line_kind(lines[0].text@, total, free, used) == kind {
        Some(lines[0])
    } else {
        first_of_kind(lines.drop_first(), total, free, used, kind)
    }
}

/// The amount that the first line counting for `kind` states, or zero.
pub open spec fn amount_of(
    lines: Seq<MeminfoLine>,
    total: Seq<char>,
    free: Seq<char>,
    used: Option<Seq<char>>,
    kind: nat,
) -> nat {
    match first_of_kind(lines, total, free, used, kind) {
        Some(line) => memory_hundredths(line.kib as nat),
        None => 0,
    }
}

/// Total, free and used amounts that `lines` state for the given keys; where
/// there is no used key, used is total minus free.
pub open spec fn amounts_of(lines: Seq<MeminfoLine>, total: Seq<char>, free: Seq<char>, used: Option<Seq<char>>) -> (
    int,
    int,
    int,
) {
    let t = amount_of(lines, total, free, used, 0);
    let f = amount_of(lines, total, free, used, 1);
    let u = if used is Some {
        amount_of(lines, total, free, used, 2) as int
    } else {
        t - f
    };
    (t as int, f as int, u)
}

fn kind_of_line(line: &Vec<char>, k: &MemoryKeys) -> (r: usize)
    ensures
        r as nat == line_kind(line@, k.total@, k.free@, used_view(*k)),
{
    if starts_with(line, &k.total) {
        0
    } else if starts_with(line, &k.free) {
        1
    } else {
        match &k.used {
            Some(u) => if starts_with(line, u) {
                2
            } else {
                3
            },
            None => 3,
        }
    }
}

fn amount_in(lines: &Vec<MeminfoLine>, k: &MemoryKeys, kind: usize) -> (r: i64)
    ensures
        r as nat == amount_of(lines@, k.total@, k.free@, used_view(*k), kind as nat),
        0 <= r <= 2_000_000_000_000_000,
{
    let n = lines.len();
    let mut i: usize = 0;
    assert(lines@.subrange(0, n as int) =~= lines@);
    while i < n
        invariant
            i <= n == lines@.len(),
            first_of_kind(lines@, k.total@, k.free@, used_view(*k), kind as nat) == first_of_kind(
                lines@.subrange(i as int, n as int),
                k.total@,
                k.free@,
                used_view(*k),
                kind as nat,
            ),
        decreases n - i,
    {
        let line = &lines[i];
        let ghost rest = lines@.subrange(i as int, n as int);
        assert(rest[0] == *line);
        assert(rest.drop_first() =~= lines@.subrange(i + 1, n as int));
        if kind_of_line(&chars_of(line.text.as_str()), k) == kind {
            return memory_gib(line.kib);
        }
        i = i + 1;
    }
    0
}

impl MemoryInfo {
    /// Total, free and used amounts that the `meminfo` lines state for the
    /// given keys; a key that never starts a line counts as zero, and without a
    /// used key the used amount is total minus free.
    pub fn from_keys(lines: &Vec<MeminfoLine>, total_key: &str, free_key: &str, used_key: Option<&str>) -> (r: (
        i64,
        i64,
        i64,
    ))
        ensures
            (r.0 as int, r.1 as int, r.2 as int) == amounts_of(lines@, total_key@, free_key@, key_view(used_key)),
    {
        let k = MemoryKeys {
            total: chars_of(total_key),
            free: chars_of(free_key),
            used: match used_key {
                Some(u) => Some(chars_of(u)),
                None => None,
            },
        };
        assert(used_view(k) == key_view(used_key));
        let total = amount_in(lines, &k, 0);
        let free = amount_in(lines, &k, 1);
        let used = match &k.used {
            Some(_) => amount_in(lines, &k, 2),
            None => total - free,
        };
        (total, free, used)
    }

    /// The memory record from the `meminfo` lines (`None` where the file could
    /// not be read): RAM from `MemTotal` and `MemAvailable`, used computed;
    /// swap from `SwapTotal`, `SwapFree` and `SwapCached`.
    pub fn new(meminfo: Option<Vec<MeminfoLine>>) -> (r: Result<MemoryInfo, ProbeError>)
        ensures
            match meminfo {
                None => r == Err::<MemoryInfo, ProbeError>(ProbeError::SourceUnavailable),
                Some(lines) => r matches Ok(m) && {
                    let ram = amounts_of(lines@, "MemTotal"@, "MemAvailable"@, None);
                    let swap = amounts_of(lines@, "SwapTotal"@, "SwapFree"@, Some("SwapCached"@));
                    &&& m.total_size == ram.0 && m.free_size == ram.1 && m.used_size == ram.2
                    &&& m.swap_info.total_size == swap.0 && m.swap_info.free_size == swap.1
                    &&& m.swap_info.used_size == swap.2
                },
            },
    {
        let lines = match meminfo {
            None => return Err(ProbeError::SourceUnavailable),
            Some(l) => l,
        };
        let ram = Self::from_keys(&lines, "MemTotal", "MemAvailable", None);
        let swap = Self::from_keys(&lines, "SwapTotal", "SwapFree", Some("SwapCached"));
        Ok(
            MemoryInfo {
                total_size: ram.0,
                free_size: ram.1,
                used_size: ram.2,
                swap_info: SwapInfo { total_size: swap.0, free_size: swap.1, used_size: swap.2 },
            },
        )
    }
}

} // verus!

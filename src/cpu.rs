//! CPU probe: processor identity, maximum frequency and cache hierarchy.
//!
//! Reading `cpuinfo`, the frequency files and the cache directory is the
//! caller's part; this module decides what their contents mean.
use crate::error::{ProbeError, SourceText};
use crate::text::{chars_of, colon_value, contains, decimal_upto, find_containing, first_containing, has_infix, opt_view, parse_unsigned, remove_char, same_chars, split, split_on, string_of, trim, trimmed, value_after_colon, without_char};
use vstd::prelude::*;
use vstd::relations::{sorted_by, total_ordering};
use vstd::seq_lib::{group_to_multiset_ensures, lemma_sorted_unique};

verus! {

/// Kind of a CPU cache.
#[derive(Debug, Clone, Copy, PartialEq, Eq, Structural)]
pub enum CacheType {
    Data,
    Instruction,
    Unified,
    Unknown,
}

/// One cache of the first core: size in KiB, level and kind.
#[derive(Debug, Clone, Copy, PartialEq, Eq, Structural)]
pub struct CacheInfo {
    pub size: u32,
    pub level: u8,
    pub cache_type: CacheType,
}

/// What the three files of one cache directory held; `None` where a file could
/// not be read.
pub struct CacheFiles {
    pub size: Option<String>,
    pub level: Option<String>,
    pub cache_type: Option<String>,
}

/// One entry of the cache directory; `name` is `None` where the entry's name is
/// not text.
pub struct CacheEntry {
    pub name: Option<String>,
    pub files: CacheFiles,
}

/// Processor identity and cache hierarchy.
#[derive(Debug)]
pub struct CpuInfo {
    pub model_name: String,
    pub siblings_count: u8,
    /// Maximum frequency in kHz, as the deciding frequency file writes it
    /// (trimmed).
    pub max_frequency: String,
    /// Caches, ordered by level.
    pub cache_list: Vec<CacheInfo>,
}

pub open spec fn index_marker() -> Seq<char> {
    seq!['i', 'n', 'd', 'e', 'x']
}

pub open spec fn data_word() -> Seq<char> {
    seq!['D', 'a', 't', 'a']
}

pub open spec fn instruction_word() -> Seq<char> {
    seq!['I', 'n', 's', 't', 'r', 'u', 'c', 't', 'i', 'o', 'n']
}

pub open spec fn unified_word() -> Seq<char> {
    seq!['U', 'n', 'i', 'f', 'i', 'e', 'd']
}

pub open spec fn model_key() -> Seq<char> {
    seq!['m', 'o', 'd', 'e', 'l', ' ', 'n', 'a', 'm', 'e']
}

pub open spec fn siblings_key() -> Seq<char> {
    seq!['s', 'i', 'b', 'l', 'i', 'n', 'g', 's']
}

/// The kind that the content of a cache `type` file stands for.
pub open spec fn cache_type_of(s: Seq<char>) -> CacheType {
    if trim(s) == data_word() {
        CacheType::Data
    } else if trim(s) == instruction_word() {
        CacheType::Instruction
    } else if trim(s) == unified_word() {
        CacheType::Unified
    } else {
        CacheType::Unknown
    }
}

/// The size in KiB that the content of a cache `size` file stands for: the
/// unit letter `K` is dropped before the number is read.
pub open spec fn cache_size_of(s: Seq<char>) -> Option<nat> {
    decimal_upto(trim(without_char(s, 'K')), 0xffff_ffff)
}

/// The level that the content of a cache `level` file stands for.
pub open spec fn cache_level_of(s: Seq<char>) -> Option<nat> {
    decimal_upto(trim(s), 255)
}

/// The record that one cache directory's files give, or the error.
pub open spec fn cache_of(
    size: Option<Seq<char>>,
    level: Option<Seq<char>>,
    kind: Option<Seq<char>>,
) -> Result<CacheInfo, ProbeError> {
    match size {
        None => Err(ProbeError::SourceUnavailable),
        Some(sz) => match cache_size_of(sz) {
            None => Err(ProbeError::MalformedSource),
            Some(kib) => match level {
                None => Err(ProbeError::SourceUnavailable),
                Some(lv) => match cache_level_of(lv) {
                    None => Err(ProbeError::MalformedSource),
                    Some(l) => match kind {
                        None => Err(ProbeError::SourceUnavailable),
                        Some(t) => Ok(
                            CacheInfo { size: kib as u32, level: l as u8, cache_type: cache_type_of(t) },
                        ),
                    },
                },
            },
        },
    }
}

pub open spec fn files_cache(files: CacheFiles) -> Result<CacheInfo, ProbeError> {
    cache_of(opt_view(files.size), opt_view(files.level), opt_view(files.cache_type))
}

/// What one entry of the cache directory contributes.
pub open spec fn entry_cache(e: CacheEntry) -> Result<Option<CacheInfo>, ProbeError> {
    match e.name {
        None => Err(ProbeError::MalformedSource),
        Some(n) => if has_infix(n@, index_marker()) {
            match files_cache(e.files) {
                Ok(c) => Ok(Some(c)),
                Err(err) => Err(err),
            }
        } else {
            Ok(None)
        },
    }
}

/// The caches of a directory listing, in listing order, or the first error.
pub open spec fn caches_of(entries: Seq<CacheEntry>) -> Result<Seq<CacheInfo>, ProbeError>
    decreases entries.len(),
{
    if entries.len() == 0 {
        Ok(Seq::empty())
    } else {
        match caches_of(entries.drop_last()) {
            Err(e) => Err(e),
            Ok(prev) => match entry_cache(entries.last()) {
                Err(e) => Err(e),
                Ok(None) => Ok(prev),
                Ok(Some(c)) => Ok(prev.push(c)),
            },
        }
    }
}

/// `x` placed into `t` after every cache of `t` whose level is not above its own.
pub open spec fn insert_by_level(t: Seq<CacheInfo>, x: CacheInfo) -> Seq<CacheInfo>
    decreases t.len(),
{
    if t.len() == 0 {
        seq![x]
    } else if t.last().level <= x.level {
        t.push(x)
    } else {
        insert_by_level(t.drop_last(), x).push(t.last())
    }
}

/// `s` ordered by level, caches of equal level keeping their order.
pub open spec fn sort_by_level(s: Seq<CacheInfo>) -> Seq<CacheInfo>
    decreases s.len(),
{
    if s.len() == 0 {
        s
    } else {
        insert_by_level(sort_by_level(s.drop_last()), s.last())
    }
}

pub open spec fn level_sorted(s: Seq<CacheInfo>) -> bool {
    forall|i: int, j: int| 0 <= i < j < s.len() ==> s[i].level <= s[j].level
}

pub open spec fn levels_at_most(s: Seq<CacheInfo>, b: u8) -> bool {
    forall|i: int| 0 <= i < s.len() ==> s[i].level <= b
}

proof fn lemma_insert_by_level(t: Seq<CacheInfo>, x: CacheInfo, b: u8)
    ensures
        insert_by_level(t, x).len() == t.len() + 1,
        levels_at_most(t, b) && x.level <= b ==> levels_at_most(insert_by_level(t, x), b),
        level_sorted(t) ==> level_sorted(insert_by_level(t, x)),
    decreases t.len(),
{
    if t.len() > 0 && t.last().level > x.level {
        let u = t.drop_last();
        lemma_insert_by_level(u, x, b);
        lemma_insert_by_level(u, x, t.last().level);
        let r = insert_by_level(t, x);
        if level_sorted(t) {
            assert(levels_at_most(u, t.last().level));
            assert(level_sorted(u));
            assert(level_sorted(r)) by {
                assert forall|i: int, j: int| 0 <= i < j < r.len() implies r[i].level <= r[j].level by {
                    if j == r.len() - 1 {
                        assert(r[i] == insert_by_level(u, x)[i]);
                    }
                }
            }
        }
    }
}

/// Caches ordered by level come out sorted by level, whatever order they were
/// listed in.
pub proof fn lemma_sort_by_level_sorted(s: Seq<CacheInfo>)
    ensures
        level_sorted(sort_by_level(s)),
        sort_by_level(s).len() == s.len(),
    decreases s.len(),
{
    if s.len() > 0 {
        lemma_sort_by_level_sorted(s.drop_last());
        lemma_insert_by_level(sort_by_level(s.drop_last()), s.last(), 255);
    }
}

/// The levels of `s`, in order.
pub open spec fn levels(s: Seq<CacheInfo>) -> Seq<u8> {
    s.map_values(|c: CacheInfo| c.level)
}

proof fn lemma_insert_by_level_multiset(t: Seq<CacheInfo>, x: CacheInfo)
    ensures
        insert_by_level(t, x).to_multiset() =~= t.to_multiset().insert(x),
    decreases t.len(),
{
    broadcast use group_to_multiset_ensures;

    if t.len() > 0 && t.last().level > x.level {
        lemma_insert_by_level_multiset(t.drop_last(), x);
        assert(t =~= t.drop_last().push(t.last()));
    }
}

proof fn lemma_sort_by_level_multiset(s: Seq<CacheInfo>)
    ensures
        sort_by_level(s).to_multiset() =~= s.to_multiset(),
    decreases s.len(),
{
    broadcast use group_to_multiset_ensures;

    if s.len() > 0 {
        lemma_sort_by_level_multiset(s.drop_last());
        lemma_insert_by_level_multiset(sort_by_level(s.drop_last()), s.last());
        assert(s =~= s.drop_last().push(s.last()));
    }
}

proof fn lemma_levels_multiset(a: Seq<CacheInfo>, b: Seq<CacheInfo>)
    requires
        a.to_multiset() == b.to_multiset(),
    ensures
        levels(a).to_multiset() == levels(b).to_multiset(),
    decreases a.len(),
{
    broadcast use group_to_multiset_ensures;

    if a.len() == 0 {
        assert(b.to_multiset().len() == 0);
        assert(b.len() == 0);
        assert(levels(a) =~= levels(b));
    } else {
        let x = a.last();
        assert(a =~= a.drop_last().push(x));
        assert(a.to_multiset().count(x) > 0);
        assert(b.contains(x));
        let i = choose|i: int| 0 <= i < b.len() && b[i] == x;
        let rest = b.remove(i);
        assert(rest.to_multiset() =~= a.drop_last().to_multiset());
        lemma_levels_multiset(a.drop_last(), rest);
        assert(levels(a) =~= levels(a.drop_last()).push(x.level));
        assert(levels(b) =~= levels(rest).insert(i, x.level));
    }
}

/// Caches found in any order come out the same: listed in another order, the
/// same caches give the same sequence of levels and the same caches.
pub proof fn lemma_cache_order_irrelevant(s1: Seq<CacheInfo>, s2: Seq<CacheInfo>)
    requires
        s1.to_multiset() == s2.to_multiset(),
    ensures
        levels(sort_by_level(s1)) == levels(sort_by_level(s2)),
        sort_by_level(s1).to_multiset() == sort_by_level(s2).to_multiset(),
        sort_by_level(s1).to_multiset() == s1.to_multiset(),
{
    lemma_sort_by_level_multiset(s1);
    lemma_sort_by_level_multiset(s2);
    lemma_sort_by_level_sorted(s1);
    lemma_sort_by_level_sorted(s2);
    let a = sort_by_level(s1);
    let b = sort_by_level(s2);
    lemma_levels_multiset(a, b);
    let leq = |x: u8, y: u8| x <= y;
    assert(sorted_by(levels(a), leq));
    assert(sorted_by(levels(b), leq));
    assert(total_ordering(leq));
    lemma_sorted_unique(levels(a), levels(b), leq);
}

fn insert_cache(v: &mut Vec<CacheInfo>, x: CacheInfo)
    ensures
        final(v)@ == insert_by_level(old(v)@, x),
    decreases old(v)@.len(),
{
    if v.len() == 0 {
        v.push(x);
        assert(final(v)@ =~= seq![x]);
        return;
    }
    let last = v.pop().unwrap();
    if last.level <= x.level {
        v.push(last);
        assert(v@ =~= old(v)@);
        v.push(x);
    } else {
        insert_cache(v, x);
        v.push(last);
    }
}

/// The caches ordered by level; caches of equal level keep their order.
pub fn sort_caches(caches: &Vec<CacheInfo>) -> (r: Vec<CacheInfo>)
    ensures
        r@ == sort_by_level(caches@),
        level_sorted(r@),
{
    let mut r: Vec<CacheInfo> = Vec::new();
    let n = caches.len();
    let mut k: usize = 0;
    assert(caches@.subrange(0, 0) =~= Seq::<CacheInfo>::empty());
    while k < n
        invariant
            k <= n == caches@.len(),
            r@ == sort_by_level(caches@.subrange(0, k as int)),
        decreases n - k,
    {
        assert(caches@.subrange(0, k + 1).drop_last() =~= caches@.subrange(0, k as int));
        insert_cache(&mut r, caches[k]);
        k = k + 1;
    }
    assert(caches@.subrange(0, n as int) =~= caches@);
    proof {
        lemma_sort_by_level_sorted(caches@);
    }
    r
}

/// Classifies the content of a cache `type` file.
pub fn parse_cache_type(text: &str) -> (r: CacheType)
    ensures
        r == cache_type_of(text@),
{
    let t = trimmed(&chars_of(text));
    let data: Vec<char> = vec!['D', 'a', 't', 'a'];
    let instruction: Vec<char> = vec!['I', 'n', 's', 't', 'r', 'u', 'c', 't', 'i', 'o', 'n'];
    let unified: Vec<char> = vec!['U', 'n', 'i', 'f', 'i', 'e', 'd'];
    assert(data@ =~= data_word());
    assert(instruction@ =~= instruction_word());
    assert(unified@ =~= unified_word());
    if same_chars(&t, &data) {
        CacheType::Data
    } else if same_chars(&t, &instruction) {
        CacheType::Instruction
    } else if same_chars(&t, &unified) {
        CacheType::Unified
    } else {
        CacheType::Unknown
    }
}

/// Reads the content of a cache `size` file as KiB.
pub fn parse_cache_size(text: &str) -> (r: Option<u32>)
    ensures
        match r {
            Some(v) => cache_size_of(text@) == Some(v as nat),
            None => cache_size_of(text@) is None,
        },
{
    let t = trimmed(&remove_char(&chars_of(text), 'K'));
    match parse_unsigned(&t, 0xffff_ffff) {
        Some(v) => Some(v as u32),
        None => None,
    }
}

/// Reads the content of a cache `level` file.
pub fn parse_cache_level(text: &str) -> (r: Option<u8>)
    ensures
        match r {
            Some(v) => cache_level_of(text@) == Some(v as nat),
            None => cache_level_of(text@) is None,
        },
{
    let t = trimmed(&chars_of(text));
    match parse_unsigned(&t, 255) {
        Some(v) => Some(v as u8),
        None => None,
    }
}

proof fn lemma_caches_error_stays(entries: Seq<CacheEntry>, k: int, e: ProbeError)
    requires
        0 <= k <= entries.len(),
        caches_of(entries.subrange(0, k)) == Err::<Seq<CacheInfo>, ProbeError>(e),
    ensures
        caches_of(entries) == Err::<Seq<CacheInfo>, ProbeError>(e),
    decreases entries.len() - k,
{
    if k == entries.len() {
        assert(entries.subrange(0, k) =~= entries);
    } else {
        assert(entries.subrange(0, k + 1).drop_last() =~= entries.subrange(0, k));
        lemma_caches_error_stays(entries, k + 1, e);
    }
}

impl CacheInfo {
    /// The record of one cache, from what its three files held.
    pub fn new(files: &CacheFiles) -> (r: Result<CacheInfo, ProbeError>)
        ensures
            r == files_cache(*files),
    {
        let size = match &files.size {
            None => return Err(ProbeError::SourceUnavailable),
            Some(s) => match parse_cache_size(s.as_str()) {
                None => return Err(ProbeError::MalformedSource),
                Some(v) => v,
            },
        };
        let level = match &files.level {
            None => return Err(ProbeError::SourceUnavailable),
            Some(s) => match parse_cache_level(s.as_str()) {
                None => return Err(ProbeError::MalformedSource),
                Some(v) => v,
            },
        };
        let cache_type = match &files.cache_type {
            None => return Err(ProbeError::SourceUnavailable),
            Some(s) => parse_cache_type(s.as_str()),
        };
        Ok(CacheInfo { size, level, cache_type })
    }

    /// Whether a cache-directory entry name denotes a cache.
    pub fn is_cache_name(name: &str) -> (r: bool)
        ensures
            r == has_infix(name@, index_marker()),
    {
        let n = chars_of(name);
        let marker: Vec<char> = vec!['i', 'n', 'd', 'e', 'x'];
        assert(marker@ =~= index_marker());
        contains(&n, &marker)
    }

    /// The caches among the entries of a listed cache directory, in order.
    pub fn from_entries(entries: &Vec<CacheEntry>) -> (r: Result<Vec<CacheInfo>, ProbeError>)
        ensures
            match r {
                Ok(v) => caches_of(entries@) == Ok::<Seq<CacheInfo>, ProbeError>(v@),
                Err(e) => caches_of(entries@) == Err::<Seq<CacheInfo>, ProbeError>(e),
            },
    {
        let mut out: Vec<CacheInfo> = Vec::new();
        let mut k: usize = 0;
        assert(entries@.subrange(0, 0) =~= Seq::<CacheEntry>::empty());
        while k < entries.len()
            invariant
                k <= entries@.len(),
                caches_of(entries@.subrange(0, k as int)) == Ok::<Seq<CacheInfo>, ProbeError>(out@),
            decreases entries.len() - k,
        {
            let entry = &entries[k];
            assert(entries@.subrange(0, k + 1).drop_last() =~= entries@.subrange(0, k as int));
            assert(entries@.subrange(0, k + 1).last() == *entry);
            match &entry.name {
                None => {
                    proof {
                        lemma_caches_error_stays(entries@, k + 1, ProbeError::MalformedSource);
                    }
                    return Err(ProbeError::MalformedSource);
                },
                Some(name) => {
                    if Self::is_cache_name(name.as_str()) {
                        match CacheInfo::new(&entry.files) {
                            Err(e) => {
                                proof {
                                    lemma_caches_error_stays(entries@, k + 1, e);
                                }
                                return Err(e);
                            },
                            Ok(c) => {
                                out.push(c);
                            },
                        }
                    }
                },
            }
            k = k + 1;
        }
        assert(entries@.subrange(0, entries@.len() as int) =~= entries@);
        Ok(out)
    }

    /// The caches of the first core ordered by level; `listing` is `None`
    /// where the cache directory could not be listed.
    pub fn get_cache_indexes(listing: Option<Vec<CacheEntry>>) -> (r: Result<Vec<CacheInfo>, ProbeError>)
        ensures
            match listing {
                None => r == Err::<Vec<CacheInfo>, ProbeError>(ProbeError::SourceUnavailable),
                Some(entries) => match caches_of(entries@) {
                    Err(e) => r == Err::<Vec<CacheInfo>, ProbeError>(e),
                    Ok(found) => r matches Ok(v) && v@ == sort_by_level(found) && level_sorted(v@),
                },
            },
    {
        match listing {
            None => Err(ProbeError::SourceUnavailable),
            Some(entries) => match Self::from_entries(&entries) {
                Err(e) => Err(e),
                Ok(found) => Ok(sort_caches(&found)),
            },
        }
    }
}

} // verus!

verus! {

/// The model name that `cpuinfo` states: the value of the first line that
/// mentions `model name`, or nothing.
pub open spec fn model_of(cpuinfo: Seq<char>) -> Seq<char> {
    match first_containing(split(cpuinfo, '\n'), model_key()) {
        Some(line) => colon_value(line),
        None => Seq::empty(),
    }
}

/// The sibling count that `cpuinfo` states, from the first line that mentions
/// `siblings`.
pub open spec fn siblings_of(cpuinfo: Seq<char>) -> Result<nat, ProbeError> {
    match first_containing(split(cpuinfo, '\n'), siblings_key()) {
        None => Err(ProbeError::IncompleteSource),
        Some(line) => match decimal_upto(colon_value(line), 255) {
            None => Err(ProbeError::MalformedSource),
            Some(v) => Ok(v),
        },
    }
}

/// The maximum frequency in kHz from the candidate files, tried in order: the
/// first one that opens decides, whether or not its content reads. The result
/// is that file's trimmed text.
pub open spec fn frequency_of(files: Seq<SourceText>) -> Result<Seq<char>, ProbeError>
    decreases files.len(),
{
    if files.len() == 0 {
        Err(ProbeError::SourceUnavailable)
    } else {
        match files[0] {
            SourceText::Missing => frequency_of(files.drop_first()),
            SourceText::Unreadable => Err(ProbeError::MalformedSource),
            SourceText::Text(t) => Ok(trim(t@)),
        }
    }
}

/// The model name stated in `cpuinfo`.
pub fn get_model(cpuinfo: &str) -> (r: String)
    ensures
        r@ == model_of(cpuinfo@),
{
    let lines = split_on(&chars_of(cpuinfo), '\n');
    let key: Vec<char> = vec!['m', 'o', 'd', 'e', 'l', ' ', 'n', 'a', 'm', 'e'];
    assert(key@ =~= model_key());
    match find_containing(&lines, &key) {
        Some(line) => {
            let v = value_after_colon(&line);
            string_of(v.as_slice())
        },
        None => {
            let empty: Vec<char> = Vec::new();
            string_of(empty.as_slice())
        },
    }
}

/// The sibling count stated in `cpuinfo`.
pub fn get_siblings(cpuinfo: &str) -> (r: Result<u8, ProbeError>)
    ensures
        match r {
            Ok(v) => siblings_of(cpuinfo@) == Ok::<nat, ProbeError>(v as nat),
            Err(e) => siblings_of(cpuinfo@) == Err::<nat, ProbeError>(e),
        },
{
    let lines = split_on(&chars_of(cpuinfo), '\n');
    let key: Vec<char> = vec!['s', 'i', 'b', 'l', 'i', 'n', 'g', 's'];
    assert(key@ =~= siblings_key());
    match find_containing(&lines, &key) {
        None => Err(ProbeError::IncompleteSource),
        Some(line) => {
            let v = value_after_colon(&line);
            match parse_unsigned(&v, 255) {
                None => Err(ProbeError::MalformedSource),
                Some(n) => Ok(n as u8),
            }
        },
    }
}

/// The maximum frequency in kHz from what the candidate frequency files gave,
/// in the order they are tried. A file whose content is not a number is
/// handed in as [`SourceText::Unreadable`].
pub fn get_frequency(files: &Vec<SourceText>) -> (r: Result<String, ProbeError>)
    ensures
        match r {
            Ok(v) => frequency_of(files@) == Ok::<Seq<char>, ProbeError>(v@),
            Err(e) => frequency_of(files@) == Err::<Seq<char>, ProbeError>(e),
        },
{
    let n = files.len();
    let mut i: usize = 0;
    assert(files@.subrange(0, n as int) =~= files@);
    while i < n
        invariant
            i <= n == files@.len(),
            frequency_of(files@) == frequency_of(files@.subrange(i as int, n as int)),
        decreases n - i,
    {
        let ghost rest = files@.subrange(i as int, n as int);
        assert(rest.drop_first() =~= files@.subrange(i + 1, n as int));
        match &files[i] {
            SourceText::Missing => {},
            SourceText::Unreadable => {
                return Err(ProbeError::MalformedSource);
            },
            SourceText::Text(t) => {
                return Ok(string_of(trimmed(&chars_of(t.as_str())).as_slice()));
            },
        }
        i = i + 1;
    }
    Err(ProbeError::SourceUnavailable)
}

impl CpuInfo {
    /// The CPU record from the content of `cpuinfo` (`None` where it could not
    /// be read), the candidate frequency files in the order they are tried, and
    /// the cache directory's listing (`None` where it could not be listed).
    pub fn new(
        cpuinfo: Option<String>,
        frequency_files: &Vec<SourceText>,
        cache_listing: Option<Vec<CacheEntry>>,
    ) -> (r: Result<CpuInfo, ProbeError>)
        ensures
            match cpuinfo {
                None => r == Err::<CpuInfo, ProbeError>(ProbeError::SourceUnavailable),
                Some(text) => match siblings_of(text@) {
                    Err(e) => r == Err::<CpuInfo, ProbeError>(e),
                    Ok(sib) => match frequency_of(frequency_files@) {
                        Err(e) => r == Err::<CpuInfo, ProbeError>(e),
                        Ok(f) => match cache_listing {
                            None => r == Err::<CpuInfo, ProbeError>(ProbeError::SourceUnavailable),
                            Some(entries) => match caches_of(entries@) {
                                Err(e) => r == Err::<CpuInfo, ProbeError>(e),
                                Ok(found) => r matches Ok(c) && c.model_name@ == model_of(text@)
                                    && c.siblings_count as nat == sib && c.max_frequency@ == f
                                    && c.cache_list@ == sort_by_level(found),
                            },
                        },
                    },
                },
            },
    {
        let text = match cpuinfo {
            None => return Err(ProbeError::SourceUnavailable),
            Some(t) => t,
        };
        let model_name = get_model(text.as_str());
        let siblings_count = match get_siblings(text.as_str()) {
            Err(e) => return Err(e),
            Ok(v) => v,
        };
        let max_frequency = match get_frequency(frequency_files) {
            Err(e) => return Err(e),
            Ok(v) => v,
        };
        let cache_list = match CacheInfo::get_cache_indexes(cache_listing) {
            Err(e) => return Err(e),
            Ok(v) => v,
        };
        Ok(CpuInfo { model_name, siblings_count, max_frequency, cache_list })
    }
}

} // verus!

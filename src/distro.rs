//! Distro probe: OS identity, architecture, shell, kernel, uptime and an
//! estimate of the installation date.
//!
//! Reading the release, version and uptime files, running the architecture
//! command, reading the environment and taking the change times of the
//! candidate paths is the caller's part.
use crate::error::{ProbeError, SourceText};
use crate::text::{lemma_split_after_sep, lemma_split_without_sep, chars_of, copy_range, has_prefix, split, split_on, split_tokens, starts_with, string_of, tokens, trim, trimmed, views};
use vstd::prelude::*;

verus! {

/// Kernel name and version.
#[derive(Debug)]
pub struct KernelInfo {
    pub name: String,
    pub version: String,
}

/// Time since boot, and the estimated installation date (`None` where it
/// cannot be told).
#[derive(Debug)]
pub struct UptimeInfo {
    pub hours: u64,
    pub minutes: u64,
    pub date_installation: String,
}

/// Identity of the running system.
#[derive(Debug)]
pub struct DistroInfo {
    pub name: String,
    pub arch: String,
    pub shell: String,
    pub build_id: String,
    pub uptime_info: UptimeInfo,
    pub kernel_info: KernelInfo,
}

/// What the distro probe's sources gave: the release file, the architecture
/// command's output, the shell variable and the version file (`None` where a
/// file could not be read), the whole minutes since boot (or why they could
/// not be told), and the change time of each candidate path for the
/// installation date (`None` where the path could not be read).
pub struct DistroSources {
    pub os_release: Option<String>,
    pub arch_output: SourceText,
    pub shell: Option<String>,
    pub uptime_minutes: Result<u64, ProbeError>,
    pub change_times: Vec<Option<i64>>,
    pub version: Option<String>,
}

/// The latest time, in seconds since the epoch, that a date is formatted for:
/// the last second of the year 9999.
pub const LAST_FORMATTED_SECOND: u64 = 253402300799;

pub open spec fn none_word() -> Seq<char> {
    seq!['N', 'o', 'n', 'e']
}

pub open spec fn name_key() -> Seq<char> {
    seq!['N', 'A', 'M', 'E', '=']
}

pub open spec fn build_id_key() -> Seq<char> {
    seq!['B', 'U', 'I', 'L', 'D', '_', 'I', 'D', '=']
}

/// `l` without one trailing carriage return.
pub open spec fn strip_cr(l: Seq<char>) -> Seq<char> {
    if l.len() > 0 && l.last() == '\r' {
        l.drop_last()
    } else {
        l
    }
}

/// What follows `key` on the first line of `lines` that begins with it.
pub open spec fn release_value(lines: Seq<Seq<char>>, key: Seq<char>) -> Option<Seq<char>>
    decreases lines.len(),
{
    if lines.len() == 0 {
        None
    } else if has_prefix(strip_cr(lines[0]), key) {
        Some(strip_cr(lines[0]).subrange(key.len() as int, strip_cr(lines[0]).len() as int))
    } else {
        release_value(lines.drop_first(), key)
    }
}

/// `s` without leading `"` characters.
pub open spec fn unquote_start(s: Seq<char>) -> Seq<char>
    decreases s.len(),
{
    if s.len() > 0 && s[0] == '"' {
        unquote_start(s.drop_first())
    } else {
        s
    }
}

/// `s` without trailing `"` characters.
pub open spec fn unquote_end(s: Seq<char>) -> Seq<char>
    decreases s.len(),
{
    if s.len() > 0 && s.last() == '"' {
        unquote_end(s.drop_last())
    } else {
        s
    }
}

/// `s` without surrounding `"` characters.
pub open spec fn unquote(s: Seq<char>) -> Seq<char> {
    unquote_end(unquote_start(s))
}

/// Distribution name and build id that the release file states; a key that
/// never starts a line gives an empty value.
pub open spec fn release_of(text: Seq<char>) -> (Seq<char>, Seq<char>) {
    let lines = split(text, '\n');
    let name = match release_value(lines, name_key()) {
        Some(v) => unquote(v),
        None => Seq::empty(),
    };
    let build = match release_value(lines, build_id_key()) {
        Some(v) => v,
        None => Seq::empty(),
    };
    (name, build)
}

/// Kernel name and version: the first and third whitespace-separated fields of
/// the version file, each empty where the file has no such field.
pub open spec fn kernel_of(text: Seq<char>) -> (Seq<char>, Seq<char>) {
    let t = tokens(text);
    (
        if t.len() > 0 {
            t[0]
        } else {
            Seq::empty()
        },
        if t.len() > 2 {
            t[2]
        } else {
            Seq::empty()
        },
    )
}

/// The first whitespace-separated field of the uptime file: the seconds
/// since boot.
pub open spec fn uptime_token_of(text: Seq<char>) -> Result<Seq<char>, ProbeError> {
    let t = tokens(text);
    if t.len() == 0 {
        Err(ProbeError::IncompleteSource)
    } else {
        Ok(t[0])
    }
}

/// The oldest positive change time among those that could be read.
pub open spec fn oldest_of(times: Seq<Option<i64>>) -> Option<nat>
    decreases times.len(),
{
    if times.len() == 0 {
        None
    } else {
        let prev = oldest_of(times.drop_last());
        match times.last() {
            Some(t) => if t > 0 {
                match prev {
                    Some(p) => Some(if p <= t {
                        p
                    } else {
                        t as nat
                    }),
                    None => Some(t as nat),
                }
            } else {
                prev
            },
            None => prev,
        }
    }
}

/// Relies on chrono's conversion of a system time to the local time zone and
/// its `%Y-%m-%d %H:%M:%S` formatting. Which date comes out depends on the
/// machine's time zone; its length does not fall below 19, as chrono writes
/// the year with at least four characters and every other field with two.
#[verifier::external_body]
fn format_timestamp(timestamp: u64) -> (r: String)
    requires
        timestamp <= LAST_FORMATTED_SECOND,
    ensures
        r@.len() >= 19,
{
    let system_time = std::time::UNIX_EPOCH + std::time::Duration::from_secs(timestamp);
    let datetime: chrono::DateTime<chrono::Local> = system_time.into();
    datetime.format("%Y-%m-%d %H:%M:%S").to_string()
}

/// Whether `d` is the installation date that the change times `times` give:
/// `None` where no time is positive or the oldest lies beyond the year 9999,
/// else a formatted date of at least 19 characters.
pub open spec fn installation_date_of(times: Seq<Option<i64>>, d: Seq<char>) -> bool {
    match oldest_of(times) {
        None => d == none_word(),
        Some(t) => if t > LAST_FORMATTED_SECOND {
            d == none_word()
        } else {
            d.len() >= 19
        },
    }
}

/// The oldest positive change time among those that could be read.
pub fn oldest_change_time(times: &Vec<Option<i64>>) -> (r: Option<u64>)
    ensures
        match r {
            Some(t) => oldest_of(times@) == Some(t as nat),
            None => oldest_of(times@) is None,
        },
{
    let mut best: Option<u64> = None;
    let n = times.len();
    let mut k: usize = 0;
    assert(times@.subrange(0, 0) =~= Seq::<Option<i64>>::empty());
    while k < n
        invariant
            k <= n == times@.len(),
            match best {
                Some(t) => oldest_of(times@.subrange(0, k as int)) == Some(t as nat),
                None => oldest_of(times@.subrange(0, k as int)) is None,
            },
        decreases n - k,
    {
        assert(times@.subrange(0, k + 1).drop_last() =~= times@.subrange(0, k as int));
        match times[k] {
            Some(t) => {
                if t > 0 {
                    best = match best {
                        Some(p) => Some(if p <= t as u64 {
                            p
                        } else {
                            t as u64
                        }),
                        None => Some(t as u64),
                    };
                }
            },
            None => {},
        }
        k = k + 1;
    }
    assert(times@.subrange(0, n as int) =~= times@);
    best
}

impl UptimeInfo {
    /// The installation date estimated from the change times of the candidate
    /// paths: the oldest of them, formatted in local time, or `None` where no
    /// candidate could be read (or the oldest lies beyond the year 9999).
    pub fn get_date_installation(change_times: &Vec<Option<i64>>) -> (r: String)
        ensures
            installation_date_of(change_times@, r@),
    {
        match oldest_change_time(change_times) {
            Some(t) => if t <= LAST_FORMATTED_SECOND {
                format_timestamp(t)
            } else {
                let w: Vec<char> = vec!['N', 'o', 'n', 'e'];
                string_of(w.as_slice())
            },
            None => {
                let w: Vec<char> = vec!['N', 'o', 'n', 'e'];
                string_of(w.as_slice())
            },
        }
    }

    /// The seconds-since-boot field of the uptime file's content.
    pub fn uptime_token(text: &str) -> (r: Result<String, ProbeError>)
        ensures
            match r {
                Ok(t) => uptime_token_of(text@) == Ok::<Seq<char>, ProbeError>(t@),
                Err(e) => uptime_token_of(text@) == Err::<Seq<char>, ProbeError>(e),
            },
    {
        let t = split_tokens(&chars_of(text));
        if t.len() == 0 {
            Err(ProbeError::IncompleteSource)
        } else {
            Ok(string_of(t[0].as_slice()))
        }
    }

    /// Hours and minutes since boot from the whole minutes since boot (or the
    /// reason they could not be told), with the installation date from the
    /// change times.
    pub fn new(total_minutes: Result<u64, ProbeError>, change_times: &Vec<Option<i64>>) -> (r: Result<
        UptimeInfo,
        ProbeError,
    >)
        ensures
            match total_minutes {
                Err(e) => r == Err::<UptimeInfo, ProbeError>(e),
                Ok(m) => r matches Ok(u) && u.hours == m / 60 && u.minutes == m % 60
                    && installation_date_of(change_times@, u.date_installation@),
            },
    {
        let m = match total_minutes {
            Err(e) => return Err(e),
            Ok(m) => m,
        };
        let date_installation = Self::get_date_installation(change_times);
        Ok(UptimeInfo { hours: m / 60, minutes: m % 60, date_installation })
    }
}

impl KernelInfo {
    /// Kernel name and version from the version file (`None` where it could
    /// not be read).
    pub fn new(version: Option<String>) -> (r: Result<KernelInfo, ProbeError>)
        ensures
            match version {
                None => r == Err::<KernelInfo, ProbeError>(ProbeError::SourceUnavailable),
                Some(text) => r matches Ok(k) && (k.name@, k.version@) == kernel_of(text@),
            },
    {
        let text = match version {
            None => return Err(ProbeError::SourceUnavailable),
            Some(t) => t,
        };
        let t = split_tokens(&chars_of(text.as_str()));
        let empty: Vec<char> = Vec::new();
        let name = if t.len() > 0 {
            string_of(t[0].as_slice())
        } else {
            string_of(empty.as_slice())
        };
        let version = if t.len() > 2 {
            string_of(t[2].as_slice())
        } else {
            string_of(empty.as_slice())
        };
        Ok(KernelInfo { name, version })
    }
}

fn find_release_value(lines: &Vec<Vec<char>>, key: &Vec<char>) -> (r: Option<Vec<char>>)
    ensures
        match r {
            Some(v) => release_value(views(lines@), key@) == Some(v@),
            None => release_value(views(lines@), key@) is None,
        },
{
    let n = lines.len();
    let mut i: usize = 0;
    assert(views(lines@).subrange(0, n as int) =~= views(lines@));
    while i < n
        invariant
            i <= n == lines@.len(),
            release_value(views(lines@), key@) == release_value(views(lines@).subrange(i as int, n as int), key@),
        decreases n - i,
    {
        let line = &lines[i];
        let ghost rest = views(lines@).subrange(i as int, n as int);
        assert(rest[0] == line@);
        assert(rest.drop_first() =~= views(lines@).subrange(i + 1, n as int));
        let len = line.len();
        let end: usize = if len > 0 && line[len - 1] == '\r' {
            len - 1
        } else {
            len
        };
        let l = copy_range(line, 0, end);
        assert(l@ =~= strip_cr(line@));
        if starts_with(&l, key) {
            return Some(copy_range(&l, key.len(), end));
        }
        i = i + 1;
    }
    None
}

/// `s` without surrounding `"` characters.
pub fn strip_quotes(s: &Vec<char>) -> (r: Vec<char>)
    ensures
        r@ == unquote(s@),
{
    let n = s.len();
    let mut i: usize = 0;
    assert(s@.subrange(0, n as int) =~= s@);
    while i < n && s[i] == '"'
        invariant
            i <= n == s@.len(),
            unquote_start(s@) == unquote_start(s@.subrange(i as int, n as int)),
        decreases n - i,
    {
        assert(s@.subrange(i as int, n as int).drop_first() =~= s@.subrange(i + 1, n as int));
        i = i + 1;
    }
    let mut j: usize = n;
    while j > i && s[j - 1] == '"'
        invariant
            i <= j <= n == s@.len(),
            unquote(s@) == unquote_end(s@.subrange(i as int, j as int)),
        decreases j,
    {
        assert(s@.subrange(i as int, j as int).drop_last() =~= s@.subrange(i as int, j - 1));
        j = j - 1;
    }
    copy_range(s, i, j)
}

/// The error that stops the distro probe, if any: sources are taken in the
/// order release file, architecture, shell, uptime, kernel version.
pub open spec fn distro_error(s: DistroSources) -> Option<ProbeError> {
    if s.os_release is None {
        Some(ProbeError::SourceUnavailable)
    } else if s.arch_output is Missing {
        Some(ProbeError::SourceUnavailable)
    } else if s.arch_output is Unreadable {
        Some(ProbeError::MalformedSource)
    } else if s.shell is None {
        Some(ProbeError::SourceUnavailable)
    } else {
        match s.uptime_minutes {
            Err(e) => Some(e),
            Ok(_) => if s.version is None {
                Some(ProbeError::SourceUnavailable)
            } else {
                None
            },
        }
    }
}

/// Whether `d` holds what the sources `s` state.
pub open spec fn distro_fields(s: DistroSources, d: DistroInfo) -> bool {
    &&& match s.os_release {
        Some(text) => (d.name@, d.build_id@) == release_of(text@),
        None => false,
    }
    &&& match s.arch_output {
        SourceText::Text(a) => d.arch@ == trim(a@),
        _ => false,
    }
    &&& s.shell == Some(d.shell)
    &&& match s.uptime_minutes {
        Ok(m) => d.uptime_info.hours == m / 60 && d.uptime_info.minutes == m % 60,
        Err(_) => false,
    }
    &&& installation_date_of(s.change_times@, d.uptime_info.date_installation@)
    &&& match s.version {
        Some(v) => (d.kernel_info.name@, d.kernel_info.version@) == kernel_of(v@),
        None => false,
    }
}

impl DistroInfo {
    /// Distribution name (quotes stripped) and build id from the release file.
    pub fn parse_os_release(text: &str) -> (r: (String, String))
        ensures
            (r.0@, r.1@) == release_of(text@),
    {
        let lines = split_on(&chars_of(text), '\n');
        let name_k: Vec<char> = vec!['N', 'A', 'M', 'E', '='];
        let build_k: Vec<char> = vec!['B', 'U', 'I', 'L', 'D', '_', 'I', 'D', '='];
        assert(name_k@ =~= name_key());
        assert(build_k@ =~= build_id_key());
        let empty: Vec<char> = Vec::new();
        let name = match find_release_value(&lines, &name_k) {
            Some(v) => string_of(strip_quotes(&v).as_slice()),
            None => string_of(empty.as_slice()),
        };
        let build_id = match find_release_value(&lines, &build_k) {
            Some(v) => string_of(v.as_slice()),
            None => string_of(empty.as_slice()),
        };
        (name, build_id)
    }

    /// The architecture from the architecture command's output, trimmed.
    pub fn get_arch(output: SourceText) -> (r: Result<String, ProbeError>)
        ensures
            match output {
                SourceText::Missing => r == Err::<String, ProbeError>(ProbeError::SourceUnavailable),
                SourceText::Unreadable => r == Err::<String, ProbeError>(ProbeError::MalformedSource),
                SourceText::Text(t) => r matches Ok(a) && a@ == trim(t@),
            },
    {
        match output {
            SourceText::Missing => Err(ProbeError::SourceUnavailable),
            SourceText::Unreadable => Err(ProbeError::MalformedSource),
            SourceText::Text(t) => Ok(string_of(trimmed(&chars_of(t.as_str())).as_slice())),
        }
    }

    /// The shell path from the shell variable, which must be set.
    pub fn get_shell(shell: Option<String>) -> (r: Result<String, ProbeError>)
        ensures
            match shell {
                None => r == Err::<String, ProbeError>(ProbeError::SourceUnavailable),
                Some(s) => r == Ok::<String, ProbeError>(s),
            },
    {
        match shell {
            None => Err(ProbeError::SourceUnavailable),
            Some(s) => Ok(s),
        }
    }

    /// The distro record from its sources; the first source that fails, in the
    /// order release file, architecture, shell, uptime, kernel, decides the error.
    pub fn new(sources: DistroSources) -> (r: Result<DistroInfo, ProbeError>)
        ensures
            match distro_error(sources) {
                Some(e) => r == Err::<DistroInfo, ProbeError>(e),
                None => r matches Ok(d) && distro_fields(sources, d),
            },
    {
        let text = match sources.os_release {
            None => return Err(ProbeError::SourceUnavailable),
            Some(t) => t,
        };
        let (name, build_id) = Self::parse_os_release(text.as_str());
        let arch = match Self::get_arch(sources.arch_output) {
            Err(e) => return Err(e),
            Ok(a) => a,
        };
        let shell = match Self::get_shell(sources.shell) {
            Err(e) => return Err(e),
            Ok(s) => s,
        };
        let uptime_info = match UptimeInfo::new(sources.uptime_minutes, &sources.change_times) {
            Err(e) => return Err(e),
            Ok(u) => u,
        };
        let kernel_info = match KernelInfo::new(sources.version) {
            Err(e) => return Err(e),
            Ok(k) => k,
        };
        Ok(DistroInfo { name, arch, shell, build_id, uptime_info, kernel_info })
    }
}

} // verus!

verus! {

/// The release-file line `NAME="<n>"`.
pub open spec fn name_line(n: Seq<char>) -> Seq<char> {
    name_key() + seq!['"'] + n + seq!['"']
}

/// The release-file line `BUILD_ID=<b>`.
pub open spec fn build_line(b: Seq<char>) -> Seq<char> {
    build_id_key() + b
}

proof fn lemma_unquote_quoted(n: Seq<char>)
    requires
        !n.contains('"'),
    ensures
        unquote(seq!['"'] + n + seq!['"']) == n,
{
    let q = seq!['"'] + n + seq!['"'];
    assert(q.drop_first() =~= n + seq!['"']);
    if n.len() > 0 {
        assert((n + seq!['"'])[0] == n[0]);
        assert(n[0] != '"');
        assert(q[0] == '"');
        assert(unquote_start(q) == unquote_start(n + seq!['"']));
        assert(unquote_start(n + seq!['"']) == n + seq!['"']);
        assert((n + seq!['"']).drop_last() =~= n);
        assert(n.last() == n[n.len() - 1]);
        assert(unquote_end(n + seq!['"']) == unquote_end(n));
    } else {
        assert(n + seq!['"'] =~= seq!['"']);
        assert(seq!['"'].drop_first() =~= Seq::<char>::empty());
        assert(unquote_start(seq!['"']) == unquote_start(Seq::<char>::empty()));
        assert(n =~= Seq::<char>::empty());
    }
}

/// A release file made of the line `NAME="<n>"` and then the line
/// `BUILD_ID=<b>` gives the distribution name `n`, without its quotes, and
/// the build id `b`.
pub proof fn lemma_release_name_and_build(n: Seq<char>, b: Seq<char>)
    requires
        !n.contains('\n'),
        !n.contains('"'),
        !b.contains('\n'),
        !b.contains('\r'),
    ensures
        release_of(name_line(n).push('\n') + build_line(b)) == (n, b),
{
    let l1 = name_line(n);
    let l2 = build_line(b);
    assert(!l1.contains('\n')) by {
        if l1.contains('\n') {
            let i = choose|i: int| 0 <= i < l1.len() && l1[i] == '\n';
            if 6 <= i < 6 + n.len() {
                assert(l1[i] == n[i - 6]);
            }
        }
    }
    assert(!l2.contains('\n')) by {
        if l2.contains('\n') {
            let i = choose|i: int| 0 <= i < l2.len() && l2[i] == '\n';
            if 9 <= i {
                assert(l2[i] == b[i - 9]);
            }
        }
    }
    lemma_split_after_sep(l1, l2, '\n');
    lemma_split_without_sep(l2, '\n');
    let lines = split(l1.push('\n') + l2, '\n');
    assert(lines =~= seq![l1, l2]);
    // the name line
    assert(l1.last() == '"');
    assert(strip_cr(l1) == l1);
    assert(l1.subrange(0, 5) =~= name_key());
    assert(l1.subrange(5, l1.len() as int) =~= seq!['"'] + n + seq!['"']);
    lemma_unquote_quoted(n);
    // the build line
    assert(l1[0] == 'N');
    assert(!has_prefix(strip_cr(l1), build_id_key())) by {
        if has_prefix(l1, build_id_key()) {
            assert(l1.subrange(0, 9)[0] == l1[0]);
        }
    }
    assert(l2.last() != '\r') by {
        if b.len() > 0 {
            assert(l2.last() == b[b.len() - 1]);
        }
    }
    assert(strip_cr(l2) == l2);
    assert(l2.subrange(0, 9) =~= build_id_key());
    assert(l2.subrange(9, l2.len() as int) =~= b);
    assert(lines.drop_first() =~= seq![l2]);
    assert(seq![l2].drop_first() =~= Seq::<Seq<char>>::empty());
    assert(lines[0] == l1);
    assert(release_value(lines, name_key()) == Some(seq!['"'] + n + seq!['"']));
    assert(release_value(seq![l2], build_id_key()) == Some(b));
    assert(release_value(lines, build_id_key()) == release_value(lines.drop_first(), build_id_key()));
    assert(release_value(lines, build_id_key()) == Some(b));
}

} // verus!

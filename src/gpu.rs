//! GPU probe: vendor and device names from the hardware lister's
//! machine-readable listing of display devices.
use crate::error::{ProbeError, SourceText};
use crate::text::{chars_of, copy_range, same_chars, split, split_on, string_of, trim, trimmed, views};
use vstd::prelude::*;

verus! {

/// Vendor and device name of the display adapter.
#[derive(Debug)]
pub struct GpuInfo {
    pub vendor_name: String,
    pub device_name: String,
}

pub open spec fn vendor_key() -> Seq<char> {
    seq!['V', 'e', 'n', 'd', 'o', 'r']
}

pub open spec fn device_key() -> Seq<char> {
    seq!['D', 'e', 'v', 'i', 'c', 'e']
}

/// The position of the first `:` of `l`.
pub open spec fn colon_pos(l: Seq<char>) -> Option<nat>
    decreases l.len(),
{
    if l.len() == 0 {
        None
    } else if l[0] == ':' {
        Some(0)
    } else {
        match colon_pos(l.drop_first()) {
            Some(p) => Some(p + 1),
            None => None,
        }
    }
}

/// The value of the first line whose trimmed text before its first `:` is
/// `key`: the trimmed text after that `:`.
pub open spec fn field_of(lines: Seq<Seq<char>>, key: Seq<char>) -> Option<Seq<char>>
    decreases lines.len(),
{
    if lines.len() == 0 {
        None
    } else {
        let l = lines[0];
        match colon_pos(l) {
            Some(p) => if trim(l.subrange(0, p as int)) == key {
                Some(trim(l.subrange((p + 1) as int, l.len() as int)))
            } else {
                field_of(lines.drop_first(), key)
            },
            None => field_of(lines.drop_first(), key),
        }
    }
}

fn first_colon(l: &Vec<char>) -> (r: Option<usize>)
    ensures
        match r {
            Some(i) => colon_pos(l@) == Some(i as nat) && i < l@.len(),
            None => colon_pos(l@) is None,
        },
{
    let n = l.len();
    let mut i: usize = 0;
    assert(l@.subrange(0, n as int) =~= l@);
    while i < n
        invariant
            i <= n == l@.len(),
            match colon_pos(l@.subrange(i as int, n as int)) {
                Some(p) => colon_pos(l@) == Some((p + i) as nat),
                None => colon_pos(l@) is None,
            },
        decreases n - i,
    {
        let ghost rest = l@.subrange(i as int, n as int);
        assert(rest.drop_first() =~= l@.subrange(i + 1, n as int));
        if l[i] == ':' {
            return Some(i);
        }
        i = i + 1;
    }
    None
}

fn find_field(lines: &Vec<Vec<char>>, key: &Vec<char>) -> (r: Option<Vec<char>>)
    ensures
        match r {
            Some(v) => field_of(views(lines@), key@) == Some(v@),
            None => field_of(views(lines@), key@) is None,
        },
{
    let n = lines.len();
    let mut i: usize = 0;
    assert(views(lines@).subrange(0, n as int) =~= views(lines@));
    while i < n
        invariant
            i <= n == lines@.len(),
            field_of(views(lines@), key@) == field_of(views(lines@).subrange(i as int, n as int), key@),
        decreases n - i,
    {
        let line = &lines[i];
        let ghost rest = views(lines@).subrange(i as int, n as int);
        assert(rest[0] == line@);
        assert(rest.drop_first() =~= views(lines@).subrange(i + 1, n as int));
        match first_colon(line) {
            Some(p) => {
                let len = line.len();
                assert(p < len);
                let k = trimmed(&copy_range(line, 0, p));
                if same_chars(&k, key) {
                    return Some(trimmed(&copy_range(line, p + 1, len)));
                }
            },
            None => {},
        }
        i = i + 1;
    }
    None
}

/// Vendor and device names from the lister's output, or the error where
/// either never appears.
pub open spec fn gpu_of(output: Seq<char>) -> Result<(Seq<char>, Seq<char>), ProbeError> {
    let lines = split(output, '\n');
    match field_of(lines, vendor_key()) {
        None => Err(ProbeError::IncompleteSource),
        Some(v) => match field_of(lines, device_key()) {
            None => Err(ProbeError::IncompleteSource),
            Some(d) => Ok((v, d)),
        },
    }
}

/// Vendor and device names from the lister's output.
pub fn get_gpu_info(output: &str) -> (r: Result<(String, String), ProbeError>)
    ensures
        match r {
            Ok((v, d)) => gpu_of(output@) == Ok::<(Seq<char>, Seq<char>), ProbeError>((v@, d@)),
            Err(e) => gpu_of(output@) == Err::<(Seq<char>, Seq<char>), ProbeError>(e),
        },
{
    let lines = split_on(&chars_of(output), '\n');
    let vendor_k: Vec<char> = vec!['V', 'e', 'n', 'd', 'o', 'r'];
    let device_k: Vec<char> = vec!['D', 'e', 'v', 'i', 'c', 'e'];
    assert(vendor_k@ =~= vendor_key());
    assert(device_k@ =~= device_key());
    let vendor = match find_field(&lines, &vendor_k) {
        None => return Err(ProbeError::IncompleteSource),
        Some(v) => v,
    };
    let device = match find_field(&lines, &device_k) {
        None => return Err(ProbeError::IncompleteSource),
        Some(d) => d,
    };
    Ok((string_of(vendor.as_slice()), string_of(device.as_slice())))
}

impl GpuInfo {
    /// The GPU record from what running the lister gave.
    pub fn new(output: SourceText) -> (r: Result<GpuInfo, ProbeError>)
        ensures
            match output {
                SourceText::Missing => r == Err::<GpuInfo, ProbeError>(ProbeError::SourceUnavailable),
                SourceText::Unreadable => r == Err::<GpuInfo, ProbeError>(ProbeError::MalformedSource),
                SourceText::Text(t) => match gpu_of(t@) {
                    Ok((v, d)) => r matches Ok(g) && g.vendor_name@ == v && g.device_name@ == d,
                    Err(e) => r == Err::<GpuInfo, ProbeError>(e),
                },
            },
    {
        match output {
            SourceText::Missing => Err(ProbeError::SourceUnavailable),
            SourceText::Unreadable => Err(ProbeError::MalformedSource),
            SourceText::Text(t) => match get_gpu_info(t.as_str()) {
                Err(e) => Err(e),
                Ok((vendor_name, device_name)) => Ok(GpuInfo { vendor_name, device_name }),
            },
        }
    }
}

} // verus!

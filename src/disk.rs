//! Disk probe: aggregate usage, the primary device label and the mounted
//! partitions.
//!
//! Amounts are hundredths of a GiB, truncated by the disk-domain rule (see
//! [`disk_hundredths`]). Querying the usage and enumerating the mounted
//! filesystems is the caller's part.
use crate::error::ProbeError;
use crate::text::{chars_of, split, split_on, split_tokens, string_of, tokens};
use vstd::prelude::*;

verus! {

/// One mounted filesystem; `size` is its available space in hundredths of a GiB.
#[derive(Debug)]
pub struct PartitionInfo {
    pub name: String,
    pub size: u64,
    pub mount_point: String,
    pub file_system: String,
}

/// Aggregate disk usage in hundredths of a GiB, the primary device label and
/// the mounted filesystems.
#[derive(Debug)]
pub struct DiskInfo {
    pub total_size: u64,
    pub free_size: u64,
    pub mount_point: String,
    pub partitions: Vec<PartitionInfo>,
}

/// One mounted filesystem as the platform reports it; a text field is `None`
/// where the platform's value is not valid text.
pub struct PartitionEntry {
    pub name: Option<String>,
    pub available_space: u64,
    pub mount_point: Option<String>,
    pub file_system: Option<String>,
}

/// Aggregate disk capacity and free space, in KB.
pub struct DiskUsage {
    pub total: u64,
    pub free: u64,
}

pub struct PartitionView {
    pub name: Seq<char>,
    pub size: u64,
    pub mount_point: Seq<char>,
    pub file_system: Seq<char>,
}

impl View for PartitionInfo {
    type V = PartitionView;

    open spec fn view(&self) -> PartitionView {
        PartitionView {
            name: self.name@,
            size: self.size,
            mount_point: self.mount_point@,
            file_system: self.file_system@,
        }
    }
}

/// An amount in hundredths of a GiB by the disk-domain rule: `data` is bytes
/// or KB; whole GiB plus the remainder's hundredths of a GiB, truncated.
pub open spec fn disk_hundredths(data: nat, is_bytes: bool) -> nat {
    let unit: nat = if is_bytes {
        1073741824
    } else {
        1048576
    };
    (data / unit) * 100 + ((data % unit) * 100) / unit
}

/// Converts bytes (`bytes`) or KB to hundredths of a GiB by the disk-domain rule.
pub fn parse_to_gb(data: u64, bytes: bool) -> (r: u64)
    ensures
        r as nat == disk_hundredths(data as nat, bytes),
{
    let unit: u64 = if bytes {
        1073741824
    } else {
        1048576
    };
    let whole: u64 = data / unit;
    let rest: u64 = data % unit;
    assert(whole <= 17592186044415) by (nonlinear_arith)
        requires
            whole == data / unit,
            unit >= 1048576,
            data <= 0xffff_ffff_ffff_ffff,
    ;
    assert(rest < unit);
    whole * 100 + (rest * 100) / unit
}

/// The primary device label: the fourth field of the third line of the
/// partitions listing, where there is one.
pub open spec fn mount_label(text: Seq<char>) -> Option<Seq<char>> {
    let lines = split(text, '\n');
    if lines.len() > 2 && tokens(lines[2]).len() > 3 {
        Some(tokens(lines[2])[3])
    } else {
        None
    }
}

/// The primary device label from the content of the partitions listing.
pub fn get_mount_point(partitions: &str) -> (r: Result<String, ProbeError>)
    ensures
        match mount_label(partitions@) {
            Some(label) => r matches Ok(s) && s@ == label,
            None => r == Err::<String, ProbeError>(ProbeError::IncompleteSource),
        },
{
    let lines = split_on(&chars_of(partitions), '\n');
    if lines.len() <= 2 {
        return Err(ProbeError::IncompleteSource);
    }
    let fields = split_tokens(&lines[2]);
    if fields.len() <= 3 {
        return Err(ProbeError::IncompleteSource);
    }
    Ok(string_of(fields[3].as_slice()))
}

/// Whether every text field of `e` is valid text.
pub open spec fn entry_readable(e: PartitionEntry) -> bool {
    e.name is Some && e.mount_point is Some && e.file_system is Some
}

/// The record that a readable entry gives.
pub open spec fn partition_of(e: PartitionEntry) -> PartitionView {
    PartitionView {
        name: e.name.unwrap()@,
        size: disk_hundredths(e.available_space as nat, true) as u64,
        mount_point: e.mount_point.unwrap()@,
        file_system: e.file_system.unwrap()@,
    }
}

fn text_copy(s: &String) -> (r: String)
    ensures
        r@ == s@,
{
    let c = chars_of(s.as_str());
    string_of(c.as_slice())
}

impl PartitionInfo {
    pub fn new(name: String, size: u64, mount_point: String, file_system: String) -> (r: PartitionInfo)
        ensures
            r@ == (PartitionView { name: name@, size, mount_point: mount_point@, file_system: file_system@ }),
    {
        PartitionInfo { name, size, mount_point, file_system }
    }

    /// The partition records of the mounted filesystems, in the order given;
    /// fails where any of their text fields is not valid text.
    pub fn build(entries: &Vec<PartitionEntry>) -> (r: Result<Vec<PartitionInfo>, ProbeError>)
        ensures
            match r {
                Ok(v) => (forall|i: int| 0 <= i < entries@.len() ==> entry_readable(#[trigger] entries@[i]))
                    && v@.len() == entries@.len() && forall|i: int|
                    0 <= i < v@.len() ==> #[trigger] v@[i]@ == partition_of(entries@[i]),
                Err(e) => e == ProbeError::MalformedSource && exists|i: int|
                    0 <= i < entries@.len() && !entry_readable(#[trigger] entries@[i]),
            },
    {
        let mut out: Vec<PartitionInfo> = Vec::new();
        let mut k: usize = 0;
        while k < entries.len()
            invariant
                k <= entries@.len(),
                out@.len() == k,
                forall|i: int| 0 <= i < k ==> entry_readable(#[trigger] entries@[i]),
                forall|i: int| 0 <= i < k ==> #[trigger] out@[i]@ == partition_of(entries@[i]),
            decreases entries.len() - k,
        {
            let e = &entries[k];
            let (name, mount_point, file_system) = match (&e.name, &e.mount_point, &e.file_system) {
                (Some(n), Some(m), Some(f)) => (text_copy(n), text_copy(m), text_copy(f)),
                _ => {
                    assert(!entry_readable(entries@[k as int]));
                    return Err(ProbeError::MalformedSource);
                },
            };
            let size = parse_to_gb(e.available_space, true);
            out.push(PartitionInfo::new(name, size, mount_point, file_system));
            k = k + 1;
        }
        Ok(out)
    }
}

impl DiskInfo {
    /// The disk record from the content of the partitions listing (`None` where
    /// it could not be read), the mounted filesystems, and the aggregate usage
    /// in KB (`None` where the query failed).
    pub fn new(partitions_text: Option<String>, entries: &Vec<PartitionEntry>, usage: Option<DiskUsage>) -> (r:
        Result<DiskInfo, ProbeError>)
        ensures
            match partitions_text {
                None => r == Err::<DiskInfo, ProbeError>(ProbeError::SourceUnavailable),
                Some(text) => match mount_label(text@) {
                    None => r == Err::<DiskInfo, ProbeError>(ProbeError::IncompleteSource),
                    Some(label) => if !(forall|i: int|
                        0 <= i < entries@.len() ==> entry_readable(#[trigger] entries@[i])) {
                        r == Err::<DiskInfo, ProbeError>(ProbeError::MalformedSource)
                    } else {
                        match usage {
                            None => r == Err::<DiskInfo, ProbeError>(ProbeError::SourceUnavailable),
                            Some(u) => r matches Ok(d) && d.mount_point@ == label && d.total_size as nat
                                == disk_hundredths(u.total as nat, false) && d.free_size as nat
                                == disk_hundredths(u.free as nat, false) && d.partitions@.len()
                                == entries@.len() && forall|i: int|
                                0 <= i < entries@.len() ==> #[trigger] d.partitions@[i]@ == partition_of(
                                    entries@[i],
                                ),
                        }
                    },
                },
            },
    {
        let text = match partitions_text {
            None => return Err(ProbeError::SourceUnavailable),
            Some(t) => t,
        };
        let mount_point = match get_mount_point(text.as_str()) {
            Err(e) => return Err(e),
            Ok(m) => m,
        };
        let partitions = match PartitionInfo::build(entries) {
            Err(e) => return Err(e),
            Ok(p) => p,
        };
        match usage {
            None => Err(ProbeError::SourceUnavailable),
            Some(u) => Ok(
                DiskInfo {
                    total_size: parse_to_gb(u.total, false),
                    free_size: parse_to_gb(u.free, false),
                    mount_point,
                    partitions,
                },
            ),
        }
    }
}

} // verus!

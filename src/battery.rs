//! Battery probe: power-supply entries to battery records.
//!
//! Listing the power-supply directory and reading each device's files is the
//! caller's part; it hands over, per entry, its name and what each of the three
//! files held (`None` where a file could not be read).
use crate::error::ProbeError;
use crate::text::{chars_of, contains, decimal_text, decimal_upto, has_infix, lemma_decimal_text_reads_back, opt_view, parse_unsigned, same_chars, string_of, trim, trimmed};
use vstd::prelude::*;

verus! {

/// Charging state of a battery.
#[derive(Debug, Clone, Copy, PartialEq, Eq, Structural)]
pub enum BatteryStatus {
    Charging,
    Discharging,
    Unknown,
}

/// One discovered battery.
#[derive(Debug)]
pub struct BatteryInfo {
    pub power_level: u8,
    pub status: BatteryStatus,
    pub bat_name: String,
    pub model: String,
}

pub struct BatteryView {
    pub power_level: u8,
    pub status: BatteryStatus,
    pub bat_name: Seq<char>,
    pub model: Seq<char>,
}

impl View for BatteryInfo {
    type V = BatteryView;

    open spec fn view(&self) -> BatteryView {
        BatteryView {
            power_level: self.power_level,
            status: self.status,
            bat_name: self.bat_name@,
            model: self.model@,
        }
    }
}

/// What the three files of one power-supply device held; `None` where a file
/// could not be read.
pub struct BatteryFiles {
    pub capacity: Option<String>,
    pub status: Option<String>,
    pub model: Option<String>,
}

/// One entry of the power-supply directory; `name` is `None` where the entry's
/// name is not text.
pub struct PowerSupplyEntry {
    pub name: Option<String>,
    pub files: BatteryFiles,
}

pub open spec fn bat_marker() -> Seq<char> {
    seq!['B', 'A', 'T']
}

pub open spec fn charging_word() -> Seq<char> {
    seq!['C', 'h', 'a', 'r', 'g', 'i', 'n', 'g']
}

pub open spec fn discharging_word() -> Seq<char> {
    seq!['D', 'i', 's', 'c', 'h', 'a', 'r', 'g', 'i', 'n', 'g']
}

/// The status that the content of a status file stands for.
pub open spec fn status_of(s: Seq<char>) -> BatteryStatus {
    if trim(s) == charging_word() {
        BatteryStatus::Charging
    } else if trim(s) == discharging_word() {
        BatteryStatus::Discharging
    } else {
        BatteryStatus::Unknown
    }
}

/// The charge level that the content of a capacity file stands for.
pub open spec fn capacity_of(s: Seq<char>) -> Option<nat> {
    decimal_upto(trim(s), 255)
}

/// The record that one device's files give, or the error that stops the probe.
pub open spec fn battery_of(
    name: Seq<char>,
    capacity: Option<Seq<char>>,
    status: Option<Seq<char>>,
    model: Option<Seq<char>>,
) -> Result<BatteryView, ProbeError> {
    match capacity {
        None => Err(ProbeError::SourceUnavailable),
        Some(c) => match capacity_of(c) {
            None => Err(ProbeError::MalformedSource),
            Some(level) => match status {
                None => Err(ProbeError::SourceUnavailable),
                Some(st) => match model {
                    None => Err(ProbeError::SourceUnavailable),
                    Some(m) => Ok(
                        BatteryView {
                            power_level: level as u8,
                            status: status_of(st),
                            bat_name: name,
                            model: trim(m),
                        },
                    ),
                },
            },
        },
    }
}

pub open spec fn files_battery(name: Seq<char>, files: BatteryFiles) -> Result<BatteryView, ProbeError> {
    battery_of(name, opt_view(files.capacity), opt_view(files.status), opt_view(files.model))
}

/// What one directory entry contributes: nothing, a battery, or the error.
pub open spec fn entry_battery(e: PowerSupplyEntry) -> Result<Option<BatteryView>, ProbeError> {
    match e.name {
        None => Err(ProbeError::MalformedSource),
        Some(n) => if has_infix(n@, bat_marker()) {
            match files_battery(n@, e.files) {
                Ok(b) => Ok(Some(b)),
                Err(err) => Err(err),
            }
        } else {
            Ok(None)
        },
    }
}

/// The batteries of a directory listing, in listing order, or the first error.
pub open spec fn batteries_of(entries: Seq<PowerSupplyEntry>) -> Result<Seq<BatteryView>, ProbeError>
    decreases entries.len(),
{
    if entries.len() == 0 {
        Ok(Seq::empty())
    } else {
        match batteries_of(entries.drop_last()) {
            Err(e) => Err(e),
            Ok(prev) => match entry_battery(entries.last()) {
                Err(e) => Err(e),
                Ok(None) => Ok(prev),
                Ok(Some(b)) => Ok(prev.push(b)),
            },
        }
    }
}

pub open spec fn battery_views(v: Seq<BatteryInfo>) -> Seq<BatteryView> {
    v.map_values(|b: BatteryInfo| b@)
}

proof fn lemma_batteries_error_stays(entries: Seq<PowerSupplyEntry>, k: int, e: ProbeError)
    requires
        0 <= k <= entries.len(),
        batteries_of(entries.subrange(0, k)) == Err::<Seq<BatteryView>, ProbeError>(e),
    ensures
        batteries_of(entries) == Err::<Seq<BatteryView>, ProbeError>(e),
    decreases entries.len() - k,
{
    if k == entries.len() {
        assert(entries.subrange(0, k) =~= entries);
    } else {
        assert(entries.subrange(0, k + 1).drop_last() =~= entries.subrange(0, k));
        lemma_batteries_error_stays(entries, k + 1, e);
    }
}

/// Whether `e` is named, and its name does not mention `BAT`.
pub open spec fn other_device(e: PowerSupplyEntry) -> bool {
    match e.name {
        Some(n) => !has_infix(n@, bat_marker()),
        None => false,
    }
}

/// A listing in which no entry name mentions `BAT` holds no battery: the
/// probe succeeds with an empty list.
pub proof fn lemma_no_battery_entries(entries: Seq<PowerSupplyEntry>)
    requires
        forall|i: int| 0 <= i < entries.len() ==> other_device(#[trigger] entries[i]),
    ensures
        batteries_of(entries) == Ok::<Seq<BatteryView>, ProbeError>(Seq::empty()),
    decreases entries.len(),
{
    if entries.len() > 0 {
        let rest = entries.drop_last();
        assert forall|i: int| 0 <= i < rest.len() implies other_device(#[trigger] rest[i]) by {
            assert(rest[i] == entries[i]);
        }
        lemma_no_battery_entries(rest);
        assert(other_device(entries[entries.len() - 1]));
    }
}

/// Whether a power-supply entry name denotes a battery.
pub fn is_battery_name(name: &str) -> (r: bool)
    ensures
        r == has_infix(name@, bat_marker()),
{
    let n = chars_of(name);
    let marker: Vec<char> = vec!['B', 'A', 'T'];
    assert(marker@ =~= bat_marker());
    contains(&n, &marker)
}

/// Classifies the content of a status file.
pub fn parse_status(text: &str) -> (r: BatteryStatus)
    ensures
        r == status_of(text@),
{
    let t = trimmed(&chars_of(text));
    let charging: Vec<char> = vec!['C', 'h', 'a', 'r', 'g', 'i', 'n', 'g'];
    let discharging: Vec<char> = vec!['D', 'i', 's', 'c', 'h', 'a', 'r', 'g', 'i', 'n', 'g'];
    assert(charging@ =~= charging_word());
    assert(discharging@ =~= discharging_word());
    if same_chars(&t, &charging) {
        BatteryStatus::Charging
    } else if same_chars(&t, &discharging) {
        BatteryStatus::Discharging
    } else {
        BatteryStatus::Unknown
    }
}

/// Reads the content of a capacity file as a charge level.
pub fn parse_capacity(text: &str) -> (r: Option<u8>)
    ensures
        match r {
            Some(v) => capacity_of(text@) == Some(v as nat),
            None => capacity_of(text@) is None,
        },
{
    let t = trimmed(&chars_of(text));
    match parse_unsigned(&t, 255) {
        Some(v) => Some(v as u8),
        None => None,
    }
}

impl BatteryInfo {
    /// The record of the battery `bat_name`, from what its files held.
    pub fn new(bat_name: String, files: &BatteryFiles) -> (r: Result<BatteryInfo, ProbeError>)
        ensures
            match r {
                Ok(b) => files_battery(bat_name@, *files) == Ok::<BatteryView, ProbeError>(b@),
                Err(e) => files_battery(bat_name@, *files) == Err::<BatteryView, ProbeError>(e),
            },
    {
        let power_level = match &files.capacity {
            None => return Err(ProbeError::SourceUnavailable),
            Some(c) => match parse_capacity(c.as_str()) {
                None => return Err(ProbeError::MalformedSource),
                Some(v) => v,
            },
        };
        let status = match &files.status {
            None => return Err(ProbeError::SourceUnavailable),
            Some(s) => parse_status(s.as_str()),
        };
        let model = match &files.model {
            None => return Err(ProbeError::SourceUnavailable),
            Some(m) => {
                let t = trimmed(&chars_of(m.as_str()));
                string_of(t.as_slice())
            },
        };
        Ok(BatteryInfo { power_level, status, bat_name, model })
    }

    /// The batteries among the power-supply entries, in listing order;
    /// `listing` is `None` where the directory could not be listed.
    pub fn get_bats(listing: Option<Vec<PowerSupplyEntry>>) -> (r: Result<Vec<BatteryInfo>, ProbeError>)
        ensures
            match listing {
                None => r == Err::<Vec<BatteryInfo>, ProbeError>(ProbeError::SourceUnavailable),
                Some(entries) => match r {
                    Ok(v) => batteries_of(entries@) == Ok::<Seq<BatteryView>, ProbeError>(battery_views(v@)),
                    Err(e) => batteries_of(entries@) == Err::<Seq<BatteryView>, ProbeError>(e),
                },
            },
    {
        match listing {
            None => Err(ProbeError::SourceUnavailable),
            Some(entries) => Self::from_entries(&entries),
        }
    }

    /// The batteries among the entries of a listed directory, in order.
    pub fn from_entries(entries: &Vec<PowerSupplyEntry>) -> (r: Result<Vec<BatteryInfo>, ProbeError>)
        ensures
            match r {
                Ok(v) => batteries_of(entries@) == Ok::<Seq<BatteryView>, ProbeError>(battery_views(v@)),
                Err(e) => batteries_of(entries@) == Err::<Seq<BatteryView>, ProbeError>(e),
            },
    {
        let mut out: Vec<BatteryInfo> = Vec::new();
        let mut k: usize = 0;
        assert(entries@.subrange(0, 0) =~= Seq::<PowerSupplyEntry>::empty());
        assert(battery_views(out@) =~= Seq::<BatteryView>::empty());
        while k < entries.len()
            invariant
                k <= entries@.len(),
                batteries_of(entries@.subrange(0, k as int)) == Ok::<Seq<BatteryView>, ProbeError>(battery_views(out@)),
            decreases entries.len() - k,
        {
            let entry = &entries[k];
            let ghost pre = entries@.subrange(0, k as int);
            assert(entries@.subrange(0, k + 1).drop_last() =~= pre);
            assert(entries@.subrange(0, k + 1).last() == *entry);
            match &entry.name {
                None => {
                    proof {
                        lemma_batteries_error_stays(entries@, k + 1, ProbeError::MalformedSource);
                    }
                    return Err(ProbeError::MalformedSource);
                },
                Some(name) => {
                    if is_battery_name(name.as_str()) {
                        match BatteryInfo::new(name.clone(), &entry.files) {
                            Err(e) => {
                                proof {
                                    lemma_batteries_error_stays(entries@, k + 1, e);
                                }
                                return Err(e);
                            },
                            Ok(b) => {
                                let ghost prev = battery_views(out@);
                                out.push(b);
                                assert(battery_views(out@) =~= prev.push(b@));
                            },
                        }
                    }
                },
            }
            k = k + 1;
        }
        assert(entries@.subrange(0, entries@.len() as int) =~= entries@);
        Ok(out)
    }
}

} // verus!

verus! {

/// A capacity file holding the decimal writing of a level reads back as that
/// level when it fits in a byte, and is refused when it does not.
pub proof fn lemma_capacity_round_trip(n: nat)
    ensures
        n <= 255 ==> capacity_of(decimal_text(n)) == Some(n),
        n > 255 ==> capacity_of(decimal_text(n)) is None,
{
    lemma_decimal_text_reads_back(n);
}

} // verus!

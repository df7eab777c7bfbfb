//! The report's lines: the layout shared by every section and the text of
//! each record's lines.
use crate::battery::{BatteryInfo, BatteryStatus};
use crate::cpu::{CacheInfo, CacheType};
use crate::disk::{DiskInfo, PartitionInfo};
use crate::distro::DistroInfo;
use crate::gpu::GpuInfo;
use crate::memory::MemoryInfo;
use crate::text::{chars_of, decimal_text, digit_char, string_of};
use vstd::prelude::*;

verus! {

/// Width of the label column.
pub const LABEL_WIDTH: usize = 29;

/// `label` padded with spaces to the label column's width.
pub open spec fn padded(label: Seq<char>) -> Seq<char> {
    if label.len() < LABEL_WIDTH {
        label + Seq::new((LABEL_WIDTH - label.len()) as nat, |i: int| ' ')
    } else {
        label
    }
}

/// A report line: a tab and four spaces of indent, the padded label, the value.
pub open spec fn report_line(label: Seq<char>, value: Seq<char>) -> Seq<char> {
    seq!['\t', ' ', ' ', ' ', ' '] + padded(label) + value
}

fn append_all(out: &mut Vec<char>, s: &Vec<char>)
    ensures
        final(out)@ == old(out)@ + s@,
{
    let mut k: usize = 0;
    while k < s.len()
        invariant
            k <= s@.len(),
            out@ == old(out)@ + s@.subrange(0, k as int),
        decreases s.len() - k,
    {
        out.push(s[k]);
        k = k + 1;
        assert(out@ =~= old(out)@ + s@.subrange(0, k as int));
    }
    assert(s@.subrange(0, s@.len() as int) =~= s@);
}

/// Lays out one report line.
pub fn format_line(label: &str, value: &str) -> (r: String)
    ensures
        r@ == report_line(label@, value@),
{
    let line = line_chars(&chars_of(label), &chars_of(value));
    string_of(line.as_slice())
}

fn line_chars(l: &Vec<char>, value: &Vec<char>) -> (r: Vec<char>)
    ensures
        r@ == report_line(l@, value@),
{
    let mut out: Vec<char> = vec!['\t', ' ', ' ', ' ', ' '];
    append_all(&mut out, l);
    let ghost before = out@;
    let mut k: usize = l.len();
    while k < LABEL_WIDTH
        invariant
            l@.len() <= k <= LABEL_WIDTH || (l@.len() >= LABEL_WIDTH && k == l@.len()),
            out@ == before + Seq::new((k - l@.len()) as nat, |i: int| ' '),
        decreases LABEL_WIDTH - k,
    {
        out.push(' ');
        k = k + 1;
        assert(out@ =~= before + Seq::new((k - l@.len()) as nat, |i: int| ' '));
    }
    assert(out@ =~= seq!['\t', ' ', ' ', ' ', ' '] + padded(l@));
    append_all(&mut out, value);
    out
}

/// The decimal writing of `n`.
pub fn decimal_chars(n: u64) -> (r: Vec<char>)
    ensures
        r@ == decimal_text(n as nat),
    decreases n,
{
    if n < 10 {
        vec![digit(n)]
    } else {
        let mut r = decimal_chars(n / 10);
        r.push(digit(n % 10));
        r
    }
}

fn digit(d: u64) -> (c: char)
    requires
        d < 10,
    ensures
        c == digit_char(d as nat),
{
    if d == 0 { '0' }
    else if d == 1 { '1' }
    else if d == 2 { '2' }
    else if d == 3 { '3' }
    else if d == 4 { '4' }
    else if d == 5 { '5' }
    else if d == 6 { '6' }
    else if d == 7 { '7' }
    else if d == 8 { '8' }
    else { '9' }
}

/// An amount given in hundredths, written as a decimal number with its
/// trailing zero decimals left out (`150` is `1.5`, `1500` is `15`).
pub open spec fn amount_text(h: int) -> Seq<char> {
    let a: nat = if h < 0 { (-h) as nat } else { h as nat };
    let sign: Seq<char> = if h < 0 { seq!['-'] } else { Seq::empty() };
    let f: nat = a % 100;
    let decimals: Seq<char> = if f == 0 {
        Seq::empty()
    } else if f % 10 == 0 {
        seq!['.', digit_char(f / 10)]
    } else {
        seq!['.', digit_char(f / 10), digit_char(f % 10)]
    };
    sign + decimal_text(a / 100) + decimals
}

fn amount_chars(h: i64) -> (r: Vec<char>)
    ensures
        r@ == amount_text(h as int),
{
    if h < 0 {
        let mut r: Vec<char> = vec!['-'];
        append_all(&mut r, &unsigned_amount_chars((-(h as i128)) as u64));
        assert(r@ =~= amount_text(h as int));
        r
    } else {
        unsigned_amount_chars(h as u64)
    }
}

fn unsigned_amount_chars(a: u64) -> (r: Vec<char>)
    ensures
        r@ == amount_text(a as int),
{
    let mut r: Vec<char> = Vec::new();
    append_all(&mut r, &decimal_chars(a / 100));
    let f = a % 100;
    if f != 0 {
        r.push('.');
        r.push(digit(f / 10));
        if f % 10 != 0 {
            r.push(digit(f % 10));
        }
    }
    assert(r@ =~= amount_text(a as int));
    r
}

/// How a battery status is shown.
pub open spec fn status_word(s: BatteryStatus) -> Seq<char> {
    match s {
        BatteryStatus::Charging => "Charging"@,
        BatteryStatus::Discharging => "Discharging"@,
        BatteryStatus::Unknown => "Unknown"@,
    }
}

/// How a cache kind is shown.
pub open spec fn cache_type_word(t: CacheType) -> Seq<char> {
    match t {
        CacheType::Data => "Data"@,
        CacheType::Instruction => "Instruction"@,
        CacheType::Unified => "Unified"@,
        CacheType::Unknown => "Unknown"@,
    }
}

fn status_chars(s: BatteryStatus) -> (r: Vec<char>)
    ensures
        r@ == status_word(s),
{
    match s {
        BatteryStatus::Charging => chars_of("Charging"),
        BatteryStatus::Discharging => chars_of("Discharging"),
        BatteryStatus::Unknown => chars_of("Unknown"),
    }
}

fn cache_type_chars(t: CacheType) -> (r: Vec<char>)
    ensures
        r@ == cache_type_word(t),
{
    match t {
        CacheType::Data => chars_of("Data"),
        CacheType::Instruction => chars_of("Instruction"),
        CacheType::Unified => chars_of("Unified"),
        CacheType::Unknown => chars_of("Unknown"),
    }
}

/// The two lines of a battery: name and model, then status and charge.
pub fn battery_lines(b: &BatteryInfo) -> (r: Vec<String>)
    ensures
        r@.len() == 2,
        r@[0]@ == report_line("Battery ["@ + b.bat_name@ + "]"@, "Model: "@ + b.model@),
        r@[1]@ == report_line(
            Seq::empty(),
            "Status: "@ + status_word(b.status) + " ["@ + decimal_text(b.power_level as nat) + "%]"@,
        ),
{
    let mut label = chars_of("Battery [");
    append_all(&mut label, &chars_of(b.bat_name.as_str()));
    append_all(&mut label, &chars_of("]"));
    let mut value = chars_of("Model: ");
    append_all(&mut value, &chars_of(b.model.as_str()));
    let first = line_chars(&label, &value);
    let mut status = chars_of("Status: ");
    append_all(&mut status, &status_chars(b.status));
    append_all(&mut status, &chars_of(" ["));
    append_all(&mut status, &decimal_chars(b.power_level as u64));
    append_all(&mut status, &chars_of("%]"));
    let second = line_chars(&Vec::new(), &status);
    let mut r: Vec<String> = Vec::new();
    r.push(string_of(first.as_slice()));
    r.push(string_of(second.as_slice()));
    r
}

/// The line of a cache: level, size and kind.
pub fn cache_line(c: &CacheInfo) -> (r: String)
    ensures
        r@ == report_line(
            "CPU Cache"@,
            "L"@ + decimal_text(c.level as nat) + "  "@ + decimal_text(c.size as nat) + " KiB  ("@
                + cache_type_word(c.cache_type) + ")"@,
        ),
{
    let mut value = chars_of("L");
    append_all(&mut value, &decimal_chars(c.level as u64));
    append_all(&mut value, &chars_of("  "));
    append_all(&mut value, &decimal_chars(c.size as u64));
    append_all(&mut value, &chars_of(" KiB  ("));
    append_all(&mut value, &cache_type_chars(c.cache_type));
    append_all(&mut value, &chars_of(")"));
    string_of(line_chars(&chars_of("CPU Cache"), &value).as_slice())
}

/// The line of the display adapter.
pub fn gpu_line(g: &GpuInfo) -> (r: String)
    ensures
        r@ == report_line("GPU"@, g.vendor_name@ + " "@ + g.device_name@),
{
    let mut value = chars_of(g.vendor_name.as_str());
    append_all(&mut value, &chars_of(" "));
    append_all(&mut value, &chars_of(g.device_name.as_str()));
    string_of(line_chars(&chars_of("GPU"), &value).as_slice())
}

/// The line of the RAM: used, total and free amounts in GiB.
pub fn memory_line(m: &MemoryInfo) -> (r: String)
    ensures
        r@ == report_line(
            "RAM"@,
            amount_text(m.used_size as int) + " GiB/"@ + amount_text(m.total_size as int) + " GiB ("@
                + amount_text(m.free_size as int) + " GiB)"@,
        ),
{
    let mut value = amount_chars(m.used_size);
    append_all(&mut value, &chars_of(" GiB/"));
    append_all(&mut value, &amount_chars(m.total_size));
    append_all(&mut value, &chars_of(" GiB ("));
    append_all(&mut value, &amount_chars(m.free_size));
    append_all(&mut value, &chars_of(" GiB)"));
    string_of(line_chars(&chars_of("RAM"), &value).as_slice())
}

/// The aggregate line of the disks: primary device, free and total amounts.
pub fn disk_line(d: &DiskInfo) -> (r: String)
    ensures
        r@ == report_line(
            "Disk"@,
            "(/dev/"@ + d.mount_point@ + ") "@ + amount_text(d.free_size as int) + " GiB/"@
                + amount_text(d.total_size as int) + " GiB"@,
        ),
{
    let mut value = chars_of("(/dev/");
    append_all(&mut value, &chars_of(d.mount_point.as_str()));
    append_all(&mut value, &chars_of(") "));
    append_all(&mut value, &unsigned_amount_chars(d.free_size));
    append_all(&mut value, &chars_of(" GiB/"));
    append_all(&mut value, &unsigned_amount_chars(d.total_size));
    append_all(&mut value, &chars_of(" GiB"));
    string_of(line_chars(&chars_of("Disk"), &value).as_slice())
}

/// The line of one mounted filesystem.
pub fn partition_line(p: &PartitionInfo) -> (r: String)
    ensures
        r@ == report_line(
            Seq::empty(),
            "("@ + p.name@ + " -> "@ + p.mount_point@ + ") "@ + amount_text(p.size as int) + " GiB ("@
                + p.file_system@ + ")"@,
        ),
{
    let mut value = chars_of("(");
    append_all(&mut value, &chars_of(p.name.as_str()));
    append_all(&mut value, &chars_of(" -> "));
    append_all(&mut value, &chars_of(p.mount_point.as_str()));
    append_all(&mut value, &chars_of(") "));
    append_all(&mut value, &unsigned_amount_chars(p.size));
    append_all(&mut value, &chars_of(" GiB ("));
    append_all(&mut value, &chars_of(p.file_system.as_str()));
    append_all(&mut value, &chars_of(")"));
    string_of(line_chars(&Vec::new(), &value).as_slice())
}

/// The five lines of the system identity: OS, kernel, uptime, installation
/// date and shell.
pub fn distro_lines(d: &DistroInfo) -> (r: Vec<String>)
    ensures
        r@.len() == 5,
        r@[0]@ == report_line("OS"@, d.name@ + " "@ + d.build_id@ + " ["@ + d.arch@ + "]"@),
        r@[1]@ == report_line("Kernel"@, d.kernel_info.name@ + " "@ + d.kernel_info.version@),
        r@[2]@ == report_line(
            "Uptime"@,
            decimal_text(d.uptime_info.hours as nat) + " hours "@ + decimal_text(
                d.uptime_info.minutes as nat,
            ) + " mins"@,
        ),
        r@[3]@ == report_line("OS Installed"@, d.uptime_info.date_installation@),
        r@[4]@ == report_line("Shell"@, d.shell@),
{
    let mut os = chars_of(d.name.as_str());
    append_all(&mut os, &chars_of(" "));
    append_all(&mut os, &chars_of(d.build_id.as_str()));
    append_all(&mut os, &chars_of(" ["));
    append_all(&mut os, &chars_of(d.arch.as_str()));
    append_all(&mut os, &chars_of("]"));
    let mut kernel = chars_of(d.kernel_info.name.as_str());
    append_all(&mut kernel, &chars_of(" "));
    append_all(&mut kernel, &chars_of(d.kernel_info.version.as_str()));
    let mut uptime = decimal_chars(d.uptime_info.hours);
    append_all(&mut uptime, &chars_of(" hours "));
    append_all(&mut uptime, &decimal_chars(d.uptime_info.minutes));
    append_all(&mut uptime, &chars_of(" mins"));
    let mut r: Vec<String> = Vec::new();
    r.push(string_of(line_chars(&chars_of("OS"), &os).as_slice()));
    r.push(string_of(line_chars(&chars_of("Kernel"), &kernel).as_slice()));
    r.push(string_of(line_chars(&chars_of("Uptime"), &uptime).as_slice()));
    r.push(
        string_of(
            line_chars(&chars_of("OS Installed"), &chars_of(d.uptime_info.date_installation.as_str())).as_slice(),
        ),
    );
    r.push(string_of(line_chars(&chars_of("Shell"), &chars_of(d.shell.as_str())).as_slice()));
    r
}

} // verus!

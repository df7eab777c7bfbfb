use atlasfetch::disk::{get_mount_point, parse_to_gb, DiskInfo, DiskUsage, PartitionEntry, PartitionInfo};
use atlasfetch::distro::{oldest_change_time, DistroInfo, DistroSources, KernelInfo, UptimeInfo};
use atlasfetch::error::{ProbeError, SourceText};
use atlasfetch::gpu::{get_gpu_info, GpuInfo};
use atlasfetch::memory::{meminfo_lines, memory_gib, value_field, MeminfoLine, MemoryInfo};
use atlasfetch::report::format_line;

fn lines(text: &str) -> Vec<MeminfoLine> {
    meminfo_lines(text)
        .into_iter()
        .map(|line| {
            let kib = value_field(&line).and_then(|v| v.parse::<f64>().ok()).map(|k| k as u64).unwrap_or(0);
            MeminfoLine { text: line, kib }
        })
        .collect()
}

#[test]
fn memory_conversion_follows_the_memory_rule() {
    let text = "MemTotal:       16384000 kB\nMemFree:         1000000 kB\nMemAvailable:    8192000 kB\n";
    let m = MemoryInfo::new(Some(lines(text))).unwrap();
    assert_eq!(m.total_size, 1564);
    assert_eq!(m.free_size, 783);
    assert_eq!(m.used_size, 781);
    assert_eq!(memory_gib(16384000), 1564);
    assert_eq!(memory_gib(1048576), 100);
    assert_eq!(memory_gib(2097151), 202);
    assert_eq!(memory_gib(0), 0);
}

#[test]
fn swap_used_is_read_not_computed() {
    let text = "MemTotal: 2097152 kB\nSwapCached: 1048576 kB\nSwapTotal: 4194304 kB\nSwapFree: 3145728 kB\n";
    let m = MemoryInfo::new(Some(lines(text))).unwrap();
    assert_eq!(m.swap_info.total_size, 400);
    assert_eq!(m.swap_info.free_size, 300);
    assert_eq!(m.swap_info.used_size, 100);
    assert_eq!(m.total_size, 200);
    assert_eq!(m.free_size, 0);
    assert_eq!(m.used_size, 200);
}

#[test]
fn memory_keys_missing_or_malformed_count_as_zero() {
    let text = "A: x kB\nC\nB: 2097152 kB\nB: 1048576 kB\n";
    assert_eq!(MemoryInfo::from_keys(&lines(text), "A", "B", Some("C")), (0, 200, 0));
    assert_eq!(MemoryInfo::from_keys(&lines(text), "A", "B", None), (0, 200, -200));
    assert_eq!(MemoryInfo::new(None).unwrap_err(), ProbeError::SourceUnavailable);
}

#[test]
fn memory_values_written_as_floats() {
    let text = "MemTotal: 2097152.0 kB\nMemAvailable: 2e6 kB\n";
    let m = MemoryInfo::new(Some(lines(text))).unwrap();
    assert_eq!(m.total_size, 200);
    assert_eq!(m.free_size, memory_gib(2_000_000));
    assert_eq!(value_field("MemTotal: 2097152.0 kB"), Some("2097152.0".to_string()));
    assert_eq!(value_field("MemTotal:"), None);
    assert_eq!(meminfo_lines("a\nb\n"), vec!["a".to_string(), "b".to_string(), String::new()]);
}

#[test]
fn disk_conversion_follows_the_disk_rule() {
    assert_eq!(parse_to_gb(1_610_612_736, true), 150);
    assert_eq!(parse_to_gb(3_670_016, false), 350);
    assert_eq!(parse_to_gb(1_073_741_823, true), 99);
    assert_eq!(parse_to_gb(0, true), 0);
    assert_eq!(parse_to_gb(u64::MAX, true), 1717986918399);
}

#[test]
fn mount_point_is_fourth_field_of_third_line() {
    let text = "major minor  #blocks  name\n\n 259        0  500107608 nvme0n1\n 259        1     524288 nvme0n1p1\n";
    assert_eq!(get_mount_point(text).unwrap(), "nvme0n1");
    assert_eq!(get_mount_point("major minor\n\n").unwrap_err(), ProbeError::IncompleteSource);
    assert_eq!(get_mount_point("a\nb\n 1 2 3\n").unwrap_err(), ProbeError::IncompleteSource);
}

#[test]
fn disk_record_merges_its_sources() {
    let entries = vec![PartitionEntry {
        name: Some("/dev/sda2".to_string()),
        available_space: 1_610_612_736,
        mount_point: Some("/".to_string()),
        file_system: Some("ext4".to_string()),
    }];
    let text = "major minor  #blocks  name\n\n   8        0  500107608 sda\n";
    let d = DiskInfo::new(Some(text.to_string()), &entries, Some(DiskUsage { total: 3_670_016, free: 1_048_576 })).unwrap();
    assert_eq!(d.mount_point, "sda");
    assert_eq!(d.total_size, 350);
    assert_eq!(d.free_size, 100);
    assert_eq!(d.partitions.len(), 1);
    assert_eq!(d.partitions[0].size, 150);
    assert_eq!(d.partitions[0].file_system, "ext4");
    assert_eq!(DiskInfo::new(Some(text.to_string()), &entries, None).unwrap_err(), ProbeError::SourceUnavailable);
    assert_eq!(DiskInfo::new(None, &entries, None).unwrap_err(), ProbeError::SourceUnavailable);
    let bad = vec![PartitionEntry { name: None, available_space: 0, mount_point: Some("/".to_string()), file_system: None }];
    assert_eq!(PartitionInfo::build(&bad).unwrap_err(), ProbeError::MalformedSource);
}

const LSPCI: &str = "Slot:\t00:02.0\nClass:\tVGA compatible controller\nVendor:\tACME Corp\nDevice:\tTurbo 9000\nSVendor:\tOther\nRev:\t07\n";

#[test]
fn gpu_vendor_and_device_are_found() {
    let (v, d) = get_gpu_info(LSPCI).unwrap();
    assert_eq!(v, "ACME Corp");
    assert_eq!(d, "Turbo 9000");
    let g = GpuInfo::new(SourceText::Text(LSPCI.to_string())).unwrap();
    assert_eq!(g.vendor_name, "ACME Corp");
    assert_eq!(g.device_name, "Turbo 9000");
}

#[test]
fn gpu_output_without_device_fails() {
    let text = "Slot:\t00:02.0\nVendor:\tACME Corp\nSDevice:\tx\n";
    assert_eq!(get_gpu_info(text).unwrap_err(), ProbeError::IncompleteSource);
    assert_eq!(GpuInfo::new(SourceText::Missing).unwrap_err(), ProbeError::SourceUnavailable);
    assert_eq!(GpuInfo::new(SourceText::Unreadable).unwrap_err(), ProbeError::MalformedSource);
}

#[test]
fn gpu_first_occurrence_wins() {
    let text = "Vendor: First\nVendor: Second\nDevice:Card\n";
    assert_eq!(get_gpu_info(text).unwrap(), ("First".to_string(), "Card".to_string()));
}

#[test]
fn os_release_name_loses_its_quotes() {
    let text = "PRETTY_NAME=\"Ubuntu 22.04.3 LTS\"\nNAME=\"Ubuntu\"\nVERSION_ID=\"22.04\"\nBUILD_ID=22.04\n";
    let (name, build) = DistroInfo::parse_os_release(text);
    assert_eq!(name, "Ubuntu");
    assert_eq!(build, "22.04");
    let crlf = "NAME=\"Arch Linux\"\r\nBUILD_ID=rolling\r\n";
    assert_eq!(DistroInfo::parse_os_release(crlf), ("Arch Linux".to_string(), "rolling".to_string()));
    assert_eq!(DistroInfo::parse_os_release("ID=x\n"), (String::new(), String::new()));
}

#[test]
fn installation_date_is_none_when_no_path_is_readable() {
    let u = UptimeInfo::new(Ok(62), &vec![None, None, None, None]).unwrap();
    assert_eq!(u.hours, 1);
    assert_eq!(u.minutes, 2);
    assert_eq!(u.date_installation, "None");
    let zero = UptimeInfo::get_date_installation(&vec![Some(0), Some(-5), None, None]);
    assert_eq!(zero, "None");
}

#[test]
fn installation_date_uses_oldest_change_time() {
    assert_eq!(oldest_change_time(&vec![Some(1_700_000_000), None, Some(1_600_000_000), Some(0)]), Some(1_600_000_000));
    assert_eq!(oldest_change_time(&vec![]), None);
    let date = UptimeInfo::get_date_installation(&vec![Some(1_600_000_000), None, None, None]);
    assert_ne!(date, "None");
    assert_eq!(date.len(), 19);
    assert!(date.starts_with("2020-09-1"));
}

#[test]
fn uptime_token_and_failures() {
    assert_eq!(UptimeInfo::uptime_token("3725.51 7000.02\n"), Ok("3725.51".to_string()));
    assert_eq!(UptimeInfo::uptime_token("1e3 5"), Ok("1e3".to_string()));
    assert_eq!(UptimeInfo::uptime_token("  \n"), Err(ProbeError::IncompleteSource));
    assert_eq!(UptimeInfo::new(Err(ProbeError::MalformedSource), &vec![]).unwrap_err(), ProbeError::MalformedSource);
    let u = UptimeInfo::new(Ok(1439), &vec![Some(1_600_000_000)]).unwrap();
    assert_eq!((u.hours, u.minutes), (23, 59));
    assert_ne!(u.date_installation, "None");
}

#[test]
fn kernel_name_and_version_are_positional() {
    let k = KernelInfo::new(Some("Linux version 6.1.0-13-amd64 (debian-kernel@lists.debian.org) #1 SMP\n".to_string())).unwrap();
    assert_eq!(k.name, "Linux");
    assert_eq!(k.version, "6.1.0-13-amd64");
    let short = KernelInfo::new(Some("Linux".to_string())).unwrap();
    assert_eq!(short.version, "");
    assert_eq!(KernelInfo::new(None).unwrap_err(), ProbeError::SourceUnavailable);
}

fn sources() -> DistroSources {
    DistroSources {
        os_release: Some("NAME=\"Ubuntu\"\nBUILD_ID=22.04\n".to_string()),
        arch_output: SourceText::Text("x86_64\n".to_string()),
        shell: Some("/bin/bash".to_string()),
        uptime_minutes: Ok(121),
        change_times: vec![None, None, None, None],
        version: Some("Linux version 6.5.0 (x) #1\n".to_string()),
    }
}

#[test]
fn distro_record_combines_its_sources() {
    let d = DistroInfo::new(sources()).unwrap();
    assert_eq!(d.name, "Ubuntu");
    assert_eq!(d.build_id, "22.04");
    assert_eq!(d.arch, "x86_64");
    assert_eq!(d.shell, "/bin/bash");
    assert_eq!(d.uptime_info.hours, 2);
    assert_eq!(d.uptime_info.minutes, 1);
    assert_eq!(d.uptime_info.date_installation, "None");
    assert_eq!(d.kernel_info.version, "6.5.0");
    let mut no_shell = sources();
    no_shell.shell = None;
    assert_eq!(DistroInfo::new(no_shell).unwrap_err(), ProbeError::SourceUnavailable);
    let mut no_release = sources();
    no_release.os_release = None;
    assert_eq!(DistroInfo::new(no_release).unwrap_err(), ProbeError::SourceUnavailable);
}

#[test]
fn report_lines_pad_the_label() {
    assert_eq!(format_line("CPU Model", "x"), format!("\t    {:<29}{}", "CPU Model", "x"));
    assert_eq!(format_line("", "Status"), format!("\t    {}Status", " ".repeat(29)));
    let long = "L".repeat(40);
    assert_eq!(format_line(&long, "v"), format!("\t    {}v", long));
}

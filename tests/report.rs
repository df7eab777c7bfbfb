use atlasfetch::battery::{BatteryInfo, BatteryStatus};
use atlasfetch::cpu::{CacheInfo, CacheType};
use atlasfetch::disk::{DiskInfo, PartitionInfo};
use atlasfetch::distro::{DistroInfo, KernelInfo, UptimeInfo};
use atlasfetch::gpu::GpuInfo;
use atlasfetch::memory::{MemoryInfo, SwapInfo};
use atlasfetch::report::{battery_lines, cache_line, decimal_chars, disk_line, distro_lines, gpu_line, memory_line, partition_line};

fn line(label: &str, value: &str) -> String {
    format!("\t    {:<29}{}", label, value)
}

#[test]
fn battery_section_lines() {
    let b = BatteryInfo { power_level: 87, status: BatteryStatus::Discharging, bat_name: "BAT0".to_string(), model: "5B10W13930".to_string() };
    let lines = battery_lines(&b);
    assert_eq!(lines, vec![line("Battery [BAT0]", "Model: 5B10W13930"), line("", "Status: Discharging [87%]")]);
    let u = BatteryInfo { power_level: 0, status: BatteryStatus::Unknown, bat_name: "BAT1".to_string(), model: String::new() };
    assert_eq!(battery_lines(&u)[1], line("", "Status: Unknown [0%]"));
}

#[test]
fn cache_and_gpu_lines() {
    let c = CacheInfo { size: 32, level: 1, cache_type: CacheType::Instruction };
    assert_eq!(cache_line(&c), line("CPU Cache", "L1  32 KiB  (Instruction)"));
    let g = GpuInfo { vendor_name: "ACME Corp".to_string(), device_name: "Turbo 9000".to_string() };
    assert_eq!(gpu_line(&g), line("GPU", "ACME Corp Turbo 9000"));
}

#[test]
fn memory_line_shows_gib_amounts() {
    let m = MemoryInfo {
        total_size: 1564,
        free_size: 783,
        used_size: 781,
        swap_info: SwapInfo { total_size: 0, free_size: 0, used_size: 0 },
    };
    assert_eq!(memory_line(&m), line("RAM", "7.81 GiB/15.64 GiB (7.83 GiB)"));
    let n = MemoryInfo { total_size: 1500, free_size: 5, used_size: -20, swap_info: m.swap_info };
    assert_eq!(memory_line(&n), line("RAM", "-0.2 GiB/15 GiB (0.05 GiB)"));
}

#[test]
fn amounts_match_float_display() {
    for h in [0i64, 1, 5, 10, 99, 100, 150, 1564, 12345, 100000, 781] {
        let d = DiskInfo { total_size: h as u64, free_size: 0, mount_point: "sda".to_string(), partitions: Vec::new() };
        assert_eq!(disk_line(&d), line("Disk", &format!("(/dev/sda) 0 GiB/{} GiB", h as f64 / 100.0)));
    }
}

#[test]
fn partition_line_shows_available_space() {
    let p = PartitionInfo { name: "/dev/sda2".to_string(), size: 150, mount_point: "/".to_string(), file_system: "ext4".to_string() };
    assert_eq!(partition_line(&p), line("", "(/dev/sda2 -> /) 1.5 GiB (ext4)"));
}

#[test]
fn distro_section_lines() {
    let d = DistroInfo {
        name: "Ubuntu".to_string(),
        arch: "x86_64".to_string(),
        shell: "/bin/zsh".to_string(),
        build_id: "22.04".to_string(),
        uptime_info: UptimeInfo { hours: 5, minutes: 7, date_installation: "None".to_string() },
        kernel_info: KernelInfo { name: "Linux".to_string(), version: "6.5.0".to_string() },
    };
    assert_eq!(
        distro_lines(&d),
        vec![
            line("OS", "Ubuntu 22.04 [x86_64]"),
            line("Kernel", "Linux 6.5.0"),
            line("Uptime", "5 hours 7 mins"),
            line("OS Installed", "None"),
            line("Shell", "/bin/zsh"),
        ]
    );
}

#[test]
fn decimal_writing() {
    assert_eq!(decimal_chars(0), vec!['0']);
    assert_eq!(decimal_chars(907), vec!['9', '0', '7']);
    assert_eq!(decimal_chars(u64::MAX).iter().collect::<String>(), u64::MAX.to_string());
}

use atlasfetch::battery::{parse_capacity, parse_status, BatteryFiles, BatteryInfo, BatteryStatus, PowerSupplyEntry};
use atlasfetch::cpu::{get_frequency, get_model, get_siblings, CacheEntry, CacheFiles, CacheInfo, CacheType, CpuInfo};
use atlasfetch::error::{ProbeError, SourceText};

fn files(capacity: Option<&str>, status: Option<&str>, model: Option<&str>) -> BatteryFiles {
    BatteryFiles {
        capacity: capacity.map(|s| s.to_string()),
        status: status.map(|s| s.to_string()),
        model: model.map(|s| s.to_string()),
    }
}

fn entry(name: &str, f: BatteryFiles) -> PowerSupplyEntry {
    PowerSupplyEntry { name: Some(name.to_string()), files: f }
}

fn cache(name: &str, size: &str, level: &str, kind: &str) -> CacheEntry {
    CacheEntry {
        name: Some(name.to_string()),
        files: CacheFiles {
            size: Some(size.to_string()),
            level: Some(level.to_string()),
            cache_type: Some(kind.to_string()),
        },
    }
}

#[test]
fn capacity_round_trips_for_levels() {
    for n in 0..=100u8 {
        assert_eq!(parse_capacity(&format!("{}\n", n)), Some(n));
    }
    assert_eq!(parse_capacity("255"), Some(255));
    assert_eq!(parse_capacity("+42"), Some(42));
}

#[test]
fn capacity_out_of_byte_range_is_refused() {
    assert_eq!(parse_capacity("256"), None);
    assert_eq!(parse_capacity("1000"), None);
    assert_eq!(parse_capacity("-1"), None);
    assert_eq!(parse_capacity(""), None);
    assert_eq!(parse_capacity("4 2"), None);
}

#[test]
fn status_strings_are_classified_exactly() {
    assert_eq!(parse_status("Charging\n"), BatteryStatus::Charging);
    assert_eq!(parse_status("Discharging"), BatteryStatus::Discharging);
    assert_eq!(parse_status("Full\n"), BatteryStatus::Unknown);
    assert_eq!(parse_status("Not charging"), BatteryStatus::Unknown);
    assert_eq!(parse_status("charging"), BatteryStatus::Unknown);
    assert_eq!(parse_status(""), BatteryStatus::Unknown);
}

#[test]
fn no_battery_devices_give_an_empty_list() {
    let listing = vec![entry("AC", files(None, None, None)), entry("ucsi-source-psy-USBC000:001", files(None, None, None))];
    let r = BatteryInfo::get_bats(Some(listing)).unwrap();
    assert!(r.is_empty());
    assert!(BatteryInfo::get_bats(Some(Vec::new())).unwrap().is_empty());
}

#[test]
fn unreadable_power_supply_directory_fails() {
    assert_eq!(BatteryInfo::get_bats(None).unwrap_err(), ProbeError::SourceUnavailable);
}

#[test]
fn batteries_are_read_in_listing_order() {
    let listing = vec![
        entry("BAT1", files(Some("80\n"), Some("Charging\n"), Some("  Model B \n"))),
        entry("AC", files(None, None, None)),
        entry("BAT0", files(Some("7"), Some("Discharging"), Some("Model A"))),
    ];
    let r = BatteryInfo::get_bats(Some(listing)).unwrap();
    assert_eq!(r.len(), 2);
    assert_eq!(r[0].bat_name, "BAT1");
    assert_eq!(r[0].power_level, 80);
    assert_eq!(r[0].status, BatteryStatus::Charging);
    assert_eq!(r[0].model, "Model B");
    assert_eq!(r[1].bat_name, "BAT0");
    assert_eq!(r[1].power_level, 7);
    assert_eq!(r[1].status, BatteryStatus::Discharging);
}

#[test]
fn battery_file_failures_stop_the_probe() {
    let bad = vec![entry("BAT0", files(Some("abc"), Some("Full"), Some("m")))];
    assert_eq!(BatteryInfo::get_bats(Some(bad)).unwrap_err(), ProbeError::MalformedSource);
    let missing = vec![entry("BAT0", files(None, Some("Full"), Some("m")))];
    assert_eq!(BatteryInfo::get_bats(Some(missing)).unwrap_err(), ProbeError::SourceUnavailable);
    let no_model = vec![entry("BAT0", files(Some("50"), Some("Full"), None))];
    assert_eq!(BatteryInfo::get_bats(Some(no_model)).unwrap_err(), ProbeError::SourceUnavailable);
    let no_name = vec![PowerSupplyEntry { name: None, files: files(None, None, None) }];
    assert_eq!(BatteryInfo::get_bats(Some(no_name)).unwrap_err(), ProbeError::MalformedSource);
}

#[test]
fn caches_come_out_sorted_by_level() {
    let listing = vec![
        cache("index3", "8192K\n", "3\n", "Unified\n"),
        cache("uevent", "", "", ""),
        cache("index0", "32K\n", "1\n", "Data\n"),
        cache("index2", "512K\n", "2\n", "Unified\n"),
        cache("index1", "32K\n", "1\n", "Instruction\n"),
    ];
    let r = CacheInfo::get_cache_indexes(Some(listing)).unwrap();
    let levels: Vec<u8> = r.iter().map(|c| c.level).collect();
    assert_eq!(levels, vec![1, 1, 2, 3]);
    assert_eq!(r[0].cache_type, CacheType::Data);
    assert_eq!(r[1].cache_type, CacheType::Instruction);
    assert_eq!(r[2].size, 512);
    assert_eq!(r[3].size, 8192);
}

#[test]
fn cache_fields_are_parsed() {
    let one = vec![cache("index0", "48K", "1", "Mystery")];
    let r = CacheInfo::get_cache_indexes(Some(one)).unwrap();
    assert_eq!(r[0], CacheInfo { size: 48, level: 1, cache_type: CacheType::Unknown });
    let bad = vec![cache("index0", "48M", "1", "Data")];
    assert_eq!(CacheInfo::get_cache_indexes(Some(bad)).unwrap_err(), ProbeError::MalformedSource);
    assert_eq!(CacheInfo::get_cache_indexes(None).unwrap_err(), ProbeError::SourceUnavailable);
}

const CPUINFO: &str = "processor\t: 0\nvendor_id\t: GenuineIntel\nmodel name\t: Intel(R) Core(TM) i7-8550U CPU @ 1.80GHz\nsiblings\t: 8\n\nprocessor\t: 1\nmodel name\t: other\nsiblings\t: 4\n";

#[test]
fn model_and_siblings_come_from_first_lines() {
    assert_eq!(get_model(CPUINFO), "Intel(R) Core(TM) i7-8550U CPU @ 1.80GHz");
    assert_eq!(get_siblings(CPUINFO), Ok(8));
    assert_eq!(get_model("processor: 0\n"), "");
    assert_eq!(get_siblings("processor: 0\n"), Err(ProbeError::IncompleteSource));
    assert_eq!(get_siblings("siblings : many\n"), Err(ProbeError::MalformedSource));
}

#[test]
fn frequency_does_not_fall_through_after_open() {
    let first_bad = vec![SourceText::Unreadable, SourceText::Text("3600000\n".to_string())];
    assert_eq!(get_frequency(&first_bad), Err(ProbeError::MalformedSource));
    let first_missing = vec![SourceText::Missing, SourceText::Text(" 3600000\n".to_string())];
    assert_eq!(get_frequency(&first_missing), Ok("3600000".to_string()));
    let float_text = vec![SourceText::Missing, SourceText::Text("3.4e6\n".to_string())];
    assert_eq!(get_frequency(&float_text), Ok("3.4e6".to_string()));
    assert_eq!(get_frequency(&vec![SourceText::Missing, SourceText::Missing]), Err(ProbeError::SourceUnavailable));
}

#[test]
fn cpu_record_combines_all_sources() {
    let freq = vec![SourceText::Text("4000000\n".to_string())];
    let caches = vec![cache("index1", "256K", "2", "Unified"), cache("index0", "32K", "1", "Data")];
    let cpu = CpuInfo::new(Some(CPUINFO.to_string()), &freq, Some(caches)).unwrap();
    assert_eq!(cpu.siblings_count, 8);
    assert_eq!(cpu.max_frequency, "4000000");
    assert_eq!(cpu.cache_list[0].level, 1);
    assert_eq!(cpu.cache_list[1].level, 2);
    assert_eq!(CpuInfo::new(None, &freq, None).unwrap_err(), ProbeError::SourceUnavailable);
    assert_eq!(CpuInfo::new(Some(CPUINFO.to_string()), &vec![], None).unwrap_err(), ProbeError::SourceUnavailable);
}

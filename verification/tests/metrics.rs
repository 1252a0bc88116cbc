use serverhud::metrics::{
    bytes_to_gib, disk_line, interface_names_of, kb_to_mib, load_line, memory_line,
    mount_points_of, network_line, DiskInfo, InterfaceInfo, LoadAverage,
};

const GIB: u64 = 1 << 30;

fn disk(mount_point: &str, total_space: u64, available_space: u64) -> DiskInfo {
    DiskInfo { mount_point: mount_point.to_string(), total_space, available_space }
}

#[test]
fn kibibytes_become_decimal_megabytes() {
    assert_eq!(kb_to_mib(0), 0);
    assert_eq!(kb_to_mib(999), 0);
    assert_eq!(kb_to_mib(1_000), 1);
    assert_eq!(kb_to_mib(1_024), 1);
    assert_eq!(kb_to_mib(524_288), 524);
    assert_eq!(kb_to_mib(1_048_576), 1_048);
    assert_eq!(kb_to_mib(16_000_000), 16_000);
}

#[test]
fn each_division_rounds_down() {
    // 1999 * 1024 / 1000 is 2046, and 2046 / 1024 is 1.
    assert_eq!(kb_to_mib(1_999), 1);
    // 2000 * 1024 / 1000 is 2048, and 2048 / 1024 is 2.
    assert_eq!(kb_to_mib(2_000), 2);
    // 1001 * 1024 / 1000 is 1025 and not 1025.024.
    assert_eq!(kb_to_mib(1_001), 1);
}

#[test]
fn conversion_does_not_overflow() {
    let expected = (u64::MAX as u128 * 1024 / 1000 / 1024) as u64;
    assert_eq!(kb_to_mib(u64::MAX), expected);
    assert_eq!(expected, 18_446_744_073_709_551);
}

#[test]
fn memory_line_of_one_gibibyte_half_available() {
    assert_eq!(memory_line(1_048_576, 524_288), "Mem: 524/1048 M");
}

#[test]
fn memory_is_converted_before_it_is_subtracted() {
    // 1999 kB and 1000 kB are 1 MB each, so nothing is in use, although
    // the difference of 999 kB would round to 0 MB as well; 2000 kB and
    // 999 kB are 2 MB and 0 MB, so 2 MB are in use, not 1.
    assert_eq!(memory_line(1_999, 1_000), "Mem: 0/1 M");
    assert_eq!(memory_line(2_000, 999), "Mem: 2/2 M");
}

#[test]
fn memory_line_edge_cases() {
    assert_eq!(memory_line(0, 0), "Mem: 0/0 M");
    assert_eq!(memory_line(8_000_000, 8_000_000), "Mem: 0/8000 M");
    assert_eq!(memory_line(8_000_000, 0), "Mem: 8000/8000 M");
    assert_eq!(memory_line(u64::MAX, 0), "Mem: 18446744073709551/18446744073709551 M");
}

#[test]
fn bytes_become_whole_gibibytes() {
    assert_eq!(bytes_to_gib(0), 0);
    assert_eq!(bytes_to_gib(GIB - 1), 0);
    assert_eq!(bytes_to_gib(GIB), 1);
    assert_eq!(bytes_to_gib(500 * GIB + 12_345), 500);
    assert_eq!(bytes_to_gib(u64::MAX), 17_179_869_183);
}

#[test]
fn disk_line_shows_used_and_total() {
    assert_eq!(disk_line(&disk("/", 500 * GIB, 200 * GIB)), "/ 300/500 G");
    assert_eq!(disk_line(&disk("/mnt/data", 4_000 * GIB, 1 * GIB)), "/mnt/data 3999/4000 G");
}

#[test]
fn disk_sizes_are_shifted_before_they_are_subtracted() {
    // 2.9 GiB of 3.5 GiB free: 3 - 2 = 1, although only 0.6 GiB are in use.
    let total = 3 * GIB + GIB / 2;
    let available = 2 * GIB + 9 * (GIB / 10);
    assert_eq!(disk_line(&disk("/a", total, available)), "/a 1/3 G");
}

#[test]
fn disk_usage_is_never_negative() {
    assert_eq!(disk_line(&disk("/odd", 10 * GIB, 12 * GIB)), "/odd 0/10 G");
    assert_eq!(disk_line(&disk("/zero", 0, 0)), "/zero 0/0 G");
    assert_eq!(disk_line(&disk("", 0, u64::MAX)), " 0/0 G");
}

#[test]
fn network_line_shows_up_and_down() {
    let net = InterfaceInfo {
        name: "eth0".to_string(),
        up: "1.5".to_string(),
        down: "12.0".to_string(),
    };
    assert_eq!(network_line(&net), "eth0 1.5/12.0 M");
}

#[test]
fn load_line_shows_three_averages() {
    let load = LoadAverage {
        one: "0.42".to_string(),
        five: "1.00".to_string(),
        fifteen: "12.34".to_string(),
    };
    assert_eq!(load_line(&load), "CPU: 0.42 1.00 12.34");
}

#[test]
fn names_are_copied_in_order() {
    let disks = vec![disk("/b", 0, 0), disk("/a", 0, 0), disk("/b", 1, 1)];
    assert_eq!(mount_points_of(&disks), vec!["/b", "/a", "/b"]);
    let nets = vec![
        InterfaceInfo { name: "lo".to_string(), up: String::new(), down: String::new() },
        InterfaceInfo { name: "eth1".to_string(), up: String::new(), down: String::new() },
    ];
    assert_eq!(interface_names_of(&nets), vec!["lo", "eth1"]);
    assert!(mount_points_of(&Vec::new()).is_empty());
}

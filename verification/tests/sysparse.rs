use xtop::sysparse::{
    gpu_csv_rows, inet6_entries, interface_addresses, is_battery_entry, is_drm_card, kill_allowed, mount_entries,
    mount_options_for, parse_u64, process_run_time, thread_count,
};

#[test]
fn numbers_parse_like_rust() {
    for s in ["0", "42", "+7", "", "+", "-1", "18446744073709551615", "18446744073709551616", "12a", " 1", "007"] {
        assert_eq!(parse_u64(s), s.parse::<u64>().ok(), "{s:?}");
    }
}

#[test]
fn threads_from_proc_status() {
    let status = "Name:\tbash\nState:\tS (sleeping)\nThreads:\t12 \nThreads:\t3\n";
    assert_eq!(thread_count(status), 12);
    assert_eq!(thread_count("Name:\tx\nThreads: 4\n"), 0);
    assert_eq!(thread_count("Threads:\tmany\n"), 0);
    assert_eq!(thread_count(""), 0);
}

#[test]
fn mount_options_from_mountinfo() {
    let mi = "22 1 8:1 / / rw,relatime shared:1 - ext4 /dev/sda1 rw\n\
              25 22 0:5 / /dev rw,nosuid - devtmpfs udev rw\n\
              short line\n\
              30 22 8:2 / / ro,noatime - ext4 /dev/sda2 ro\n";
    let entries = mount_entries(mi);
    assert_eq!(entries.len(), 3);
    assert_eq!(entries[1], ("/dev".to_string(), "rw,nosuid".to_string()));
    assert_eq!(mount_options_for(&entries, "/"), "ro,noatime");
    assert_eq!(mount_options_for(&entries, "/dev"), "rw,nosuid");
    assert_eq!(mount_options_for(&entries, "/home"), "");
}

#[test]
fn ipv6_addresses_from_if_inet6() {
    let text = "fe80000000000000021122fffe334455 02 40 20 80     eth0\n\
                00000000000000000000000000000001 01 80 10 80       lo\n\
                20010db800000000000000000000000a 02 40 00 80     eth0\n\
                badline\n";
    let entries = inet6_entries(text);
    assert_eq!(entries.len(), 3);
    // The fifth word of a line names the interface (in the kernel's layout
    // it is the flags column, so real lines group by their flags).
    assert_eq!(entries[0], ("80".to_string(), "fe80:0:0:0:211:22ff:fe33:4455".to_string()));
    assert_eq!(entries[1], ("80".to_string(), "0:0:0:0:0:0:0:1".to_string()));
    assert_eq!(
        interface_addresses(&entries, "80"),
        ["fe80:0:0:0:211:22ff:fe33:4455", "0:0:0:0:0:0:0:1", "2001:db8:0:0:0:0:0:a"]
    );
    let named = inet6_entries("fe80000000000000021122fffe334455 2 64 32 eth1\n");
    assert_eq!(interface_addresses(&named, "eth1"), ["fe80:0:0:0:211:22ff:fe33:4455"]);
    assert!(interface_addresses(&entries, "wlan0").is_empty());
    // Groups that are not hexadecimal count as zero.
    let odd = inet6_entries("zz80000000000000000000000000000G 1 2 3 x\n");
    assert_eq!(odd[0].1, "0:0:0:0:0:0:0:0");
}

#[test]
fn gpu_rows_from_nvidia_smi() {
    let out = "NVIDIA GeForce RTX 3080, 35, 10240, 2048, 61\nbad, line\nTesla T4, 0, x, 15, 40\n";
    let rows = gpu_csv_rows(out);
    assert_eq!(rows.len(), 2);
    assert_eq!(rows[0].name, "NVIDIA GeForce RTX 3080");
    assert_eq!(rows[0].usage, "35");
    assert_eq!(rows[0].memory_total, 10240 * 1024 * 1024);
    assert_eq!(rows[0].memory_used, 2048 * 1024 * 1024);
    assert_eq!(rows[0].temperature, "61");
    assert_eq!(rows[1].memory_total, 0);
    assert_eq!(rows[1].memory_used, 15 * 1024 * 1024);
}

#[test]
fn device_entries() {
    assert!(is_drm_card("card0"));
    assert!(!is_drm_card("card0-HDMI-A-1"));
    assert!(!is_drm_card("renderD128"));
    assert!(is_battery_entry("BAT0"));
    assert!(!is_battery_entry("AC"));
}

#[test]
fn run_time_and_kill_permission() {
    assert_eq!(process_run_time(1000, 400), 600);
    assert_eq!(process_run_time(1000, 0), 0);
    assert_eq!(process_run_time(100, 400), 0);
    assert!(kill_allowed(Some("1000"), Some("1000")));
    assert!(!kill_allowed(Some("1000"), Some("0")));
    assert!(kill_allowed(None, Some("0")));
    assert!(kill_allowed(Some("1000"), None));
}

use desktop_overlay::gpu::GpuData;
use desktop_overlay::monitor::{
    cpu_mhz_field, format_cpu_freq, format_disk, format_host, format_memory, format_uptime,
    is_boot_efi_path, is_same_path, read_cpu_freq, read_cpu_usage, read_disks, read_network_download,
    read_network_upload, read_processes_count, read_ram, read_swap, DiskInfo, MonitorState, NetworkInfo,
    SystemReading,
};

fn disk(fs: &str, mount: &str, total: u64, avail: u64) -> DiskInfo {
    DiskInfo {
        file_system: fs.to_string(),
        mount_point: mount.to_string(),
        total_space: total,
        available_space: avail,
    }
}

fn net(name: &str, rx: u64, tx: u64) -> NetworkInfo {
    NetworkInfo { name: name.to_string(), total_received: rx, total_transmitted: tx }
}

fn reading(disks: Vec<DiskInfo>, networks: Vec<NetworkInfo>) -> SystemReading {
    SystemReading {
        total_memory: 17_179_869_184,
        used_memory: 4_294_967_296,
        total_swap: 0,
        used_swap: 0,
        cpu_usage: "12.5%".to_string(),
        cpu_freq: "3.6 GHz".to_string(),
        process_count: 321,
        disks,
        networks,
    }
}

#[test]
fn uptime_line() {
    assert_eq!(format_uptime(0), "0d 00h 00m 00s");
    assert_eq!(format_uptime(90_061), "1d 01h 01m 01s");
    assert_eq!(format_uptime(86_399), "0d 23h 59m 59s");
    assert_eq!(format_uptime(10 * 86_400 + 3_600 * 5 + 7), "10d 05h 00m 07s");
}

#[test]
fn host_line() {
    assert_eq!(format_host(Some("desk".to_string())), "desk");
    assert_eq!(format_host(None), "Loading...");
}

#[test]
fn memory_line() {
    assert_eq!(format_memory(4_294_967_296, 17_179_869_184), "4.0/16.0 GB (25%)");
    assert_eq!(format_memory(5, 0), "Loading...");
    let (used, total) = (3_000_000_000u64, 7_000_000_000u64);
    let expected = format!(
        "{:.1}/{:.1} GB ({:.0}%)",
        used as f64 / 1024.0 / 1024.0 / 1024.0,
        total as f64 / 1024.0 / 1024.0 / 1024.0,
        (used as f64 / total as f64) * 100.0
    );
    assert_eq!(format_memory(used, total), expected);
}

#[test]
fn disk_text() {
    assert_eq!(format_disk(&disk("ext4", "/", 100_000_000_000, 25_000_000_000)), "75.0/100.0 GB (75%)");
    assert_eq!(format_disk(&disk("ext4", "/", 0, 0)), "Loading ..");
    assert_eq!(format_disk(&disk("ext4", "/", 500, 500)), "Loading ..");
    assert_eq!(format_disk(&disk("ext4", "/", 100, 200)), "Loading ..");
}

#[test]
fn boot_efi_is_compared_as_a_path() {
    assert!(is_boot_efi_path("/boot/efi"));
    assert!(is_boot_efi_path("/boot/efi/"));
    assert!(is_boot_efi_path("//boot/./efi"));
    assert!(!is_boot_efi_path("boot/efi"));
    assert!(!is_boot_efi_path("/boot/efi2"));
    assert!(!is_boot_efi_path("/boot"));
    assert!(is_same_path("/mnt/data/", "/mnt/data"));
    assert!(!is_same_path("/mnt/data", "mnt/data"));
    assert!(!is_same_path("/mnt", "/mnt/data"));
}

#[test]
fn disks_line_skips_virtual_and_boot_file_systems() {
    let disks = vec![
        disk("ext4", "/", 100_000_000_000, 50_000_000_000),
        disk("tmpfs", "/tmp", 8_000_000_000, 1),
        disk("vfat", "/boot/efi", 500_000_000, 1),
        disk("overlay", "/var/lib/x", 10, 1),
        disk("devtmpfs", "/dev", 10, 1),
        disk("ext4", "/mnt/data", 0, 0),
    ];
    let state = MonitorState::new(reading(disks, vec![]), GpuData::default());
    assert_eq!(read_disks(&state), "/: 50.0/100.0 GB (50%)\n • /mnt/data: Loading ..");
    let empty = MonitorState::new(reading(vec![], vec![]), GpuData::default());
    assert_eq!(read_disks(&empty), "");
}

#[test]
fn system_lines_of_a_state() {
    let state = MonitorState::new(reading(vec![], vec![]), GpuData::default());
    assert_eq!(read_ram(&state), "4.0/16.0 GB (25%)");
    assert_eq!(read_swap(&state), "Loading...");
    assert_eq!(read_cpu_usage(&state), "12.5%");
    assert_eq!(read_cpu_freq(&state), "3.6 GHz");
    assert_eq!(read_processes_count(&state), "321");
}

#[test]
fn network_rates_use_the_counters_taken_at_start() {
    let mut state = MonitorState::new(reading(vec![], vec![net("eth0", 1000, 500), net("lo", 100, 100)]), GpuData::default());
    assert_eq!(state.tick_count, 0);
    assert_eq!(read_network_download(&state), "↓ 0 B/s");
    state.refresh(reading(vec![], vec![net("eth0", 5000, 2500), net("lo", 1_000_000, 1_000_000)]), GpuData::default());
    assert_eq!(state.interval_secs(), 0);
    assert_eq!(read_network_download(&state), "↓ 4.0 KB/s");
    assert_eq!(read_network_upload(&state), "↑ 2.0 KB/s");
    state.refresh(reading(vec![], vec![net("eth0", 5000, 2500), net("wlan0", 300, 40)]), GpuData::default());
    assert_eq!(state.interval_secs(), 2);
    assert_eq!(state.prev_rx.len(), 2);
    assert_eq!(read_network_download(&state), format!("↓ {:.1} KB/s", 2150f64 / 1000.0));
    assert_eq!(read_network_upload(&state), "↑ 1.0 KB/s");
    assert!(state.counters_fit());
}

#[test]
fn counters_that_went_back_count_as_zero() {
    let mut state = MonitorState::new(reading(vec![], vec![net("eth0", 9000, 9000)]), GpuData::default());
    state.refresh(reading(vec![], vec![net("eth0", 10, 10)]), GpuData::default());
    assert_eq!(read_network_download(&state), "↓ 0 B/s");
}

#[test]
fn cpu_clock_line() {
    let info = "processor\t: 0\nmodel name\t: X\ncpu MHz\t\t: 3600.000\ncache size\t: 512 KB\ncpu MHz\t\t: 1.0\n";
    let field = cpu_mhz_field(info);
    assert_eq!(field.as_deref(), Some("3600.000"));
    assert_eq!(cpu_mhz_field("processor\t: 0\n"), None);
    assert_eq!(cpu_mhz_field("cpu MHz : 3.0\n"), None);
    let bits = field.unwrap().parse::<f64>().ok().map(f64::to_bits);
    assert_eq!(format_cpu_freq(Some(bits)), "3.6 GHz");
    assert_eq!(format_cpu_freq(Some(Some(2199.999f64.to_bits()))), format!("{:.1} GHz", 2199.999f64 / 1000.0));
    assert_eq!(format_cpu_freq(Some(None)), "0.0 GHz");
    for v in [f64::NAN, f64::INFINITY, f64::NEG_INFINITY, -1500.0, -0.0, -0.01] {
        assert_eq!(format_cpu_freq(Some(Some(v.to_bits()))), format!("{:.1} GHz", v / 1000.0), "{v}");
    }
    assert_eq!(format_cpu_freq(Some(Some(f64::NAN.to_bits()))), "NaN GHz");
    assert_eq!(format_cpu_freq(Some(Some((-1500.0f64).to_bits()))), "-1.5 GHz");
    assert_eq!(format_cpu_freq(None), "Loading..");
}

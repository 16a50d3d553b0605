use desktop_overlay::gpu::{amd_gpu_data, AmdSysfs, GpuData, HwmonFiles};
use desktop_overlay::monitor::{DiskInfo, MonitorState, NetworkInfo, SystemReading};
use desktop_overlay::registry::WidgetRegistry;
use desktop_overlay::tick::{apply_labels, disk_at, update, Label};
use desktop_overlay::widget::{DataWidget, DataWidgetConfig};

fn some(s: &str) -> Option<String> {
    Some(s.to_string())
}

fn reading() -> SystemReading {
    SystemReading {
        total_memory: 8_589_934_592,
        used_memory: 2_147_483_648,
        total_swap: 0,
        used_swap: 0,
        cpu_usage: "3.0%".to_string(),
        cpu_freq: "2.4 GHz".to_string(),
        process_count: 12,
        disks: vec![
            DiskInfo { file_system: "ext4".to_string(), mount_point: "/".to_string(), total_space: 200_000_000_000, available_space: 50_000_000_000 },
            DiskInfo { file_system: "xfs".to_string(), mount_point: "/mnt/data/".to_string(), total_space: 0, available_space: 0 },
        ],
        networks: vec![NetworkInfo { name: "eth0".to_string(), total_received: 0, total_transmitted: 0 }],
    }
}

fn gpu() -> GpuData {
    amd_gpu_data(&AmdSysfs {
        vendor: some("0x1002"),
        gpu_busy_percent: some("9"),
        mem_info_vram_total: some("0"),
        mem_info_vram_used: some("2097152"),
        hwmon: vec![HwmonFiles {
            temp1_input: some("48000"),
            temp2_input: None,
            fan1_input: None,
            power1_average: some("35500000"),
            in0_input: None,
        }],
        pp_dpm_sclk: some("0: 700Mhz *\n"),
        pp_dpm_mclk: None,
        pp_dpm_fclk: None,
        pp_dpm_socclk: None,
        current_link_speed: None,
        current_link_width: some("8"),
        pp_cur_state: None,
        power_dpm_force_performance_level: some("auto"),
    })
}

#[test]
fn tracked_disks_are_found_by_mount_point() {
    let r = reading();
    assert_eq!(disk_at(&r.disks, "/"), "150.0/200.0 GB (75%)");
    assert_eq!(disk_at(&r.disks, "/mnt/data"), "Loading ..");
    assert_eq!(disk_at(&r.disks, "/mnt/warehouse"), "—");
}

#[test]
fn gpu_fields_are_filled_on_every_fourth_tick() {
    let mut state = MonitorState::new(reading(), GpuData::default());
    let first = update(&mut state, reading(), gpu());
    assert_eq!(state.tick_count, 1);
    assert!(first.gpu_dirty);
    assert_eq!(first.ram, "2.0/8.0 GB (25%)");
    assert_eq!(first.processes, "12");
    assert_eq!(first.cpu_freq, "2.4 GHz");
    assert_eq!(first.disks[0], "150.0/200.0 GB (75%)");
    assert_eq!(first.disks[1], "Loading ..");
    assert_eq!(first.disks[2], "—");
    assert_eq!(first.net_up, "↑ 0 B/s");
    assert_eq!(first.gpu_vendor, "AMD");
    assert_eq!(first.gpu_usage, "9%");
    assert_eq!(first.vram, "2/0 MB (0%)");
    assert_eq!(first.temp_junction, "48 °C");
    assert_eq!(first.temp_die, "48 °C");
    assert_eq!(first.temp_memory, "—");
    assert_eq!(first.power_draw.as_deref(), Some("35.5 W"));
    assert!(first.power_cap.is_none());
    assert!(first.voltage.is_none());
    assert!(first.fan.is_none());
    assert_eq!(first.sclk, "700Mhz");
    assert_eq!(first.gpu_clock, "700Mhz");
    assert_eq!(first.pcie, "x8");
    assert_eq!(first.state, "auto");

    for _ in 0..3 {
        let out = update(&mut state, reading(), gpu());
        assert!(!out.gpu_dirty);
        assert_eq!(out.temp_junction, "—");
        assert_eq!(out.gpu_vendor, "");
        assert!(out.power_draw.is_none());
        assert_eq!(apply_labels(&out).len(), 12);
    }
    let fifth = update(&mut state, reading(), gpu());
    assert_eq!(state.tick_count, 5);
    assert!(fifth.gpu_dirty);
}

#[test]
fn labels_are_updated_in_order_with_optional_gpu_texts() {
    let mut state = MonitorState::new(reading(), GpuData::default());
    let out = update(&mut state, reading(), gpu());
    let updates = apply_labels(&out);
    let labels: Vec<Label> = updates.iter().map(|u| u.label).collect();
    assert_eq!(updates.len(), 12 + 7 + 1 + 4 + 4);
    assert!(labels[0] == Label::Uptime);
    assert!(labels[7] == Label::DiskRoot);
    assert!(labels[11] == Label::NetDown);
    assert!(labels[12] == Label::GpuRenderer);
    assert!(labels[19] == Label::PowerDraw);
    assert!(labels[20] == Label::Sclk);
    assert!(labels[24] == Label::Pcie);
    assert!(labels[27] == Label::GpuClock);
    assert_eq!(updates[19].text, "35.5 W");
    assert_eq!(updates[9].text, "—");
}

#[test]
fn widget_values_come_from_their_methods() {
    let config = |id: &str, method: &str| DataWidgetConfig {
        id: id.to_string(),
        header_text: String::new(),
        section_id: "SYSTEM".to_string(),
        method: method.to_string(),
        display: String::new(),
        value_type: String::new(),
        order: None,
        margin_from_x: 0,
        margin_from_y: 0,
    };
    let state = MonitorState::new(reading(), gpu());
    let r = WidgetRegistry::new(
        vec![config("procs", "read_processes_count"), config("bad", "read_nothing"), config("vendor", "read_gpu_renderer")],
        vec!["SYSTEM".to_string()],
    );
    let values: Vec<(String, String)> = r.update_all(&state).into_iter().map(|u| (u.id, u.text)).collect();
    assert_eq!(
        values,
        vec![
            ("procs".to_string(), "12".to_string()),
            ("bad".to_string(), "unknown method `read_nothing`".to_string()),
            ("vendor".to_string(), "AMD".to_string()),
        ]
    );
    let w = DataWidget::new(config("ram", "read_ram"));
    assert_eq!(w.update_value(&state), "2.0/8.0 GB (25%)");
}

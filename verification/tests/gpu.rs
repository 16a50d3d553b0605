use desktop_overlay::dispatch::call_by_name;
use desktop_overlay::gpu::{
    amd_gpu_data, find_amd_card, is_amd_vendor, is_card_name, nvidia_fields, nvidia_gpu_data, pcie_lane_of,
    read_gpu, read_gpu_next, read_hwmon_sensors, read_sysfs_active_clock, read_sysfs_first_line,
    read_sysfs_string, read_sysfs_u64, sensor_value, vendor_of, AmdSysfs, DrmEntry, GpuData, GpuStep,
    HwmonFiles,
};
use desktop_overlay::monitor::{
    read_fan, read_power_draw, read_temp_junction, read_vram, read_voltage, MonitorState, SystemReading,
};

fn some(s: &str) -> Option<String> {
    Some(s.to_string())
}

fn hwmon(temp: Option<&str>, temp2: Option<&str>, fan: Option<&str>, power: Option<&str>, volt: Option<&str>) -> HwmonFiles {
    HwmonFiles {
        temp1_input: temp.map(|s| s.to_string()),
        temp2_input: temp2.map(|s| s.to_string()),
        fan1_input: fan.map(|s| s.to_string()),
        power1_average: power.map(|s| s.to_string()),
        in0_input: volt.map(|s| s.to_string()),
    }
}

fn empty_reading() -> SystemReading {
    SystemReading {
        total_memory: 0,
        used_memory: 0,
        total_swap: 0,
        used_swap: 0,
        cpu_usage: String::new(),
        cpu_freq: String::new(),
        process_count: 0,
        disks: vec![],
        networks: vec![],
    }
}

fn amd_files(hwmons: Vec<HwmonFiles>) -> AmdSysfs {
    AmdSysfs {
        vendor: some("0x1002\n"),
        gpu_busy_percent: some("37\n"),
        mem_info_vram_total: some("8589934592\n"),
        mem_info_vram_used: some("1073741824\n"),
        hwmon: hwmons,
        pp_dpm_sclk: some("0: 500Mhz\n1: 800Mhz *\n2: 1200Mhz\n"),
        pp_dpm_mclk: some("0: 96Mhz\n1: 1000Mhz *\n"),
        pp_dpm_fclk: None,
        pp_dpm_socclk: some("0: 600Mhz\n"),
        current_link_speed: some("16.0 GT/s PCIe\n"),
        current_link_width: some("16\n"),
        pp_cur_state: some("0 BOOTUP_DEFAULT\n1 3D_FULL_SCREEN\n"),
        power_dpm_force_performance_level: some("auto\n"),
    }
}

#[test]
fn sysfs_files_read_as_the_driver_writes_them() {
    assert_eq!(read_sysfs_string(&some("  auto \n")), Some("auto".to_string()));
    assert_eq!(read_sysfs_string(&None), None);
    assert_eq!(read_sysfs_u64(&some("65000\n")), 65000);
    assert_eq!(read_sysfs_u64(&some("n/a")), 0);
    assert_eq!(read_sysfs_u64(&None), 0);
    assert_eq!(read_sysfs_first_line(&some("a b\r\nc\n")), Some("a b".to_string()));
    assert_eq!(read_sysfs_first_line(&some("")), None);
}

#[test]
fn active_clock_prefers_the_marked_frequency() {
    assert_eq!(read_sysfs_active_clock(&some("0: 500Mhz\n1: 800Mhz *\n2: 1200Mhz\n")), "800Mhz");
    assert_eq!(read_sysfs_active_clock(&some("S: 19 1000MHz [currently active]\n")), "1000MHz");
    assert_eq!(read_sysfs_active_clock(&some("0: 300kHz active]\n")), "300kHz");
    assert_eq!(read_sysfs_active_clock(&some("0: 500Mhz\n1: 800Mhz\n")), "");
    assert_eq!(read_sysfs_active_clock(&some("* 500Mhz *\n")), "500Mhz");
    assert_eq!(read_sysfs_active_clock(&None), "");
}

#[test]
fn vendor_and_link_lines() {
    assert_eq!(vendor_of(&some("0x1002\n")), "AMD");
    assert_eq!(vendor_of(&some("0x10de")), "NVIDIA");
    assert_eq!(vendor_of(&some("0x8086\n")), "Intel");
    assert_eq!(vendor_of(&some(" 0x1234 ")), "0x1234");
    assert_eq!(vendor_of(&None), "");
    assert_eq!(pcie_lane_of(some(" 8.0 GT/s "), some("16\n")), "8.0 GT/s x16");
    assert_eq!(pcie_lane_of(some("8.0 GT/s"), None), "8.0 GT/s");
    assert_eq!(pcie_lane_of(None, some("4")), "x4");
    assert_eq!(pcie_lane_of(None, None), "");
}

#[test]
fn amd_reading_from_sysfs() {
    let g = amd_gpu_data(&amd_files(vec![hwmon(Some("65000\n"), Some("70500\n"), Some("1200\n"), Some("150000000\n"), Some("900\n"))]));
    assert_eq!(g.vendor, "AMD");
    assert_eq!(g.gpu_busy, 37);
    assert_eq!(g.vram_total_kb, 8_388_608);
    assert_eq!(g.vram_used_kb, 1_048_576);
    assert_eq!(g.temp_junction.fixed(1), "65.0");
    assert_eq!(g.temp_memory.fixed(1), "70.5");
    assert_eq!(g.power_draw.fixed(1), "150.0");
    assert_eq!(g.voltage.fixed(3), "0.900");
    assert_eq!(g.fan_speed.fixed(0), "1200");
    assert_eq!(g.shader_clock, "800Mhz");
    assert_eq!(g.memory_clock, "1000Mhz");
    assert_eq!(g.fragment_clock, "");
    assert_eq!(g.soc_clock, "");
    assert_eq!(g.pcie_lane, "16.0 GT/s PCIe x16");
    assert_eq!(g.performance_state, "0 BOOTUP_DEFAULT");
    assert_eq!(g.power_state, "auto");
}

#[test]
fn hwmon_sensors_only_fill_unset_values() {
    let g = amd_gpu_data(&amd_files(vec![
        hwmon(Some("50000"), None, None, None, Some("800")),
        hwmon(Some("60000"), Some("61000"), Some("900"), Some("100000000"), Some("1000")),
    ]));
    assert_eq!(g.temp_junction.fixed(0), "50");
    assert_eq!(g.temp_memory.fixed(0), "61");
    assert_eq!(g.voltage.fixed(3), "0.800");
    assert_eq!(g.power_draw.fixed(1), "100.0");
    assert_eq!(g.fan_speed.fixed(0), "900");
    let none = amd_gpu_data(&amd_files(vec![]));
    assert!(none.temp_junction.is_zero() && none.power_draw.is_zero() && none.fan_speed.is_zero());

    let mut gpu = GpuData::default();
    read_hwmon_sensors(&mut gpu, &hwmon(Some("42000"), None, Some("0"), Some("garbage"), None));
    assert_eq!(gpu.temp_junction.fixed(0), "42");
    assert!(gpu.fan_speed.is_zero() && gpu.power_draw.is_zero() && gpu.voltage.is_zero());
    read_hwmon_sensors(&mut gpu, &hwmon(Some("99000"), None, None, None, None));
    assert_eq!(gpu.temp_junction.fixed(0), "42");
}

#[test]
fn amd_card_is_found_among_drm_entries() {
    assert!(is_card_name("card0"));
    assert!(!is_card_name("card0-DP-1"));
    assert!(!is_card_name("renderD128"));
    assert!(is_amd_vendor(&some("0x1002\n")));
    assert!(!is_amd_vendor(&some("0x10de\n")));
    let entries = vec![
        DrmEntry { name: "card0-DP-1".to_string(), vendor: some("0x1002") },
        DrmEntry { name: "card0".to_string(), vendor: some("0x10de\n") },
        DrmEntry { name: "card1".to_string(), vendor: None },
        DrmEntry { name: "card2".to_string(), vendor: some("0x1002\n") },
        DrmEntry { name: "card3".to_string(), vendor: some("0x1002\n") },
    ];
    assert_eq!(find_amd_card(&entries), Some(3));
    assert_eq!(find_amd_card(&entries[..3].iter().map(|e| DrmEntry { name: e.name.clone(), vendor: e.vendor.clone() }).collect()), None);
}

#[test]
fn nvidia_reading_from_the_driver_tool() {
    let out = "45, 1024, 8192, 60, 1500, 7000, 120.50, 250.00, 30, P2\n";
    let fields = nvidia_fields(out);
    let expected: Vec<String> = out.trim().split(',').map(|p| p.trim().to_string()).collect();
    assert_eq!(fields, expected);
    let bits = |i: usize| fields[i].parse::<f64>().ok().map(f64::to_bits);
    let g = nvidia_gpu_data(&fields, bits(3), bits(6), bits(8));
    assert_eq!(g.vendor, "NVIDIA");
    assert_eq!(g.gpu_busy, 45);
    assert_eq!(g.vram_used_kb, 1024 * 1024);
    assert_eq!(g.vram_total_kb, 8192 * 1024);
    assert_eq!(g.temp_junction.fixed(0), "60");
    assert_eq!(g.shader_clock, "1500 MHz");
    assert_eq!(g.memory_clock, "7000 MHz");
    assert_eq!(g.power_draw.fixed(1), "120.5");
    assert_eq!(g.fan_speed.fixed(0), "30");
    assert_eq!(g.performance_state, "P2");
    assert!(g.temp_memory.is_zero() && g.voltage.is_zero());

    let short = nvidia_fields("[N/A], 3\n");
    let g = nvidia_gpu_data(&short, None, None, None);
    assert_eq!(g.vendor, "NVIDIA");
    assert_eq!(g.gpu_busy, 0);
    assert_eq!(g.shader_clock, "");

    let odd = nvidia_fields("[N/A], x, 2, [N/A], 1, 2, 3, 4, 5, P8");
    let g = nvidia_gpu_data(&odd, None, Some((-3.0f64).to_bits()), Some(f64::NAN.to_bits()));
    assert_eq!(g.gpu_busy, 0);
    assert_eq!(g.vram_used_kb, 0);
    assert_eq!(g.vram_total_kb, 2048);
    assert!(g.temp_junction.is_zero());
    assert_eq!(g.power_draw.fixed(1), format!("{:.1}", -3.0f64));
    assert_eq!(g.fan_speed.fixed(0), format!("{:.0}", f64::NAN));
    assert!(!g.power_draw.is_zero() && !g.fan_speed.is_zero());
    assert!(sensor_value(None).is_zero());
}

#[test]
fn unusual_driver_tool_readings_render_as_parsed() {
    let fields = nvidia_fields("10, 1, 2, inf, 1, 2, -5.5, 4, NaN, P0");
    let bits = |i: usize| fields[i].parse::<f64>().ok().map(f64::to_bits);
    let g = nvidia_gpu_data(&fields, bits(3), bits(6), bits(8));
    let state = MonitorState::new(empty_reading(), g);
    let inf: f64 = "inf".parse().unwrap();
    assert_eq!(read_temp_junction(&state), format!("{:.0} °C", inf));
    assert_eq!(read_temp_junction(&state), "inf °C");
    assert_eq!(read_power_draw(&state), "");
    assert_eq!(read_fan(&state), "");
}

#[test]
fn the_first_reader_that_finds_its_device_is_read() {
    assert!(read_gpu(0) == GpuStep::NoDevice);
    assert!(read_gpu(2) == GpuStep::Probe(0));
    assert!(read_gpu_next(0, false, 2) == GpuStep::Probe(1));
    assert!(read_gpu_next(1, true, 2) == GpuStep::Read(1));
    assert!(read_gpu_next(1, false, 2) == GpuStep::NoDevice);
    assert!(read_gpu_next(0, true, 2) == GpuStep::Read(0));
}

#[test]
fn gpu_lines_of_a_state() {
    let g = amd_gpu_data(&amd_files(vec![hwmon(Some("65400"), None, Some("1200"), Some("150250000"), Some("1125"))]));
    let state = MonitorState::new(empty_reading(), g);
    assert_eq!(read_temp_junction(&state), "65 °C");
    assert_eq!(read_power_draw(&state), "150.2 W");
    assert_eq!(read_voltage(&state), "1.125 V");
    assert_eq!(read_fan(&state), "1200");
    assert_eq!(read_vram(&state), "1024/8192 MB (12%)");
    assert_eq!(call_by_name(&state, "read_gpu_usage"), "37%");
    assert_eq!(call_by_name(&state, "read_gpu_renderer"), "AMD");
    assert_eq!(call_by_name(&state, "read_pcie_lane"), "16.0 GT/s PCIe x16");
    assert_eq!(call_by_name(&state, "read_temp_die"), "65 °C");
    assert_eq!(call_by_name(&state, "read_temp_memory"), "");
    assert_eq!(call_by_name(&state, "read_gpu_clock"), "800Mhz");
    assert_eq!(call_by_name(&state, "no_such_reader"), "unknown method `no_such_reader`");
    let empty = MonitorState::new(empty_reading(), GpuData::default());
    assert_eq!(read_vram(&empty), "");
    assert_eq!(read_power_draw(&empty), "");
}

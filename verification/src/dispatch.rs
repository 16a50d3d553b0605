//! Reading lines by name: the names a widget configuration may use as its
//! `method`, and what each one shows.

use vstd::prelude::*;
use vstd::string::*;
use crate::monitor::{
    MonitorState, disks_text, download_text, host_text, memory_text, percent_line, positive_text, upload_text, uptime_text, vram_text, read_uptime, read_cpu_freq, read_ram, read_swap, read_cpu_usage, read_processes_count, read_host, read_disks, read_network_upload, read_network_download, read_gpu_renderer, read_gpu_usage, read_vram, read_vram_busy, read_gpu_clock, read_temp_junction, read_temp_die, read_temp_memory, read_power_draw, read_voltage, read_shader_clock, read_memory_clock, read_fragment_clock, read_soc_clock, read_fan, read_pcie_lane, read_power_state, read_performance_state,
};
use crate::text::{decimal, str_eq};

verus! {

/// The readings a widget can show.
#[derive(Clone, Copy, PartialEq, Eq, Structural)]
pub enum ReaderFunction {
    Uptime,
    CpuFreq,
    Ram,
    Swap,
    CpuUsage,
    ProcessesCount,
    Host,
    Disks,
    NetworkUpload,
    NetworkDownload,
    GpuRenderer,
    GpuUsage,
    Vram,
    VramBusy,
    GpuClock,
    TempJunction,
    TempDie,
    TempMemory,
    PowerDraw,
    Voltage,
    ShaderClock,
    MemoryClock,
    FragmentClock,
    SocClock,
    Fan,
    PcieLane,
    PowerState,
    PerformanceState,
}

/// The reading a method name selects.
pub open spec fn reader_named(name: Seq<char>) -> Option<ReaderFunction> {
    if name == "read_uptime"@ { Some(ReaderFunction::Uptime) }
    else if name == "read_cpu_freq"@ { Some(ReaderFunction::CpuFreq) }
    else if name == "read_ram"@ { Some(ReaderFunction::Ram) }
    else if name == "read_swap"@ { Some(ReaderFunction::Swap) }
    else if name == "read_cpu_usage"@ { Some(ReaderFunction::CpuUsage) }
    else if name == "read_processes_count"@ { Some(ReaderFunction::ProcessesCount) }
    else if name == "read_host"@ { Some(ReaderFunction::Host) }
    else if name == "read_disks"@ { Some(ReaderFunction::Disks) }
    else if name == "read_network_upload"@ { Some(ReaderFunction::NetworkUpload) }
    else if name == "read_network_download"@ { Some(ReaderFunction::NetworkDownload) }
    else if name == "read_gpu_renderer"@ { Some(ReaderFunction::GpuRenderer) }
    else if name == "read_gpu_usage"@ { Some(ReaderFunction::GpuUsage) }
    else if name == "read_vram"@ { Some(ReaderFunction::Vram) }
    else if name == "read_vram_busy"@ { Some(ReaderFunction::VramBusy) }
    else if name == "read_gpu_clock"@ { Some(ReaderFunction::GpuClock) }
    else if name == "read_temp_junction"@ { Some(ReaderFunction::TempJunction) }
    else if name == "read_temp_die"@ { Some(ReaderFunction::TempDie) }
    else if name == "read_temp_memory"@ { Some(ReaderFunction::TempMemory) }
    else if name == "read_power_draw"@ { Some(ReaderFunction::PowerDraw) }
    else if name == "read_voltage"@ { Some(ReaderFunction::Voltage) }
    else if name == "read_shader_clock"@ { Some(ReaderFunction::ShaderClock) }
    else if name == "read_memory_clock"@ { Some(ReaderFunction::MemoryClock) }
    else if name == "read_fragment_clock"@ { Some(ReaderFunction::FragmentClock) }
    else if name == "read_soc_clock"@ { Some(ReaderFunction::SocClock) }
    else if name == "read_fan"@ { Some(ReaderFunction::Fan) }
    else if name == "read_pcie_lane"@ { Some(ReaderFunction::PcieLane) }
    else if name == "read_power_state"@ { Some(ReaderFunction::PowerState) }
    else if name == "read_performance_state"@ { Some(ReaderFunction::PerformanceState) }
    else { None }
}

/// `text` is what reading `k` shows for state `m`.  The uptime and host name
/// are read from the system when asked for, so any uptime line, and any
/// host line, is one.
pub open spec fn shows(m: MonitorState, k: ReaderFunction, text: Seq<char>) -> bool {
    match k {
        ReaderFunction::Uptime => exists|secs: u64| text == uptime_text(secs as nat),
        ReaderFunction::CpuFreq => text == m.cpu_freq@,
        ReaderFunction::Ram => text == memory_text(m.used_memory, m.total_memory),
        ReaderFunction::Swap => text == memory_text(m.used_swap, m.total_swap),
        ReaderFunction::CpuUsage => text == m.cpu_usage@,
        ReaderFunction::ProcessesCount => text == decimal(m.process_count as nat),
        ReaderFunction::Host => exists|name: Option<String>| text == host_text(name),
        ReaderFunction::Disks => text == disks_text(m.disks@),
        ReaderFunction::NetworkUpload => text == upload_text(m),
        ReaderFunction::NetworkDownload => text == download_text(m),
        ReaderFunction::GpuRenderer => text == m.gpu_data.vendor@,
        ReaderFunction::GpuUsage => text == percent_line(m.gpu_data.gpu_busy),
        ReaderFunction::Vram => text == vram_text(m.gpu_data),
        ReaderFunction::VramBusy => text == percent_line(m.gpu_data.gpu_busy),
        ReaderFunction::GpuClock => text == m.gpu_data.shader_clock@,
        ReaderFunction::TempJunction => text == positive_text(m.gpu_data.temp_junction, 0, " °C"@),
        ReaderFunction::TempDie => text == positive_text(m.gpu_data.temp_junction, 0, " °C"@),
        ReaderFunction::TempMemory => text == positive_text(m.gpu_data.temp_memory, 0, " °C"@),
        ReaderFunction::PowerDraw => text == positive_text(m.gpu_data.power_draw, 1, " W"@),
        ReaderFunction::Voltage => text == positive_text(m.gpu_data.voltage, 3, " V"@),
        ReaderFunction::ShaderClock => text == m.gpu_data.shader_clock@,
        ReaderFunction::MemoryClock => text == m.gpu_data.memory_clock@,
        ReaderFunction::FragmentClock => text == m.gpu_data.fragment_clock@,
        ReaderFunction::SocClock => text == m.gpu_data.soc_clock@,
        ReaderFunction::Fan => text == positive_text(m.gpu_data.fan_speed, 0, ""@),
        ReaderFunction::PcieLane => text == m.gpu_data.pcie_lane@,
        ReaderFunction::PowerState => text == m.gpu_data.power_state@,
        ReaderFunction::PerformanceState => text == m.gpu_data.performance_state@,
    }
}

/// The message for a method name no reading has.
pub open spec fn unknown_method_text(name: Seq<char>) -> Seq<char> {
    "unknown method `"@ + name + "`"@
}

/// The reading a method name selects, if any.
pub fn reader_for_name(name: &str) -> (r: Option<ReaderFunction>)
    ensures
        r == reader_named(name@),
{
    if str_eq(name, "read_uptime") { Some(ReaderFunction::Uptime) }
    else if str_eq(name, "read_cpu_freq") { Some(ReaderFunction::CpuFreq) }
    else if str_eq(name, "read_ram") { Some(ReaderFunction::Ram) }
    else if str_eq(name, "read_swap") { Some(ReaderFunction::Swap) }
    else if str_eq(name, "read_cpu_usage") { Some(ReaderFunction::CpuUsage) }
    else if str_eq(name, "read_processes_count") { Some(ReaderFunction::ProcessesCount) }
    else if str_eq(name, "read_host") { Some(ReaderFunction::Host) }
    else if str_eq(name, "read_disks") { Some(ReaderFunction::Disks) }
    else if str_eq(name, "read_network_upload") { Some(ReaderFunction::NetworkUpload) }
    else if str_eq(name, "read_network_download") { Some(ReaderFunction::NetworkDownload) }
    else if str_eq(name, "read_gpu_renderer") { Some(ReaderFunction::GpuRenderer) }
    else if str_eq(name, "read_gpu_usage") { Some(ReaderFunction::GpuUsage) }
    else if str_eq(name, "read_vram") { Some(ReaderFunction::Vram) }
    else if str_eq(name, "read_vram_busy") { Some(ReaderFunction::VramBusy) }
    else if str_eq(name, "read_gpu_clock") { Some(ReaderFunction::GpuClock) }
    else if str_eq(name, "read_temp_junction") { Some(ReaderFunction::TempJunction) }
    else if str_eq(name, "read_temp_die") { Some(ReaderFunction::TempDie) }
    else if str_eq(name, "read_temp_memory") { Some(ReaderFunction::TempMemory) }
    else if str_eq(name, "read_power_draw") { Some(ReaderFunction::PowerDraw) }
    else if str_eq(name, "read_voltage") { Some(ReaderFunction::Voltage) }
    else if str_eq(name, "read_shader_clock") { Some(ReaderFunction::ShaderClock) }
    else if str_eq(name, "read_memory_clock") { Some(ReaderFunction::MemoryClock) }
    else if str_eq(name, "read_fragment_clock") { Some(ReaderFunction::FragmentClock) }
    else if str_eq(name, "read_soc_clock") { Some(ReaderFunction::SocClock) }
    else if str_eq(name, "read_fan") { Some(ReaderFunction::Fan) }
    else if str_eq(name, "read_pcie_lane") { Some(ReaderFunction::PcieLane) }
    else if str_eq(name, "read_power_state") { Some(ReaderFunction::PowerState) }
    else if str_eq(name, "read_performance_state") { Some(ReaderFunction::PerformanceState) }
    else { None }
}

/// The reading adds up the network byte counters: one of the two rates.
pub open spec fn sums_traffic(k: ReaderFunction) -> bool {
    k is NetworkUpload || k is NetworkDownload
}

/// The method name selects a reading that adds up the network byte counters.
pub open spec fn name_sums_traffic(name: Seq<char>) -> bool {
    reader_named(name) matches Some(k) && sums_traffic(k)
}

/// Reading `k` of `state`.
pub fn read_with(state: &MonitorState, k: ReaderFunction) -> (s: String)
    requires
        state.wf(),
        sums_traffic(k) ==> state.traffic_fits(),
    ensures
        shows(*state, k, s@),
{
    match k {
        ReaderFunction::Uptime => read_uptime(state),
        ReaderFunction::CpuFreq => read_cpu_freq(state),
        ReaderFunction::Ram => read_ram(state),
        ReaderFunction::Swap => read_swap(state),
        ReaderFunction::CpuUsage => read_cpu_usage(state),
        ReaderFunction::ProcessesCount => read_processes_count(state),
        ReaderFunction::Host => read_host(state),
        ReaderFunction::Disks => read_disks(state),
        ReaderFunction::NetworkUpload => read_network_upload(state),
        ReaderFunction::NetworkDownload => read_network_download(state),
        ReaderFunction::GpuRenderer => read_gpu_renderer(state),
        ReaderFunction::GpuUsage => read_gpu_usage(state),
        ReaderFunction::Vram => read_vram(state),
        ReaderFunction::VramBusy => read_vram_busy(state),
        ReaderFunction::GpuClock => read_gpu_clock(state),
        ReaderFunction::TempJunction => read_temp_junction(state),
        ReaderFunction::TempDie => read_temp_die(state),
        ReaderFunction::TempMemory => read_temp_memory(state),
        ReaderFunction::PowerDraw => read_power_draw(state),
        ReaderFunction::Voltage => read_voltage(state),
        ReaderFunction::ShaderClock => read_shader_clock(state),
        ReaderFunction::MemoryClock => read_memory_clock(state),
        ReaderFunction::FragmentClock => read_fragment_clock(state),
        ReaderFunction::SocClock => read_soc_clock(state),
        ReaderFunction::Fan => read_fan(state),
        ReaderFunction::PcieLane => read_pcie_lane(state),
        ReaderFunction::PowerState => read_power_state(state),
        ReaderFunction::PerformanceState => read_performance_state(state),
    }
}

/// `text` is what the reading named `name` shows for `m`, or the message
/// naming an unknown method.
pub open spec fn called(m: MonitorState, name: Seq<char>, text: Seq<char>) -> bool {
    match reader_named(name) {
        Some(k) => shows(m, k, text),
        None => text == unknown_method_text(name),
    }
}

/// The reading named `method_name`, or a message naming an unknown method.
pub fn call_by_name(state: &MonitorState, method_name: &str) -> (s: String)
    requires
        state.wf(),
        name_sums_traffic(method_name@) ==> state.traffic_fits(),
    ensures
        called(*state, method_name@, s@),
{
    match reader_for_name(method_name) {
        Some(k) => read_with(state, k),
        None => {
            let mut s = "unknown method `".to_owned();
            s.append(method_name);
            s.append("`");
            s
        },
    }
}


/// Every name of the dispatch table selects the reading of that name.
pub proof fn law_names_select_their_readings()
    ensures
        reader_named("read_uptime"@) == Some(ReaderFunction::Uptime),
        reader_named("read_cpu_freq"@) == Some(ReaderFunction::CpuFreq),
        reader_named("read_ram"@) == Some(ReaderFunction::Ram),
        reader_named("read_swap"@) == Some(ReaderFunction::Swap),
        reader_named("read_cpu_usage"@) == Some(ReaderFunction::CpuUsage),
        reader_named("read_processes_count"@) == Some(ReaderFunction::ProcessesCount),
        reader_named("read_host"@) == Some(ReaderFunction::Host),
        reader_named("read_disks"@) == Some(ReaderFunction::Disks),
        reader_named("read_network_upload"@) == Some(ReaderFunction::NetworkUpload),
        reader_named("read_network_download"@) == Some(ReaderFunction::NetworkDownload),
        reader_named("read_gpu_renderer"@) == Some(ReaderFunction::GpuRenderer),
        reader_named("read_gpu_usage"@) == Some(ReaderFunction::GpuUsage),
        reader_named("read_vram"@) == Some(ReaderFunction::Vram),
        reader_named("read_vram_busy"@) == Some(ReaderFunction::VramBusy),
        reader_named("read_gpu_clock"@) == Some(ReaderFunction::GpuClock),
        reader_named("read_temp_junction"@) == Some(ReaderFunction::TempJunction),
        reader_named("read_temp_die"@) == Some(ReaderFunction::TempDie),
        reader_named("read_temp_memory"@) == Some(ReaderFunction::TempMemory),
        reader_named("read_power_draw"@) == Some(ReaderFunction::PowerDraw),
        reader_named("read_voltage"@) == Some(ReaderFunction::Voltage),
        reader_named("read_shader_clock"@) == Some(ReaderFunction::ShaderClock),
        reader_named("read_memory_clock"@) == Some(ReaderFunction::MemoryClock),
        reader_named("read_fragment_clock"@) == Some(ReaderFunction::FragmentClock),
        reader_named("read_soc_clock"@) == Some(ReaderFunction::SocClock),
        reader_named("read_fan"@) == Some(ReaderFunction::Fan),
        reader_named("read_pcie_lane"@) == Some(ReaderFunction::PcieLane),
        reader_named("read_power_state"@) == Some(ReaderFunction::PowerState),
        reader_named("read_performance_state"@) == Some(ReaderFunction::PerformanceState),
{
    reveal_strlit("read_uptime");
    reveal_strlit("read_cpu_freq");
    reveal_strlit("read_ram");
    reveal_strlit("read_swap");
    reveal_strlit("read_cpu_usage");
    reveal_strlit("read_processes_count");
    reveal_strlit("read_host");
    reveal_strlit("read_disks");
    reveal_strlit("read_network_upload");
    reveal_strlit("read_network_download");
    reveal_strlit("read_gpu_renderer");
    reveal_strlit("read_gpu_usage");
    reveal_strlit("read_vram");
    reveal_strlit("read_vram_busy");
    reveal_strlit("read_gpu_clock");
    reveal_strlit("read_temp_junction");
    reveal_strlit("read_temp_die");
    reveal_strlit("read_temp_memory");
    reveal_strlit("read_power_draw");
    reveal_strlit("read_voltage");
    reveal_strlit("read_shader_clock");
    reveal_strlit("read_memory_clock");
    reveal_strlit("read_fragment_clock");
    reveal_strlit("read_soc_clock");
    reveal_strlit("read_fan");
    reveal_strlit("read_pcie_lane");
    reveal_strlit("read_power_state");
    reveal_strlit("read_performance_state");
    assert("read_vram"@.len() == 9);
    assert("read_vram_busy"@.len() == 14);
    assert("read_uptime"@[5] == 'u');
    assert("read_cpu_freq"@[5] == 'c');
    assert("read_cpu_freq"@[9] == 'f');
    assert("read_ram"@[5] == 'r');
    assert("read_swap"@[5] == 's');
    assert("read_swap"@[6] == 'w');
    assert("read_cpu_usage"@[5] == 'c');
    assert("read_cpu_usage"@[9] == 'u');
    assert("read_processes_count"@[5] == 'p');
    assert("read_processes_count"@[6] == 'r');
    assert("read_host"@[5] == 'h');
    assert("read_disks"@[5] == 'd');
    assert("read_network_upload"@[5] == 'n');
    assert("read_network_upload"@[13] == 'u');
    assert("read_network_download"@[5] == 'n');
    assert("read_network_download"@[13] == 'd');
    assert("read_gpu_renderer"@[5] == 'g');
    assert("read_gpu_renderer"@[9] == 'r');
    assert("read_gpu_usage"@[5] == 'g');
    assert("read_gpu_usage"@[9] == 'u');
    assert("read_vram"@[5] == 'v');
    assert("read_vram"@[6] == 'r');
    assert("read_vram_busy"@[5] == 'v');
    assert("read_vram_busy"@[6] == 'r');
    assert("read_gpu_clock"@[5] == 'g');
    assert("read_gpu_clock"@[9] == 'c');
    assert("read_temp_junction"@[5] == 't');
    assert("read_temp_junction"@[10] == 'j');
    assert("read_temp_die"@[5] == 't');
    assert("read_temp_die"@[10] == 'd');
    assert("read_temp_memory"@[5] == 't');
    assert("read_temp_memory"@[10] == 'm');
    assert("read_power_draw"@[5] == 'p');
    assert("read_power_draw"@[6] == 'o');
    assert("read_power_draw"@[11] == 'd');
    assert("read_voltage"@[5] == 'v');
    assert("read_voltage"@[6] == 'o');
    assert("read_shader_clock"@[5] == 's');
    assert("read_shader_clock"@[6] == 'h');
    assert("read_memory_clock"@[5] == 'm');
    assert("read_fragment_clock"@[5] == 'f');
    assert("read_fragment_clock"@[6] == 'r');
    assert("read_soc_clock"@[5] == 's');
    assert("read_soc_clock"@[6] == 'o');
    assert("read_fan"@[5] == 'f');
    assert("read_fan"@[6] == 'a');
    assert("read_pcie_lane"@[5] == 'p');
    assert("read_pcie_lane"@[6] == 'c');
    assert("read_power_state"@[5] == 'p');
    assert("read_power_state"@[6] == 'o');
    assert("read_power_state"@[11] == 's');
    assert("read_performance_state"@[5] == 'p');
    assert("read_performance_state"@[6] == 'e');
}

/// Calling the rate readings by name gives the rate of that direction: the
/// upload name the transmitted rate, the download name the received rate.
pub proof fn law_rates_by_name(m: MonitorState, t: Seq<char>)
    ensures
        called(m, "read_network_upload"@, t) <==> t == upload_text(m),
        called(m, "read_network_download"@, t) <==> t == download_text(m),
{
    law_names_select_their_readings();
}

} // verus!

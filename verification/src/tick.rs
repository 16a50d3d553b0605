//! One monitoring tick: refresh the readings, render every label's text,
//! and the label updates that put the text on screen.

use vstd::prelude::*;
use vstd::string::*;
use crate::double::{Float64, float_fixed, float_positive, printable};
use crate::gpu::GpuData;
use crate::monitor::{
    DiskInfo, MonitorState, SystemReading, disk_text, download_text, format_disk, host_text,
    is_same_path, memory_text, percent_line, read_cpu_freq, read_cpu_usage, read_host,
    read_network_download, read_network_upload, read_processes_count, read_ram, read_swap,
    opt_view, read_uptime, reading_string, refreshed, same_path, some_text, upload_text, uptime_text,
    vram_line, vram_string,
};
use crate::text::{decimal, decimal_string};

verus! {

/// Formatted values for one tick cycle.
pub struct TickOutput {
    pub uptime: String,
    pub cpu_freq: String,
    pub ram: String,
    pub swap: String,
    pub cpu_usage: String,
    pub processes: String,
    pub host: String,
    /// One entry per tracked mount (`/`, `/mnt/data`, `/mnt/warehouse`),
    /// `"—"` where it is not mounted.
    pub disks: [String; 3],
    pub net_up: String,
    pub net_down: String,
    /// Whether the GPU fields were filled: on every fourth tick.
    pub gpu_dirty: bool,
    pub gpu_vendor: String,
    pub gpu_usage: String,
    pub vram: String,
    pub vram_busy: String,
    pub temp_junction: String,
    pub temp_die: String,
    pub temp_memory: String,
    pub power_draw: Option<String>,
    pub power_cap: Option<String>,
    pub voltage: Option<String>,
    pub sclk: String,
    pub mclk: String,
    pub fclk: String,
    pub socclk: String,
    pub fan: Option<String>,
    pub pcie: String,
    pub state: String,
    pub pstate: String,
    pub gpu_clock: String,
}

/// The mount point of tracked disk `i`.
pub open spec fn tracked_mount(i: int) -> Seq<char> {
    if i == 0 {
        "/"@
    } else if i == 1 {
        "/mnt/data"@
    } else {
        "/mnt/warehouse"@
    }
}

/// The usage text of the first disk mounted at `mount`, `"—"` if none is.
pub open spec fn mount_text(ds: Seq<DiskInfo>, mount: Seq<char>) -> Seq<char>
    decreases ds.len(),
{
    if ds.len() == 0 {
        "—"@
    } else if same_path(ds[0].mount_point@, mount) {
        disk_text(ds[0])
    } else {
        mount_text(ds.drop_first(), mount)
    }
}

/// `"{:.k}{unit}"` of a positive reading, `"—"` otherwise.
pub open spec fn dash_text(d: Float64, k: nat, unit: Seq<char>) -> Seq<char> {
    if float_positive(d) {
        float_fixed(d, k) + unit
    } else {
        "—"@
    }
}

/// The GPU fields of a tick's output: taken from reading `g` when `dirty`,
/// placeholders otherwise.
pub open spec fn gpu_part(o: TickOutput, g: GpuData, dirty: bool) -> bool {
    if dirty {
        &&& o.gpu_dirty
        &&& o.gpu_vendor@ == g.vendor@
        &&& o.gpu_usage@ == percent_line(g.gpu_busy)
        &&& o.vram@ == vram_line(g)
        &&& o.vram_busy@ == percent_line(g.gpu_busy)
        &&& o.temp_junction@ == dash_text(g.temp_junction, 0, " °C"@)
        &&& o.temp_die@ == o.temp_junction@
        &&& o.temp_memory@ == dash_text(g.temp_memory, 0, " °C"@)
        &&& opt_view(o.power_draw) == some_text(g.power_draw, 1, " W"@)
        &&& o.power_cap is None
        &&& opt_view(o.voltage) == some_text(g.voltage, 3, " V"@)
        &&& o.sclk@ == g.shader_clock@
        &&& o.mclk@ == g.memory_clock@
        &&& o.fclk@ == g.fragment_clock@
        &&& o.socclk@ == g.soc_clock@
        &&& opt_view(o.fan) == some_text(g.fan_speed, 0, " RPM"@)
        &&& o.pcie@ == g.pcie_lane@
        &&& o.state@ == g.power_state@
        &&& o.pstate@ == g.performance_state@
        &&& o.gpu_clock@ == o.sclk@
    } else {
        &&& !o.gpu_dirty
        &&& o.gpu_vendor@.len() == 0
        &&& o.gpu_usage@.len() == 0
        &&& o.vram@.len() == 0
        &&& o.vram_busy@.len() == 0
        &&& o.temp_junction@ == "—"@
        &&& o.temp_die@ == "—"@
        &&& o.temp_memory@ == "—"@
        &&& o.power_draw is None
        &&& o.power_cap is None
        &&& o.voltage is None
        &&& o.sclk@ == "—"@
        &&& o.mclk@ == "—"@
        &&& o.fclk@ == "—"@
        &&& o.socclk@ == "—"@
        &&& o.fan is None
        &&& o.pcie@ == "—"@
        &&& o.state@ == "—"@
        &&& o.pstate@ == "—"@
        &&& o.gpu_clock@ == "—"@
    }
}

/// The usage text of the first disk mounted at `mount`.
pub fn disk_at(disks: &Vec<DiskInfo>, mount: &str) -> (s: String)
    ensures
        s@ == mount_text(disks@, mount@),
{
    let mut i: usize = 0;
    proof {
        assert(disks@.skip(0) =~= disks@);
    }
    while i < disks.len()
        invariant
            i <= disks.len(),
            mount_text(disks@, mount@) == mount_text(disks@.skip(i as int), mount@),
        decreases disks.len() - i,
    {
        proof {
            assert(disks@.skip(i as int)[0] == disks@[i as int]);
            assert(disks@.skip(i as int).drop_first() =~= disks@.skip(i + 1));
        }
        if is_same_path(disks[i].mount_point.as_str(), mount) {
            return format_disk(&disks[i]);
        }
        i = i + 1;
    }
    proof {
        assert(disks@.skip(i as int).len() == 0);
        reveal_strlit("—");
    }
    "—".to_owned()
}

fn dash_string(d: Float64, k: u32, unit: &str) -> (s: String)
    requires
        printable(d),
        k <= 3,
    ensures
        s@ == dash_text(d, k as nat, unit@),
{
    match reading_string(d, k, unit) {
        Some(t) => t,
        None => "—".to_owned(),
    }
}


/// Runs one monitoring tick: refreshes the state with the new readings and
/// renders every label's text; the GPU texts only on every fourth tick.
pub fn update(monitor_state: &mut MonitorState, reading: SystemReading, gpu_data: GpuData) -> (out: TickOutput)
    requires
        old(monitor_state).tick_count < u64::MAX,
        gpu_data.wf(),
        refreshed(*old(monitor_state), reading, gpu_data).traffic_fits(),
    ensures
        *final(monitor_state) == refreshed(*old(monitor_state), reading, gpu_data),
        exists|secs: u64| out.uptime@ == uptime_text(secs as nat),
        out.cpu_freq == final(monitor_state).cpu_freq,
        out.ram@ == memory_text(final(monitor_state).used_memory, final(monitor_state).total_memory),
        out.swap@ == memory_text(final(monitor_state).used_swap, final(monitor_state).total_swap),
        out.cpu_usage == final(monitor_state).cpu_usage,
        out.processes@ == decimal(final(monitor_state).process_count as nat),
        exists|name: Option<String>| out.host@ == host_text(name),
        forall|i: int| 0 <= i < 3 ==> out.disks@[i]@ == mount_text(final(monitor_state).disks@, tracked_mount(i)),
        out.net_up@ == upload_text(*final(monitor_state)),
        out.net_down@ == download_text(*final(monitor_state)),
        gpu_part(out, final(monitor_state).gpu_data, final(monitor_state).tick_count % 4 == 1),
{
    monitor_state.refresh(reading, gpu_data);
    let uptime = read_uptime(monitor_state);
    let cpu_freq = read_cpu_freq(monitor_state);
    let ram = read_ram(monitor_state);
    let swap = read_swap(monitor_state);
    let cpu_usage = read_cpu_usage(monitor_state);
    let processes = read_processes_count(monitor_state);
    let host = read_host(monitor_state);
    let root = disk_at(&monitor_state.disks, "/");
    let data = disk_at(&monitor_state.disks, "/mnt/data");
    let warehouse = disk_at(&monitor_state.disks, "/mnt/warehouse");
    let net_up = read_network_upload(monitor_state);
    let net_down = read_network_download(monitor_state);
    let mut out = TickOutput {
        uptime,
        cpu_freq,
        ram,
        swap,
        cpu_usage,
        processes,
        host,
        disks: [root, data, warehouse],
        net_up,
        net_down,
        gpu_dirty: false,
        gpu_vendor: String::new(),
        gpu_usage: String::new(),
        vram: String::new(),
        vram_busy: String::new(),
        temp_junction: "—".to_owned(),
        temp_die: "—".to_owned(),
        temp_memory: "—".to_owned(),
        power_draw: None,
        power_cap: None,
        voltage: None,
        sclk: "—".to_owned(),
        mclk: "—".to_owned(),
        fclk: "—".to_owned(),
        socclk: "—".to_owned(),
        fan: None,
        pcie: "—".to_owned(),
        state: "—".to_owned(),
        pstate: "—".to_owned(),
        gpu_clock: "—".to_owned(),
    };
    proof {
        assert(out.disks@[0]@ == mount_text(monitor_state.disks@, tracked_mount(0)));
        assert(out.disks@[1]@ == mount_text(monitor_state.disks@, tracked_mount(1)));
        assert(out.disks@[2]@ == mount_text(monitor_state.disks@, tracked_mount(2)));
    }
    if monitor_state.tick_count % 4 == 1 {
        let g = &monitor_state.gpu_data;
        out.gpu_dirty = true;
        out.gpu_vendor = g.vendor.clone();
        let mut usage = decimal_string(g.gpu_busy);
        usage.append("%");
        out.gpu_usage = usage;
        out.vram = vram_string(g);
        let mut busy = decimal_string(g.gpu_busy);
        busy.append("%");
        out.vram_busy = busy;
        out.temp_junction = dash_string(g.temp_junction, 0, " °C");
        out.temp_die = out.temp_junction.clone();
        out.temp_memory = dash_string(g.temp_memory, 0, " °C");
        out.power_draw = reading_string(g.power_draw, 1, " W");
        out.power_cap = None;
        out.voltage = reading_string(g.voltage, 3, " V");
        out.sclk = g.shader_clock.clone();
        out.mclk = g.memory_clock.clone();
        out.fclk = g.fragment_clock.clone();
        out.socclk = g.soc_clock.clone();
        out.fan = reading_string(g.fan_speed, 0, " RPM");
        out.pcie = g.pcie_lane.clone();
        out.state = g.power_state.clone();
        out.pstate = g.performance_state.clone();
        out.gpu_clock = out.sclk.clone();
    }
    out
}

/// The labels of the overlay's main window.
#[derive(Clone, Copy, PartialEq, Eq, Structural)]
pub enum Label {
    Uptime,
    CpuFreq,
    Ram,
    Swap,
    CpuUsage,
    Processes,
    Host,
    DiskRoot,
    DiskMntData,
    DiskMntWarehouse,
    NetUp,
    NetDown,
    GpuRenderer,
    GpuUsage,
    Vram,
    VramBusy,
    TempJunction,
    TempDie,
    TempMemory,
    PowerDraw,
    PowerCap,
    Voltage,
    Sclk,
    Mclk,
    Fclk,
    Socclk,
    Fan,
    Pcie,
    State,
    Pstate,
    GpuClock,
}

/// A label and the text it is set to.
pub struct LabelUpdate {
    pub label: Label,
    pub text: String,
}

/// The update of label `l` to an optional text: none without a text.
pub open spec fn optional_update(l: Label, text: Option<String>) -> Seq<(Label, Seq<char>)> {
    match text {
        Some(t) => seq![(l, t@)],
        None => Seq::empty(),
    }
}

/// The updates of the system labels, in order.
pub open spec fn system_updates(o: TickOutput) -> Seq<(Label, Seq<char>)> {
    seq![
        (Label::Uptime, o.uptime@),
        (Label::CpuFreq, o.cpu_freq@),
        (Label::Ram, o.ram@),
        (Label::Swap, o.swap@),
        (Label::CpuUsage, o.cpu_usage@),
        (Label::Processes, o.processes@),
        (Label::Host, o.host@),
        (Label::DiskRoot, o.disks@[0]@),
        (Label::DiskMntData, o.disks@[1]@),
        (Label::DiskMntWarehouse, o.disks@[2]@),
        (Label::NetUp, o.net_up@),
        (Label::NetDown, o.net_down@),
    ]
}

/// The updates of the GPU load and temperature labels, in order.
pub open spec fn gpu_head_updates(o: TickOutput) -> Seq<(Label, Seq<char>)> {
    seq![
        (Label::GpuRenderer, o.gpu_vendor@),
        (Label::GpuUsage, o.gpu_usage@),
        (Label::Vram, o.vram@),
        (Label::VramBusy, o.vram_busy@),
        (Label::TempJunction, o.temp_junction@),
        (Label::TempDie, o.temp_die@),
        (Label::TempMemory, o.temp_memory@),
    ]
}

/// The updates of the power and voltage labels that have a text.
pub open spec fn power_updates(o: TickOutput) -> Seq<(Label, Seq<char>)> {
    optional_update(Label::PowerDraw, o.power_draw) + optional_update(Label::PowerCap, o.power_cap)
        + optional_update(Label::Voltage, o.voltage)
}

/// The updates of the clock labels, in order.
pub open spec fn clock_updates(o: TickOutput) -> Seq<(Label, Seq<char>)> {
    seq![
        (Label::Sclk, o.sclk@),
        (Label::Mclk, o.mclk@),
        (Label::Fclk, o.fclk@),
        (Label::Socclk, o.socclk@),
    ]
}

/// The updates of the link and state labels, in order.
pub open spec fn gpu_tail_updates(o: TickOutput) -> Seq<(Label, Seq<char>)> {
    seq![
        (Label::Pcie, o.pcie@),
        (Label::State, o.state@),
        (Label::Pstate, o.pstate@),
        (Label::GpuClock, o.gpu_clock@),
    ]
}

/// The updates of the GPU labels, in order, an optional text only where
/// there is one.
pub open spec fn gpu_updates(o: TickOutput) -> Seq<(Label, Seq<char>)> {
    gpu_head_updates(o) + power_updates(o) + clock_updates(o) + optional_update(Label::Fan, o.fan)
        + gpu_tail_updates(o)
}

/// The label updates a tick's output makes, in order: the system labels
/// always, the GPU labels only when the GPU fields were filled.
pub open spec fn label_updates(o: TickOutput) -> Seq<(Label, Seq<char>)> {
    system_updates(o) + if o.gpu_dirty {
        gpu_updates(o)
    } else {
        Seq::empty()
    }
}

/// The label and text of each update.
pub open spec fn update_views(us: Seq<LabelUpdate>) -> Seq<(Label, Seq<char>)> {
    us.map_values(|u: LabelUpdate| (u.label, u.text@))
}

fn set(updates: &mut Vec<LabelUpdate>, label: Label, text: &String)
    ensures
        update_views(final(updates)@) == update_views(old(updates)@).push((label, text@)),
{
    updates.push(LabelUpdate { label, text: text.clone() });
    proof {
        assert(update_views(updates@) =~= update_views(old(updates)@).push((label, text@)));
    }
}

fn set_optional(updates: &mut Vec<LabelUpdate>, label: Label, text: &Option<String>)
    ensures
        update_views(final(updates)@) == update_views(old(updates)@) + optional_update(label, *text),
{
    match text {
        Some(t) => {
            set(updates, label, t);
            proof {
                assert(update_views(updates@) =~= update_views(old(updates)@) + optional_update(label, *text));
            }
        },
        None => {
            proof {
                assert(update_views(updates@) =~= update_views(old(updates)@) + optional_update(label, *text));
            }
        },
    }
}

fn set_system(u: &mut Vec<LabelUpdate>, o: &TickOutput)
    ensures
        update_views(final(u)@) == update_views(old(u)@) + system_updates(*o),
{
    let ghost start = update_views(u@);
    set(u, Label::Uptime, &o.uptime);
    set(u, Label::CpuFreq, &o.cpu_freq);
    set(u, Label::Ram, &o.ram);
    set(u, Label::Swap, &o.swap);
    set(u, Label::CpuUsage, &o.cpu_usage);
    set(u, Label::Processes, &o.processes);
    let ghost half = update_views(u@);
    proof {
        assert(half =~= start + system_updates(*o).take(6));
    }
    set(u, Label::Host, &o.host);
    set(u, Label::DiskRoot, &o.disks[0]);
    set(u, Label::DiskMntData, &o.disks[1]);
    set(u, Label::DiskMntWarehouse, &o.disks[2]);
    set(u, Label::NetUp, &o.net_up);
    set(u, Label::NetDown, &o.net_down);
    proof {
        assert(update_views(u@) =~= half + system_updates(*o).skip(6));
        assert(update_views(u@) =~= start + system_updates(*o));
    }
}

fn set_gpu_head(u: &mut Vec<LabelUpdate>, o: &TickOutput)
    ensures
        update_views(final(u)@) == update_views(old(u)@) + gpu_head_updates(*o),
{
    let ghost start = update_views(u@);
    set(u, Label::GpuRenderer, &o.gpu_vendor);
    set(u, Label::GpuUsage, &o.gpu_usage);
    set(u, Label::Vram, &o.vram);
    set(u, Label::VramBusy, &o.vram_busy);
    set(u, Label::TempJunction, &o.temp_junction);
    set(u, Label::TempDie, &o.temp_die);
    set(u, Label::TempMemory, &o.temp_memory);
    proof {
        assert(update_views(u@) =~= start + gpu_head_updates(*o));
    }
}

fn set_power(u: &mut Vec<LabelUpdate>, o: &TickOutput)
    ensures
        update_views(final(u)@) == update_views(old(u)@) + power_updates(*o),
{
    let ghost start = update_views(u@);
    set_optional(u, Label::PowerDraw, &o.power_draw);
    set_optional(u, Label::PowerCap, &o.power_cap);
    set_optional(u, Label::Voltage, &o.voltage);
    proof {
        assert(update_views(u@) =~= start + power_updates(*o));
    }
}

fn set_clocks(u: &mut Vec<LabelUpdate>, o: &TickOutput)
    ensures
        update_views(final(u)@) == update_views(old(u)@) + clock_updates(*o),
{
    let ghost start = update_views(u@);
    set(u, Label::Sclk, &o.sclk);
    set(u, Label::Mclk, &o.mclk);
    set(u, Label::Fclk, &o.fclk);
    set(u, Label::Socclk, &o.socclk);
    proof {
        assert(update_views(u@) =~= start + clock_updates(*o));
    }
}

fn set_gpu_tail(u: &mut Vec<LabelUpdate>, o: &TickOutput)
    ensures
        update_views(final(u)@) == update_views(old(u)@) + gpu_tail_updates(*o),
{
    let ghost start = update_views(u@);
    set(u, Label::Pcie, &o.pcie);
    set(u, Label::State, &o.state);
    set(u, Label::Pstate, &o.pstate);
    set(u, Label::GpuClock, &o.gpu_clock);
    proof {
        assert(update_views(u@) =~= start + gpu_tail_updates(*o));
    }
}

/// The label updates that put a tick's output on screen.
pub fn apply_labels(output: &TickOutput) -> (updates: Vec<LabelUpdate>)
    ensures
        update_views(updates@) == label_updates(*output),
{
    let mut u: Vec<LabelUpdate> = Vec::new();
    proof {
        assert(update_views(u@) =~= Seq::empty());
    }
    set_system(&mut u, output);
    let ghost system = update_views(u@);
    if output.gpu_dirty {
        set_gpu_head(&mut u, output);
        let ghost a = update_views(u@);
        set_power(&mut u, output);
        let ghost b = update_views(u@);
        set_clocks(&mut u, output);
        let ghost c = update_views(u@);
        set_optional(&mut u, Label::Fan, &output.fan);
        let ghost d = update_views(u@);
        set_gpu_tail(&mut u, output);
        proof {
            assert(d =~= system + gpu_head_updates(*output) + power_updates(*output) + clock_updates(*output)
                + optional_update(Label::Fan, output.fan));
            assert(update_views(u@) =~= system + gpu_updates(*output));
        }
    } else {
        proof {
            assert(update_views(u@) =~= system + Seq::empty());
        }
    }
    u
}

} // verus!

//! The monitor's state between refreshes and the text of every reading the
//! overlay shows.

use vstd::prelude::*;
use vstd::string::*;
use crate::double::{
    Double, Float64, float_div, float_fixed, float_positive, printable, spec_div, spec_fixed,
    spec_from_u64,
};
use crate::gpu::{GpuData, sensor_of, sensor_value};
use crate::readings::{
    constant, f1000, f1e9, f1024, format_speed, gib, gib_of, percent, percent_of, speed_text, usage_string, usage_text,
};
use crate::text::{
    chars_of, decimal, decimal_string, first_with_prefix, lines, lines_of, push_decimal, push_zero_padded,
    has_prefix, starts_with, str_eq, string_of, zero_padded,
};

use vstd::arithmetic::div_mod::lemma_fundamental_div_mod_converse;

verus! {

/// One mounted disk as the monitor saw it.
pub struct DiskInfo {
    pub file_system: String,
    pub mount_point: String,
    pub total_space: u64,
    pub available_space: u64,
}

/// One network interface and its byte counters since boot.
pub struct NetworkInfo {
    pub name: String,
    pub total_received: u64,
    pub total_transmitted: u64,
}

/// A byte counter of a named interface, as recorded when the monitor started.
pub struct Counter {
    pub name: String,
    pub bytes: u64,
}

/// What one refresh of the system readings returns.  `cpu_usage` and
/// `cpu_freq` are the rendered average CPU load and clock, made where the
/// per-core samples and the CPU information file are read.
pub struct SystemReading {
    pub total_memory: u64,
    pub used_memory: u64,
    pub total_swap: u64,
    pub used_swap: u64,
    pub cpu_usage: String,
    pub cpu_freq: String,
    pub process_count: u64,
    pub disks: Vec<DiskInfo>,
    pub networks: Vec<NetworkInfo>,
}

/// The monitor's state: the latest readings, the network counters taken when
/// it started, and how many refreshes happened.
pub struct MonitorState {
    pub total_memory: u64,
    pub used_memory: u64,
    pub total_swap: u64,
    pub used_swap: u64,
    pub cpu_usage: String,
    pub cpu_freq: String,
    pub process_count: u64,
    pub disks: Vec<DiskInfo>,
    pub networks: Vec<NetworkInfo>,
    pub prev_rx: Vec<Counter>,
    pub prev_tx: Vec<Counter>,
    pub gpu_data: GpuData,
    pub tick_count: u64,
}

/// The counter of interface `n` (received when `!upload`, transmitted when `upload`).
pub open spec fn counter_from(n: NetworkInfo, upload: bool) -> Counter {
    Counter { name: n.name, bytes: if upload { n.total_transmitted } else { n.total_received } }
}

/// No two counters have the same interface name.
pub open spec fn unique_counters(cs: Seq<Counter>) -> bool {
    forall|i: int, j: int| 0 <= i < cs.len() && 0 <= j < cs.len() && i != j ==> cs[i].name@ != cs[j].name@
}

/// `cs` with counter `c` recorded: it replaces the counter of the same name
/// in its place, or is added at the end.
pub open spec fn counter_put(cs: Seq<Counter>, c: Counter) -> Seq<Counter> {
    if exists|i: int| 0 <= i < cs.len() && cs[i].name@ == c.name@ {
        cs.update(choose|i: int| 0 <= i < cs.len() && cs[i].name@ == c.name@, c)
    } else {
        cs.push(c)
    }
}

/// The counters of `nets`, one per interface name: of two entries with one
/// name the later one counts, as a map keyed by name keeps them.
pub open spec fn counters_of(nets: Seq<NetworkInfo>, upload: bool) -> Seq<Counter>
    decreases nets.len(),
{
    if nets.len() == 0 {
        Seq::empty()
    } else {
        counter_put(counters_of(nets.drop_last(), upload), counter_from(nets.last(), upload))
    }
}

/// Records counter `c` in `cs`, replacing the one of the same name.
fn put_counter(cs: &mut Vec<Counter>, c: Counter)
    requires
        unique_counters(old(cs)@),
    ensures
        final(cs)@ == counter_put(old(cs)@, c),
        unique_counters(final(cs)@),
{
    let ghost c0 = cs@;
    let mut i: usize = 0;
    while i < cs.len()
        invariant
            i <= cs.len(),
            cs@ == c0,
            old(cs)@ == c0,
            unique_counters(c0),
            forall|j: int| 0 <= j < i ==> cs@[j].name@ != c.name@,
        decreases cs.len() - i,
    {
        if str_eq(cs[i].name.as_str(), c.name.as_str()) {
            proof {
                assert(c0[i as int].name@ == c.name@);
                let k = choose|k: int| 0 <= k < c0.len() && c0[k].name@ == c.name@;
                assert(k == i as int);
            }
            cs.set(i, c);
            proof {
                assert(exists|k: int| 0 <= k < c0.len() && c0[k].name@ == c.name@);
                assert(cs@ == c0.update(i as int, c));
                assert(counter_put(c0, c) == c0.update(i as int, c));
                assert forall|a: int, b: int| 0 <= a < cs@.len() && 0 <= b < cs@.len() && a != b implies cs@[a].name@ != cs@[b].name@ by {
                    if a == i as int {
                        assert(c0[i as int].name@ == c.name@);
                    } else if b == i as int {
                        assert(c0[i as int].name@ == c.name@);
                    }
                }
            }
            return;
        }
        i = i + 1;
    }
    cs.push(c);
    proof {
        assert forall|a: int, b: int| 0 <= a < cs@.len() && 0 <= b < cs@.len() && a != b implies cs@[a].name@ != cs@[b].name@ by {
            if a < c0.len() && b < c0.len() {
                assert(cs@[a] == c0[a] && cs@[b] == c0[b]);
            } else if a < c0.len() {
                assert(cs@[a] == c0[a]);
            } else {
                assert(cs@[b] == c0[b]);
            }
        }
    }
}

/// The recorded count of interface `name`, or 0 when none was recorded.
pub open spec fn counter_of(prev: Seq<Counter>, name: Seq<char>) -> u64
    decreases prev.len(),
{
    if prev.len() == 0 {
        0
    } else if prev[0].name@ == name {
        prev[0].bytes
    } else {
        counter_of(prev.drop_first(), name)
    }
}

/// `a - b`, or 0 when `b > a`.
pub open spec fn sat_sub(a: u64, b: u64) -> u64 {
    if a >= b { (a - b) as u64 } else { 0 }
}

/// Bytes moved since the recorded counters, summed over every interface but
/// the loopback `lo` (transmitted when `upload`, received otherwise).
pub open spec fn traffic(nets: Seq<NetworkInfo>, prev: Seq<Counter>, upload: bool) -> int
    decreases nets.len(),
{
    if nets.len() == 0 {
        0
    } else {
        let n = nets.last();
        let now = if upload { n.total_transmitted } else { n.total_received };
        traffic(nets.drop_last(), prev, upload) + if n.name@ == "lo"@ {
            0
        } else {
            sat_sub(now, counter_of(prev, n.name@)) as int
        }
    }
}

/// Seconds the rates are averaged over: 0 before the second refresh, then 2.
pub open spec fn spec_interval(tick_count: u64) -> u64 {
    if tick_count <= 1 { 0 } else { 2 }
}

/// `"{days}d {hours:02}h {minutes:02}m {seconds:02}s"` of an uptime in seconds.
pub open spec fn uptime_text(secs: nat) -> Seq<char> {
    decimal(secs / 86400) + "d "@ + zero_padded((secs % 86400) / 3600, 2) + "h "@
        + zero_padded((secs % 3600) / 60, 2) + "m "@ + zero_padded(secs % 60, 2) + "s"@
}

/// The memory or swap line: used and total in GiB with the percentage, or
/// `"Loading..."` while the total is zero.
pub open spec fn memory_text(used: u64, total: u64) -> Seq<char> {
    if total > 0 {
        usage_text(gib(used), gib(total), percent_of(used, total))
    } else {
        "Loading..."@
    }
}

/// The host-name line: the name, or `"Loading..."` when there is none.
pub open spec fn host_text(name: Option<String>) -> Seq<char> {
    match name {
        Some(n) => n@,
        None => "Loading..."@,
    }
}

/// `sysinfo::Error`, the failure of a system query: carried through as an
/// opaque value and only told apart from success.
#[verifier::external_type_specification]
#[verifier::external_body]
pub struct ExSysinfoError(sysinfo::Error);

/// `sysinfo::System::uptime`: seconds since boot, read from the system on
/// every call; nothing is promised of the value.
#[verifier::external_body]
fn system_uptime() -> (r: Result<u64, sysinfo::Error>) {
    sysinfo::System::uptime()
}

/// `sysinfo::System::host_name`: the machine's host name, read from the
/// system on every call; nothing is promised of the value.
#[verifier::external_body]
fn system_host_name() -> (r: Result<String, sysinfo::Error>) {
    sysinfo::System::host_name()
}

/// The uptime line for `seconds` of uptime.
pub fn format_uptime(seconds: u64) -> (s: String)
    ensures
        s@ == uptime_text(seconds as nat),
{
    let days = seconds / 86400;
    let hours = (seconds % 86400) / 3600;
    let minutes = (seconds % 3600) / 60;
    let remaining_seconds = seconds % 60;
    let mut s = String::new();
    push_decimal(&mut s, days);
    s.append("d ");
    push_zero_padded(&mut s, hours as u128, 2);
    s.append("h ");
    push_zero_padded(&mut s, minutes as u128, 2);
    s.append("m ");
    push_zero_padded(&mut s, remaining_seconds as u128, 2);
    s.append("s");
    proof {
        assert(s@ =~= uptime_text(seconds as nat));
    }
    s
}

/// The host-name line for a name that may be missing.
pub fn format_host(name: Option<String>) -> (s: String)
    ensures
        s@ == host_text(name),
{
    match name {
        Some(n) => n,
        None => "Loading...".to_owned(),
    }
}

/// The memory or swap line for `used` of `total` bytes.
pub fn format_memory(used: u64, total: u64) -> (s: String)
    ensures
        s@ == memory_text(used, total),
{
    if total > 0 {
        let used_gb = gib_of(used);
        let total_gb = gib_of(total);
        let pct = percent(used, total);
        usage_string(used_gb, total_gb, pct)
    } else {
        "Loading...".to_owned()
    }
}

/// The recorded count of interface `name`.
fn lookup_counter(prev: &Vec<Counter>, name: &str) -> (r: u64)
    ensures
        r == counter_of(prev@, name@),
{
    let mut i: usize = 0;
    proof {
        assert(prev@.skip(0) =~= prev@);
    }
    while i < prev.len()
        invariant
            i <= prev.len(),
            counter_of(prev@, name@) == counter_of(prev@.skip(i as int), name@),
        decreases prev.len() - i,
    {
        proof {
            assert(prev@.skip(i as int).drop_first() =~= prev@.skip(i + 1));
            assert(prev@.skip(i as int)[0] == prev@[i as int]);
        }
        if str_eq(prev[i].name.as_str(), name) {
            return prev[i].bytes;
        }
        i = i + 1;
    }
    proof {
        assert(prev@.skip(i as int).len() == 0);
    }
    0
}

/// The state after a refresh with `reading` and `gpu_data`: one more tick,
/// the new readings, the start's counters.
pub open spec fn refreshed(m: MonitorState, reading: SystemReading, gpu_data: GpuData) -> MonitorState {
    MonitorState {
        total_memory: reading.total_memory,
        used_memory: reading.used_memory,
        total_swap: reading.total_swap,
        used_swap: reading.used_swap,
        cpu_usage: reading.cpu_usage,
        cpu_freq: reading.cpu_freq,
        process_count: reading.process_count,
        disks: reading.disks,
        networks: reading.networks,
        gpu_data,
        tick_count: (m.tick_count + 1) as u64,
        ..m
    }
}

impl MonitorState {
    /// Every reading well-formed, and one recorded counter per interface name.
    pub open spec fn wf(&self) -> bool {
        &&& self.gpu_data.wf()
        &&& unique_counters(self.prev_rx@)
        &&& unique_counters(self.prev_tx@)
    }

    /// The state after the first reading: counters recorded, no refresh yet.
    pub fn new(reading: SystemReading, gpu_data: GpuData) -> (m: Self)
        ensures
            m.total_memory == reading.total_memory,
            m.used_memory == reading.used_memory,
            m.total_swap == reading.total_swap,
            m.used_swap == reading.used_swap,
            m.cpu_usage == reading.cpu_usage,
            m.cpu_freq == reading.cpu_freq,
            m.process_count == reading.process_count,
            m.disks == reading.disks,
            m.networks == reading.networks,
            m.prev_rx@ == counters_of(reading.networks@, false),
            m.prev_tx@ == counters_of(reading.networks@, true),
            m.gpu_data == gpu_data,
            m.tick_count == 0,
            unique_counters(m.prev_rx@),
            unique_counters(m.prev_tx@),
            gpu_data.wf() ==> m.wf(),
    {
        let mut prev_rx: Vec<Counter> = Vec::new();
        let mut prev_tx: Vec<Counter> = Vec::new();
        let mut i: usize = 0;
        while i < reading.networks.len()
            invariant
                i <= reading.networks.len(),
                prev_rx@ == counters_of(reading.networks@.take(i as int), false),
                prev_tx@ == counters_of(reading.networks@.take(i as int), true),
                unique_counters(prev_rx@),
                unique_counters(prev_tx@),
            decreases reading.networks.len() - i,
        {
            let n = &reading.networks[i];
            proof {
                assert(reading.networks@.take(i + 1).drop_last() =~= reading.networks@.take(i as int));
                assert(reading.networks@.take(i + 1).last() == *n);
            }
            put_counter(&mut prev_rx, Counter { name: n.name.clone(), bytes: n.total_received });
            put_counter(&mut prev_tx, Counter { name: n.name.clone(), bytes: n.total_transmitted });
            i = i + 1;
        }
        proof {
            assert(reading.networks@.take(reading.networks@.len() as int) =~= reading.networks@);
        }
        MonitorState {
            total_memory: reading.total_memory,
            used_memory: reading.used_memory,
            total_swap: reading.total_swap,
            used_swap: reading.used_swap,
            cpu_usage: reading.cpu_usage,
            cpu_freq: reading.cpu_freq,
            process_count: reading.process_count,
            disks: reading.disks,
            networks: reading.networks,
            prev_rx,
            prev_tx,
            gpu_data,
            tick_count: 0,
        }
    }

    /// Takes a new reading; the recorded counters stay those of the start.
    pub fn refresh(&mut self, reading: SystemReading, gpu_data: GpuData)
        requires
            old(self).tick_count < u64::MAX,
        ensures
            *final(self) == refreshed(*old(self), reading, gpu_data),
    {
        self.tick_count = self.tick_count + 1;
        self.total_memory = reading.total_memory;
        self.used_memory = reading.used_memory;
        self.total_swap = reading.total_swap;
        self.used_swap = reading.used_swap;
        self.cpu_usage = reading.cpu_usage;
        self.cpu_freq = reading.cpu_freq;
        self.process_count = reading.process_count;
        self.disks = reading.disks;
        self.networks = reading.networks;
        self.gpu_data = gpu_data;
    }

    /// Seconds the network rates are averaged over.
    pub fn interval_secs(&self) -> (r: u64)
        ensures
            r == spec_interval(self.tick_count),
    {
        if self.tick_count <= 1 {
            0
        } else {
            2
        }
    }

    /// Whether both traffic sums fit in 64 bits, as the rate readings need.
    pub open spec fn traffic_fits(&self) -> bool {
        &&& traffic(self.networks@, self.prev_tx@, true) <= u64::MAX
        &&& traffic(self.networks@, self.prev_rx@, false) <= u64::MAX
    }

    /// Whether both traffic sums fit in 64 bits (the rate readings overflow otherwise).
    pub fn counters_fit(&self) -> (r: bool)
        ensures
            r == self.traffic_fits(),
    {
        let up = sum_traffic(&self.networks, &self.prev_tx, true);
        let down = sum_traffic(&self.networks, &self.prev_rx, false);
        up.is_some() && down.is_some()
    }
}

/// The traffic sum, or `None` when it exceeds 64 bits.
fn sum_traffic(nets: &Vec<NetworkInfo>, prev: &Vec<Counter>, upload: bool) -> (r: Option<u64>)
    ensures
        r matches Some(t) ==> t == traffic(nets@, prev@, upload),
        r is None <==> traffic(nets@, prev@, upload) > u64::MAX,
{
    let mut total: u64 = 0;
    let mut i: usize = 0;
    while i < nets.len()
        invariant
            i <= nets.len(),
            total == traffic(nets@.take(i as int), prev@, upload),
        decreases nets.len() - i,
    {
        let n = &nets[i];
        let now = if upload { n.total_transmitted } else { n.total_received };
        let delta = now.saturating_sub(lookup_counter(prev, n.name.as_str()));
        proof {
            assert(nets@.take(i + 1).drop_last() =~= nets@.take(i as int));
            assert(nets@.take(i + 1).last() == *n);
        }
        if !str_eq(n.name.as_str(), "lo") {
            match total.checked_add(delta) {
                Some(t) => {
                    total = t;
                },
                None => {
                    proof {
                        lemma_traffic_monotone(nets@, prev@, upload, i + 1);
                    }
                    return None;
                },
            }
        }
        i = i + 1;
    }
    proof {
        assert(nets@.take(nets@.len() as int) =~= nets@);
    }
    Some(total)
}

/// Traffic over a prefix never exceeds traffic over the whole list.
pub proof fn lemma_traffic_monotone(nets: Seq<NetworkInfo>, prev: Seq<Counter>, upload: bool, k: int)
    requires
        0 <= k <= nets.len(),
    ensures
        traffic(nets.take(k), prev, upload) <= traffic(nets, prev, upload),
    decreases nets.len() - k,
{
    if k < nets.len() {
        lemma_traffic_monotone(nets, prev, upload, k + 1);
        assert(nets.take(k + 1).drop_last() =~= nets.take(k));
    } else {
        assert(nets.take(k) =~= nets);
    }
}

/// The upload line: `"↑ "` and the rate transmitted since start.
pub open spec fn upload_text(m: MonitorState) -> Seq<char> {
    let i = spec_interval(m.tick_count);
    let divisor = if i == 0 { 1 } else { i };
    "↑ "@ + speed_text((traffic(m.networks@, m.prev_tx@, true) / divisor as int) as u64)
}

/// The download line: `"↓ "` and the rate received since start.
pub open spec fn download_text(m: MonitorState) -> Seq<char> {
    let i = spec_interval(m.tick_count);
    let divisor = if i == 0 { 1 } else { i };
    "↓ "@ + speed_text((traffic(m.networks@, m.prev_rx@, false) / divisor as int) as u64)
}

/// The seconds an uptime query answered: 0 when it failed.
pub open spec fn queried_seconds(r: Result<u64, sysinfo::Error>) -> u64 {
    match r {
        Ok(t) => t,
        Err(_) => 0,
    }
}

/// The host name a host-name query answered: none when it failed.
pub open spec fn queried_name(r: Result<String, sysinfo::Error>) -> Option<String> {
    match r {
        Ok(n) => Some(n),
        Err(_) => None,
    }
}

/// The uptime line for what an uptime query answered: its seconds, 0 when
/// the query failed.
pub fn uptime_line(answer: Result<u64, sysinfo::Error>) -> (s: String)
    ensures
        s@ == uptime_text(queried_seconds(answer) as nat),
        answer matches Ok(t) ==> s@ == uptime_text(t as nat),
{
    let seconds = match answer {
        Ok(t) => t,
        Err(_) => 0,
    };
    format_uptime(seconds)
}

/// The host-name line for what a host-name query answered: the name, or
/// `"Loading..."` when the query failed.
pub fn host_line(answer: Result<String, sysinfo::Error>) -> (s: String)
    ensures
        s@ == host_text(queried_name(answer)),
        answer matches Ok(n) ==> s@ == n@,
{
    let name = match answer {
        Ok(n) => Some(n),
        Err(_) => None,
    };
    format_host(name)
}

/// The uptime line, read from the system now; seconds it cannot read count as zero.
pub fn read_uptime(_monitor_state: &MonitorState) -> (s: String)
    ensures
        exists|secs: u64| s@ == uptime_text(secs as nat),
{
    uptime_line(system_uptime())
}

/// The host-name line, read from the system now.
pub fn read_host(_monitor_state: &MonitorState) -> (s: String)
    ensures
        exists|name: Option<String>| s@ == host_text(name),
{
    host_line(system_host_name())
}

/// The CPU clock line, as rendered at the last refresh.
pub fn read_cpu_freq(monitor_state: &MonitorState) -> (s: String)
    ensures
        s == monitor_state.cpu_freq,
{
    monitor_state.cpu_freq.clone()
}

/// The clock field of the CPU information file: what follows
/// `"cpu MHz\t\t: "` on the first line that starts with it.
pub open spec fn cpu_mhz_field_of(content: Seq<char>) -> Option<Seq<char>> {
    first_with_prefix(lines(content), "cpu MHz\t\t: "@)
}

/// Finds the clock field of the CPU information file.
pub fn cpu_mhz_field(content: &str) -> (r: Option<String>)
    ensures
        r matches Some(f) ==> cpu_mhz_field_of(content@) == Some(f@),
        r is None <==> cpu_mhz_field_of(content@) is None,
{
    let ls = lines_of(content);
    let ghost all = lines(content@);
    let ghost p = "cpu MHz\t\t: "@;
    proof {
        reveal_strlit("cpu MHz\t\t: ");
        assert(all.skip(0) =~= all);
    }
    let mut i: usize = 0;
    while i < ls.len()
        invariant
            i <= ls.len(),
            p == "cpu MHz\t\t: "@,
            p.len() == 11,
            ls@.map_values(|l: String| l@) == all,
            all == lines(content@),
            first_with_prefix(all, p) == first_with_prefix(all.skip(i as int), p),
        decreases ls.len() - i,
    {
        let v = chars_of(ls[i].as_str());
        proof {
            assert(all.len() == ls@.len());
            assert(all[i as int] == ls[i as int]@);
            assert(all.skip(i as int)[0] == all[i as int]);
            assert(all.skip(i as int).drop_first() =~= all.skip(i + 1));
        }
        if starts_with(&v, "cpu MHz\t\t: ") {
            let field = string_of(&v, 11, v.len());
            proof {
                assert(v@ == all[i as int]);
                assert(has_prefix(all.skip(i as int)[0], p));
                assert(field@ =~= all[i as int].skip(11));
                assert(first_with_prefix(all.skip(i as int), p) == Some(all.skip(i as int)[0].skip(p.len() as int)));
            }
            return Some(field);
        }
        i = i + 1;
    }
    proof {
        assert(all.len() == ls@.len());
        assert(all.skip(i as int).len() == 0);
    }
    None
}

/// The CPU clock line: the clock in GHz with one decimal where the file has
/// a clock line (`field` then holds the bits its value parses to as a float,
/// `None` where it does not parse), `"Loading.."` where it has none.
pub open spec fn cpu_freq_text(field: Option<Option<u64>>) -> Seq<char> {
    match field {
        Some(bits) => float_fixed(float_div(sensor_of(bits), f1000()), 1) + " GHz"@,
        None => "Loading.."@,
    }
}

/// Renders the CPU clock line.
pub fn format_cpu_freq(field: Option<Option<u64>>) -> (s: String)
    ensures
        s@ == cpu_freq_text(field),
{
    match field {
        Some(bits) => {
            let mhz = sensor_value(bits);
            let ghz = match mhz {
                Float64::Finite { negative, magnitude } => Float64::Finite {
                    negative,
                    magnitude: magnitude.div(&constant(1_000)),
                },
                _ => mhz,
            };
            let mut s = ghz.fixed(1);
            s.append(" GHz");
            s
        },
        None => "Loading..".to_owned(),
    }
}

/// The memory line.
pub fn read_ram(monitor_state: &MonitorState) -> (s: String)
    ensures
        s@ == memory_text(monitor_state.used_memory, monitor_state.total_memory),
{
    format_memory(monitor_state.used_memory, monitor_state.total_memory)
}

/// The swap line.
pub fn read_swap(monitor_state: &MonitorState) -> (s: String)
    ensures
        s@ == memory_text(monitor_state.used_swap, monitor_state.total_swap),
{
    if monitor_state.total_swap == 0 {
        return "Loading...".to_owned();
    }
    format_memory(monitor_state.used_swap, monitor_state.total_swap)
}

/// The average CPU load line, as rendered at the last refresh.
pub fn read_cpu_usage(monitor_state: &MonitorState) -> (s: String)
    ensures
        s == monitor_state.cpu_usage,
{
    monitor_state.cpu_usage.clone()
}

/// The number of processes.
pub fn read_processes_count(monitor_state: &MonitorState) -> (s: String)
    ensures
        s@ == decimal(monitor_state.process_count as nat),
{
    decimal_string(monitor_state.process_count)
}

/// The upload rate line.
pub fn read_network_upload(monitor_state: &MonitorState) -> (s: String)
    requires
        monitor_state.traffic_fits(),
    ensures
        s@ == upload_text(*monitor_state),
{
    let interval = monitor_state.interval_secs();
    let divisor = if interval == 0 { 1 } else { interval };
    let total = match sum_traffic(&monitor_state.networks, &monitor_state.prev_tx, true) {
        Some(t) => t,
        None => 0,
    };
    let mut s = "↑ ".to_owned();
    let rate = format_speed(total / divisor);
    s.append(rate.as_str());
    s
}

/// The download rate line.
pub fn read_network_download(monitor_state: &MonitorState) -> (s: String)
    requires
        monitor_state.traffic_fits(),
    ensures
        s@ == download_text(*monitor_state),
{
    let interval = monitor_state.interval_secs();
    let divisor = if interval == 0 { 1 } else { interval };
    let total = match sum_traffic(&monitor_state.networks, &monitor_state.prev_rx, false) {
        Some(t) => t,
        None => 0,
    };
    let mut s = "↓ ".to_owned();
    let rate = format_speed(total / divisor);
    s.append(rate.as_str());
    s
}

/// The parts of a path kept as components: not empty and not `"."`.
pub open spec fn kept_part(p: Seq<char>) -> Seq<Seq<char>> {
    if p.len() == 0 || p == seq!['.'] {
        Seq::empty()
    } else {
        seq![p]
    }
}

/// Scanning `s` left to right: the components completed so far and the part
/// being read.
pub open spec fn path_scan(s: Seq<char>) -> (Seq<Seq<char>>, Seq<char>)
    decreases s.len(),
{
    if s.len() == 0 {
        (Seq::empty(), Seq::empty())
    } else {
        let (done, cur) = path_scan(s.drop_last());
        if s.last() == '/' {
            (done + kept_part(cur), Seq::empty())
        } else {
            (done, cur.push(s.last()))
        }
    }
}

/// The named components of path `s`: its `/`-separated parts without empty
/// parts and `"."` (how paths compare component by component).
pub open spec fn path_parts(s: Seq<char>) -> Seq<Seq<char>> {
    path_scan(s).0 + kept_part(path_scan(s).1)
}

/// `s` is the path `/boot/efi` as paths compare: rooted, with exactly the
/// components `boot` and `efi`.
pub open spec fn is_boot_efi(s: Seq<char>) -> bool {
    &&& s.len() > 0
    &&& s[0] == '/'
    &&& path_parts(s) == seq![seq!['b', 'o', 'o', 't'], seq!['e', 'f', 'i']]
}

/// A disk the disks line lists: not a memory, device or overlay file system,
/// and not the EFI boot partition.
pub open spec fn tracked_disk(d: DiskInfo) -> bool {
    &&& d.file_system@ != "tmpfs"@
    &&& d.file_system@ != "devtmpfs"@
    &&& d.file_system@ != "overlay"@
    &&& !is_boot_efi(d.mount_point@)
}

/// Bytes in use on a disk.
pub open spec fn disk_used(d: DiskInfo) -> u64 {
    sat_sub(d.total_space, d.available_space)
}

/// The disk's usage in percent (0.0 for a disk of no size).
pub open spec fn disk_percent(d: DiskInfo) -> Double {
    if d.total_space > 0 {
        percent_of(disk_used(d), d.total_space)
    } else {
        Double { mant: 0, exp: 0 }
    }
}

/// A disk's usage: used and total in GB (10^9 bytes) with the percentage, or
/// `"Loading .."` while the percentage is zero.
pub open spec fn disk_text(d: DiskInfo) -> Seq<char> {
    if disk_percent(d).mant == 0 {
        "Loading .."@
    } else {
        usage_text(
            spec_div(spec_from_u64(disk_used(d)), f1e9()),
            spec_div(spec_from_u64(d.total_space), f1e9()),
            disk_percent(d),
        )
    }
}

/// `"{mount}: {usage}"` of a disk.
pub open spec fn disk_line(d: DiskInfo) -> Seq<char> {
    d.mount_point@ + ": "@ + disk_text(d)
}

/// The lines of the tracked disks of `ds`, in order.
pub open spec fn disk_lines(ds: Seq<DiskInfo>) -> Seq<Seq<char>>
    decreases ds.len(),
{
    if ds.len() == 0 {
        Seq::empty()
    } else if tracked_disk(ds.last()) {
        disk_lines(ds.drop_last()).push(disk_line(ds.last()))
    } else {
        disk_lines(ds.drop_last())
    }
}

/// `parts` joined with `sep` between neighbours.
pub open spec fn join(parts: Seq<Seq<char>>, sep: Seq<char>) -> Seq<char>
    decreases parts.len(),
{
    if parts.len() == 0 {
        Seq::empty()
    } else if parts.len() == 1 {
        parts[0]
    } else {
        join(parts.drop_last(), sep) + sep + parts.last()
    }
}

/// The disks line: every tracked disk's line, joined with `"\n • "`.
pub open spec fn disks_text(ds: Seq<DiskInfo>) -> Seq<char> {
    join(disk_lines(ds), "\n • "@)
}

/// Whether `part` holds exactly the characters of `word`.
fn part_is(part: &Vec<char>, word: &str) -> (r: bool)
    ensures
        r == (part@ == word@),
{
    let w = chars_of(word);
    if part.len() != w.len() {
        return false;
    }
    let mut i: usize = 0;
    while i < w.len()
        invariant
            w@ == word@,
            part.len() == w.len(),
            i <= w.len(),
            forall|j: int| 0 <= j < i ==> part@[j] == w@[j],
        decreases w.len() - i,
    {
        if part[i] != w[i] {
            return false;
        }
        i = i + 1;
    }
    proof {
        assert(part@ =~= w@);
    }
    true
}

fn keep_part(done: &mut Vec<Vec<char>>, cur: Vec<char>)
    ensures
        final(done)@.map_values(|p: Vec<char>| p@) == old(done)@.map_values(|p: Vec<char>| p@) + kept_part(cur@),
{
    let ghost before = done@.map_values(|p: Vec<char>| p@);
    if cur.len() == 0 || (cur.len() == 1 && cur[0] == '.') {
        proof {
            if cur.len() == 1 {
                assert(cur@ =~= seq!['.']);
            }
            assert(before + kept_part(cur@) =~= before);
        }
    } else {
        let ghost c = cur@;
        done.push(cur);
        proof {
            assert(c != seq!['.']);
            assert(done@.map_values(|p: Vec<char>| p@) =~= before + kept_part(c));
        }
    }
}

/// Whether `mount` is the path `/boot/efi`, compared component by component.
pub fn is_boot_efi_path(mount: &str) -> (r: bool)
    ensures
        r == is_boot_efi(mount@),
{
    let cs = chars_of(mount);
    let done = path_components(mount);
    let parts = &done;
    proof {
        assert(parts@.map_values(|p: Vec<char>| p@) == path_parts(mount@));
    }
    if cs.len() == 0 || cs[0] != '/' {
        return false;
    }
    if parts.len() != 2 {
        proof {
            assert(path_parts(mount@).len() != 2);
        }
        return false;
    }
    let r = part_is(&parts[0], "boot") && part_is(&parts[1], "efi");
    proof {
        reveal_strlit("boot");
        reveal_strlit("efi");
        assert("boot"@ =~= seq!['b', 'o', 'o', 't']);
        assert("efi"@ =~= seq!['e', 'f', 'i']);
        let ps = parts@.map_values(|p: Vec<char>| p@);
        assert(ps[0] == parts@[0]@);
        assert(ps[1] == parts@[1]@);
        if r {
            assert(ps =~= seq![seq!['b', 'o', 'o', 't'], seq!['e', 'f', 'i']]);
        } else {
            if ps == seq![seq!['b', 'o', 'o', 't'], seq!['e', 'f', 'i']] {
                assert(parts@[0]@ =~= "boot"@);
                assert(parts@[1]@ =~= "efi"@);
            }
        }
    }
    r
}

/// The components of path `s`.
fn path_components(s: &str) -> (r: Vec<Vec<char>>)
    ensures
        r@.map_values(|p: Vec<char>| p@) == path_parts(s@),
{
    let cs = chars_of(s);
    let mut done: Vec<Vec<char>> = Vec::new();
    let mut cur: Vec<char> = Vec::new();
    let mut i: usize = 0;
    while i < cs.len()
        invariant
            cs@ == s@,
            i <= cs.len(),
            (done@.map_values(|p: Vec<char>| p@), cur@) == path_scan(cs@.take(i as int)),
        decreases cs.len() - i,
    {
        proof {
            assert(cs@.take(i + 1).drop_last() =~= cs@.take(i as int));
            assert(cs@.take(i + 1).last() == cs@[i as int]);
        }
        if cs[i] == '/' {
            let finished = cur;
            cur = Vec::new();
            keep_part(&mut done, finished);
        } else {
            cur.push(cs[i]);
        }
        i = i + 1;
    }
    proof {
        assert(cs@.take(cs@.len() as int) =~= cs@);
    }
    keep_part(&mut done, cur);
    done
}

/// Whether two character vectors hold the same characters.
fn chars_eq(a: &Vec<char>, b: &Vec<char>) -> (r: bool)
    ensures
        r == (a@ == b@),
{
    if a.len() != b.len() {
        return false;
    }
    let mut i: usize = 0;
    while i < a.len()
        invariant
            a.len() == b.len(),
            i <= a.len(),
            forall|j: int| 0 <= j < i ==> a@[j] == b@[j],
        decreases a.len() - i,
    {
        if a[i] != b[i] {
            return false;
        }
        i = i + 1;
    }
    proof {
        assert(a@ =~= b@);
    }
    true
}

/// A path that starts at the root.
pub open spec fn rooted(s: Seq<char>) -> bool {
    s.len() > 0 && s[0] == '/'
}

/// Two paths that compare equal: both rooted or neither, with the same
/// components.
pub open spec fn same_path(a: Seq<char>, b: Seq<char>) -> bool {
    rooted(a) == rooted(b) && path_parts(a) == path_parts(b)
}

/// Whether paths `a` and `b` compare equal.
pub fn is_same_path(a: &str, b: &str) -> (r: bool)
    ensures
        r == same_path(a@, b@),
{
    let ra = a.unicode_len() > 0 && a.get_char(0) == '/';
    let rb = b.unicode_len() > 0 && b.get_char(0) == '/';
    if ra != rb {
        return false;
    }
    let pa = path_components(a);
    let pb = path_components(b);
    let ghost sa = pa@.map_values(|p: Vec<char>| p@);
    let ghost sb = pb@.map_values(|p: Vec<char>| p@);
    if pa.len() != pb.len() {
        proof {
            assert(sa.len() != sb.len());
        }
        return false;
    }
    let mut i: usize = 0;
    while i < pa.len()
        invariant
            pa.len() == pb.len(),
            i <= pa.len(),
            sa == pa@.map_values(|p: Vec<char>| p@),
            sb == pb@.map_values(|p: Vec<char>| p@),
            sa == path_parts(a@),
            sb == path_parts(b@),
            rooted(a@) == rooted(b@),
            forall|j: int| 0 <= j < i ==> sa[j] == sb[j],
        decreases pa.len() - i,
    {
        if !chars_eq(&pa[i], &pb[i]) {
            proof {
                assert(sa[i as int] != sb[i as int]);
            }
            return false;
        }
        i = i + 1;
    }
    proof {
        assert(sa =~= sb);
    }
    true
}

/// Whether the disks line lists disk `d`.
pub fn is_tracked_disk(d: &DiskInfo) -> (r: bool)
    ensures
        r == tracked_disk(*d),
{
    let fs = d.file_system.as_str();
    !str_eq(fs, "tmpfs") && !str_eq(fs, "devtmpfs") && !str_eq(fs, "overlay")
        && !is_boot_efi_path(d.mount_point.as_str())
}

/// A disk's usage text.
pub fn format_disk(disk: &DiskInfo) -> (s: String)
    ensures
        s@ == disk_text(*disk),
{
    let total = disk.total_space;
    let avail = disk.available_space;
    let used = total.saturating_sub(avail);
    let giga = constant(1_000_000_000);
    let total_gb = Double::from_u64(total).div(&giga);
    let used_gb = Double::from_u64(used).div(&giga);
    let pct = if total > 0 {
        percent(used, total)
    } else {
        Double::zero()
    };
    if pct.is_zero() {
        "Loading ..".to_owned()
    } else {
        usage_string(used_gb, total_gb, pct)
    }
}

/// The disks line.
pub fn read_disks(monitor_state: &MonitorState) -> (s: String)
    ensures
        s@ == disks_text(monitor_state.disks@),
{
    let ds = &monitor_state.disks;
    let mut out = String::new();
    let mut count: usize = 0;
    let mut i: usize = 0;
    while i < ds.len()
        invariant
            i <= ds.len(),
            count == disk_lines(ds@.take(i as int)).len(),
            count <= i,
            out@ == join(disk_lines(ds@.take(i as int)), "\n • "@),
        decreases ds.len() - i,
    {
        proof {
            assert(ds@.take(i + 1).drop_last() =~= ds@.take(i as int));
            assert(ds@.take(i + 1).last() == ds@[i as int]);
        }
        let d = &ds[i];
        if is_tracked_disk(d) {
            let ghost before = out@;
            if count > 0 {
                out.append("\n • ");
            }
            out.append(d.mount_point.as_str());
            out.append(": ");
            let usage = format_disk(d);
            out.append(usage.as_str());
            proof {
                let ls = disk_lines(ds@.take(i + 1));
                assert(ls.drop_last() == disk_lines(ds@.take(i as int)));
                if count > 0 {
                    assert(out@ =~= before + "\n • "@ + disk_line(*d));
                } else {
                    assert(ls.len() == 1);
                    assert(out@ =~= disk_line(*d));
                }
            }
            count = count + 1;
        }
        i = i + 1;
    }
    proof {
        assert(ds@.take(ds@.len() as int) =~= ds@);
    }
    out
}

/// `"{}%"` of a whole percentage.
pub open spec fn percent_line(x: u64) -> Seq<char> {
    decimal(x as nat) + "%"@
}

/// The VRAM line: used and total in MB with the percentage, or empty while
/// the total is zero.
pub open spec fn vram_text(g: GpuData) -> Seq<char> {
    if g.vram_total_kb > 0 {
        spec_fixed(spec_div(spec_from_u64(g.vram_used_kb), f1024()), 0) + "/"@ + spec_fixed(
            spec_div(spec_from_u64(g.vram_total_kb), f1024()),
            0,
        ) + " MB ("@ + spec_fixed(percent_of(g.vram_used_kb, g.vram_total_kb), 0) + "%)"@
    } else {
        Seq::empty()
    }
}

/// `"{:.k}{unit}"` of a positive reading, empty otherwise.
pub open spec fn positive_text(d: Float64, k: nat, unit: Seq<char>) -> Seq<char> {
    if float_positive(d) {
        float_fixed(d, k) + unit
    } else {
        Seq::empty()
    }
}

/// `Some("{:.k}{unit}")` of a positive reading, `None` otherwise.
pub open spec fn some_text(d: Float64, k: nat, unit: Seq<char>) -> Option<Seq<char>> {
    if float_positive(d) {
        Some(float_fixed(d, k) + unit)
    } else {
        None
    }
}

/// The characters of an optional string.
pub open spec fn opt_view(o: Option<String>) -> Option<Seq<char>> {
    match o {
        Some(s) => Some(s@),
        None => None,
    }
}

/// `Some` of `"{:.k}{unit}"` of a positive reading, `None` otherwise.
pub(crate) fn reading_string(d: Float64, k: u32, unit: &str) -> (s: Option<String>)
    requires
        printable(d),
        k <= 3,
    ensures
        opt_view(s) == some_text(d, k as nat, unit@),
{
    if d.is_positive() {
        let mut s = d.fixed(k);
        s.append(unit);
        Some(s)
    } else {
        None
    }
}

fn positive_string(d: Float64, k: u32, unit: &str) -> (s: String)
    requires
        printable(d),
        k <= 3,
    ensures
        s@ == positive_text(d, k as nat, unit@),
{
    match reading_string(d, k, unit) {
        Some(t) => t,
        None => String::new(),
    }
}

/// `"{:.0}/{:.0} MB ({:.0}%)"` of used and total VRAM in MB and the share
/// used (0 while the total is zero).
pub open spec fn vram_line(g: GpuData) -> Seq<char> {
    let pct = if g.vram_total_kb > 0 {
        percent_of(g.vram_used_kb, g.vram_total_kb)
    } else {
        Double { mant: 0, exp: 0 }
    };
    spec_fixed(spec_div(spec_from_u64(g.vram_used_kb), f1024()), 0) + "/"@ + spec_fixed(
        spec_div(spec_from_u64(g.vram_total_kb), f1024()),
        0,
    ) + " MB ("@ + spec_fixed(pct, 0) + "%)"@
}

/// The VRAM line for `g`, whatever its total.
pub(crate) fn vram_string(g: &GpuData) -> (s: String)
    ensures
        s@ == vram_line(*g),
{
    let k = constant(1024);
    let used_mb = Double::from_u64(g.vram_used_kb).div(&k);
    let total_mb = Double::from_u64(g.vram_total_kb).div(&k);
    let pct = if g.vram_total_kb > 0 {
        percent(g.vram_used_kb, g.vram_total_kb)
    } else {
        Double::zero()
    };
    let mut s = used_mb.fixed(0);
    s.append("/");
    let t = total_mb.fixed(0);
    s.append(t.as_str());
    s.append(" MB (");
    let p = pct.fixed(0);
    s.append(p.as_str());
    s.append("%)");
    s
}

/// The GPU vendor line.
pub fn read_gpu_renderer(monitor_state: &MonitorState) -> (s: String)
    ensures
        s == monitor_state.gpu_data.vendor,
{
    monitor_state.gpu_data.vendor.clone()
}

/// The GPU load line.
pub fn read_gpu_usage(monitor_state: &MonitorState) -> (s: String)
    ensures
        s@ == percent_line(monitor_state.gpu_data.gpu_busy),
{
    let mut s = decimal_string(monitor_state.gpu_data.gpu_busy);
    s.append("%");
    s
}

/// The VRAM line.
pub fn read_vram(monitor_state: &MonitorState) -> (s: String)
    ensures
        s@ == vram_text(monitor_state.gpu_data),
{
    let g = &monitor_state.gpu_data;
    if g.vram_total_kb > 0 {
        vram_string(g)
    } else {
        String::new()
    }
}

/// The VRAM load line (the GPU load).
pub fn read_vram_busy(monitor_state: &MonitorState) -> (s: String)
    ensures
        s@ == percent_line(monitor_state.gpu_data.gpu_busy),
{
    let mut s = decimal_string(monitor_state.gpu_data.gpu_busy);
    s.append("%");
    s
}

/// The GPU clock line (the shader clock).
pub fn read_gpu_clock(monitor_state: &MonitorState) -> (s: String)
    ensures
        s == monitor_state.gpu_data.shader_clock,
{
    monitor_state.gpu_data.shader_clock.clone()
}

/// The junction temperature line.
pub fn read_temp_junction(monitor_state: &MonitorState) -> (s: String)
    requires
        monitor_state.wf(),
    ensures
        s@ == positive_text(monitor_state.gpu_data.temp_junction, 0, " °C"@),
{
    positive_string(monitor_state.gpu_data.temp_junction, 0, " °C")
}

/// The die temperature line (the junction temperature).
pub fn read_temp_die(monitor_state: &MonitorState) -> (s: String)
    requires
        monitor_state.wf(),
    ensures
        s@ == positive_text(monitor_state.gpu_data.temp_junction, 0, " °C"@),
{
    read_temp_junction(monitor_state)
}

/// The memory temperature line.
pub fn read_temp_memory(monitor_state: &MonitorState) -> (s: String)
    requires
        monitor_state.wf(),
    ensures
        s@ == positive_text(monitor_state.gpu_data.temp_memory, 0, " °C"@),
{
    positive_string(monitor_state.gpu_data.temp_memory, 0, " °C")
}

/// The power draw line.
pub fn read_power_draw(monitor_state: &MonitorState) -> (s: String)
    requires
        monitor_state.wf(),
    ensures
        s@ == positive_text(monitor_state.gpu_data.power_draw, 1, " W"@),
{
    positive_string(monitor_state.gpu_data.power_draw, 1, " W")
}

/// The voltage line.
pub fn read_voltage(monitor_state: &MonitorState) -> (s: String)
    requires
        monitor_state.wf(),
    ensures
        s@ == positive_text(monitor_state.gpu_data.voltage, 3, " V"@),
{
    positive_string(monitor_state.gpu_data.voltage, 3, " V")
}

/// The shader clock line.
pub fn read_shader_clock(monitor_state: &MonitorState) -> (s: String)
    ensures
        s == monitor_state.gpu_data.shader_clock,
{
    monitor_state.gpu_data.shader_clock.clone()
}

/// The memory clock line.
pub fn read_memory_clock(monitor_state: &MonitorState) -> (s: String)
    ensures
        s == monitor_state.gpu_data.memory_clock,
{
    monitor_state.gpu_data.memory_clock.clone()
}

/// The fabric clock line.
pub fn read_fragment_clock(monitor_state: &MonitorState) -> (s: String)
    ensures
        s == monitor_state.gpu_data.fragment_clock,
{
    monitor_state.gpu_data.fragment_clock.clone()
}

/// The SoC clock line.
pub fn read_soc_clock(monitor_state: &MonitorState) -> (s: String)
    ensures
        s == monitor_state.gpu_data.soc_clock,
{
    monitor_state.gpu_data.soc_clock.clone()
}

/// The fan line.
pub fn read_fan(monitor_state: &MonitorState) -> (s: String)
    requires
        monitor_state.wf(),
    ensures
        s@ == positive_text(monitor_state.gpu_data.fan_speed, 0, ""@),
{
    positive_string(monitor_state.gpu_data.fan_speed, 0, "")
}

/// The PCIe link line.
pub fn read_pcie_lane(monitor_state: &MonitorState) -> (s: String)
    ensures
        s == monitor_state.gpu_data.pcie_lane,
{
    monitor_state.gpu_data.pcie_lane.clone()
}

/// The power state line.
pub fn read_power_state(monitor_state: &MonitorState) -> (s: String)
    ensures
        s == monitor_state.gpu_data.power_state,
{
    monitor_state.gpu_data.power_state.clone()
}

/// The performance state line.
pub fn read_performance_state(monitor_state: &MonitorState) -> (s: String)
    ensures
        s == monitor_state.gpu_data.performance_state,
{
    monitor_state.gpu_data.performance_state.clone()
}


/// The rates are the traffic since start per second over 2 seconds from the
/// second refresh on, and the traffic itself before.
pub proof fn law_rates_over_two_seconds(m: MonitorState)
    ensures
        m.tick_count >= 2 ==> upload_text(m) == "↑ "@ + speed_text((traffic(m.networks@, m.prev_tx@, true) / 2) as u64),
        m.tick_count >= 2 ==> download_text(m) == "↓ "@ + speed_text((traffic(m.networks@, m.prev_rx@, false) / 2) as u64),
        m.tick_count <= 1 ==> upload_text(m) == "↑ "@ + speed_text(traffic(m.networks@, m.prev_tx@, true) as u64),
        m.tick_count <= 1 ==> download_text(m) == "↓ "@ + speed_text(traffic(m.networks@, m.prev_rx@, false) as u64),
{
}

/// The disks line of a single disk is its line exactly when its file system
/// is none of `tmpfs`, `devtmpfs` and `overlay` and it is not mounted at
/// `/boot/efi`; it is empty otherwise.  Every other file system is listed.
pub proof fn law_listed_disks(d: DiskInfo)
    ensures
        tracked_disk(d) <==> !(d.file_system@ == "tmpfs"@ || d.file_system@ == "devtmpfs"@ || d.file_system@ == "overlay"@)
            && !is_boot_efi(d.mount_point@),
        disks_text(seq![d]) == if !(d.file_system@ == "tmpfs"@ || d.file_system@ == "devtmpfs"@ || d.file_system@ == "overlay"@)
            && !is_boot_efi(d.mount_point@) {
            disk_line(d)
        } else {
            Seq::empty()
        },
{
    let ds = seq![d];
    assert(ds.drop_last() =~= Seq::<DiskInfo>::empty());
    assert(ds.last() == d);
    assert(disk_lines(Seq::<DiskInfo>::empty()) =~= Seq::<Seq<char>>::empty());
    if tracked_disk(d) {
        assert(disk_lines(ds) =~= seq![disk_line(d)]);
    } else {
        assert(disk_lines(ds) =~= Seq::<Seq<char>>::empty());
    }
}


/// An uptime of `days` days, `hours` hours, `minutes` minutes and `seconds`
/// seconds (each below its next unit) reads as those four numbers, the last
/// three in two digits.
pub proof fn law_uptime_parts(days: nat, hours: nat, minutes: nat, seconds: nat)
    requires
        hours < 24,
        minutes < 60,
        seconds < 60,
    ensures
        uptime_text(days * 86400 + hours * 3600 + minutes * 60 + seconds) == decimal(days) + "d "@
            + zero_padded(hours, 2) + "h "@ + zero_padded(minutes, 2) + "m "@ + zero_padded(seconds, 2) + "s"@,
{
    let x: int = (days * 86400 + hours * 3600 + minutes * 60 + seconds) as int;
    let in_day: int = (hours * 3600 + minutes * 60 + seconds) as int;
    let in_hour: int = (minutes * 60 + seconds) as int;
    assert(x == days * 86400 + in_day);
    lemma_fundamental_div_mod_converse(x, 86400, days as int, in_day);
    lemma_fundamental_div_mod_converse(in_day, 3600, hours as int, in_hour);
    assert(x == (days * 24 + hours) * 3600 + in_hour) by (nonlinear_arith)
        requires
            x == days * 86400 + hours * 3600 + in_hour,
    {
    }
    lemma_fundamental_div_mod_converse(x, 3600, (days * 24 + hours) as int, in_hour);
    lemma_fundamental_div_mod_converse(in_hour, 60, minutes as int, seconds as int);
    assert(x == (days * 1440 + hours * 60 + minutes) * 60 + seconds) by (nonlinear_arith)
        requires
            x == days * 86400 + hours * 3600 + minutes * 60 + seconds,
    {
    }
    lemma_fundamental_div_mod_converse(x, 60, (days * 1440 + hours * 60 + minutes) as int, seconds as int);
}

} // verus!

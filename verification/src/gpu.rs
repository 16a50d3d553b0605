//! GPU readings and the parsing of the files and tool output they come from.

use vstd::prelude::*;
use vstd::string::*;
use crate::double::{
    Double, Float64, decoded, float_zero, positive_zero, printable, reading_of, spec_div, spec_from_u64,
};
use crate::readings::{constant, f1000, f1e6};
use crate::text::{
    chars_of, chars_are, ends_with, first_line, first_line_of, has_prefix, has_suffix, parse_u64,
    parse_u64_str, split_of, split_on, starts_with, str_eq, string_of, tokens, tokens_of, trim,
    trimmed,
};

verus! {

/// One reading of the GPU.  Temperatures are in degrees Celsius, power in
/// watts, voltage in volts, fan speed in RPM (sysfs) or percent (driver tool);
/// a value the driver tool gives is kept as it parses, sign, infinities and
/// NaN included.
pub struct GpuData {
    pub vendor: String,
    pub gpu_busy: u64,
    pub vram_total_kb: u64,
    pub vram_used_kb: u64,
    pub temp_junction: Float64,
    pub temp_memory: Float64,
    pub power_draw: Float64,
    pub voltage: Float64,
    pub shader_clock: String,
    pub memory_clock: String,
    pub fragment_clock: String,
    pub soc_clock: String,
    pub fan_speed: Float64,
    pub pcie_lane: String,
    pub power_state: String,
    pub performance_state: String,
}

/// The values a hwmon directory can set.
pub struct Sensors {
    pub temp_junction: Float64,
    pub temp_memory: Float64,
    pub power_draw: Float64,
    pub voltage: Float64,
    pub fan_speed: Float64,
}

/// No sensor reading: all values zero.
pub open spec fn no_sensors() -> Sensors {
    Sensors {
        temp_junction: positive_zero(),
        temp_memory: positive_zero(),
        power_draw: positive_zero(),
        voltage: positive_zero(),
        fan_speed: positive_zero(),
    }
}

impl GpuData {
    /// All readings well-formed.
    pub open spec fn wf(&self) -> bool {
        &&& printable(self.temp_junction)
        &&& printable(self.temp_memory)
        &&& printable(self.power_draw)
        &&& printable(self.voltage)
        &&& printable(self.fan_speed)
    }

    /// The five sensor values of the reading.
    pub open spec fn sensors(&self) -> Sensors {
        Sensors {
            temp_junction: self.temp_junction,
            temp_memory: self.temp_memory,
            power_draw: self.power_draw,
            voltage: self.voltage,
            fan_speed: self.fan_speed,
        }
    }

    /// No reading: empty strings and zeros.
    pub fn default() -> (g: GpuData)
        ensures
            g.wf(),
            g.vendor@.len() == 0,
            g.gpu_busy == 0,
            g.vram_total_kb == 0,
            g.vram_used_kb == 0,
            g.sensors() == no_sensors(),
            g.shader_clock@.len() == 0,
            g.memory_clock@.len() == 0,
            g.fragment_clock@.len() == 0,
            g.soc_clock@.len() == 0,
            g.pcie_lane@.len() == 0,
            g.power_state@.len() == 0,
            g.performance_state@.len() == 0,
    {
        GpuData {
            vendor: String::new(),
            gpu_busy: 0,
            vram_total_kb: 0,
            vram_used_kb: 0,
            temp_junction: Float64::Finite { negative: false, magnitude: Double::zero() },
            temp_memory: Float64::Finite { negative: false, magnitude: Double::zero() },
            power_draw: Float64::Finite { negative: false, magnitude: Double::zero() },
            voltage: Float64::Finite { negative: false, magnitude: Double::zero() },
            shader_clock: String::new(),
            memory_clock: String::new(),
            fragment_clock: String::new(),
            soc_clock: String::new(),
            fan_speed: Float64::Finite { negative: false, magnitude: Double::zero() },
            pcie_lane: String::new(),
            power_state: String::new(),
            performance_state: String::new(),
        }
    }
}

/// `read_sysfs_string`: the trimmed content of a file that could be read.
pub open spec fn sysfs_string(content: Option<String>) -> Option<Seq<char>> {
    match content {
        Some(c) => Some(trim(c@)),
        None => None,
    }
}

/// `read_sysfs_u64`: the trimmed content of a file parsed as a number, 0
/// when the file could not be read or holds no number.
pub open spec fn sysfs_u64(content: Option<String>) -> u64 {
    match content {
        Some(c) => match parse_u64(trim(c@)) {
            Some(v) => v,
            None => 0,
        },
        None => 0,
    }
}

/// `read_sysfs_first_line`: the first line of a file that could be read.
pub open spec fn sysfs_first_line(content: Option<String>) -> Option<Seq<char>> {
    match content {
        Some(c) => first_line(c@),
        None => None,
    }
}

/// A token that marks the previous frequency as the active one.
pub open spec fn active_marker(t: Seq<char>) -> bool {
    has_prefix(t, "[current"@) || t == "active]"@ || t == "*"@
}

/// A token that names a frequency.
pub open spec fn frequency_token(t: Seq<char>) -> bool {
    has_suffix(t, "MHz"@) || has_suffix(t, "Mhz"@) || has_suffix(t, "kHz"@)
}

/// Scanning DPM clock tokens: the frequency seen last before the first active
/// marker that follows one, else empty.
pub open spec fn clock_scan(toks: Seq<Seq<char>>, prev: Seq<char>) -> Seq<char>
    decreases toks.len(),
{
    if toks.len() == 0 {
        Seq::empty()
    } else {
        let t = toks[0];
        if active_marker(t) {
            if prev.len() > 0 {
                prev
            } else {
                clock_scan(toks.drop_first(), prev)
            }
        } else if frequency_token(t) {
            clock_scan(toks.drop_first(), t)
        } else {
            clock_scan(toks.drop_first(), prev)
        }
    }
}

/// `read_sysfs_active_clock`: the frequency of a DPM clock file's active
/// level, empty when the file could not be read or marks none.
pub open spec fn active_clock(content: Option<String>) -> Seq<char> {
    match content {
        Some(c) => clock_scan(tokens(c@), Seq::empty()),
        None => Seq::empty(),
    }
}

/// The trimmed content of a file that could be read.
pub fn read_sysfs_string(content: &Option<String>) -> (r: Option<String>)
    ensures
        r matches Some(s) ==> sysfs_string(*content) == Some(s@),
        r is None <==> content is None,
{
    match content {
        Some(c) => Some(trimmed(c.as_str())),
        None => None,
    }
}

/// A file's content as a number, 0 when unreadable or not a number.
pub fn read_sysfs_u64(content: &Option<String>) -> (r: u64)
    ensures
        r == sysfs_u64(*content),
{
    match content {
        Some(c) => {
            let t = trimmed(c.as_str());
            match parse_u64_str(t.as_str()) {
                Some(v) => v,
                None => 0,
            }
        },
        None => 0,
    }
}

/// The first line of a file that could be read.
pub fn read_sysfs_first_line(content: &Option<String>) -> (r: Option<String>)
    ensures
        r matches Some(s) ==> sysfs_first_line(*content) == Some(s@),
        r is None <==> sysfs_first_line(*content) is None,
{
    match content {
        Some(c) => first_line_of(c.as_str()),
        None => None,
    }
}

/// The active frequency of a DPM clock file.
pub fn read_sysfs_active_clock(content: &Option<String>) -> (r: String)
    ensures
        r@ == active_clock(*content),
{
    let c = match content {
        Some(c) => c,
        None => return String::new(),
    };
    let toks = tokens_of(&chars_of(c.as_str()));
    let ghost ts = toks@.map_values(|p: Vec<char>| p@);
    let mut prev: Vec<char> = Vec::new();
    let mut i: usize = 0;
    proof {
        assert(ts.skip(0) =~= ts);
    }
    while i < toks.len()
        invariant
            active_clock(*content) == clock_scan(ts, Seq::empty()),
            i <= toks.len(),
            ts == toks@.map_values(|p: Vec<char>| p@),
            ts == tokens(c@),
            clock_scan(ts, Seq::empty()) == clock_scan(ts.skip(i as int), prev@),
        decreases toks.len() - i,
    {
        let t = &toks[i];
        proof {
            assert(ts.skip(i as int).drop_first() =~= ts.skip(i + 1));
            assert(ts.skip(i as int)[0] == t@);
        }
        if starts_with(t, "[current") || chars_are(t, "active]") || chars_are(t, "*") {
            if prev.len() > 0 {
                let out = string_of(&prev, 0, prev.len());
                proof {
                    assert(prev@.subrange(0, prev@.len() as int) =~= prev@);
                    assert(active_marker(t@));
                    let rest = ts.skip(i as int);
                    assert(rest.len() > 0);
                    assert(rest[0] == t@);
                    assert(clock_scan(rest, prev@) == prev@);
                    assert(active_clock(*content) == clock_scan(tokens(c@), Seq::empty()));
                }
                return out;
            }
        } else if ends_with(t, "MHz") || ends_with(t, "Mhz") || ends_with(t, "kHz") {
            prev = t.clone();
        }
        i = i + 1;
    }
    String::new()
}

/// A vendor id as a name: AMD, NVIDIA and Intel by name, others as given.
pub open spec fn vendor_name(id: Seq<char>) -> Seq<char> {
    if id == "0x1002"@ {
        "AMD"@
    } else if id == "0x10de"@ {
        "NVIDIA"@
    } else if id == "0x8086"@ {
        "Intel"@
    } else {
        id
    }
}

/// The vendor line of a vendor-id file: its name, empty when unreadable.
pub open spec fn vendor_text(content: Option<String>) -> Seq<char> {
    match sysfs_string(content) {
        Some(v) => vendor_name(trim(v)),
        None => Seq::empty(),
    }
}

/// The PCIe link line from the link speed and width files.
pub open spec fn pcie_text(speed: Option<Seq<char>>, width: Option<Seq<char>>) -> Seq<char> {
    match (speed, width) {
        (Some(s), Some(w)) => trim(s) + " x"@ + trim(w),
        (Some(s), None) => trim(s),
        (None, Some(w)) => "x"@ + trim(w),
        (None, None) => Seq::empty(),
    }
}

/// The vendor line of a vendor-id file.
pub fn vendor_of(content: &Option<String>) -> (r: String)
    ensures
        r@ == vendor_text(*content),
{
    match read_sysfs_string(content) {
        Some(v) => {
            let t = trimmed(v.as_str());
            if str_eq(t.as_str(), "0x1002") {
                "AMD".to_owned()
            } else if str_eq(t.as_str(), "0x10de") {
                "NVIDIA".to_owned()
            } else if str_eq(t.as_str(), "0x8086") {
                "Intel".to_owned()
            } else {
                t
            }
        },
        None => String::new(),
    }
}

/// The PCIe link line from the trimmed link speed and width.
pub fn pcie_lane_of(speed: Option<String>, width: Option<String>) -> (r: String)
    ensures
        r@ == pcie_text(
            match speed { Some(s) => Some(s@), None => None },
            match width { Some(w) => Some(w@), None => None },
        ),
{
    match (speed, width) {
        (Some(s), Some(w)) => {
            let mut r = trimmed(s.as_str());
            r.append(" x");
            let t = trimmed(w.as_str());
            r.append(t.as_str());
            r
        },
        (Some(s), None) => trimmed(s.as_str()),
        (None, Some(w)) => {
            let mut r = "x".to_owned();
            let t = trimmed(w.as_str());
            r.append(t.as_str());
            r
        },
        (None, None) => String::new(),
    }
}

/// The sensor files of one hwmon directory, as read (`None`: not readable).
pub struct HwmonFiles {
    pub temp1_input: Option<String>,
    pub temp2_input: Option<String>,
    pub fan1_input: Option<String>,
    pub power1_average: Option<String>,
    pub in0_input: Option<String>,
}

/// The files of an AMD GPU's sysfs device directory, as read, with the
/// hwmon directories to take sensors from.
pub struct AmdSysfs {
    pub vendor: Option<String>,
    pub gpu_busy_percent: Option<String>,
    pub mem_info_vram_total: Option<String>,
    pub mem_info_vram_used: Option<String>,
    pub hwmon: Vec<HwmonFiles>,
    pub pp_dpm_sclk: Option<String>,
    pub pp_dpm_mclk: Option<String>,
    pub pp_dpm_fclk: Option<String>,
    pub pp_dpm_socclk: Option<String>,
    pub current_link_speed: Option<String>,
    pub current_link_width: Option<String>,
    pub pp_cur_state: Option<String>,
    pub power_dpm_force_performance_level: Option<String>,
}

/// The sensors after taking those of `h`, each only where none is set yet
/// and the file gives a positive value: temperatures (millidegrees), power
/// (microwatts), voltage (millivolts) and fan speed (RPM).
pub open spec fn hwmon_merged(s: Sensors, h: HwmonFiles) -> Sensors {
    let t = sysfs_u64(h.temp1_input);
    let t2 = sysfs_u64(h.temp2_input);
    let fan = sysfs_u64(h.fan1_input);
    let pwr = sysfs_u64(h.power1_average);
    let volt = sysfs_u64(h.in0_input);
    Sensors {
        temp_junction: if t > 0 && float_zero(s.temp_junction) {
            reading_of(spec_div(spec_from_u64(t), f1000()))
        } else {
            s.temp_junction
        },
        temp_memory: if t2 > 0 && float_zero(s.temp_memory) {
            reading_of(spec_div(spec_from_u64(t2), f1000()))
        } else {
            s.temp_memory
        },
        power_draw: if pwr > 0 && float_zero(s.power_draw) {
            reading_of(spec_div(spec_from_u64(pwr), f1e6()))
        } else {
            s.power_draw
        },
        voltage: if volt > 0 && float_zero(s.voltage) {
            reading_of(spec_div(spec_from_u64(volt), f1000()))
        } else {
            s.voltage
        },
        fan_speed: if fan > 0 && float_zero(s.fan_speed) {
            reading_of(spec_from_u64(fan))
        } else {
            s.fan_speed
        },
    }
}

/// The sensors after taking those of every directory of `hs` in order.
pub open spec fn hwmon_all(s: Sensors, hs: Seq<HwmonFiles>) -> Sensors
    decreases hs.len(),
{
    if hs.len() == 0 {
        s
    } else {
        hwmon_merged(hwmon_all(s, hs.drop_last()), hs.last())
    }
}

/// Takes the sensors of one hwmon directory, only where none is set yet;
/// the other fields stay.
pub fn read_hwmon_sensors(gpu: &mut GpuData, hwmon: &HwmonFiles)
    requires
        old(gpu).wf(),
    ensures
        final(gpu).wf(),
        final(gpu).sensors() == hwmon_merged(old(gpu).sensors(), *hwmon),
        *final(gpu) == (GpuData {
            temp_junction: final(gpu).temp_junction,
            temp_memory: final(gpu).temp_memory,
            power_draw: final(gpu).power_draw,
            voltage: final(gpu).voltage,
            fan_speed: final(gpu).fan_speed,
            ..*old(gpu)
        }),
{
    let t = read_sysfs_u64(&hwmon.temp1_input);
    if t > 0 && gpu.temp_junction.is_zero() {
        gpu.temp_junction = Float64::Finite { negative: false, magnitude: Double::from_u64(t).div(&constant(1_000)) };
    }
    let t2 = read_sysfs_u64(&hwmon.temp2_input);
    if t2 > 0 && gpu.temp_memory.is_zero() {
        gpu.temp_memory = Float64::Finite { negative: false, magnitude: Double::from_u64(t2).div(&constant(1_000)) };
    }
    let fan = read_sysfs_u64(&hwmon.fan1_input);
    let pwr = read_sysfs_u64(&hwmon.power1_average);
    if pwr > 0 && gpu.power_draw.is_zero() {
        gpu.power_draw = Float64::Finite { negative: false, magnitude: Double::from_u64(pwr).div(&constant(1_000_000)) };
    }
    let volt = read_sysfs_u64(&hwmon.in0_input);
    if volt > 0 && gpu.voltage.is_zero() {
        gpu.voltage = Float64::Finite { negative: false, magnitude: Double::from_u64(volt).div(&constant(1_000)) };
    }
    if fan > 0 && gpu.fan_speed.is_zero() {
        gpu.fan_speed = Float64::Finite { negative: false, magnitude: Double::from_u64(fan) };
    }
}

/// Reads an AMD GPU from the contents of its sysfs files: the vendor name,
/// load, VRAM in KiB, the hwmon sensors, the active DPM clocks, the PCIe
/// link and the power and performance states.
pub fn amd_gpu_data(files: &AmdSysfs) -> (gpu: GpuData)
    ensures
        gpu.wf(),
        gpu.vendor@ == vendor_text(files.vendor),
        gpu.gpu_busy == sysfs_u64(files.gpu_busy_percent),
        gpu.vram_total_kb == sysfs_u64(files.mem_info_vram_total) / 1024,
        gpu.vram_used_kb == sysfs_u64(files.mem_info_vram_used) / 1024,
        gpu.sensors() == hwmon_all(no_sensors(), files.hwmon@),
        gpu.shader_clock@ == active_clock(files.pp_dpm_sclk),
        gpu.memory_clock@ == active_clock(files.pp_dpm_mclk),
        gpu.fragment_clock@ == active_clock(files.pp_dpm_fclk),
        gpu.soc_clock@ == active_clock(files.pp_dpm_socclk),
        gpu.pcie_lane@ == pcie_text(sysfs_string(files.current_link_speed), sysfs_string(files.current_link_width)),
        gpu.performance_state@ == (match sysfs_first_line(files.pp_cur_state) {
            Some(l) => l,
            None => Seq::empty(),
        }),
        gpu.power_state@ == (match sysfs_string(files.power_dpm_force_performance_level) {
            Some(l) => l,
            None => Seq::empty(),
        }),
{
    let mut gpu = GpuData::default();
    let mut sensors = GpuData::default();
    let mut i: usize = 0;
    proof {
        assert(files.hwmon@.take(0) =~= Seq::<HwmonFiles>::empty());
    }
    while i < files.hwmon.len()
        invariant
            i <= files.hwmon.len(),
            sensors.wf(),
            sensors.sensors() == hwmon_all(no_sensors(), files.hwmon@.take(i as int)),
        decreases files.hwmon.len() - i,
    {
        proof {
            assert(files.hwmon@.take(i + 1).drop_last() =~= files.hwmon@.take(i as int));
        }
        read_hwmon_sensors(&mut sensors, &files.hwmon[i]);
        i = i + 1;
    }
    proof {
        assert(files.hwmon@.take(files.hwmon@.len() as int) =~= files.hwmon@);
    }
    gpu.vendor = vendor_of(&files.vendor);
    gpu.gpu_busy = read_sysfs_u64(&files.gpu_busy_percent);
    gpu.vram_total_kb = read_sysfs_u64(&files.mem_info_vram_total) / 1024;
    gpu.vram_used_kb = read_sysfs_u64(&files.mem_info_vram_used) / 1024;
    gpu.temp_junction = sensors.temp_junction;
    gpu.temp_memory = sensors.temp_memory;
    gpu.power_draw = sensors.power_draw;
    gpu.voltage = sensors.voltage;
    gpu.fan_speed = sensors.fan_speed;
    gpu.shader_clock = read_sysfs_active_clock(&files.pp_dpm_sclk);
    gpu.memory_clock = read_sysfs_active_clock(&files.pp_dpm_mclk);
    gpu.fragment_clock = read_sysfs_active_clock(&files.pp_dpm_fclk);
    gpu.soc_clock = read_sysfs_active_clock(&files.pp_dpm_socclk);
    let speed = read_sysfs_string(&files.current_link_speed);
    let width = read_sysfs_string(&files.current_link_width);
    gpu.pcie_lane = pcie_lane_of(speed, width);
    gpu.performance_state = match read_sysfs_first_line(&files.pp_cur_state) {
        Some(l) => l,
        None => String::new(),
    };
    gpu.power_state = match read_sysfs_string(&files.power_dpm_force_performance_level) {
        Some(l) => l,
        None => String::new(),
    };
    gpu
}

/// A `/sys/class/drm` entry that is a card itself (`cardN`), not one of its
/// connectors (`cardN-…`).
pub open spec fn is_card_entry(name: Seq<char>) -> bool {
    has_prefix(name, "card"@) && !name.contains('-')
}

/// Whether a `/sys/class/drm` entry name is a card.
pub fn is_card_name(name: &str) -> (r: bool)
    ensures
        r == is_card_entry(name@),
{
    let v = chars_of(name);
    if !starts_with(&v, "card") {
        return false;
    }
    let mut i: usize = 0;
    while i < v.len()
        invariant
            v@ == name@,
            i <= v.len(),
            forall|j: int| 0 <= j < i ==> v@[j] != '-',
        decreases v.len() - i,
    {
        if v[i] == '-' {
            return false;
        }
        i = i + 1;
    }
    true
}

/// A vendor-id file naming AMD (`0x1002`).
pub open spec fn is_amd_vendor_file(content: Option<String>) -> bool {
    match sysfs_string(content) {
        Some(v) => trim(v) == "0x1002"@,
        None => false,
    }
}

/// Whether a vendor-id file names AMD.
pub fn is_amd_vendor(content: &Option<String>) -> (r: bool)
    ensures
        r == is_amd_vendor_file(*content),
{
    match read_sysfs_string(content) {
        Some(v) => {
            let t = trimmed(v.as_str());
            str_eq(t.as_str(), "0x1002")
        },
        None => false,
    }
}


/// The fields of the driver tool's CSV line: the trimmed output split at
/// commas, each part trimmed.
pub open spec fn csv_fields(out: Seq<char>) -> Seq<Seq<char>> {
    split_on(trim(out), ',').map_values(|p: Seq<char>| trim(p))
}

/// Splits the driver tool's CSV line into its trimmed fields.
pub fn nvidia_fields(out: &str) -> (r: Vec<String>)
    ensures
        r@.map_values(|f: String| f@) == csv_fields(out@),
{
    let t = trimmed(out);
    let v = chars_of(t.as_str());
    let parts = split_of(&v, ',');
    let ghost want = split_on(trim(out@), ',');
    let mut r: Vec<String> = Vec::new();
    let mut i: usize = 0;
    while i < parts.len()
        invariant
            i <= parts.len(),
            parts@.map_values(|p: Vec<char>| p@) == want,
            r@.map_values(|f: String| f@) == want.take(i as int).map_values(|p: Seq<char>| trim(p)),
        decreases parts.len() - i,
    {
        let piece = string_of(&parts[i], 0, parts[i].len());
        let f = trimmed(piece.as_str());
        proof {
            assert(parts[i as int]@.subrange(0, parts[i as int]@.len() as int) =~= parts[i as int]@);
            assert(want[i as int] == parts[i as int]@);
        }
        let ghost before = r@;
        proof {
            assert(want.len() == parts@.map_values(|p: Vec<char>| p@).len());
            assert(before.map_values(|f: String| f@).len() == want.take(i as int).len());
            assert(before.len() == i);
            assert(piece@ == parts[i as int]@);
            assert(f@ == trim(want[i as int]));
        }
        r.push(f);
        proof {
            let got = r@.map_values(|f: String| f@);
            let exp = want.take(i + 1).map_values(|p: Seq<char>| trim(p));
            assert(got.len() == exp.len());
            assert forall|j: int| 0 <= j < got.len() implies got[j] == exp[j] by {
                if j < i {
                    assert(r@[j] == before[j]);
                    assert(before.map_values(|f: String| f@)[j] == want.take(i as int).map_values(|p: Seq<char>| trim(p))[j]);
                }
            }
            assert(got =~= exp);
        }
        i = i + 1;
    }
    proof {
        assert(want.take(parts.len() as int) =~= want);
    }
    r
}

/// A number field as `str::parse::<u64>` reads it, 0 when it holds none.
pub open spec fn number_or_zero(f: Seq<char>) -> u64 {
    match parse_u64(f) {
        Some(v) => v,
        None => 0,
    }
}

/// A reading from the bits of a parsed float field: positive zero when the
/// field did not parse.
pub open spec fn sensor_of(bits: Option<u64>) -> Float64 {
    match bits {
        Some(b) => decoded(b),
        None => positive_zero(),
    }
}

/// The reading a parsed float field gives.
pub fn sensor_value(bits: Option<u64>) -> (d: Float64)
    ensures
        d == sensor_of(bits),
        printable(d),
        d matches Float64::Finite { magnitude, .. } ==> -1184 <= magnitude.exp <= 971,
{
    match bits {
        Some(b) => Float64::from_bits(b),
        None => Float64::Finite { negative: false, magnitude: Double::zero() },
    }
}

/// Whether the two VRAM fields, in MiB, can be given in KiB in 64 bits (the
/// reading overflows otherwise).
pub open spec fn nvidia_vram_fits(fields: Seq<Seq<char>>) -> bool {
    fields.len() >= 10 ==> {
        &&& number_or_zero(fields[1]) * 1024 <= u64::MAX
        &&& number_or_zero(fields[2]) * 1024 <= u64::MAX
    }
}

/// `field` followed by `" MHz"`.
fn mhz_text(field: &String) -> (r: String)
    ensures
        r@ == field@ + " MHz"@,
{
    let mut r = field.clone();
    r.append(" MHz");
    r
}

/// Reads an NVIDIA GPU from the driver tool's fields: load, used and total
/// VRAM (MiB, given in KiB), temperature, graphics and memory clocks, power
/// draw, fan speed (percent) and performance state; `temp`, `power` and
/// `fan` are the bits fields 3, 6 and 8 parse to as floats.  With fewer than
/// ten fields only the vendor is known.
pub fn nvidia_gpu_data(fields: &Vec<String>, temp: Option<u64>, power: Option<u64>, fan: Option<u64>) -> (gpu: GpuData)
    requires
        nvidia_vram_fits(fields@.map_values(|f: String| f@)),
    ensures
        gpu.wf(),
        gpu.vendor@ == "NVIDIA"@,
        gpu.temp_memory == positive_zero(),
        gpu.voltage == positive_zero(),
        gpu.fragment_clock@.len() == 0,
        gpu.soc_clock@.len() == 0,
        gpu.pcie_lane@.len() == 0,
        gpu.power_state@.len() == 0,
        fields.len() < 10 ==> {
            &&& gpu.sensors() == no_sensors()
            &&& gpu.gpu_busy == 0
            &&& gpu.vram_used_kb == 0
            &&& gpu.vram_total_kb == 0
            &&& gpu.shader_clock@.len() == 0
            &&& gpu.memory_clock@.len() == 0
            &&& gpu.performance_state@.len() == 0
        },
        fields.len() >= 10 ==> {
            &&& gpu.gpu_busy == number_or_zero(fields[0]@)
            &&& gpu.vram_used_kb == number_or_zero(fields[1]@) * 1024
            &&& gpu.vram_total_kb == number_or_zero(fields[2]@) * 1024
            &&& gpu.temp_junction == sensor_of(temp)
            &&& gpu.shader_clock@ == fields[4]@ + " MHz"@
            &&& gpu.memory_clock@ == fields[5]@ + " MHz"@
            &&& gpu.power_draw == sensor_of(power)
            &&& gpu.fan_speed == sensor_of(fan)
            &&& gpu.performance_state@ == fields[9]@
        },
{
    let mut gpu = GpuData::default();
    gpu.vendor = "NVIDIA".to_owned();
    proof {
        reveal_strlit("NVIDIA");
    }
    if fields.len() >= 10 {
        proof {
            assert(fields@.map_values(|f: String| f@)[1] == fields[1]@);
            assert(fields@.map_values(|f: String| f@)[2] == fields[2]@);
        }
        gpu.gpu_busy = match parse_u64_str(fields[0].as_str()) {
            Some(v) => v,
            None => 0,
        };
        let used = match parse_u64_str(fields[1].as_str()) {
            Some(v) => v,
            None => 0,
        };
        let total = match parse_u64_str(fields[2].as_str()) {
            Some(v) => v,
            None => 0,
        };
        gpu.vram_used_kb = used * 1024;
        gpu.vram_total_kb = total * 1024;
        gpu.temp_junction = sensor_value(temp);
        gpu.shader_clock = mhz_text(&fields[4]);
        gpu.memory_clock = mhz_text(&fields[5]);
        gpu.power_draw = sensor_value(power);
        gpu.fan_speed = sensor_value(fan);
        gpu.performance_state = fields[9].clone();
    }
    gpu
}


/// One `/sys/class/drm` entry: its name, and the content of its
/// `device/vendor` file where that could be read.
pub struct DrmEntry {
    pub name: String,
    pub vendor: Option<String>,
}

/// An entry the AMD reader takes: a card whose vendor file names AMD.
pub open spec fn is_amd_card(e: DrmEntry) -> bool {
    is_card_entry(e.name@) && is_amd_vendor_file(e.vendor)
}

/// The first AMD card among the entries, in the order they were listed.
pub fn find_amd_card(entries: &Vec<DrmEntry>) -> (r: Option<usize>)
    ensures
        r matches Some(i) ==> i < entries.len() && is_amd_card(entries[i as int]),
        r matches Some(i) ==> forall|j: int| 0 <= j < i ==> !is_amd_card(#[trigger] entries[j]),
        r is None ==> forall|j: int| 0 <= j < entries.len() ==> !is_amd_card(#[trigger] entries[j]),
{
    let mut i: usize = 0;
    while i < entries.len()
        invariant
            i <= entries.len(),
            forall|j: int| 0 <= j < i ==> !is_amd_card(#[trigger] entries[j]),
        decreases entries.len() - i,
    {
        if is_card_name(entries[i].name.as_str()) && is_amd_vendor(&entries[i].vendor) {
            return Some(i);
        }
        i = i + 1;
    }
    None
}


/// What reading the GPU does next, the readers being tried in order.
#[derive(Clone, Copy, PartialEq, Eq, Structural)]
pub enum GpuStep {
    /// Ask reader `i` whether its device is there.
    Probe(usize),
    /// Take the reading of reader `i`.
    Read(usize),
    /// No reader found a device: the reading is empty.
    NoDevice,
}

/// The step after reader `i` of `count` answered its probe with `found`:
/// read it if it found its device, else probe the next one, if any.
pub open spec fn gpu_step_after(i: int, found: bool, count: int) -> GpuStep {
    if found {
        GpuStep::Read(i as usize)
    } else if i + 1 < count {
        GpuStep::Probe((i + 1) as usize)
    } else {
        GpuStep::NoDevice
    }
}

/// The first step over `count` readers.
pub fn read_gpu(count: usize) -> (step: GpuStep)
    ensures
        step == (if count > 0 { GpuStep::Probe(0) } else { GpuStep::NoDevice }),
{
    if count > 0 {
        GpuStep::Probe(0)
    } else {
        GpuStep::NoDevice
    }
}

/// The step after reader `i` answered its probe.
pub fn read_gpu_next(i: usize, found: bool, count: usize) -> (step: GpuStep)
    requires
        i < count,
    ensures
        step == gpu_step_after(i as int, found, count as int),
{
    if found {
        GpuStep::Read(i)
    } else if i + 1 < count {
        GpuStep::Probe(i + 1)
    } else {
        GpuStep::NoDevice
    }
}


/// A sensor value once set is never overwritten by later hwmon directories.
pub proof fn law_set_sensors_stay(s: Sensors, hs: Seq<HwmonFiles>)
    ensures
        !float_zero(s.temp_junction) ==> hwmon_all(s, hs).temp_junction == s.temp_junction,
        !float_zero(s.temp_memory) ==> hwmon_all(s, hs).temp_memory == s.temp_memory,
        !float_zero(s.power_draw) ==> hwmon_all(s, hs).power_draw == s.power_draw,
        !float_zero(s.voltage) ==> hwmon_all(s, hs).voltage == s.voltage,
        !float_zero(s.fan_speed) ==> hwmon_all(s, hs).fan_speed == s.fan_speed,
    decreases hs.len(),
{
    if hs.len() > 0 {
        law_set_sensors_stay(s, hs.drop_last());
    }
}

/// Where the readers' probes would answer `probes`, the steps from the
/// first probe end in reading the first reader that found its device, or in
/// no device when none did.
pub open spec fn gpu_run(i: int, probes: Seq<bool>) -> GpuStep
    decreases probes.len() - i,
{
    if i < 0 || i >= probes.len() {
        GpuStep::NoDevice
    } else {
        match gpu_step_after(i, probes[i], probes.len() as int) {
            GpuStep::Probe(j) => if j as int > i { gpu_run(j as int, probes) } else { GpuStep::NoDevice },
            other => other,
        }
    }
}

/// Reading the GPU reads the first reader whose probe finds its device, and
/// gives no device exactly when no probe does.
pub proof fn law_first_found_reader(probes: Seq<bool>, i: int)
    requires
        probes.len() <= usize::MAX,
        0 <= i <= probes.len(),
    ensures
        forall|r: int| i <= r < probes.len() && probes[r] && (forall|j: int| i <= j < r ==> !probes[j])
            ==> gpu_run(i, probes) == GpuStep::Read(r as usize),
        (forall|j: int| i <= j < probes.len() ==> !probes[j]) ==> gpu_run(i, probes) == GpuStep::NoDevice,
    decreases probes.len() - i,
{
    if i < probes.len() {
        law_first_found_reader(probes, i + 1);
        assert forall|r: int| i <= r < probes.len() && probes[r] && (forall|j: int| i <= j < r ==> !probes[j])
            implies gpu_run(i, probes) == GpuStep::Read(r as usize) by {
            if r > i {
                assert(!probes[i]);
            }
        }
    }
}

} // verus!

//! Collected system information and the pure parts of collecting it.
use vstd::prelude::*;
use crate::pattern::{compile, regex_compiles, regex_replace_first, replace_first};
use crate::numfmt::{dec_seq, push_decimal};
use crate::strs::{
    contains, contains_seq, find, find_seq, prefix_chars, replace, replace_seq, split, split_seq, split_state,
    starts_with, strip_prefix, strip_prefix_seq, trim_char_seq, trim_matches, words, words_seq,
};
use crate::text::{
    lines, lines_seq, lines_state, push_char, push_str, str_eq, to_string, trim, trim_seq, views,
};

verus! {

/// Every piece of system information, each already formatted for display.
pub struct SysInfo {
    pub os: String,
    pub host: String,
    pub user: String,
    pub kernel: String,
    pub uptime: String,
    pub packages: String,
    pub shell: String,
    pub terminal: String,
    pub cpu: String,
    pub gpu: String,
    pub memory: String,
    pub disk: String,
    pub wm: String,
    pub load: String,
    pub processes: String,
    pub local_ip: String,
    pub resolution: String,
    pub de: String,
    pub font: String,
    pub vram: String,
    pub flatpak: String,
    pub snap: String,
    pub device: String,
    pub rom: String,
    pub soc: String,
    pub arch: String,
    pub battery_level: String,
    pub battery_temp: String,
    pub battery_health: String,
    pub battery_status: String,
    pub root_status: String,
    pub bootloader: String,
    pub selinux: String,
    pub storage: String,
    pub cpu_temp: String,
    pub brightness: String,
    pub refresh_rate: String,
    pub signal: String,
    pub wifi_ssid: String,
    pub security_patch: String,
    pub uptime_days: String,
}

/// The value that `SysInfo::get` returns for `key`.
pub open spec fn sys_field(info: SysInfo, key: Seq<char>) -> Option<Seq<char>> {
    if key == "os"@ {
        Some(info.os@)
    } else if key == "host"@ {
        Some(info.host@)
    } else if key == "user"@ {
        Some(info.user@)
    } else if key == "kernel"@ {
        Some(info.kernel@)
    } else if key == "uptime"@ {
        Some(info.uptime@)
    } else if key == "packages"@ {
        Some(info.packages@)
    } else if key == "shell"@ {
        Some(info.shell@)
    } else if key == "terminal"@ {
        Some(info.terminal@)
    } else if key == "cpu"@ {
        Some(info.cpu@)
    } else if key == "gpu"@ {
        Some(info.gpu@)
    } else if key == "memory"@ {
        Some(info.memory@)
    } else if key == "disk"@ {
        Some(info.disk@)
    } else if key == "wm"@ {
        Some(info.wm@)
    } else if key == "load"@ {
        Some(info.load@)
    } else if key == "processes"@ {
        Some(info.processes@)
    } else if key == "local_ip"@ {
        Some(info.local_ip@)
    } else if key == "resolution"@ {
        Some(info.resolution@)
    } else if key == "de"@ {
        Some(info.de@)
    } else if key == "font"@ {
        Some(info.font@)
    } else if key == "vram"@ {
        Some(info.vram@)
    } else if key == "flatpak"@ {
        Some(info.flatpak@)
    } else if key == "snap"@ {
        Some(info.snap@)
    } else if key == "device"@ {
        Some(info.device@)
    } else if key == "rom"@ {
        Some(info.rom@)
    } else if key == "soc"@ {
        Some(info.soc@)
    } else if key == "arch"@ {
        Some(info.arch@)
    } else if key == "battery_level"@ {
        Some(info.battery_level@)
    } else if key == "battery_temp"@ {
        Some(info.battery_temp@)
    } else if key == "battery_health"@ {
        Some(info.battery_health@)
    } else if key == "battery_status"@ {
        Some(info.battery_status@)
    } else if key == "root_status"@ {
        Some(info.root_status@)
    } else if key == "bootloader"@ {
        Some(info.bootloader@)
    } else if key == "selinux"@ {
        Some(info.selinux@)
    } else if key == "storage"@ {
        Some(info.storage@)
    } else if key == "cpu_temp"@ {
        Some(info.cpu_temp@)
    } else if key == "brightness"@ {
        Some(info.brightness@)
    } else if key == "refresh_rate"@ {
        Some(info.refresh_rate@)
    } else if key == "signal"@ {
        Some(info.signal@)
    } else if key == "wifi_ssid"@ {
        Some(info.wifi_ssid@)
    } else if key == "security_patch"@ {
        Some(info.security_patch@)
    } else if key == "uptime_days"@ {
        Some(info.uptime_days@)
    } else {
        None
    }
}

/// Each key of the field table reads the `SysInfo` field of the same name:
/// `get("gpu")` is the GPU, `get("cpu")` the CPU, and so on for every key.
pub proof fn field_keys_read_their_fields(info: SysInfo)
    ensures
        sys_field(info, "arch"@) == Some(info.arch@),
        sys_field(info, "battery_health"@) == Some(info.battery_health@),
        sys_field(info, "battery_level"@) == Some(info.battery_level@),
        sys_field(info, "battery_status"@) == Some(info.battery_status@),
        sys_field(info, "battery_temp"@) == Some(info.battery_temp@),
        sys_field(info, "bootloader"@) == Some(info.bootloader@),
        sys_field(info, "brightness"@) == Some(info.brightness@),
        sys_field(info, "cpu"@) == Some(info.cpu@),
        sys_field(info, "cpu_temp"@) == Some(info.cpu_temp@),
        sys_field(info, "de"@) == Some(info.de@),
        sys_field(info, "device"@) == Some(info.device@),
        sys_field(info, "disk"@) == Some(info.disk@),
        sys_field(info, "flatpak"@) == Some(info.flatpak@),
        sys_field(info, "font"@) == Some(info.font@),
        sys_field(info, "gpu"@) == Some(info.gpu@),
        sys_field(info, "host"@) == Some(info.host@),
        sys_field(info, "kernel"@) == Some(info.kernel@),
        sys_field(info, "load"@) == Some(info.load@),
        sys_field(info, "local_ip"@) == Some(info.local_ip@),
        sys_field(info, "memory"@) == Some(info.memory@),
        sys_field(info, "os"@) == Some(info.os@),
        sys_field(info, "packages"@) == Some(info.packages@),
        sys_field(info, "processes"@) == Some(info.processes@),
        sys_field(info, "refresh_rate"@) == Some(info.refresh_rate@),
        sys_field(info, "resolution"@) == Some(info.resolution@),
        sys_field(info, "rom"@) == Some(info.rom@),
        sys_field(info, "root_status"@) == Some(info.root_status@),
        sys_field(info, "security_patch"@) == Some(info.security_patch@),
        sys_field(info, "selinux"@) == Some(info.selinux@),
        sys_field(info, "shell"@) == Some(info.shell@),
        sys_field(info, "signal"@) == Some(info.signal@),
        sys_field(info, "snap"@) == Some(info.snap@),
        sys_field(info, "soc"@) == Some(info.soc@),
        sys_field(info, "storage"@) == Some(info.storage@),
        sys_field(info, "terminal"@) == Some(info.terminal@),
        sys_field(info, "uptime"@) == Some(info.uptime@),
        sys_field(info, "uptime_days"@) == Some(info.uptime_days@),
        sys_field(info, "user"@) == Some(info.user@),
        sys_field(info, "vram"@) == Some(info.vram@),
        sys_field(info, "wifi_ssid"@) == Some(info.wifi_ssid@),
        sys_field(info, "wm"@) == Some(info.wm@),
{
    reveal_strlit("arch");
    assert("arch"@.len() == 4);
    reveal_strlit("battery_health");
    assert("battery_health"@.len() == 14);
    reveal_strlit("battery_level");
    assert("battery_level"@.len() == 13);
    reveal_strlit("battery_status");
    assert("battery_status"@.len() == 14);
    reveal_strlit("battery_temp");
    assert("battery_temp"@.len() == 12);
    reveal_strlit("bootloader");
    assert("bootloader"@.len() == 10);
    reveal_strlit("brightness");
    assert("brightness"@.len() == 10);
    reveal_strlit("cpu");
    assert("cpu"@.len() == 3);
    reveal_strlit("cpu_temp");
    assert("cpu_temp"@.len() == 8);
    reveal_strlit("de");
    assert("de"@.len() == 2);
    reveal_strlit("device");
    assert("device"@.len() == 6);
    reveal_strlit("disk");
    assert("disk"@.len() == 4);
    reveal_strlit("flatpak");
    assert("flatpak"@.len() == 7);
    reveal_strlit("font");
    assert("font"@.len() == 4);
    reveal_strlit("gpu");
    assert("gpu"@.len() == 3);
    reveal_strlit("host");
    assert("host"@.len() == 4);
    reveal_strlit("kernel");
    assert("kernel"@.len() == 6);
    reveal_strlit("load");
    assert("load"@.len() == 4);
    reveal_strlit("local_ip");
    assert("local_ip"@.len() == 8);
    reveal_strlit("memory");
    assert("memory"@.len() == 6);
    reveal_strlit("os");
    assert("os"@.len() == 2);
    reveal_strlit("packages");
    assert("packages"@.len() == 8);
    reveal_strlit("processes");
    assert("processes"@.len() == 9);
    reveal_strlit("refresh_rate");
    assert("refresh_rate"@.len() == 12);
    reveal_strlit("resolution");
    assert("resolution"@.len() == 10);
    reveal_strlit("rom");
    assert("rom"@.len() == 3);
    reveal_strlit("root_status");
    assert("root_status"@.len() == 11);
    reveal_strlit("security_patch");
    assert("security_patch"@.len() == 14);
    reveal_strlit("selinux");
    assert("selinux"@.len() == 7);
    reveal_strlit("shell");
    assert("shell"@.len() == 5);
    reveal_strlit("signal");
    assert("signal"@.len() == 6);
    reveal_strlit("snap");
    assert("snap"@.len() == 4);
    reveal_strlit("soc");
    assert("soc"@.len() == 3);
    reveal_strlit("storage");
    assert("storage"@.len() == 7);
    reveal_strlit("terminal");
    assert("terminal"@.len() == 8);
    reveal_strlit("uptime");
    assert("uptime"@.len() == 6);
    reveal_strlit("uptime_days");
    assert("uptime_days"@.len() == 11);
    reveal_strlit("user");
    assert("user"@.len() == 4);
    reveal_strlit("vram");
    assert("vram"@.len() == 4);
    reveal_strlit("wifi_ssid");
    assert("wifi_ssid"@.len() == 9);
    reveal_strlit("wm");
    assert("wm"@.len() == 2);
    assert("battery_status"@[8] != "battery_health"@[8]);
    assert("brightness"@[1] != "bootloader"@[1]);
    assert("disk"@[0] != "arch"@[0]);
    assert("font"@[0] != "arch"@[0]);
    assert("font"@[0] != "disk"@[0]);
    assert("gpu"@[0] != "cpu"@[0]);
    assert("host"@[0] != "arch"@[0]);
    assert("host"@[0] != "disk"@[0]);
    assert("host"@[0] != "font"@[0]);
    assert("kernel"@[0] != "device"@[0]);
    assert("load"@[0] != "arch"@[0]);
    assert("load"@[0] != "disk"@[0]);
    assert("load"@[0] != "font"@[0]);
    assert("load"@[0] != "host"@[0]);
    assert("local_ip"@[0] != "cpu_temp"@[0]);
    assert("memory"@[0] != "device"@[0]);
    assert("memory"@[0] != "kernel"@[0]);
    assert("os"@[0] != "de"@[0]);
    assert("packages"@[0] != "cpu_temp"@[0]);
    assert("packages"@[0] != "local_ip"@[0]);
    assert("refresh_rate"@[0] != "battery_temp"@[0]);
    assert("resolution"@[0] != "bootloader"@[0]);
    assert("resolution"@[0] != "brightness"@[0]);
    assert("rom"@[0] != "cpu"@[0]);
    assert("rom"@[0] != "gpu"@[0]);
    assert("security_patch"@[0] != "battery_health"@[0]);
    assert("security_patch"@[0] != "battery_status"@[0]);
    assert("selinux"@[0] != "flatpak"@[0]);
    assert("signal"@[0] != "device"@[0]);
    assert("signal"@[0] != "kernel"@[0]);
    assert("signal"@[0] != "memory"@[0]);
    assert("snap"@[0] != "arch"@[0]);
    assert("snap"@[0] != "disk"@[0]);
    assert("snap"@[0] != "font"@[0]);
    assert("snap"@[0] != "host"@[0]);
    assert("snap"@[0] != "load"@[0]);
    assert("soc"@[0] != "cpu"@[0]);
    assert("soc"@[0] != "gpu"@[0]);
    assert("soc"@[0] != "rom"@[0]);
    assert("storage"@[0] != "flatpak"@[0]);
    assert("storage"@[1] != "selinux"@[1]);
    assert("terminal"@[0] != "cpu_temp"@[0]);
    assert("terminal"@[0] != "local_ip"@[0]);
    assert("terminal"@[0] != "packages"@[0]);
    assert("uptime"@[0] != "device"@[0]);
    assert("uptime"@[0] != "kernel"@[0]);
    assert("uptime"@[0] != "memory"@[0]);
    assert("uptime"@[0] != "signal"@[0]);
    assert("uptime_days"@[0] != "root_status"@[0]);
    assert("user"@[0] != "arch"@[0]);
    assert("user"@[0] != "disk"@[0]);
    assert("user"@[0] != "font"@[0]);
    assert("user"@[0] != "host"@[0]);
    assert("user"@[0] != "load"@[0]);
    assert("user"@[0] != "snap"@[0]);
    assert("vram"@[0] != "arch"@[0]);
    assert("vram"@[0] != "disk"@[0]);
    assert("vram"@[0] != "font"@[0]);
    assert("vram"@[0] != "host"@[0]);
    assert("vram"@[0] != "load"@[0]);
    assert("vram"@[0] != "snap"@[0]);
    assert("vram"@[0] != "user"@[0]);
    assert("wifi_ssid"@[0] != "processes"@[0]);
    assert("wm"@[0] != "de"@[0]);
    assert("wm"@[0] != "os"@[0]);
}


impl Default for SysInfo {
    /// An empty record (every field empty).
    fn default() -> (r: SysInfo)
        ensures
            forall|k: Seq<char>| #[trigger] sys_field(r, k) matches Some(v) ==> v.len() == 0,
    {
        SysInfo::empty()
    }
}

impl SysInfo {
    /// An empty record (every field empty).
    pub fn empty() -> (r: SysInfo)
        ensures
            r.os@ == Seq::<char>::empty(),
            r.host@ == Seq::<char>::empty(),
            r.user@ == Seq::<char>::empty(),
            r.kernel@ == Seq::<char>::empty(),
            r.uptime@ == Seq::<char>::empty(),
            r.packages@ == Seq::<char>::empty(),
            r.shell@ == Seq::<char>::empty(),
            r.terminal@ == Seq::<char>::empty(),
            r.cpu@ == Seq::<char>::empty(),
            r.gpu@ == Seq::<char>::empty(),
            r.memory@ == Seq::<char>::empty(),
            r.disk@ == Seq::<char>::empty(),
            r.wm@ == Seq::<char>::empty(),
            r.load@ == Seq::<char>::empty(),
            r.processes@ == Seq::<char>::empty(),
            r.local_ip@ == Seq::<char>::empty(),
            r.resolution@ == Seq::<char>::empty(),
            r.de@ == Seq::<char>::empty(),
            r.font@ == Seq::<char>::empty(),
            r.vram@ == Seq::<char>::empty(),
            r.flatpak@ == Seq::<char>::empty(),
            r.snap@ == Seq::<char>::empty(),
            r.device@ == Seq::<char>::empty(),
            r.rom@ == Seq::<char>::empty(),
            r.soc@ == Seq::<char>::empty(),
            r.arch@ == Seq::<char>::empty(),
            r.battery_level@ == Seq::<char>::empty(),
            r.battery_temp@ == Seq::<char>::empty(),
            r.battery_health@ == Seq::<char>::empty(),
            r.battery_status@ == Seq::<char>::empty(),
            r.root_status@ == Seq::<char>::empty(),
            r.bootloader@ == Seq::<char>::empty(),
            r.selinux@ == Seq::<char>::empty(),
            r.storage@ == Seq::<char>::empty(),
            r.cpu_temp@ == Seq::<char>::empty(),
            r.brightness@ == Seq::<char>::empty(),
            r.refresh_rate@ == Seq::<char>::empty(),
            r.signal@ == Seq::<char>::empty(),
            r.wifi_ssid@ == Seq::<char>::empty(),
            r.security_patch@ == Seq::<char>::empty(),
            r.uptime_days@ == Seq::<char>::empty(),
    {
        SysInfo {
            os: String::new(),
            host: String::new(),
            user: String::new(),
            kernel: String::new(),
            uptime: String::new(),
            packages: String::new(),
            shell: String::new(),
            terminal: String::new(),
            cpu: String::new(),
            gpu: String::new(),
            memory: String::new(),
            disk: String::new(),
            wm: String::new(),
            load: String::new(),
            processes: String::new(),
            local_ip: String::new(),
            resolution: String::new(),
            de: String::new(),
            font: String::new(),
            vram: String::new(),
            flatpak: String::new(),
            snap: String::new(),
            device: String::new(),
            rom: String::new(),
            soc: String::new(),
            arch: String::new(),
            battery_level: String::new(),
            battery_temp: String::new(),
            battery_health: String::new(),
            battery_status: String::new(),
            root_status: String::new(),
            bootloader: String::new(),
            selinux: String::new(),
            storage: String::new(),
            cpu_temp: String::new(),
            brightness: String::new(),
            refresh_rate: String::new(),
            signal: String::new(),
            wifi_ssid: String::new(),
            security_patch: String::new(),
            uptime_days: String::new(),
        }
    }

    /// The field named `field`, if there is one.
    pub fn get(&self, field: &str) -> (r: Option<&str>)
        ensures
            r matches Some(v) ==> sys_field(*self, field@) == Some(v@),
            r is None ==> sys_field(*self, field@) is None,
    {
        if str_eq(field, "os") {
            return Some(self.os.as_str());
        }
        if str_eq(field, "host") {
            return Some(self.host.as_str());
        }
        if str_eq(field, "user") {
            return Some(self.user.as_str());
        }
        if str_eq(field, "kernel") {
            return Some(self.kernel.as_str());
        }
        if str_eq(field, "uptime") {
            return Some(self.uptime.as_str());
        }
        if str_eq(field, "packages") {
            return Some(self.packages.as_str());
        }
        if str_eq(field, "shell") {
            return Some(self.shell.as_str());
        }
        if str_eq(field, "terminal") {
            return Some(self.terminal.as_str());
        }
        if str_eq(field, "cpu") {
            return Some(self.cpu.as_str());
        }
        if str_eq(field, "gpu") {
            return Some(self.gpu.as_str());
        }
        if str_eq(field, "memory") {
            return Some(self.memory.as_str());
        }
        if str_eq(field, "disk") {
            return Some(self.disk.as_str());
        }
        if str_eq(field, "wm") {
            return Some(self.wm.as_str());
        }
        if str_eq(field, "load") {
            return Some(self.load.as_str());
        }
        if str_eq(field, "processes") {
            return Some(self.processes.as_str());
        }
        if str_eq(field, "local_ip") {
            return Some(self.local_ip.as_str());
        }
        if str_eq(field, "resolution") {
            return Some(self.resolution.as_str());
        }
        if str_eq(field, "de") {
            return Some(self.de.as_str());
        }
        if str_eq(field, "font") {
            return Some(self.font.as_str());
        }
        if str_eq(field, "vram") {
            return Some(self.vram.as_str());
        }
        if str_eq(field, "flatpak") {
            return Some(self.flatpak.as_str());
        }
        if str_eq(field, "snap") {
            return Some(self.snap.as_str());
        }
        if str_eq(field, "device") {
            return Some(self.device.as_str());
        }
        if str_eq(field, "rom") {
            return Some(self.rom.as_str());
        }
        if str_eq(field, "soc") {
            return Some(self.soc.as_str());
        }
        if str_eq(field, "arch") {
            return Some(self.arch.as_str());
        }
        if str_eq(field, "battery_level") {
            return Some(self.battery_level.as_str());
        }
        if str_eq(field, "battery_temp") {
            return Some(self.battery_temp.as_str());
        }
        if str_eq(field, "battery_health") {
            return Some(self.battery_health.as_str());
        }
        if str_eq(field, "battery_status") {
            return Some(self.battery_status.as_str());
        }
        if str_eq(field, "root_status") {
            return Some(self.root_status.as_str());
        }
        if str_eq(field, "bootloader") {
            return Some(self.bootloader.as_str());
        }
        if str_eq(field, "selinux") {
            return Some(self.selinux.as_str());
        }
        if str_eq(field, "storage") {
            return Some(self.storage.as_str());
        }
        if str_eq(field, "cpu_temp") {
            return Some(self.cpu_temp.as_str());
        }
        if str_eq(field, "brightness") {
            return Some(self.brightness.as_str());
        }
        if str_eq(field, "refresh_rate") {
            return Some(self.refresh_rate.as_str());
        }
        if str_eq(field, "signal") {
            return Some(self.signal.as_str());
        }
        if str_eq(field, "wifi_ssid") {
            return Some(self.wifi_ssid.as_str());
        }
        if str_eq(field, "security_patch") {
            return Some(self.security_patch.as_str());
        }
        if str_eq(field, "uptime_days") {
            return Some(self.uptime_days.as_str());
        }
        None
    }
}


// ── CPU and GPU names ────────────────────────────────────────────────────

/// Trailing core-count suffix of a CPU name ("6-Core Processor").
pub open spec fn core_suffix_pattern() -> Seq<char> {
    "\\s+\\d+-Core(?:\\s+Processor|\\s+APU)?$"@
}

/// Trailing "Processor" or "APU" word.
pub open spec fn processor_suffix_pattern() -> Seq<char> {
    "\\s+(?:Processor|APU)$"@
}

/// Trailing "Series" or "Graphics" word of a GPU name.
pub open spec fn gpu_suffix_pattern() -> Seq<char> {
    "\\s+(?:Series|Graphics)$"@
}

/// `t` with the first match of `pattern` removed (left as is when the
/// pattern does not compile).
pub open spec fn remove_match(pattern: Seq<char>, t: Seq<char>) -> Seq<char> {
    if regex_compiles(pattern) {
        regex_replace_first(pattern, t, Seq::empty())
    } else {
        t
    }
}

/// The meaningful model identifier of a CPU name: the text before
/// `" with "`, or the name without a trailing core-count and
/// "Processor"/"APU" suffix.
pub open spec fn shorten_cpu_spec(name: Seq<char>) -> Seq<char> {
    cpu_model_spec(name, remove_match(processor_suffix_pattern(), remove_match(core_suffix_pattern(), trim_seq(name))))
}

/// The CPU model once the suffixes are gone: the trimmed text before
/// `" with "` in `name`, or else `suffix_free` (the trimmed name without
/// its core-count and "Processor"/"APU" suffixes) trimmed.
pub open spec fn cpu_model_spec(name: Seq<char>, suffix_free: Seq<char>) -> Seq<char> {
    let t = trim_seq(name);
    match find_seq(t, " with "@) {
        Some(p) => trim_seq(t.take(p)),
        None => trim_seq(suffix_free),
    }
}

/// A trimmed GPU name without the "GeForce " and "Radeon " brand words.
pub open spec fn gpu_brand_free(name: Seq<char>) -> Seq<char> {
    let t = trim_seq(name);
    let t = replace_seq(t, "GeForce "@, Seq::empty());
    replace_seq(t, "Radeon "@, Seq::empty())
}

/// The meaningful model identifier of a GPU name: without the "GeForce "
/// and "Radeon " brand words and a trailing "Series"/"Graphics".
pub open spec fn shorten_gpu_spec(name: Seq<char>) -> Seq<char> {
    trim_seq(remove_match(gpu_suffix_pattern(), gpu_brand_free(name)))
}

fn remove_first_match(pattern: &str, t: &str) -> (r: String)
    ensures
        r@ == remove_match(pattern@, t@),
{
    proof {
        reveal_strlit("");
        assert(""@ =~= Seq::<char>::empty());
    }
    match compile(pattern) {
        Some(p) => replace_first(&p, t, ""),
        None => to_string(t),
    }
}

proof fn lemma_literal_nonempty()
    ensures
        "GeForce "@.len() > 0,
        "Radeon "@.len() > 0,
        ""@ == Seq::<char>::empty(),
{
    reveal_strlit("GeForce ");
    reveal_strlit("Radeon ");
    reveal_strlit("");
    assert(""@ =~= Seq::<char>::empty());
}

/// The CPU model of `name`, given `suffix_free`, the trimmed name with
/// its core-count and "Processor"/"APU" suffixes removed.
pub fn cpu_model_from(name: &str, suffix_free: &str) -> (r: String)
    ensures
        r@ == cpu_model_spec(name@, suffix_free@),
{
    let t = trim(name);
    match find(&t, " with ") {
        Some(pos) => {
            let head = prefix_chars(&t, pos);
            trim(&head)
        },
        None => trim(suffix_free),
    }
}

/// Shortens a CPU name to its model, e.g. "AMD Ryzen 5 5600X 6-Core
/// Processor" to "AMD Ryzen 5 5600X".
pub fn shorten_cpu(name: &str) -> (r: String)
    ensures
        r@ == shorten_cpu_spec(name@),
{
    let t = trim(name);
    let a = remove_first_match("\\s+\\d+-Core(?:\\s+Processor|\\s+APU)?$", &t);
    let b = remove_first_match("\\s+(?:Processor|APU)$", &a);
    cpu_model_from(name, &b)
}

/// A GPU name trimmed and without the "GeForce " and "Radeon " brand
/// words.
pub fn gpu_without_brands(name: &str) -> (r: String)
    ensures
        r@ == gpu_brand_free(name@),
{
    proof {
        lemma_literal_nonempty();
    }
    let t = trim(name);
    let t = replace(&t, "GeForce ", "");
    replace(&t, "Radeon ", "")
}

/// The GPU model from `suffix_free`, the brand-free name with its trailing
/// "Series"/"Graphics" removed: that text trimmed.
pub fn gpu_model_from(suffix_free: &str) -> (r: String)
    ensures
        r@ == trim_seq(suffix_free@),
{
    trim(suffix_free)
}

/// Shortens a GPU name, e.g. "AMD Radeon RX 570 Series" to "AMD RX 570".
pub fn shorten_gpu(name: &str) -> (r: String)
    ensures
        r@ == shorten_gpu_spec(name@),
{
    let t = gpu_without_brands(name);
    let t = remove_first_match("\\s+(?:Series|Graphics)$", &t);
    gpu_model_from(&t)
}


// ── Uptime ───────────────────────────────────────────────────────────────

/// `"{d}d {h}h {m}m"` for an uptime of `secs` seconds, leaving out a zero
/// day or hour count (minutes are always shown).
pub open spec fn uptime_spec(secs: u64) -> Seq<char> {
    let d = secs / 86400;
    let h = (secs % 86400) / 3600;
    let m = (secs % 3600) / 60;
    (if d > 0 { dec_seq(d as nat) + seq!['d', ' '] } else { Seq::empty() }) + (if h > 0 {
        dec_seq(h as nat) + seq!['h', ' ']
    } else {
        Seq::empty()
    }) + dec_seq(m as nat) + seq!['m']
}

/// Formats an uptime given in whole seconds, e.g. 36420 as "10h 7m".
pub fn uptime_text(secs: u64) -> (r: String)
    ensures
        r@ == uptime_spec(secs),
{
    let d = secs / 86400;
    let h = (secs % 86400) / 3600;
    let m = (secs % 3600) / 60;
    let mut out = String::new();
    let ghost a = Seq::<char>::empty();
    if d > 0 {
        push_decimal(&mut out, d);
        push_char(&mut out, 'd');
        push_char(&mut out, ' ');
    }
    if h > 0 {
        push_decimal(&mut out, h);
        push_char(&mut out, 'h');
        push_char(&mut out, ' ');
    }
    push_decimal(&mut out, m);
    push_char(&mut out, 'm');
    proof {
        assert(out@ =~= uptime_spec(secs));
    }
    out
}

// ── Kernel ───────────────────────────────────────────────────────────────

/// Third word of `/proc/version` ("Linux version X ..."), or "unknown".
pub open spec fn kernel_spec(version: Seq<char>) -> Seq<char> {
    let w = words_seq(version);
    if w.len() > 2 { w[2] } else { "unknown"@ }
}

/// The kernel release from the text of `/proc/version`.
pub fn kernel_from_version(version: &str) -> (r: String)
    ensures
        r@ == kernel_spec(version@),
{
    let w = words(version);
    if w.len() > 2 {
        let r = to_string(w[2].as_str());
        proof {
            assert(views(w@)[2] == w@[2]@);
        }
        r
    } else {
        to_string("unknown")
    }
}

// ── CPU model ────────────────────────────────────────────────────────────

/// Second `':'`-separated piece of `s`, if any (`s.split(':').nth(1)`).
pub open spec fn after_colon(s: Seq<char>) -> Option<Seq<char>> {
    let p = split_seq(s, ':');
    if p.len() > 1 { Some(p[1]) } else { None }
}

/// The model named on a `"<key> : <model>"` line, when the line starts with
/// `key`, has a value after the colon, and that value is neither empty nor
/// "UNKNOWN".
pub open spec fn soc_line_value(line: Seq<char>, key: Seq<char>) -> Option<Seq<char>> {
    match strip_prefix_seq(line, key) {
        Some(val) => match after_colon(val) {
            Some(name) => {
                let t = trim_seq(name);
                if t.len() > 0 && t != "UNKNOWN"@ { Some(t) } else { None }
            },
            None => None,
        },
        None => None,
    }
}

/// One line of `/proc/cpuinfo` applied to the model found so far and the
/// processor count: "model name" always wins; "Hardware" and then
/// "Processor" only fill an empty model; each "processor" line counts one.
pub open spec fn cpuinfo_step(st: (Seq<char>, nat), line: Seq<char>) -> (Seq<char>, nat) {
    let m1 = match strip_prefix_seq(line, "model name"@) {
        Some(val) => match after_colon(val) {
            Some(name) => trim_seq(name),
            None => st.0,
        },
        None => st.0,
    };
    let m2 = if m1.len() == 0 {
        match soc_line_value(line, "Hardware"@) {
            Some(t) => t,
            None => m1,
        }
    } else {
        m1
    };
    let m3 = if m2.len() == 0 {
        match soc_line_value(line, "Processor"@) {
            Some(t) => t,
            None => m2,
        }
    } else {
        m2
    };
    let c = if "processor"@.is_prefix_of(line) { st.1 + 1 } else { st.1 };
    (m3, c)
}

/// `cpuinfo_step` over all lines.
pub open spec fn cpuinfo_fold(lines: Seq<Seq<char>>) -> (Seq<char>, nat)
    decreases lines.len(),
{
    if lines.len() == 0 {
        (Seq::empty(), 0)
    } else {
        cpuinfo_step(cpuinfo_fold(lines.drop_last()), lines.last())
    }
}

fn after_colon_of(s: &str) -> (r: Option<String>)
    ensures
        r matches Some(t) ==> after_colon(s@) == Some(t@),
        r is None ==> after_colon(s@) is None,
{
    let p = split(s, ':');
    if p.len() > 1 {
        proof {
            assert(views(p@)[1] == p@[1]@);
        }
        Some(to_string(p[1].as_str()))
    } else {
        None
    }
}

fn soc_value(line: &str, key: &str) -> (r: Option<String>)
    ensures
        r matches Some(t) ==> soc_line_value(line@, key@) == Some(t@),
        r is None ==> soc_line_value(line@, key@) is None,
{
    match strip_prefix(line, key) {
        Some(val) => match after_colon_of(&val) {
            Some(name) => {
                let t = trim(&name);
                if t.unicode_len() > 0 && !str_eq(&t, "UNKNOWN") {
                    Some(t)
                } else {
                    None
                }
            },
            None => None,
        },
        None => None,
    }
}

/// The CPU model and the number of "processor" entries in the text of
/// `/proc/cpuinfo` (the model is empty when no line names one).
pub fn cpu_model_from_cpuinfo(content: &str) -> (r: (String, u64))
    requires
        content@.len() < u64::MAX,
    ensures
        (r.0@, r.1 as nat) == cpuinfo_fold(lines_seq(content@)),
{
    let ls = lines(content);
    let mut model = String::new();
    let mut cores: u64 = 0;
    let mut i: usize = 0;
    proof {
        lemma_lines_len(content@);
    }
    while i < ls.len()
        invariant
            i <= ls@.len(),
            views(ls@) == lines_seq(content@),
            ls@.len() <= content@.len(),
            cores <= i,
            (model@, cores as nat) == cpuinfo_fold(views(ls@).take(i as int)),
        decreases ls@.len() - i,
    {
        let line = ls[i].as_str();
        proof {
            assert(views(ls@).take(i + 1).drop_last() =~= views(ls@).take(i as int));
            assert(views(ls@).take(i + 1).last() == line@);
        }
        match strip_prefix(line, "model name") {
            Some(val) => match after_colon_of(&val) {
                Some(name) => {
                    model = trim(&name);
                },
                None => {},
            },
            None => {},
        }
        if model.unicode_len() == 0 {
            match soc_value(line, "Hardware") {
                Some(t) => {
                    model = t;
                },
                None => {},
            }
        }
        if model.unicode_len() == 0 {
            match soc_value(line, "Processor") {
                Some(t) => {
                    model = t;
                },
                None => {},
            }
        }
        if starts_with(line, "processor") {
            cores = cores + 1;
        }
        i += 1;
    }
    proof {
        assert(views(ls@).take(ls@.len() as int) =~= views(ls@));
    }
    (model, cores)
}

proof fn lemma_lines_state_len(s: Seq<char>)
    ensures
        lines_state(s).0.len() + (if lines_state(s).1.len() > 0 { 1int } else { 0 }) <= s.len(),
    decreases s.len(),
{
    if s.len() > 0 {
        lemma_lines_state_len(s.drop_last());
    }
}

/// A string has no more lines than characters.
pub proof fn lemma_lines_len(s: Seq<char>)
    ensures
        lines_seq(s).len() <= s.len(),
{
    lemma_lines_state_len(s);
}

/// `s` cut at the first `" @ "` (`s.split(" @ ").next()`).
pub open spec fn before_at_sign(s: Seq<char>) -> Seq<char> {
    match find_seq(s, " @ "@) {
        Some(p) => s.take(p),
        None => s,
    }
}

/// The displayed CPU: "unknown" without a model; otherwise the model
/// without trademark marks, a " CPU" word and a trailing "@ speed",
/// shortened, and followed by " (N cores)" when there is more than one.
pub open spec fn cpu_display_spec(model: Seq<char>, cores: u64) -> Seq<char> {
    if model.len() == 0 {
        "unknown"@
    } else {
        let s = replace_seq(model, "(R)"@, Seq::empty());
        let s = replace_seq(s, "(TM)"@, Seq::empty());
        let s = replace_seq(s, "(r)"@, Seq::empty());
        let s = replace_seq(s, "(tm)"@, Seq::empty());
        let s = replace_seq(s, " CPU"@, Seq::empty());
        let short = shorten_cpu_spec(trim_seq(before_at_sign(s)));
        if cores > 1 {
            short + " ("@ + dec_seq(cores as nat) + " cores)"@
        } else {
            short
        }
    }
}

proof fn lemma_cpu_literals()
    ensures
        "(R)"@.len() > 0,
        "(TM)"@.len() > 0,
        "(r)"@.len() > 0,
        "(tm)"@.len() > 0,
        " CPU"@.len() > 0,
        ""@ == Seq::<char>::empty(),
{
    reveal_strlit("(R)");
    reveal_strlit("(TM)");
    reveal_strlit("(r)");
    reveal_strlit("(tm)");
    reveal_strlit(" CPU");
    reveal_strlit("");
    assert(""@ =~= Seq::<char>::empty());
}

/// The CPU line shown for a model and processor count.
pub fn cpu_display(model: &str, cores: u64) -> (r: String)
    ensures
        r@ == cpu_display_spec(model@, cores),
{
    if model.unicode_len() == 0 {
        return to_string("unknown");
    }
    proof {
        lemma_cpu_literals();
    }
    let s = replace(model, "(R)", "");
    let s = replace(&s, "(TM)", "");
    let s = replace(&s, "(r)", "");
    let s = replace(&s, "(tm)", "");
    let s = replace(&s, " CPU", "");
    let head = match find(&s, " @ ") {
        Some(p) => prefix_chars(&s, p),
        None => to_string(&s),
    };
    let t = trim(&head);
    let short = shorten_cpu(&t);
    if cores > 1 {
        let mut out = short;
        push_str(&mut out, " (");
        push_decimal(&mut out, cores);
        push_str(&mut out, " cores)");
        out
    } else {
        short
    }
}

/// The first `'\0'`-separated entry of a device-tree `compatible` string,
/// trimmed.
pub open spec fn compatible_model_spec(compat: Seq<char>) -> Seq<char> {
    trim_seq(split_seq(compat, '\0')[0])
}

/// The SoC named first in a device-tree `compatible` string.
pub fn compatible_model(compat: &str) -> (r: String)
    ensures
        r@ == compatible_model_spec(compat@),
{
    let parts = split(compat, '\0');
    proof {
        let (done, cur) = split_state(compat@, '\0');
        assert(split_seq(compat@, '\0').len() == done.len() + 1);
        assert(views(parts@)[0] == parts@[0]@);
    }
    trim(parts[0].as_str())
}

// ── Operating system ─────────────────────────────────────────────────────

/// Value of the last line starting with `key` in a `key=value` file,
/// trimmed, or empty.
pub open spec fn last_prop(lines: Seq<Seq<char>>, key: Seq<char>) -> Seq<char>
    decreases lines.len(),
{
    if lines.len() == 0 {
        Seq::empty()
    } else {
        match strip_prefix_seq(lines.last(), key) {
            Some(v) => trim_seq(v),
            None => last_prop(lines.drop_last(), key),
        }
    }
}

/// Android description from `build.prop`: "Android R (API S)", "Android R"
/// without an SDK level, or just "Android".
pub open spec fn android_os_spec(build_prop: Seq<char>) -> Seq<char> {
    let ls = lines_seq(build_prop);
    let release = last_prop(ls, "ro.build.version.release="@);
    let sdk = last_prop(ls, "ro.build.version.sdk="@);
    if release.len() > 0 && sdk.len() > 0 {
        "Android "@ + release + " (API "@ + sdk + ")"@
    } else if release.len() > 0 {
        "Android "@ + release
    } else {
        "Android"@
    }
}

fn last_prop_of(ls: &Vec<String>, key: &str) -> (r: String)
    ensures
        r@ == last_prop(views(ls@), key@),
{
    let mut k = ls.len();
    proof {
        assert(views(ls@).take(ls@.len() as int) =~= views(ls@));
    }
    while k > 0
        invariant
            k <= ls@.len(),
            last_prop(views(ls@), key@) == last_prop(views(ls@).take(k as int), key@),
        decreases k,
    {
        let ghost pre = views(ls@).take(k as int);
        proof {
            assert(pre.last() == ls@[k - 1]@);
            assert(pre.drop_last() =~= views(ls@).take(k - 1));
        }
        match strip_prefix(ls[k - 1].as_str(), key) {
            Some(v) => {
                return trim(&v);
            },
            None => {},
        }
        k -= 1;
    }
    String::new()
}

/// The Android version line from the text of `/system/build.prop`.
pub fn android_os(build_prop: &str) -> (r: String)
    ensures
        r@ == android_os_spec(build_prop@),
{
    let ls = lines(build_prop);
    proof {
        assert(views(ls@).take(ls@.len() as int) =~= views(ls@));
    }
    let release = last_prop_of(&ls, "ro.build.version.release=");
    let sdk = last_prop_of(&ls, "ro.build.version.sdk=");
    let mut out = to_string("Android");
    if release.unicode_len() > 0 && sdk.unicode_len() > 0 {
        out = to_string("Android ");
        push_str(&mut out, &release);
        push_str(&mut out, " (API ");
        push_str(&mut out, &sdk);
        push_str(&mut out, ")");
    } else if release.unicode_len() > 0 {
        out = to_string("Android ");
        push_str(&mut out, &release);
    }
    out
}

/// Value after `key` on the first line starting with it.
pub open spec fn first_prop(lines: Seq<Seq<char>>, key: Seq<char>) -> Option<Seq<char>>
    decreases lines.len(),
{
    if lines.len() == 0 {
        None
    } else {
        match strip_prefix_seq(lines[0], key) {
            Some(v) => Some(v),
            None => first_prop(lines.drop_first(), key),
        }
    }
}

/// Distribution name from `os-release`: the `PRETTY_NAME`, else `NAME`
/// followed by `VERSION_ID` when present (quotes removed), else nothing.
pub open spec fn os_release_spec(content: Seq<char>) -> Option<Seq<char>> {
    let ls = lines_seq(content);
    match first_prop(ls, "PRETTY_NAME="@) {
        Some(v) => Some(trim_char_seq(v, '"')),
        None => match first_prop(ls, "NAME="@) {
            Some(n) => {
                let name = trim_char_seq(n, '"');
                match first_prop(ls, "VERSION_ID="@) {
                    Some(ver) => Some(name + seq![' '] + trim_char_seq(ver, '"')),
                    None => Some(name),
                }
            },
            None => None,
        },
    }
}

fn first_prop_of(ls: &Vec<String>, key: &str) -> (r: Option<String>)
    ensures
        r matches Some(t) ==> first_prop(views(ls@), key@) == Some(t@),
        r is None ==> first_prop(views(ls@), key@) is None,
{
    let mut i: usize = 0;
    proof {
        assert(views(ls@).skip(0) =~= views(ls@));
    }
    while i < ls.len()
        invariant
            i <= ls@.len(),
            first_prop(views(ls@), key@) == first_prop(views(ls@).skip(i as int), key@),
        decreases ls@.len() - i,
    {
        let ghost rest = views(ls@).skip(i as int);
        proof {
            assert(rest[0] == ls@[i as int]@);
            assert(rest.drop_first() =~= views(ls@).skip(i + 1));
        }
        match strip_prefix(ls[i].as_str(), key) {
            Some(v) => {
                return Some(v);
            },
            None => {},
        }
        i += 1;
    }
    None
}

/// The distribution name from the text of an `os-release` file.
pub fn os_from_release(content: &str) -> (r: Option<String>)
    ensures
        r matches Some(t) ==> os_release_spec(content@) == Some(t@),
        r is None ==> os_release_spec(content@) is None,
{
    let ls = lines(content);
    proof {
        assert(views(ls@).skip(0) =~= views(ls@));
    }
    match first_prop_of(&ls, "PRETTY_NAME=") {
        Some(v) => Some(trim_matches(&v, '"')),
        None => match first_prop_of(&ls, "NAME=") {
            Some(n) => {
                let name = trim_matches(&n, '"');
                match first_prop_of(&ls, "VERSION_ID=") {
                    Some(ver) => {
                        let mut out = name;
                        push_char(&mut out, ' ');
                        let v = trim_matches(&ver, '"');
                        push_str(&mut out, &v);
                        Some(out)
                    },
                    None => Some(name),
                }
            },
            None => None,
        },
    }
}

// ── Android security state ───────────────────────────────────────────────

/// Bootloader state from `ro.boot.verifiedbootstate`: orange is unlocked,
/// green locked, yellow a warning, and any other non-empty state is shown
/// as is.
pub open spec fn boot_state_spec(state: Seq<char>) -> Option<Seq<char>> {
    if state == "orange"@ {
        Some("Unlocked"@)
    } else if state == "green"@ {
        Some("Locked"@)
    } else if state == "yellow"@ {
        Some("Warning"@)
    } else if state.len() > 0 {
        Some(state)
    } else {
        None
    }
}

/// Reads a verified-boot state (already trimmed).
pub fn boot_state_label(state: &str) -> (r: Option<String>)
    ensures
        r matches Some(t) ==> boot_state_spec(state@) == Some(t@),
        r is None ==> boot_state_spec(state@) is None,
{
    if str_eq(state, "orange") {
        Some(to_string("Unlocked"))
    } else if str_eq(state, "green") {
        Some(to_string("Locked"))
    } else if str_eq(state, "yellow") {
        Some(to_string("Warning"))
    } else if state.unicode_len() > 0 {
        Some(to_string(state))
    } else {
        None
    }
}

/// Bootloader lock from `ro.boot.flash.locked`: "0" unlocked, "1" locked.
pub open spec fn flash_lock_spec(flag: Seq<char>) -> Option<Seq<char>> {
    if flag == "0"@ {
        Some("Unlocked"@)
    } else if flag == "1"@ {
        Some("Locked"@)
    } else {
        None
    }
}

/// Reads a flash-lock flag (already trimmed).
pub fn flash_lock_label(flag: &str) -> (r: Option<String>)
    ensures
        r matches Some(t) ==> flash_lock_spec(flag@) == Some(t@),
        r is None ==> flash_lock_spec(flag@) is None,
{
    if str_eq(flag, "0") {
        Some(to_string("Unlocked"))
    } else if str_eq(flag, "1") {
        Some(to_string("Locked"))
    } else {
        None
    }
}

/// SELinux mode from the security context of process 1.
pub open spec fn selinux_spec(context: Seq<char>) -> Option<Seq<char>> {
    if contains_seq(context, "enforce"@) {
        Some("Enforcing"@)
    } else if contains_seq(context, "permissive"@) || contains_seq(context, "unconfined"@) {
        Some("Permissive"@)
    } else {
        None
    }
}

/// Reads the SELinux mode from the text of `/proc/1/attr/current`.
pub fn selinux_from_context(context: &str) -> (r: Option<String>)
    ensures
        r matches Some(t) ==> selinux_spec(context@) == Some(t@),
        r is None ==> selinux_spec(context@) is None,
{
    if contains(context, "enforce") {
        Some(to_string("Enforcing"))
    } else if contains(context, "permissive") || contains(context, "unconfined") {
        Some(to_string("Permissive"))
    } else {
        None
    }
}

} // verus!

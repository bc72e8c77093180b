//! Phone renderers: a card view, a BIOS-style listing, a device companion
//! with usage bars, and a small responsive logo.
use vstd::prelude::*;
use crate::component::companion::{accent, or_else};
use crate::config::Config;
use crate::info::SysInfo;
use crate::numfmt::{dec_seq, push_decimal};
use crate::render::{bold_seq, colorize_seq, max_line_width, max_width_seq, pad_chars, pad_row, push_bold, push_colorized, visible_width};
use crate::strs::{contains, contains_seq};
use crate::text::{push_char, push_str, repeat_char, repeat_char_seq, spaces, spaces_seq, str_eq, to_string, views};
use crate::theme::{fg_escape_seq, Color};
use crate::widget::{push_reset, reset_seq, sat_sub};
use crate::width::{char_cols, char_cols_of, str_width, str_width_of};

verus! {

/// Phone rendering modes.
#[derive(Debug, Clone, Copy, PartialEq, Eq, Structural)]
pub enum MobileMode {
    Card,
    Bios,
    Companion,
    Ascii,
}

/// The mode a command-line word names, if any.
pub open spec fn mode_from(s: Seq<char>) -> Option<MobileMode> {
    if s == "card"@ || s == "c"@ {
        Some(MobileMode::Card)
    } else if s == "bios"@ || s == "b"@ {
        Some(MobileMode::Bios)
    } else if s == "companion"@ || s == "comp"@ {
        Some(MobileMode::Companion)
    } else if s == "ascii"@ || s == "a"@ {
        Some(MobileMode::Ascii)
    } else {
        None
    }
}

impl MobileMode {
    /// Parses a mode name or its abbreviation.
    pub fn from_str(s: &str) -> (r: Option<Self>)
        ensures
            r == mode_from(s@),
    {
        if str_eq(s, "card") || str_eq(s, "c") {
            Some(MobileMode::Card)
        } else if str_eq(s, "bios") || str_eq(s, "b") {
            Some(MobileMode::Bios)
        } else if str_eq(s, "companion") || str_eq(s, "comp") {
            Some(MobileMode::Companion)
        } else if str_eq(s, "ascii") || str_eq(s, "a") {
            Some(MobileMode::Ascii)
        } else {
            None
        }
    }

    /// The mode names accepted on the command line.
    pub fn variants() -> (r: &'static [&'static str])
        ensures
            r@.len() == 4,
            r@[0]@ == "card"@,
            r@[1]@ == "bios"@,
            r@[2]@ == "companion"@,
            r@[3]@ == "ascii"@,
    {
        &["card", "bios", "companion", "ascii"]
    }

    /// Display name.
    pub fn name(&self) -> (r: &'static str)
        ensures
            r@ == match *self {
                MobileMode::Card => "Card System"@,
                MobileMode::Bios => "BIOS / Cyber"@,
                MobileMode::Companion => "Device Companion"@,
                MobileMode::Ascii => "Responsive ASCII"@,
            },
    {
        match self {
            MobileMode::Card => "Card System",
            MobileMode::Bios => "BIOS / Cyber",
            MobileMode::Companion => "Device Companion",
            MobileMode::Ascii => "Responsive ASCII",
        }
    }
}

// ── Text helpers ─────────────────────────────────────────────────────────

/// The placeholder for a missing value.
pub open spec fn dash() -> Seq<char> {
    "\u{2014}"@
}

/// `s` centred in `w` columns (left padding only), or `s` when too wide.
pub open spec fn center_text_spec(s: Seq<char>, w: nat) -> Seq<char> {
    let vis = str_width_of(s);
    if vis >= w { s } else { spaces_seq(((w - vis) / 2) as nat) + s }
}

/// `s` padded with blanks to `w` columns.
pub open spec fn pad_right_spec(s: Seq<char>, w: nat) -> Seq<char> {
    let vis = str_width_of(s);
    if vis >= w { s } else { s + spaces_seq((w - vis) as nat) }
}

/// Left-to-right pass of `truncate`: text kept, columns used, whether the
/// cut was made.
pub open spec fn trunc_state(s: Seq<char>, max: nat) -> (Seq<char>, nat, bool)
    decreases s.len(),
{
    if s.len() == 0 {
        (Seq::empty(), 0, false)
    } else {
        let (o, w, done) = trunc_state(s.drop_last(), max);
        let c = s.last();
        if done {
            (o, w, done)
        } else if w + char_cols(c) > sat_sub(max as int, 1) {
            (o.push('\u{2026}'), w, true)
        } else {
            (o.push(c), w + char_cols(c), false)
        }
    }
}

/// `s` when it fits in `max` columns, otherwise its longest prefix that
/// fits in `max - 1` columns followed by `'…'`.
pub open spec fn truncate_spec(s: Seq<char>, max: nat) -> Seq<char> {
    if str_width_of(s) <= max { s } else { trunc_state(s, max).0 }
}

/// A bar of `filled` full cells in `c` and `empty` light cells in grey.
pub open spec fn progress_bar_spec(filled: nat, empty: nat, c: Color) -> Seq<char> {
    fg_escape_seq(c) + repeat_char_seq('\u{2588}', filled) + fg_escape_seq(Color { r: 80, g: 80, b: 100 }) + repeat_char_seq('\u{2591}', empty) + reset_seq()
}

/// Centres `s` in `w` columns.
pub fn center_text(s: &str, w: usize) -> (r: String)
    ensures
        r@ == center_text_spec(s@, w as nat),
{
    let vis = str_width(s);
    if vis >= w {
        to_string(s)
    } else {
        let mut r = spaces((w - vis) / 2);
        push_str(&mut r, s);
        r
    }
}

/// Pads `s` with blanks to `w` columns.
pub fn pad_right(s: &str, w: usize) -> (r: String)
    ensures
        r@ == pad_right_spec(s@, w as nat),
{
    let vis = str_width(s);
    if vis >= w {
        to_string(s)
    } else {
        let mut r = to_string(s);
        let p = spaces(w - vis);
        push_str(&mut r, &p);
        r
    }
}

/// Shortens `s` to `max` columns, marking the cut with `'…'`.
pub fn truncate(s: &str, max: usize) -> (r: String)
    ensures
        r@ == truncate_spec(s@, max as nat),
{
    let vis = str_width(s);
    if vis <= max {
        return to_string(s);
    }
    let limit = if max > 1 { max - 1 } else { 0 };
    let v = crate::text::chars_of(s);
    let mut out = String::new();
    let mut w: usize = 0;
    let mut done = false;
    let mut k: usize = 0;
    while k < v.len()
        invariant
            v@ == s@,
            k <= v@.len(),
            w <= limit,
            limit as int == sat_sub(max as int, 1),
            (out@, w as nat, done) == trunc_state(s@.take(k as int), max as nat),
        decreases v@.len() - k,
    {
        proof {
            assert(s@.take(k + 1).drop_last() =~= s@.take(k as int));
        }
        if !done {
            let c = v[k];
            let cw = char_cols_of(c);
            if (w as u128) + (cw as u128) > (limit as u128) {
                push_char(&mut out, '\u{2026}');
                done = true;
            } else {
                push_char(&mut out, c);
                w = w + cw;
            }
        }
        k += 1;
    }
    proof {
        assert(s@.take(s@.len() as int) =~= s@);
    }
    out
}

/// Appends a progress bar.
fn push_progress_bar(out: &mut String, filled: usize, empty: usize, c: Color)
    ensures
        final(out)@ == old(out)@ + progress_bar_spec(filled as nat, empty as nat, c),
{
    let e = c.fg_escape();
    push_str(out, &e);
    let f = repeat_char('\u{2588}', filled);
    push_str(out, &f);
    let g = Color::new(80, 80, 100).fg_escape();
    push_str(out, &g);
    let l = repeat_char('\u{2591}', empty);
    push_str(out, &l);
    push_reset(out);
    proof {
        assert(final(out)@ =~= old(out)@ + progress_bar_spec(filled as nat, empty as nat, c));
    }
}

// ── Sections of labelled values ──────────────────────────────────────────

/// View of labelled values.
pub open spec fn items_view(v: Seq<(String, String)>) -> Seq<(Seq<char>, Seq<char>)> {
    v.map_values(|p: (String, String)| (p.0@, p.1@))
}

/// View of titled sections.
pub open spec fn sections_view(v: Seq<(&'static str, Vec<(String, String)>)>) -> Seq<(Seq<char>, Seq<(Seq<char>, Seq<char>)>)> {
    v.map_values(|p: (&'static str, Vec<(String, String)>)| (p.0@, items_view(p.1@)))
}

/// `(label, v)` when `v` is not empty.
pub open spec fn opt_item(label: Seq<char>, v: Seq<char>) -> Seq<(Seq<char>, Seq<char>)> {
    if v.len() > 0 { seq![(label, v)] } else { Seq::empty() }
}

/// `(label, v)` when `v` is known: neither empty nor `"unknown"`.
pub open spec fn known_item(label: Seq<char>, v: Seq<char>) -> Seq<(Seq<char>, Seq<char>)> {
    if v.len() > 0 && v != "unknown"@ { seq![(label, v)] } else { Seq::empty() }
}

/// `(label, v)` for a package count that is neither empty nor the dash.
pub open spec fn packages_item(label: Seq<char>, v: Seq<char>) -> Seq<(Seq<char>, Seq<char>)> {
    if v.len() > 0 && v != dash() { seq![(label, v)] } else { Seq::empty() }
}

/// `v`, or the dash when empty.
pub open spec fn or_dash(v: Seq<char>) -> Seq<char> {
    or_else(v, dash())
}

/// Storage, else disk, else the dash.
pub open spec fn storage_or_disk(info: SysInfo) -> Seq<char> {
    or_else(info.storage@, or_dash(info.disk@))
}

fn push_item(items: &mut Vec<(String, String)>, label: &str, value: String)
    ensures
        items_view(final(items)@) == items_view(old(items)@).push((label@, value@)),
{
    let ghost v = value@;
    items.push((to_string(label), value));
    proof {
        assert(items_view(final(items)@) =~= items_view(old(items)@).push((label@, v)));
    }
}

fn push_opt(items: &mut Vec<(String, String)>, label: &str, v: &str)
    ensures
        items_view(final(items)@) == items_view(old(items)@) + opt_item(label@, v@),
{
    if v.unicode_len() > 0 {
        push_item(items, label, to_string(v));
    }
    proof {
        assert(items_view(final(items)@) =~= items_view(old(items)@) + opt_item(label@, v@));
    }
}

fn push_known(items: &mut Vec<(String, String)>, label: &str, v: &str)
    ensures
        items_view(final(items)@) == items_view(old(items)@) + known_item(label@, v@),
{
    if v.unicode_len() > 0 && !str_eq(v, "unknown") {
        push_item(items, label, to_string(v));
    }
    proof {
        assert(items_view(final(items)@) =~= items_view(old(items)@) + known_item(label@, v@));
    }
}

fn push_packages(items: &mut Vec<(String, String)>, label: &str, v: &str)
    ensures
        items_view(final(items)@) == items_view(old(items)@) + packages_item(label@, v@),
{
    if v.unicode_len() > 0 && !str_eq(v, "\u{2014}") {
        push_item(items, label, to_string(v));
    }
    proof {
        assert(items_view(final(items)@) =~= items_view(old(items)@) + packages_item(label@, v@));
    }
}

fn or_else_of(a: &str, b: &str) -> (r: String)
    ensures
        r@ == or_else(a@, b@),
{
    if a.unicode_len() > 0 { to_string(a) } else { to_string(b) }
}

fn or_dash_of(v: &str) -> (r: String)
    ensures
        r@ == or_dash(v@),
{
    or_else_of(v, "\u{2014}")
}

fn storage_or_disk_of(info: &SysInfo) -> (r: String)
    ensures
        r@ == storage_or_disk(*info),
{
    let d = or_dash_of(info.disk.as_str());
    or_else_of(info.storage.as_str(), &d)
}

fn push_section(v: &mut Vec<(&'static str, Vec<(String, String)>)>, title: &'static str, items: Vec<(String, String)>)
    ensures
        sections_view(final(v)@) == sections_view(old(v)@).push((title@, items_view(items@))),
{
    let ghost iv = items_view(items@);
    v.push((title, items));
    proof {
        assert(sections_view(final(v)@) =~= sections_view(old(v)@).push((title@, iv)));
    }
}

/// The cards of the card view: system, hardware, battery, and network
/// when anything about it is known.
pub open spec fn card_data(info: SysInfo) -> Seq<(Seq<char>, Seq<(Seq<char>, Seq<char>)>)> {
    let system = seq![("Android"@, or_dash(info.os@)), ("Kernel"@, or_dash(info.kernel@))] + opt_item("Root"@, info.root_status@)
        + opt_item("SELinux"@, info.selinux@) + opt_item("Sec. Patch"@, info.security_patch@);
    let hardware = known_item("SoC"@, info.soc@) + known_item("CPU"@, info.cpu@) + known_item("GPU"@, info.gpu@) + opt_item("Arch"@, info.arch@)
        + seq![("RAM"@, or_dash(info.memory@)), ("Storage"@, storage_or_disk(info))] + opt_item("Display"@, info.resolution@)
        + opt_item("VRAM"@, info.vram@);
    let battery = seq![("Level"@, or_dash(info.battery_level@)), ("Temp"@, or_dash(info.battery_temp@))] + opt_item(
        "Health"@,
        info.battery_health@,
    ) + seq![("Status"@, or_dash(info.battery_status@)), ("Uptime"@, info.uptime@)];
    let network = opt_item("WiFi"@, info.wifi_ssid@) + opt_item("Signal"@, info.signal@) + opt_item("IP"@, info.local_ip@) + packages_item(
        "Packages"@,
        info.packages@,
    );
    seq![("System"@, system), ("Hardware"@, hardware), ("Battery"@, battery)] + if network.len() > 0 {
        seq![("Network"@, network)]
    } else {
        Seq::empty()
    }
}

/// The cards of the card view.
pub fn build_card_data(info: &SysInfo) -> (r: Vec<(&'static str, Vec<(String, String)>)>)
    ensures
        sections_view(r@) == card_data(*info),
{
    proof {
        reveal_strlit("unknown");
        reveal_strlit("\u{2014}");
    }
    let mut system: Vec<(String, String)> = Vec::new();
    proof {
        assert(items_view(system@) =~= Seq::<(Seq<char>, Seq<char>)>::empty());
    }
    push_item(&mut system, "Android", or_dash_of(info.os.as_str()));
    push_item(&mut system, "Kernel", or_dash_of(info.kernel.as_str()));
    push_opt(&mut system, "Root", info.root_status.as_str());
    push_opt(&mut system, "SELinux", info.selinux.as_str());
    push_opt(&mut system, "Sec. Patch", info.security_patch.as_str());
    proof {
        assert(items_view(system@) =~= card_data(*info)[0].1);
    }

    let mut hardware: Vec<(String, String)> = Vec::new();
    proof {
        assert(items_view(hardware@) =~= Seq::<(Seq<char>, Seq<char>)>::empty());
    }
    push_known(&mut hardware, "SoC", info.soc.as_str());
    push_known(&mut hardware, "CPU", info.cpu.as_str());
    push_known(&mut hardware, "GPU", info.gpu.as_str());
    push_opt(&mut hardware, "Arch", info.arch.as_str());
    push_item(&mut hardware, "RAM", or_dash_of(info.memory.as_str()));
    push_item(&mut hardware, "Storage", storage_or_disk_of(info));
    push_opt(&mut hardware, "Display", info.resolution.as_str());
    push_opt(&mut hardware, "VRAM", info.vram.as_str());
    proof {
        assert(items_view(hardware@) =~= card_data(*info)[1].1);
    }

    let mut battery: Vec<(String, String)> = Vec::new();
    proof {
        assert(items_view(battery@) =~= Seq::<(Seq<char>, Seq<char>)>::empty());
    }
    push_item(&mut battery, "Level", or_dash_of(info.battery_level.as_str()));
    push_item(&mut battery, "Temp", or_dash_of(info.battery_temp.as_str()));
    push_opt(&mut battery, "Health", info.battery_health.as_str());
    push_item(&mut battery, "Status", or_dash_of(info.battery_status.as_str()));
    push_item(&mut battery, "Uptime", to_string(info.uptime.as_str()));
    proof {
        assert(items_view(battery@) =~= card_data(*info)[2].1);
    }

    let mut network: Vec<(String, String)> = Vec::new();
    proof {
        assert(items_view(network@) =~= Seq::<(Seq<char>, Seq<char>)>::empty());
    }
    push_opt(&mut network, "WiFi", info.wifi_ssid.as_str());
    push_opt(&mut network, "Signal", info.signal.as_str());
    push_opt(&mut network, "IP", info.local_ip.as_str());
    push_packages(&mut network, "Packages", info.packages.as_str());
    let ghost net = opt_item("WiFi"@, info.wifi_ssid@) + opt_item("Signal"@, info.signal@) + opt_item("IP"@, info.local_ip@) + packages_item(
        "Packages"@,
        info.packages@,
    );
    proof {
        assert(items_view(network@) =~= net);
    }

    let mut cards: Vec<(&'static str, Vec<(String, String)>)> = Vec::new();
    proof {
        assert(sections_view(cards@) =~= Seq::<(Seq<char>, Seq<(Seq<char>, Seq<char>)>)>::empty());
    }
    push_section(&mut cards, "System", system);
    push_section(&mut cards, "Hardware", hardware);
    push_section(&mut cards, "Battery", battery);
    let ghost three = sections_view(cards@);
    if network.len() > 0 {
        push_section(&mut cards, "Network", network);
    }
    proof {
        assert(sections_view(cards@) =~= card_data(*info));
    }
    cards
}

/// The sections of the BIOS view.
pub open spec fn bios_data(info: SysInfo, device: Seq<char>, rom: Seq<char>) -> Seq<(Seq<char>, Seq<(Seq<char>, Seq<char>)>)> {
    let dev = seq![("Model"@, device)] + opt_item("Arch"@, info.arch@) + known_item("SoC"@, info.soc@);
    let sys = seq![("OS"@, or_dash(info.os@))] + opt_item("ROM"@, rom) + seq![("Kernel"@, or_dash(info.kernel@))] + opt_item(
        "Security"@,
        info.security_patch@,
    ) + seq![("Uptime"@, info.uptime@)] + packages_item("Packages"@, info.packages@);
    let security = seq![
        ("Root"@, or_else(info.root_status@, "None"@)),
        ("Bootloader"@, or_else(info.bootloader@, "Unknown"@)),
        ("SELinux"@, or_else(info.selinux@, "Unknown"@)),
    ];
    let hw = seq![("RAM"@, or_dash(info.memory@)), ("Storage"@, storage_or_disk(info))] + opt_item("CPU Temp"@, info.cpu_temp@)
        + opt_item("Brightness"@, info.brightness@) + opt_item("Refresh"@, info.refresh_rate@);
    let bat = seq![("Level"@, or_dash(info.battery_level@)), ("Temp"@, or_dash(info.battery_temp@))] + opt_item(
        "Health"@,
        info.battery_health@,
    ) + seq![("Status"@, or_dash(info.battery_status@))];
    seq![("Device"@, dev), ("System"@, sys), ("Security"@, security), ("Hardware"@, hw), ("Battery"@, bat)]
}

/// The sections of the BIOS view.
pub fn build_bios_data(info: &SysInfo, device_name: &str, rom: &str) -> (r: Vec<(&'static str, Vec<(String, String)>)>)
    ensures
        sections_view(r@) == bios_data(*info, device_name@, rom@),
{
    proof {
        reveal_strlit("unknown");
        reveal_strlit("\u{2014}");
    }
    let mut dev: Vec<(String, String)> = Vec::new();
    proof {
        assert(items_view(dev@) =~= Seq::<(Seq<char>, Seq<char>)>::empty());
    }
    push_item(&mut dev, "Model", to_string(device_name));
    push_opt(&mut dev, "Arch", info.arch.as_str());
    push_known(&mut dev, "SoC", info.soc.as_str());
    proof {
        assert(items_view(dev@) =~= bios_data(*info, device_name@, rom@)[0].1);
    }

    let mut sys: Vec<(String, String)> = Vec::new();
    proof {
        assert(items_view(sys@) =~= Seq::<(Seq<char>, Seq<char>)>::empty());
    }
    push_item(&mut sys, "OS", or_dash_of(info.os.as_str()));
    push_opt(&mut sys, "ROM", rom);
    push_item(&mut sys, "Kernel", or_dash_of(info.kernel.as_str()));
    push_opt(&mut sys, "Security", info.security_patch.as_str());
    push_item(&mut sys, "Uptime", to_string(info.uptime.as_str()));
    push_packages(&mut sys, "Packages", info.packages.as_str());
    proof {
        assert(items_view(sys@) =~= bios_data(*info, device_name@, rom@)[1].1);
    }

    let mut security: Vec<(String, String)> = Vec::new();
    proof {
        assert(items_view(security@) =~= Seq::<(Seq<char>, Seq<char>)>::empty());
    }
    push_item(&mut security, "Root", or_else_of(info.root_status.as_str(), "None"));
    push_item(&mut security, "Bootloader", or_else_of(info.bootloader.as_str(), "Unknown"));
    push_item(&mut security, "SELinux", or_else_of(info.selinux.as_str(), "Unknown"));
    proof {
        assert(items_view(security@) =~= bios_data(*info, device_name@, rom@)[2].1);
    }

    let mut hw: Vec<(String, String)> = Vec::new();
    proof {
        assert(items_view(hw@) =~= Seq::<(Seq<char>, Seq<char>)>::empty());
    }
    push_item(&mut hw, "RAM", or_dash_of(info.memory.as_str()));
    push_item(&mut hw, "Storage", storage_or_disk_of(info));
    push_opt(&mut hw, "CPU Temp", info.cpu_temp.as_str());
    push_opt(&mut hw, "Brightness", info.brightness.as_str());
    push_opt(&mut hw, "Refresh", info.refresh_rate.as_str());
    proof {
        assert(items_view(hw@) =~= bios_data(*info, device_name@, rom@)[3].1);
    }

    let mut bat: Vec<(String, String)> = Vec::new();
    proof {
        assert(items_view(bat@) =~= Seq::<(Seq<char>, Seq<char>)>::empty());
    }
    push_item(&mut bat, "Level", or_dash_of(info.battery_level.as_str()));
    push_item(&mut bat, "Temp", or_dash_of(info.battery_temp.as_str()));
    push_opt(&mut bat, "Health", info.battery_health.as_str());
    push_item(&mut bat, "Status", or_dash_of(info.battery_status.as_str()));
    proof {
        assert(items_view(bat@) =~= bios_data(*info, device_name@, rom@)[4].1);
    }

    let mut sections: Vec<(&'static str, Vec<(String, String)>)> = Vec::new();
    proof {
        assert(sections_view(sections@) =~= Seq::<(Seq<char>, Seq<(Seq<char>, Seq<char>)>)>::empty());
    }
    push_section(&mut sections, "Device", dev);
    push_section(&mut sections, "System", sys);
    push_section(&mut sections, "Security", security);
    push_section(&mut sections, "Hardware", hw);
    push_section(&mut sections, "Battery", bat);
    proof {
        assert(sections_view(sections@) =~= bios_data(*info, device_name@, rom@));
    }
    sections
}

/// Lines of the responsive-logo view's text: device and OS, then ROM,
/// kernel, battery, memory, storage and root status where known.
pub open spec fn ascii_info(info: SysInfo, device: Seq<char>) -> Seq<Seq<char>> {
    let temp = if info.battery_temp@.len() > 0 { " | "@ + info.battery_temp@ } else { Seq::empty() };
    let bat = if info.battery_level@.len() > 0 { seq!["Battery: "@ + info.battery_level@ + temp] } else { Seq::empty() };
    let mem = if info.memory@.len() > 0 { seq!["RAM: "@ + info.memory@] } else { Seq::empty() };
    let stor = if info.storage@.len() > 0 || info.disk@.len() > 0 {
        seq!["Storage: "@ + or_else(info.storage@, info.disk@)]
    } else {
        Seq::empty()
    };
    let root = if info.root_status@.len() > 0 { seq!["Root: "@ + info.root_status@] } else { Seq::empty() };
    let rom = if info.rom@.len() > 0 { seq![info.rom@] } else { Seq::empty() };
    let kernel = if info.kernel@.len() > 0 { seq![info.kernel@] } else { Seq::empty() };
    seq![device + "  "@ + info.os@] + rom + kernel + bat + mem + stor + root
}

fn push_line(v: &mut Vec<String>, s: String)
    ensures
        views(final(v)@) == views(old(v)@).push(s@),
{
    let ghost x = s@;
    v.push(s);
    proof {
        assert(views(final(v)@) =~= views(old(v)@).push(x));
    }
}

fn concat2(a: &str, b: &str) -> (r: String)
    ensures
        r@ == a@ + b@,
{
    let mut r = to_string(a);
    push_str(&mut r, b);
    r
}

/// Lines of the responsive-logo view's text.
pub fn build_ascii_info(info: &SysInfo, device_name: &str) -> (r: Vec<String>)
    ensures
        views(r@) == ascii_info(*info, device_name@),
{
    let mut lines: Vec<String> = Vec::new();
    let mut first = concat2(device_name, "  ");
    push_str(&mut first, info.os.as_str());
    push_line(&mut lines, first);
    let ghost l1 = views(lines@);
    if info.rom.unicode_len() > 0 {
        push_line(&mut lines, to_string(info.rom.as_str()));
    }
    let ghost l2 = views(lines@);
    if info.kernel.unicode_len() > 0 {
        push_line(&mut lines, to_string(info.kernel.as_str()));
    }
    let ghost l3 = views(lines@);
    if info.battery_level.unicode_len() > 0 {
        let mut b = concat2("Battery: ", info.battery_level.as_str());
        let ghost b0 = b@;
        if info.battery_temp.unicode_len() > 0 {
            push_str(&mut b, " | ");
            push_str(&mut b, info.battery_temp.as_str());
            proof {
                assert(b@ =~= b0 + (" | "@ + info.battery_temp@));
            }
        } else {
            proof {
                assert(b@ =~= b0 + Seq::<char>::empty());
            }
        }
        push_line(&mut lines, b);
    }
    let ghost l4 = views(lines@);
    if info.memory.unicode_len() > 0 {
        push_line(&mut lines, concat2("RAM: ", info.memory.as_str()));
    }
    let ghost l5 = views(lines@);
    if info.storage.unicode_len() > 0 || info.disk.unicode_len() > 0 {
        let s = or_else_of(info.storage.as_str(), info.disk.as_str());
        push_line(&mut lines, concat2("Storage: ", s.as_str()));
    }
    let ghost l6 = views(lines@);
    if info.root_status.unicode_len() > 0 {
        push_line(&mut lines, concat2("Root: ", info.root_status.as_str()));
    }
    proof {
        assert(views(lines@) =~= ascii_info(*info, device_name@));
    }
    lines
}


// ── Renderers ────────────────────────────────────────────────────────────

/// Concatenation of text pieces.
pub open spec fn concat_all(parts: Seq<Seq<char>>) -> Seq<char>
    decreases parts.len(),
{
    if parts.len() == 0 { Seq::empty() } else { concat_all(parts.drop_last()) + parts.last() }
}

proof fn lemma_concat_step(f: spec_fn(int) -> Seq<char>, i: nat)
    ensures
        concat_all(Seq::new(i + 1, f)) == concat_all(Seq::new(i, f)) + f(i as int),
{
    assert(Seq::new(i + 1, f).drop_last() =~= Seq::new(i, f));
}

/// The device's name: its model, or the host name.
pub open spec fn device_name(info: SysInfo) -> Seq<char> {
    or_else(info.device@, info.host@)
}

/// Purple of the card frames.
pub open spec fn purple() -> Color {
    Color { r: 157, g: 133, b: 255 }
}

/// Width of the cards: the terminal width, kept within 20..=50.
pub open spec fn card_width(tw: usize) -> nat {
    let a = if tw < 50 { tw as nat } else { 50 };
    if a < 20 { 20 } else { a }
}

/// The banner of the card view.
pub open spec fn banner_text() -> Seq<char> {
    "    \u{25e2} ATLAS \u{25e3}   "@
}

/// The header card: the banner and the device line, framed.
pub open spec fn card_head(cfg: Config, info: SysInfo, tw: usize) -> Seq<char> {
    let ac = accent(cfg.logo.colors@);
    let device = device_name(info);
    let sub = if info.rom@.len() > 0 { device + "  |  "@ + info.rom@ } else { device };
    let w = card_width(tw);
    let rule = repeat_char_seq('\u{2500}', (w - 2) as nat);
    fg_escape_seq(ac) + seq!['\u{256d}'] + rule + seq!['\u{256e}'] + reset_seq() + seq!['\n']
        + fg_escape_seq(ac) + seq!['\u{2502}'] + center_text_spec(banner_text(), w) + seq!['\u{2502}'] + reset_seq() + seq!['\n']
        + fg_escape_seq(Color { r: 200, g: 200, b: 200 }) + seq!['\u{2502}'] + center_text_spec(sub, w) + seq!['\u{2502}'] + reset_seq() + seq!['\n']
        + fg_escape_seq(ac) + seq!['\u{2570}'] + rule + seq!['\u{256f}'] + reset_seq() + seq!['\n'] + seq!['\n']
}

/// One labelled value inside a card `inner` columns wide.
pub open spec fn card_item(item: (Seq<char>, Seq<char>), inner: nat) -> Seq<char> {
    let line = seq![' '] + item.0 + ": "@ + item.1 + seq![' '];
    fg_escape_seq(purple()) + seq!['\u{2502}', ' '] + fg_escape_seq(Color { r: 180, g: 180, b: 200 }) + pad_right_spec(
        truncate_spec(line, inner),
        inner,
    ) + seq!['\u{2502}'] + reset_seq() + seq!['\n']
}

/// One card: its title on the top edge, its values, the bottom edge.
pub open spec fn card_block(card: (Seq<char>, Seq<(Seq<char>, Seq<char>)>), w: nat) -> Seq<char> {
    let inner = sat_sub(w as int, 4) as nat;
    fg_escape_seq(purple()) + seq!['\u{256d}', '\u{2500}', ' '] + card.0 + seq![' ', '\u{2500}', '\u{256e}'] + reset_seq() + seq!['\n']
        + concat_all(Seq::new(card.1.len(), |k: int| card_item(card.1[k], inner)))
        + fg_escape_seq(purple()) + seq!['\u{2570}'] + repeat_char_seq('\u{2500}', sat_sub(w as int, 2) as nat) + seq!['\u{256f}'] + reset_seq() + seq!['\n'] + seq!['\n']
}

/// The card view.
pub open spec fn card_spec(cfg: Config, info: SysInfo, tw: usize) -> Seq<char> {
    let cards = card_data(info);
    card_head(cfg, info, tw) + concat_all(Seq::new(cards.len(), |k: int| card_block(cards[k], card_width(tw)))) + seq!['\n']
}

fn push_framed(out: &mut String, c: Color, left: char, mid: &str, right: char)
    ensures
        final(out)@ == old(out)@ + fg_escape_seq(c) + seq![left] + mid@ + seq![right] + reset_seq() + seq!['\n'],
{
    let e = c.fg_escape();
    push_str(out, &e);
    push_char(out, left);
    push_str(out, mid);
    push_char(out, right);
    push_reset(out);
    push_char(out, '\n');
    proof {
        assert(final(out)@ =~= old(out)@ + fg_escape_seq(c) + seq![left] + mid@ + seq![right] + reset_seq() + seq!['\n']);
    }
}

fn accent_of(cfg: &Config) -> (c: Color)
    ensures
        c == accent(cfg.logo.colors@),
{
    if cfg.logo.colors.len() > 0 { cfg.logo.colors[0] } else { Color::new(255, 102, 146) }
}

fn device_name_of(info: &SysInfo) -> (r: String)
    ensures
        r@ == device_name(*info),
{
    or_else_of(info.device.as_str(), info.host.as_str())
}

fn card_item_exec(out: &mut String, label: &str, value: &str, inner: usize)
    ensures
        final(out)@ == old(out)@ + card_item((label@, value@), inner as nat),
{
    let mut line = String::new();
    push_char(&mut line, ' ');
    push_str(&mut line, label);
    push_str(&mut line, ": ");
    push_str(&mut line, value);
    push_char(&mut line, ' ');
    proof {
        assert(line@ =~= seq![' '] + label@ + ": "@ + value@ + seq![' ']);
    }
    let t = truncate(&line, inner);
    let p = pad_right(&t, inner);
    let e = Color::new(157, 133, 255).fg_escape();
    push_str(out, &e);
    push_char(out, '\u{2502}');
    push_char(out, ' ');
    let g = Color::new(180, 180, 200).fg_escape();
    push_str(out, &g);
    push_str(out, &p);
    push_char(out, '\u{2502}');
    push_reset(out);
    push_char(out, '\n');
    proof {
        assert(final(out)@ =~= old(out)@ + card_item((label@, value@), inner as nat));
    }
}

fn push_card_top(out: &mut String, title: &str)
    ensures
        final(out)@ == old(out)@ + fg_escape_seq(purple()) + seq!['\u{256d}', '\u{2500}', ' '] + title@ + seq![' ', '\u{2500}', '\u{256e}']
            + reset_seq() + seq!['\n'],
{
    let e = Color::new(157, 133, 255).fg_escape();
    push_str(out, &e);
    push_char(out, '\u{256d}');
    push_char(out, '\u{2500}');
    push_char(out, ' ');
    push_str(out, title);
    push_char(out, ' ');
    push_char(out, '\u{2500}');
    push_char(out, '\u{256e}');
    push_reset(out);
    push_char(out, '\n');
    proof {
        assert(final(out)@ =~= old(out)@ + fg_escape_seq(purple()) + seq!['\u{256d}', '\u{2500}', ' '] + title@ + seq![
            ' ',
            '\u{2500}',
            '\u{256e}',
        ] + reset_seq() + seq!['\n']);
    }
}

fn push_card_bottom(out: &mut String, w: usize)
    ensures
        final(out)@ == old(out)@ + fg_escape_seq(purple()) + seq!['\u{2570}'] + repeat_char_seq('\u{2500}', sat_sub(w as int, 2) as nat)
            + seq!['\u{256f}'] + reset_seq() + seq!['\n'] + seq!['\n'],
{
    let rule = repeat_char('\u{2500}', if w > 2 { w - 2 } else { 0 });
    push_framed(out, Color::new(157, 133, 255), '\u{2570}', &rule, '\u{256f}');
    push_char(out, '\n');
    proof {
        assert(final(out)@ =~= old(out)@ + fg_escape_seq(purple()) + seq!['\u{2570}'] + repeat_char_seq('\u{2500}', sat_sub(w as int, 2) as nat)
            + seq!['\u{256f}'] + reset_seq() + seq!['\n'] + seq!['\n']);
    }
}

fn card_block_exec(out: &mut String, title: &str, items: &Vec<(String, String)>, w: usize)
    ensures
        final(out)@ == old(out)@ + card_block((title@, items_view(items@)), w as nat),
{
    let ghost o0 = out@;
    push_card_top(out, title);
    let ghost o1 = out@;
    let inner = if w > 4 { w - 4 } else { 0 };
    let ghost iv = items_view(items@);
    let mut k: usize = 0;
    while k < items.len()
        invariant
            k <= items@.len(),
            iv == items_view(items@),
            inner as int == sat_sub(w as int, 4),
            out@ == o1 + concat_all(Seq::new(k as nat, |j: int| card_item(iv[j], inner as nat))),
        decreases items@.len() - k,
    {
        card_item_exec(out, items[k].0.as_str(), items[k].1.as_str(), inner);
        proof {
            lemma_concat_step(|j: int| card_item(iv[j], inner as nat), k as nat);
        }
        k += 1;
    }
    let ghost o2 = out@;
    push_card_bottom(out, w);
    proof {
        let body = concat_all(Seq::new(iv.len(), |j: int| card_item(iv[j], inner as nat)));
        assert(o2 == o1 + body);
        assert(final(out)@ =~= o0 + card_block((title@, iv), w as nat));
    }
}

/// Renders the card view for a terminal `tw` columns wide.
pub fn render_card(cfg: &Config, info: &SysInfo, tw: usize) -> (r: String)
    ensures
        r@ == card_spec(*cfg, *info, tw),
{
    let ac = accent_of(cfg);
    let device = device_name_of(info);
    let sub = if info.rom.unicode_len() > 0 {
        let mut s = to_string(device.as_str());
        push_str(&mut s, "  |  ");
        push_str(&mut s, info.rom.as_str());
        s
    } else {
        to_string(device.as_str())
    };
    let a = if tw < 50 { tw } else { 50 };
    let w = if a < 20 { 20 } else { a };
    let rule = repeat_char('\u{2500}', w - 2);
    let mut out = String::new();
    push_framed(&mut out, ac, '\u{256d}', &rule, '\u{256e}');
    let banner = center_text("    \u{25e2} ATLAS \u{25e3}   ", w);
    push_framed(&mut out, ac, '\u{2502}', &banner, '\u{2502}');
    let subc = center_text(&sub, w);
    push_framed(&mut out, Color::new(200, 200, 200), '\u{2502}', &subc, '\u{2502}');
    push_framed(&mut out, ac, '\u{2570}', &rule, '\u{256f}');
    push_char(&mut out, '\n');
    proof {
        assert(out@ =~= card_head(*cfg, *info, tw));
    }
    let ghost head = out@;
    let cards = build_card_data(info);
    let ghost cv = sections_view(cards@);
    let mut k: usize = 0;
    while k < cards.len()
        invariant
            k <= cards@.len(),
            cv == sections_view(cards@),
            w as nat == card_width(tw),
            out@ == head + concat_all(Seq::new(k as nat, |j: int| card_block(cv[j], w as nat))),
        decreases cards@.len() - k,
    {
        card_block_exec(&mut out, cards[k].0, &cards[k].1, w);
        proof {
            lemma_concat_step(|j: int| card_block(cv[j], w as nat), k as nat);
        }
        k += 1;
    }
    push_char(&mut out, '\n');
    proof {
        assert(out@ =~= card_spec(*cfg, *info, tw));
    }
    out
}

/// ASCII letters in upper case.
pub open spec fn upper_ascii(s: Seq<char>) -> Seq<char> {
    s.map_values(|c: char| if 'a' <= c && c <= 'z' { ((c as u32) - 32) as char } else { c })
}

/// ASCII letters in upper case.
pub fn to_upper_ascii(s: &str) -> (r: String)
    ensures
        r@ == upper_ascii(s@),
{
    let v = crate::text::chars_of(s);
    let mut out = String::new();
    let mut k: usize = 0;
    while k < v.len()
        invariant
            v@ == s@,
            k <= v@.len(),
            out@ == upper_ascii(s@.take(k as int)),
        decreases v@.len() - k,
    {
        let c = v[k];
        let u = if 'a' <= c && c <= 'z' { ((c as u8) - 32) as char } else { c };
        push_char(&mut out, u);
        proof {
            assert(out@ =~= upper_ascii(s@.take(k + 1)));
        }
        k += 1;
    }
    proof {
        assert(s@.take(s@.len() as int) =~= s@);
    }
    out
}

/// Colour of a value in the BIOS view: green when unlocked or active, red
/// when locked, unknown or empty, grey otherwise.
pub open spec fn bios_value_color(v: Seq<char>) -> Color {
    if contains_seq(v, "Unlocked"@) || contains_seq(v, "active"@) {
        Color { r: 80, g: 200, b: 120 }
    } else if contains_seq(v, "Locked"@) || contains_seq(v, "unknown"@) || v.len() == 0 {
        Color { r: 200, g: 100, b: 100 }
    } else {
        Color { r: 200, g: 200, b: 220 }
    }
}

/// One value line of the BIOS view.
pub open spec fn bios_item(item: (Seq<char>, Seq<char>), tw: usize) -> Seq<char> {
    "    > "@ + pad_chars(item.0 + seq![':'], 12) + seq![' '] + fg_escape_seq(bios_value_color(item.1)) + truncate_spec(
        item.1,
        sat_sub(tw as int, 12) as nat,
    ) + reset_seq() + seq!['\n']
}

/// One section of the BIOS view.
pub open spec fn bios_block(sec: (Seq<char>, Seq<(Seq<char>, Seq<char>)>), tw: usize, ac: Color) -> Seq<char> {
    fg_escape_seq(ac) + "  \u{2550}\u{2550}\u{2550} "@ + upper_ascii(sec.0) + " \u{2550}\u{2550}\u{2550}"@ + reset_seq() + seq!['\n']
        + concat_all(Seq::new(sec.1.len(), |k: int| bios_item(sec.1[k], tw))) + seq!['\n']
}

/// The grey rule of the BIOS view.
pub open spec fn bios_rule() -> Seq<char> {
    fg_escape_seq(Color { r: 100, g: 100, b: 120 }) + seq![' ', ' '] + repeat_char_seq('\u{2500}', 22) + reset_seq()
}

/// The BIOS view.
pub open spec fn bios_spec(cfg: Config, info: SysInfo, tw: usize) -> Seq<char> {
    let ac = accent(cfg.logo.colors@);
    let secs = bios_data(info, device_name(info), info.rom@);
    seq!['\n'] + fg_escape_seq(ac) + seq![' ', ' '] + bold_seq() + "ATLASFETCH MOBILE"@ + reset_seq() + seq!['\n'] + bios_rule() + seq!['\n', '\n']
        + concat_all(Seq::new(secs.len(), |k: int| bios_block(secs[k], tw, ac))) + bios_rule() + seq!['\n'] + fg_escape_seq(
        Color { r: 80, g: 80, b: 100 },
    ) + "  AtlasFetch Mobile v2.0 \u{2014} System Diagnostic"@ + reset_seq() + seq!['\n'] + seq!['\n']
}

fn push_bios_rule(out: &mut String)
    ensures
        final(out)@ == old(out)@ + bios_rule(),
{
    let e = Color::new(100, 100, 120).fg_escape();
    push_str(out, &e);
    push_char(out, ' ');
    push_char(out, ' ');
    let r = repeat_char('\u{2500}', 22);
    push_str(out, &r);
    push_reset(out);
    proof {
        assert(final(out)@ =~= old(out)@ + bios_rule());
    }
}

fn bios_value_color_of(value: &str) -> (c: Color)
    ensures
        c == bios_value_color(value@),
{
    proof {
        reveal_strlit("Unlocked");
        reveal_strlit("active");
        reveal_strlit("Locked");
        reveal_strlit("unknown");
    }
    if contains(value, "Unlocked") || contains(value, "active") {
        Color::new(80, 200, 120)
    } else if contains(value, "Locked") || contains(value, "unknown") || value.unicode_len() == 0 {
        Color::new(200, 100, 100)
    } else {
        Color::new(200, 200, 220)
    }
}

fn bios_item_exec(out: &mut String, label: &str, value: &str, tw: usize)
    ensures
        final(out)@ == old(out)@ + bios_item((label@, value@), tw),
{
    let c = bios_value_color_of(value);
    let mut lab = to_string(label);
    push_char(&mut lab, ':');
    let padded = crate::render::pad_to_chars(&lab, 12);
    let avail = if tw > 12 { tw - 12 } else { 0 };
    let dv = truncate(value, avail);
    let e = c.fg_escape();
    let ghost o0 = out@;
    push_str(out, "    > ");
    push_str(out, &padded);
    push_char(out, ' ');
    push_str(out, &e);
    push_str(out, &dv);
    push_reset(out);
    push_char(out, '\n');
    proof {
        assert(lab@ =~= label@ + seq![':']);
        assert(padded@ == pad_chars(label@ + seq![':'], 12));
        assert(dv@ == truncate_spec(value@, sat_sub(tw as int, 12) as nat));
        assert(final(out)@ =~= o0 + ("    > "@ + padded@ + seq![' '] + e@ + dv@ + reset_seq() + seq!['\n']));
    }
}

fn bios_block_exec(out: &mut String, title: &str, items: &Vec<(String, String)>, tw: usize, ac: Color)
    ensures
        final(out)@ == old(out)@ + bios_block((title@, items_view(items@)), tw, ac),
{
    let ghost o0 = out@;
    let e = ac.fg_escape();
    push_str(out, &e);
    push_str(out, "  \u{2550}\u{2550}\u{2550} ");
    let up = to_upper_ascii(title);
    push_str(out, &up);
    push_str(out, " \u{2550}\u{2550}\u{2550}");
    push_reset(out);
    push_char(out, '\n');
    let ghost o1 = out@;
    let ghost iv = items_view(items@);
    let mut k: usize = 0;
    while k < items.len()
        invariant
            k <= items@.len(),
            iv == items_view(items@),
            out@ == o1 + concat_all(Seq::new(k as nat, |j: int| bios_item(iv[j], tw))),
        decreases items@.len() - k,
    {
        bios_item_exec(out, items[k].0.as_str(), items[k].1.as_str(), tw);
        proof {
            lemma_concat_step(|j: int| bios_item(iv[j], tw), k as nat);
        }
        k += 1;
    }
    push_char(out, '\n');
    proof {
        assert(final(out)@ =~= o0 + bios_block((title@, iv), tw, ac));
    }
}

/// Renders the BIOS-style view for a terminal `tw` columns wide.
pub fn render_bios(cfg: &Config, info: &SysInfo, tw: usize) -> (r: String)
    ensures
        r@ == bios_spec(*cfg, *info, tw),
{
    let ac = accent_of(cfg);
    let device = device_name_of(info);
    let mut out = String::new();
    push_char(&mut out, '\n');
    let e = ac.fg_escape();
    push_str(&mut out, &e);
    push_char(&mut out, ' ');
    push_char(&mut out, ' ');
    push_bold(&mut out);
    push_str(&mut out, "ATLASFETCH MOBILE");
    push_reset(&mut out);
    push_char(&mut out, '\n');
    push_bios_rule(&mut out);
    push_char(&mut out, '\n');
    push_char(&mut out, '\n');
    let ghost head = out@;
    let secs = build_bios_data(info, device.as_str(), info.rom.as_str());
    let ghost sv = sections_view(secs@);
    let mut k: usize = 0;
    while k < secs.len()
        invariant
            k <= secs@.len(),
            sv == sections_view(secs@),
            out@ == head + concat_all(Seq::new(k as nat, |j: int| bios_block(sv[j], tw, ac))),
        decreases secs@.len() - k,
    {
        bios_block_exec(&mut out, secs[k].0, &secs[k].1, tw, ac);
        proof {
            lemma_concat_step(|j: int| bios_block(sv[j], tw, ac), k as nat);
        }
        k += 1;
    }
    push_bios_rule(&mut out);
    push_char(&mut out, '\n');
    let g = Color::new(80, 80, 100).fg_escape();
    push_str(&mut out, &g);
    push_str(&mut out, "  AtlasFetch Mobile v2.0 \u{2014} System Diagnostic");
    push_reset(&mut out);
    push_char(&mut out, '\n');
    push_char(&mut out, '\n');
    proof {
        assert(out@ =~= bios_spec(*cfg, *info, tw));
    }
    out
}


/// Usage percentages for the companion view, measured by the caller:
/// battery charge, memory in use, storage in use.
pub struct CompanionLevels {
    pub battery: usize,
    pub memory: usize,
    pub storage: usize,
}

/// Bar width: `tw - 10`, kept within 10..=30.
pub open spec fn companion_bar_width(tw: usize) -> nat {
    let a = sat_sub(tw as int, 10);
    let b = if a < 30 { a } else { 30 };
    (if b < 10 { 10 } else { b }) as nat
}

/// Filled cells for `pct` percent of a bar `w` cells wide.
pub open spec fn bar_fill(pct: nat, w: nat) -> nat {
    let f = pct * w / 100;
    if f < w { f } else { w }
}

/// Colour of the memory bar: red above 80 %, amber above 60 %, blue
/// otherwise.
pub open spec fn memory_color(pct: nat) -> Color {
    if pct > 80 {
        Color { r: 255, g: 100, b: 100 }
    } else if pct > 60 {
        Color { r: 255, g: 200, b: 80 }
    } else {
        Color { r: 100, g: 200, b: 255 }
    }
}

/// `"  " + v` when `v` is not empty.
pub open spec fn spaced(v: Seq<char>) -> Seq<char> {
    if v.len() > 0 { "  "@ + v } else { Seq::empty() }
}

/// A titled bar block of the companion view: title line, the bar with its
/// text, and a blank line.
pub open spec fn bar_block(title: Seq<char>, tc: Color, fill: nat, w: nat, bc: Color, text: Seq<char>) -> Seq<char> {
    fg_escape_seq(tc) + title + reset_seq() + seq!['\n'] + seq![' ', ' '] + progress_bar_spec(fill, (w - fill) as nat, bc) + seq![' ', ' '] + text
        + seq!['\n'] + seq!['\n']
}

/// The summary line of the companion view.
pub open spec fn quick_text(info: SysInfo) -> Seq<char> {
    let q = "Uptime: "@ + info.uptime@;
    let q = if info.cpu_temp@.len() > 0 { q + "    CPU: "@ + info.cpu_temp@ + "\u{b0}C"@ } else { q };
    if info.packages@ != dash() && info.packages@.len() > 0 { q + "    Pkgs: "@ + info.packages@ } else { q }
}

/// The battery block of the companion view.
pub open spec fn companion_battery(info: SysInfo, ac: Color, w: nat, lv: CompanionLevels) -> Seq<char> {
    if info.battery_level@.len() > 0 {
        bar_block("  Battery"@, ac, bar_fill(lv.battery as nat, w), w, ac, dec_seq(lv.battery as nat) + seq!['%'] + spaced(info.battery_temp@)
            + spaced(info.battery_status@))
    } else {
        Seq::empty()
    }
}

/// The memory block of the companion view.
pub open spec fn companion_memory(info: SysInfo, w: nat, lv: CompanionLevels) -> Seq<char> {
    if info.memory@.len() > 0 {
        bar_block("  Memory"@, purple(), bar_fill(lv.memory as nat, w), w, memory_color(lv.memory as nat), info.memory@)
    } else {
        Seq::empty()
    }
}

/// The storage block of the companion view.
pub open spec fn companion_storage(info: SysInfo, w: nat, lv: CompanionLevels) -> Seq<char> {
    if info.storage@.len() > 0 || info.disk@.len() > 0 {
        let c = Color { r: 255, g: 184, b: 131 };
        bar_block("  Storage"@, c, bar_fill(lv.storage as nat, w), w, c, or_else(info.storage@, info.disk@))
    } else {
        Seq::empty()
    }
}

/// The storage bar drawn for a level of `pct` percent over `w` cells:
/// `min(pct * w / 100, w)` filled cells, then the empty ones.
pub open spec fn storage_bar_cells(pct: nat, w: nat) -> Seq<char> {
    let f: nat = if pct * w / 100 < w { pct * w / 100 } else { w };
    fg_escape_seq(Color { r: 255, g: 184, b: 131 }) + repeat_char_seq('\u{2588}', f) + fg_escape_seq(Color { r: 80, g: 80, b: 100 })
        + repeat_char_seq('\u{2591}', (w - f) as nat) + reset_seq()
}

/// The storage bar of the companion view follows the storage level and
/// nothing else: of its `w` cells, `min(storage * w / 100, w)` are filled
/// (and the rest empty), and the battery and memory levels do not change
/// the block.
pub proof fn storage_bar_follows_storage_level(info: SysInfo, w: nat, lv: CompanionLevels, other: CompanionLevels)
    requires
        info.storage@.len() > 0 || info.disk@.len() > 0,
        other.storage == lv.storage,
    ensures
        companion_storage(info, w, lv) == companion_storage(info, w, other),
        exists|k: int| 0 <= k && k + storage_bar_cells(lv.storage as nat, w).len() <= companion_storage(info, w, lv).len()
            && #[trigger] companion_storage(info, w, lv).subrange(k, k + storage_bar_cells(lv.storage as nat, w).len())
            == storage_bar_cells(lv.storage as nat, w),
{
    let c = Color { r: 255, g: 184, b: 131 };
    let bar = storage_bar_cells(lv.storage as nat, w);
    let f = bar_fill(lv.storage as nat, w);
    let head = fg_escape_seq(c) + "  Storage"@ + reset_seq() + seq!['\n'] + seq![' ', ' '];
    let tail = seq![' ', ' '] + or_else(info.storage@, info.disk@) + seq!['\n'] + seq!['\n'];
    let blk = companion_storage(info, w, lv);
    assert(progress_bar_spec(f, (w - f) as nat, c) =~= bar);
    assert(blk =~= head + bar + tail);
    let k = head.len() as int;
    assert(blk.subrange(k, k + bar.len()) =~= bar);
}

/// The summary line of the companion view (when it has more than two
/// bytes, which it always has).
pub open spec fn companion_quick(info: SysInfo) -> Seq<char> {
    let q = quick_text(info);
    if crate::theme::byte_len(q) > 2 { seq![' ', ' '] + q + seq!['\n'] } else { Seq::empty() }
}

/// The name block of the companion view.
pub open spec fn companion_head(ac: Color, device: Seq<char>, tw: nat) -> Seq<char> {
    seq!['\n'] + bold_seq() + fg_escape_seq(ac) + seq![' ', ' '] + center_text_spec("ATLAS"@, tw) + reset_seq() + seq!['\n', '\n']
        + center_text_spec("\u{1f4f1}"@, tw) + seq!['\n', '\n'] + bold_seq() + center_text_spec(device, tw) + reset_seq()
        + seq!['\n', '\n']
}

/// The device-companion view: the name block, then battery, memory and
/// storage bars where known, then a summary line.
pub open spec fn companion_spec(cfg: Config, info: SysInfo, tw: usize, lv: CompanionLevels) -> Seq<char> {
    let ac = accent(cfg.logo.colors@);
    let w = companion_bar_width(tw);
    companion_head(ac, device_name(info), tw as nat) + companion_battery(info, ac, w, lv) + companion_memory(info, w, lv) + companion_storage(
        info,
        w,
        lv,
    ) + companion_quick(info) + seq!['\n']
}

fn bar_fill_of(pct: usize, w: usize) -> (r: usize)
    requires
        w <= 30,
    ensures
        r as nat == bar_fill(pct as nat, w as nat),
        r <= w,
{
    proof {
        assert((pct as u128) * (w as u128) <= 0xffff_ffff_ffff_ffffu128 * 30) by (nonlinear_arith)
            requires
                pct <= 0xffff_ffff_ffff_ffffu128,
                w <= 30,
        ;
    }
    let f = ((pct as u128) * (w as u128)) / 100;
    if f < (w as u128) { f as usize } else { w }
}

fn push_bar_block(out: &mut String, title: &str, tc: Color, fill: usize, w: usize, bc: Color, text: &str)
    requires
        fill <= w,
    ensures
        final(out)@ == old(out)@ + bar_block(title@, tc, fill as nat, w as nat, bc, text@),
{
    let e = tc.fg_escape();
    push_str(out, &e);
    push_str(out, title);
    push_reset(out);
    push_char(out, '\n');
    push_char(out, ' ');
    push_char(out, ' ');
    push_progress_bar(out, fill, w - fill, bc);
    push_char(out, ' ');
    push_char(out, ' ');
    push_str(out, text);
    push_char(out, '\n');
    push_char(out, '\n');
    proof {
        assert(final(out)@ =~= old(out)@ + bar_block(title@, tc, fill as nat, w as nat, bc, text@));
    }
}

fn push_spaced(s: &mut String, v: &str)
    ensures
        final(s)@ == old(s)@ + spaced(v@),
{
    if v.unicode_len() > 0 {
        push_str(s, "  ");
        push_str(s, v);
    }
    proof {
        assert(final(s)@ =~= old(s)@ + spaced(v@));
    }
}

fn quick_text_of(info: &SysInfo) -> (r: String)
    ensures
        r@ == quick_text(*info),
{
    proof {
        reveal_strlit("\u{2014}");
    }
    let mut q = concat2("Uptime: ", info.uptime.as_str());
    if info.cpu_temp.unicode_len() > 0 {
        push_str(&mut q, "    CPU: ");
        push_str(&mut q, info.cpu_temp.as_str());
        push_str(&mut q, "\u{b0}C");
    }
    if !str_eq(info.packages.as_str(), "\u{2014}") && info.packages.unicode_len() > 0 {
        push_str(&mut q, "    Pkgs: ");
        push_str(&mut q, info.packages.as_str());
    }
    q
}

fn push_companion_head(out: &mut String, ac: Color, device: &str, tw: usize)
    ensures
        final(out)@ == old(out)@ + companion_head(ac, device@, tw as nat),
{
    push_char(out, '\n');
    push_bold(out);
    let e = ac.fg_escape();
    push_str(out, &e);
    push_char(out, ' ');
    push_char(out, ' ');
    let a = center_text("ATLAS", tw);
    push_str(out, &a);
    push_reset(out);
    push_char(out, '\n');
    push_char(out, '\n');
    let p = center_text("\u{1f4f1}", tw);
    push_str(out, &p);
    push_char(out, '\n');
    push_char(out, '\n');
    push_bold(out);
    let d = center_text(device, tw);
    push_str(out, &d);
    push_reset(out);
    push_char(out, '\n');
    push_char(out, '\n');
    proof {
        assert(final(out)@ =~= old(out)@ + companion_head(ac, device@, tw as nat));
    }
}

fn push_companion_battery(out: &mut String, info: &SysInfo, ac: Color, w: usize, levels: &CompanionLevels)
    requires
        10 <= w <= 30,
    ensures
        final(out)@ == old(out)@ + companion_battery(*info, ac, w as nat, *levels),
{
    if info.battery_level.unicode_len() > 0 {
        let f = bar_fill_of(levels.battery, w);
        let mut text = String::new();
        push_decimal(&mut text, levels.battery as u64);
        push_char(&mut text, '%');
        push_spaced(&mut text, info.battery_temp.as_str());
        push_spaced(&mut text, info.battery_status.as_str());
        proof {
            assert(text@ =~= dec_seq(levels.battery as nat) + seq!['%'] + spaced(info.battery_temp@) + spaced(info.battery_status@));
        }
        push_bar_block(out, "  Battery", ac, f, w, ac, &text);
    } else {
        proof {
            assert(final(out)@ =~= old(out)@ + Seq::<char>::empty());
        }
    }
}

fn push_companion_memory(out: &mut String, info: &SysInfo, w: usize, levels: &CompanionLevels)
    requires
        10 <= w <= 30,
    ensures
        final(out)@ == old(out)@ + companion_memory(*info, w as nat, *levels),
{
    if info.memory.unicode_len() > 0 {
        let f = bar_fill_of(levels.memory, w);
        let c = if levels.memory > 80 {
            Color::new(255, 100, 100)
        } else if levels.memory > 60 {
            Color::new(255, 200, 80)
        } else {
            Color::new(100, 200, 255)
        };
        push_bar_block(out, "  Memory", Color::new(157, 133, 255), f, w, c, info.memory.as_str());
    } else {
        proof {
            assert(final(out)@ =~= old(out)@ + Seq::<char>::empty());
        }
    }
}

fn push_companion_storage(out: &mut String, info: &SysInfo, w: usize, levels: &CompanionLevels)
    requires
        10 <= w <= 30,
    ensures
        final(out)@ == old(out)@ + companion_storage(*info, w as nat, *levels),
{
    if info.storage.unicode_len() > 0 || info.disk.unicode_len() > 0 {
        let f = bar_fill_of(levels.storage, w);
        let stor = or_else_of(info.storage.as_str(), info.disk.as_str());
        push_bar_block(out, "  Storage", Color::new(255, 184, 131), f, w, Color::new(255, 184, 131), &stor);
    } else {
        proof {
            assert(final(out)@ =~= old(out)@ + Seq::<char>::empty());
        }
    }
}

fn push_companion_quick(out: &mut String, info: &SysInfo)
    ensures
        final(out)@ == old(out)@ + companion_quick(*info),
{
    let q = quick_text_of(info);
    if crate::component::system::text_bytes_capped(&q, 3) > 2 {
        push_char(out, ' ');
        push_char(out, ' ');
        push_str(out, &q);
        push_char(out, '\n');
    }
    proof {
        assert(final(out)@ =~= old(out)@ + companion_quick(*info));
    }
}

/// Renders the device-companion view for a terminal `tw` columns wide,
/// with the usage percentages `levels`.
pub fn render_companion(cfg: &Config, info: &SysInfo, tw: usize, levels: &CompanionLevels) -> (r: String)
    ensures
        r@ == companion_spec(*cfg, *info, tw, *levels),
{
    let ac = accent_of(cfg);
    let device = device_name_of(info);
    let a = if tw > 10 { tw - 10 } else { 0 };
    let b = if a < 30 { a } else { 30 };
    let w = if b < 10 { 10 } else { b };
    let mut out = String::new();
    push_companion_head(&mut out, ac, device.as_str(), tw);
    push_companion_battery(&mut out, info, ac, w, levels);
    push_companion_memory(&mut out, info, w, levels);
    push_companion_storage(&mut out, info, w, levels);
    push_companion_quick(&mut out, info);
    push_char(&mut out, '\n');
    proof {
        assert(w as nat == companion_bar_width(tw));
        assert(out@ =~= companion_spec(*cfg, *info, tw, *levels));
    }
    out
}

/// The small logo, chosen by width.
pub open spec fn small_logo(tw: usize) -> Seq<Seq<char>> {
    if tw >= 40 {
        seq!["  \u{2588}\u{2588}\u{2588}\u{2588}  "@, " \u{2588} AT \u{2588} "@, " \u{2588}  \u{2588} \u{2588} "@, "  \u{2588}\u{2588}\u{2588}\u{2588}  "@]
    } else {
        seq![" \u{2588}\u{2588} "@, "\u{2588}AT\u{2588}"@, " \u{2588}\u{2588} "@]
    }
}

/// Row `i` of the side-by-side responsive view.
pub open spec fn resp_side_row(logo: Seq<Seq<char>>, lw: nat, text: Seq<Seq<char>>, ac: Color, tw: nat, i: int) -> Seq<char> {
    let row = (if i < logo.len() { colorize_seq(logo[i], ac) } else { spaces_seq(lw) }) + seq![' ', ' '] + (if i < text.len() {
        fg_escape_seq(Color { r: 200, g: 200, b: 220 }) + text[i]
    } else {
        Seq::empty()
    });
    pad_row(row, tw) + reset_seq() + seq!['\n']
}

/// An art row of the stacked responsive view.
pub open spec fn resp_logo_row(line: Seq<char>, ac: Color, tw: nat) -> Seq<char> {
    spaces_seq((sat_sub(tw as int, str_width_of(line) as int) / 2) as nat) + colorize_seq(line, ac) + reset_seq() + seq!['\n']
}

/// A text row of the stacked responsive view.
pub open spec fn resp_text_row(line: Seq<char>, tw: nat) -> Seq<char> {
    fg_escape_seq(Color { r: 200, g: 200, b: 220 }) + center_text_spec(line, tw) + reset_seq() + seq!['\n']
}

/// The responsive-logo view: the small logo beside the text on terminals
/// at least 55 columns wide, above it otherwise.
pub open spec fn responsive_spec(cfg: Config, info: SysInfo, tw: usize) -> Seq<char> {
    let ac = accent(cfg.logo.colors@);
    let logo = small_logo(tw);
    let lw = max_width_seq(logo);
    let text = ascii_info(info, device_name(info));
    let body = if tw >= 55 {
        let n = if logo.len() < text.len() { text.len() } else { logo.len() };
        concat_all(Seq::new(n, |i: int| resp_side_row(logo, lw, text, ac, tw as nat, i)))
    } else {
        concat_all(Seq::new(logo.len(), |i: int| resp_logo_row(logo[i], ac, tw as nat))) + seq!['\n'] + concat_all(
            Seq::new(text.len(), |i: int| resp_text_row(text[i], tw as nat)),
        )
    };
    body + seq!['\n']
}

fn small_logo_of(tw: usize) -> (r: Vec<String>)
    ensures
        views(r@) == small_logo(tw),
{
    let mut v: Vec<String> = Vec::new();
    if tw >= 40 {
        push_line(&mut v, to_string("  \u{2588}\u{2588}\u{2588}\u{2588}  "));
        push_line(&mut v, to_string(" \u{2588} AT \u{2588} "));
        push_line(&mut v, to_string(" \u{2588}  \u{2588} \u{2588} "));
        push_line(&mut v, to_string("  \u{2588}\u{2588}\u{2588}\u{2588}  "));
    } else {
        push_line(&mut v, to_string(" \u{2588}\u{2588} "));
        push_line(&mut v, to_string("\u{2588}AT\u{2588}"));
        push_line(&mut v, to_string(" \u{2588}\u{2588} "));
    }
    proof {
        assert(views(v@) =~= small_logo(tw));
    }
    v
}

fn resp_side_row_exec(logo: &Vec<String>, lw: usize, text: &Vec<String>, ac: Color, tw: usize, i: usize) -> (r: String)
    ensures
        r@ == resp_side_row(views(logo@), lw as nat, views(text@), ac, tw as nat, i as int),
{
    let mut row = String::new();
    if i < logo.len() {
        push_colorized(&mut row, logo[i].as_str(), ac);
        proof {
            assert(views(logo@)[i as int] == logo@[i as int]@);
        }
    } else {
        let s = spaces(lw);
        push_str(&mut row, &s);
    }
    let ghost r0 = row@;
    proof {
        assert(r0 =~= (if (i as int) < views(logo@).len() { colorize_seq(views(logo@)[i as int], ac) } else { spaces_seq(lw as nat) }));
    }
    push_char(&mut row, ' ');
    push_char(&mut row, ' ');
    let ghost r1 = row@;
    proof {
        assert(r1 =~= r0 + seq![' ', ' ']);
    }
    if i < text.len() {
        let e = Color::new(200, 200, 220).fg_escape();
        push_str(&mut row, &e);
        push_str(&mut row, text[i].as_str());
        proof {
            assert(views(text@)[i as int] == text@[i as int]@);
            assert(row@ =~= r1 + (fg_escape_seq(Color { r: 200, g: 200, b: 220 }) + views(text@)[i as int]));
        }
    } else {
        proof {
            assert(row@ =~= r1 + Seq::<char>::empty());
        }
    }
    let ghost r2 = row@;
    proof {
        assert(r2 =~= r0 + seq![' ', ' '] + (if (i as int) < views(text@).len() {
            fg_escape_seq(Color { r: 200, g: 200, b: 220 }) + views(text@)[i as int]
        } else {
            Seq::<char>::empty()
        }));
    }
    let padded = crate::render::pad_row_exec(row, tw);
    let mut out = padded;
    push_reset(&mut out);
    push_char(&mut out, '\n');
    proof {
        assert(out@ =~= resp_side_row(views(logo@), lw as nat, views(text@), ac, tw as nat, i as int));
    }
    out
}

/// Renders the responsive-logo view for a terminal `tw` columns wide.
pub fn render_responsive_ascii(cfg: &Config, info: &SysInfo, tw: usize) -> (r: String)
    ensures
        r@ == responsive_spec(*cfg, *info, tw),
{
    let ac = accent_of(cfg);
    let device = device_name_of(info);
    let logo = small_logo_of(tw);
    let lw = max_line_width(&logo);
    let text = build_ascii_info(info, device.as_str());
    let ghost lv = views(logo@);
    let ghost tv = views(text@);
    let mut out = String::new();
    if tw >= 55 {
        let n = if logo.len() < text.len() { text.len() } else { logo.len() };
        let mut i: usize = 0;
        while i < n
            invariant
                i <= n,
                n == (if lv.len() < tv.len() { tv.len() } else { lv.len() }),
                lv == views(logo@),
                tv == views(text@),
                lw == max_width_seq(lv),
                out@ == concat_all(Seq::new(i as nat, |j: int| resp_side_row(lv, lw as nat, tv, ac, tw as nat, j))),
            decreases n - i,
        {
            let row = resp_side_row_exec(&logo, lw, &text, ac, tw, i);
            push_str(&mut out, &row);
            proof {
                lemma_concat_step(|j: int| resp_side_row(lv, lw as nat, tv, ac, tw as nat, j), i as nat);
                assert(out@ =~= concat_all(Seq::new((i + 1) as nat, |j: int| resp_side_row(lv, lw as nat, tv, ac, tw as nat, j))));
            }
            i += 1;
        }
    } else {
        let mut i: usize = 0;
        while i < logo.len()
            invariant
                i <= logo@.len(),
                lv == views(logo@),
                out@ == concat_all(Seq::new(i as nat, |j: int| resp_logo_row(lv[j], ac, tw as nat))),
            decreases logo@.len() - i,
        {
            let w = str_width(logo[i].as_str());
            let center = (if tw > w { tw - w } else { 0 }) / 2;
            let s = spaces(center);
            let ghost o0 = out@;
            push_str(&mut out, &s);
            push_colorized(&mut out, logo[i].as_str(), ac);
            push_reset(&mut out);
            push_char(&mut out, '\n');
            proof {
                assert(lv[i as int] == logo@[i as int]@);
                lemma_concat_step(|j: int| resp_logo_row(lv[j], ac, tw as nat), i as nat);
                assert(out@ =~= o0 + resp_logo_row(lv[i as int], ac, tw as nat));
            }
            i += 1;
        }
        push_char(&mut out, '\n');
        let ghost mid = out@;
        let mut k: usize = 0;
        while k < text.len()
            invariant
                k <= text@.len(),
                tv == views(text@),
                out@ == mid + concat_all(Seq::new(k as nat, |j: int| resp_text_row(tv[j], tw as nat))),
            decreases text@.len() - k,
        {
            let e = Color::new(200, 200, 220).fg_escape();
            let c = center_text(text[k].as_str(), tw);
            let ghost o0 = out@;
            push_str(&mut out, &e);
            push_str(&mut out, &c);
            push_reset(&mut out);
            push_char(&mut out, '\n');
            proof {
                assert(tv[k as int] == text@[k as int]@);
                lemma_concat_step(|j: int| resp_text_row(tv[j], tw as nat), k as nat);
                assert(out@ =~= o0 + resp_text_row(tv[k as int], tw as nat));
            }
            k += 1;
        }
    }
    push_char(&mut out, '\n');
    proof {
        assert(out@ =~= responsive_spec(*cfg, *info, tw));
    }
    out
}

/// What `render` draws in `mode`.
pub open spec fn mobile_render_spec(mode: MobileMode, cfg: Config, info: SysInfo, tw: usize, lv: CompanionLevels) -> Seq<char> {
    match mode {
        MobileMode::Card => card_spec(cfg, info, tw),
        MobileMode::Bios => bios_spec(cfg, info, tw),
        MobileMode::Companion => companion_spec(cfg, info, tw, lv),
        MobileMode::Ascii => responsive_spec(cfg, info, tw),
    }
}

/// Renders the phone view `mode` for a terminal `term_width` columns wide.
/// The companion view draws its bars from `levels`.
pub fn render(mode: &MobileMode, cfg: &Config, info: &SysInfo, ascii_art: &str, term_width: usize, levels: &CompanionLevels) -> (r: String)
    ensures
        r@ == mobile_render_spec(*mode, *cfg, *info, term_width, *levels),
{
    match mode {
        MobileMode::Card => render_card(cfg, info, term_width),
        MobileMode::Bios => render_bios(cfg, info, term_width),
        MobileMode::Companion => render_companion(cfg, info, term_width, levels),
        MobileMode::Ascii => render_responsive_ascii(cfg, info, term_width),
    }
}

} // verus!

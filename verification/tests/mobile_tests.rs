use atlasfetch::config::{Config, DisplayConfig, LogoConfig, PanelConfig, SeparatorConfig, TitleConfig};
use atlasfetch::info::SysInfo;
use atlasfetch::mobile::{
    build_ascii_info, build_bios_data, build_card_data, center_text, pad_right, render, render_bios, render_card,
    render_companion, render_responsive_ascii, to_upper_ascii, truncate, CompanionLevels, MobileMode,
};
use atlasfetch::theme::Color;

const RESET: &str = "\x1b[0m";

fn fg(r: u8, g: u8, b: u8) -> String {
    format!("\x1b[38;2;{};{};{}m", r, g, b)
}

fn config(colors: Vec<Color>) -> Config {
    Config {
        logo: LogoConfig { key: String::new(), path: String::new(), colors, color_dir: String::new() },
        title: TitleConfig { format: "{user}@{host}".to_string(), color: "#FF9A98".to_string() },
        separator: SeparatorConfig { char: "-".to_string(), length: 5, color: "#9D85FF".to_string() },
        panel: PanelConfig {
            left_pad: 1,
            right_pad: 1,
            gap: 1,
            max_shift: 0,
            max_val_width: 30,
            sep_color: "#9D85FF".to_string(),
            val_color: "#F5DCE3".to_string(),
        },
        display: DisplayConfig { left: vec![], right: vec![] },
    }
}

fn phone() -> SysInfo {
    let mut i = SysInfo::empty();
    i.host = "h".to_string();
    i
}

fn no_levels() -> CompanionLevels {
    CompanionLevels { battery: 0, memory: 0, storage: 0 }
}

#[test]
fn mobile_mode_names_and_aliases() {
    assert_eq!(MobileMode::from_str("c"), Some(MobileMode::Card));
    assert_eq!(MobileMode::from_str("card"), Some(MobileMode::Card));
    assert_eq!(MobileMode::from_str("b"), Some(MobileMode::Bios));
    assert_eq!(MobileMode::from_str("comp"), Some(MobileMode::Companion));
    assert_eq!(MobileMode::from_str("a"), Some(MobileMode::Ascii));
    assert_eq!(MobileMode::from_str("x"), None);
    assert_eq!(MobileMode::variants(), &["card", "bios", "companion", "ascii"]);
    assert_eq!(MobileMode::Card.name(), "Card System");
    assert_eq!(MobileMode::Bios.name(), "BIOS / Cyber");
    assert_eq!(MobileMode::Companion.name(), "Device Companion");
    assert_eq!(MobileMode::Ascii.name(), "Responsive ASCII");
}

#[test]
fn text_helpers() {
    assert_eq!(center_text("ab", 6), "  ab");
    assert_eq!(center_text("abcdef", 3), "abcdef");
    assert_eq!(pad_right("ab", 4), "ab  ");
    assert_eq!(pad_right("abcd", 2), "abcd");
    assert_eq!(truncate("abcdef", 4), "abc\u{2026}");
    assert_eq!(truncate("abc", 4), "abc");
    assert_eq!(to_upper_ascii("Device"), "DEVICE");
}

#[test]
fn card_data_sections() {
    let cards = build_card_data(&phone());
    let titles: Vec<&str> = cards.iter().map(|c| c.0).collect();
    assert_eq!(titles, vec!["System", "Hardware", "Battery"]);
    assert_eq!(cards[0].1, vec![("Android".to_string(), "\u{2014}".to_string()), ("Kernel".to_string(), "\u{2014}".to_string())]);
    let mut i = phone();
    i.wifi_ssid = "net".to_string();
    i.packages = "\u{2014}".to_string();
    let cards = build_card_data(&i);
    assert_eq!(cards.len(), 4);
    assert_eq!(cards[3].0, "Network");
    assert_eq!(cards[3].1, vec![("WiFi".to_string(), "net".to_string())]);
}

#[test]
fn bios_data_defaults() {
    let i = phone();
    let s = build_bios_data(&i, "h", "");
    assert_eq!(s[0].0, "Device");
    assert_eq!(s[0].1, vec![("Model".to_string(), "h".to_string())]);
    assert_eq!(s[2].0, "Security");
    assert_eq!(
        s[2].1,
        vec![
            ("Root".to_string(), "None".to_string()),
            ("Bootloader".to_string(), "Unknown".to_string()),
            ("SELinux".to_string(), "Unknown".to_string()),
        ]
    );
}

#[test]
fn ascii_info_lines() {
    let mut i = phone();
    i.os = "Android 14".to_string();
    i.battery_level = "80%".to_string();
    i.battery_temp = "30C".to_string();
    assert_eq!(build_ascii_info(&i, "Pixel"), vec!["Pixel  Android 14".to_string(), "Battery: 80% | 30C".to_string()]);
}

#[test]
fn card_view_header_and_first_card() {
    let cfg = config(vec![Color::new(1, 2, 3)]);
    let out = render_card(&cfg, &phone(), 20);
    let ac = fg(1, 2, 3);
    let purple = fg(157, 133, 255);
    let dash = "\u{2500}".repeat(18);
    let expected_start = format!(
        "{ac}\u{256d}{dash}\u{256e}{RESET}\n{ac}\u{2502}  {header}\u{2502}{RESET}\n{grey}\u{2502}{sub}\u{2502}{RESET}\n{ac}\u{2570}{dash}\u{256f}{RESET}\n\n{purple}\u{256d}\u{2500} System \u{2500}\u{256e}{RESET}\n{purple}\u{2502} {val}{row}\u{2502}{RESET}\n",
        header = "    \u{25e2} ATLAS \u{25e3}   ",
        grey = fg(200, 200, 200),
        sub = format!("{}h", " ".repeat(9)),
        val = fg(180, 180, 200),
        row = " Android: \u{2014}     ",
    );
    assert!(out.starts_with(&expected_start), "{:?}", out);
    assert!(out.ends_with("\n\n"));
}

#[test]
fn bios_view_header_and_device_section() {
    let cfg = config(vec![Color::new(1, 2, 3)]);
    let out = render_bios(&cfg, &phone(), 40);
    let ac = fg(1, 2, 3);
    let expected_start = format!(
        "\n{ac}  \x1b[1mATLASFETCH MOBILE{RESET}\n{grey}  {rule}{RESET}\n\n{ac}  \u{2550}\u{2550}\u{2550} DEVICE \u{2550}\u{2550}\u{2550}{RESET}\n    > Model:       {val}h{RESET}\n\n",
        grey = fg(100, 100, 120),
        rule = "\u{2500}".repeat(22),
        val = fg(200, 200, 220),
    );
    assert!(out.starts_with(&expected_start), "{:?}", out);
    let footer = format!("{}  AtlasFetch Mobile v2.0 \u{2014} System Diagnostic{}\n\n", fg(80, 80, 100), RESET);
    assert!(out.ends_with(&footer));
}

#[test]
fn bios_values_coloured_by_state() {
    let cfg = config(vec![Color::new(1, 2, 3)]);
    let mut i = phone();
    i.bootloader = "Unlocked".to_string();
    let out = render_bios(&cfg, &i, 40);
    assert!(out.contains(&format!("    > Bootloader:  {}Unlocked{}\n", fg(80, 200, 120), RESET)));
    assert!(out.contains(&format!("    > Root:        {}None{}\n", fg(200, 200, 220), RESET)));
    assert!(out.contains(&format!("    > SELinux:     {}Unknown{}\n", fg(200, 200, 220), RESET)));
}

#[test]
fn companion_battery_bar() {
    let cfg = config(vec![Color::new(1, 2, 3)]);
    let mut i = phone();
    i.battery_level = "50%".to_string();
    let levels = CompanionLevels { battery: 50, memory: 0, storage: 0 };
    let out = render_companion(&cfg, &i, 30, &levels);
    let ac = fg(1, 2, 3);
    let bar = format!("{}{}{}{}{}", ac, "\u{2588}".repeat(10), fg(80, 80, 100), "\u{2591}".repeat(10), RESET);
    let expected = format!(
        "\n\x1b[1m{ac}  {a}ATLAS{RESET}\n\n{p}\u{1f4f1}\n\n\x1b[1m{h}h{RESET}\n\n{ac}  Battery{RESET}\n  {bar}  50%\n\n  Uptime: \n\n",
        a = " ".repeat(12),
        p = " ".repeat(14),
        h = " ".repeat(14),
    );
    assert_eq!(out, expected);
}

#[test]
fn companion_memory_bar_colour() {
    let cfg = config(vec![Color::new(1, 2, 3)]);
    let mut i = phone();
    i.memory = "7.0/8.0G".to_string();
    let levels = CompanionLevels { battery: 0, memory: 88, storage: 0 };
    let out = render_companion(&cfg, &i, 20, &levels);
    let bar = format!("{}{}{}{}{}", fg(255, 100, 100), "\u{2588}".repeat(8), fg(80, 80, 100), "\u{2591}".repeat(2), RESET);
    assert!(out.contains(&format!("{}  Memory{}\n  {}  7.0/8.0G\n\n", fg(157, 133, 255), RESET, bar)), "{:?}", out);
}

#[test]
fn responsive_ascii_narrow_is_centred() {
    let cfg = config(vec![Color::new(1, 2, 3)]);
    let out = render_responsive_ascii(&cfg, &phone(), 30);
    let ac = fg(1, 2, 3);
    let first = format!("{} {}\u{2588}{}\u{2588} {}\n", " ".repeat(13), ac, ac, RESET);
    assert!(out.starts_with(&first), "{:?}", out);
    assert!(out.ends_with("\n\n"));
}

#[test]
fn render_dispatches_on_mode() {
    let cfg = config(vec![Color::new(1, 2, 3)]);
    let i = phone();
    assert_eq!(render(&MobileMode::Card, &cfg, &i, "", 40, &no_levels()), render_card(&cfg, &i, 40));
    assert_eq!(render(&MobileMode::Bios, &cfg, &i, "", 40, &no_levels()), render_bios(&cfg, &i, 40));
    assert_eq!(render(&MobileMode::Ascii, &cfg, &i, "", 40, &no_levels()), render_responsive_ascii(&cfg, &i, 40));
    assert_eq!(
        render(&MobileMode::Companion, &cfg, &i, "", 40, &no_levels()),
        render_companion(&cfg, &i, 40, &no_levels())
    );
}

#[test]
fn accent_falls_back_without_palette() {
    let cfg = config(vec![]);
    let out = render_bios(&cfg, &phone(), 40);
    assert!(out.starts_with(&format!("\n{}  ", fg(255, 102, 146))));
}

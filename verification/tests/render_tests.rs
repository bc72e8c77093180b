use atlasfetch::config::{Config, DisplayConfig, FieldDef, LogoConfig, PanelConfig, SeparatorConfig, TitleConfig};
use atlasfetch::info::SysInfo;
use atlasfetch::render::{
    compact_for_mobile, dedent, panel_rows, render, render_ascii_only, render_mobile, render_mobile_preview, strip_ansi,
    styled_lines_to_ansi, trim_to_width, visible_width, StyledLine, StyledSegment,
};
use atlasfetch::theme::Color;

const RESET: &str = "\x1b[0m";

fn fg(r: u8, g: u8, b: u8) -> String {
    format!("\x1b[38;2;{};{};{}m", r, g, b)
}

fn field(key: &str, icon: &str, label: &str) -> FieldDef {
    FieldDef { field: key.to_string(), icon: icon.to_string(), label: label.to_string(), enabled: true }
}

fn config(left: Vec<FieldDef>, right: Vec<FieldDef>) -> Config {
    Config {
        logo: LogoConfig { key: String::new(), path: String::new(), colors: vec![Color::new(10, 20, 30)], color_dir: String::new() },
        title: TitleConfig { format: "{user}@{host}".to_string(), color: "#FF9A98".to_string() },
        separator: SeparatorConfig { char: "\u{2500}".to_string(), length: 5, color: "#9D85FF".to_string() },
        panel: PanelConfig {
            left_pad: 1,
            right_pad: 1,
            gap: 1,
            max_shift: 0,
            max_val_width: 30,
            sep_color: "#9D85FF".to_string(),
            val_color: "#F5DCE3".to_string(),
        },
        display: DisplayConfig { left, right },
    }
}

fn info() -> SysInfo {
    let mut i = SysInfo::empty();
    i.user = "u".to_string();
    i.host = "h".to_string();
    i.os = "Linux".to_string();
    i
}

fn head(tw: usize) -> String {
    let sep_len = 5.min(tw - 4);
    format!(
        "\n{}  \x1b[1mu@h{}{}\n{}  {}{}{}\n",
        fg(255, 154, 152),
        RESET,
        RESET,
        fg(157, 133, 255),
        "\u{2500}".repeat(sep_len),
        RESET,
        RESET
    )
}

#[test]
fn strip_ansi_removes_escape_sequences() {
    assert_eq!(strip_ansi("\x1b[31mred\x1b[0m plain"), "red plain");
    assert_eq!(strip_ansi("no escapes"), "no escapes");
    assert_eq!(strip_ansi("open \x1b[38;2;1"), "open ");
}

#[test]
fn strip_ansi_twice_is_strip_ansi_once() {
    for s in ["\x1b[1mbold\x1b[0m", "a\x1b[mb", "plain", "\x1b\x1b[0mx"] {
        let once = strip_ansi(s);
        assert_eq!(strip_ansi(&once), once);
    }
}

#[test]
fn visible_width_ignores_escapes() {
    assert_eq!(visible_width("\x1b[38;2;1;2;3mabc\x1b[0m"), 3);
    assert_eq!(visible_width("\u{6f22}\u{5b57}"), 4);
}

#[test]
fn trim_to_width_keeps_escapes() {
    assert_eq!(trim_to_width("\x1b[1mabcdef\x1b[0m", 3), "\x1b[1mabc\x1b[0m");
    assert_eq!(trim_to_width("a\x1b[1mb\x1b[0mc", 5), "a\x1b[1mb\x1b[0mc");
    assert_eq!(trim_to_width("abc", 5), "abc");
    assert_eq!(trim_to_width("ab\x1b[3", 1), "a\x1b[3");
    assert_eq!(trim_to_width("ab\x1b[0m", 1), "a\x1b[0m");
    assert_eq!(trim_to_width("a\x1b[3", 5), "a\x1b[3");
}

#[test]
fn styled_lines_as_ansi() {
    let lines = vec![
        StyledLine {
            segments: vec![
                StyledSegment { text: "ab".to_string(), fg: Some(Color::new(1, 2, 3)), bg: None, bold: true },
                StyledSegment { text: "c".to_string(), fg: None, bg: Some(Color::new(4, 5, 6)), bold: false },
            ],
        },
        StyledLine { segments: vec![] },
    ];
    assert_eq!(
        styled_lines_to_ansi(&lines),
        format!("\x1b[1m{}ab{}\x1b[48;2;4;5;6mc{}\n\n", fg(1, 2, 3), RESET, RESET)
    );
}

#[test]
fn dedent_removes_common_indent() {
    let lines: Vec<String> = vec!["  a".into(), "    b".into(), "   ".into(), "".into()];
    assert_eq!(dedent(&lines), vec!["a".to_string(), "  b".to_string(), " ".to_string(), "".to_string()]);
    let blank: Vec<String> = vec!["   ".into(), "".into()];
    assert_eq!(dedent(&blank), blank);
}

#[test]
fn compact_art_for_phones() {
    assert_eq!(compact_for_mobile("  x\n   y\n"), vec!["x".to_string(), " y".to_string()]);
}

#[test]
fn art_only_is_centred_and_coloured() {
    let mut cfg = config(vec![], vec![]);
    cfg.logo.colors = vec![Color::new(255, 0, 0)];
    let out = render_ascii_only(&cfg, " A\n  B", 10);
    let red = fg(255, 0, 0);
    assert_eq!(out, format!("    {}A {}\n     {}B{}\n", red, RESET, red, RESET));
}

#[test]
fn art_only_vertical_colours_by_column() {
    let mut cfg = config(vec![], vec![]);
    cfg.logo.colors = vec![Color::new(1, 1, 1), Color::new(2, 2, 2)];
    cfg.logo.color_dir = "vertical".to_string();
    let out = render_ascii_only(&cfg, "AB", 2);
    assert_eq!(out, format!("{}A{}B{}\n", fg(1, 1, 1), fg(2, 2, 2), RESET));
}

#[test]
fn art_only_of_nothing_is_empty() {
    let cfg = config(vec![], vec![]);
    assert_eq!(render_ascii_only(&cfg, "", 80), "");
}

#[test]
fn panel_row_count_is_longer_enabled_list() {
    let mut off = field("os", "I", "OS");
    off.enabled = false;
    let cfg = config(vec![field("os", "I", "OS"), off], vec![field("host", "H", "Host")]);
    assert_eq!(panel_rows(&cfg), 1);
}

#[test]
fn desktop_render_without_art() {
    let cfg = config(vec![field("os", "I", "OS")], vec![field("host", "H", "Host")]);
    let out = render(&cfg, &info(), "", 60, &vec![0]);
    let c = fg(10, 20, 30);
    let arrow = fg(157, 133, 255);
    let val = fg(245, 220, 227);
    let left = format!("{} I OS  {}\u{e0b0}{}", c, arrow, RESET);
    let right = format!("{} H Host {}\u{e0b0}{}h{}", c, arrow, val, RESET);
    let row = format!(" {} {}{}{}", left, " ".repeat(39), right, " ");
    let expected = format!("{}{}{}\n\n", head(60), row, RESET);
    assert_eq!(out, expected);
    assert_eq!(visible_width(&row), 60);
}

#[test]
fn mobile_render_single_column() {
    let cfg = config(vec![field("os", "I", "OS")], vec![]);
    let out = render_mobile(&cfg, &info(), "", false, 40);
    let c = fg(10, 20, 30);
    let panel = format!("{} I OS {}\u{e0b0}{}Linux{}", c, fg(157, 133, 255), fg(245, 220, 227), RESET);
    let row = format!(" {}{}", panel, " ".repeat(27));
    assert_eq!(out, format!("{}{}{}\n\n", head(40), row, RESET));
}

#[test]
fn mobile_render_with_art_block() {
    let cfg = config(vec![], vec![]);
    let out = render_mobile(&cfg, &info(), "  XX\n  Y", false, 10);
    let c = fg(10, 20, 30);
    let art = format!("    {}X{}X{}\n    {}Y {}\n\n", c, c, RESET, c, RESET);
    assert_eq!(out, format!("{}{}\n", head(10), art));
}

#[test]
fn mobile_render_narrow_drops_art() {
    let cfg = config(vec![], vec![]);
    let out = render_mobile(&cfg, &info(), "XX", true, 10);
    assert_eq!(out, format!("{}\n", head(10)));
}

#[test]
fn mobile_preview_lines() {
    let cfg = config(vec![field("os", "I", "OS")], vec![]);
    let lines = render_mobile_preview(&cfg, &info(), "Z", 12, false);
    // title, separator, one art line, a blank line, one panel line
    assert_eq!(lines.len(), 5);
    assert_eq!(lines[0].segments[1].text, "u@h");
    assert!(lines[0].segments[1].bold);
    assert_eq!(lines[0].segments[1].fg, Some(Color::new(255, 154, 152)));
    assert_eq!(lines[1].segments[1].text, "\u{2500}".repeat(5));
    let art: Vec<&str> = lines[2].segments.iter().map(|s| s.text.as_str()).collect();
    assert_eq!(art, vec!["     ", "Z", "      "]);
    assert_eq!(lines[3].segments[0].text, " ");
    let panel: Vec<&str> = lines[4].segments.iter().map(|s| s.text.as_str()).collect();
    assert_eq!(panel, vec![" ", " I OS ", "\u{e0b0}", "    "]);
}

#[test]
fn dedent_twice_is_dedent_once() {
    let lines = vec!["   x".to_string(), "     y".to_string(), "  ".to_string()];
    let once = dedent(&lines);
    assert_eq!(once, vec!["x".to_string(), "  y".to_string(), "".to_string()]);
    assert_eq!(dedent(&once), once);
}

#[test]
fn strip_ansi_leaves_no_escape() {
    assert_eq!(strip_ansi("\x1b[38;2;1;2;3mab\x1b[0mc"), "abc");
    assert_eq!(strip_ansi("a\x1b[1"), "a");
    assert!(!strip_ansi("\x1b[1mx\x1b[0m\x1b[4").contains('\x1b'));
}

#[test]
fn styled_lines_ansi_shows_their_text() {
    let lines = vec![StyledLine {
        segments: vec![
            StyledSegment { text: "ab".to_string(), fg: Some(Color::new(1, 2, 3)), bg: Some(Color::new(4, 5, 6)), bold: true },
            StyledSegment { text: "mc".to_string(), fg: None, bg: None, bold: false },
        ],
    }];
    assert_eq!(strip_ansi(&styled_lines_to_ansi(&lines)), "abmc\n");
}

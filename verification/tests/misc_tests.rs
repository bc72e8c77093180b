use atlasfetch::ascii::{clean_ascii, expand_home, keep_logo_key, logo_key, small_key};
use atlasfetch::config::{FieldDef, PanelConfig};
use atlasfetch::dispatch::{install_dest, output_kind, preset_line, source_candidates, OutputKind};
use atlasfetch::eventbus::EventBus;
use atlasfetch::info::SysInfo;
use atlasfetch::render::strip_ansi;
use atlasfetch::theme::Color;
use atlasfetch::widget::{render_field, BarFill, FieldWidget, MonitorWidget, Registry, RenderCtx, Widget};

const RESET: &str = "\x1b[0m";

fn fg(r: u8, g: u8, b: u8) -> String {
    format!("\x1b[38;2;{};{};{}m", r, g, b)
}

fn panel(max_val_width: usize) -> PanelConfig {
    PanelConfig {
        left_pad: 1,
        right_pad: 1,
        gap: 1,
        max_shift: 0,
        max_val_width,
        sep_color: "#010203".to_string(),
        val_color: "not a colour".to_string(),
    }
}

#[test]
fn clean_ascii_trims_and_dedents() {
    assert_eq!(clean_ascii("  a  \n   b\n\n"), "a\n b\n");
    assert_eq!(clean_ascii("\u{2800}\u{2800}x\n\u{2800}y"), "\u{2800}x\ny");
    assert_eq!(clean_ascii("a\n b"), "a\n b");
    assert_eq!(clean_ascii("   \n"), "");
}

#[test]
fn logo_key_picks_small_variant_on_narrow_terminals() {
    assert_eq!(small_key("arch"), "arch_small");
    assert_eq!(logo_key("arch", 64, true), "arch_small");
    assert_eq!(logo_key("arch", 64, false), "arch");
    assert_eq!(logo_key("arch", 65, true), "arch");
    assert_eq!(logo_key("", 10, true), "");
}

#[test]
fn home_expansion() {
    assert_eq!(expand_home("~/logos/a.txt", "/home/u"), "/home/u/logos/a.txt");
    assert_eq!(expand_home("~/x", "/home/u/"), "/home/u/x");
    assert_eq!(expand_home("/abs/x", "/home/u"), "/abs/x");
}

#[test]
fn logo_listing_filter() {
    assert!(keep_logo_key("arch"));
    assert!(!keep_logo_key(".hidden"));
    assert!(!keep_logo_key("arch_small"));
}

#[test]
fn output_kind_by_width() {
    assert_eq!(output_kind(false, 120), OutputKind::Desktop);
    assert_eq!(output_kind(false, 79), OutputKind::Mobile);
    assert_eq!(output_kind(true, 120), OutputKind::Mobile);
    assert_eq!(output_kind(true, 54), OutputKind::MobileNarrow);
    assert_eq!(output_kind(false, 54), OutputKind::MobileNarrow);
}

#[test]
fn preset_line_has_padded_name_and_swatches() {
    let line = preset_line("kawaii", &vec![Color::new(1, 2, 3), Color::new(4, 5, 6)]);
    let expected = format!(
        "  kawaii{} \x1b[48;2;1;2;3m  {}\x1b[48;2;4;5;6m  {}",
        " ".repeat(14),
        RESET,
        RESET
    );
    assert_eq!(line, expected);
}

#[test]
fn install_destinations() {
    assert_eq!(install_dest(true, Some("/p"), None), "/p/bin/atlasfetch");
    assert_eq!(install_dest(true, None, Some("/h")), "/data/data/com.termux/files/usr/bin/atlasfetch");
    assert_eq!(install_dest(false, None, Some("/h")), "/h/.local/bin/atlasfetch");
    assert_eq!(install_dest(false, Some("/p"), None), "/tmp/.local/bin/atlasfetch");
}

#[test]
fn source_directories_in_order() {
    assert_eq!(
        source_candidates("/h"),
        vec![
            "/h/Projetos/atlasfetch".to_string(),
            "/h/src/atlasfetch".to_string(),
            "/h/atlasfetch".to_string(),
            "/h/code/atlasfetch".to_string(),
            "/h/dev/atlasfetch".to_string(),
        ]
    );
}

#[test]
fn event_bus_accepts_handlers() {
    let mut bus = EventBus::new();
    bus.on("tick", |_e: &u32| {});
    bus.emit(&5u32);
}

#[test]
fn field_widget_truncates_long_values() {
    let mut info = SysInfo::empty();
    info.kernel = "6.10.0-arch1".to_string();
    let p = panel(999);
    let ctx = RenderCtx { info: &info, panel_cfg: &p, max_width: 16, fg_color: Color::new(9, 9, 9) };
    let def = FieldDef { field: "kernel".to_string(), icon: "K".to_string(), label: "Kr".to_string(), enabled: true };
    let out = render_field(&def, &ctx);
    // " K Kr " is 6 wide; 16 - 8 = 8 columns remain, 6 characters are shown
    let expected = format!("{} K Kr {}\u{e0b0} {}6.10.\u{2026}{}", fg(9, 9, 9), fg(1, 2, 3), fg(245, 220, 227), RESET);
    assert_eq!(out.ansi, expected);
    assert_eq!(out.width, 6 + 1 + 1 + 6);
    let w = FieldWidget::from_def(def);
    assert_eq!(w.render(&ctx).ansi, expected);
    assert_eq!(w.key(), "kernel");
}

#[test]
fn field_widget_unknown_field_shows_question_mark() {
    let info = SysInfo::empty();
    let p = panel(30);
    let ctx = RenderCtx { info: &info, panel_cfg: &p, max_width: 40, fg_color: Color::new(9, 9, 9) };
    let w = FieldWidget::new("nope".to_string(), "N".to_string(), "No".to_string());
    let out = w.render(&ctx);
    assert_eq!(out.ansi, format!("{} N No {}\u{e0b0}{}?{}", fg(9, 9, 9), fg(1, 2, 3), fg(245, 220, 227), RESET));
}

#[test]
fn monitor_widget_bar_and_text() {
    let mut info = SysInfo::empty();
    info.cpu = "x".to_string();
    let p = panel(30);
    let ctx = RenderCtx { info: &info, panel_cfg: &p, max_width: 20, fg_color: Color::new(9, 9, 9) };
    let w = MonitorWidget::new("cpu".to_string(), "C".to_string(), "CPU".to_string());
    assert_eq!(w.bar_cells(&ctx), 8);
    let fill = BarFill { filled: 5, pct_text: " 63%".to_string(), color: Color::new(0xE5, 0xC0, 0x7B) };
    let bar = w.render_bar(&ctx, &fill);
    assert_eq!(
        bar.ansi,
        format!("{}C CPU{} {}{} 63%", fg(9, 9, 9), fg(0xE5, 0xC0, 0x7B), "\u{2588}".repeat(5), "\u{2591}".repeat(3))
    );
    assert_eq!(bar.width, 5 + 1 + 8 + 4);
    assert_eq!(bar.styled.len(), 4);
    assert_eq!(bar.styled[3].text, "  63%");
    let plain = w.render_plain(&ctx);
    assert_eq!(plain.ansi, format!("{} C CPU {}\u{e0b0} {}x", fg(9, 9, 9), fg(1, 2, 3), fg(245, 220, 227)));
    assert_eq!(w.min_width(), 7 + 6);
    assert_eq!((w.key(), w.label(), w.icon()), ("cpu", "CPU", "C"));
}

#[test]
fn registry_finds_first_widget_by_key() {
    let left = vec![
        FieldDef { field: "os".to_string(), icon: "O".to_string(), label: "OS".to_string(), enabled: true },
        FieldDef { field: "gpu".to_string(), icon: "G".to_string(), label: "GPU".to_string(), enabled: false },
    ];
    let right = vec![FieldDef { field: "gpu".to_string(), icon: "G".to_string(), label: "Graphics".to_string(), enabled: true }];
    let reg = Registry::from_fields(&left, &right);
    let keys: Vec<&str> = reg.all().iter().map(|w| w.key()).collect();
    assert_eq!(keys, vec!["os", "gpu"]);
    assert_eq!(reg.get("gpu").map(|w| w.label()), Some("Graphics"));
    assert!(reg.get("cpu").is_none());

    let mut r2 = Registry::new();
    r2.register(Box::new(FieldWidget::new("os".to_string(), "1".to_string(), "first".to_string())));
    r2.register(Box::new(FieldWidget::new("os".to_string(), "2".to_string(), "second".to_string())));
    assert_eq!(r2.get("os").map(|w| w.label()), Some("first"));
    assert_eq!(r2.all().len(), 2);
}

#[test]
fn panel_shows_same_text_in_terminal_and_preview() {
    let mut info = SysInfo::empty();
    info.kernel = "6.10.0-arch1".to_string();
    let def = FieldDef { field: "kernel".to_string(), icon: "K".to_string(), label: "Kr".to_string(), enabled: true };
    for (mvw, width) in [(30usize, 40usize), (999, 40), (999, 16)] {
        let p = panel(mvw);
        let ctx = RenderCtx { info: &info, panel_cfg: &p, max_width: width, fg_color: Color::new(9, 9, 9) };
        let out = render_field(&def, &ctx);
        let plain: String = out.styled.iter().map(|s| s.text.as_str()).collect();
        assert_eq!(strip_ansi(&out.ansi), plain);
    }
    // with no room for the value the terminal keeps a blank before the arrow
    let p = panel(30);
    let ctx = RenderCtx { info: &info, panel_cfg: &p, max_width: 8, fg_color: Color::new(9, 9, 9) };
    let out = render_field(&def, &ctx);
    let plain: String = out.styled.iter().map(|s| s.text.as_str()).collect();
    assert_eq!(strip_ansi(&out.ansi), " K Kr  \u{e0b0}");
    assert_eq!(plain, " K Kr \u{e0b0}");
}

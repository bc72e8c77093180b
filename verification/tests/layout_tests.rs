use atlasfetch::config::{Config, DisplayConfig, LogoConfig, PanelConfig, SeparatorConfig, TitleConfig};
use atlasfetch::info::SysInfo;
use atlasfetch::layout::AppLayout;
use atlasfetch::layout_engine::{engine_for, render_layout_output, Layout, LayoutOutput, LayoutRow};
use atlasfetch::widget::{FieldWidget, Widget, WidgetOutput};

const RESET: &str = "\x1b[0m";

fn fg(r: u8, g: u8, b: u8) -> String {
    format!("\x1b[38;2;{};{};{}m", r, g, b)
}

fn config() -> Config {
    Config {
        logo: LogoConfig {
            key: String::new(),
            path: String::new(),
            colors: vec![atlasfetch::theme::Color::new(10, 20, 30)],
            color_dir: String::new(),
        },
        title: TitleConfig { format: "{user}@{host}".to_string(), color: "#FF9A98".to_string() },
        separator: SeparatorConfig { char: "-".to_string(), length: 5, color: "#9D85FF".to_string() },
        panel: PanelConfig {
            left_pad: 1,
            right_pad: 1,
            gap: 1,
            max_shift: 0,
            max_val_width: 30,
            sep_color: "#9D85FF".to_string(),
            val_color: "#F5DCE3".to_string(),
        },
        display: DisplayConfig { left: vec![], right: vec![] },
    }
}

fn info() -> SysInfo {
    let mut i = SysInfo::empty();
    i.os = "Linux".to_string();
    i
}

fn os_full() -> String {
    format!("{} I OS {}\u{e0b0}{}Linux{}", fg(10, 20, 30), fg(157, 133, 255), fg(245, 220, 227), RESET)
}

#[test]
fn layout_catalogue() {
    assert_eq!(Layout::all(), &[Layout::Classic, Layout::Stack, Layout::Minimal, Layout::Compact]);
    assert_eq!(Layout::Stack.name(), "Stack");
    assert_eq!(Layout::Minimal.description(), "No ASCII, only info panels");
    let widths: Vec<usize> = Layout::all().iter().map(|l| l.min_width()).collect();
    assert_eq!(widths, vec![80, 40, 30, 20]);
    for l in Layout::all() {
        assert_eq!(engine_for(*l).layout(), *l);
    }
}

#[test]
fn app_layout_spacing() {
    assert_eq!(AppLayout::pc_variants().len(), 5);
    assert_eq!(AppLayout::mobile_variants(), &[AppLayout::Mobile, AppLayout::MobileNarrow]);
    assert_eq!(AppLayout::Wide.gap(), 4);
    assert_eq!(AppLayout::Centered.padding(), 3);
    assert_eq!(AppLayout::Compact.max_panel_width(), 35);
    assert_eq!(AppLayout::Balanced.name(), "Balanced");
}

#[test]
fn minimal_layout_lists_widgets() {
    let w = FieldWidget::new("os".to_string(), "I".to_string(), "OS".to_string());
    let ws: Vec<&dyn Widget> = vec![&w];
    let out = engine_for(Layout::Minimal).arrange(&ws, &vec!["art".to_string()], &config(), &info(), 40, &[0]);
    assert_eq!(out.title, "{user}@{host}");
    assert_eq!(out.separator, "-----");
    assert_eq!(out.rows.len(), 1);
    assert!(out.rows[0].logo_line.is_none());
    assert!(out.rows[0].right_widgets.is_empty());
    assert_eq!(out.rows[0].left_widgets[0].ansi, os_full());
    assert_eq!(out.rows[0].left_widgets[0].width, 12);
}

#[test]
fn compact_layout_has_no_title() {
    let w = FieldWidget::new("os".to_string(), "I".to_string(), "OS".to_string());
    let ws: Vec<&dyn Widget> = vec![&w];
    let out = engine_for(Layout::Compact).arrange(&ws, &vec![], &config(), &info(), 40, &[0]);
    assert_eq!(out.title, "");
    assert_eq!(out.separator, "");
    assert_eq!(out.rows.len(), 1);
}

#[test]
fn stack_layout_art_then_blank_then_widgets() {
    let w = FieldWidget::new("os".to_string(), "I".to_string(), "OS".to_string());
    let ws: Vec<&dyn Widget> = vec![&w];
    let art = vec!["ab ".to_string(), "c".to_string()];
    let out = engine_for(Layout::Stack).arrange(&ws, &art, &config(), &info(), 40, &[0]);
    assert_eq!(out.rows.len(), 4);
    assert_eq!(out.rows[0].logo_line.as_deref(), Some("ab"));
    assert_eq!(out.rows[1].logo_line.as_deref(), Some("c "));
    assert!(out.rows[2].logo_line.is_none() && out.rows[2].left_widgets.is_empty());
    assert_eq!(out.rows[3].left_widgets[0].ansi, os_full());
}

#[test]
fn classic_layout_without_art() {
    let w = FieldWidget::new("os".to_string(), "I".to_string(), "OS".to_string());
    let ws: Vec<&dyn Widget> = vec![&w];
    let out = engine_for(Layout::Classic).arrange(&ws, &vec![], &config(), &info(), 40, &[0]);
    assert_eq!(out.rows.len(), 1);
    let narrow = format!("{} I OS  {}\u{e0b0}{}", fg(10, 20, 30), fg(157, 133, 255), RESET);
    assert_eq!(out.rows[0].left_widgets[0].ansi, narrow);
    assert_eq!(out.rows[0].right_widgets[0].ansi, os_full());
}

#[test]
fn layout_output_as_text() {
    let row = LayoutRow {
        left_widgets: vec![WidgetOutput { ansi: "abcdef".to_string(), styled: vec![], width: 6 }],
        logo_line: None,
        right_widgets: vec![],
    };
    let logo = LayoutRow { left_widgets: vec![], logo_line: Some("A".to_string()), right_widgets: vec![] };
    let out = LayoutOutput { title: "T".to_string(), separator: "--".to_string(), rows: vec![row, logo] };
    let text = render_layout_output(&out, &vec![], 3);
    let expected = format!(
        "\n{}  \x1b[1mT{}{}\n{}  --{}{}\nabcdef{}\n \x1b[38;5;231mA{}\n",
        fg(255, 154, 152),
        RESET,
        RESET,
        fg(157, 133, 255),
        RESET,
        RESET,
        RESET,
        RESET
    );
    assert_eq!(text, expected);
}

#[test]
fn layout_output_pads_short_rows() {
    let row = LayoutRow {
        left_widgets: vec![WidgetOutput { ansi: "ab".to_string(), styled: vec![], width: 2 }],
        logo_line: None,
        right_widgets: vec![WidgetOutput { ansi: "c".to_string(), styled: vec![], width: 1 }],
    };
    let out = LayoutOutput { title: String::new(), separator: String::new(), rows: vec![row] };
    assert_eq!(render_layout_output(&out, &vec![], 6), format!("ab   c{}\n", RESET));
}

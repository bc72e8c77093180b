use atlasfetch::config::{Config, DisplayConfig, FieldDef, LogoConfig, PanelConfig, SeparatorConfig, TitleConfig};
use atlasfetch::info::SysInfo;
use atlasfetch::layout_engine::Layout;
use atlasfetch::preview::{art_width, editor_preview, full_logo_fits, preview_layout, preview_shows_art, wants_small_logo};
use atlasfetch::render::StyledLine;
use atlasfetch::theme::Color;
use atlasfetch::widget::{FieldWidget, Widget};
use atlasfetch::wizard::DisplayMode;

fn config(colors: Vec<Color>, dir: &str) -> Config {
    Config {
        logo: LogoConfig { key: String::new(), path: String::new(), colors, color_dir: dir.to_string() },
        title: TitleConfig { format: "me@box".to_string(), color: "#010203".to_string() },
        separator: SeparatorConfig { char: "-".to_string(), length: 5, color: "zz".to_string() },
        panel: PanelConfig {
            left_pad: 3,
            right_pad: 3,
            gap: 2,
            max_shift: 0,
            max_val_width: 40,
            sep_color: "#9D85FF".to_string(),
            val_color: "#F5DCE3".to_string(),
        },
        display: DisplayConfig { left: vec![], right: vec![] },
    }
}

fn red() -> Color {
    Color::new(255, 0, 0)
}

fn blue() -> Color {
    Color::new(0, 0, 255)
}

fn texts(l: &StyledLine) -> Vec<(String, Option<Color>)> {
    l.segments.iter().map(|s| (s.text.clone(), s.fg)).collect()
}

#[test]
fn preview_picks_engine_and_art_by_mode() {
    assert_eq!(preview_layout(DisplayMode::Desktop), Layout::Classic);
    assert_eq!(preview_layout(DisplayMode::Companion), Layout::Compact);
    assert_eq!(preview_layout(DisplayMode::Monitor), Layout::Minimal);
    assert!(preview_shows_art(DisplayMode::Desktop, false));
    assert!(!preview_shows_art(DisplayMode::Desktop, true));
    assert!(!preview_shows_art(DisplayMode::Monitor, false));
    assert!(!preview_shows_art(DisplayMode::Companion, false));
}

#[test]
fn desktop_preview_centres_and_colours_the_art() {
    let cfg = config(vec![red(), blue()], "");
    let widgets: Vec<&dyn Widget> = vec![];
    let lines = editor_preview(&widgets, "ab\ncd", &cfg, &SysInfo::empty(), DisplayMode::Desktop, true, 40, &[], &vec![]);
    assert_eq!(lines.len(), 4);
    assert_eq!(texts(&lines[0]), vec![("  ".to_string(), None), ("me@box".to_string(), Some(Color::new(1, 2, 3)))]);
    assert!(lines[0].segments[1].bold);
    assert_eq!(lines[1].segments[1].fg, Some(Color::new(157, 133, 255)));
    assert!(!lines[1].segments[1].bold);
    let pad = " ".repeat(19);
    assert_eq!(
        texts(&lines[2]),
        vec![(pad.clone(), None), ("a".to_string(), Some(red())), ("b".to_string(), Some(red())), (pad.clone(), None)]
    );
    assert_eq!(
        texts(&lines[3]),
        vec![(pad.clone(), None), ("c".to_string(), Some(blue())), ("d".to_string(), Some(blue())), (pad, None)]
    );
}

#[test]
fn vertical_palette_colours_by_column() {
    let cfg = config(vec![red(), blue()], "vertical");
    let widgets: Vec<&dyn Widget> = vec![];
    let lines = editor_preview(&widgets, "a b", &cfg, &SysInfo::empty(), DisplayMode::Desktop, true, 40, &[], &vec![]);
    let row = texts(&lines[2]);
    assert_eq!(row[1], ("a".to_string(), Some(red())));
    assert_eq!(row[2], (" ".to_string(), None));
    assert_eq!(row[3], ("b".to_string(), Some(blue())));
}

#[test]
fn intersex_palette_uses_the_ring() {
    let yellow = Color::new(0xFF, 0xD7, 0x00);
    let purple = Color::new(0x79, 0x02, 0xAA);
    let cfg = config(vec![yellow, purple], "");
    let widgets: Vec<&dyn Widget> = vec![];
    let ring = vec![vec![false, true]];
    let lines = editor_preview(&widgets, "xy", &cfg, &SysInfo::empty(), DisplayMode::Desktop, true, 40, &[], &ring);
    let row = texts(&lines[2]);
    assert_eq!(row[1], ("x".to_string(), Some(yellow)));
    assert_eq!(row[2], ("y".to_string(), Some(purple)));
}

#[test]
fn monitor_preview_hides_art_and_pads_rows() {
    let cfg = config(vec![], "");
    let w = FieldWidget::from_def(FieldDef { field: "os".to_string(), icon: "O".to_string(), label: "OS".to_string(), enabled: true });
    let widgets: Vec<&dyn Widget> = vec![&w];
    let lines = editor_preview(&widgets, "ART", &cfg, &SysInfo::empty(), DisplayMode::Monitor, false, 30, &[0], &vec![]);
    assert_eq!(lines.len(), 3);
    let total: usize = lines[2].segments.iter().map(|s| s.text.chars().count()).sum();
    assert_eq!(total, 30);
    assert!(lines[2].segments.iter().all(|s| !s.text.contains("ART")));
}

#[test]
fn compact_preview_has_no_title() {
    let cfg = config(vec![], "");
    let w = FieldWidget::from_def(FieldDef { field: "os".to_string(), icon: "O".to_string(), label: "OS".to_string(), enabled: true });
    let widgets: Vec<&dyn Widget> = vec![&w];
    let lines = editor_preview(&widgets, "", &cfg, &SysInfo::empty(), DisplayMode::Companion, false, 30, &[0], &vec![]);
    assert_eq!(lines.len(), 1);
}

#[test]
fn preview_stops_at_half_its_width() {
    let cfg = config(vec![red()], "");
    let widgets: Vec<&dyn Widget> = vec![];
    let lines = editor_preview(&widgets, "a\nb\nc", &cfg, &SysInfo::empty(), DisplayMode::Desktop, true, 4, &[], &vec![]);
    assert_eq!(lines.len(), 3);
}

#[test]
fn small_and_full_logo_choice() {
    assert_eq!(art_width("ab  \nabcd"), 4);
    assert_eq!(art_width(""), 0);
    assert!(wants_small_logo(75, 80, true, false));
    assert!(!wants_small_logo(70, 80, true, false));
    assert!(!wants_small_logo(75, 80, false, false));
    assert!(!wants_small_logo(75, 80, true, true));
    assert!(!wants_small_logo(0, 5, true, false));
    assert!(wants_small_logo(90, 80, true, false));
    assert!(full_logo_fits(70, 80));
    assert!(!full_logo_fits(71, 80));
    assert!(!full_logo_fits(90, 80));
}

use atlasfetch::component::ascii::AsciiComponent;
use atlasfetch::component::companion::CompanionComponent;
use atlasfetch::component::monitor::{MonitorComponent, MonitorReading};
use atlasfetch::component::system::SystemComponent;
use atlasfetch::component::{
    render_scene, render_scene_ansi, spans_to_ansi, wrap_block, Component, RenderCtx, Scene, StyledSpan,
};
use atlasfetch::config::{Config, DisplayConfig, FieldDef, LogoConfig, PanelConfig, SeparatorConfig, TitleConfig};
use atlasfetch::info::SysInfo;
use atlasfetch::theme::Color;

fn field(key: &str, icon: &str, label: &str) -> FieldDef {
    FieldDef { field: key.to_string(), icon: icon.to_string(), label: label.to_string(), enabled: true }
}

fn config(left: Vec<FieldDef>, right: Vec<FieldDef>) -> Config {
    Config {
        logo: LogoConfig { key: String::new(), path: String::new(), colors: vec![Color::new(10, 20, 30)], color_dir: String::new() },
        title: TitleConfig { format: "{user}@{host}".to_string(), color: "#FF9A98".to_string() },
        separator: SeparatorConfig { char: "-".to_string(), length: 3, color: "#9D85FF".to_string() },
        panel: PanelConfig {
            left_pad: 1,
            right_pad: 1,
            gap: 1,
            max_shift: 0,
            max_val_width: 30,
            sep_color: "#9D85FF".to_string(),
            val_color: "#F5DCE3".to_string(),
        },
        display: DisplayConfig { left, right },
    }
}

fn texts(line: &Vec<StyledSpan>) -> Vec<String> {
    line.iter().map(|s| s.text.clone()).collect()
}

#[test]
fn span_builders() {
    let s = StyledSpan::new("x".to_string()).fg(Color::new(1, 2, 3)).bold();
    assert_eq!(s.text, "x");
    assert_eq!(s.fg, Some(Color::new(1, 2, 3)));
    assert_eq!(s.bg, None);
    assert!(s.bold);
}

#[test]
fn scene_catalogue() {
    assert_eq!(Scene::all(), &[Scene::Classic, Scene::Dashboard, Scene::Cockpit, Scene::ClassicFetch]);
    assert_eq!(Scene::Dashboard.name(), "Terminal Dashboard");
    assert_eq!(Scene::ClassicFetch.description(), "Fastfetch-style: info left, logo right, no panels");
    assert_eq!(Scene::Cockpit.min_width(), 60);
    assert_eq!(Scene::Classic.min_width(), 80);
}

#[test]
fn spans_as_ansi() {
    let lines = vec![vec![StyledSpan::new("a".to_string()).bold(), StyledSpan::new("b".to_string())]];
    assert_eq!(spans_to_ansi(&lines), "\x1b[1ma\x1b[0mb\x1b[0m\n");
}

#[test]
fn wrapped_block_has_centred_header_and_padded_lines() {
    let lines = vec![vec![StyledSpan::new("ab".to_string())]];
    let out = wrap_block("T", &lines, 9);
    assert_eq!(out.len(), 2);
    assert_eq!(texts(&out[0]), vec!["\u{2500}\u{2500}\u{2500} T \u{2500}\u{2500}\u{2500}".to_string()]);
    assert_eq!(texts(&out[1]), vec!["ab".to_string(), "       ".to_string()]);
    let untitled = wrap_block("", &lines, 2);
    assert_eq!(untitled.len(), 1);
    assert_eq!(texts(&untitled[0]), vec!["ab".to_string()]);
}

#[test]
fn dashboard_without_components_is_a_rule() {
    let cfg = config(vec![], vec![]);
    let info = SysInfo::empty();
    let pal = [Color::new(1, 1, 1)];
    let ctx = RenderCtx { info: &info, cfg: &cfg, term_width: 4, palette: &pal };
    let comps: Vec<&dyn Component> = vec![];
    let out = render_scene(Scene::Dashboard, &comps, &ctx, &[]);
    assert_eq!(out.lines.len(), 1);
    assert_eq!(texts(&out.lines[0]), vec!["\u{2500}\u{2500}\u{2500}\u{2500}".to_string()]);
    assert_eq!(render_scene_ansi(Scene::Dashboard, &comps, &ctx, &[]), "\u{2500}\u{2500}\u{2500}\u{2500}\x1b[0m\n");
}

#[test]
fn art_component_is_centred_and_coloured() {
    let cfg = config(vec![], vec![]);
    let info = SysInfo::empty();
    let c1 = Color::new(1, 1, 1);
    let c2 = Color::new(2, 2, 2);
    let pal = [c1, c2];
    let ctx = RenderCtx { info: &info, cfg: &cfg, term_width: 10, palette: &pal };
    let art = AsciiComponent::new("AB\nC".to_string(), vec![]);
    assert_eq!(art.name(), "ascii");
    assert_eq!(art.min_width(), 2);
    assert_eq!(art.min_height(), 2);
    let lines = art.render_styled(&ctx);
    assert_eq!(lines.len(), 2);
    assert_eq!(texts(&lines[0]), vec!["    ".to_string(), "A".to_string(), "B".to_string()]);
    assert_eq!(lines[0][1].fg, Some(c1));
    assert_eq!(texts(&lines[1]), vec!["    ".to_string(), "C".to_string(), " ".to_string()]);
    assert_eq!(lines[1][1].fg, Some(c2));
    let (rows, w) = art.render_colored_lines(&ctx);
    assert_eq!(w, 2);
    assert_eq!(texts(&rows[1]), vec!["C".to_string(), " ".to_string()]);
}

#[test]
fn art_component_paints_flag_ring() {
    let cfg = config(vec![], vec![]);
    let info = SysInfo::empty();
    let yellow = Color::new(0xFF, 0xD7, 0x00);
    let purple = Color::new(0x79, 0x02, 0xAA);
    let pal = [yellow, purple];
    let ctx = RenderCtx { info: &info, cfg: &cfg, term_width: 2, palette: &pal };
    let art = AsciiComponent::new("XY".to_string(), vec![vec![false, true]]);
    let lines = art.render_styled(&ctx);
    assert_eq!(lines[0][0].fg, Some(yellow));
    assert_eq!(lines[0][1].fg, Some(purple));
}

#[test]
fn cockpit_centres_the_art_between_rules() {
    let cfg = config(vec![], vec![]);
    let info = SysInfo::empty();
    let pal = [Color::new(1, 1, 1)];
    let ctx = RenderCtx { info: &info, cfg: &cfg, term_width: 10, palette: &pal };
    let art = AsciiComponent::new("AB".to_string(), vec![]);
    let comps: Vec<&dyn Component> = vec![&art];
    let out = render_scene(Scene::Cockpit, &comps, &ctx, &[]);
    assert_eq!(out.lines.len(), 4);
    assert_eq!(texts(&out.lines[0]), vec!["\u{2501}".repeat(10)]);
    assert_eq!(
        texts(&out.lines[1]),
        vec!["  ".to_string(), "    ".to_string(), "A".to_string(), "B".to_string(), "  ".to_string()]
    );
    assert_eq!(texts(&out.lines[3]), vec!["\u{2501}".repeat(10)]);
}

#[test]
fn system_component_lines() {
    let cfg = config(vec![field("os", "I", "OS")], vec![]);
    let mut info = SysInfo::empty();
    info.os = "Linux".to_string();
    let pal = [Color::new(9, 9, 9)];
    let ctx = RenderCtx { info: &info, cfg: &cfg, term_width: 60, palette: &pal };
    let sys = SystemComponent;
    let lines = sys.render_styled(&ctx);
    assert_eq!(lines.len(), 1);
    assert_eq!(
        texts(&lines[0]),
        vec![" I OS ".to_string(), "\u{e0b0}".to_string(), "".to_string(), "Linux".to_string(), " ".repeat(16)]
    );
    assert_eq!(lines[0][0].fg, Some(Color::new(9, 9, 9)));
    assert_eq!(lines[0][2].fg, Some(Color::new(200, 200, 200)));
    let side = sys.render_side_styled(&ctx, true, 40);
    assert_eq!(side.len(), 1);
    assert!(sys.render_side_styled(&ctx, false, 40).is_empty());
}

#[test]
fn companion_card_lines() {
    let cfg = config(vec![], vec![]);
    let mut info = SysInfo::empty();
    info.host = "box".to_string();
    info.battery_level = "80%".to_string();
    info.uptime = "1h".to_string();
    let pal: [Color; 0] = [];
    let ctx = RenderCtx { info: &info, cfg: &cfg, term_width: 20, palette: &pal };
    let comp = CompanionComponent;
    let lines = comp.render_styled(&ctx);
    assert_eq!(lines.len(), 6);
    assert_eq!(texts(&lines[0]), vec!["  Hello ".to_string(), "explorer".to_string(), "    ".to_string()]);
    assert_eq!(lines[0][1].fg, Some(Color::new(255, 102, 146)));
    assert_eq!(texts(&lines[1])[1], "box");
    assert_eq!(texts(&lines[3])[1], "Unknown");
    assert_eq!(lines[3][1].fg, Some(Color::new(200, 100, 100)));
    assert_eq!(texts(&lines[4])[1], "80%");
    assert_eq!(texts(&lines[5])[1], "1h");
}

#[test]
fn monitor_component_bars() {
    let cfg = config(vec![], vec![]);
    let info = SysInfo::empty();
    let pal: [Color; 0] = [];
    let ctx = RenderCtx { info: &info, cfg: &cfg, term_width: 20, palette: &pal };
    let green = Color::new(0x98, 0xC3, 0x79);
    let mon = MonitorComponent {
        readings: vec![MonitorReading {
            label: "CPU".to_string(),
            color: Color::new(100, 200, 255),
            fills: (0..15).map(|k| (k + 6) / 2).collect(),
            pct_text: "  50%".to_string(),
            level: green,
            note: Some(" 30C".to_string()),
        }],
    };
    let lines = mon.render_styled(&ctx);
    assert_eq!(lines.len(), 3);
    assert_eq!(texts(&lines[0]), vec![" MONITOR ".to_string()]);
    assert_eq!(
        texts(&lines[1]),
        vec![" CPU ".to_string(), " ".to_string(), format!("{}{}", "\u{2588}".repeat(4), "\u{2591}".repeat(4)), "  50%".to_string()]
    );
    assert_eq!(texts(&lines[2]), vec!["  ".to_string(), " ".to_string(), " 30C".to_string()]);
}

#[test]
fn classicfetch_puts_art_right_of_info() {
    let cfg = config(vec![], vec![]);
    let info = SysInfo::empty();
    let pal = [Color::new(1, 1, 1)];
    let ctx = RenderCtx { info: &info, cfg: &cfg, term_width: 10, palette: &pal };
    let art = AsciiComponent::new("AB".to_string(), vec![]);
    let comps: Vec<&dyn Component> = vec![&art];
    let out = render_scene(Scene::ClassicFetch, &comps, &ctx, &[]);
    assert_eq!(out.lines.len(), 1);
    // the art row is "    AB", so the widest span is the indent (4 columns)
    assert_eq!(
        texts(&out.lines[0]),
        vec!["  ".to_string(), "    ".to_string(), "    ".to_string(), "A".to_string(), "B".to_string()]
    );
}

use atlasfetch::config::{Config, DisplayConfig, FieldDef, LogoConfig, PanelConfig, SeparatorConfig, TitleConfig};
use atlasfetch::editor::{
    find_first, palette_input_panics, pop_char, sort_entries, step_down, step_up, AsciiSource, EditMode, Editor, EditorAction, EditorEvent, EditorKey,
};
use atlasfetch::layout::AppLayout;
use atlasfetch::theme::Color;
use atlasfetch::wizard::{DisplayMode, Tab};

fn field(key: &str, enabled: bool) -> FieldDef {
    FieldDef { field: key.to_string(), icon: "i".to_string(), label: key.to_uppercase(), enabled }
}

fn config(key: &str, path: &str, colors: Vec<Color>, left: Vec<FieldDef>, right: Vec<FieldDef>) -> Config {
    Config {
        logo: LogoConfig { key: key.to_string(), path: path.to_string(), colors, color_dir: String::new() },
        title: TitleConfig { format: "{user}@{host}".to_string(), color: "#FF9A98".to_string() },
        separator: SeparatorConfig { char: "-".to_string(), length: 5, color: "#9D85FF".to_string() },
        panel: PanelConfig {
            left_pad: 3,
            right_pad: 3,
            gap: 2,
            max_shift: 4,
            max_val_width: 40,
            sep_color: "#9D85FF".to_string(),
            val_color: "#F5DCE3".to_string(),
        },
        display: DisplayConfig { left, right },
    }
}

fn logos() -> Vec<String> {
    vec!["Arch".to_string(), "debian".to_string(), "fedora".to_string(), "arch_small".to_string()]
}

fn editor(left: Vec<FieldDef>, right: Vec<FieldDef>) -> Editor {
    Editor::new(config("debian", "", vec![], left, right), "classic".to_string(), logos(), "ART".to_string(), 100, 40, false)
}

fn key(e: &mut Editor, k: EditorKey) -> EditorAction {
    e.handle_event(EditorEvent::Key(k))
}

fn keys(fields: &[FieldDef]) -> Vec<&str> {
    fields.iter().map(|f| f.field.as_str()).collect()
}

fn trans() -> Vec<Color> {
    vec![
        Color::new(0x55, 0xCD, 0xFC),
        Color::new(0x55, 0xCD, 0xFC),
        Color::new(0xF7, 0xA8, 0xB8),
        Color::new(0xFF, 0xFF, 0xFF),
        Color::new(0xF7, 0xA8, 0xB8),
        Color::new(0x55, 0xCD, 0xFC),
        Color::new(0x55, 0xCD, 0xFC),
    ]
}

#[test]
fn new_editor_selects_configured_logo_and_theme() {
    let e = Editor::new(config("fedora", "", trans(), vec![], vec![]), String::new(), logos(), String::new(), 15, 10, false);
    assert_eq!(e.ascii_selected, 2);
    assert!(matches!(&e.ascii_source, AsciiSource::Builtin(k) if k == "fedora"));
    assert_eq!(e.theme_selected, 1);
    assert_eq!(e.tab, Tab::Welcome);
    assert_eq!(e.app_layout, AppLayout::Centered);
    assert_eq!(e.preview_width, 0);
    assert!(e.dirty);
    assert_eq!(e.themes.len(), 27);
}

#[test]
fn new_editor_unknown_logo_and_palette_fall_back_to_first() {
    let e = Editor::new(config("nope", "", vec![Color::new(1, 2, 3)], vec![], vec![]), String::new(), logos(), String::new(), 100, 40, false);
    assert_eq!(e.ascii_selected, 0);
    assert_eq!(e.theme_selected, 0);
    assert_eq!(e.preview_width, 80);
}

#[test]
fn new_editor_file_and_disabled_sources() {
    let e = Editor::new(config("", "/tmp/logo.txt", vec![], vec![], vec![]), String::new(), logos(), String::new(), 100, 40, false);
    assert!(matches!(&e.ascii_source, AsciiSource::File(p) if p == "/tmp/logo.txt"));
    assert_eq!(e.ascii_selected, 4);
    let d = Editor::new(config("", "DISABLED", vec![], vec![], vec![]), String::new(), logos(), String::new(), 100, 40, false);
    assert!(matches!(d.ascii_source, AsciiSource::Disabled));
    assert_eq!(d.ascii_selected, 6);
}

#[test]
fn picker_offers_platform_fields_and_bars() {
    let e = editor(vec![], vec![]);
    assert_eq!(e.add_panel_available.len(), 22 + 6);
    assert_eq!(e.add_panel_available[0].0, "os");
    let last = &e.add_panel_available[27];
    assert_eq!((last.0.as_str(), last.2.as_str()), ("load_bar", "Load [bar]"));
    let first_bar = &e.add_panel_available[22];
    assert_eq!((first_bar.0.as_str(), first_bar.1.as_str(), first_bar.2.as_str()), ("cpu_bar", "\u{f2db}", "CPU [bar]"));
    let phone = Editor::new(config("debian", "", vec![], vec![], vec![]), String::new(), logos(), String::new(), 100, 40, true);
    assert_eq!(phone.add_panel_available.len(), 28 + 8);
    assert_eq!(phone.add_panel_available[0].0, "device");
    assert_eq!(phone.add_panel_available[28].0, "cpu_bar");
    assert_eq!(phone.add_panel_available[31].0, "cpu_temp_bar");
    assert_eq!(phone.add_panel_available[35].0, "storage_bar");
}

#[test]
fn tabs_cycle_forward_and_back() {
    let mut e = editor(vec![], vec![]);
    assert_eq!(key(&mut e, EditorKey::Enter), EditorAction::Continue);
    assert_eq!(e.tab, Tab::Theme);
    key(&mut e, EditorKey::Tab);
    assert_eq!(e.tab, Tab::Mode);
    key(&mut e, EditorKey::BackTab);
    key(&mut e, EditorKey::BackTab);
    key(&mut e, EditorKey::BackTab);
    assert_eq!(e.tab, Tab::Save);
    assert_eq!(key(&mut e, EditorKey::Char('s')), EditorAction::Quit);
    assert!(e.saved);
}

#[test]
fn quit_keys() {
    let mut e = editor(vec![], vec![]);
    assert_eq!(key(&mut e, EditorKey::Char('q')), EditorAction::Quit);
    assert_eq!(key(&mut e, EditorKey::Esc), EditorAction::Quit);
    assert!(!e.saved);
    assert_eq!(key(&mut e, EditorKey::Char('s')), EditorAction::Continue);
}

#[test]
fn theme_tab_changes_palette_and_direction() {
    let mut e = editor(vec![], vec![]);
    e.tab = Tab::Theme;
    key(&mut e, EditorKey::Down);
    assert_eq!(e.theme_selected, 1);
    assert_eq!(e.cfg.logo.colors, trans());
    key(&mut e, EditorKey::Up);
    key(&mut e, EditorKey::Up);
    assert_eq!(e.theme_selected, 0);
    assert_eq!(e.cfg.logo.colors[0], Color::new(0xFF, 0x66, 0x92));
    key(&mut e, EditorKey::Char('v'));
    assert_eq!(e.cfg.logo.color_dir, "vertical");
    key(&mut e, EditorKey::Char('v'));
    assert_eq!(e.cfg.logo.color_dir, "horizontal");
}

#[test]
fn custom_palette_input() {
    let mut e = editor(vec![], vec![]);
    e.tab = Tab::Theme;
    key(&mut e, EditorKey::Char('c'));
    assert_eq!(e.input_mode, EditMode::EditingCustomPalette);
    for c in "#ff0000 zz 00FF00x 0000ff".chars() {
        key(&mut e, EditorKey::Char(c));
    }
    key(&mut e, EditorKey::Backspace);
    key(&mut e, EditorKey::Char('f'));
    key(&mut e, EditorKey::Enter);
    assert_eq!(e.input_mode, EditMode::Normal);
    assert_eq!(e.cfg.logo.colors, vec![Color::new(255, 0, 0), Color::new(0, 0, 255)]);

    key(&mut e, EditorKey::Char('c'));
    assert_eq!(e.custom_palette_input, "");
    for c in "nothing".chars() {
        key(&mut e, EditorKey::Char(c));
    }
    key(&mut e, EditorKey::Enter);
    assert_eq!(e.cfg.logo.colors, vec![Color::new(255, 0, 0), Color::new(0, 0, 255)]);
}

#[test]
fn mode_tab_selects_display_mode_and_layout() {
    let mut e = editor(vec![], vec![]);
    e.tab = Tab::Mode;
    key(&mut e, EditorKey::Down);
    key(&mut e, EditorKey::Down);
    key(&mut e, EditorKey::Down);
    assert_eq!(e.mode_selected, 2);
    assert_eq!(e.display_mode, DisplayMode::Monitor);
    key(&mut e, EditorKey::Right);
    assert!(e.mode_focus);
    key(&mut e, EditorKey::Down);
    assert_eq!(e.layout_selected, 1);
    assert_eq!(e.app_layout, AppLayout::Compact);
    assert_eq!((e.cfg.panel.gap, e.cfg.panel.left_pad, e.cfg.panel.right_pad, e.cfg.panel.max_val_width), (1, 1, 1, 35));
    key(&mut e, EditorKey::Down);
    assert_eq!(e.app_layout, AppLayout::Wide);
    assert_eq!((e.cfg.panel.gap, e.cfg.panel.left_pad, e.cfg.panel.max_val_width), (4, 4, 999));
    assert_eq!(e.cfg.panel.max_shift, 4);
    key(&mut e, EditorKey::Left);
    assert!(!e.mode_focus);
}

#[test]
fn apply_layout_out_of_range_changes_nothing() {
    let mut e = editor(vec![], vec![]);
    e.dirty = false;
    e.apply_layout(7);
    assert_eq!(e.app_layout, AppLayout::Centered);
    assert_eq!(e.cfg.panel.gap, 2);
    assert!(!e.dirty);
    e.apply_layout(4);
    assert_eq!(e.app_layout, AppLayout::Balanced);
    assert_eq!((e.cfg.panel.gap, e.cfg.panel.left_pad), (3, 3));
}

#[test]
fn layout_tab_moves_through_scenes() {
    let mut e = editor(vec![], vec![]);
    e.tab = Tab::Layout;
    key(&mut e, EditorKey::Down);
    assert_eq!(e.scene, "terminal dashboard");
    key(&mut e, EditorKey::Down);
    key(&mut e, EditorKey::Down);
    key(&mut e, EditorKey::Down);
    assert_eq!(e.scene, "classicfetch");
    key(&mut e, EditorKey::Up);
    assert_eq!(e.scene, "cockpit");
    e.scene = "unknown".to_string();
    key(&mut e, EditorKey::Up);
    assert_eq!(e.scene, "classic");
}

#[test]
fn panels_tab_edits_fields() {
    let mut e = editor(vec![field("os", true), field("kernel", true), field("cpu", false)], vec![field("gpu", true)]);
    e.tab = Tab::Panels;
    key(&mut e, EditorKey::Down);
    key(&mut e, EditorKey::Char(' '));
    assert!(!e.cfg.display.left[1].enabled);
    key(&mut e, EditorKey::Char('r'));
    assert_eq!(keys(&e.cfg.display.left), vec!["kernel", "os", "cpu"]);
    assert_eq!(e.panel_left_sel, 0);
    key(&mut e, EditorKey::Char('r'));
    assert_eq!(keys(&e.cfg.display.left), vec!["kernel", "os", "cpu"]);

    // rename the first field
    key(&mut e, EditorKey::Char('e'));
    assert_eq!(e.input_mode, EditMode::EditingLabel);
    assert_eq!(e.editing_label_input, "KERNEL");
    key(&mut e, EditorKey::Backspace);
    key(&mut e, EditorKey::Char('!'));
    key(&mut e, EditorKey::Enter);
    assert_eq!(e.cfg.display.left[0].label, "KERNE!");

    // delete the last field; the selection is not moved
    key(&mut e, EditorKey::Down);
    key(&mut e, EditorKey::Down);
    key(&mut e, EditorKey::Down);
    assert_eq!(e.panel_left_sel, 2);
    key(&mut e, EditorKey::Char('d'));
    assert_eq!(keys(&e.cfg.display.left), vec!["kernel", "os"]);
    assert_eq!(e.panel_left_sel, 2);
    key(&mut e, EditorKey::Char('d'));
    assert_eq!(keys(&e.cfg.display.left), vec!["kernel", "os"]);

    // the right panel
    key(&mut e, EditorKey::Char('/'));
    assert!(e.panel_focus);
    key(&mut e, EditorKey::Char(' '));
    assert!(!e.cfg.display.right[0].enabled);
    key(&mut e, EditorKey::Left);
    assert!(!e.panel_focus);
}

#[test]
fn adding_a_field_skips_existing_keys() {
    let mut e = editor(vec![field("os", true)], vec![field("host", true)]);
    e.tab = Tab::Panels;
    key(&mut e, EditorKey::Char('a'));
    assert_eq!(e.input_mode, EditMode::AddingPanel);
    key(&mut e, EditorKey::Enter);
    assert_eq!(keys(&e.cfg.display.left), vec!["os"]);
    assert_eq!(e.input_mode, EditMode::Normal);
    key(&mut e, EditorKey::Char('a'));
    key(&mut e, EditorKey::Down);
    key(&mut e, EditorKey::Enter);
    assert_eq!(keys(&e.cfg.display.left), vec!["os"]);
    key(&mut e, EditorKey::Char('a'));
    key(&mut e, EditorKey::Down);
    key(&mut e, EditorKey::Down);
    key(&mut e, EditorKey::Enter);
    assert_eq!(keys(&e.cfg.display.left), vec!["os", "user"]);
    assert!(e.cfg.display.left[1].enabled);
    assert_eq!(e.cfg.display.left[1].label, "Usr");
    key(&mut e, EditorKey::Char('a'));
    key(&mut e, EditorKey::Up);
    assert_eq!(e.add_panel_sel, 0);
    key(&mut e, EditorKey::Esc);
    assert_eq!(e.input_mode, EditMode::Normal);
    assert_eq!(e.cfg.display.left.len(), 2);
}

#[test]
fn ascii_tab_moves_loads_and_disables() {
    let mut e = editor(vec![], vec![]);
    e.tab = Tab::Ascii;
    assert_eq!(e.ascii_selected, 1);
    assert_eq!(key(&mut e, EditorKey::Down), EditorAction::LoadArt);
    assert_eq!(e.ascii_selected, 2);
    assert_eq!(e.cfg.logo.key, "fedora");
    key(&mut e, EditorKey::Down);
    assert_eq!(key(&mut e, EditorKey::Down), EditorAction::Continue);
    assert_eq!(e.ascii_selected, 4);
    key(&mut e, EditorKey::Down);
    assert_eq!(e.ascii_selected, 5);
    key(&mut e, EditorKey::Down);
    assert_eq!(e.ascii_selected, 6);
    assert!(matches!(e.ascii_source, AsciiSource::Disabled));
    assert_eq!((e.cfg.logo.key.as_str(), e.cfg.logo.path.as_str(), e.ascii_art.as_str()), ("", "disabled", ""));
    key(&mut e, EditorKey::Down);
    assert_eq!(e.ascii_selected, 6);
    key(&mut e, EditorKey::Up);
    assert_eq!(e.ascii_selected, 5);
    assert_eq!(key(&mut e, EditorKey::Up), EditorAction::Continue);
    assert_eq!(key(&mut e, EditorKey::Up), EditorAction::LoadArt);
    assert_eq!(e.ascii_selected, 3);
    assert_eq!(key(&mut e, EditorKey::Up), EditorAction::LoadArt);
    assert_eq!(e.ascii_selected, 2);
    assert!(matches!(&e.ascii_source, AsciiSource::Builtin(k) if k == "fedora"));
    key(&mut e, EditorKey::Char('d'));
    assert_eq!(e.ascii_selected, 6);
    assert!(matches!(e.ascii_source, AsciiSource::Disabled));
}

#[test]
fn ascii_search_filters_logos() {
    let mut e = editor(vec![], vec![]);
    e.tab = Tab::Ascii;
    assert_eq!(e.ascii_selected, 1);
    assert_eq!(key(&mut e, EditorKey::Char('A')), EditorAction::Continue);
    assert_eq!(e.ascii_selected, 1);
    key(&mut e, EditorKey::Backspace);
    assert_eq!(key(&mut e, EditorKey::Char('h')), EditorAction::LoadArt);
    assert_eq!(e.ascii_search, "h");
    assert_eq!(e.ascii_selected, 0);
    assert_eq!(e.cfg.logo.key, "Arch");
    key(&mut e, EditorKey::Char('r'));
    assert_eq!(e.ascii_search, "h");
    assert_eq!(key(&mut e, EditorKey::Char('_')), EditorAction::LoadArt);
    assert_eq!(e.ascii_selected, 3);
    assert_eq!(e.cfg.logo.key, "arch_small");
    key(&mut e, EditorKey::Backspace);
    assert_eq!(e.ascii_search, "h");
    assert_eq!(e.ascii_selected, 3);
    key(&mut e, EditorKey::Up);
    assert_eq!(e.ascii_selected, 0);
    key(&mut e, EditorKey::Down);
    assert_eq!(e.ascii_selected, 3);
    key(&mut e, EditorKey::Down);
    assert_eq!(e.ascii_selected, 4);
    key(&mut e, EditorKey::Char('!'));
    assert_eq!(e.ascii_search, "h");
    key(&mut e, EditorKey::Esc);
    assert_eq!(e.ascii_search, "");
    assert_eq!(key(&mut e, EditorKey::Esc), EditorAction::Quit);
}

#[test]
fn search_with_no_match_selects_first_entry() {
    let mut e = editor(vec![], vec![]);
    e.tab = Tab::Ascii;
    key(&mut e, EditorKey::Char('z'));
    assert_eq!(e.ascii_selected, 0);
    assert_eq!(e.cfg.logo.key, "Arch");
}

#[test]
fn pasting_art() {
    let mut e = editor(vec![], vec![]);
    e.tab = Tab::Ascii;
    key(&mut e, EditorKey::Char('p'));
    assert_eq!(e.input_mode, EditMode::PastingAscii);
    key(&mut e, EditorKey::Enter);
    assert_eq!(e.ascii_art, "ART");
    key(&mut e, EditorKey::Char('p'));
    for c in "/\\_".chars() {
        key(&mut e, EditorKey::Char(c));
    }
    key(&mut e, EditorKey::Backspace);
    key(&mut e, EditorKey::Enter);
    assert_eq!(e.ascii_art, "/\\");
    assert!(matches!(e.ascii_source, AsciiSource::Pasted));
    assert_eq!(e.ascii_selected, 5);
    assert_eq!(e.paste_buffer, "");
    key(&mut e, EditorKey::Char('p'));
    key(&mut e, EditorKey::Char('x'));
    key(&mut e, EditorKey::Esc);
    assert_eq!(e.paste_buffer, "");
    assert_eq!(e.ascii_art, "/\\");
}

#[test]
fn file_browser_actions() {
    let mut e = editor(vec![], vec![]);
    e.tab = Tab::Ascii;
    assert_eq!(key(&mut e, EditorKey::Char('c')), EditorAction::RefreshBrowser);
    assert_eq!(e.input_mode, EditMode::BrowsingFile);
    e.show_entries(vec![("docs".to_string(), true), ("logo.txt".to_string(), false)]);
    assert_eq!(key(&mut e, EditorKey::Enter), EditorAction::BrowseInto(0));
    key(&mut e, EditorKey::Down);
    key(&mut e, EditorKey::Down);
    assert_eq!(e.file_browser_sel, 1);
    assert_eq!(key(&mut e, EditorKey::Enter), EditorAction::OpenFile(1));
    assert_eq!(key(&mut e, EditorKey::Char('~')), EditorAction::BrowseHome);
    assert_eq!(key(&mut e, EditorKey::Backspace), EditorAction::BrowseParent);
    e.use_file("/home/me/logo.txt".to_string());
    assert_eq!(e.input_mode, EditMode::Normal);
    assert_eq!(e.cfg.logo.path, "/home/me/logo.txt");
    assert_eq!(e.ascii_selected, 4);
    assert!(matches!(&e.ascii_source, AsciiSource::File(p) if p == "/home/me/logo.txt"));
    e.set_art("NEW".to_string());
    assert_eq!(e.ascii_art, "NEW");
    key(&mut e, EditorKey::Char('c'));
    e.show_entries(vec![]);
    assert_eq!(key(&mut e, EditorKey::Enter), EditorAction::Continue);
    key(&mut e, EditorKey::Esc);
    assert_eq!(e.input_mode, EditMode::Normal);
}

#[test]
fn any_key_closes_colour_input() {
    let mut e = editor(vec![], vec![]);
    e.input_mode = EditMode::EditingHexColor(3);
    key(&mut e, EditorKey::Char('x'));
    assert_eq!(e.input_mode, EditMode::Normal);
}

#[test]
fn resize_updates_preview_width() {
    let mut e = editor(vec![], vec![]);
    e.preview_done();
    assert!(!e.dirty);
    assert_eq!(e.handle_event(EditorEvent::Resize(70, 20)), EditorAction::Continue);
    assert_eq!((e.term_width, e.term_height, e.preview_width), (70, 20, 50));
    assert!(e.dirty);
    e.handle_event(EditorEvent::Resize(12, 5));
    assert_eq!(e.preview_width, 0);
    e.preview_done();
    e.handle_event(EditorEvent::Other);
    assert!(!e.dirty);
}

#[test]
fn search_helpers() {
    let lk = vec!["arch".to_string(), "debian".to_string(), "arch_small".to_string()];
    assert_eq!(find_first(&lk, "small"), 2);
    assert_eq!(find_first(&lk, "zzz"), 0);
    assert_eq!(step_up(&lk, "arch", 2), 0);
    assert_eq!(step_up(&lk, "", 2), 1);
    assert_eq!(step_up(&lk, "arch", 0), 0);
    assert_eq!(step_down(&lk, "arch", 0, 5), 2);
    assert_eq!(step_down(&lk, "deb", 1, 5), 3);
    assert_eq!(step_down(&lk, "x", 5, 5), 5);
    let mut s = "héllo".to_string();
    pop_char(&mut s);
    assert_eq!(s, "héll");
    let mut t = String::new();
    pop_char(&mut t);
    assert_eq!(t, "");
}

#[test]
fn browser_lists_directories_first_then_by_name() {
    let entries = vec![
        ("zeta".to_string(), false),
        ("b".to_string(), true),
        ("Alpha".to_string(), false),
        ("a".to_string(), true),
        ("é".to_string(), false),
        ("ab".to_string(), false),
        ("a".to_string(), false),
    ];
    let sorted = sort_entries(entries);
    let names: Vec<(&str, bool)> = sorted.iter().map(|(n, d)| (n.as_str(), *d)).collect();
    assert_eq!(
        names,
        vec![("a", true), ("b", true), ("Alpha", false), ("a", false), ("ab", false), ("zeta", false), ("é", false)]
    );
    assert!(sort_entries(vec![]).is_empty());
}

#[test]
fn escape_closes_every_input() {
    for mode in [
        EditMode::EditingCustomPalette,
        EditMode::EditingLabel,
        EditMode::AddingPanel,
        EditMode::EditingHexColor(0),
        EditMode::PastingAscii,
        EditMode::BrowsingFile,
    ] {
        let mut e = editor(vec![field("os", true)], vec![]);
        e.input_mode = mode;
        assert_eq!(key(&mut e, EditorKey::Esc), EditorAction::Continue);
        assert_eq!(e.input_mode, EditMode::Normal);
        assert_eq!(keys(&e.cfg.display.left), vec!["os"]);
        assert_eq!(e.ascii_art, "ART");
    }
}

#[test]
fn palette_input_panics_on_cut_words() {
    assert!(!palette_input_panics("#ff0000 zz 00ff00"));
    assert!(palette_input_panics("#ff0000 ab€1"));
    assert!(!palette_input_panics("#ff0000 é1234"));
    assert!(!palette_input_panics(""));
}

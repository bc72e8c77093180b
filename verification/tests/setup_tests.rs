use atlasfetch::config::{Config, DisplayConfig, FieldDef, LogoConfig, PanelConfig, SeparatorConfig, TitleConfig};
use atlasfetch::setup::{help_text, panel_item_text, picker_item_text, step_title, InputMode, Key, PanelFocus, Wizard, WizardAction};
use atlasfetch::wizard::Step;

fn field(key: &str, enabled: bool) -> FieldDef {
    FieldDef { field: key.to_string(), icon: "i".to_string(), label: key.to_uppercase(), enabled }
}

fn config(left: Vec<FieldDef>, right: Vec<FieldDef>) -> Config {
    Config {
        logo: LogoConfig { key: "arch".to_string(), path: String::new(), colors: vec![], color_dir: String::new() },
        title: TitleConfig { format: "{user}@{host}".to_string(), color: "#FF9A98".to_string() },
        separator: SeparatorConfig { char: "-".to_string(), length: 5, color: "#9D85FF".to_string() },
        panel: PanelConfig {
            left_pad: 3,
            right_pad: 3,
            gap: 2,
            max_shift: 4,
            max_val_width: 40,
            sep_color: "#9D85FF".to_string(),
            val_color: "#F5DCE3".to_string(),
        },
        display: DisplayConfig { left, right },
    }
}

fn keys(fields: &[FieldDef]) -> Vec<&str> {
    fields.iter().map(|f| f.field.as_str()).collect()
}

#[test]
fn walk_through_all_steps_and_save() {
    let mut w = Wizard::new(config(vec![field("os", true), field("kernel", true)], vec![]));
    assert_eq!(w.handle_key(Key::Char('x')), WizardAction::Continue);
    assert_eq!(w.step, Step::Welcome);
    w.handle_key(Key::Char(' '));
    assert_eq!(w.step, Step::Layout);

    w.handle_key(Key::Char('j'));
    assert_eq!(w.layout_sel, 1);
    assert_eq!((w.cfg.panel.gap, w.cfg.panel.left_pad, w.cfg.panel.right_pad, w.cfg.panel.max_val_width), (1, 1, 1, 999));
    assert_eq!(w.cfg.panel.max_shift, 4);
    w.handle_key(Key::Down);
    assert_eq!(w.layout_sel, 1);
    w.handle_key(Key::Char('p'));
    assert!(w.show_preview);
    w.handle_key(Key::Char('p'));
    assert!(!w.show_preview);
    w.handle_key(Key::Enter);
    assert_eq!(w.step, Step::Panels);

    // toggle, move down, move up the second field
    w.handle_key(Key::Char('x'));
    assert!(!w.cfg.display.left[0].enabled);
    w.handle_key(Key::Down);
    assert_eq!(w.left_sel, 1);
    w.handle_key(Key::Down);
    assert_eq!(w.left_sel, 1);
    w.handle_key(Key::Char('r'));
    assert_eq!(keys(&w.cfg.display.left), vec!["kernel", "os"]);
    assert_eq!(w.left_sel, 0);

    // add a field from the picker
    w.handle_key(Key::Char('a'));
    assert_eq!(w.input, InputMode::AddingPanel);
    assert_eq!(w.add_available.len(), 27);
    assert_eq!(w.add_available[0].0, "device");
    w.handle_key(Key::Char('j'));
    w.handle_key(Key::Enter);
    assert_eq!(w.input, InputMode::Normal);
    assert_eq!(keys(&w.cfg.display.left), vec!["kernel", "os", "rom"]);
    assert!(w.cfg.display.left[2].enabled);

    // delete the last field: the selection stays in the list
    w.handle_key(Key::Down);
    w.handle_key(Key::Down);
    assert_eq!(w.left_sel, 2);
    w.handle_key(Key::Char('d'));
    assert_eq!(keys(&w.cfg.display.left), vec!["kernel", "os"]);
    assert_eq!(w.left_sel, 1);

    w.handle_key(Key::Char('l'));
    assert_eq!(w.step, Step::Summary);
    assert_eq!(w.handle_key(Key::Char('s')), WizardAction::Save);
    assert!(!w.saved && !w.quit);
    w.mark_saved();
    assert!(w.saved && w.quit);
}

#[test]
fn right_panel_and_picker_cancel() {
    let mut w = Wizard::new(config(vec![], vec![field("device", true)]));
    w.step = Step::Panels;
    w.handle_key(Key::Char(']'));
    assert_eq!(w.focus, PanelFocus::Right);
    w.handle_key(Key::Char('a'));
    assert_eq!(w.add_side, PanelFocus::Right);
    assert_eq!(w.add_available.len(), 28);
    w.handle_key(Key::Up);
    assert_eq!(w.add_selected, 0);
    w.handle_key(Key::Esc);
    assert_eq!(w.input, InputMode::Normal);
    assert_eq!(keys(&w.cfg.display.right), vec!["device"]);
    w.handle_key(Key::Char('d'));
    assert!(w.cfg.display.right.is_empty());
    assert_eq!(w.right_sel, 0);
    w.handle_key(Key::Char('r'));
    w.handle_key(Key::Char('x'));
    assert!(w.cfg.display.right.is_empty());
}

#[test]
fn quitting_from_each_step() {
    for (step, key) in [(Step::Welcome, Key::Char('q')), (Step::Layout, Key::Esc), (Step::Panels, Key::Backspace), (Step::Summary, Key::Char('q'))] {
        let mut w = Wizard::new(config(vec![], vec![]));
        w.step = step;
        assert_eq!(w.handle_key(key), WizardAction::Continue);
        assert!(w.quit);
        assert!(!w.saved);
    }
}

#[test]
fn going_back() {
    let mut w = Wizard::new(config(vec![], vec![]));
    w.step = Step::Summary;
    w.handle_key(Key::Left);
    assert_eq!(w.step, Step::Panels);
    w.handle_key(Key::Char('h'));
    assert_eq!(w.step, Step::Layout);
    w.handle_key(Key::Left);
    assert_eq!(w.step, Step::Welcome);
    w.handle_key(Key::Left);
    assert_eq!(w.step, Step::Welcome);
}

#[test]
fn wizard_texts() {
    assert_eq!(
        step_title(Step::Layout),
        " AtlasFetch Mobile Setup \u{2014}   Welcome   \u{2192}  >Layout<  \u{2192}   Panels   \u{2192}   Save  "
    );
    assert_eq!(help_text(Step::Summary), " [s/Enter] Save  [p] Preview  [q] Quit");
    assert_eq!(panel_item_text(&field("os", true)), " [\u{2713}] os (i)  OS");
    assert_eq!(panel_item_text(&field("os", false)), " [ ] os (i)  OS");
    assert_eq!(picker_item_text(("rom", "R", "ROM")), " R (rom) ROM");
}

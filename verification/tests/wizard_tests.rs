use atlasfetch::config::{Config, DisplayConfig, FieldDef, LogoConfig, PanelConfig, SeparatorConfig, TitleConfig};
use atlasfetch::layout::AppLayout;
use atlasfetch::wizard::{
    add_field, addable_fields, apply_mobile_layout, apply_pc_layout, enabled_count, mobile_field_catalog, move_field_up,
    remove_field, select_down, select_up, toggle_field, DisplayMode, Step, Tab,
};

fn field(key: &str, enabled: bool) -> FieldDef {
    FieldDef { field: key.to_string(), icon: "i".to_string(), label: key.to_uppercase(), enabled }
}

fn keys(fields: &[FieldDef]) -> Vec<String> {
    fields.iter().map(|f| f.field.clone()).collect()
}

fn panel() -> PanelConfig {
    PanelConfig {
        left_pad: 7,
        right_pad: 7,
        gap: 7,
        max_shift: 5,
        max_val_width: 7,
        sep_color: "#000000".to_string(),
        val_color: "#FFFFFF".to_string(),
    }
}

#[test]
fn tabs_cycle_both_ways() {
    let all = Tab::all();
    assert_eq!(all[0], Tab::Welcome);
    assert_eq!(all[6], Tab::Save);
    assert_eq!(Tab::Save.next(), Tab::Welcome);
    assert_eq!(Tab::Welcome.prev(), Tab::Save);
    for t in all {
        assert_eq!(t.next().prev(), t);
        assert_eq!(t.prev().next(), t);
        let mut u = t;
        for _ in 0..7 {
            u = u.next();
        }
        assert_eq!(u, t);
    }
    assert_eq!(Tab::Ascii.label(), " ASCII ");
}

#[test]
fn display_modes() {
    assert_eq!(DisplayMode::all(), &[DisplayMode::Desktop, DisplayMode::Companion, DisplayMode::Monitor]);
    assert_eq!(DisplayMode::Monitor.name(), "Monitor");
    assert_eq!(DisplayMode::Companion.desc(), "Compact, minimal info always visible");
}

#[test]
fn wizard_steps_do_not_wrap() {
    assert_eq!(Step::Welcome.prev(), None);
    assert_eq!(Step::Summary.next(), None);
    assert_eq!(Step::Welcome.next(), Some(Step::Layout));
    assert_eq!(Step::Summary.prev(), Some(Step::Panels));
    for (i, s) in Step::all().iter().enumerate() {
        assert_eq!(s.index(), i);
        if let Some(n) = s.next() {
            assert_eq!(n.prev(), Some(*s));
        }
    }
}

#[test]
fn catalog_has_all_phone_fields() {
    let c = mobile_field_catalog();
    assert_eq!(c.len(), 29);
    assert_eq!(c[0], ("device", "\u{f109}", "Device"));
    assert_eq!(c[28], ("shell", "\u{f489}", "Sh"));
}

#[test]
fn addable_skips_present_fields() {
    let c = mobile_field_catalog();
    let present = vec![field("os", true), field("device", false)];
    let a = addable_fields(&c, &present);
    assert_eq!(a.len(), 27);
    assert_eq!(a[0].0, "rom");
    assert!(a.iter().all(|e| e.0 != "os" && e.0 != "device"));
}

#[test]
fn add_toggle_remove_move() {
    let mut v = vec![field("a", true), field("b", true)];
    add_field(&mut v, ("c", "x", "C"));
    assert_eq!(keys(&v), vec!["a", "b", "c"]);
    assert!(v[2].enabled);
    assert_eq!(v[2].label, "C");

    toggle_field(&mut v, 1);
    assert!(!v[1].enabled);
    toggle_field(&mut v, 1);
    assert!(v[1].enabled);
    toggle_field(&mut v, 9);
    assert_eq!(keys(&v), vec!["a", "b", "c"]);

    assert_eq!(move_field_up(&mut v, 2), 1);
    assert_eq!(keys(&v), vec!["a", "c", "b"]);
    assert_eq!(move_field_up(&mut v, 0), 0);
    assert_eq!(keys(&v), vec!["a", "c", "b"]);

    assert_eq!(remove_field(&mut v, 2), 1);
    assert_eq!(keys(&v), vec!["a", "c"]);
    assert_eq!(remove_field(&mut v, 0), 0);
    assert_eq!(keys(&v), vec!["c"]);
    assert_eq!(remove_field(&mut v, 5), 5);
    assert_eq!(remove_field(&mut v, 0), 0);
    assert!(v.is_empty());
}

#[test]
fn selection_moves_within_bounds() {
    assert_eq!(select_down(0, 3), 1);
    assert_eq!(select_down(2, 3), 2);
    assert_eq!(select_down(0, 0), 0);
    assert_eq!(select_up(2), 1);
    assert_eq!(select_up(0), 0);
}

#[test]
fn phone_layouts_set_spacing() {
    let mut p = panel();
    apply_mobile_layout(&mut p, 1);
    assert_eq!((p.gap, p.left_pad, p.right_pad, p.max_val_width), (1, 1, 1, 999));
    assert_eq!(p.max_shift, 5);
    let mut q = panel();
    apply_mobile_layout(&mut q, 2);
    assert_eq!((q.gap, q.left_pad, q.max_val_width), (7, 7, 7));
}

#[test]
fn desktop_layouts_set_spacing() {
    let mut p = panel();
    assert_eq!(apply_pc_layout(&mut p, 1), Some(AppLayout::Compact));
    assert_eq!((p.gap, p.left_pad, p.right_pad, p.max_val_width), (1, 1, 1, 35));
    assert_eq!(apply_pc_layout(&mut p, 2), Some(AppLayout::Wide));
    assert_eq!((p.gap, p.left_pad, p.right_pad, p.max_val_width), (4, 4, 4, 999));
    let mut q = panel();
    assert_eq!(apply_pc_layout(&mut q, 5), None);
    assert_eq!((q.gap, q.left_pad, q.max_val_width), (7, 7, 7));
}

#[test]
fn counts_enabled_fields_on_both_sides() {
    let cfg = Config {
        logo: LogoConfig { key: String::new(), path: String::new(), colors: vec![], color_dir: String::new() },
        title: TitleConfig { format: String::new(), color: String::new() },
        separator: SeparatorConfig { char: "-".to_string(), length: 1, color: String::new() },
        panel: panel(),
        display: DisplayConfig {
            left: vec![field("a", true), field("b", false)],
            right: vec![field("c", true), field("d", true)],
        },
    };
    assert_eq!(enabled_count(&cfg), 3);
}

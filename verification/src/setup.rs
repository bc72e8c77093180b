//! Key handling of the phone setup wizard: from a state and a key press to
//! the next state and what the caller has to do.
use vstd::prelude::*;
use crate::config::{Config, FieldDef};
use crate::text::{push_str, to_string};
use crate::widget::sat_sub;
use crate::wizard::{
    add_field, addable, addable_fields, apply_mobile_layout, entries_view, field_keys, mobile_catalog,
    mobile_field_catalog, move_field_up, remove_field, step_order, step_pos, toggle_field, FieldEntry, Step,
};

verus! {

/// The panel list being edited.
#[derive(Debug, Clone, Copy, PartialEq, Eq, Structural)]
pub enum PanelFocus {
    Left,
    Right,
}

/// Whether the wizard reads keys for its steps or for the field picker.
#[derive(Debug, Clone, Copy, PartialEq, Eq, Structural)]
pub enum InputMode {
    Normal,
    AddingPanel,
}

/// A key press.
#[derive(Debug, Clone, Copy, PartialEq, Eq, Structural)]
pub enum Key {
    Up,
    Down,
    Left,
    Right,
    Enter,
    Esc,
    Backspace,
    Char(char),
    Other,
}

/// What the caller does after a key press.
#[derive(Debug, Clone, Copy, PartialEq, Eq, Structural)]
pub enum WizardAction {
    /// Draw the next frame.
    Continue,
    /// Save the configuration, then call `mark_saved`.
    Save,
}

/// The state of the setup wizard.
pub struct Wizard {
    pub cfg: Config,
    pub step: Step,
    pub quit: bool,
    pub show_preview: bool,
    /// Selected entry of the layout list.
    pub layout_sel: usize,
    /// Selected field of the left panel list.
    pub left_sel: usize,
    /// Selected field of the right panel list.
    pub right_sel: usize,
    pub focus: PanelFocus,
    pub input: InputMode,
    /// Catalogue entries offered by the field picker.
    pub add_available: Vec<FieldEntry>,
    pub add_selected: usize,
    /// The list the picker adds to.
    pub add_side: PanelFocus,
    pub saved: bool,
}

/// View of a field definition: key, icon, label, enabled.
pub type FieldView = (Seq<char>, Seq<char>, Seq<char>, bool);

/// View of a field definition.
pub open spec fn field_view(f: FieldDef) -> FieldView {
    (f.field@, f.icon@, f.label@, f.enabled)
}

/// Views of field definitions.
pub open spec fn fields_view(s: Seq<FieldDef>) -> Seq<FieldView> {
    s.map_values(|f: FieldDef| field_view(f))
}

/// The wizard as the key handler sees it.
#[verifier::ext_equal]
pub struct WizardModel {
    pub step: Step,
    pub quit: bool,
    pub show_preview: bool,
    pub layout_sel: nat,
    pub left: Seq<FieldView>,
    pub right: Seq<FieldView>,
    pub left_sel: nat,
    pub right_sel: nat,
    pub focus: PanelFocus,
    pub input: InputMode,
    pub add_available: Seq<(Seq<char>, Seq<char>, Seq<char>)>,
    pub add_selected: nat,
    pub add_side: PanelFocus,
    pub saved: bool,
    /// Gap, left padding, right padding and value width of the panels.
    pub spacing: (usize, usize, usize, usize),
}

impl View for Wizard {
    type V = WizardModel;

    open spec fn view(&self) -> WizardModel {
        WizardModel {
            step: self.step,
            quit: self.quit,
            show_preview: self.show_preview,
            layout_sel: self.layout_sel as nat,
            left: fields_view(self.cfg.display.left@),
            right: fields_view(self.cfg.display.right@),
            left_sel: self.left_sel as nat,
            right_sel: self.right_sel as nat,
            focus: self.focus,
            input: self.input,
            add_available: entries_view(self.add_available@),
            add_selected: self.add_selected as nat,
            add_side: self.add_side,
            saved: self.saved,
            spacing: (self.cfg.panel.gap, self.cfg.panel.left_pad, self.cfg.panel.right_pad, self.cfg.panel.max_val_width),
        }
    }
}

/// Every selection points into its list: a panel selection is 0 or a
/// field of its panel, the layout selection one of the two phone layouts,
/// and the picker's selection one of its entries while it is open.
pub open spec fn wizard_wf(m: WizardModel) -> bool {
    &&& m.left_sel == 0 || m.left_sel < m.left.len()
    &&& m.right_sel == 0 || m.right_sel < m.right.len()
    &&& m.layout_sel < 2
    &&& m.input == InputMode::AddingPanel ==> m.add_selected < m.add_available.len()
}

/// The configuration parts that the wizard never changes are unchanged.
pub open spec fn rest_same(a: Config, b: Config) -> bool {
    &&& b.logo == a.logo
    &&& b.title == a.title
    &&& b.separator == a.separator
    &&& b.panel.max_shift == a.panel.max_shift
    &&& b.panel.sep_color == a.panel.sep_color
    &&& b.panel.val_color == a.panel.val_color
}

/// Panel spacing of both phone layouts.
pub open spec fn phone_spacing() -> (usize, usize, usize, usize) {
    (1, 1, 1, 999)
}

/// Keys that quit a step.
pub open spec fn is_quit(k: Key) -> bool {
    k == Key::Char('q') || k == Key::Backspace || k == Key::Esc
}

/// Keys that move up a list.
pub open spec fn is_up(k: Key) -> bool {
    k == Key::Up || k == Key::Char('k')
}

/// Keys that move down a list.
pub open spec fn is_down(k: Key) -> bool {
    k == Key::Down || k == Key::Char('j')
}

/// Keys that go to the next step (after the welcome screen).
pub open spec fn is_forward(k: Key) -> bool {
    k == Key::Right || k == Key::Char('l') || k == Key::Enter
}

/// Keys that go back a step.
pub open spec fn is_back(k: Key) -> bool {
    k == Key::Left || k == Key::Char('h')
}

/// The other panel.
pub open spec fn other(f: PanelFocus) -> PanelFocus {
    match f {
        PanelFocus::Left => PanelFocus::Right,
        PanelFocus::Right => PanelFocus::Left,
    }
}

/// The fields of panel `f`.
pub open spec fn side(m: WizardModel, f: PanelFocus) -> Seq<FieldView> {
    match f {
        PanelFocus::Left => m.left,
        PanelFocus::Right => m.right,
    }
}

/// The selection of panel `f`.
pub open spec fn sel(m: WizardModel, f: PanelFocus) -> nat {
    match f {
        PanelFocus::Left => m.left_sel,
        PanelFocus::Right => m.right_sel,
    }
}

/// `m` with the fields of panel `f` replaced by `s`.
pub open spec fn with_side(m: WizardModel, f: PanelFocus, s: Seq<FieldView>) -> WizardModel {
    match f {
        PanelFocus::Left => WizardModel { left: s, ..m },
        PanelFocus::Right => WizardModel { right: s, ..m },
    }
}

/// `m` with the selection of panel `f` replaced by `i`.
pub open spec fn with_sel(m: WizardModel, f: PanelFocus, i: nat) -> WizardModel {
    match f {
        PanelFocus::Left => WizardModel { left_sel: i, ..m },
        PanelFocus::Right => WizardModel { right_sel: i, ..m },
    }
}

/// A field with its enabled flag flipped.
pub open spec fn toggled(v: FieldView) -> FieldView {
    (v.0, v.1, v.2, !v.3)
}

/// A key in the field picker: move, add the selected entry to its panel
/// (enabled) and close, or close.
pub open spec fn adding_next(m: WizardModel, k: Key) -> WizardModel {
    if is_up(k) {
        WizardModel { add_selected: if m.add_selected > 0 { (m.add_selected - 1) as nat } else { 0 }, ..m }
    } else if is_down(k) {
        WizardModel {
            add_selected: if m.add_selected + 1 < m.add_available.len() { m.add_selected + 1 } else { m.add_selected },
            ..m
        }
    } else if k == Key::Enter {
        let m2 = if m.add_selected < m.add_available.len() {
            let e = m.add_available[m.add_selected as int];
            with_side(m, m.add_side, side(m, m.add_side).push((e.0, e.1, e.2, true)))
        } else {
            m
        };
        WizardModel { input: InputMode::Normal, ..m2 }
    } else if is_quit(k) {
        WizardModel { input: InputMode::Normal, ..m }
    } else {
        m
    }
}

/// A key on the welcome screen: start or quit.
pub open spec fn welcome_next(m: WizardModel, k: Key) -> WizardModel {
    if k == Key::Enter || k == Key::Right || k == Key::Char('l') || k == Key::Char(' ') {
        WizardModel { step: Step::Layout, ..m }
    } else if is_quit(k) {
        WizardModel { quit: true, ..m }
    } else {
        m
    }
}

/// A key on the layout step: pick a layout (which sets the spacing),
/// move between steps, toggle the preview, quit.
pub open spec fn layout_next(m: WizardModel, k: Key) -> WizardModel {
    if is_down(k) {
        if m.layout_sel + 1 < 2 {
            WizardModel { layout_sel: m.layout_sel + 1, spacing: phone_spacing(), ..m }
        } else {
            m
        }
    } else if is_up(k) {
        if m.layout_sel > 0 {
            WizardModel { layout_sel: (m.layout_sel - 1) as nat, spacing: phone_spacing(), ..m }
        } else {
            m
        }
    } else if is_forward(k) {
        WizardModel { step: Step::Panels, ..m }
    } else if is_back(k) {
        WizardModel { step: Step::Welcome, ..m }
    } else if k == Key::Char('p') {
        WizardModel { show_preview: !m.show_preview, ..m }
    } else if is_quit(k) {
        WizardModel { quit: true, ..m }
    } else {
        m
    }
}

/// Keys that act on the focused panel list.
pub open spec fn is_list_key(k: Key) -> bool {
    is_down(k) || is_up(k) || k == Key::Char('x') || k == Key::Char(' ') || k == Key::Char('d') || k == Key::Char('r')
}

/// A key on a panel list `s` with selection `i`: move the selection,
/// toggle the selected field, delete it (the selection stays in the
/// list), or move it up one place (the selection follows it).
pub open spec fn list_next(s: Seq<FieldView>, i: nat, k: Key) -> (Seq<FieldView>, nat) {
    if is_down(k) {
        if i + 1 < s.len() { (s, i + 1) } else { (s, i) }
    } else if is_up(k) {
        if i > 0 { (s, (i - 1) as nat) } else { (s, i) }
    } else if k == Key::Char('x') || k == Key::Char(' ') {
        if i < s.len() { (s.update(i as int, toggled(s[i as int])), i) } else { (s, i) }
    } else if k == Key::Char('d') {
        if i < s.len() {
            let s2 = s.remove(i as int);
            (s2, if i < s2.len() { i } else { sat_sub(s2.len() as int, 1) as nat })
        } else {
            (s, i)
        }
    } else if k == Key::Char('r') {
        if i > 0 { (s.update(i - 1, s[i as int]).update(i as int, s[i - 1]), (i - 1) as nat) } else { (s, i) }
    } else {
        (s, i)
    }
}

/// A key on the panel step: switch panel, act on the focused list, open
/// the picker with the catalogue fields the focused panel lacks; or move
/// between steps, toggle the preview, quit.
pub open spec fn panels_next(m: WizardModel, k: Key) -> WizardModel {
    let f = m.focus;
    if k == Key::Char('[') || k == Key::Char(']') {
        WizardModel { focus: other(f), ..m }
    } else if is_list_key(k) {
        let (s2, i2) = list_next(side(m, f), sel(m, f), k);
        with_sel(with_side(m, f, s2), f, i2)
    } else if k == Key::Char('a') {
        let avail = addable(mobile_catalog(), side(m, f).map_values(|v: FieldView| v.0));
        if avail.len() > 0 {
            WizardModel { add_available: avail, add_selected: 0, add_side: f, input: InputMode::AddingPanel, ..m }
        } else {
            WizardModel { add_available: avail, ..m }
        }
    } else if is_forward(k) {
        WizardModel { step: Step::Summary, ..m }
    } else if is_back(k) {
        WizardModel { step: Step::Layout, ..m }
    } else if k == Key::Char('p') {
        WizardModel { show_preview: !m.show_preview, ..m }
    } else if is_quit(k) {
        WizardModel { quit: true, ..m }
    } else {
        m
    }
}

/// A key on the summary: ask for the save, go back, toggle the preview,
/// quit.
pub open spec fn summary_next(m: WizardModel, k: Key) -> (WizardModel, WizardAction) {
    if k == Key::Char('s') || k == Key::Enter {
        (m, WizardAction::Save)
    } else if is_back(k) {
        (WizardModel { step: Step::Panels, ..m }, WizardAction::Continue)
    } else if k == Key::Char('p') {
        (WizardModel { show_preview: !m.show_preview, ..m }, WizardAction::Continue)
    } else if is_quit(k) {
        (WizardModel { quit: true, ..m }, WizardAction::Continue)
    } else {
        (m, WizardAction::Continue)
    }
}

/// The wizard's reaction to a key: the picker takes the key while it is
/// open, the current step otherwise.
pub open spec fn wizard_next(m: WizardModel, k: Key) -> (WizardModel, WizardAction) {
    if m.input == InputMode::AddingPanel {
        (adding_next(m, k), WizardAction::Continue)
    } else {
        match m.step {
            Step::Welcome => (welcome_next(m, k), WizardAction::Continue),
            Step::Layout => (layout_next(m, k), WizardAction::Continue),
            Step::Panels => (panels_next(m, k), WizardAction::Continue),
            Step::Summary => summary_next(m, k),
        }
    }
}

/// Views of fields after removing one are the views with that one removed.
pub(crate) proof fn lemma_fields_view_remove(s: Seq<FieldDef>, i: int)
    requires
        0 <= i < s.len(),
    ensures
        fields_view(s.remove(i)) == fields_view(s).remove(i),
{
    assert(fields_view(s.remove(i)) =~= fields_view(s).remove(i));
}

/// A key on one panel list and its selection.
fn list_key(fields: &mut Vec<FieldDef>, sel: &mut usize, k: Key)
    requires
        *old(sel) == 0 || *old(sel) < old(fields)@.len(),
    ensures
        fields_view(final(fields)@) == list_next(fields_view(old(fields)@), *old(sel) as nat, k).0,
        *final(sel) as nat == list_next(fields_view(old(fields)@), *old(sel) as nat, k).1,
        *final(sel) == 0 || *final(sel) < final(fields)@.len(),
{
    let i = *sel;
    let ghost s = fields_view(old(fields)@);
    match k {
        Key::Down | Key::Char('j') => {
            if i < fields.len() && i + 1 < fields.len() {
                *sel = i + 1;
            }
        },
        Key::Up | Key::Char('k') => {
            if i > 0 {
                *sel = i - 1;
            }
        },
        Key::Char('x') | Key::Char(' ') => {
            toggle_field(fields, i);
            proof {
                if i < s.len() {
                    assert(fields_view(final(fields)@) =~= s.update(i as int, toggled(s[i as int])));
                } else {
                    assert(fields_view(final(fields)@) =~= s);
                }
            }
        },
        Key::Char('d') => {
            if i < fields.len() {
                let ns = remove_field(fields, i);
                *sel = ns;
                proof {
                    lemma_fields_view_remove(old(fields)@, i as int);
                }
            }
        },
        Key::Char('r') => {
            if i > 0 {
                let ns = move_field_up(fields, i);
                *sel = ns;
                proof {
                    assert(fields_view(final(fields)@) =~= s.update(i - 1, s[i as int]).update(i as int, s[i - 1]));
                }
            }
        },
        _ => {},
    }
}

impl Wizard {
    /// A wizard on `cfg` at the welcome screen: first layout and first
    /// fields selected, left panel focused, picker closed and empty,
    /// nothing saved.
    pub fn new(cfg: Config) -> (w: Wizard)
        ensures
            w.cfg == cfg,
            w.step == Step::Welcome,
            !w.quit,
            !w.show_preview,
            w.layout_sel == 0,
            w.left_sel == 0,
            w.right_sel == 0,
            w.focus == PanelFocus::Left,
            w.input == InputMode::Normal,
            w.add_available@ == Seq::<FieldEntry>::empty(),
            w.add_selected == 0,
            w.add_side == PanelFocus::Left,
            !w.saved,
            wizard_wf(w@),
    {
        Wizard {
            cfg,
            step: Step::Welcome,
            quit: false,
            show_preview: false,
            layout_sel: 0,
            left_sel: 0,
            right_sel: 0,
            focus: PanelFocus::Left,
            input: InputMode::Normal,
            add_available: Vec::new(),
            add_selected: 0,
            add_side: PanelFocus::Left,
            saved: false,
        }
    }

    /// Records a successful save: the wizard is saved and quits.
    pub fn mark_saved(&mut self)
        ensures
            final(self)@ == (WizardModel { saved: true, quit: true, ..old(self)@ }),
            final(self).cfg == old(self).cfg,
    {
        self.saved = true;
        self.quit = true;
    }

    fn adding_key(&mut self, k: Key)
        requires
            wizard_wf(old(self)@),
            old(self).input == InputMode::AddingPanel,
        ensures
            final(self)@ =~= adding_next(old(self)@, k),
            wizard_wf(final(self)@),
            rest_same(old(self).cfg, final(self).cfg),
    {
        match k {
            Key::Up | Key::Char('k') => {
                if self.add_selected > 0 {
                    self.add_selected = self.add_selected - 1;
                }
            },
            Key::Down | Key::Char('j') => {
                if self.add_selected < self.add_available.len() && self.add_selected + 1 < self.add_available.len() {
                    self.add_selected = self.add_selected + 1;
                }
            },
            Key::Enter => {
                if self.add_selected < self.add_available.len() {
                    let e = self.add_available[self.add_selected];
                    proof {
                        assert(entries_view(self.add_available@)[self.add_selected as int] == (e.0@, e.1@, e.2@));
                    }
                    match self.add_side {
                        PanelFocus::Left => {
                            let ghost before = self.cfg.display.left@;
                            add_field(&mut self.cfg.display.left, e);
                            proof {
                                assert(self.cfg.display.left@ =~= before.push(self.cfg.display.left@.last()));
                                assert(fields_view(self.cfg.display.left@) =~= fields_view(before).push((e.0@, e.1@, e.2@, true)));
                            }
                        },
                        PanelFocus::Right => {
                            let ghost before = self.cfg.display.right@;
                            add_field(&mut self.cfg.display.right, e);
                            proof {
                                assert(self.cfg.display.right@ =~= before.push(self.cfg.display.right@.last()));
                                assert(fields_view(self.cfg.display.right@) =~= fields_view(before).push((e.0@, e.1@, e.2@, true)));
                            }
                        },
                    }
                }
                self.input = InputMode::Normal;
            },
            Key::Esc | Key::Char('q') | Key::Backspace => {
                self.input = InputMode::Normal;
            },
            _ => {},
        }
    }

    fn welcome_key(&mut self, k: Key)
        requires
            wizard_wf(old(self)@),
        ensures
            final(self)@ =~= welcome_next(old(self)@, k),
            final(self).cfg == old(self).cfg,
    {
        match k {
            Key::Enter | Key::Right | Key::Char('l') | Key::Char(' ') => {
                self.step = Step::Layout;
            },
            Key::Char('q') | Key::Backspace | Key::Esc => {
                self.quit = true;
            },
            _ => {},
        }
    }

    fn layout_key(&mut self, k: Key)
        requires
            wizard_wf(old(self)@),
        ensures
            final(self)@ =~= layout_next(old(self)@, k),
            rest_same(old(self).cfg, final(self).cfg),
            final(self).cfg.display == old(self).cfg.display,
    {
        match k {
            Key::Down | Key::Char('j') => {
                if self.layout_sel + 1 < 2 {
                    self.layout_sel = self.layout_sel + 1;
                    apply_mobile_layout(&mut self.cfg.panel, self.layout_sel);
                }
            },
            Key::Up | Key::Char('k') => {
                if self.layout_sel > 0 {
                    self.layout_sel = self.layout_sel - 1;
                    apply_mobile_layout(&mut self.cfg.panel, self.layout_sel);
                }
            },
            Key::Right | Key::Char('l') | Key::Enter => {
                self.step = Step::Panels;
            },
            Key::Left | Key::Char('h') => {
                self.step = Step::Welcome;
            },
            Key::Char('p') => {
                self.show_preview = !self.show_preview;
            },
            Key::Char('q') | Key::Backspace | Key::Esc => {
                self.quit = true;
            },
            _ => {},
        }
    }

    fn panels_key(&mut self, k: Key)
        requires
            wizard_wf(old(self)@),
            old(self).input == InputMode::Normal,
        ensures
            final(self)@ =~= panels_next(old(self)@, k),
            wizard_wf(final(self)@),
            rest_same(old(self).cfg, final(self).cfg),
            final(self).cfg.panel == old(self).cfg.panel,
    {
        match k {
            Key::Char('[') | Key::Char(']') => {
                self.focus = match self.focus {
                    PanelFocus::Left => PanelFocus::Right,
                    PanelFocus::Right => PanelFocus::Left,
                };
            },
            Key::Down | Key::Char('j') | Key::Up | Key::Char('k') | Key::Char('x') | Key::Char(' ') | Key::Char('d')
            | Key::Char('r') => {
                match self.focus {
                    PanelFocus::Left => list_key(&mut self.cfg.display.left, &mut self.left_sel, k),
                    PanelFocus::Right => list_key(&mut self.cfg.display.right, &mut self.right_sel, k),
                }
            },
            Key::Char('a') => {
                let cat = mobile_field_catalog();
                let avail = match self.focus {
                    PanelFocus::Left => addable_fields(&cat, &self.cfg.display.left),
                    PanelFocus::Right => addable_fields(&cat, &self.cfg.display.right),
                };
                proof {
                    assert(field_keys(self.cfg.display.left@) =~= fields_view(self.cfg.display.left@).map_values(
                        |v: FieldView| v.0,
                    ));
                    assert(field_keys(self.cfg.display.right@) =~= fields_view(self.cfg.display.right@).map_values(
                        |v: FieldView| v.0,
                    ));
                }
                let nonempty = avail.len() > 0;
                self.add_available = avail;
                if nonempty {
                    self.add_selected = 0;
                    self.add_side = self.focus;
                    self.input = InputMode::AddingPanel;
                }
            },
            Key::Right | Key::Char('l') | Key::Enter => {
                self.step = Step::Summary;
            },
            Key::Left | Key::Char('h') => {
                self.step = Step::Layout;
            },
            Key::Char('p') => {
                self.show_preview = !self.show_preview;
            },
            Key::Char('q') | Key::Backspace | Key::Esc => {
                self.quit = true;
            },
            _ => {},
        }
    }

    fn summary_key(&mut self, k: Key) -> (r: WizardAction)
        requires
            wizard_wf(old(self)@),
        ensures
            final(self)@ =~= summary_next(old(self)@, k).0,
            r == summary_next(old(self)@, k).1,
            final(self).cfg == old(self).cfg,
    {
        match k {
            Key::Char('s') | Key::Enter => WizardAction::Save,
            Key::Left | Key::Char('h') => {
                self.step = Step::Panels;
                WizardAction::Continue
            },
            Key::Char('p') => {
                self.show_preview = !self.show_preview;
                WizardAction::Continue
            },
            Key::Char('q') | Key::Backspace | Key::Esc => {
                self.quit = true;
                WizardAction::Continue
            },
            _ => WizardAction::Continue,
        }
    }

    /// Reacts to a key press: the wizard moves to the state `wizard_next`
    /// gives, keeps every selection inside its list, and leaves the logo,
    /// title, separator and panel colours alone.
    pub fn handle_key(&mut self, k: Key) -> (r: WizardAction)
        requires
            wizard_wf(old(self)@),
        ensures
            final(self)@ =~= wizard_next(old(self)@, k).0,
            r == wizard_next(old(self)@, k).1,
            wizard_wf(final(self)@),
            rest_same(old(self).cfg, final(self).cfg),
    {
        if self.input == InputMode::AddingPanel {
            self.adding_key(k);
            return WizardAction::Continue;
        }
        match self.step {
            Step::Welcome => {
                self.welcome_key(k);
                WizardAction::Continue
            },
            Step::Layout => {
                self.layout_key(k);
                WizardAction::Continue
            },
            Step::Panels => {
                self.panels_key(k);
                WizardAction::Continue
            },
            Step::Summary => self.summary_key(k),
        }
    }
}

/// Name of a step in the step indicator.
pub open spec fn step_name(s: Step) -> Seq<char> {
    match s {
        Step::Welcome => "Welcome"@,
        Step::Layout => "Layout"@,
        Step::Panels => "Panels"@,
        Step::Summary => "Save"@,
    }
}

/// A step in the indicator: marked when it is the current one.
pub open spec fn step_label(s: Step, cur: Step) -> Seq<char> {
    if s == cur {
        " >"@ + step_name(s) + "< "@
    } else {
        "  "@ + step_name(s) + "  "@
    }
}

/// The step indicator: every step, joined by arrows.
pub open spec fn step_title_spec(cur: Step) -> Seq<char> {
    " AtlasFetch Mobile Setup \u{2014} "@ + step_label(Step::Welcome, cur) + " \u{2192} "@ + step_label(Step::Layout, cur)
        + " \u{2192} "@ + step_label(Step::Panels, cur) + " \u{2192} "@ + step_label(Step::Summary, cur)
}

fn push_step_label(out: &mut String, s: Step, cur: Step)
    ensures
        final(out)@ == old(out)@ + step_label(s, cur),
{
    let name = match s {
        Step::Welcome => "Welcome",
        Step::Layout => "Layout",
        Step::Panels => "Panels",
        Step::Summary => "Save",
    };
    if s == cur {
        push_str(out, " >");
        push_str(out, name);
        push_str(out, "< ");
    } else {
        push_str(out, "  ");
        push_str(out, name);
        push_str(out, "  ");
    }
}

/// The step indicator line for the current step.
pub fn step_title(cur: Step) -> (r: String)
    ensures
        r@ == step_title_spec(cur),
{
    let mut out = to_string(" AtlasFetch Mobile Setup \u{2014} ");
    push_step_label(&mut out, Step::Welcome, cur);
    push_str(&mut out, " \u{2192} ");
    push_step_label(&mut out, Step::Layout, cur);
    push_str(&mut out, " \u{2192} ");
    push_step_label(&mut out, Step::Panels, cur);
    push_str(&mut out, " \u{2192} ");
    push_step_label(&mut out, Step::Summary, cur);
    out
}

/// The key help shown under a step.
pub fn help_text(s: Step) -> (r: &'static str)
    ensures
        r@ == match s {
            Step::Welcome => " [l/\u{2192}] Next  [q] Quit"@,
            Step::Layout => " [j/k] Navigate  [l/\u{2192}] Next  [h/\u{2190}] Back  [p] Preview  [q] Quit"@,
            Step::Panels =>
                " [j/k] Navigate  [/] Focus  [x] Toggle  [a] Add  [d] Delete  [r] Reorder  [l/\u{2192}] Next  [p] Preview  [q] Quit"@,
            Step::Summary => " [s/Enter] Save  [p] Preview  [q] Quit"@,
        },
{
    match s {
        Step::Welcome => " [l/\u{2192}] Next  [q] Quit",
        Step::Layout => " [j/k] Navigate  [l/\u{2192}] Next  [h/\u{2190}] Back  [p] Preview  [q] Quit",
        Step::Panels =>
            " [j/k] Navigate  [/] Focus  [x] Toggle  [a] Add  [d] Delete  [r] Reorder  [l/\u{2192}] Next  [p] Preview  [q] Quit",
        Step::Summary => " [s/Enter] Save  [p] Preview  [q] Quit",
    }
}

/// A line of the panel list: check mark, key, icon and label.
pub open spec fn panel_item_spec(f: FieldView) -> Seq<char> {
    " ["@ + (if f.3 { "\u{2713}"@ } else { " "@ }) + "] "@ + f.0 + " ("@ + f.1 + ")  "@ + f.2
}

/// The list line of a field.
pub fn panel_item_text(f: &FieldDef) -> (r: String)
    ensures
        r@ == panel_item_spec(field_view(*f)),
{
    let mut out = to_string(" [");
    if f.enabled {
        push_str(&mut out, "\u{2713}");
    } else {
        push_str(&mut out, " ");
    }
    push_str(&mut out, "] ");
    push_str(&mut out, f.field.as_str());
    push_str(&mut out, " (");
    push_str(&mut out, f.icon.as_str());
    push_str(&mut out, ")  ");
    push_str(&mut out, f.label.as_str());
    out
}

/// A line of the field picker: icon, key and label.
pub open spec fn picker_item_spec(e: (Seq<char>, Seq<char>, Seq<char>)) -> Seq<char> {
    " "@ + e.1 + " ("@ + e.0 + ") "@ + e.2
}

/// The picker line of a catalogue entry.
pub fn picker_item_text(e: FieldEntry) -> (r: String)
    ensures
        r@ == picker_item_spec(entries_view(seq![e])[0]),
{
    let mut out = to_string(" ");
    push_str(&mut out, e.1);
    push_str(&mut out, " (");
    push_str(&mut out, e.0);
    push_str(&mut out, ") ");
    push_str(&mut out, e.2);
    out
}

} // verus!

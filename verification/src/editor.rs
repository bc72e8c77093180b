//! Key handling of the desktop configuration editor: from its state and an
//! input event to the next state and what the caller has to do (read a
//! directory, load a logo, quit).
use vstd::prelude::*;
use crate::config::{Config, FieldDef};
use crate::layout::AppLayout;
use crate::setup::{field_view, fields_view, FieldView};
use crate::strs::{contains, contains_seq, words, words_seq};
use crate::text::{chars_of, push_char, str_eq, string_from_chars, to_string, views};
use crate::theme::{hex_slicing_panics, Color};
use crate::component::Scene;
use crate::wizard::{apply_pc_layout, field_keys, has_key_exec, move_field_up, toggle_field, layout_gap, layout_padding, pc_layout_at, tab_at, tab_pos, DisplayMode, Tab};

verus! {

// ── Lower-casing and the logo search ─────────────────────────────────────

/// The Unicode lower-case mapping of a string, as `str::to_lowercase`
/// computes it.
pub uninterp spec fn lowercase(s: Seq<char>) -> Seq<char>;

/// `str::to_lowercase`: the contract only names the result, as the
/// lower-case mapping of the argument, which depends on nothing else.
#[verifier::external_body]
fn to_lower(s: &str) -> (r: String)
    ensures
        r@ == lowercase(s@),
{
    s.to_lowercase()
}

/// Whether entry `j` of the logo list passes the search `q`: the entries
/// past the built-in logos always do, every entry does for an empty
/// search, a built-in logo does when its lower-cased key contains `q`.
pub open spec fn passes(lkeys: Seq<Seq<char>>, q: Seq<char>, j: int) -> bool {
    j >= lkeys.len() || q.len() == 0 || contains_seq(lkeys[j], q)
}

/// The nearest entry above `sel` that passes the search, or 0.
pub open spec fn search_up(lkeys: Seq<Seq<char>>, q: Seq<char>, sel: nat) -> nat
    decreases sel,
{
    if sel == 0 {
        0
    } else if passes(lkeys, q, sel - 1 as int) {
        (sel - 1) as nat
    } else {
        search_up(lkeys, q, (sel - 1) as nat)
    }
}

/// The nearest entry below `sel`, up to `max`, that passes the search
/// (`sel` itself once `max` is reached).
pub open spec fn search_down(lkeys: Seq<Seq<char>>, q: Seq<char>, sel: nat, max: nat) -> nat
    decreases max - sel,
{
    if sel >= max {
        sel
    } else if passes(lkeys, q, sel + 1 as int) {
        sel + 1
    } else {
        search_down(lkeys, q, sel + 1, max)
    }
}

/// The first built-in logo at or after `i` whose lower-cased key contains
/// `q`, or the number of logos when there is none.
pub open spec fn match_from(lkeys: Seq<Seq<char>>, q: Seq<char>, i: nat) -> nat
    decreases lkeys.len() - i,
{
    if i >= lkeys.len() {
        lkeys.len()
    } else if contains_seq(lkeys[i as int], q) {
        i
    } else {
        match_from(lkeys, q, i + 1)
    }
}

/// The first logo matching `q`, or 0 when none does.
pub open spec fn first_match(lkeys: Seq<Seq<char>>, q: Seq<char>) -> nat {
    let p = match_from(lkeys, q, 0);
    if p < lkeys.len() { p } else { 0 }
}

proof fn lemma_search_up_le(lkeys: Seq<Seq<char>>, q: Seq<char>, sel: nat)
    ensures
        search_up(lkeys, q, sel) <= sel,
        sel > 0 ==> search_up(lkeys, q, sel) < sel,
    decreases sel,
{
    if sel > 0 {
        lemma_search_up_le(lkeys, q, (sel - 1) as nat);
    }
}

proof fn lemma_search_down_bound(lkeys: Seq<Seq<char>>, q: Seq<char>, sel: nat, max: nat)
    ensures
        sel <= max ==> sel <= search_down(lkeys, q, sel, max) <= max,
        sel > max ==> search_down(lkeys, q, sel, max) == sel,
    decreases max - sel,
{
    if sel < max {
        lemma_search_down_bound(lkeys, q, sel + 1, max);
    }
}

proof fn lemma_match_from_bound(lkeys: Seq<Seq<char>>, q: Seq<char>, i: nat)
    ensures
        match_from(lkeys, q, i) <= lkeys.len(),
        i <= lkeys.len() ==> i <= match_from(lkeys, q, i),
    decreases lkeys.len() - i,
{
    if i < lkeys.len() {
        lemma_match_from_bound(lkeys, q, i + 1);
    }
}

/// The lower-cased keys.
pub open spec fn lowered(keys: Seq<Seq<char>>) -> Seq<Seq<char>> {
    keys.map_values(|k: Seq<char>| lowercase(k))
}

/// Lower-cases every key.
fn lower_all(keys: &Vec<String>) -> (r: Vec<String>)
    ensures
        r@.len() == keys@.len(),
        forall|i: int| 0 <= i < keys@.len() ==> #[trigger] r@[i]@ == lowercase(keys@[i]@),
{
    let mut out: Vec<String> = Vec::new();
    let mut i: usize = 0;
    while i < keys.len()
        invariant
            i <= keys@.len(),
            out@.len() == i,
            forall|j: int| 0 <= j < i ==> #[trigger] out@[j]@ == lowercase(keys@[j]@),
        decreases keys@.len() - i,
    {
        out.push(to_lower(keys[i].as_str()));
        i += 1;
    }
    out
}

/// Whether entry `j` passes the search `q` (see `passes`); `lkeys` are the
/// lower-cased logo keys.
pub fn entry_passes(lkeys: &Vec<String>, q: &str, j: usize) -> (b: bool)
    ensures
        b == passes(crate::text::views(lkeys@), q@, j as int),
{
    if j >= lkeys.len() || q.is_empty() {
        true
    } else {
        contains(lkeys[j].as_str(), q)
    }
}

/// The entry the search moves to going up from `sel` (see `search_up`).
pub fn step_up(lkeys: &Vec<String>, q: &str, sel: usize) -> (r: usize)
    ensures
        r as nat == search_up(crate::text::views(lkeys@), q@, sel as nat),
{
    let ghost lk = crate::text::views(lkeys@);
    let mut s = sel;
    while s > 0
        invariant
            s <= sel,
            search_up(lk, q@, sel as nat) == search_up(lk, q@, s as nat),
            lk == crate::text::views(lkeys@),
        decreases s,
    {
        if entry_passes(lkeys, q, s - 1) {
            return s - 1;
        }
        s -= 1;
    }
    0
}

/// The entry the search moves to going down from `sel`, up to `max` (see
/// `search_down`).
pub fn step_down(lkeys: &Vec<String>, q: &str, sel: usize, max: usize) -> (r: usize)
    ensures
        r as nat == search_down(crate::text::views(lkeys@), q@, sel as nat, max as nat),
{
    let ghost lk = crate::text::views(lkeys@);
    let mut s = sel;
    while s < max
        invariant
            sel <= max ==> s <= max,
            sel > max ==> s == sel,
            search_down(lk, q@, sel as nat, max as nat) == search_down(lk, q@, s as nat, max as nat),
            lk == crate::text::views(lkeys@),
        decreases max - s,
    {
        if entry_passes(lkeys, q, s + 1) {
            return s + 1;
        }
        s += 1;
    }
    s
}

/// The first logo whose lower-cased key contains `q`, or 0 (see
/// `first_match`).
pub fn find_first(lkeys: &Vec<String>, q: &str) -> (r: usize)
    ensures
        r as nat == first_match(crate::text::views(lkeys@), q@),
{
    let ghost lk = crate::text::views(lkeys@);
    let mut i: usize = 0;
    while i < lkeys.len()
        invariant
            i <= lkeys@.len(),
            lk == crate::text::views(lkeys@),
            match_from(lk, q@, 0) == match_from(lk, q@, i as nat),
        decreases lkeys@.len() - i,
    {
        if contains(lkeys[i].as_str(), q) {
            return i;
        }
        i += 1;
    }
    0
}

// ── String editing ───────────────────────────────────────────────────────

/// Removes the last character of `s` (`String::pop`, result dropped).
pub fn pop_char(s: &mut String)
    ensures
        old(s)@.len() > 0 ==> final(s)@ == old(s)@.drop_last(),
        old(s)@.len() == 0 ==> final(s)@ == old(s)@,
{
    let v = chars_of(s.as_str());
    if v.len() > 0 {
        let t = string_from_chars(&v, 0, v.len() - 1);
        proof {
            assert(t@ =~= old(s)@.drop_last());
        }
        *s = t;
    }
}


// ── State ────────────────────────────────────────────────────────────────

/// What the editor reads keys for.
#[derive(Debug, Clone, Copy, PartialEq, Eq, Structural)]
pub enum EditMode {
    Normal,
    EditingCustomPalette,
    EditingLabel,
    AddingPanel,
    EditingHexColor(usize),
    PastingAscii,
    BrowsingFile,
}

/// Where the logo comes from.
pub enum AsciiSource {
    /// A built-in logo, by key.
    Builtin(String),
    /// A file, by path.
    File(String),
    /// Art pasted into the editor.
    Pasted,
    /// No logo.
    Disabled,
}

/// The view of an `AsciiSource`.
pub enum SourceView {
    Builtin(Seq<char>),
    File(Seq<char>),
    Pasted,
    Disabled,
}

/// View of a logo source.
pub open spec fn source_view(s: AsciiSource) -> SourceView {
    match s {
        AsciiSource::Builtin(k) => SourceView::Builtin(k@),
        AsciiSource::File(p) => SourceView::File(p@),
        AsciiSource::Pasted => SourceView::Pasted,
        AsciiSource::Disabled => SourceView::Disabled,
    }
}

/// A key press.
#[derive(Debug, Clone, Copy, PartialEq, Eq, Structural)]
pub enum EditorKey {
    Up,
    Down,
    Left,
    Right,
    Enter,
    Tab,
    BackTab,
    Esc,
    Backspace,
    Char(char),
    Other,
}

/// An input event.
#[derive(Debug, Clone, Copy, PartialEq, Eq, Structural)]
pub enum EditorEvent {
    /// The terminal now has this many columns and rows.
    Resize(u16, u16),
    /// A key was pressed.
    Key(EditorKey),
    /// Anything else (key releases, mouse, focus).
    Other,
}

/// What the caller does after an event.
#[derive(Debug, Clone, Copy, PartialEq, Eq, Structural)]
pub enum EditorAction {
    /// Draw the next frame.
    Continue,
    /// Leave the editor.
    Quit,
    /// Load the logo the configuration now names and, when that works,
    /// hand it to `set_art`.
    LoadArt,
    /// Browse the home directory, then call `show_entries`.
    BrowseHome,
    /// Browse the parent directory if there is one, then call
    /// `show_entries`.
    BrowseParent,
    /// Browse the directory of this browser entry, then call
    /// `show_entries`.
    BrowseInto(usize),
    /// Use the file of this browser entry as the logo: call `use_file`
    /// with its path, then load it as for `LoadArt`.
    OpenFile(usize),
    /// Read the current directory, then call `show_entries`.
    RefreshBrowser,
}

/// The editor's state.
pub struct Editor {
    pub cfg: Config,
    /// Lower-cased name of the chosen scene.
    pub scene: String,
    pub tab: Tab,
    pub app_layout: AppLayout,
    pub display_mode: DisplayMode,
    pub mode_selected: usize,
    /// On the mode tab: `false` for the display modes, `true` for layouts.
    pub mode_focus: bool,
    pub themes: Vec<crate::theme::Theme>,
    pub theme_selected: usize,
    pub custom_palette_input: String,
    pub logo_keys: Vec<String>,
    pub ascii_art: String,
    pub ascii_source: AsciiSource,
    /// `false` for the left panel, `true` for the right one.
    pub panel_focus: bool,
    pub panel_left_sel: usize,
    pub panel_right_sel: usize,
    /// Fields on offer: key, icon, label.
    pub add_panel_available: Vec<(String, String, String)>,
    pub add_panel_sel: usize,
    pub editing_label_input: String,
    /// Directory entries: name and whether it is a directory.
    pub file_browser_entries: Vec<(String, bool)>,
    pub file_browser_sel: usize,
    pub layout_selected: usize,
    /// Built-in logos first, then the file, pasted and disabled entries.
    pub ascii_selected: usize,
    pub ascii_search: String,
    pub input_mode: EditMode,
    pub paste_buffer: String,
    pub saved: bool,
    pub preview_width: usize,
    pub term_width: u16,
    pub term_height: u16,
    /// The preview must be redrawn.
    pub dirty: bool,
}

/// View of a field on offer.
pub open spec fn offer_view(e: (String, String, String)) -> (Seq<char>, Seq<char>, Seq<char>) {
    (e.0@, e.1@, e.2@)
}

/// View of a directory entry.
pub open spec fn entry_view(e: (String, bool)) -> (Seq<char>, bool) {
    (e.0@, e.1)
}

/// The editor as the event handler sees it.
#[verifier::ext_equal]
pub struct EditorModel {
    pub left: Seq<FieldView>,
    pub right: Seq<FieldView>,
    pub logo_key: Seq<char>,
    pub logo_path: Seq<char>,
    pub colors: Seq<crate::theme::Color>,
    pub color_dir: Seq<char>,
    /// Gap, left padding, right padding and value width of the panels.
    pub spacing: (usize, usize, usize, usize),
    pub scene: Seq<char>,
    pub tab: Tab,
    pub app_layout: AppLayout,
    pub display_mode: DisplayMode,
    pub mode_selected: nat,
    pub mode_focus: bool,
    /// The palettes of the themes.
    pub themes: Seq<Seq<crate::theme::Color>>,
    /// The names of the themes.
    pub theme_names: Seq<Seq<char>>,
    pub theme_selected: nat,
    pub palette_input: Seq<char>,
    pub logo_keys: Seq<Seq<char>>,
    pub art: Seq<char>,
    pub source: SourceView,
    pub panel_focus: bool,
    pub left_sel: nat,
    pub right_sel: nat,
    pub add_available: Seq<(Seq<char>, Seq<char>, Seq<char>)>,
    pub add_sel: nat,
    pub label_input: Seq<char>,
    pub entries: Seq<(Seq<char>, bool)>,
    pub browser_sel: nat,
    pub layout_selected: nat,
    pub ascii_selected: nat,
    pub search: Seq<char>,
    pub mode: EditMode,
    pub paste: Seq<char>,
    pub saved: bool,
    pub preview_width: nat,
    pub term_width: u16,
    pub term_height: u16,
    pub dirty: bool,
}

impl View for Editor {
    type V = EditorModel;

    open spec fn view(&self) -> EditorModel {
        EditorModel {
            left: fields_view(self.cfg.display.left@),
            right: fields_view(self.cfg.display.right@),
            logo_key: self.cfg.logo.key@,
            logo_path: self.cfg.logo.path@,
            colors: self.cfg.logo.colors@,
            color_dir: self.cfg.logo.color_dir@,
            spacing: (self.cfg.panel.gap, self.cfg.panel.left_pad, self.cfg.panel.right_pad, self.cfg.panel.max_val_width),
            scene: self.scene@,
            tab: self.tab,
            app_layout: self.app_layout,
            display_mode: self.display_mode,
            mode_selected: self.mode_selected as nat,
            mode_focus: self.mode_focus,
            themes: self.themes@.map_values(|t: crate::theme::Theme| t.colors@),
            theme_names: self.themes@.map_values(|t: crate::theme::Theme| t.name@),
            theme_selected: self.theme_selected as nat,
            palette_input: self.custom_palette_input@,
            logo_keys: crate::text::views(self.logo_keys@),
            art: self.ascii_art@,
            source: source_view(self.ascii_source),
            panel_focus: self.panel_focus,
            left_sel: self.panel_left_sel as nat,
            right_sel: self.panel_right_sel as nat,
            add_available: self.add_panel_available@.map_values(|e: (String, String, String)| offer_view(e)),
            add_sel: self.add_panel_sel as nat,
            label_input: self.editing_label_input@,
            entries: self.file_browser_entries@.map_values(|e: (String, bool)| entry_view(e)),
            browser_sel: self.file_browser_sel as nat,
            layout_selected: self.layout_selected as nat,
            ascii_selected: self.ascii_selected as nat,
            search: self.ascii_search@,
            mode: self.input_mode,
            paste: self.paste_buffer@,
            saved: self.saved,
            preview_width: self.preview_width as nat,
            term_width: self.term_width,
            term_height: self.term_height,
            dirty: self.dirty,
        }
    }
}

/// Every selection stays where the key handler can move it without
/// overflow: each list selection is 0 or inside its list (a panel
/// selection may also sit just past its list after a deletion), the
/// logo selection at most the disabled entry.
pub open spec fn editor_wf(m: EditorModel) -> bool {
    &&& m.left_sel <= m.left.len()
    &&& m.right_sel <= m.right.len()
    &&& m.add_sel == 0 || m.add_sel < m.add_available.len()
    &&& m.browser_sel == 0 || m.browser_sel < m.entries.len()
    &&& m.theme_selected == 0 || m.theme_selected < m.themes.len()
    &&& m.mode_selected < 3
    &&& m.layout_selected < 5
    &&& m.logo_keys.len() + 2 <= usize::MAX
    &&& m.ascii_selected <= m.logo_keys.len() + 2
}

/// The parts of the configuration that the editor never changes are
/// unchanged.
pub open spec fn untouched(a: Config, b: Config) -> bool {
    &&& b.title == a.title
    &&& b.separator == a.separator
    &&& b.panel.max_shift == a.panel.max_shift
    &&& b.panel.sep_color == a.panel.sep_color
    &&& b.panel.val_color == a.panel.val_color
}

// ── Text input modes ─────────────────────────────────────────────────────

/// `s` without its last character, if it has one.
pub open spec fn popped(s: Seq<char>) -> Seq<char> {
    if s.len() > 0 { s.drop_last() } else { s }
}

/// The colours among `words` that parse as hex colours, in order.
pub open spec fn parse_palette(words: Seq<Seq<char>>) -> Seq<crate::theme::Color>
    decreases words.len(),
{
    if words.len() == 0 {
        Seq::empty()
    } else {
        let rest = parse_palette(words.drop_last());
        match crate::theme::parse_hex_color(words.last()) {
            Some(c) => rest.push(c),
            None => rest,
        }
    }
}

/// Whether reading a hex colour from some word of `s` slices inside a
/// character.
pub open spec fn palette_panics(s: Seq<char>) -> bool {
    exists|i: int| 0 <= i < crate::strs::words_seq(s).len()
        && crate::theme::hex_slicing_panics(#[trigger] crate::strs::words_seq(s)[i])
}

/// A key while typing a custom palette: Enter takes the colours typed (if
/// any parse), Esc leaves the palette as it was.
pub open spec fn palette_next(m: EditorModel, k: EditorKey) -> EditorModel {
    match k {
        EditorKey::Enter => {
            let parsed = parse_palette(crate::strs::words_seq(m.palette_input));
            let m2 = if parsed.len() > 0 { EditorModel { colors: parsed, dirty: true, ..m } } else { m };
            EditorModel { mode: EditMode::Normal, ..m2 }
        },
        EditorKey::Esc => EditorModel { mode: EditMode::Normal, ..m },
        EditorKey::Char(c) => EditorModel { palette_input: m.palette_input.push(c), ..m },
        EditorKey::Backspace => EditorModel { palette_input: popped(m.palette_input), ..m },
        _ => m,
    }
}

/// The fields of the focused panel.
pub open spec fn focused(m: EditorModel) -> Seq<FieldView> {
    if m.panel_focus { m.right } else { m.left }
}

/// The selection in the focused panel.
pub open spec fn focused_sel(m: EditorModel) -> nat {
    if m.panel_focus { m.right_sel } else { m.left_sel }
}

/// `m` with the focused panel's fields replaced by `s`.
pub open spec fn with_focused(m: EditorModel, s: Seq<FieldView>) -> EditorModel {
    if m.panel_focus { EditorModel { right: s, ..m } } else { EditorModel { left: s, ..m } }
}

/// `m` with the focused panel's selection replaced by `i`.
pub open spec fn with_focused_sel(m: EditorModel, i: nat) -> EditorModel {
    if m.panel_focus { EditorModel { right_sel: i, ..m } } else { EditorModel { left_sel: i, ..m } }
}

/// A key while editing a label: Enter renames the selected field of the
/// focused panel (if there is one).
pub open spec fn label_next(m: EditorModel, k: EditorKey) -> EditorModel {
    match k {
        EditorKey::Enter => {
            let s = focused(m);
            let i = focused_sel(m);
            let m2 = if i < s.len() {
                let v = s[i as int];
                EditorModel { dirty: true, ..with_focused(m, s.update(i as int, (v.0, v.1, m.label_input, v.3))) }
            } else {
                m
            };
            EditorModel { mode: EditMode::Normal, ..m2 }
        },
        EditorKey::Esc => EditorModel { mode: EditMode::Normal, ..m },
        EditorKey::Char(c) => EditorModel { label_input: m.label_input.push(c), ..m },
        EditorKey::Backspace => EditorModel { label_input: popped(m.label_input), ..m },
        _ => m,
    }
}

/// `i - 1`, stopping at 0.
pub open spec fn dec(i: nat) -> nat {
    if i > 0 { (i - 1) as nat } else { 0 }
}

/// `(i + 1).min(len.saturating_sub(1))`.
pub open spec fn down_in(i: nat, len: nat) -> nat {
    let last: nat = if len > 0 { (len - 1) as nat } else { 0 };
    if i + 1 <= last { i + 1 } else { last }
}

/// The keys of a panel's fields.
pub open spec fn keys_of(s: Seq<FieldView>) -> Seq<Seq<char>> {
    s.map_values(|v: FieldView| v.0)
}

/// A key in the field picker: move, add the selected field to the left
/// panel (enabled) unless a panel already has its key, close.
pub open spec fn adding_next(m: EditorModel, k: EditorKey) -> EditorModel {
    match k {
        EditorKey::Up => EditorModel { add_sel: dec(m.add_sel), ..m },
        EditorKey::Down => EditorModel { add_sel: down_in(m.add_sel, m.add_available.len()), ..m },
        EditorKey::Enter => {
            let m2 = if m.add_sel < m.add_available.len() {
                let e = m.add_available[m.add_sel as int];
                if keys_of(m.left).contains(e.0) || keys_of(m.right).contains(e.0) {
                    m
                } else {
                    EditorModel { left: m.left.push((e.0, e.1, e.2, true)), dirty: true, ..m }
                }
            } else {
                m
            };
            EditorModel { mode: EditMode::Normal, ..m2 }
        },
        EditorKey::Esc => EditorModel { mode: EditMode::Normal, ..m },
        _ => m,
    }
}

/// A key while pasting art: Enter makes the pasted text the logo (if there
/// is any), Enter and Esc empty the buffer.
pub open spec fn pasting_next(m: EditorModel, k: EditorKey) -> EditorModel {
    match k {
        EditorKey::Enter => {
            let m2 = if m.paste.len() > 0 {
                EditorModel {
                    art: m.paste,
                    source: SourceView::Pasted,
                    ascii_selected: m.logo_keys.len() + 1,
                    dirty: true,
                    ..m
                }
            } else {
                m
            };
            EditorModel { paste: Seq::empty(), mode: EditMode::Normal, ..m2 }
        },
        EditorKey::Esc => EditorModel { paste: Seq::empty(), mode: EditMode::Normal, ..m },
        EditorKey::Char(c) => EditorModel { paste: m.paste.push(c), ..m },
        EditorKey::Backspace => EditorModel { paste: popped(m.paste), ..m },
        _ => m,
    }
}

/// A key in the file browser: move, go home, go up, enter a directory or
/// pick a file, close.
pub open spec fn browsing_next(m: EditorModel, k: EditorKey) -> (EditorModel, EditorAction) {
    match k {
        EditorKey::Up => (EditorModel { browser_sel: dec(m.browser_sel), ..m }, EditorAction::Continue),
        EditorKey::Down => (
            EditorModel { browser_sel: down_in(m.browser_sel, m.entries.len()), ..m },
            EditorAction::Continue,
        ),
        EditorKey::Char('~') => (m, EditorAction::BrowseHome),
        EditorKey::Backspace => (m, EditorAction::BrowseParent),
        EditorKey::Enter => if m.browser_sel < m.entries.len() {
            if m.entries[m.browser_sel as int].1 {
                (m, EditorAction::BrowseInto(m.browser_sel as usize))
            } else {
                (m, EditorAction::OpenFile(m.browser_sel as usize))
            }
        } else {
            (m, EditorAction::Continue)
        },
        EditorKey::Esc => (EditorModel { mode: EditMode::Normal, ..m }, EditorAction::Continue),
        _ => (m, EditorAction::Continue),
    }
}


// ── Normal mode ──────────────────────────────────────────────────────────

/// The scene at menu position `i` (the last one past the end).
pub open spec fn scene_at(i: nat) -> Scene {
    if i == 0 {
        Scene::Classic
    } else if i == 1 {
        Scene::Dashboard
    } else if i == 2 {
        Scene::Cockpit
    } else {
        Scene::ClassicFetch
    }
}

/// The display name of a scene.
pub open spec fn scene_name(s: Scene) -> Seq<char> {
    match s {
        Scene::Classic => "Classic"@,
        Scene::Dashboard => "Terminal Dashboard"@,
        Scene::Cockpit => "Cockpit"@,
        Scene::ClassicFetch => "ClassicFetch"@,
    }
}

/// Menu position of the first scene whose lower-cased name is `key`, or 0.
pub open spec fn scene_pos(key: Seq<char>) -> nat {
    if lowercase(scene_name(scene_at(0))) == key {
        0
    } else if lowercase(scene_name(scene_at(1))) == key {
        1
    } else if lowercase(scene_name(scene_at(2))) == key {
        2
    } else if lowercase(scene_name(scene_at(3))) == key {
        3
    } else {
        0
    }
}

/// The display mode at menu position `i` (the last one past the end).
pub open spec fn mode_at(i: nat) -> DisplayMode {
    if i == 0 {
        DisplayMode::Desktop
    } else if i == 1 {
        DisplayMode::Companion
    } else {
        DisplayMode::Monitor
    }
}

/// `m` after choosing desktop layout `idx`: the layout and its spacing
/// (nothing for an index past the five layouts).
pub open spec fn layout_applied(m: EditorModel, idx: nat) -> EditorModel {
    if idx < 5 {
        let l = pc_layout_at(idx as int);
        EditorModel {
            app_layout: l,
            spacing: (
                layout_gap(l),
                layout_padding(l),
                layout_padding(l),
                if l == AppLayout::Compact { 35usize } else { 999usize },
            ),
            dirty: true,
            ..m
        }
    } else {
        m
    }
}

/// `m` with built-in logo `i` chosen.
pub open spec fn builtin_chosen(m: EditorModel, i: int) -> EditorModel {
    EditorModel {
        source: SourceView::Builtin(m.logo_keys[i]),
        logo_key: m.logo_keys[i],
        dirty: true,
        ..m
    }
}

/// `m` with the logo switched off.
pub open spec fn disabled(m: EditorModel) -> EditorModel {
    EditorModel {
        source: SourceView::Disabled,
        logo_key: Seq::empty(),
        logo_path: "disabled"@,
        art: Seq::empty(),
        dirty: true,
        ..m
    }
}

/// The up key on the current tab: move the focused list's selection; on
/// the mode tab also apply the display mode or layout, on the layout tab
/// the scene, on the theme tab the palette, on the logo tab the nearest
/// logo above that passes the search.
pub open spec fn up_next(m: EditorModel) -> (EditorModel, EditorAction) {
    match m.tab {
        Tab::Mode => if m.mode_focus {
            let ls = dec(m.layout_selected);
            (layout_applied(EditorModel { layout_selected: ls, ..m }, ls), EditorAction::Continue)
        } else {
            let ms = dec(m.mode_selected);
            (EditorModel { mode_selected: ms, display_mode: mode_at(ms), dirty: true, ..m }, EditorAction::Continue)
        },
        Tab::Layout => {
            let next = dec(scene_pos(m.scene));
            (EditorModel { scene: lowercase(scene_name(scene_at(next))), dirty: true, ..m }, EditorAction::Continue)
        },
        Tab::Theme => {
            let ts = dec(m.theme_selected);
            let m2 = EditorModel { theme_selected: ts, ..m };
            if ts < m.themes.len() {
                (EditorModel { colors: m.themes[ts as int], dirty: true, ..m2 }, EditorAction::Continue)
            } else {
                (m2, EditorAction::Continue)
            }
        },
        Tab::Ascii => {
            let ns = search_up(lowered(m.logo_keys), lowercase(m.search), m.ascii_selected);
            if ns != m.ascii_selected {
                let m2 = EditorModel { ascii_selected: ns, ..m };
                if ns < m.logo_keys.len() {
                    (builtin_chosen(m2, ns as int), EditorAction::LoadArt)
                } else {
                    (m2, EditorAction::Continue)
                }
            } else {
                (m, EditorAction::Continue)
            }
        },
        Tab::Panels => (with_focused_sel(m, dec(focused_sel(m))), EditorAction::Continue),
        _ => (m, EditorAction::Continue),
    }
}

/// The down key on the current tab, as `up_next` in the other direction;
/// moving past the last logo entry switches the logo off.
pub open spec fn down_next(m: EditorModel) -> (EditorModel, EditorAction) {
    match m.tab {
        Tab::Mode => if m.mode_focus {
            let ls = down_in(m.layout_selected, 5);
            (layout_applied(EditorModel { layout_selected: ls, ..m }, ls), EditorAction::Continue)
        } else {
            let ms = down_in(m.mode_selected, 3);
            (EditorModel { mode_selected: ms, display_mode: mode_at(ms), dirty: true, ..m }, EditorAction::Continue)
        },
        Tab::Layout => {
            let next = down_in(scene_pos(m.scene), 4);
            (EditorModel { scene: lowercase(scene_name(scene_at(next))), dirty: true, ..m }, EditorAction::Continue)
        },
        Tab::Theme => {
            let ts = down_in(m.theme_selected, m.themes.len());
            let m2 = EditorModel { theme_selected: ts, ..m };
            if ts < m.themes.len() {
                (EditorModel { colors: m.themes[ts as int], dirty: true, ..m2 }, EditorAction::Continue)
            } else {
                (m2, EditorAction::Continue)
            }
        },
        Tab::Ascii => {
            let n = m.logo_keys.len();
            let ns = search_down(lowered(m.logo_keys), lowercase(m.search), m.ascii_selected, n + 2);
            if ns != m.ascii_selected && ns <= n + 2 {
                let m2 = EditorModel { ascii_selected: ns, ..m };
                if ns < n {
                    (builtin_chosen(m2, ns as int), EditorAction::LoadArt)
                } else if ns == n + 2 {
                    (disabled(m2), EditorAction::Continue)
                } else {
                    (m2, EditorAction::Continue)
                }
            } else {
                (m, EditorAction::Continue)
            }
        },
        Tab::Panels => (with_focused_sel(m, down_in(focused_sel(m), focused(m).len())), EditorAction::Continue),
        _ => (m, EditorAction::Continue),
    }
}

/// Characters that extend the logo search.
pub open spec fn is_search_char(c: char) -> bool {
    ('a' <= c && c <= 'z') || ('A' <= c && c <= 'Z') || ('0' <= c && c <= '9') || c == '-' || c == '_'
}

/// A field with its enabled flag flipped.
pub open spec fn flipped(v: FieldView) -> FieldView {
    (v.0, v.1, v.2, !v.3)
}

/// Backspace on the logo tab with a search typed: shorten the search and,
/// when the selected logo no longer matches, select the first that does.
pub open spec fn search_back(m: EditorModel) -> EditorModel {
    let s2 = popped(m.search);
    let q = lowercase(s2);
    let lk = lowered(m.logo_keys);
    let m2 = EditorModel { search: s2, dirty: true, ..m };
    if q.len() > 0 && m.ascii_selected < m.logo_keys.len() && !contains_seq(lk[m.ascii_selected as int], q) {
        EditorModel { ascii_selected: first_match(lk, q), ..m2 }
    } else {
        m2
    }
}

/// A search character on the logo tab: extend the search and, when the
/// selection is not a matching logo, select the first match and load it.
pub open spec fn search_type(m: EditorModel, c: char) -> (EditorModel, EditorAction) {
    let s2 = m.search.push(c);
    let q = lowercase(s2);
    let lk = lowered(m.logo_keys);
    let n = m.logo_keys.len();
    let m2 = EditorModel { search: s2, dirty: true, ..m };
    if m.ascii_selected >= n || !contains_seq(lk[m.ascii_selected as int], q) {
        let p = first_match(lk, q);
        let m3 = EditorModel { ascii_selected: p, ..m2 };
        if p < n {
            (builtin_chosen(m3, p as int), EditorAction::LoadArt)
        } else {
            (m3, EditorAction::Continue)
        }
    } else {
        (m2, EditorAction::Continue)
    }
}

/// A key with no text input open.
pub open spec fn normal_next(m: EditorModel, k: EditorKey) -> (EditorModel, EditorAction) {
    let n = m.logo_keys.len();
    let s = focused(m);
    let i = focused_sel(m);
    match k {
        EditorKey::Char('q') => (m, EditorAction::Quit),
        EditorKey::Enter | EditorKey::Tab => (EditorModel { tab: tab_at(tab_pos(m.tab) + 1), ..m }, EditorAction::Continue),
        EditorKey::BackTab => (EditorModel { tab: tab_at(tab_pos(m.tab) + 6), ..m }, EditorAction::Continue),
        EditorKey::Left => (
            EditorModel {
                mode_focus: if m.tab == Tab::Mode { false } else { m.mode_focus },
                panel_focus: if m.tab == Tab::Panels { false } else { m.panel_focus },
                ..m
            },
            EditorAction::Continue,
        ),
        EditorKey::Right => (
            EditorModel {
                mode_focus: if m.tab == Tab::Mode { true } else { m.mode_focus },
                panel_focus: if m.tab == Tab::Panels { true } else { m.panel_focus },
                ..m
            },
            EditorAction::Continue,
        ),
        EditorKey::Up => up_next(m),
        EditorKey::Down => down_next(m),
        EditorKey::Char(' ') => if m.tab == Tab::Panels && i < s.len() {
            (EditorModel { dirty: true, ..with_focused(m, s.update(i as int, flipped(s[i as int]))) }, EditorAction::Continue)
        } else {
            (m, EditorAction::Continue)
        },
        EditorKey::Char('/') => if m.tab == Tab::Panels {
            (EditorModel { panel_focus: !m.panel_focus, ..m }, EditorAction::Continue)
        } else {
            (m, EditorAction::Continue)
        },
        EditorKey::Char('a') => if m.tab == Tab::Panels {
            (EditorModel { mode: EditMode::AddingPanel, add_sel: 0, ..m }, EditorAction::Continue)
        } else {
            (m, EditorAction::Continue)
        },
        EditorKey::Char('d') => if m.tab == Tab::Panels {
            if i < s.len() {
                (EditorModel { dirty: true, ..with_focused(m, s.remove(i as int)) }, EditorAction::Continue)
            } else {
                (m, EditorAction::Continue)
            }
        } else if m.tab == Tab::Ascii {
            (EditorModel { ascii_selected: n + 2, ..disabled(m) }, EditorAction::Continue)
        } else {
            (m, EditorAction::Continue)
        },
        EditorKey::Char('s') => if m.tab == Tab::Save {
            (EditorModel { saved: true, ..m }, EditorAction::Quit)
        } else {
            (m, EditorAction::Continue)
        },
        EditorKey::Char('r') => if m.tab == Tab::Panels && i > 0 && i < s.len() {
            (
                EditorModel {
                    dirty: true,
                    ..with_focused_sel(
                        with_focused(m, s.update(i - 1, s[i as int]).update(i as int, s[i - 1])),
                        (i - 1) as nat,
                    )
                },
                EditorAction::Continue,
            )
        } else {
            (m, EditorAction::Continue)
        },
        EditorKey::Char('e') => if m.tab == Tab::Panels && i < s.len() {
            (EditorModel { label_input: s[i as int].2, mode: EditMode::EditingLabel, ..m }, EditorAction::Continue)
        } else {
            (m, EditorAction::Continue)
        },
        EditorKey::Char('v') => if m.tab == Tab::Theme {
            (
                EditorModel {
                    color_dir: if m.color_dir == "vertical"@ { "horizontal"@ } else { "vertical"@ },
                    dirty: true,
                    ..m
                },
                EditorAction::Continue,
            )
        } else {
            (m, EditorAction::Continue)
        },
        EditorKey::Char('c') => if m.tab == Tab::Theme {
            (EditorModel { palette_input: Seq::empty(), mode: EditMode::EditingCustomPalette, ..m }, EditorAction::Continue)
        } else if m.tab == Tab::Ascii {
            (EditorModel { mode: EditMode::BrowsingFile, browser_sel: 0, ..m }, EditorAction::RefreshBrowser)
        } else {
            (m, EditorAction::Continue)
        },
        EditorKey::Char('p') => if m.tab == Tab::Ascii {
            (EditorModel { mode: EditMode::PastingAscii, ..m }, EditorAction::Continue)
        } else {
            (m, EditorAction::Continue)
        },
        EditorKey::Esc => if m.tab == Tab::Ascii && m.search.len() > 0 {
            (EditorModel { search: Seq::empty(), ..m }, EditorAction::Continue)
        } else {
            (m, EditorAction::Quit)
        },
        EditorKey::Backspace => if m.tab == Tab::Ascii && m.search.len() > 0 {
            (search_back(m), EditorAction::Continue)
        } else {
            (m, EditorAction::Continue)
        },
        EditorKey::Char(c) => if m.tab == Tab::Ascii && is_search_char(c) {
            search_type(m, c)
        } else {
            (m, EditorAction::Continue)
        },
        _ => (m, EditorAction::Continue),
    }
}

/// The editor's reaction to an event: a resize records the new size, a
/// key goes to the open text input (any key closes the colour input) or,
/// with none open, to `normal_next`.
pub open spec fn editor_next(m: EditorModel, ev: EditorEvent) -> (EditorModel, EditorAction) {
    match ev {
        EditorEvent::Resize(w, h) => (
            EditorModel {
                term_width: w,
                term_height: h,
                preview_width: if w >= 20 { (w - 20) as nat } else { 0 },
                dirty: true,
                ..m
            },
            EditorAction::Continue,
        ),
        EditorEvent::Key(k) => match m.mode {
            EditMode::EditingCustomPalette => (palette_next(m, k), EditorAction::Continue),
            EditMode::EditingLabel => (label_next(m, k), EditorAction::Continue),
            EditMode::AddingPanel => (adding_next(m, k), EditorAction::Continue),
            EditMode::PastingAscii => (pasting_next(m, k), EditorAction::Continue),
            EditMode::BrowsingFile => browsing_next(m, k),
            EditMode::EditingHexColor(_) => (EditorModel { mode: EditMode::Normal, ..m }, EditorAction::Continue),
            EditMode::Normal => normal_next(m, k),
        },
        EditorEvent::Other => (m, EditorAction::Continue),
    }
}


// ── Handling events ──────────────────────────────────────────────────────

/// The colours typed in a custom palette (see `parse_palette`).
fn palette_colors(input: &str) -> (r: Vec<Color>)
    requires
        !palette_panics(input@),
    ensures
        r@ == parse_palette(words_seq(input@)),
{
    let ws = words(input);
    let ghost wv = views(ws@);
    let mut out: Vec<Color> = Vec::new();
    let mut i: usize = 0;
    while i < ws.len()
        invariant
            i <= ws@.len(),
            wv == views(ws@),
            wv == words_seq(input@),
            !palette_panics(input@),
            out@ == parse_palette(wv.take(i as int)),
        decreases ws@.len() - i,
    {
        proof {
            assert(wv.take(i + 1).drop_last() =~= wv.take(i as int));
            assert(wv.take(i + 1).last() == ws@[i as int]@);
            assert(!hex_slicing_panics(words_seq(input@)[i as int]));
        }
        match Color::from_hex_opt(ws[i].as_str()) {
            Some(c) => out.push(c),
            None => {},
        }
        i += 1;
    }
    proof {
        assert(wv.take(ws@.len() as int) =~= wv);
    }
    out
}

/// Whether Enter on the custom palette `input` would slice one of its words
/// inside a character (see `palette_panics`).
pub fn palette_input_panics(input: &str) -> (b: bool)
    ensures
        b == palette_panics(input@),
{
    let ws = words(input);
    let ghost wv = views(ws@);
    let mut i: usize = 0;
    while i < ws.len()
        invariant
            i <= ws@.len(),
            wv == views(ws@),
            wv == words_seq(input@),
            forall|j: int| 0 <= j < i ==> !hex_slicing_panics(#[trigger] words_seq(input@)[j]),
        decreases ws@.len() - i,
    {
        proof {
            assert(wv[i as int] == ws@[i as int]@);
        }
        if crate::theme::hex_panics(ws[i].as_str()) {
            return true;
        }
        i += 1;
    }
    false
}

/// A copy of a palette.
fn copy_colors(v: &Vec<Color>) -> (r: Vec<Color>)
    ensures
        r@ == v@,
{
    let mut out: Vec<Color> = Vec::new();
    let mut i: usize = 0;
    while i < v.len()
        invariant
            i <= v@.len(),
            out@ == v@.take(i as int),
        decreases v@.len() - i,
    {
        out.push(v[i]);
        proof {
            assert(out@ =~= v@.take(i + 1));
        }
        i += 1;
    }
    proof {
        assert(v@.take(v@.len() as int) =~= v@);
    }
    out
}

/// Renames field `i`.
fn set_label(fields: &mut Vec<FieldDef>, i: usize, label: String)
    requires
        i < old(fields)@.len(),
    ensures
        fields_view(final(fields)@) == fields_view(old(fields)@).update(
            i as int,
            (old(fields)@[i as int].field@, old(fields)@[i as int].icon@, label@, old(fields)@[i as int].enabled),
        ),
{
    let mut f = fields.remove(i);
    f.label = label;
    fields.insert(i, f);
    proof {
        assert(fields_view(final(fields)@) =~= fields_view(old(fields)@).update(
            i as int,
            (old(fields)@[i as int].field@, old(fields)@[i as int].icon@, label@, old(fields)@[i as int].enabled),
        ));
    }
}

/// `(i + 1).min(len.saturating_sub(1))`.
fn down_index(i: usize, len: usize) -> (r: usize)
    ensures
        r as nat == down_in(i as nat, len as nat),
{
    let last = if len > 0 { len - 1 } else { 0 };
    if i < last { i + 1 } else { last }
}

/// `i.saturating_sub(1)`.
fn dec_index(i: usize) -> (r: usize)
    ensures
        r as nat == dec(i as nat),
{
    if i > 0 { i - 1 } else { 0 }
}

impl Editor {
    fn palette_key(&mut self, k: EditorKey)
        requires
            old(self).input_mode == EditMode::EditingCustomPalette,
            k == EditorKey::Enter ==> !palette_panics(old(self).custom_palette_input@),
        ensures
            final(self)@ =~= palette_next(old(self)@, k),
            untouched(old(self).cfg, final(self).cfg),
    {
        match k {
            EditorKey::Enter => {
                let parsed = palette_colors(self.custom_palette_input.as_str());
                if parsed.len() > 0 {
                    self.cfg.logo.colors = parsed;
                    self.dirty = true;
                }
                self.input_mode = EditMode::Normal;
            },
            EditorKey::Esc => {
                self.input_mode = EditMode::Normal;
            },
            EditorKey::Char(c) => {
                push_char(&mut self.custom_palette_input, c);
            },
            EditorKey::Backspace => {
                pop_char(&mut self.custom_palette_input);
            },
            _ => {},
        }
    }

    fn label_key(&mut self, k: EditorKey)
        requires
            old(self).input_mode == EditMode::EditingLabel,
        ensures
            final(self)@ =~= label_next(old(self)@, k),
            untouched(old(self).cfg, final(self).cfg),
    {
        match k {
            EditorKey::Enter => {
                let label = to_string(self.editing_label_input.as_str());
                if self.panel_focus {
                    if self.panel_right_sel < self.cfg.display.right.len() {
                        set_label(&mut self.cfg.display.right, self.panel_right_sel, label);
                        self.dirty = true;
                    }
                } else {
                    if self.panel_left_sel < self.cfg.display.left.len() {
                        set_label(&mut self.cfg.display.left, self.panel_left_sel, label);
                        self.dirty = true;
                    }
                }
                self.input_mode = EditMode::Normal;
            },
            EditorKey::Esc => {
                self.input_mode = EditMode::Normal;
            },
            EditorKey::Char(c) => {
                push_char(&mut self.editing_label_input, c);
            },
            EditorKey::Backspace => {
                pop_char(&mut self.editing_label_input);
            },
            _ => {},
        }
    }

    fn adding_key(&mut self, k: EditorKey)
        requires
            old(self).input_mode == EditMode::AddingPanel,
        ensures
            final(self)@ =~= adding_next(old(self)@, k),
            untouched(old(self).cfg, final(self).cfg),
    {
        match k {
            EditorKey::Up => {
                self.add_panel_sel = dec_index(self.add_panel_sel);
            },
            EditorKey::Down => {
                self.add_panel_sel = down_index(self.add_panel_sel, self.add_panel_available.len());
            },
            EditorKey::Enter => {
                if self.add_panel_sel < self.add_panel_available.len() {
                    let e = &self.add_panel_available[self.add_panel_sel];
                    let key = e.0.as_str();
                    proof {
                        assert(field_keys(self.cfg.display.left@) =~= keys_of(fields_view(self.cfg.display.left@)));
                        assert(field_keys(self.cfg.display.right@) =~= keys_of(fields_view(self.cfg.display.right@)));
                    }
                    let exists = has_key_exec(&self.cfg.display.left, key) || has_key_exec(&self.cfg.display.right, key);
                    if !exists {
                        let fd = FieldDef {
                            field: to_string(e.0.as_str()),
                            icon: to_string(e.1.as_str()),
                            label: to_string(e.2.as_str()),
                            enabled: true,
                        };
                        let ghost before = self.cfg.display.left@;
                        self.cfg.display.left.push(fd);
                        self.dirty = true;
                        proof {
                            assert(fields_view(self.cfg.display.left@) =~= fields_view(before).push(field_view(fd)));
                        }
                    }
                }
                self.input_mode = EditMode::Normal;
            },
            EditorKey::Esc => {
                self.input_mode = EditMode::Normal;
            },
            _ => {},
        }
    }

    fn pasting_key(&mut self, k: EditorKey)
        requires
            old(self).input_mode == EditMode::PastingAscii,
            old(self).logo_keys@.len() + 2 <= usize::MAX,
        ensures
            final(self)@ =~= pasting_next(old(self)@, k),
            final(self).cfg == old(self).cfg,
    {
        match k {
            EditorKey::Enter => {
                if !self.paste_buffer.as_str().is_empty() {
                    self.ascii_art = to_string(self.paste_buffer.as_str());
                    self.ascii_source = AsciiSource::Pasted;
                    self.ascii_selected = self.logo_keys.len() + 1;
                    self.dirty = true;
                }
                self.paste_buffer = String::new();
                self.input_mode = EditMode::Normal;
            },
            EditorKey::Esc => {
                self.paste_buffer = String::new();
                self.input_mode = EditMode::Normal;
            },
            EditorKey::Char(c) => {
                push_char(&mut self.paste_buffer, c);
            },
            EditorKey::Backspace => {
                pop_char(&mut self.paste_buffer);
            },
            _ => {},
        }
    }

    fn browsing_key(&mut self, k: EditorKey) -> (r: EditorAction)
        requires
            old(self).input_mode == EditMode::BrowsingFile,
        ensures
            final(self)@ =~= browsing_next(old(self)@, k).0,
            r == browsing_next(old(self)@, k).1,
            final(self).cfg == old(self).cfg,
    {
        match k {
            EditorKey::Up => {
                self.file_browser_sel = dec_index(self.file_browser_sel);
                EditorAction::Continue
            },
            EditorKey::Down => {
                self.file_browser_sel = down_index(self.file_browser_sel, self.file_browser_entries.len());
                EditorAction::Continue
            },
            EditorKey::Char('~') => EditorAction::BrowseHome,
            EditorKey::Backspace => EditorAction::BrowseParent,
            EditorKey::Enter => {
                if self.file_browser_sel < self.file_browser_entries.len() {
                    if self.file_browser_entries[self.file_browser_sel].1 {
                        EditorAction::BrowseInto(self.file_browser_sel)
                    } else {
                        EditorAction::OpenFile(self.file_browser_sel)
                    }
                } else {
                    EditorAction::Continue
                }
            },
            EditorKey::Esc => {
                self.input_mode = EditMode::Normal;
                EditorAction::Continue
            },
            _ => EditorAction::Continue,
        }
    }
}


impl Editor {
    /// Applies desktop layout `idx`: records it and sets the panel spacing
    /// (an index past the five layouts changes nothing).
    pub fn apply_layout(&mut self, idx: usize)
        ensures
            final(self)@ == layout_applied(old(self)@, idx as nat),
            untouched(old(self).cfg, final(self).cfg),
    {
        match apply_pc_layout(&mut self.cfg.panel, idx) {
            Some(l) => {
                self.app_layout = l;
                self.dirty = true;
            },
            None => {},
        }
    }

    /// Menu position of the scene whose lower-cased name is the chosen
    /// scene, or 0.
    fn scene_position(&self) -> (r: usize)
        ensures
            r as nat == scene_pos(self.scene@),
            r < 4,
    {
        let scenes = Scene::all();
        let mut i: usize = 0;
        while i < 4
            invariant
                i <= 4,
                scenes@ == seq![Scene::Classic, Scene::Dashboard, Scene::Cockpit, Scene::ClassicFetch],
                forall|j: nat| j < i ==> lowercase(scene_name(#[trigger] scene_at(j))) != self.scene@,
            decreases 4 - i,
        {
            let name = to_lower(scenes[i].name());
            proof {
                assert(scenes@[i as int] == scene_at(i as nat));
            }
            if str_eq(name.as_str(), self.scene.as_str()) {
                proof {
                    assert(lowercase(scene_name(scene_at(0))) != self.scene@ || i == 0);
                }
                return i;
            }
            i += 1;
        }
        proof {
            assert(lowercase(scene_name(scene_at(0))) != self.scene@);
            assert(lowercase(scene_name(scene_at(1))) != self.scene@);
            assert(lowercase(scene_name(scene_at(2))) != self.scene@);
            assert(lowercase(scene_name(scene_at(3))) != self.scene@);
        }
        0
    }

    /// Chooses the scene at menu position `i`.
    fn set_scene(&mut self, i: usize)
        requires
            i < 4,
        ensures
            final(self)@ == (EditorModel { scene: lowercase(scene_name(scene_at(i as nat))), dirty: true, ..old(self)@ }),
            final(self).cfg == old(self).cfg,
    {
        let scenes = Scene::all();
        proof {
            assert(scenes@[i as int] == scene_at(i as nat));
        }
        self.scene = to_lower(scenes[i].name());
        self.dirty = true;
    }

    /// Chooses built-in logo `i`.
    fn choose_builtin(&mut self, i: usize)
        requires
            i < old(self).logo_keys@.len(),
        ensures
            final(self)@ == builtin_chosen(old(self)@, i as int),
            untouched(old(self).cfg, final(self).cfg),
            final(self).cfg.display == old(self).cfg.display,
            final(self).cfg.panel == old(self).cfg.panel,
    {
        self.ascii_source = AsciiSource::Builtin(to_string(self.logo_keys[i].as_str()));
        self.cfg.logo.key = to_string(self.logo_keys[i].as_str());
        self.dirty = true;
        proof {
            assert(views(self.logo_keys@)[i as int] == self.logo_keys@[i as int]@);
        }
    }

    /// Switches the logo off.
    fn disable_logo(&mut self)
        ensures
            final(self)@ == disabled(old(self)@),
            untouched(old(self).cfg, final(self).cfg),
            final(self).cfg.display == old(self).cfg.display,
            final(self).cfg.panel == old(self).cfg.panel,
    {
        self.ascii_source = AsciiSource::Disabled;
        self.cfg.logo.key = String::new();
        self.cfg.logo.path = to_string("disabled");
        self.ascii_art = String::new();
        self.dirty = true;
    }

    /// Takes theme `ts` as the selection and, if there is such a theme,
    /// its palette.
    fn select_theme(&mut self, ts: usize)
        ensures
            final(self)@ == (if ts < old(self)@.themes.len() {
                EditorModel { theme_selected: ts as nat, colors: old(self)@.themes[ts as int], dirty: true, ..old(self)@ }
            } else {
                EditorModel { theme_selected: ts as nat, ..old(self)@ }
            }),
            untouched(old(self).cfg, final(self).cfg),
    {
        self.theme_selected = ts;
        if ts < self.themes.len() {
            self.cfg.logo.colors = copy_colors(&self.themes[ts].colors);
            self.dirty = true;
        }
    }

    /// The lower-cased logo keys and search.
    fn search_terms(&self) -> (r: (Vec<String>, String))
        ensures
            views(r.0@) == lowered(views(self.logo_keys@)),
            r.1@ == lowercase(self.ascii_search@),
    {
        let lk = lower_all(&self.logo_keys);
        proof {
            assert(views(lk@) =~= lowered(views(self.logo_keys@)));
        }
        (lk, to_lower(self.ascii_search.as_str()))
    }

    fn up_key(&mut self) -> (r: EditorAction)
        requires
            editor_wf(old(self)@),
        ensures
            final(self)@ =~= up_next(old(self)@).0,
            r == up_next(old(self)@).1,
            editor_wf(final(self)@),
            untouched(old(self).cfg, final(self).cfg),
    {
        match self.tab {
            Tab::Mode => {
                if self.mode_focus {
                    let ls = dec_index(self.layout_selected);
                    self.layout_selected = ls;
                    self.apply_layout(ls);
                } else {
                    let ms = dec_index(self.mode_selected);
                    self.mode_selected = ms;
                    let modes = DisplayMode::all();
                    if ms < modes.len() {
                        self.display_mode = modes[ms];
                        self.dirty = true;
                    }
                }
                EditorAction::Continue
            },
            Tab::Layout => {
                let cur = self.scene_position();
                self.set_scene(dec_index(cur));
                EditorAction::Continue
            },
            Tab::Theme => {
                self.select_theme(dec_index(self.theme_selected));
                EditorAction::Continue
            },
            Tab::Ascii => {
                let (lk, q) = self.search_terms();
                let n = self.logo_keys.len();
                let ns = step_up(&lk, q.as_str(), self.ascii_selected);
                proof {
                    lemma_search_up_le(lowered(views(self.logo_keys@)), lowercase(self.ascii_search@), self.ascii_selected as nat);
                }
                if ns != self.ascii_selected {
                    self.ascii_selected = ns;
                    if ns < n {
                        self.choose_builtin(ns);
                        EditorAction::LoadArt
                    } else {
                        EditorAction::Continue
                    }
                } else {
                    EditorAction::Continue
                }
            },
            Tab::Panels => {
                if self.panel_focus {
                    self.panel_right_sel = dec_index(self.panel_right_sel);
                } else {
                    self.panel_left_sel = dec_index(self.panel_left_sel);
                }
                EditorAction::Continue
            },
            _ => EditorAction::Continue,
        }
    }

    fn down_key(&mut self) -> (r: EditorAction)
        requires
            editor_wf(old(self)@),
        ensures
            final(self)@ =~= down_next(old(self)@).0,
            r == down_next(old(self)@).1,
            editor_wf(final(self)@),
            untouched(old(self).cfg, final(self).cfg),
    {
        match self.tab {
            Tab::Mode => {
                if self.mode_focus {
                    let ls = down_index(self.layout_selected, 5);
                    self.layout_selected = ls;
                    self.apply_layout(ls);
                } else {
                    let ms = down_index(self.mode_selected, 3);
                    self.mode_selected = ms;
                    let modes = DisplayMode::all();
                    if ms < modes.len() {
                        self.display_mode = modes[ms];
                        self.dirty = true;
                    }
                }
                EditorAction::Continue
            },
            Tab::Layout => {
                let cur = self.scene_position();
                self.set_scene(down_index(cur, 4));
                EditorAction::Continue
            },
            Tab::Theme => {
                let ts = down_index(self.theme_selected, self.themes.len());
                self.select_theme(ts);
                EditorAction::Continue
            },
            Tab::Ascii => {
                let (lk, q) = self.search_terms();
                let n = self.logo_keys.len();
                let max = n + 2;
                let ns = step_down(&lk, q.as_str(), self.ascii_selected, max);
                proof {
                    lemma_search_down_bound(lowered(views(self.logo_keys@)), lowercase(self.ascii_search@), self.ascii_selected as nat, max as nat);
                }
                if ns != self.ascii_selected && ns <= max {
                    self.ascii_selected = ns;
                    if ns < n {
                        self.choose_builtin(ns);
                        EditorAction::LoadArt
                    } else if ns == max {
                        self.disable_logo();
                        EditorAction::Continue
                    } else {
                        EditorAction::Continue
                    }
                } else {
                    EditorAction::Continue
                }
            },
            Tab::Panels => {
                if self.panel_focus {
                    self.panel_right_sel = down_index(self.panel_right_sel, self.cfg.display.right.len());
                } else {
                    self.panel_left_sel = down_index(self.panel_left_sel, self.cfg.display.left.len());
                }
                EditorAction::Continue
            },
            _ => EditorAction::Continue,
        }
    }
}


/// Whether `c` extends the logo search.
fn search_char(c: char) -> (b: bool)
    ensures
        b == is_search_char(c),
{
    ('a' <= c && c <= 'z') || ('A' <= c && c <= 'Z') || ('0' <= c && c <= '9') || c == '-' || c == '_'
}

impl Editor {
    /// Space, `d`, `r` and `e` on the panel tab, acting on the selected
    /// field of the focused panel.
    fn panel_key(&mut self, k: EditorKey) -> (r: EditorAction)
        requires
            editor_wf(old(self)@),
            old(self).tab == Tab::Panels,
            k == EditorKey::Char(' ') || k == EditorKey::Char('d') || k == EditorKey::Char('r') || k == EditorKey::Char('e'),
        ensures
            final(self)@ =~= normal_next(old(self)@, k).0,
            r == normal_next(old(self)@, k).1,
            editor_wf(final(self)@),
            untouched(old(self).cfg, final(self).cfg),
    {
        let focus = self.panel_focus;
        let i = if focus { self.panel_right_sel } else { self.panel_left_sel };
        let len = if focus { self.cfg.display.right.len() } else { self.cfg.display.left.len() };
        let ghost s = focused(self@);
        proof {
            assert(s.len() == len);
        }
        match k {
            EditorKey::Char(' ') => {
                if i < len {
                    if focus {
                        toggle_field(&mut self.cfg.display.right, i);
                    } else {
                        toggle_field(&mut self.cfg.display.left, i);
                    }
                    self.dirty = true;
                    proof {
                        assert(focused(self@) =~= s.update(i as int, flipped(s[i as int])));
                    }
                }
            },
            EditorKey::Char('d') => {
                if i < len {
                    if focus {
                        self.cfg.display.right.remove(i);
                        proof {
                            crate::setup::lemma_fields_view_remove(old(self).cfg.display.right@, i as int);
                        }
                    } else {
                        self.cfg.display.left.remove(i);
                        proof {
                            crate::setup::lemma_fields_view_remove(old(self).cfg.display.left@, i as int);
                        }
                    }
                    self.dirty = true;
                }
            },
            EditorKey::Char('r') => {
                if i > 0 && i < len {
                    if focus {
                        let ns = move_field_up(&mut self.cfg.display.right, i);
                        self.panel_right_sel = ns;
                    } else {
                        let ns = move_field_up(&mut self.cfg.display.left, i);
                        self.panel_left_sel = ns;
                    }
                    self.dirty = true;
                    proof {
                        assert(focused(self@) =~= s.update(i - 1, s[i as int]).update(i as int, s[i - 1]));
                    }
                }
            },
            _ => {
                if i < len {
                    let label = if focus {
                        to_string(self.cfg.display.right[i].label.as_str())
                    } else {
                        to_string(self.cfg.display.left[i].label.as_str())
                    };
                    self.editing_label_input = label;
                    self.input_mode = EditMode::EditingLabel;
                }
            },
        }
        EditorAction::Continue
    }

    /// Backspace on the logo tab with a search typed.
    fn search_back_key(&mut self)
        requires
            editor_wf(old(self)@),
            old(self)@.search.len() > 0,
        ensures
            final(self)@ =~= search_back(old(self)@),
            editor_wf(final(self)@),
            final(self).cfg == old(self).cfg,
    {
        pop_char(&mut self.ascii_search);
        let (lk, q) = self.search_terms();
        let n = self.logo_keys.len();
        if !q.as_str().is_empty() && self.ascii_selected < n && !contains(lk[self.ascii_selected].as_str(), q.as_str()) {
            proof {
                assert(views(lk@)[self.ascii_selected as int] == lk@[self.ascii_selected as int]@);
                lemma_match_from_bound(views(lk@), q@, 0);
            }
            self.ascii_selected = find_first(&lk, q.as_str());
        } else {
            proof {
                if self.ascii_selected < n {
                    assert(views(lk@)[self.ascii_selected as int] == lk@[self.ascii_selected as int]@);
                }
            }
        }
        self.dirty = true;
    }

    /// A search character on the logo tab.
    fn search_type_key(&mut self, c: char) -> (r: EditorAction)
        requires
            editor_wf(old(self)@),
        ensures
            final(self)@ =~= search_type(old(self)@, c).0,
            r == search_type(old(self)@, c).1,
            editor_wf(final(self)@),
            untouched(old(self).cfg, final(self).cfg),
    {
        push_char(&mut self.ascii_search, c);
        let (lk, q) = self.search_terms();
        let n = self.logo_keys.len();
        let stale = if self.ascii_selected >= n {
            true
        } else {
            proof {
                assert(views(lk@)[self.ascii_selected as int] == lk@[self.ascii_selected as int]@);
            }
            !contains(lk[self.ascii_selected].as_str(), q.as_str())
        };
        self.dirty = true;
        if stale {
            let p = find_first(&lk, q.as_str());
            proof {
                lemma_match_from_bound(views(lk@), q@, 0);
            }
            self.ascii_selected = p;
            if p < n {
                self.choose_builtin(p);
                return EditorAction::LoadArt;
            }
        }
        EditorAction::Continue
    }

    fn normal_key(&mut self, k: EditorKey) -> (r: EditorAction)
        requires
            editor_wf(old(self)@),
            old(self).input_mode == EditMode::Normal,
        ensures
            final(self)@ =~= normal_next(old(self)@, k).0,
            r == normal_next(old(self)@, k).1,
            editor_wf(final(self)@),
            untouched(old(self).cfg, final(self).cfg),
    {
        let tab = self.tab;
        match k {
            EditorKey::Char('q') => EditorAction::Quit,
            EditorKey::Enter | EditorKey::Tab => {
                self.tab = tab.next();
                EditorAction::Continue
            },
            EditorKey::BackTab => {
                self.tab = tab.prev();
                EditorAction::Continue
            },
            EditorKey::Left => {
                if tab == Tab::Mode {
                    self.mode_focus = false;
                }
                if tab == Tab::Panels {
                    self.panel_focus = false;
                }
                EditorAction::Continue
            },
            EditorKey::Right => {
                if tab == Tab::Mode {
                    self.mode_focus = true;
                }
                if tab == Tab::Panels {
                    self.panel_focus = true;
                }
                EditorAction::Continue
            },
            EditorKey::Up => self.up_key(),
            EditorKey::Down => self.down_key(),
            EditorKey::Char(' ') | EditorKey::Char('r') | EditorKey::Char('e') => {
                if tab == Tab::Panels {
                    self.panel_key(k)
                } else {
                    EditorAction::Continue
                }
            },
            EditorKey::Char('/') => {
                if tab == Tab::Panels {
                    self.panel_focus = !self.panel_focus;
                }
                EditorAction::Continue
            },
            EditorKey::Char('a') => {
                if tab == Tab::Panels {
                    self.input_mode = EditMode::AddingPanel;
                    self.add_panel_sel = 0;
                }
                EditorAction::Continue
            },
            EditorKey::Char('d') => {
                if tab == Tab::Panels {
                    self.panel_key(k)
                } else {
                    if tab == Tab::Ascii {
                        self.disable_logo();
                        self.ascii_selected = self.logo_keys.len() + 2;
                    }
                    EditorAction::Continue
                }
            },
            EditorKey::Char('s') => {
                if tab == Tab::Save {
                    self.saved = true;
                    EditorAction::Quit
                } else {
                    EditorAction::Continue
                }
            },
            EditorKey::Char('v') => {
                if tab == Tab::Theme {
                    let vertical = str_eq(self.cfg.logo.color_dir.as_str(), "vertical");
                    self.cfg.logo.color_dir = if vertical { to_string("horizontal") } else { to_string("vertical") };
                    self.dirty = true;
                }
                EditorAction::Continue
            },
            EditorKey::Char('c') => {
                if tab == Tab::Theme {
                    self.custom_palette_input = String::new();
                    self.input_mode = EditMode::EditingCustomPalette;
                    EditorAction::Continue
                } else if tab == Tab::Ascii {
                    self.input_mode = EditMode::BrowsingFile;
                    self.file_browser_sel = 0;
                    EditorAction::RefreshBrowser
                } else {
                    EditorAction::Continue
                }
            },
            EditorKey::Char('p') => {
                if tab == Tab::Ascii {
                    self.input_mode = EditMode::PastingAscii;
                }
                EditorAction::Continue
            },
            EditorKey::Esc => {
                if tab == Tab::Ascii && !self.ascii_search.as_str().is_empty() {
                    self.ascii_search = String::new();
                    EditorAction::Continue
                } else {
                    EditorAction::Quit
                }
            },
            EditorKey::Backspace => {
                if tab == Tab::Ascii && !self.ascii_search.as_str().is_empty() {
                    self.search_back_key();
                }
                EditorAction::Continue
            },
            EditorKey::Char(c) => {
                if tab == Tab::Ascii && search_char(c) {
                    self.search_type_key(c)
                } else {
                    EditorAction::Continue
                }
            },
            _ => EditorAction::Continue,
        }
    }
}


impl Editor {
    /// Reacts to an input event: the editor moves to the state
    /// `editor_next` gives, keeps every selection where `editor_wf` wants
    /// it, and never changes the title, the separator or the panel colours.
    /// The caller then performs the returned action and redraws the
    /// preview when `dirty` is set.
    pub fn handle_event(&mut self, ev: EditorEvent) -> (r: EditorAction)
        requires
            editor_wf(old(self)@),
            old(self).input_mode == EditMode::EditingCustomPalette && ev == EditorEvent::Key(EditorKey::Enter)
                ==> !palette_panics(old(self).custom_palette_input@),
        ensures
            final(self)@ =~= editor_next(old(self)@, ev).0,
            r == editor_next(old(self)@, ev).1,
            editor_wf(final(self)@),
            untouched(old(self).cfg, final(self).cfg),
    {
        match ev {
            EditorEvent::Resize(w, h) => {
                self.term_width = w;
                self.term_height = h;
                self.preview_width = if w >= 20 { (w - 20) as usize } else { 0 };
                self.dirty = true;
                EditorAction::Continue
            },
            EditorEvent::Key(k) => match self.input_mode {
                EditMode::EditingCustomPalette => {
                    self.palette_key(k);
                    EditorAction::Continue
                },
                EditMode::EditingLabel => {
                    self.label_key(k);
                    EditorAction::Continue
                },
                EditMode::AddingPanel => {
                    self.adding_key(k);
                    EditorAction::Continue
                },
                EditMode::PastingAscii => {
                    self.pasting_key(k);
                    EditorAction::Continue
                },
                EditMode::BrowsingFile => self.browsing_key(k),
                EditMode::EditingHexColor(_) => {
                    self.input_mode = EditMode::Normal;
                    EditorAction::Continue
                },
                EditMode::Normal => self.normal_key(k),
            },
            EditorEvent::Other => EditorAction::Continue,
        }
    }

    /// Shows a directory listing in the file browser, with the first entry
    /// selected.
    pub fn show_entries(&mut self, entries: Vec<(String, bool)>)
        requires
            editor_wf(old(self)@),
        ensures
            final(self)@ == (EditorModel {
                entries: entries@.map_values(|e: (String, bool)| entry_view(e)),
                browser_sel: 0,
                ..old(self)@
            }),
            editor_wf(final(self)@),
            final(self).cfg == old(self).cfg,
    {
        self.file_browser_entries = entries;
        self.file_browser_sel = 0;
    }

    /// Takes freshly loaded logo art.
    pub fn set_art(&mut self, art: String)
        ensures
            final(self)@ == (EditorModel { art: art@, ..old(self)@ }),
            final(self).cfg == old(self).cfg,
    {
        self.ascii_art = art;
    }

    /// Makes the file at `path` the logo: the configuration names it, the
    /// custom-file entry is selected, the browser closes.
    pub fn use_file(&mut self, path: String)
        requires
            editor_wf(old(self)@),
        ensures
            final(self)@ == (EditorModel {
                logo_path: path@,
                source: SourceView::File(path@),
                ascii_selected: old(self)@.logo_keys.len(),
                dirty: true,
                mode: EditMode::Normal,
                ..old(self)@
            }),
            editor_wf(final(self)@),
            untouched(old(self).cfg, final(self).cfg),
    {
        self.cfg.logo.path = to_string(path.as_str());
        self.ascii_source = AsciiSource::File(path);
        self.ascii_selected = self.logo_keys.len();
        self.dirty = true;
        self.input_mode = EditMode::Normal;
    }

    /// Records that the preview was redrawn.
    pub fn preview_done(&mut self)
        ensures
            final(self)@ == (EditorModel { dirty: false, ..old(self)@ }),
            final(self).cfg == old(self).cfg,
    {
        self.dirty = false;
    }
}


// ── Starting the editor ──────────────────────────────────────────────────

/// Views of fields on offer.
pub open spec fn offers_view(v: Seq<(String, String, String)>) -> Seq<(Seq<char>, Seq<char>, Seq<char>)> {
    v.map_values(|e: (String, String, String)| offer_view(e))
}

/// The fields offered on desktops: key, icon, label.
pub open spec fn desktop_offers() -> Seq<(Seq<char>, Seq<char>, Seq<char>)> {
    seq![
        ("os"@, "\u{f17c}"@, "OS"@),
        ("host"@, "\u{f109}"@, "Host"@),
        ("user"@, "\u{f007}"@, "Usr"@),
        ("kernel"@, "\u{e271}"@, "Krn"@),
        ("uptime"@, "\u{f017}"@, "Up"@),
        ("packages"@, "\u{f1b3}"@, "Pkg"@),
        ("shell"@, "\u{f489}"@, "Sh"@),
        ("terminal"@, "\u{f120}"@, "Term"@),
        ("cpu"@, "\u{f2db}"@, "CPU"@),
        ("gpu"@, "\u{f26c}"@, "GPU"@),
        ("memory"@, "\u{f1c0}"@, "Mem"@),
        ("disk"@, "\u{f0a0}"@, "Dsk"@),
        ("wm"@, "\u{f108}"@, "WM"@),
        ("load"@, "\u{f0e7}"@, "Load"@),
        ("processes"@, "\u{f013}"@, "Proc"@),
        ("local_ip"@, "\u{f0c1}"@, "IP"@),
        ("resolution"@, "\u{f108}"@, "Res"@),
        ("de"@, "\u{f11b}"@, "DE"@),
        ("font"@, "\u{f031}"@, "Font"@),
        ("vram"@, "\u{f26c}"@, "VRAM"@),
        ("flatpak"@, "\u{f2d8}"@, "Flatpak"@),
        ("snap"@, "\u{f1b3}"@, "Snap"@)
    ]
}

/// The fields offered on phones: key, icon, label.
pub open spec fn android_offers() -> Seq<(Seq<char>, Seq<char>, Seq<char>)> {
    seq![
        ("device"@, "\u{f109}"@, "Device"@),
        ("os"@, "\u{f17c}"@, "OS"@),
        ("rom"@, "\u{f0c6}"@, "ROM"@),
        ("soc"@, "\u{f2db}"@, "SoC"@),
        ("arch"@, "\u{f17c}"@, "Arch"@),
        ("kernel"@, "\u{e271}"@, "Krn"@),
        ("battery_level"@, "\u{f0e7}"@, "Bat"@),
        ("battery_temp"@, "\u{f2c7}"@, "Temp"@),
        ("battery_health"@, "\u{f004}"@, "Health"@),
        ("battery_status"@, "\u{f0e7}"@, "Charge"@),
        ("memory"@, "\u{f1c0}"@, "RAM"@),
        ("storage"@, "\u{f0a0}"@, "Stor"@),
        ("cpu"@, "\u{f2db}"@, "CPU"@),
        ("gpu"@, "\u{f26c}"@, "GPU"@),
        ("cpu_temp"@, "\u{f2c7}"@, "CPU Temp"@),
        ("uptime"@, "\u{f017}"@, "Up"@),
        ("packages"@, "\u{f1b3}"@, "Pkg"@),
        ("root_status"@, "\u{f023}"@, "Root"@),
        ("bootloader"@, "\u{f085}"@, "Bootloader"@),
        ("selinux"@, "\u{f023}"@, "SELinux"@),
        ("resolution"@, "\u{f108}"@, "Res"@),
        ("brightness"@, "\u{f185}"@, "Brightness"@),
        ("refresh_rate"@, "\u{f26c}"@, "Refresh"@),
        ("signal"@, "\u{f012}"@, "Signal"@),
        ("wifi_ssid"@, "\u{f1eb}"@, "WiFi"@),
        ("security_patch"@, "\u{f021}"@, "Patch"@),
        ("uptime_days"@, "\u{f017}"@, "Uptime"@),
        ("shell"@, "\u{f489}"@, "Sh"@)
    ]
}

/// The fields that also come as a progress bar, in the order their bar
/// variants are offered.
pub open spec fn bar_bases() -> Seq<Seq<char>> {
    seq!["cpu"@, "gpu"@, "memory"@, "disk"@, "vram"@, "load"@, "cpu_temp"@, "battery_level"@, "brightness"@, "signal"@, "storage"@]
}

/// A field on offer made from three strings.
fn offer(k: &str, i: &str, l: &str) -> (r: (String, String, String))
    ensures
        offer_view(r) == (k@, i@, l@),
{
    (to_string(k), to_string(i), to_string(l))
}

/// The fields offered on desktops.
fn desktop_offer_list() -> (r: Vec<(String, String, String)>)
    ensures
        offers_view(r@) == desktop_offers(),
{
    let mut v: Vec<(String, String, String)> = Vec::new();
    v.push(offer("os", "\u{f17c}", "OS"));
    v.push(offer("host", "\u{f109}", "Host"));
    v.push(offer("user", "\u{f007}", "Usr"));
    v.push(offer("kernel", "\u{e271}", "Krn"));
    v.push(offer("uptime", "\u{f017}", "Up"));
    v.push(offer("packages", "\u{f1b3}", "Pkg"));
    v.push(offer("shell", "\u{f489}", "Sh"));
    v.push(offer("terminal", "\u{f120}", "Term"));
    v.push(offer("cpu", "\u{f2db}", "CPU"));
    v.push(offer("gpu", "\u{f26c}", "GPU"));
    v.push(offer("memory", "\u{f1c0}", "Mem"));
    v.push(offer("disk", "\u{f0a0}", "Dsk"));
    v.push(offer("wm", "\u{f108}", "WM"));
    v.push(offer("load", "\u{f0e7}", "Load"));
    v.push(offer("processes", "\u{f013}", "Proc"));
    v.push(offer("local_ip", "\u{f0c1}", "IP"));
    v.push(offer("resolution", "\u{f108}", "Res"));
    v.push(offer("de", "\u{f11b}", "DE"));
    v.push(offer("font", "\u{f031}", "Font"));
    v.push(offer("vram", "\u{f26c}", "VRAM"));
    v.push(offer("flatpak", "\u{f2d8}", "Flatpak"));
    v.push(offer("snap", "\u{f1b3}", "Snap"));
    proof {
        assert(offers_view(v@) =~= desktop_offers());
    }
    v
}

/// The fields offered on phones.
fn android_offer_list() -> (r: Vec<(String, String, String)>)
    ensures
        offers_view(r@) == android_offers(),
{
    let mut v: Vec<(String, String, String)> = Vec::new();
    v.push(offer("device", "\u{f109}", "Device"));
    v.push(offer("os", "\u{f17c}", "OS"));
    v.push(offer("rom", "\u{f0c6}", "ROM"));
    v.push(offer("soc", "\u{f2db}", "SoC"));
    v.push(offer("arch", "\u{f17c}", "Arch"));
    v.push(offer("kernel", "\u{e271}", "Krn"));
    v.push(offer("battery_level", "\u{f0e7}", "Bat"));
    v.push(offer("battery_temp", "\u{f2c7}", "Temp"));
    v.push(offer("battery_health", "\u{f004}", "Health"));
    v.push(offer("battery_status", "\u{f0e7}", "Charge"));
    v.push(offer("memory", "\u{f1c0}", "RAM"));
    v.push(offer("storage", "\u{f0a0}", "Stor"));
    v.push(offer("cpu", "\u{f2db}", "CPU"));
    v.push(offer("gpu", "\u{f26c}", "GPU"));
    v.push(offer("cpu_temp", "\u{f2c7}", "CPU Temp"));
    v.push(offer("uptime", "\u{f017}", "Up"));
    v.push(offer("packages", "\u{f1b3}", "Pkg"));
    v.push(offer("root_status", "\u{f023}", "Root"));
    v.push(offer("bootloader", "\u{f085}", "Bootloader"));
    v.push(offer("selinux", "\u{f023}", "SELinux"));
    v.push(offer("resolution", "\u{f108}", "Res"));
    v.push(offer("brightness", "\u{f185}", "Brightness"));
    v.push(offer("refresh_rate", "\u{f26c}", "Refresh"));
    v.push(offer("signal", "\u{f012}", "Signal"));
    v.push(offer("wifi_ssid", "\u{f1eb}", "WiFi"));
    v.push(offer("security_patch", "\u{f021}", "Patch"));
    v.push(offer("uptime_days", "\u{f017}", "Uptime"));
    v.push(offer("shell", "\u{f489}", "Sh"));
    proof {
        assert(offers_view(v@) =~= android_offers());
    }
    v
}

/// The fields that also come as a progress bar.
fn bar_base_list() -> (r: Vec<&'static str>)
    ensures
        r@.map_values(|s: &str| s@) == bar_bases(),
{
    let v: Vec<&'static str> = vec!["cpu", "gpu", "memory", "disk", "vram", "load", "cpu_temp", "battery_level", "brightness", "signal", "storage"];
    proof {
        assert(v@.map_values(|s: &str| s@) =~= bar_bases());
    }
    v
}

/// The first entry of `cat` at or after `i` with key `key`, or the length
/// of `cat` when there is none.
pub open spec fn offer_index(cat: Seq<(Seq<char>, Seq<char>, Seq<char>)>, key: Seq<char>, i: nat) -> nat
    decreases cat.len() - i,
{
    if i >= cat.len() {
        cat.len()
    } else if cat[i as int].0 == key {
        i
    } else {
        offer_index(cat, key, i + 1)
    }
}

/// The progress-bar variants of the fields of `cat` named in `bases`, in
/// the order of `bases`: key with `"_bar"` appended, same icon, label with
/// `" [bar]"` appended.
pub open spec fn bar_offers(cat: Seq<(Seq<char>, Seq<char>, Seq<char>)>, bases: Seq<Seq<char>>) -> Seq<(Seq<char>, Seq<char>, Seq<char>)>
    decreases bases.len(),
{
    if bases.len() == 0 {
        Seq::empty()
    } else {
        let rest = bar_offers(cat, bases.drop_last());
        let b = bases.last();
        let j = offer_index(cat, b, 0);
        if j < cat.len() {
            rest.push((b + "_bar"@, cat[j as int].1, cat[j as int].2 + " [bar]"@))
        } else {
            rest
        }
    }
}

/// Everything the field picker offers: the fields of the platform, then
/// their bar variants.
pub open spec fn offers_for(android: bool) -> Seq<(Seq<char>, Seq<char>, Seq<char>)> {
    let base = if android { android_offers() } else { desktop_offers() };
    base + bar_offers(base, bar_bases())
}

proof fn lemma_offer_index_bound(cat: Seq<(Seq<char>, Seq<char>, Seq<char>)>, key: Seq<char>, i: nat)
    ensures
        offer_index(cat, key, i) <= cat.len(),
        offer_index(cat, key, i) < cat.len() ==> cat[offer_index(cat, key, i) as int].0 == key,
    decreases cat.len() - i,
{
    if i < cat.len() {
        lemma_offer_index_bound(cat, key, i + 1);
    }
}

/// Position of the first field of `cat` with key `key` (see
/// `offer_index`).
fn find_offer(cat: &Vec<(String, String, String)>, key: &str) -> (r: usize)
    ensures
        r as nat == offer_index(offers_view(cat@), key@, 0),
{
    let ghost cv = offers_view(cat@);
    let mut i: usize = 0;
    while i < cat.len()
        invariant
            i <= cat@.len(),
            cv == offers_view(cat@),
            offer_index(cv, key@, 0) == offer_index(cv, key@, i as nat),
        decreases cat@.len() - i,
    {
        proof {
            assert(cv[i as int].0 == cat@[i as int].0@);
        }
        if str_eq(cat[i].0.as_str(), key) {
            return i;
        }
        i += 1;
    }
    i
}

/// The platform's fields followed by their bar variants.
fn offer_list(android: bool) -> (r: Vec<(String, String, String)>)
    ensures
        offers_view(r@) == offers_for(android),
{
    let base = if android { android_offer_list() } else { desktop_offer_list() };
    let ghost bv = offers_view(base@);
    let bases = bar_base_list();
    let ghost bs = bar_bases();
    let mut extra: Vec<(String, String, String)> = Vec::new();
    let mut i: usize = 0;
    while i < bases.len()
        invariant
            i <= bases@.len(),
            bases@.map_values(|s: &str| s@) == bs,
            bv == offers_view(base@),
            offers_view(extra@) == bar_offers(bv, bs.take(i as int)),
        decreases bases@.len() - i,
    {
        proof {
            assert(bs.take(i + 1).drop_last() =~= bs.take(i as int));
            assert(bs.take(i + 1).last() == bases@[i as int]@);
        }
        let j = find_offer(&base, bases[i]);
        proof {
            lemma_offer_index_bound(bv, bases@[i as int]@, 0);
        }
        if j < base.len() {
            let mut key = to_string(bases[i]);
            crate::text::push_str(&mut key, "_bar");
            let mut label = to_string(base[j].2.as_str());
            crate::text::push_str(&mut label, " [bar]");
            let e = (key, to_string(base[j].1.as_str()), label);
            let ghost before = offers_view(extra@);
            extra.push(e);
            proof {
                assert(offers_view(extra@) =~= before.push(offer_view(e)));
            }
        }
        i += 1;
    }
    proof {
        assert(bs.take(bases@.len() as int) =~= bs);
    }
    let mut all = base;
    let ghost head = offers_view(all@);
    let mut k: usize = 0;
    while k < extra.len()
        invariant
            k <= extra@.len(),
            offers_view(all@) == head + offers_view(extra@).take(k as int),
        decreases extra@.len() - k,
    {
        let e = (to_string(extra[k].0.as_str()), to_string(extra[k].1.as_str()), to_string(extra[k].2.as_str()));
        let ghost before = offers_view(all@);
        all.push(e);
        proof {
            assert(offers_view(all@) =~= before.push(offer_view(e)));
            assert(offers_view(extra@).take(k + 1) =~= offers_view(extra@).take(k as int).push(offer_view(e)));
        }
        k += 1;
    }
    proof {
        assert(offers_view(extra@).take(extra@.len() as int) =~= offers_view(extra@));
    }
    all
}

/// The first palette in `palettes` at or after `i` equal to `colors`, or
/// the length of `palettes`.
pub open spec fn palette_index(palettes: Seq<Seq<Color>>, colors: Seq<Color>, i: nat) -> nat
    decreases palettes.len() - i,
{
    if i >= palettes.len() {
        palettes.len()
    } else if palettes[i as int] == colors {
        i
    } else {
        palette_index(palettes, colors, i + 1)
    }
}

/// The theme whose palette is `colors`, or 0.
pub open spec fn theme_of(palettes: Seq<Seq<Color>>, colors: Seq<Color>) -> nat {
    let p = palette_index(palettes, colors, 0);
    if p < palettes.len() { p } else { 0 }
}

/// The first key in `keys` at or after `i` equal to `key`, or the length of
/// `keys`.
pub open spec fn key_index(keys: Seq<Seq<char>>, key: Seq<char>, i: nat) -> nat
    decreases keys.len() - i,
{
    if i >= keys.len() {
        keys.len()
    } else if keys[i as int] == key {
        i
    } else {
        key_index(keys, key, i + 1)
    }
}

/// Where the configured logo comes from: the built-in key if there is
/// one, else no logo for the path `"disabled"` (in any case), else the
/// file at the path.
pub open spec fn initial_source(key: Seq<char>, path: Seq<char>) -> SourceView {
    if key.len() == 0 {
        if lowercase(path) == "disabled"@ {
            SourceView::Disabled
        } else {
            SourceView::File(path)
        }
    } else {
        SourceView::Builtin(key)
    }
}

/// The logo entry selected for a source: the built-in logo (or the first
/// one when the key is unknown), the file entry, the pasted entry or the
/// disabled entry.
pub open spec fn initial_selection(source: SourceView, keys: Seq<Seq<char>>) -> nat {
    match source {
        SourceView::Builtin(k) => {
            let p = key_index(keys, k, 0);
            if p < keys.len() { p } else { 0 }
        },
        SourceView::File(_) => keys.len(),
        SourceView::Pasted => keys.len() + 1,
        SourceView::Disabled => keys.len() + 2,
    }
}

proof fn lemma_palette_index_bound(palettes: Seq<Seq<Color>>, colors: Seq<Color>, i: nat)
    ensures
        palette_index(palettes, colors, i) <= palettes.len(),
    decreases palettes.len() - i,
{
    if i < palettes.len() {
        lemma_palette_index_bound(palettes, colors, i + 1);
    }
}

proof fn lemma_key_index_bound(keys: Seq<Seq<char>>, key: Seq<char>, i: nat)
    ensures
        key_index(keys, key, i) <= keys.len(),
    decreases keys.len() - i,
{
    if i < keys.len() {
        lemma_key_index_bound(keys, key, i + 1);
    }
}

/// Whether two palettes are equal.
fn same_colors(a: &Vec<Color>, b: &Vec<Color>) -> (r: bool)
    ensures
        r == (a@ == b@),
{
    if a.len() != b.len() {
        return false;
    }
    let mut i: usize = 0;
    while i < a.len()
        invariant
            i <= a@.len(),
            a@.len() == b@.len(),
            forall|j: int| 0 <= j < i ==> a@[j] == b@[j],
        decreases a@.len() - i,
    {
        if a[i] != b[i] {
            return false;
        }
        i += 1;
    }
    proof {
        assert(a@ =~= b@);
    }
    true
}

/// The theme whose palette is `colors`, or 0 (see `theme_of`).
fn theme_position(themes: &Vec<crate::theme::Theme>, colors: &Vec<Color>) -> (r: usize)
    ensures
        r as nat == theme_of(themes@.map_values(|t: crate::theme::Theme| t.colors@), colors@),
{
    let ghost ps = themes@.map_values(|t: crate::theme::Theme| t.colors@);
    let mut i: usize = 0;
    while i < themes.len()
        invariant
            i <= themes@.len(),
            ps == themes@.map_values(|t: crate::theme::Theme| t.colors@),
            palette_index(ps, colors@, 0) == palette_index(ps, colors@, i as nat),
        decreases themes@.len() - i,
    {
        if same_colors(&themes[i].colors, colors) {
            return i;
        }
        i += 1;
    }
    0
}

/// Position of `key` among the logo keys, or 0.
fn key_position(keys: &Vec<String>, key: &str) -> (r: usize)
    ensures
        r as nat == (if key_index(views(keys@), key@, 0) < keys@.len() { key_index(views(keys@), key@, 0) } else { 0 }),
{
    let ghost kv = views(keys@);
    let mut i: usize = 0;
    while i < keys.len()
        invariant
            i <= keys@.len(),
            kv == views(keys@),
            key_index(kv, key@, 0) == key_index(kv, key@, i as nat),
        decreases keys@.len() - i,
    {
        if str_eq(keys[i].as_str(), key) {
            return i;
        }
        i += 1;
    }
    0
}

impl Editor {
    /// An editor on `cfg` at the welcome tab, for a terminal of the given
    /// size. `logo_keys` are the built-in logos, `art` the configured logo
    /// as loaded, `android` whether the picker offers the phone fields. The
    /// theme whose palette is the configured one, the configured logo's
    /// entry and the centred layout are selected; the preview is due.
    pub fn new(
        cfg: Config,
        scene: String,
        logo_keys: Vec<String>,
        art: String,
        term_width: u16,
        term_height: u16,
        android: bool,
    ) -> (e: Editor)
        requires
            logo_keys@.len() + 2 <= usize::MAX,
        ensures
            e.cfg == cfg,
            e.scene == scene,
            e.logo_keys == logo_keys,
            e.ascii_art == art,
            e@.themes == crate::theme::builtin_themes().map_values(|p: (Seq<char>, Seq<Color>)| p.1),
            e@.theme_names == crate::theme::builtin_themes().map_values(|p: (Seq<char>, Seq<Color>)| p.0),
            e@.theme_selected == theme_of(e@.themes, cfg.logo.colors@),
            e@.source == initial_source(cfg.logo.key@, cfg.logo.path@),
            e@.ascii_selected == initial_selection(e@.source, views(logo_keys@)),
            e@.add_available == offers_for(android),
            e.tab == Tab::Welcome,
            e.app_layout == AppLayout::Centered,
            e.display_mode == DisplayMode::Desktop,
            e.mode_selected == 0,
            !e.mode_focus,
            e@.palette_input == Seq::<char>::empty(),
            !e.panel_focus,
            e.panel_left_sel == 0,
            e.panel_right_sel == 0,
            e.add_panel_sel == 0,
            e@.label_input == Seq::<char>::empty(),
            e@.entries == Seq::<(Seq<char>, bool)>::empty(),
            e.file_browser_sel == 0,
            e.layout_selected == 0,
            e@.search == Seq::<char>::empty(),
            e.input_mode == EditMode::Normal,
            e@.paste == Seq::<char>::empty(),
            !e.saved,
            e@.preview_width == (if term_width >= 20 { (term_width - 20) as nat } else { 0 }),
            e.term_width == term_width,
            e.term_height == term_height,
            e.dirty,
            editor_wf(e@),
    {
        let source = if cfg.logo.key.as_str().is_empty() {
            let lower = to_lower(cfg.logo.path.as_str());
            if str_eq(lower.as_str(), "disabled") {
                AsciiSource::Disabled
            } else {
                AsciiSource::File(to_string(cfg.logo.path.as_str()))
            }
        } else {
            AsciiSource::Builtin(to_string(cfg.logo.key.as_str()))
        };
        let themes = crate::theme::all_themes();
        proof {
            let a = themes@.map_values(|t: crate::theme::Theme| t.colors@);
            let b = crate::theme::builtin_themes().map_values(|p: (Seq<char>, Seq<Color>)| p.1);
            assert forall|i: int| 0 <= i < a.len() implies #[trigger] a[i] == b[i] by {
                assert(crate::theme::theme_view(themes@[i]) == crate::theme::builtin_themes()[i]);
            }
            assert(a =~= b);
            let an = themes@.map_values(|t: crate::theme::Theme| t.name@);
            let bn = crate::theme::builtin_themes().map_values(|p: (Seq<char>, Seq<Color>)| p.0);
            assert forall|i: int| 0 <= i < an.len() implies #[trigger] an[i] == bn[i] by {
                assert(crate::theme::theme_view(themes@[i]) == crate::theme::builtin_themes()[i]);
            }
            assert(an =~= bn);
        }
        let theme_selected = theme_position(&themes, &cfg.logo.colors);
        proof {
            lemma_palette_index_bound(themes@.map_values(|t: crate::theme::Theme| t.colors@), cfg.logo.colors@, 0);
        }
        let n = logo_keys.len();
        let ascii_selected = match &source {
            AsciiSource::Builtin(k) => {
                proof {
                    lemma_key_index_bound(views(logo_keys@), k@, 0);
                }
                key_position(&logo_keys, k.as_str())
            },
            AsciiSource::File(_) => n,
            AsciiSource::Pasted => n + 1,
            AsciiSource::Disabled => n + 2,
        };
        let available = offer_list(android);
        Editor {
            cfg,
            scene,
            tab: Tab::Welcome,
            app_layout: AppLayout::Centered,
            display_mode: DisplayMode::Desktop,
            mode_selected: 0,
            mode_focus: false,
            themes,
            theme_selected,
            custom_palette_input: String::new(),
            logo_keys,
            ascii_art: art,
            ascii_source: source,
            panel_focus: false,
            panel_left_sel: 0,
            panel_right_sel: 0,
            add_panel_available: available,
            add_panel_sel: 0,
            editing_label_input: String::new(),
            file_browser_entries: Vec::new(),
            file_browser_sel: 0,
            layout_selected: 0,
            ascii_selected,
            ascii_search: String::new(),
            input_mode: EditMode::Normal,
            paste_buffer: String::new(),
            saved: false,
            preview_width: if term_width >= 20 { (term_width - 20) as usize } else { 0 },
            term_width,
            term_height,
            dirty: true,
        }
    }
}


// ── The file browser's order ────────────────────────────────────────────

/// `a <= b` in `str` order: byte-wise lexicographic, which for UTF-8 is
/// lexicographic by code point.
pub open spec fn name_le(a: Seq<char>, b: Seq<char>) -> bool
    decreases a.len(),
{
    if a.len() == 0 {
        true
    } else if b.len() == 0 {
        false
    } else if a[0] != b[0] {
        a[0] < b[0]
    } else {
        name_le(a.drop_first(), b.drop_first())
    }
}

/// Directory entries are listed directories first, then by name.
pub open spec fn entry_le(a: (Seq<char>, bool), b: (Seq<char>, bool)) -> bool {
    if a.1 != b.1 { a.1 } else { name_le(a.0, b.0) }
}

/// Whether a listing is in browser order.
pub open spec fn entries_sorted(s: Seq<(Seq<char>, bool)>) -> bool {
    forall|i: int, j: int| 0 <= i < j < s.len() ==> entry_le(#[trigger] s[i], #[trigger] s[j])
}

proof fn lemma_name_le_total(a: Seq<char>, b: Seq<char>)
    ensures
        name_le(a, b) || name_le(b, a),
    decreases a.len(),
{
    if a.len() > 0 && b.len() > 0 && a[0] == b[0] {
        lemma_name_le_total(a.drop_first(), b.drop_first());
    }
}

proof fn lemma_name_le_trans(a: Seq<char>, b: Seq<char>, c: Seq<char>)
    requires
        name_le(a, b),
        name_le(b, c),
    ensures
        name_le(a, c),
    decreases a.len(),
{
    if a.len() > 0 && b.len() > 0 && c.len() > 0 && a[0] == b[0] && b[0] == c[0] {
        lemma_name_le_trans(a.drop_first(), b.drop_first(), c.drop_first());
    }
}

proof fn lemma_entry_le_total(a: (Seq<char>, bool), b: (Seq<char>, bool))
    ensures
        entry_le(a, b) || entry_le(b, a),
{
    lemma_name_le_total(a.0, b.0);
}

proof fn lemma_entry_le_trans(a: (Seq<char>, bool), b: (Seq<char>, bool), c: (Seq<char>, bool))
    requires
        entry_le(a, b),
        entry_le(b, c),
    ensures
        entry_le(a, c),
{
    if a.1 == b.1 && b.1 == c.1 {
        lemma_name_le_trans(a.0, b.0, c.0);
    }
}

/// `a <= b` in `str` order.
fn str_le(a: &str, b: &str) -> (r: bool)
    ensures
        r == name_le(a@, b@),
{
    let va = chars_of(a);
    let vb = chars_of(b);
    let mut i: usize = 0;
    proof {
        assert(a@.skip(0) =~= a@);
        assert(b@.skip(0) =~= b@);
    }
    while i < va.len()
        invariant
            i <= va@.len(),
            va@ == a@,
            vb@ == b@,
            i <= vb@.len(),
            name_le(a@, b@) == name_le(a@.skip(i as int), b@.skip(i as int)),
        decreases va@.len() - i,
    {
        if i >= vb.len() {
            return false;
        }
        proof {
            assert(a@.skip(i as int)[0] == va@[i as int]);
            assert(b@.skip(i as int)[0] == vb@[i as int]);
            assert(a@.skip(i as int).drop_first() =~= a@.skip(i + 1));
            assert(b@.skip(i as int).drop_first() =~= b@.skip(i + 1));
        }
        if va[i] != vb[i] {
            return va[i] < vb[i];
        }
        i += 1;
    }
    proof {
        assert(a@.skip(i as int).len() == 0);
    }
    true
}

/// Whether entry `a` goes before or with entry `b` (see `entry_le`).
fn entry_before(a: &(String, bool), b: &(String, bool)) -> (r: bool)
    ensures
        r == entry_le(entry_view(*a), entry_view(*b)),
{
    if a.1 != b.1 { a.1 } else { str_le(a.0.as_str(), b.0.as_str()) }
}

/// A directory listing in browser order: directories first, then by name;
/// the same entries, each as often as before.
pub fn sort_entries(entries: Vec<(String, bool)>) -> (r: Vec<(String, bool)>)
    ensures
        entries_sorted(r@.map_values(|e: (String, bool)| entry_view(e))),
        r@.map_values(|e: (String, bool)| entry_view(e)).to_multiset()
            == entries@.map_values(|e: (String, bool)| entry_view(e)).to_multiset(),
{
    let ghost inv = entries@.map_values(|e: (String, bool)| entry_view(e));
    let mut out: Vec<(String, bool)> = Vec::new();
    let mut rest = entries;
    let mut i: usize = 0;
    let n = rest.len();
    proof {
        assert(inv.take(0) =~= Seq::<(Seq<char>, bool)>::empty());
        assert(out@.map_values(|e: (String, bool)| entry_view(e)) =~= Seq::<(Seq<char>, bool)>::empty());
    }
    while i < n
        invariant
            n == rest@.len(),
            i <= n,
            inv == rest@.map_values(|e: (String, bool)| entry_view(e)),
            entries_sorted(out@.map_values(|e: (String, bool)| entry_view(e))),
            out@.map_values(|e: (String, bool)| entry_view(e)).to_multiset() == inv.take(i as int).to_multiset(),
        decreases n - i,
    {
        let x = (to_string(rest[i].0.as_str()), rest[i].1);
        let ghost xv = entry_view(x);
        let ghost ov = out@.map_values(|e: (String, bool)| entry_view(e));
        proof {
            assert(xv == inv[i as int]);
        }
        // first place whose entry goes strictly after x
        let mut p: usize = 0;
        while p < out.len() && entry_before(&out[p], &x)
            invariant
                p <= out@.len(),
                ov == out@.map_values(|e: (String, bool)| entry_view(e)),
                xv == entry_view(x),
                forall|k: int| 0 <= k < p ==> entry_le(#[trigger] ov[k], xv),
            decreases out@.len() - p,
        {
            proof {
                assert(ov[p as int] == entry_view(out@[p as int]));
            }
            p += 1;
        }
        proof {
            if p < out@.len() {
                assert(!entry_le(ov[p as int], xv));
                lemma_entry_le_total(ov[p as int], xv);
            }
        }
        out.insert(p, x);
        proof {
            let nv = out@.map_values(|e: (String, bool)| entry_view(e));
            assert(nv =~= ov.insert(p as int, xv));
            assert forall|a: int, b: int| 0 <= a < b < nv.len() implies entry_le(#[trigger] nv[a], #[trigger] nv[b]) by {
                if b < p {
                    assert(nv[a] == ov[a] && nv[b] == ov[b]);
                } else if b == p {
                    assert(nv[a] == ov[a]);
                } else if a > p {
                    assert(nv[a] == ov[a - 1] && nv[b] == ov[b - 1]);
                } else if a == p {
                    assert(nv[b] == ov[b - 1]);
                    if b - 1 > p {
                        lemma_entry_le_trans(xv, ov[p as int], ov[b - 1]);
                    }
                } else {
                    assert(nv[a] == ov[a] && nv[b] == ov[b - 1]);
                    if b - 1 >= p && p < ov.len() {
                        lemma_entry_le_trans(ov[a], xv, ov[p as int]);
                        if b - 1 > p {
                            lemma_entry_le_trans(ov[a], ov[p as int], ov[b - 1]);
                        }
                    }
                }
            }
            assert(inv.take(i + 1) =~= inv.take(i as int).push(xv));
            vstd::seq_lib::to_multiset_insert(ov, p as int, xv);
            inv.take(i as int).to_multiset_ensures();
            assert(nv.to_multiset() == ov.to_multiset().insert(xv));
            assert(inv.take(i + 1).to_multiset() == inv.take(i as int).to_multiset().insert(xv));
        }
        i += 1;
    }
    proof {
        assert(inv.take(n as int) =~= inv);
    }
    out
}

// ── Laws ─────────────────────────────────────────────────────────────────

/// The field keys of both panels, left first.
pub open spec fn panel_keys(m: EditorModel) -> Seq<Seq<char>> {
    keys_of(m.left) + keys_of(m.right)
}

/// No field key occurs twice across the two panels.
pub open spec fn keys_distinct(m: EditorModel) -> bool {
    panel_keys(m).no_duplicates()
}

proof fn lemma_remove_no_dup<A>(s: Seq<A>, i: int)
    requires
        s.no_duplicates(),
        0 <= i < s.len(),
    ensures
        s.remove(i).no_duplicates(),
{
    let t = s.remove(i);
    assert forall|p: int, q: int| 0 <= p < t.len() && 0 <= q < t.len() && p != q implies t[p] != t[q] by {
        let p2 = if p < i { p } else { p + 1 };
        let q2 = if q < i { q } else { q + 1 };
        assert(t[p] == s[p2]);
        assert(t[q] == s[q2]);
    }
}

proof fn lemma_swap_no_dup<A>(s: Seq<A>, j: int)
    requires
        s.no_duplicates(),
        0 <= j,
        j + 1 < s.len(),
    ensures
        s.update(j, s[j + 1]).update(j + 1, s[j]).no_duplicates(),
{
    let t = s.update(j, s[j + 1]).update(j + 1, s[j]);
    assert forall|p: int, q: int| 0 <= p < t.len() && 0 <= q < t.len() && p != q implies t[p] != t[q] by {
        let p2 = if p == j { j + 1 } else if p == j + 1 { j } else { p };
        let q2 = if q == j { j + 1 } else if q == j + 1 { j } else { q };
        assert(t[p] == s[p2]);
        assert(t[q] == s[q2]);
    }
}

proof fn lemma_insert_no_dup<A>(s: Seq<A>, i: int, x: A)
    requires
        s.no_duplicates(),
        !s.contains(x),
        0 <= i <= s.len(),
    ensures
        s.insert(i, x).no_duplicates(),
{
    let t = s.insert(i, x);
    assert forall|p: int, q: int| 0 <= p < t.len() && 0 <= q < t.len() && p != q implies t[p] != t[q] by {
        if p != i && q != i {
            let p2 = if p < i { p } else { p - 1 };
            let q2 = if q < i { q } else { q - 1 };
            assert(t[p] == s[p2]);
            assert(t[q] == s[q2]);
        } else if p == i {
            let q2 = if q < i { q } else { q - 1 };
            assert(t[q] == s[q2]);
        } else {
            let p2 = if p < i { p } else { p - 1 };
            assert(t[p] == s[p2]);
        }
    }
}

/// Replacing a panel entry by one with the same key leaves the keys alone.
proof fn lemma_keys_update(s: Seq<FieldView>, i: int, v: FieldView)
    requires
        0 <= i < s.len(),
        v.0 == s[i].0,
    ensures
        keys_of(s.update(i, v)) == keys_of(s),
{
    assert(keys_of(s.update(i, v)) =~= keys_of(s));
}

/// Keys after a removal, a swap of neighbours and an append.
proof fn lemma_keys_edits(s: Seq<FieldView>, i: int, v: FieldView)
    ensures
        0 <= i < s.len() ==> keys_of(s.remove(i)) == keys_of(s).remove(i),
        0 < i < s.len() ==> keys_of(s.update(i - 1, s[i]).update(i, s[i - 1])) == keys_of(s).update(
            i - 1,
            keys_of(s)[i],
        ).update(i, keys_of(s)[i - 1]),
        keys_of(s.push(v)) == keys_of(s).push(v.0),
{
    if 0 <= i < s.len() {
        assert(keys_of(s.remove(i)) =~= keys_of(s).remove(i));
    }
    if 0 < i < s.len() {
        assert(keys_of(s.update(i - 1, s[i]).update(i, s[i - 1])) =~= keys_of(s).update(i - 1, keys_of(s)[i]).update(
            i,
            keys_of(s)[i - 1],
        ));
    }
    assert(keys_of(s.push(v)) =~= keys_of(s).push(v.0));
}

/// A change of the focused panel's entries, seen in the keys of both
/// panels: a removal, a swap of neighbours, or the same keys.
proof fn lemma_focused_edit(m: EditorModel, s2: Seq<FieldView>)
    requires
        keys_distinct(m),
        ({
            let s = focused(m);
            let i = focused_sel(m) as int;
            ||| (i < s.len() && s2 == s.remove(i))
            ||| (0 < i < s.len() && s2 == s.update(i - 1, s[i]).update(i, s[i - 1]))
            ||| keys_of(s2) == keys_of(s)
        }),
    ensures
        keys_distinct(with_focused(m, s2)),
{
    let s = focused(m);
    let i = focused_sel(m) as int;
    let k = panel_keys(m);
    let off: int = if m.panel_focus { keys_of(m.left).len() as int } else { 0 };
    lemma_keys_edits(s, i, (Seq::empty(), Seq::empty(), Seq::empty(), false));
    if i < s.len() && s2 == s.remove(i) {
        lemma_remove_no_dup(k, off + i);
        if m.panel_focus {
            assert(panel_keys(with_focused(m, s2)) =~= k.remove(off + i));
        } else {
            assert(panel_keys(with_focused(m, s2)) =~= k.remove(off + i));
        }
    } else if 0 < i < s.len() && s2 == s.update(i - 1, s[i]).update(i, s[i - 1]) {
        lemma_swap_no_dup(k, off + i - 1);
        assert(panel_keys(with_focused(m, s2)) =~= k.update(off + i - 1, k[off + i]).update(off + i, k[off + i - 1]));
    } else {
        assert(panel_keys(with_focused(m, s2)) =~= k);
    }
}

/// No event makes a field key occur twice across the two panels: the
/// editor renames, toggles, removes and reorders fields, and the picker
/// only adds a field whose key neither panel has.
pub proof fn panel_keys_stay_distinct(m: EditorModel, ev: EditorEvent)
    requires
        keys_distinct(m),
    ensures
        keys_distinct(editor_next(m, ev).0),
{
    let r = editor_next(m, ev).0;
    let s = focused(m);
    let i = focused_sel(m) as int;
    match ev {
        EditorEvent::Key(k) => match m.mode {
            EditMode::EditingLabel => {
                if k == EditorKey::Enter && i < s.len() {
                    let v = s[i];
                    lemma_keys_update(s, i, (v.0, v.1, m.label_input, v.3));
                    lemma_focused_edit(m, s.update(i, (v.0, v.1, m.label_input, v.3)));
                }
            },
            EditMode::AddingPanel => {
                if k == EditorKey::Enter && m.add_sel < m.add_available.len() {
                    let e = m.add_available[m.add_sel as int];
                    if !(keys_of(m.left).contains(e.0) || keys_of(m.right).contains(e.0)) {
                        let kp = panel_keys(m);
                        assert(!kp.contains(e.0)) by {
                            if kp.contains(e.0) {
                                let j = choose|j: int| 0 <= j < kp.len() && kp[j] == e.0;
                                if j < keys_of(m.left).len() {
                                    assert(keys_of(m.left)[j] == e.0);
                                } else {
                                    assert(keys_of(m.right)[j - keys_of(m.left).len()] == e.0);
                                }
                            }
                        }
                        lemma_insert_no_dup(kp, keys_of(m.left).len() as int, e.0);
                        lemma_keys_edits(m.left, 0, (e.0, e.1, e.2, true));
                        assert(panel_keys(r) =~= kp.insert(keys_of(m.left).len() as int, e.0));
                    }
                }
            },
            EditMode::Normal => {
                if k == EditorKey::Char(' ') && m.tab == Tab::Panels && i < s.len() {
                    lemma_keys_update(s, i, flipped(s[i]));
                    lemma_focused_edit(m, s.update(i, flipped(s[i])));
                } else if k == EditorKey::Char('d') && m.tab == Tab::Panels && i < s.len() {
                    lemma_focused_edit(m, s.remove(i));
                } else if k == EditorKey::Char('r') && m.tab == Tab::Panels && i > 0 && i < s.len() {
                    lemma_focused_edit(m, s.update(i - 1, s[i]).update(i, s[i - 1]));
                    assert(keys_distinct(with_focused_sel(with_focused(m, s.update(i - 1, s[i]).update(i, s[i - 1])), (i - 1) as nat)));
                } else {
                    assert(panel_keys(r) =~= panel_keys(m));
                }
            },
            _ => {
                assert(panel_keys(r) =~= panel_keys(m));
            },
        },
        _ => {},
    }
}

/// Esc closes whatever text input, picker or browser is open without
/// touching the panels, the palette or the logo.
pub proof fn escape_closes_input(m: EditorModel)
    requires
        m.mode != EditMode::Normal,
    ensures
        ({
            let (r, a) = editor_next(m, EditorEvent::Key(EditorKey::Esc));
            &&& r.mode == EditMode::Normal
            &&& a == EditorAction::Continue
            &&& r.left == m.left
            &&& r.right == m.right
            &&& r.colors == m.colors
            &&& r.logo_key == m.logo_key
            &&& r.logo_path == m.logo_path
            &&& r.art == m.art
            &&& r.source == m.source
        }),
{
}

} // verus!

//! Navigation state of the interactive configurators: editor tabs, display
//! modes and the steps of the phone setup wizard.
use vstd::prelude::*;
use crate::config::{Config, FieldDef, PanelConfig};
use crate::layout::AppLayout;
use crate::text::{str_eq, to_string};
use crate::widget::sat_sub;

verus! {

/// Tabs of the editor, in the order they are visited.
#[derive(Debug, Clone, Copy, PartialEq, Eq, Structural)]
pub enum Tab {
    Welcome,
    Theme,
    Mode,
    Layout,
    Panels,
    Ascii,
    Save,
}

/// Position of a tab in the tab bar.
pub open spec fn tab_pos(t: Tab) -> nat {
    match t {
        Tab::Welcome => 0,
        Tab::Theme => 1,
        Tab::Mode => 2,
        Tab::Layout => 3,
        Tab::Panels => 4,
        Tab::Ascii => 5,
        Tab::Save => 6,
    }
}

/// The tab at position `i % 7`.
pub open spec fn tab_at(i: nat) -> Tab {
    let k = i % 7;
    if k == 0 { Tab::Welcome }
    else if k == 1 { Tab::Theme }
    else if k == 2 { Tab::Mode }
    else if k == 3 { Tab::Layout }
    else if k == 4 { Tab::Panels }
    else if k == 5 { Tab::Ascii }
    else { Tab::Save }
}

impl Tab {
    /// All tabs in tab-bar order.
    pub fn all() -> (r: [Tab; 7])
        ensures
            r@ == seq![Tab::Welcome, Tab::Theme, Tab::Mode, Tab::Layout, Tab::Panels, Tab::Ascii, Tab::Save],
    {
        [Tab::Welcome, Tab::Theme, Tab::Mode, Tab::Layout, Tab::Panels, Tab::Ascii, Tab::Save]
    }

    /// Text shown in the tab bar.
    pub fn label(&self) -> (r: &'static str)
        ensures
            r@ == match *self {
                Tab::Welcome => " Welcome "@,
                Tab::Theme => " Theme "@,
                Tab::Mode => " Mode "@,
                Tab::Layout => " Layout "@,
                Tab::Panels => " Panels "@,
                Tab::Ascii => " ASCII "@,
                Tab::Save => " Save "@,
            },
    {
        match self {
            Tab::Welcome => " Welcome ",
            Tab::Theme => " Theme ",
            Tab::Mode => " Mode ",
            Tab::Layout => " Layout ",
            Tab::Panels => " Panels ",
            Tab::Ascii => " ASCII ",
            Tab::Save => " Save ",
        }
    }

    /// The following tab, wrapping from the last to the first.
    pub fn next(&self) -> (r: Tab)
        ensures
            r == tab_at(tab_pos(*self) + 1),
    {
        match self {
            Tab::Welcome => Tab::Theme,
            Tab::Theme => Tab::Mode,
            Tab::Mode => Tab::Layout,
            Tab::Layout => Tab::Panels,
            Tab::Panels => Tab::Ascii,
            Tab::Ascii => Tab::Save,
            Tab::Save => Tab::Welcome,
        }
    }

    /// The preceding tab, wrapping from the first to the last.
    pub fn prev(&self) -> (r: Tab)
        ensures
            r == tab_at(tab_pos(*self) + 6),
    {
        match self {
            Tab::Welcome => Tab::Save,
            Tab::Save => Tab::Ascii,
            Tab::Ascii => Tab::Panels,
            Tab::Panels => Tab::Layout,
            Tab::Layout => Tab::Mode,
            Tab::Mode => Tab::Theme,
            Tab::Theme => Tab::Welcome,
        }
    }
}

/// Going to the next tab and back, or back and forward again, returns to
/// the same tab; seven steps forward visit every tab and come back.
pub proof fn tab_navigation_laws(t: Tab)
    ensures
        tab_at(tab_pos(tab_at(tab_pos(t) + 1)) + 6) == t,
        tab_at(tab_pos(tab_at(tab_pos(t) + 6)) + 1) == t,
        tab_at(tab_pos(t)) == t,
        tab_at(tab_pos(t) + 7) == t,
        forall|u: Tab| tab_pos(u) < 7,
        forall|u: Tab, v: Tab| tab_pos(u) == tab_pos(v) ==> u == v,
{
}

/// What the editor previews.
#[derive(Debug, Clone, Copy, PartialEq, Eq, Structural)]
pub enum DisplayMode {
    Desktop,
    Companion,
    Monitor,
}

impl DisplayMode {
    /// All display modes in menu order.
    pub fn all() -> (r: &'static [DisplayMode])
        ensures
            r@ == seq![DisplayMode::Desktop, DisplayMode::Companion, DisplayMode::Monitor],
    {
        &[DisplayMode::Desktop, DisplayMode::Companion, DisplayMode::Monitor]
    }

    /// Display name.
    pub fn name(&self) -> (r: &'static str)
        ensures
            r@ == match *self {
                DisplayMode::Desktop => "Desktop"@,
                DisplayMode::Companion => "Companion"@,
                DisplayMode::Monitor => "Monitor"@,
            },
    {
        match self {
            DisplayMode::Desktop => "Desktop",
            DisplayMode::Companion => "Companion",
            DisplayMode::Monitor => "Monitor",
        }
    }

    /// One-line description.
    pub fn desc(&self) -> (r: &'static str)
        ensures
            r@ == match *self {
                DisplayMode::Desktop => "Full fetch with ASCII art and panels"@,
                DisplayMode::Companion => "Compact, minimal info always visible"@,
                DisplayMode::Monitor => "Live system resource overview"@,
            },
    {
        match self {
            DisplayMode::Desktop => "Full fetch with ASCII art and panels",
            DisplayMode::Companion => "Compact, minimal info always visible",
            DisplayMode::Monitor => "Live system resource overview",
        }
    }
}

/// Steps of the phone setup wizard.
#[derive(Debug, Clone, Copy, PartialEq, Eq, Structural)]
pub enum Step {
    Welcome,
    Layout,
    Panels,
    Summary,
}

/// Position of a step in the wizard.
pub open spec fn step_pos(s: Step) -> nat {
    match s {
        Step::Welcome => 0,
        Step::Layout => 1,
        Step::Panels => 2,
        Step::Summary => 3,
    }
}

/// Steps in wizard order.
pub open spec fn step_order() -> Seq<Step> {
    seq![Step::Welcome, Step::Layout, Step::Panels, Step::Summary]
}

impl Step {
    /// All steps in wizard order.
    pub fn all() -> (r: &'static [Step])
        ensures
            r@ == step_order(),
    {
        &[Step::Welcome, Step::Layout, Step::Panels, Step::Summary]
    }

    /// The following step; none after the summary.
    pub fn next(&self) -> (r: Option<Step>)
        ensures
            r == (if step_pos(*self) + 1 < 4 { Some(step_order()[step_pos(*self) + 1int]) } else { None }),
    {
        match self {
            Step::Welcome => Some(Step::Layout),
            Step::Layout => Some(Step::Panels),
            Step::Panels => Some(Step::Summary),
            Step::Summary => None,
        }
    }

    /// The preceding step; none before the welcome screen.
    pub fn prev(&self) -> (r: Option<Step>)
        ensures
            r == (if step_pos(*self) > 0 { Some(step_order()[step_pos(*self) - 1]) } else { None }),
    {
        match self {
            Step::Welcome => None,
            Step::Layout => Some(Step::Welcome),
            Step::Panels => Some(Step::Layout),
            Step::Summary => Some(Step::Panels),
        }
    }

    /// Position of this step in `all()`.
    pub fn index(&self) -> (r: usize)
        ensures
            r == step_pos(*self),
            step_order()[r as int] == *self,
    {
        let all = Self::all();
        let mut i: usize = 0;
        while i < all.len()
            invariant
                all@ == step_order(),
                i <= 4,
                forall|j: int| 0 <= j < i ==> all@[j] != *self,
            decreases 4 - i,
        {
            if all[i] == *self {
                return i;
            }
            i += 1;
        }
        proof {
            assert(all@[step_pos(*self) as int] == *self);
        }
        0
    }
}

/// `next` and `prev` undo each other, and `next` moves one position on.
pub proof fn step_navigation_laws(s: Step, t: Step)
    ensures
        (step_pos(s) + 1 < 4 && step_order()[step_pos(s) + 1int] == t) <==> (step_pos(t) > 0
            && step_order()[step_pos(t) - 1] == s),
        step_order()[step_pos(s) as int] == s,
{
}


// ── Editing the panel lists ──────────────────────────────────────────────

/// A field on offer: key, icon, label.
pub type FieldEntry = (&'static str, &'static str, &'static str);

/// View of a field on offer.
pub open spec fn entry_view(e: FieldEntry) -> (Seq<char>, Seq<char>, Seq<char>) {
    (e.0@, e.1@, e.2@)
}

/// Views of fields on offer.
pub open spec fn entries_view(v: Seq<FieldEntry>) -> Seq<(Seq<char>, Seq<char>, Seq<char>)> {
    v.map_values(|e: FieldEntry| entry_view(e))
}

/// The fields offered on phones.
pub open spec fn mobile_catalog() -> Seq<(Seq<char>, Seq<char>, Seq<char>)> {
    seq![
        ("device"@, "\u{f109}"@, "Device"@),
        ("os"@, "\u{f17c}"@, "OS"@),
        ("rom"@, "\u{f0c6}"@, "ROM"@),
        ("soc"@, "\u{f2db}"@, "SoC"@),
        ("arch"@, "\u{f17c}"@, "Arch"@),
        ("kernel"@, "\u{e271}"@, "Krn"@),
        ("battery_level"@, "\u{f0e7}"@, "Bat"@),
        ("battery_temp"@, "\u{f2c7}"@, "Temp"@),
        ("battery_health"@, "\u{f004}"@, "Health"@),
        ("battery_status"@, "\u{f0e7}"@, "Charge"@),
        ("memory"@, "\u{f1c0}"@, "RAM"@),
        ("storage"@, "\u{f0a0}"@, "Stor"@),
        ("cpu"@, "\u{f2db}"@, "CPU"@),
        ("gpu"@, "\u{f26c}"@, "GPU"@),
        ("cpu_temp"@, "\u{f2c7}"@, "CPU Temp"@),
        ("uptime"@, "\u{f017}"@, "Up"@),
        ("packages"@, "\u{f1b3}"@, "Pkg"@),
        ("root_status"@, "\u{f023}"@, "Root"@),
        ("bootloader"@, "\u{f085}"@, "Bootloader"@),
        ("selinux"@, "\u{f023}"@, "SELinux"@),
        ("resolution"@, "\u{f108}"@, "Res"@),
        ("brightness"@, "\u{f185}"@, "Brightness"@),
        ("refresh_rate"@, "\u{f26c}"@, "Refresh"@),
        ("signal"@, "\u{f012}"@, "Signal"@),
        ("wifi_ssid"@, "\u{f1eb}"@, "WiFi"@),
        ("security_patch"@, "\u{f0c6}"@, "Sec. Patch"@),
        ("user"@, "\u{f007}"@, "Usr"@),
        ("local_ip"@, "\u{f0c1}"@, "IP"@),
        ("shell"@, "\u{f489}"@, "Sh"@)
    ]
}

/// The fields offered on phones.
pub fn mobile_field_catalog() -> (r: Vec<FieldEntry>)
    ensures
        entries_view(r@) == mobile_catalog(),
{
    let mut v: Vec<FieldEntry> = Vec::new();
    v.push(("device", "\u{f109}", "Device"));
    v.push(("os", "\u{f17c}", "OS"));
    v.push(("rom", "\u{f0c6}", "ROM"));
    v.push(("soc", "\u{f2db}", "SoC"));
    v.push(("arch", "\u{f17c}", "Arch"));
    v.push(("kernel", "\u{e271}", "Krn"));
    v.push(("battery_level", "\u{f0e7}", "Bat"));
    v.push(("battery_temp", "\u{f2c7}", "Temp"));
    v.push(("battery_health", "\u{f004}", "Health"));
    v.push(("battery_status", "\u{f0e7}", "Charge"));
    v.push(("memory", "\u{f1c0}", "RAM"));
    v.push(("storage", "\u{f0a0}", "Stor"));
    v.push(("cpu", "\u{f2db}", "CPU"));
    v.push(("gpu", "\u{f26c}", "GPU"));
    v.push(("cpu_temp", "\u{f2c7}", "CPU Temp"));
    v.push(("uptime", "\u{f017}", "Up"));
    v.push(("packages", "\u{f1b3}", "Pkg"));
    v.push(("root_status", "\u{f023}", "Root"));
    v.push(("bootloader", "\u{f085}", "Bootloader"));
    v.push(("selinux", "\u{f023}", "SELinux"));
    v.push(("resolution", "\u{f108}", "Res"));
    v.push(("brightness", "\u{f185}", "Brightness"));
    v.push(("refresh_rate", "\u{f26c}", "Refresh"));
    v.push(("signal", "\u{f012}", "Signal"));
    v.push(("wifi_ssid", "\u{f1eb}", "WiFi"));
    v.push(("security_patch", "\u{f0c6}", "Sec. Patch"));
    v.push(("user", "\u{f007}", "Usr"));
    v.push(("local_ip", "\u{f0c1}", "IP"));
    v.push(("shell", "\u{f489}", "Sh"));
    proof {
        assert(entries_view(v@) =~= mobile_catalog());
    }
    v
}

/// The keys of `fields`, in order.
pub open spec fn field_keys(fields: Seq<FieldDef>) -> Seq<Seq<char>> {
    fields.map_values(|f: FieldDef| f.field@)
}

/// The entries of `catalog` whose key is not among `keys`, in order.
pub open spec fn addable(catalog: Seq<(Seq<char>, Seq<char>, Seq<char>)>, keys: Seq<Seq<char>>) -> Seq<(Seq<char>, Seq<char>, Seq<char>)>
    decreases catalog.len(),
{
    if catalog.len() == 0 {
        Seq::empty()
    } else {
        let rest = addable(catalog.drop_last(), keys);
        if keys.contains(catalog.last().0) { rest } else { rest.push(catalog.last()) }
    }
}

/// Whether some field has key `key`.
pub(crate) fn has_key_exec(fields: &Vec<FieldDef>, key: &str) -> (b: bool)
    ensures
        b == field_keys(fields@).contains(key@),
{
    let mut i: usize = 0;
    while i < fields.len()
        invariant
            i <= fields@.len(),
            forall|j: int| 0 <= j < i ==> fields@[j].field@ != key@,
        decreases fields@.len() - i,
    {
        if str_eq(fields[i].field.as_str(), key) {
            proof {
                assert(field_keys(fields@)[i as int] == key@);
            }
            return true;
        }
        i += 1;
    }
    proof {
        assert forall|j: int| 0 <= j < field_keys(fields@).len() implies field_keys(fields@)[j] != key@ by {
            assert(field_keys(fields@)[j] == fields@[j].field@);
        }
    }
    false
}

/// The catalog entries that can still be added to `fields`.
pub fn addable_fields(catalog: &Vec<FieldEntry>, fields: &Vec<FieldDef>) -> (r: Vec<FieldEntry>)
    ensures
        entries_view(r@) == addable(entries_view(catalog@), field_keys(fields@)),
{
    let mut out: Vec<FieldEntry> = Vec::new();
    let mut i: usize = 0;
    while i < catalog.len()
        invariant
            i <= catalog@.len(),
            entries_view(out@) == addable(entries_view(catalog@).take(i as int), field_keys(fields@)),
        decreases catalog@.len() - i,
    {
        proof {
            assert(entries_view(catalog@).take(i + 1).drop_last() =~= entries_view(catalog@).take(i as int));
        }
        let e = catalog[i];
        if !has_key_exec(fields, e.0) {
            let ghost before = entries_view(out@);
            out.push(e);
            proof {
                assert(entries_view(out@) =~= before.push(entry_view(e)));
            }
        }
        i += 1;
    }
    proof {
        assert(entries_view(catalog@).take(catalog@.len() as int) =~= entries_view(catalog@));
    }
    out
}

/// Appends an enabled field made from a catalog entry.
pub fn add_field(fields: &mut Vec<FieldDef>, e: FieldEntry)
    ensures
        final(fields)@.len() == old(fields)@.len() + 1,
        final(fields)@.take(old(fields)@.len() as int) == old(fields)@,
        final(fields)@.last().field@ == e.0@,
        final(fields)@.last().icon@ == e.1@,
        final(fields)@.last().label@ == e.2@,
        final(fields)@.last().enabled,
{
    fields.push(FieldDef { field: to_string(e.0), icon: to_string(e.1), label: to_string(e.2), enabled: true });
    proof {
        assert(final(fields)@.take(old(fields)@.len() as int) =~= old(fields)@);
    }
}

/// Shows or hides field `i`; nothing changes when there is no such field.
pub fn toggle_field(fields: &mut Vec<FieldDef>, i: usize)
    ensures
        final(fields)@.len() == old(fields)@.len(),
        forall|j: int| 0 <= j < old(fields)@.len() && j != i ==> #[trigger] final(fields)@[j] == old(fields)@[j],
        i < old(fields)@.len() ==> final(fields)@[i as int].enabled == !old(fields)@[i as int].enabled
            && final(fields)@[i as int].field == old(fields)@[i as int].field
            && final(fields)@[i as int].icon == old(fields)@[i as int].icon
            && final(fields)@[i as int].label == old(fields)@[i as int].label,
{
    if i < fields.len() {
        let mut f = fields.remove(i);
        f.enabled = !f.enabled;
        fields.insert(i, f);
    }
}

/// Removes field `i` and returns the selection that follows: the same
/// position, or the last field when it was the last one (0 for an empty
/// list). Nothing changes, and the selection stays, when there is no
/// field `i`.
pub fn remove_field(fields: &mut Vec<FieldDef>, i: usize) -> (sel: usize)
    ensures
        i < old(fields)@.len() ==> final(fields)@ == old(fields)@.remove(i as int) && sel == (if i < final(fields)@.len() {
            i as int
        } else {
            sat_sub(final(fields)@.len() as int, 1)
        }),
        i >= old(fields)@.len() ==> final(fields)@ == old(fields)@ && sel == i,
{
    if i < fields.len() {
        fields.remove(i);
        let len = fields.len();
        let last = if len > 0 { len - 1 } else { 0 };
        if i < last { i } else { last }
    } else {
        i
    }
}

/// Moves field `i` one place up (before field `i - 1`) and returns its new
/// position; nothing changes for the first field.
pub fn move_field_up(fields: &mut Vec<FieldDef>, i: usize) -> (sel: usize)
    requires
        i == 0 || i < old(fields)@.len(),
    ensures
        i == 0 ==> final(fields)@ == old(fields)@ && sel == 0,
        i > 0 ==> final(fields)@ == old(fields)@.update(i - 1, old(fields)@[i as int]).update(i as int, old(fields)@[i - 1])
            && sel == i - 1,
{
    if i > 0 {
        let f = fields.remove(i);
        fields.insert(i - 1, f);
        proof {
            assert(final(fields)@ =~= old(fields)@.update(i - 1, old(fields)@[i as int]).update(i as int, old(fields)@[i - 1]));
        }
        i - 1
    } else {
        0
    }
}

/// The selection after moving down a list of `len` entries.
pub fn select_down(i: usize, len: usize) -> (r: usize)
    ensures
        r == (if i + 1 < len { i + 1 } else { i as int }),
{
    if i < len && i + 1 < len { i + 1 } else { i }
}

/// The selection after moving up.
pub fn select_up(i: usize) -> (r: usize)
    ensures
        r == (if i > 0 { i - 1 } else { 0 }),
{
    if i > 0 { i - 1 } else { 0 }
}

/// Applies phone layout `index`: its gap, padding and widest value; an
/// index out of range changes nothing.
pub fn apply_mobile_layout(panel: &mut PanelConfig, index: usize)
    ensures
        index >= 2 ==> *final(panel) == *old(panel),
        index < 2 ==> ({
            &&& final(panel).gap == 1
            &&& final(panel).left_pad == 1
            &&& final(panel).right_pad == 1
            &&& final(panel).max_val_width == 999
            &&& final(panel).max_shift == old(panel).max_shift
            &&& final(panel).sep_color == old(panel).sep_color
            &&& final(panel).val_color == old(panel).val_color
        }),
{
    let layouts = AppLayout::mobile_variants();
    if index < layouts.len() {
        let l = layouts[index];
        panel.gap = l.gap();
        panel.left_pad = l.padding();
        panel.right_pad = l.padding();
        panel.max_val_width = l.max_panel_width();
    }
}

/// Applies desktop layout `index` (of `AppLayout::pc_variants`): its gap,
/// padding and widest value; an index out of range changes nothing.
pub fn apply_pc_layout(panel: &mut PanelConfig, index: usize) -> (r: Option<AppLayout>)
    ensures
        match r {
            Some(l) => index < 5 && l == pc_layout_at(index as int) && final(panel).gap == layout_gap(l)
                && final(panel).left_pad == layout_padding(l) && final(panel).right_pad == layout_padding(l)
                && final(panel).max_val_width == (if l == AppLayout::Compact { 35usize } else { 999 })
                && final(panel).max_shift == old(panel).max_shift && final(panel).sep_color == old(panel).sep_color
                && final(panel).val_color == old(panel).val_color,
            None => index >= 5 && *final(panel) == *old(panel),
        },
{
    let layouts = AppLayout::pc_variants();
    if index < layouts.len() {
        let l = layouts[index];
        panel.gap = l.gap();
        panel.left_pad = l.padding();
        panel.right_pad = l.padding();
        panel.max_val_width = l.max_panel_width();
        Some(l)
    } else {
        None
    }
}

/// Desktop layout at position `i` of `AppLayout::pc_variants`.
pub open spec fn pc_layout_at(i: int) -> AppLayout {
    seq![AppLayout::Centered, AppLayout::Compact, AppLayout::Wide, AppLayout::Minimal, AppLayout::Balanced][i]
}

/// Gap of a layout.
pub open spec fn layout_gap(l: AppLayout) -> usize {
    match l {
        AppLayout::Centered => 2,
        AppLayout::Compact => 1,
        AppLayout::Wide => 4,
        AppLayout::Minimal => 2,
        AppLayout::Balanced => 3,
        AppLayout::Mobile => 1,
        AppLayout::MobileNarrow => 1,
    }
}

/// Padding of a layout.
pub open spec fn layout_padding(l: AppLayout) -> usize {
    match l {
        AppLayout::Centered => 3,
        AppLayout::Compact => 1,
        AppLayout::Wide => 4,
        AppLayout::Minimal => 2,
        AppLayout::Balanced => 3,
        AppLayout::Mobile => 1,
        AppLayout::MobileNarrow => 1,
    }
}

/// Number of enabled fields on both sides.
pub open spec fn enabled_count_spec(cfg: Config) -> nat {
    crate::render::enabled_fields(cfg.display.left@).len() + crate::render::enabled_fields(cfg.display.right@).len()
}

/// Number of enabled fields on both sides.
pub fn enabled_count(cfg: &Config) -> (r: usize)
    requires
        enabled_count_spec(*cfg) <= usize::MAX,
    ensures
        r as nat == enabled_count_spec(*cfg),
{
    let l = crate::render::enabled_of(&cfg.display.left);
    let r = crate::render::enabled_of(&cfg.display.right);
    proof {
        assert(l@.map_values(|f: &FieldDef| *f).len() == l@.len());
        assert(r@.map_values(|f: &FieldDef| *f).len() == r@.len());
    }
    l.len() + r.len()
}

} // verus!

//! Panel widgets: one system-information field drawn as a powerline
//! segment, truncated to the room it is given.
use vstd::prelude::*;
use crate::config::{FieldDef, PanelConfig};
use crate::info::{sys_field, SysInfo};
use crate::render::{strip_ansi, seg_view, segment, segs_view, SegView, StyledSegment};
use crate::text::{chars_of, esc, push_char, push_str, string_from_chars, strip_ansi_seq, to_string, trim, trim_seq};
use crate::theme::{byte_len, fg_escape_seq, parse_hex_color, hex_slicing_panics, Color};
use crate::width::{str_width, str_width_of};

verus! {

/// `ESC [0m`, which resets all attributes.
pub open spec fn reset_seq() -> Seq<char> {
    seq![esc(), '\u{5b}', '0', 'm']
}

/// The powerline arrow drawn between label and value.
pub open spec fn powerline_arrow() -> char {
    '\u{e0b0}'
}

/// `a - b`, or 0 when `b >= a` (`usize::saturating_sub`).
pub open spec fn sat_sub(a: int, b: int) -> int {
    if a > b { a - b } else { 0 }
}

/// Colours in a panel configuration can be read without panicking.
pub open spec fn panel_colors_ok(panel: PanelConfig) -> bool {
    &&& !hex_slicing_panics(panel.sep_color@)
    &&& !hex_slicing_panics(panel.val_color@)
}

/// Colour of the powerline arrow.
pub open spec fn arrow_color(panel: PanelConfig) -> Color {
    match parse_hex_color(panel.sep_color@) {
        Some(c) => c,
        None => Color { r: 157, g: 133, b: 255 },
    }
}

/// Colour of the value text.
pub open spec fn value_color(panel: PanelConfig) -> Color {
    match parse_hex_color(panel.val_color@) {
        Some(c) => c,
        None => Color { r: 245, g: 220, b: 227 },
    }
}

/// The displayed value of a field: its `SysInfo` value, or `"?"` for an
/// unknown key.
pub open spec fn field_value(info: SysInfo, key: Seq<char>) -> Seq<char> {
    match sys_field(info, key) {
        Some(v) => v,
        None => "?"@,
    }
}

/// `" {icon} {label} "`.
pub open spec fn label_segment(icon: Seq<char>, label: Seq<char>) -> Seq<char> {
    seq![' '] + icon + seq![' '] + label + seq![' ']
}

/// The value text `" {val} "`, cut to fit `max_w` columns next to a label of
/// `seg_vis` columns: dropped when not even three value columns fit,
/// otherwise reduced to its first `max(max_w - seg_vis - 4, 1)` characters
/// with the last one replaced by `'…'` when something was cut.
pub open spec fn clipped_value(val: Seq<char>, seg_vis: int, val_vis: int, max_w: int) -> Seq<char> {
    if seg_vis + 1 + val_vis > max_w {
        if seg_vis + 1 + 3 > max_w {
            Seq::empty()
        } else {
            let r = sat_sub(max_w, seg_vis + 2);
            if r < 1 {
                Seq::empty()
            } else {
                let vr = sat_sub(r, 2);
                let n = if vr < 1 { 1 } else { vr };
                let visible = if n < val.len() { val.take(n) } else { val };
                let visible = if byte_len(visible) < byte_len(val) {
                    visible.drop_last().push('…')
                } else {
                    visible
                };
                seq![' '] + visible + seq![' ']
            }
        }
    } else {
        seq![' '] + val + seq![' ']
    }
}

/// The view of a rendered widget: ANSI text, styled segments, and the
/// visible width of the ANSI text.
pub type WidgetView = (Seq<char>, Seq<SegView>, nat);

/// The value text a panel for `def` shows with at most `max_width`
/// columns: the field's value cut to fit and trimmed (empty when no value
/// fits).
pub open spec fn panel_value(def: FieldDef, info: SysInfo, panel: PanelConfig, max_width: usize) -> Seq<char> {
    let val = field_value(info, def.field@);
    let max_w = if max_width < panel.max_val_width { max_width } else { panel.max_val_width };
    let seg = label_segment(def.icon@, def.label@);
    let full = seq![' '] + val + seq![' '];
    trim_seq(clipped_value(val, str_width_of(seg) as int, str_width_of(full) as int, max_w as int))
}

/// What `FieldWidget::render` draws for `def` with at most `max_width`
/// columns and label colour `fg`.
pub open spec fn field_output(def: FieldDef, info: SysInfo, panel: PanelConfig, max_width: usize, fg: Color) -> WidgetView {
    let seg = label_segment(def.icon@, def.label@);
    let vt = panel_value(def, info, panel, max_width);
    let sep_color = arrow_color(panel);
    let val_color = value_color(panel);
    let sep_space = if panel.max_val_width <= 35 { Seq::<char>::empty() } else { seq![' '] };
    let ansi = if vt.len() == 0 {
        fg_escape_seq(fg) + seg + seq![' '] + fg_escape_seq(sep_color) + seq![powerline_arrow()] + reset_seq()
    } else {
        fg_escape_seq(fg) + seg + fg_escape_seq(sep_color) + seq![powerline_arrow()] + sep_space + fg_escape_seq(val_color) + vt + reset_seq()
    };
    let styled = if vt.len() == 0 {
        seq![seg_view(seg, Some(fg)), seg_view(seq![powerline_arrow()], Some(sep_color))]
    } else {
        seq![
            seg_view(seg, Some(fg)),
            seg_view(seq![powerline_arrow()], Some(sep_color)),
            seg_view(sep_space, None),
            seg_view(vt, Some(val_color)),
        ]
    };
    (ansi, styled, str_width_of(strip_ansi_seq(ansi)))
}

/// Context handed to a widget when it is drawn.
pub struct RenderCtx<'a> {
    pub info: &'a SysInfo,
    pub panel_cfg: &'a PanelConfig,
    pub max_width: usize,
    pub fg_color: Color,
}

/// A rendered widget.
pub struct WidgetOutput {
    /// ANSI-escaped text for the terminal.
    pub ansi: String,
    /// Styled segments for the TUI preview.
    pub styled: Vec<StyledSegment>,
    /// Visible width of `ansi`.
    pub width: usize,
}

impl View for WidgetOutput {
    type V = WidgetView;

    open spec fn view(&self) -> WidgetView {
        (self.ansi@, segs_view(self.styled@), self.width as nat)
    }
}

/// An information widget.
pub trait Widget {
    /// What `render` draws for the given context values.
    spec fn output(&self, info: SysInfo, panel: PanelConfig, max_width: usize, fg: Color) -> WidgetView;

    /// Key of the shown field.
    spec fn key_view(&self) -> Seq<char>;

    /// Key of the shown field.
    fn key(&self) -> (r: &str)
        ensures
            r@ == self.key_view(),
    ;

    /// Label of the shown field.
    spec fn label_view(&self) -> Seq<char>;

    /// Icon glyph of the shown field.
    spec fn icon_view(&self) -> Seq<char>;

    /// Label.
    fn label(&self) -> (r: &str)
        ensures
            r@ == self.label_view(),
    ;

    /// Icon glyph.
    fn icon(&self) -> (r: &str)
        ensures
            r@ == self.icon_view(),
    ;

    /// Draws the widget.
    fn render(&self, ctx: &RenderCtx) -> (r: WidgetOutput)
        requires
            panel_colors_ok(*ctx.panel_cfg),
        ensures
            r@ == self.output(*ctx.info, *ctx.panel_cfg, ctx.max_width, ctx.fg_color),
    ;

    /// Columns the widget needs at least (4 unless the widget says
    /// otherwise).
    fn min_width(&self) -> (r: usize)
        default_ensures
            r == 4,
    {
        4
    }
}

/// A widget showing one `SysInfo` field.
pub struct FieldWidget {
    pub def: FieldDef,
}

impl FieldWidget {
    /// A widget for `field`, drawn with `icon` and `label`, enabled.
    pub fn new(field: String, icon: String, label: String) -> (r: Self)
        ensures
            r.def.field@ == field@,
            r.def.icon@ == icon@,
            r.def.label@ == label@,
            r.def.enabled,
    {
        FieldWidget { def: FieldDef { field, icon, label, enabled: true } }
    }

    /// A widget for an existing field definition.
    pub fn from_def(def: FieldDef) -> (r: Self)
        ensures
            r.def == def,
    {
        FieldWidget { def }
    }
}

fn label_segment_of(icon: &str, label: &str) -> (r: String)
    ensures
        r@ == label_segment(icon@, label@),
{
    let mut s = String::new();
    push_char(&mut s, ' ');
    push_str(&mut s, icon);
    push_char(&mut s, ' ');
    push_str(&mut s, label);
    push_char(&mut s, ' ');
    proof {
        assert(s@ =~= label_segment(icon@, label@));
    }
    s
}

fn padded(val: &str) -> (r: String)
    ensures
        r@ == seq![' '] + val@ + seq![' '],
{
    let mut s = String::new();
    push_char(&mut s, ' ');
    push_str(&mut s, val);
    push_char(&mut s, ' ');
    proof {
        assert(s@ =~= seq![' '] + val@ + seq![' ']);
    }
    s
}

proof fn lemma_byte_len_prefix(s: Seq<char>, n: int)
    requires
        0 <= n <= s.len(),
    ensures
        byte_len(s.take(n)) < byte_len(s) <==> n < s.len(),
    decreases s.len() - n,
{
    if n < s.len() {
        lemma_byte_len_prefix(s.drop_last(), n);
        assert(s.drop_last().take(n) =~= s.take(n));
        if n == s.len() - 1 {
            assert(s.take(n) =~= s.drop_last());
        }
    } else {
        assert(s.take(n) =~= s);
    }
}

/// Cuts the value to the room left next to its label (see
/// `clipped_value`).
fn clip_value(val: &str, seg_vis: usize, val_vis: usize, max_w: usize) -> (r: String)
    ensures
        r@ == clipped_value(val@, seg_vis as int, val_vis as int, max_w as int),
{
    if (seg_vis as u128) + 1 + (val_vis as u128) > (max_w as u128) {
        if (seg_vis as u128) + 1 + 3 > (max_w as u128) {
            String::new()
        } else {
            let r = max_w - (seg_vis + 2);
            let vr = if r > 2 { r - 2 } else { 0 };
            let n = if vr < 1 { 1 } else { vr };
            let v = chars_of(val);
            let take = if n < v.len() { n } else { v.len() };
            let cut = take < v.len();
            let mut visible = string_from_chars(&v, 0, take);
            proof {
                lemma_byte_len_prefix(val@, take as int);
                if !(n < val@.len()) {
                    assert(val@.take(take as int) =~= val@);
                }
            }
            if cut {
                let vis_chars = chars_of(&visible);
                let mut shorter = string_from_chars(&vis_chars, 0, take - 1);
                push_char(&mut shorter, '…');
                proof {
                    assert(vis_chars@.subrange(0, take - 1) =~= visible@.drop_last());
                }
                visible = shorter;
            }
            padded(&visible)
        }
    } else {
        padded(val)
    }
}

fn arrow_color_of(panel: &PanelConfig) -> (c: Color)
    requires
        panel_colors_ok(*panel),
    ensures
        c == arrow_color(*panel),
{
    match Color::from_hex_opt(panel.sep_color.as_str()) {
        Some(c) => c,
        None => Color::new(157, 133, 255),
    }
}

fn value_color_of(panel: &PanelConfig) -> (c: Color)
    requires
        panel_colors_ok(*panel),
    ensures
        c == value_color(*panel),
{
    match Color::from_hex_opt(panel.val_color.as_str()) {
        Some(c) => c,
        None => Color::new(245, 220, 227),
    }
}

/// Appends the reset sequence.
pub fn push_reset(s: &mut String)
    ensures
        final(s)@ == old(s)@ + reset_seq(),
{
    push_char(s, '\x1b');
    push_char(s, '\u{5b}');
    push_char(s, '0');
    push_char(s, 'm');
    proof {
        assert(final(s)@ =~= old(s)@ + reset_seq());
    }
}

/// Draws the field `def` as a powerline panel (`FieldWidget::render`).
pub fn render_field(def: &FieldDef, ctx: &RenderCtx) -> (r: WidgetOutput)
    requires
        panel_colors_ok(*ctx.panel_cfg),
    ensures
        r@ == field_output(*def, *ctx.info, *ctx.panel_cfg, ctx.max_width, ctx.fg_color),
{
    let val_owned: String = match ctx.info.get(def.field.as_str()) {
        Some(v) => to_string(v),
        None => to_string("?"),
    };
    let val = val_owned.as_str();
    let max_w = if ctx.max_width < ctx.panel_cfg.max_val_width {
        ctx.max_width
    } else {
        ctx.panel_cfg.max_val_width
    };
    let seg = label_segment_of(def.icon.as_str(), def.label.as_str());
    let full = padded(val);
    let seg_vis = str_width(&seg);
    let val_vis = str_width(&full);
    let clipped = clip_value(val, seg_vis, val_vis, max_w);
    let vt = trim(&clipped);
    let sep_color = arrow_color_of(ctx.panel_cfg);
    let val_color = value_color_of(ctx.panel_cfg);
    let compact = ctx.panel_cfg.max_val_width <= 35;
    let mut ansi = ctx.fg_color.fg_escape();
    push_str(&mut ansi, &seg);
    let styled: Vec<StyledSegment>;
    if vt.unicode_len() == 0 {
        push_char(&mut ansi, ' ');
        let e = sep_color.fg_escape();
        push_str(&mut ansi, &e);
        push_char(&mut ansi, '\u{e0b0}');
        push_reset(&mut ansi);
        let mut arrow = String::new();
        push_char(&mut arrow, '\u{e0b0}');
        styled = vec![segment(seg, Some(ctx.fg_color)), segment(arrow, Some(sep_color))];
    } else {
        let e = sep_color.fg_escape();
        push_str(&mut ansi, &e);
        push_char(&mut ansi, '\u{e0b0}');
        let sep_space = if compact {
            String::new()
        } else {
            to_string(" ")
        };
        proof {
            reveal_strlit(" ");
            assert(" "@ =~= seq![' ']);
        }
        push_str(&mut ansi, &sep_space);
        let ve = val_color.fg_escape();
        push_str(&mut ansi, &ve);
        push_str(&mut ansi, &vt);
        push_reset(&mut ansi);
        let mut arrow = String::new();
        push_char(&mut arrow, '\u{e0b0}');
        let vt_copy = to_string(&vt);
        styled = vec![
            segment(seg, Some(ctx.fg_color)),
            segment(arrow, Some(sep_color)),
            segment(sep_space, None),
            segment(vt_copy, Some(val_color)),
        ];
    }
    let plain = strip_ansi(&ansi);
    let width = str_width(&plain);
    let r = WidgetOutput { ansi, styled, width };
    proof {
        let spec_out = field_output(*def, *ctx.info, *ctx.panel_cfg, ctx.max_width, ctx.fg_color);
        assert(r@.0 =~= spec_out.0);
        assert(r@.1 =~= spec_out.1);
    }
    r
}


impl Widget for FieldWidget {
    open spec fn output(&self, info: SysInfo, panel: PanelConfig, max_width: usize, fg: Color) -> WidgetView {
        field_output(self.def, info, panel, max_width, fg)
    }

    open spec fn key_view(&self) -> Seq<char> {
        self.def.field@
    }

    open spec fn label_view(&self) -> Seq<char> {
        self.def.label@
    }

    open spec fn icon_view(&self) -> Seq<char> {
        self.def.icon@
    }

    fn key(&self) -> (r: &str) {
        self.def.field.as_str()
    }

    fn label(&self) -> (r: &str) {
        self.def.label.as_str()
    }

    fn icon(&self) -> (r: &str) {
        self.def.icon.as_str()
    }

    fn render(&self, ctx: &RenderCtx) -> (r: WidgetOutput) {
        render_field(&self.def, ctx)
    }

    fn min_width(&self) -> (r: usize)
        ensures
            r as int == if str_width_of(label_segment(self.def.icon@, self.def.label@)) + 2 > usize::MAX {
                usize::MAX as int
            } else {
                str_width_of(label_segment(self.def.icon@, self.def.label@)) + 2int
            },
    {
        let seg = label_segment_of(self.def.icon.as_str(), self.def.label.as_str());
        let w = str_width(&seg);
        w.saturating_add(2)
    }
}


// ── Progress-bar widget ──────────────────────────────────────────────────

/// A widget that shows a field as a progress bar when the field has a
/// numeric level, and as plain text otherwise.
pub struct MonitorWidget {
    pub def: FieldDef,
}

/// A measured bar: filled cells, the percentage text, the bar's colour.
pub struct BarFill {
    pub filled: usize,
    pub pct_text: String,
    pub color: Color,
}

/// Cells of the bar drawn within `max_width` columns: half of what is left
/// after four columns, at least 4.
pub open spec fn monitor_bar_cells(panel: PanelConfig, max_width: usize) -> nat {
    let max_w = if max_width < panel.max_val_width { max_width } else { panel.max_val_width };
    let b = sat_sub(max_w as int, 4) / 2;
    (if b < 4 { 4 } else { b }) as nat
}

/// The bar widget's drawing: the trimmed label in `fg`, then the bar and
/// the percentage in the bar's colour.
pub open spec fn monitor_bar_output(def: FieldDef, panel: PanelConfig, max_width: usize, fg: Color, filled: nat, pct: Seq<char>, bc: Color) -> WidgetView {
    let label = trim_seq(label_segment(def.icon@, def.label@));
    let cells = monitor_bar_cells(panel, max_width);
    let bar = crate::text::repeat_char_seq('\u{2588}', filled) + crate::text::repeat_char_seq('\u{2591}', sat_sub(cells as int, filled as int) as nat);
    let ansi = fg_escape_seq(fg) + label + fg_escape_seq(bc) + seq![' '] + bar + pct;
    let styled = seq![seg_view(label, Some(fg)), seg_view(seq![' '], None), seg_view(bar, Some(bc)), seg_view(seq![' '] + pct, Some(bc))];
    (ansi, styled, str_width_of(strip_ansi_seq(ansi)))
}

/// The text drawing of the bar widget: label, arrow and the trimmed value.
pub open spec fn monitor_plain_output(def: FieldDef, info: SysInfo, panel: PanelConfig, fg: Color) -> WidgetView {
    let seg = label_segment(def.icon@, def.label@);
    let vt = trim_seq(seq![' '] + field_value(info, def.field@) + seq![' ']);
    let ansi = fg_escape_seq(fg) + seg + fg_escape_seq(arrow_color(panel)) + seq![powerline_arrow()] + seq![' '] + fg_escape_seq(value_color(panel)) + vt;
    let styled = seq![
        seg_view(seg, Some(fg)),
        seg_view(seq![powerline_arrow()], Some(arrow_color(panel))),
        seg_view(seq![' '], None),
        seg_view(vt, Some(value_color(panel))),
    ];
    (ansi, styled, str_width_of(strip_ansi_seq(ansi)))
}

impl MonitorWidget {
    /// A bar widget for `field`, drawn with `icon` and `label`, enabled.
    pub fn new(field: String, icon: String, label: String) -> (r: Self)
        ensures
            r.def.field@ == field@,
            r.def.icon@ == icon@,
            r.def.label@ == label@,
            r.def.enabled,
    {
        MonitorWidget { def: FieldDef { field, icon, label, enabled: true } }
    }

    /// A bar widget for an existing field definition.
    pub fn from_def(def: FieldDef) -> (r: Self)
        ensures
            r.def == def,
    {
        MonitorWidget { def }
    }

    /// Key of the shown field.
    pub fn key(&self) -> (r: &str)
        ensures
            r@ == self.def.field@,
    {
        self.def.field.as_str()
    }

    /// Label.
    pub fn label(&self) -> (r: &str)
        ensures
            r@ == self.def.label@,
    {
        self.def.label.as_str()
    }

    /// Icon glyph.
    pub fn icon(&self) -> (r: &str)
        ensures
            r@ == self.def.icon@,
    {
        self.def.icon.as_str()
    }

    /// Cells of the bar in this context.
    pub fn bar_cells(&self, ctx: &RenderCtx) -> (r: usize)
        ensures
            r as nat == monitor_bar_cells(*ctx.panel_cfg, ctx.max_width),
    {
        let max_w = if ctx.max_width < ctx.panel_cfg.max_val_width { ctx.max_width } else { ctx.panel_cfg.max_val_width };
        let b = (if max_w > 4 { max_w - 4 } else { 0 }) / 2;
        if b < 4 { 4 } else { b }
    }

    /// Draws the widget as a bar with the measured `fill`.
    pub fn render_bar(&self, ctx: &RenderCtx, fill: &BarFill) -> (r: WidgetOutput)
        ensures
            r@ == monitor_bar_output(self.def, *ctx.panel_cfg, ctx.max_width, ctx.fg_color, fill.filled as nat, fill.pct_text@, fill.color),
    {
        let seg = label_segment_of(self.def.icon.as_str(), self.def.label.as_str());
        let label = trim(&seg);
        let cells = self.bar_cells(ctx);
        let mut bar = crate::text::repeat_char('\u{2588}', fill.filled);
        let light = crate::text::repeat_char('\u{2591}', if cells > fill.filled { cells - fill.filled } else { 0 });
        push_str(&mut bar, &light);
        let mut ansi = ctx.fg_color.fg_escape();
        push_str(&mut ansi, &label);
        let be = fill.color.fg_escape();
        push_str(&mut ansi, &be);
        push_char(&mut ansi, ' ');
        push_str(&mut ansi, &bar);
        push_str(&mut ansi, fill.pct_text.as_str());
        let mut sp = String::new();
        push_char(&mut sp, ' ');
        let mut pct = String::new();
        push_char(&mut pct, ' ');
        push_str(&mut pct, fill.pct_text.as_str());
        let styled = vec![
            segment(to_string(&label), Some(ctx.fg_color)),
            segment(sp, None),
            segment(to_string(&bar), Some(fill.color)),
            segment(pct, Some(fill.color)),
        ];
        let plain = strip_ansi(&ansi);
        let width = str_width(&plain);
        let r = WidgetOutput { ansi, styled, width };
        proof {
            let s = monitor_bar_output(self.def, *ctx.panel_cfg, ctx.max_width, ctx.fg_color, fill.filled as nat, fill.pct_text@, fill.color);
            assert(r@.0 =~= s.0);
            assert(r@.1 =~= s.1);
        }
        r
    }

    /// Draws the widget as text, for a field without a level.
    pub fn render_plain(&self, ctx: &RenderCtx) -> (r: WidgetOutput)
        requires
            panel_colors_ok(*ctx.panel_cfg),
        ensures
            r@ == monitor_plain_output(self.def, *ctx.info, *ctx.panel_cfg, ctx.fg_color),
    {
        let val_owned: String = match ctx.info.get(self.def.field.as_str()) {
            Some(v) => to_string(v),
            None => to_string("?"),
        };
        let seg = label_segment_of(self.def.icon.as_str(), self.def.label.as_str());
        let full = padded(val_owned.as_str());
        let vt = trim(&full);
        let sep_color = arrow_color_of(ctx.panel_cfg);
        let val_color = value_color_of(ctx.panel_cfg);
        let mut ansi = ctx.fg_color.fg_escape();
        push_str(&mut ansi, &seg);
        let se = sep_color.fg_escape();
        push_str(&mut ansi, &se);
        push_char(&mut ansi, '\u{e0b0}');
        push_char(&mut ansi, ' ');
        let ve = val_color.fg_escape();
        push_str(&mut ansi, &ve);
        push_str(&mut ansi, &vt);
        let mut arrow = String::new();
        push_char(&mut arrow, '\u{e0b0}');
        let mut sp = String::new();
        push_char(&mut sp, ' ');
        let styled = vec![
            segment(to_string(&seg), Some(ctx.fg_color)),
            segment(arrow, Some(sep_color)),
            segment(sp, None),
            segment(to_string(&vt), Some(val_color)),
        ];
        let plain = strip_ansi(&ansi);
        let width = str_width(&plain);
        let r = WidgetOutput { ansi, styled, width };
        proof {
            reveal_strlit("?");
            let s = monitor_plain_output(self.def, *ctx.info, *ctx.panel_cfg, ctx.fg_color);
            assert(r@.0 =~= s.0);
            assert(r@.1 =~= s.1);
        }
        r
    }

    /// Columns the widget needs at least: its label segment and six more.
    pub fn min_width(&self) -> (r: usize)
        ensures
            r as int == if str_width_of(label_segment(self.def.icon@, self.def.label@)) + 6 > usize::MAX {
                usize::MAX as int
            } else {
                str_width_of(label_segment(self.def.icon@, self.def.label@)) + 6int
            },
    {
        let seg = label_segment_of(self.def.icon.as_str(), self.def.label.as_str());
        let w = str_width(&seg);
        w.saturating_add(6)
    }
}

// ── Widget registry ──────────────────────────────────────────────────────

/// Widgets looked up by the key of their field.
pub struct Registry {
    pub widgets: Vec<Box<dyn Widget>>,
}

/// Keys of a list of widgets.
pub open spec fn widget_keys(ws: Seq<Box<dyn Widget>>) -> Seq<Seq<char>> {
    ws.map_values(|w: Box<dyn Widget>| w.key_view())
}

/// A push adds one element.
proof fn lemma_push_len<A>(s: Seq<A>, a: A)
    ensures
        s.push(a).len() == s.len() + 1,
{
}

impl Registry {
    /// An empty registry.
    pub fn new() -> (r: Self)
        ensures
            r.widgets@.len() == 0,
    {
        Registry { widgets: Vec::new() }
    }

    /// Adds a widget after the registered ones.
    pub fn register(&mut self, widget: Box<dyn Widget>)
        ensures
            final(self).widgets@ == old(self).widgets@.push(widget),
    {
        self.widgets.push(widget);
    }

    /// The first registered widget with key `key`, if any.
    pub fn get(&self, key: &str) -> (r: Option<&Box<dyn Widget>>)
        ensures
            r is None <==> !widget_keys(self.widgets@).contains(key@),
            r matches Some(w) ==> exists|i: int|
                0 <= i < self.widgets@.len() && *w == self.widgets@[i] && self.widgets@[i].key_view() == key@ && (
                forall|j: int| 0 <= j < i ==> #[trigger] self.widgets@[j].key_view() != key@),
    {
        let mut i: usize = 0;
        while i < self.widgets.len()
            invariant
                i <= self.widgets@.len(),
                forall|j: int| 0 <= j < i ==> #[trigger] self.widgets@[j].key_view() != key@,
            decreases self.widgets@.len() - i,
        {
            let k = self.widgets[i].key();
            assert(k@ == self.widgets@[i as int].key_view());
            if crate::text::str_eq(k, key) {
                let w: &Box<dyn Widget> = &self.widgets[i];
                proof {
                    assert(widget_keys(self.widgets@)[i as int] == key@);
                }
                return Some(w);
            }
            i += 1;
        }
        proof {
            assert forall|j: int| 0 <= j < widget_keys(self.widgets@).len() implies widget_keys(self.widgets@)[j] != key@ by {
                assert(widget_keys(self.widgets@)[j] == self.widgets@[j].key_view());
            }
        }
        None
    }

    /// A registry with a field widget for every enabled field: one
    /// `FieldWidget` per enabled field of `left`, then of `right`, in list
    /// order. The contract gives their number; the key each widget shows
    /// is its field's key, which is not stated here.
    pub fn from_fields(left: &Vec<FieldDef>, right: &Vec<FieldDef>) -> (r: Self)
        ensures
            r.widgets@.len() == crate::render::enabled_fields(left@).len() + crate::render::enabled_fields(right@).len(),
    {
        let mut reg = Registry::new();
        let mut i: usize = 0;
        proof {
            assert(left@.take(0) =~= Seq::<FieldDef>::empty());
        }
        while i < left.len()
            invariant
                i <= left@.len(),
                reg.widgets@.len() == crate::render::enabled_fields(left@.take(i as int)).len(),
            decreases left@.len() - i,
        {
            proof {
                assert(left@.take(i + 1).drop_last() =~= left@.take(i as int));
                assert(left@.take(i + 1).last() == left@[i as int]);
            }
            if left[i].enabled {
                let ghost before = reg.widgets@;
                let b: Box<dyn Widget> = Box::new(FieldWidget::from_def(left[i].copy()));
                let ghost gb = b;
                reg.widgets.push(b);
                proof {
                    assert(reg.widgets@ == before.push(gb));
                    lemma_push_len(before, gb);
                }
            }
            i += 1;
        }
        proof {
            assert(left@.take(left@.len() as int) =~= left@);
            assert(right@.take(0) =~= Seq::<FieldDef>::empty());
        }
        let ghost nl = crate::render::enabled_fields(left@).len();
        let mut j: usize = 0;
        while j < right.len()
            invariant
                j <= right@.len(),
                nl == crate::render::enabled_fields(left@).len(),
                reg.widgets@.len() == nl + crate::render::enabled_fields(right@.take(j as int)).len(),
            decreases right@.len() - j,
        {
            proof {
                assert(right@.take(j + 1).drop_last() =~= right@.take(j as int));
                assert(right@.take(j + 1).last() == right@[j as int]);
            }
            if right[j].enabled {
                let ghost before = reg.widgets@;
                let b: Box<dyn Widget> = Box::new(FieldWidget::from_def(right[j].copy()));
                let ghost gb = b;
                reg.widgets.push(b);
                proof {
                    assert(reg.widgets@ == before.push(gb));
                    lemma_push_len(before, gb);
                }
            }
            j += 1;
        }
        proof {
            assert(right@.take(right@.len() as int) =~= right@);
        }
        reg
    }

    /// All registered widgets, in order.
    pub fn all(&self) -> (r: &[Box<dyn Widget>])
        ensures
            r@ == self.widgets@,
    {
        self.widgets.as_slice()
    }
}

} // verus!


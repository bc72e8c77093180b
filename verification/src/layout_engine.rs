//! Layout engines: they place widget outputs and art lines into rows.
use vstd::prelude::*;
use crate::config::Config;
use crate::info::SysInfo;
use crate::render::{
    at_least4, bold_seq, desk_sizes_ok, max_line_width, max_width_seq, pad_chars, pad_to_chars, push_bold, sat_sub_wide,
    trim_ends, trim_line_ends,
};
use crate::text::{esc, push_char, push_str, repeat_seq, repeat_str, spaces, spaces_seq, to_string, trim_end, trim_end_seq, views};
use crate::theme::{fg_escape_seq, Color};
use crate::widget::{panel_colors_ok, push_reset, reset_seq, sat_sub, RenderCtx, Widget, WidgetOutput, WidgetView};
use crate::width::{str_width, str_width_of};

verus! {

/// Available display layouts.
#[derive(Debug, Clone, Copy, PartialEq, Eq, Structural)]
pub enum Layout {
    /// Art on the left, panels on the right.
    Classic,
    /// No art, only panels.
    Minimal,
    /// One tight column, no art.
    Compact,
    /// Art centred on top, panels below.
    Stack,
}

impl Layout {
    /// All layouts, in menu order.
    pub fn all() -> (r: &'static [Layout])
        ensures
            r@ == seq![Layout::Classic, Layout::Stack, Layout::Minimal, Layout::Compact],
    {
        &[Layout::Classic, Layout::Stack, Layout::Minimal, Layout::Compact]
    }

    /// Display name.
    pub fn name(&self) -> (r: &'static str)
        ensures
            r@ == match *self {
                Layout::Classic => "Classic"@,
                Layout::Stack => "Stack"@,
                Layout::Minimal => "Minimal"@,
                Layout::Compact => "Compact"@,
            },
    {
        match self {
            Layout::Classic => "Classic",
            Layout::Stack => "Stack",
            Layout::Minimal => "Minimal",
            Layout::Compact => "Compact",
        }
    }

    /// One-line description.
    pub fn description(&self) -> (r: &'static str)
        ensures
            r@ == match *self {
                Layout::Classic => "ASCII on the left, info panels on the right"@,
                Layout::Stack => "ASCII centered at the top, info stacked below"@,
                Layout::Minimal => "No ASCII, only info panels"@,
                Layout::Compact => "Single column compact layout"@,
            },
    {
        match self {
            Layout::Classic => "ASCII on the left, info panels on the right",
            Layout::Stack => "ASCII centered at the top, info stacked below",
            Layout::Minimal => "No ASCII, only info panels",
            Layout::Compact => "Single column compact layout",
        }
    }

    /// Recommended minimum terminal width.
    pub fn min_width(&self) -> (r: usize)
        ensures
            r == match *self {
                Layout::Classic => 80usize,
                Layout::Stack => 40usize,
                Layout::Minimal => 30usize,
                Layout::Compact => 20usize,
            },
    {
        match self {
            Layout::Classic => 80,
            Layout::Stack => 40,
            Layout::Minimal => 30,
            Layout::Compact => 20,
        }
    }
}

/// One row of a layout: widgets on the left, an art line, widgets on the
/// right.
pub struct LayoutRow {
    pub left_widgets: Vec<WidgetOutput>,
    pub logo_line: Option<String>,
    pub right_widgets: Vec<WidgetOutput>,
}

/// The arranged output: title, separator and rows.
pub struct LayoutOutput {
    pub title: String,
    pub separator: String,
    pub rows: Vec<LayoutRow>,
}

/// View of a row.
pub type RowView = (Seq<WidgetView>, Option<Seq<char>>, Seq<WidgetView>);

/// View of a layout output.
pub type LayoutView = (Seq<char>, Seq<char>, Seq<RowView>);

/// Views of widget outputs.
pub open spec fn outs_view(s: Seq<WidgetOutput>) -> Seq<WidgetView> {
    s.map_values(|w: WidgetOutput| w@)
}

/// View of a row.
pub open spec fn row_view(r: LayoutRow) -> RowView {
    (outs_view(r.left_widgets@), match r.logo_line {
        Some(s) => Some(s@),
        None => None,
    }, outs_view(r.right_widgets@))
}

/// View of a layout output.
pub open spec fn layout_view(o: LayoutOutput) -> LayoutView {
    (o.title@, o.separator@, o.rows@.map_values(|r: LayoutRow| row_view(r)))
}

/// Whether widgets can be arranged by `layout` without panicking: readable
/// colours, sizes in range (twice the left padding included), and, for the
/// classic layout, which picks the right-hand colours modulo the palette's
/// length, a palette whenever there is a widget.
pub open spec fn arrange_ok(cfg: Config, n: nat, tw: usize, layout: Layout) -> bool {
    &&& panel_colors_ok(cfg.panel)
    &&& desk_sizes_ok(cfg.panel, tw as nat)
    &&& (layout == Layout::Classic ==> cfg.logo.colors@.len() > 0 || n == 0)
    &&& 2 * cfg.panel.left_pad <= usize::MAX
}

/// Places widgets and art into rows.
pub trait LayoutEngine {
    /// Which layout this engine draws.
    spec fn layout_of(&self) -> Layout;

    /// What `arrange` produces.
    spec fn arranged(&self, widgets: Seq<&dyn Widget>, ascii: Seq<Seq<char>>, cfg: Config, info: SysInfo, tw: usize, shifts: Seq<usize>) -> LayoutView;

    /// Which layout this engine draws.
    fn layout(&self) -> (r: Layout)
        ensures
            r == self.layout_of(),
    ;

    /// Arranges `widgets` and the art lines for a terminal `term_width`
    /// columns wide; row `k` of a cascading layout is shifted right by
    /// `shifts[k]`.
    fn arrange(&self, widgets: &[&dyn Widget], ascii_lines: &Vec<String>, cfg: &Config, info: &SysInfo, term_width: usize, shifts: &[usize]) -> (r: LayoutOutput)
        requires
            arrange_ok(*cfg, widgets@.len(), term_width, self.layout_of()),
            shifts@.len() >= widgets@.len(),
            forall|k: int| 0 <= k < widgets@.len() ==> #[trigger] shifts@[k] <= cfg.panel.max_shift,
        ensures
            layout_view(r) == self.arranged(widgets@, views(ascii_lines@), *cfg, *info, term_width, shifts@),
    ;
}

/// The separator string of a layout.
pub open spec fn layout_separator(cfg: Config, tw: nat) -> Seq<char> {
    crate::render::separator_text(cfg, tw)
}

/// Palette entry `k`, or white when the palette is shorter.
pub open spec fn color_or_white(colors: Seq<Color>, k: nat) -> Color {
    if k < colors.len() { colors[k as int] } else { Color { r: 255, g: 255, b: 255 } }
}

/// Where the art starts in the classic layout: centred when panels fit on
/// both sides, otherwise at column 0.
pub open spec fn classic_origin(lh: nat, lw: nat, cfg: Config, tw: nat) -> nat {
    let p = cfg.panel;
    if lh > 0 && lw < tw {
        let o = ((tw - lw) / 2) as nat;
        if o >= p.left_pad + p.gap + 8 && tw >= o + lw + p.gap + p.right_pad + p.max_shift + 8 { o } else { 0 }
    } else {
        0
    }
}

/// Row `i` of the classic layout.
pub open spec fn classic_layout_row(widgets: Seq<&dyn Widget>, ascii: Seq<Seq<char>>, cfg: Config, info: SysInfo, tw: nat, shifts: Seq<usize>, i: int) -> RowView {
    let p = cfg.panel;
    let lh = ascii.len();
    let n = widgets.len();
    let lw = max_width_seq(trim_ends(ascii));
    let origin = classic_origin(lh, lw, cfg, tw);
    let start: int = if lh > 0 { sat_sub(lh as int, n as int) / 2 } else { 0 };
    let in_range = lh == 0 || (start <= i && i < start + n);
    let idx = if lh > 0 { i - start } else { i };
    let logo = if lh > 0 && i < lh { Some(ascii[i]) } else { None };
    if in_range && 0 <= idx < n {
        let shift = shifts[idx] as int;
        let la = at_least4(sat_sub(origin as int, p.left_pad + shift + p.gap));
        let ra = at_least4(sat_sub(tw as int, origin + lw + p.gap + p.right_pad + p.max_shift));
        let colors = cfg.logo.colors@;
        (
            seq![widgets[idx].output(info, p, la as usize, color_or_white(colors, idx as nat))],
            logo,
            seq![widgets[idx].output(info, p, ra as usize, colors[(idx + 3) % (colors.len() as int)])],
        )
    } else {
        (Seq::empty(), logo, Seq::empty())
    }
}

/// The classic layout: one row per art line (or per widget without art),
/// the widgets centred on the art and drawn on both sides of it.
pub open spec fn classic_arranged(widgets: Seq<&dyn Widget>, ascii: Seq<Seq<char>>, cfg: Config, info: SysInfo, tw: usize, shifts: Seq<usize>) -> LayoutView {
    let rows = if ascii.len() == 0 { widgets.len() } else { ascii.len() };
    (cfg.title.format@, layout_separator(cfg, tw as nat), Seq::new(rows, |i: int| classic_layout_row(widgets, ascii, cfg, info, tw as nat, shifts, i)))
}

/// The classic layout draws the art intact: with art it has one row per art
/// line and row `i` carries art line `i`, whichever rows carry widgets;
/// without art no row carries any.
pub proof fn classic_rows_keep_art_in_order(widgets: Seq<&dyn Widget>, ascii: Seq<Seq<char>>, cfg: Config, info: SysInfo, tw: usize, shifts: Seq<usize>)
    ensures
        ascii.len() > 0 ==> classic_arranged(widgets, ascii, cfg, info, tw, shifts).2.len() == ascii.len(),
        ascii.len() == 0 ==> classic_arranged(widgets, ascii, cfg, info, tw, shifts).2.len() == widgets.len(),
        forall|i: int| 0 <= i < classic_arranged(widgets, ascii, cfg, info, tw, shifts).2.len() ==>
            #[trigger] classic_arranged(widgets, ascii, cfg, info, tw, shifts).2[i].1 == (if ascii.len() > 0 { Some(ascii[i]) } else { None }),
{
}

/// One widget per row, each at most `avail` columns, coloured by its
/// palette entry.
pub open spec fn widget_rows(widgets: Seq<&dyn Widget>, cfg: Config, info: SysInfo, avail: int) -> Seq<RowView> {
    Seq::new(widgets.len(), |i: int| (
        seq![widgets[i].output(info, cfg.panel, avail as usize, color_or_white(cfg.logo.colors@, i as nat))],
        None::<Seq<char>>,
        Seq::<WidgetView>::empty(),
    ))
}

/// Columns a single-column widget may use with padding `pad` on each side.
pub open spec fn column_avail(tw: nat, pad: int) -> int {
    let a = sat_sub(tw as int, 2 * pad);
    if a < 10 { 10 } else { a }
}

/// The stack layout: the art lines padded to the art's width, a blank row,
/// then one widget per row.
pub open spec fn stack_arranged(widgets: Seq<&dyn Widget>, ascii: Seq<Seq<char>>, cfg: Config, info: SysInfo, tw: usize) -> LayoutView {
    let lw = max_width_seq(trim_ends(ascii));
    let art = Seq::new(ascii.len(), |i: int| (Seq::<WidgetView>::empty(), Some(pad_chars(trim_end_seq(ascii[i]), lw)), Seq::<WidgetView>::empty()));
    let blank = (Seq::<WidgetView>::empty(), None::<Seq<char>>, Seq::<WidgetView>::empty());
    (cfg.title.format@, layout_separator(cfg, tw as nat), art.push(blank) + widget_rows(widgets, cfg, info, column_avail(tw as nat, cfg.panel.left_pad as int)))
}

/// The minimal layout: one widget per row, no art.
pub open spec fn minimal_arranged(widgets: Seq<&dyn Widget>, cfg: Config, info: SysInfo, tw: usize) -> LayoutView {
    (cfg.title.format@, layout_separator(cfg, tw as nat), widget_rows(widgets, cfg, info, column_avail(tw as nat, cfg.panel.left_pad as int)))
}

/// The compact layout: one widget per row with a padding of one column,
/// no title, no separator.
pub open spec fn compact_arranged(widgets: Seq<&dyn Widget>, cfg: Config, info: SysInfo, tw: usize) -> LayoutView {
    (Seq::empty(), Seq::empty(), widget_rows(widgets, cfg, info, column_avail(tw as nat, 1)))
}

/// Traditional fetch: art and panels side by side.
pub struct ClassicLayout;

/// Art centred on top, panels stacked below.
pub struct StackLayout;

/// No art, just the panels.
pub struct MinimalLayout;

/// One tight column, no art.
pub struct CompactLayout;

/// Views of a pushed row list.
proof fn lemma_rows_push(rows: Seq<LayoutRow>, r: LayoutRow)
    ensures
        rows.push(r).map_values(|x: LayoutRow| row_view(x)) =~= rows.map_values(|x: LayoutRow| row_view(x)).push(row_view(r)),
{
}

/// A one-element list of widget outputs.
fn single(o: WidgetOutput) -> (r: Vec<WidgetOutput>)
    ensures
        outs_view(r@) == seq![o@],
{
    let ghost v = o@;
    let mut r: Vec<WidgetOutput> = Vec::new();
    r.push(o);
    proof {
        assert(outs_view(r@) =~= seq![v]);
    }
    r
}

/// An empty list of widget outputs.
fn no_outputs() -> (r: Vec<WidgetOutput>)
    ensures
        outs_view(r@) == Seq::<WidgetView>::empty(),
{
    let r: Vec<WidgetOutput> = Vec::new();
    proof {
        assert(outs_view(r@) =~= Seq::<WidgetView>::empty());
    }
    r
}

/// Palette entry `k`, or white.
fn color_or_white_of(colors: &Vec<Color>, k: usize) -> (c: Color)
    ensures
        c == color_or_white(colors@, k as nat),
{
    if k < colors.len() { colors[k] } else { Color::new(255, 255, 255) }
}

/// Appends one widget per row.
fn push_widget_rows(rows: &mut Vec<LayoutRow>, widgets: &[&dyn Widget], cfg: &Config, info: &SysInfo, avail: usize)
    requires
        panel_colors_ok(cfg.panel),
    ensures
        final(rows)@.map_values(|x: LayoutRow| row_view(x)) == old(rows)@.map_values(|x: LayoutRow| row_view(x)) + widget_rows(
            widgets@,
            *cfg,
            *info,
            avail as int,
        ),
{
    let ghost r0 = rows@.map_values(|x: LayoutRow| row_view(x));
    let mut i: usize = 0;
    while i < widgets.len()
        invariant
            i <= widgets@.len(),
            panel_colors_ok(cfg.panel),
            rows@.map_values(|x: LayoutRow| row_view(x)) == r0 + widget_rows(widgets@, *cfg, *info, avail as int).take(i as int),
        decreases widgets@.len() - i,
    {
        let c = color_or_white_of(&cfg.logo.colors, i);
        let ctx = RenderCtx { info, panel_cfg: &cfg.panel, max_width: avail, fg_color: c };
        let o = widgets[i].render(&ctx);
        let row = LayoutRow { left_widgets: single(o), logo_line: None, right_widgets: no_outputs() };
        let ghost before = rows@;
        rows.push(row);
        proof {
            lemma_rows_push(before, row);
            assert(rows@.map_values(|x: LayoutRow| row_view(x)) =~= r0 + widget_rows(widgets@, *cfg, *info, avail as int).take(i + 1));
        }
        i += 1;
    }
    proof {
        assert(widget_rows(widgets@, *cfg, *info, avail as int).take(widgets@.len() as int) =~= widget_rows(
            widgets@,
            *cfg,
            *info,
            avail as int,
        ));
    }
}

/// Columns for a single column with padding `pad` on each side.
fn column_avail_of(tw: usize, pad: usize) -> (r: usize)
    requires
        2 * pad <= usize::MAX,
    ensures
        r as int == column_avail(tw as nat, pad as int),
{
    let a = if tw > 2 * pad { tw - 2 * pad } else { 0 };
    if a < 10 { 10 } else { a }
}

/// The layout's separator string.
fn separator_of(cfg: &Config, tw: usize) -> (r: String)
    ensures
        r@ == layout_separator(*cfg, tw as nat),
{
    crate::render::separator_string(cfg, tw)
}

impl LayoutEngine for ClassicLayout {
    open spec fn layout_of(&self) -> Layout {
        Layout::Classic
    }

    open spec fn arranged(&self, widgets: Seq<&dyn Widget>, ascii: Seq<Seq<char>>, cfg: Config, info: SysInfo, tw: usize, shifts: Seq<usize>) -> LayoutView {
        classic_arranged(widgets, ascii, cfg, info, tw, shifts)
    }

    fn layout(&self) -> (r: Layout) {
        Layout::Classic
    }

    #[verifier::rlimit(40)]
    fn arrange(&self, widgets: &[&dyn Widget], ascii_lines: &Vec<String>, cfg: &Config, info: &SysInfo, term_width: usize, shifts: &[usize]) -> (r: LayoutOutput) {
        let tw = term_width;
        let p = &cfg.panel;
        let trimmed = trim_line_ends(ascii_lines);
        let lw = max_line_width(&trimmed);
        let n = widgets.len();
        let lh = ascii_lines.len();
        let origin = if lh > 0 && lw < tw {
            let o = (tw - lw) / 2;
            if (o as u128) >= (p.left_pad as u128) + (p.gap as u128) + 8 && (tw as u128) >= (o as u128) + (lw as u128)
                + (p.gap as u128) + (p.right_pad as u128) + (p.max_shift as u128) + 8 {
                o
            } else {
                0
            }
        } else {
            0
        };
        let rows_n = if lh == 0 { n } else { lh };
        let start = if lh > 0 { (if lh > n { lh - n } else { 0 }) / 2 } else { 0 };
        let ghost av = views(ascii_lines@);
        let mut rows: Vec<LayoutRow> = Vec::new();
        let mut i: usize = 0;
        while i < rows_n
            invariant
                i <= rows_n,
                rows_n == (if lh == 0 { n } else { lh }),
                n == widgets@.len(),
                lh == ascii_lines@.len(),
                av == views(ascii_lines@),
                lw == max_width_seq(trim_ends(av)),
                origin as nat == classic_origin(lh as nat, lw as nat, *cfg, tw as nat),
                start as int == (if lh > 0 { sat_sub(lh as int, n as int) / 2 } else { 0 }),
                origin <= tw,
                tw == term_width,
                *p == cfg.panel,
                arrange_ok(*cfg, widgets@.len(), term_width, Layout::Classic),
                shifts@.len() >= widgets@.len(),
                forall|k: int| 0 <= k < widgets@.len() ==> #[trigger] shifts@[k] <= cfg.panel.max_shift,
                rows@.map_values(|x: LayoutRow| row_view(x)) == Seq::new(i as nat, |k: int| classic_layout_row(widgets@, av, *cfg, *info, tw as nat, shifts@, k)),
            decreases rows_n - i,
        {
            let in_range = lh == 0 || (start <= i && i - start < n);
            let idx = if lh > 0 { if i >= start { i - start } else { 0 } } else { i };
            let logo = if lh > 0 && i < lh { Some(to_string(ascii_lines[i].as_str())) } else { None };
            let row = if in_range && idx < n {
                let shift = shifts[idx];
                let la0 = sat_sub_wide(origin, (p.left_pad as u128) + (shift as u128) + (p.gap as u128));
                let la = if la0 < 4 { 4 } else { la0 };
                let lc = color_or_white_of(&cfg.logo.colors, idx);
                let lctx = RenderCtx { info, panel_cfg: &cfg.panel, max_width: la, fg_color: lc };
                let lo = widgets[idx].render(&lctx);
                let ra0 = sat_sub_wide(
                    tw,
                    (origin as u128) + (lw as u128) + (p.gap as u128) + (p.right_pad as u128) + (p.max_shift as u128),
                );
                let ra = if ra0 < 4 { 4 } else { ra0 };
                let m = cfg.logo.colors.len();
                let j = (((idx % m) as u128 + (3 % m) as u128) % (m as u128)) as usize;
                proof {
                    vstd::arithmetic::div_mod::lemma_add_mod_noop(idx as int, 3, m as int);
                }
                let rc = cfg.logo.colors[j];
                let rctx = RenderCtx { info, panel_cfg: &cfg.panel, max_width: ra, fg_color: rc };
                let ro = widgets[idx].render(&rctx);
                proof {
                    let shift_i = shifts@[idx as int] as int;
                    assert(la as int == at_least4(sat_sub(origin as int, cfg.panel.left_pad + shift_i + cfg.panel.gap)));
                    assert(ra as int == at_least4(sat_sub(tw as int, origin + lw + cfg.panel.gap + cfg.panel.right_pad + cfg.panel.max_shift)));
                    assert(rc == cfg.logo.colors@[(idx + 3) % (cfg.logo.colors@.len() as int)]);
                    assert(lo@ == widgets@[idx as int].output(*info, cfg.panel, la, lc));
                    assert(ro@ == widgets@[idx as int].output(*info, cfg.panel, ra, rc));
                }
                LayoutRow { left_widgets: single(lo), logo_line: logo, right_widgets: single(ro) }
            } else {
                LayoutRow { left_widgets: no_outputs(), logo_line: logo, right_widgets: no_outputs() }
            };
            let ghost before = rows@;
            rows.push(row);
            proof {
                if lh > 0 && i < lh {
                    assert(av[i as int] == ascii_lines@[i as int]@);
                }
                lemma_rows_push(before, row);
                assert(row_view(row) == classic_layout_row(widgets@, av, *cfg, *info, tw as nat, shifts@, i as int));
                assert(rows@.map_values(|x: LayoutRow| row_view(x)) =~= Seq::new((i + 1) as nat, |k: int| classic_layout_row(widgets@, av, *cfg, *info, tw as nat, shifts@, k)));
            }
            i += 1;
        }
        let out = LayoutOutput { title: to_string(cfg.title.format.as_str()), separator: separator_of(cfg, tw), rows };
        proof {
            assert(layout_view(out) =~= classic_arranged(widgets@, av, *cfg, *info, term_width, shifts@));
        }
        out
    }
}

impl LayoutEngine for StackLayout {
    open spec fn layout_of(&self) -> Layout {
        Layout::Stack
    }

    open spec fn arranged(&self, widgets: Seq<&dyn Widget>, ascii: Seq<Seq<char>>, cfg: Config, info: SysInfo, tw: usize, shifts: Seq<usize>) -> LayoutView {
        stack_arranged(widgets, ascii, cfg, info, tw)
    }

    fn layout(&self) -> (r: Layout) {
        Layout::Stack
    }

    fn arrange(&self, widgets: &[&dyn Widget], ascii_lines: &Vec<String>, cfg: &Config, info: &SysInfo, term_width: usize, shifts: &[usize]) -> (r: LayoutOutput) {
        let trimmed = trim_line_ends(ascii_lines);
        let lw = max_line_width(&trimmed);
        let ghost av = views(ascii_lines@);
        let mut rows: Vec<LayoutRow> = Vec::new();
        let mut i: usize = 0;
        while i < ascii_lines.len()
            invariant
                i <= ascii_lines@.len(),
                av == views(ascii_lines@),
                lw == max_width_seq(trim_ends(av)),
                rows@.map_values(|x: LayoutRow| row_view(x)) == Seq::new(i as nat, |k: int| (
                    Seq::<WidgetView>::empty(),
                    Some(pad_chars(trim_end_seq(av[k]), lw as nat)),
                    Seq::<WidgetView>::empty(),
                )),
            decreases ascii_lines@.len() - i,
        {
            let t = trim_end(ascii_lines[i].as_str());
            let padded = pad_to_chars(&t, lw);
            let row = LayoutRow { left_widgets: no_outputs(), logo_line: Some(padded), right_widgets: no_outputs() };
            let ghost before = rows@;
            rows.push(row);
            proof {
                assert(av[i as int] == ascii_lines@[i as int]@);
                lemma_rows_push(before, row);
                assert(rows@.map_values(|x: LayoutRow| row_view(x)) =~= Seq::new((i + 1) as nat, |k: int| (
                    Seq::<WidgetView>::empty(),
                    Some(pad_chars(trim_end_seq(av[k]), lw as nat)),
                    Seq::<WidgetView>::empty(),
                )));
            }
            i += 1;
        }
        let blank = LayoutRow { left_widgets: no_outputs(), logo_line: None, right_widgets: no_outputs() };
        let ghost before = rows@;
        rows.push(blank);
        proof {
            lemma_rows_push(before, blank);
        }
        let avail = column_avail_of(term_width, cfg.panel.left_pad);
        push_widget_rows(&mut rows, widgets, cfg, info, avail);
        let out = LayoutOutput { title: to_string(cfg.title.format.as_str()), separator: separator_of(cfg, term_width), rows };
        proof {
            assert(layout_view(out) =~= stack_arranged(widgets@, av, *cfg, *info, term_width));
        }
        out
    }
}

impl LayoutEngine for MinimalLayout {
    open spec fn layout_of(&self) -> Layout {
        Layout::Minimal
    }

    open spec fn arranged(&self, widgets: Seq<&dyn Widget>, ascii: Seq<Seq<char>>, cfg: Config, info: SysInfo, tw: usize, shifts: Seq<usize>) -> LayoutView {
        minimal_arranged(widgets, cfg, info, tw)
    }

    fn layout(&self) -> (r: Layout) {
        Layout::Minimal
    }

    fn arrange(&self, widgets: &[&dyn Widget], ascii_lines: &Vec<String>, cfg: &Config, info: &SysInfo, term_width: usize, shifts: &[usize]) -> (r: LayoutOutput) {
        let mut rows: Vec<LayoutRow> = Vec::new();
        proof {
            assert(rows@.map_values(|x: LayoutRow| row_view(x)) =~= Seq::<RowView>::empty());
        }
        let avail = column_avail_of(term_width, cfg.panel.left_pad);
        push_widget_rows(&mut rows, widgets, cfg, info, avail);
        let out = LayoutOutput { title: to_string(cfg.title.format.as_str()), separator: separator_of(cfg, term_width), rows };
        proof {
            assert(layout_view(out) =~= minimal_arranged(widgets@, *cfg, *info, term_width));
        }
        out
    }
}

impl LayoutEngine for CompactLayout {
    open spec fn layout_of(&self) -> Layout {
        Layout::Compact
    }

    open spec fn arranged(&self, widgets: Seq<&dyn Widget>, ascii: Seq<Seq<char>>, cfg: Config, info: SysInfo, tw: usize, shifts: Seq<usize>) -> LayoutView {
        compact_arranged(widgets, cfg, info, tw)
    }

    fn layout(&self) -> (r: Layout) {
        Layout::Compact
    }

    fn arrange(&self, widgets: &[&dyn Widget], ascii_lines: &Vec<String>, cfg: &Config, info: &SysInfo, term_width: usize, shifts: &[usize]) -> (r: LayoutOutput) {
        let mut rows: Vec<LayoutRow> = Vec::new();
        proof {
            assert(rows@.map_values(|x: LayoutRow| row_view(x)) =~= Seq::<RowView>::empty());
        }
        let avail = column_avail_of(term_width, 1);
        push_widget_rows(&mut rows, widgets, cfg, info, avail);
        let out = LayoutOutput { title: String::new(), separator: String::new(), rows };
        proof {
            assert(layout_view(out) =~= compact_arranged(widgets@, *cfg, *info, term_width));
        }
        out
    }
}

/// The engine that draws `layout`.
pub fn engine_for(layout: Layout) -> Box<dyn LayoutEngine> {
    let r: Box<dyn LayoutEngine> = match layout {
        Layout::Classic => {
            let b: Box<dyn LayoutEngine> = Box::new(ClassicLayout);
            b
        },
        Layout::Stack => {
            let b: Box<dyn LayoutEngine> = Box::new(StackLayout);
            b
        },
        Layout::Minimal => {
            let b: Box<dyn LayoutEngine> = Box::new(MinimalLayout);
            b
        },
        Layout::Compact => {
            let b: Box<dyn LayoutEngine> = Box::new(CompactLayout);
            b
        },
    };
    r
}


// ── Drawing a layout ─────────────────────────────────────────────────────

/// `ESC [38;5;231m`: bright white in the 256-colour palette.
pub open spec fn white256_seq() -> Seq<char> {
    seq![esc(), '\u{5b}', '3', '8', ';', '5', ';', '2', '3', '1', 'm']
}

/// Each non-blank character of `t` in bright white, blanks plain.
pub open spec fn white_cells(t: Seq<char>) -> Seq<char>
    decreases t.len(),
{
    if t.len() == 0 {
        Seq::empty()
    } else {
        white_cells(t.drop_last()) + if t.last() != ' ' { white256_seq().push(t.last()) } else { seq![' '] }
    }
}

/// An art line without trailing white space, centred in `tw` columns.
pub open spec fn logo_part(logo: Seq<char>, tw: nat) -> Seq<char> {
    let t = trim_end_seq(logo);
    spaces_seq((sat_sub(tw as int, str_width_of(t) as int) / 2) as nat) + white_cells(t)
}

/// The ANSI texts of widget outputs, concatenated.
pub open spec fn outs_ansi(ws: Seq<WidgetView>) -> Seq<char>
    decreases ws.len(),
{
    if ws.len() == 0 { Seq::empty() } else { outs_ansi(ws.drop_last()) + ws.last().0 }
}

/// `line` followed by each widget, each pushed right so that it ends at
/// column `tw` when there is room.
pub open spec fn right_fill(line: Seq<char>, ws: Seq<WidgetView>, tw: nat) -> Seq<char>
    decreases ws.len(),
{
    if ws.len() == 0 {
        line
    } else {
        let prev = right_fill(line, ws.drop_last(), tw);
        let w = ws.last();
        let rem = sat_sub(tw as int, str_width_of(prev) as int);
        (if rem > w.2 { prev + spaces_seq((rem - w.2) as nat) } else { prev }) + w.0
    }
}

/// One row as text: left widgets (replaced by the centred art line when
/// there is one), right widgets, blanks up to `tw` columns, a reset and a
/// line break.
pub open spec fn row_text(r: RowView, tw: nat) -> Seq<char> {
    let l1 = match r.1 {
        Some(logo) => logo_part(logo, tw),
        None => outs_ansi(r.0),
    };
    let l2 = right_fill(l1, r.2, tw);
    let vis = str_width_of(l2);
    (if vis < tw { l2 + spaces_seq((tw - vis) as nat) } else { l2 }) + reset_seq() + seq!['\n']
}

/// Rows `0..k` as text.
pub open spec fn rows_text(rows: Seq<RowView>, tw: nat, k: nat) -> Seq<char>
    decreases k,
{
    if k == 0 { Seq::empty() } else { rows_text(rows, tw, (k - 1) as nat) + row_text(rows[k - 1], tw) }
}

/// Title colour of a drawn layout.
pub open spec fn layout_title_color() -> Color {
    Color { r: 0xFF, g: 0x9A, b: 0x98 }
}

/// Separator colour of a drawn layout.
pub open spec fn layout_separator_color() -> Color {
    Color { r: 0x9D, g: 0x85, b: 0xFF }
}

/// A layout output as ANSI text for a terminal `tw` columns wide: the
/// title and the separator when not empty, then every row.
pub open spec fn layout_ansi(o: LayoutView, tw: nat) -> Seq<char> {
    let (title, sep, rows) = o;
    (if title.len() > 0 {
        seq!['\n'] + fg_escape_seq(layout_title_color()) + seq![' ', ' '] + bold_seq() + title + reset_seq() + reset_seq() + seq!['\n']
    } else {
        Seq::empty()
    }) + (if sep.len() > 0 {
        fg_escape_seq(layout_separator_color()) + seq![' ', ' '] + sep + reset_seq() + reset_seq() + seq!['\n']
    } else {
        Seq::empty()
    }) + rows_text(rows, tw, rows.len())
}

/// Appends `white_cells(t)`.
fn push_white_cells(out: &mut String, t: &str)
    ensures
        final(out)@ == old(out)@ + white_cells(t@),
{
    let ghost o0 = out@;
    let v = crate::text::chars_of(t);
    let mut k: usize = 0;
    while k < v.len()
        invariant
            v@ == t@,
            k <= v@.len(),
            out@ == o0 + white_cells(t@.take(k as int)),
        decreases v@.len() - k,
    {
        proof {
            assert(t@.take(k + 1).drop_last() =~= t@.take(k as int));
        }
        let ch = v[k];
        if ch != ' ' {
            push_char(out, '\x1b');
            push_char(out, '\u{5b}');
            push_char(out, '3');
            push_char(out, '8');
            push_char(out, ';');
            push_char(out, '5');
            push_char(out, ';');
            push_char(out, '2');
            push_char(out, '3');
            push_char(out, '1');
            push_char(out, 'm');
            push_char(out, ch);
        } else {
            push_char(out, ' ');
        }
        proof {
            assert(out@ =~= o0 + white_cells(t@.take(k + 1)));
        }
        k += 1;
    }
    proof {
        assert(t@.take(t@.len() as int) =~= t@);
    }
}

/// One row as text.
fn row_text_exec(row: &LayoutRow, tw: usize) -> (r: String)
    ensures
        r@ == row_text(row_view(*row), tw as nat),
{
    let mut line = String::new();
    let mut k: usize = 0;
    while k < row.left_widgets.len()
        invariant
            k <= row.left_widgets@.len(),
            line@ == outs_ansi(outs_view(row.left_widgets@).take(k as int)),
        decreases row.left_widgets@.len() - k,
    {
        proof {
            assert(outs_view(row.left_widgets@).take(k + 1).drop_last() =~= outs_view(row.left_widgets@).take(k as int));
        }
        push_str(&mut line, row.left_widgets[k].ansi.as_str());
        k += 1;
    }
    proof {
        assert(outs_view(row.left_widgets@).take(row.left_widgets@.len() as int) =~= outs_view(row.left_widgets@));
    }
    match &row.logo_line {
        Some(logo) => {
            let t = trim_end(logo.as_str());
            let w = str_width(&t);
            let center = (if tw > w { tw - w } else { 0 }) / 2;
            let mut part = spaces(center);
            push_white_cells(&mut part, &t);
            line = part;
        },
        None => {},
    }
    let ghost l1 = line@;
    let rights = &row.right_widgets;
    let mut j: usize = 0;
    while j < rights.len()
        invariant
            j <= rights@.len(),
            line@ == right_fill(l1, outs_view(rights@).take(j as int), tw as nat),
        decreases rights@.len() - j,
    {
        proof {
            assert(outs_view(rights@).take(j + 1).drop_last() =~= outs_view(rights@).take(j as int));
        }
        let cur = str_width(&line);
        let rem = if tw > cur { tw - cur } else { 0 };
        if rem > rights[j].width {
            let pad = spaces(rem - rights[j].width);
            push_str(&mut line, &pad);
        }
        push_str(&mut line, rights[j].ansi.as_str());
        proof {
            assert(line@ =~= right_fill(l1, outs_view(rights@).take(j + 1), tw as nat));
        }
        j += 1;
    }
    proof {
        assert(outs_view(rights@).take(rights@.len() as int) =~= outs_view(rights@));
    }
    let vis = str_width(&line);
    if vis < tw {
        let pad = spaces(tw - vis);
        push_str(&mut line, &pad);
    }
    push_reset(&mut line);
    push_char(&mut line, '\n');
    proof {
        assert(line@ =~= row_text(row_view(*row), tw as nat));
    }
    line
}

/// Draws a layout output as ANSI text for a terminal `term_width` columns
/// wide. Art lines are drawn centred in bright white, replacing the left
/// widgets of their row.
pub fn render_layout_output(output: &LayoutOutput, ascii_lines: &Vec<String>, term_width: usize) -> (r: String)
    ensures
        r@ == layout_ansi(layout_view(*output), term_width as nat),
{
    let mut out = String::new();
    if output.title.unicode_len() > 0 {
        push_char(&mut out, '\n');
        let e = Color::new(0xFF, 0x9A, 0x98).fg_escape();
        push_str(&mut out, &e);
        push_char(&mut out, ' ');
        push_char(&mut out, ' ');
        push_bold(&mut out);
        push_str(&mut out, output.title.as_str());
        push_reset(&mut out);
        push_reset(&mut out);
        push_char(&mut out, '\n');
    }
    let ghost a = out@;
    if output.separator.unicode_len() > 0 {
        let e = Color::new(0x9D, 0x85, 0xFF).fg_escape();
        push_str(&mut out, &e);
        push_char(&mut out, ' ');
        push_char(&mut out, ' ');
        push_str(&mut out, output.separator.as_str());
        push_reset(&mut out);
        push_reset(&mut out);
        push_char(&mut out, '\n');
    }
    let ghost head = out@;
    let ghost rv = layout_view(*output).2;
    let mut i: usize = 0;
    while i < output.rows.len()
        invariant
            i <= output.rows@.len(),
            rv == layout_view(*output).2,
            out@ == head + rows_text(rv, term_width as nat, i as nat),
        decreases output.rows@.len() - i,
    {
        let t = row_text_exec(&output.rows[i], term_width);
        push_str(&mut out, &t);
        proof {
            assert(rv[i as int] == row_view(output.rows@[i as int]));
        }
        i += 1;
    }
    proof {
        assert(out@ =~= layout_ansi(layout_view(*output), term_width as nat));
    }
    out
}

} // verus!

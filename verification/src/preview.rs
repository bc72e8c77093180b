//! The configuration editor's live preview: the configuration arranged by
//! the layout engine of the chosen display mode and drawn as styled lines,
//! the art centred and coloured cell by cell; and the choice between a
//! logo's small and full variants as the terminal changes size.
use vstd::prelude::*;
use crate::config::Config;
use crate::info::SysInfo;
use crate::layout_engine::{
    arrange_ok, classic_arranged, compact_arranged, color_or_white, layout_view, minimal_arranged, ClassicLayout,
    CompactLayout, Layout, LayoutEngine, LayoutOutput, LayoutView, MinimalLayout, RowView,
};
use crate::render::{lines_view, max_line_width, max_width_seq, segs_view, trim_ends, trim_line_ends, SegView, StyledLine, StyledSegment};
use crate::text::{chars_of, lines, lines_seq, spaces, spaces_seq, to_string, views};
use crate::theme::{flag_color_at, flag_color_spec, hex_slicing_panics, parse_hex_color, stretch_index, stretch_spec, Color};
use crate::widget::{sat_sub, Widget, WidgetOutput, WidgetView};
use crate::width::{str_width, str_width_of};
use crate::wizard::DisplayMode;

verus! {

// ── Engine and art by display mode ───────────────────────────────────────

/// The layout the preview uses for a display mode.
pub open spec fn preview_layout_spec(mode: DisplayMode) -> Layout {
    match mode {
        DisplayMode::Desktop => Layout::Classic,
        DisplayMode::Companion => Layout::Compact,
        DisplayMode::Monitor => Layout::Minimal,
    }
}

/// The layout the preview uses for a display mode: classic for the desktop
/// view, compact for the companion, minimal for the monitor.
pub fn preview_layout(mode: DisplayMode) -> (r: Layout)
    ensures
        r == preview_layout_spec(mode),
{
    match mode {
        DisplayMode::Desktop => Layout::Classic,
        DisplayMode::Companion => Layout::Compact,
        DisplayMode::Monitor => Layout::Minimal,
    }
}

/// Whether the preview shows the art: only in the desktop view, and not
/// when the logo is switched off.
pub fn preview_shows_art(mode: DisplayMode, logo_disabled: bool) -> (r: bool)
    ensures
        r == (mode == DisplayMode::Desktop && !logo_disabled),
{
    mode == DisplayMode::Desktop && !logo_disabled
}

/// What the preview's layout engine makes of the widgets and art lines.
pub open spec fn preview_arranged(widgets: Seq<&dyn Widget>, ascii: Seq<Seq<char>>, cfg: Config, info: SysInfo, mode: DisplayMode, tw: usize, shifts: Seq<usize>) -> LayoutView {
    match mode {
        DisplayMode::Desktop => classic_arranged(widgets, ascii, cfg, info, tw, shifts),
        DisplayMode::Companion => compact_arranged(widgets, cfg, info, tw),
        DisplayMode::Monitor => minimal_arranged(widgets, cfg, info, tw),
    }
}

// ── Drawing the arranged rows ────────────────────────────────────────────

/// `n` capped at `usize::MAX` (the preview's column counts saturate).
pub open spec fn sat(n: nat) -> nat {
    if n > usize::MAX { usize::MAX as nat } else { n }
}

/// Columns of a list of segments, as their texts' widths added up.
pub open spec fn cols(s: Seq<SegView>) -> nat
    decreases s.len(),
{
    if s.len() == 0 { 0 } else { cols(s.drop_last()) + str_width_of(s.last().0) }
}

/// Total of the widths of widget outputs.
pub open spec fn outs_width(ws: Seq<WidgetView>) -> nat
    decreases ws.len(),
{
    if ws.len() == 0 { 0 } else { outs_width(ws.drop_last()) + ws.last().2 }
}

/// The styled segments of widget outputs, one after the other.
pub open spec fn outs_segs(ws: Seq<WidgetView>) -> Seq<SegView>
    decreases ws.len(),
{
    if ws.len() == 0 { Seq::empty() } else { outs_segs(ws.drop_last()) + ws.last().1 }
}

/// Unstyled text.
pub open spec fn plain(t: Seq<char>) -> SegView {
    (t, None, None, false)
}

/// `s` followed by blanks up to column `target` (nothing when it already
/// reaches it).
pub open spec fn pad_to(s: Seq<SegView>, target: nat) -> Seq<SegView> {
    let cur = sat(cols(s));
    if target > cur { s.push(plain(spaces_seq((target - cur) as nat))) } else { s }
}

/// Whether cell `(ri, ci)` of the art lies on the flag's ring.
pub open spec fn ring_at(ring: Seq<Seq<bool>>, ri: int, ci: int) -> bool {
    0 <= ri < ring.len() && 0 <= ci < ring[ri].len() && ring[ri][ci]
}

/// Colour of art cell `(ri, ci)`: the flag pattern when the palette is a
/// flag, else the palette stretched over the rows (over the columns when
/// `vert`), white past its end.
pub open spec fn cell_color(colors: Seq<Color>, in_ring: bool, vert: bool, ri: nat, ci: nat, rows: nat, lw: nat) -> Color {
    match flag_color_spec(colors, in_ring, vert) {
        Some(c) => c,
        None => {
            let idx = if vert { ci } else { ri };
            let total = if vert { lw } else { rows };
            color_or_white(colors, stretch_spec(idx, total, colors.len()))
        },
    }
}

/// The art line `logo` of row `ri` as one segment per character: blanks
/// plain, other characters in their cell's colour.
pub open spec fn logo_segs(logo: Seq<char>, colors: Seq<Color>, ring: Seq<Seq<bool>>, vert: bool, ri: nat, rows: nat, lw: nat) -> Seq<SegView>
    decreases logo.len(),
{
    if logo.len() == 0 {
        Seq::empty()
    } else {
        let ci = (logo.len() - 1) as nat;
        let ch = logo.last();
        let rest = logo_segs(logo.drop_last(), colors, ring, vert, ri, rows, lw);
        if ch != ' ' {
            rest.push((seq![ch], Some(cell_color(colors, ring_at(ring, ri as int, ci as int), vert, ri, ci, rows, lw)), None, false))
        } else {
            rest.push(plain(seq![' ']))
        }
    }
}

/// Row `ri` of the preview on a `tw`-column screen: the left widgets, the
/// art line from column `origin`, the right widgets against the right
/// edge, blanks up to `tw`.
pub open spec fn preview_row(row: RowView, ri: nat, colors: Seq<Color>, ring: Seq<Seq<bool>>, vert: bool, rows: nat, lw: nat, origin: nat, tw: nat) -> Seq<SegView> {
    let target = sat_sub(tw as int, sat(outs_width(row.2)) as int) as nat;
    let left = outs_segs(row.0);
    let body = match row.1 {
        Some(logo) => pad_to(pad_to(left, origin) + logo_segs(logo, colors, ring, vert, ri, rows, lw), target),
        None => pad_to(left, target),
    };
    pad_to(body + outs_segs(row.2), tw)
}

/// Where the art starts: centred when it is narrower than the screen.
pub open spec fn logo_origin(lw: nat, tw: nat) -> nat {
    if lw > 0 && lw < tw { ((tw - lw) / 2) as nat } else { 0 }
}

/// Colour of the title line.
pub open spec fn title_color(cfg: Config) -> Color {
    match parse_hex_color(cfg.title.color@) {
        Some(c) => c,
        None => Color { r: 255, g: 154, b: 152 },
    }
}

/// Colour of the separator line.
pub open spec fn separator_color(cfg: Config) -> Color {
    match parse_hex_color(cfg.separator.color@) {
        Some(c) => c,
        None => Color { r: 157, g: 133, b: 255 },
    }
}

/// The title line (bold) and the separator line, each indented by two
/// columns, when the layout has them.
pub open spec fn head_lines(out: LayoutView, cfg: Config) -> Seq<Seq<SegView>> {
    let t: Seq<Seq<SegView>> = if out.0.len() > 0 {
        seq![seq![plain(seq![' ', ' ']), (out.0, Some(title_color(cfg)), None, true)]]
    } else {
        Seq::empty()
    };
    if out.1.len() > 0 {
        t.push(seq![plain(seq![' ', ' ']), (out.1, Some(separator_color(cfg)), None, false)])
    } else {
        t
    }
}

/// The preview's lines after the first `k` rows, and whether it stopped:
/// a row that draws nothing adds no line, and drawing stops once there are
/// `width / 2` lines.
pub open spec fn rows_state(out: LayoutView, cfg: Config, ring: Seq<Seq<bool>>, lw: nat, width: nat, k: nat) -> (Seq<Seq<SegView>>, bool)
    decreases k,
{
    if k == 0 {
        (head_lines(out, cfg), false)
    } else {
        let (ls, stop) = rows_state(out, cfg, ring, lw, width, (k - 1) as nat);
        if stop || k > out.2.len() {
            (ls, stop)
        } else {
            let tw = if width < 20 { 20 } else { width };
            let vert = cfg.logo.color_dir@ == "vertical"@;
            let l = preview_row(out.2[k - 1], (k - 1) as nat, cfg.logo.colors@, ring, vert, out.2.len(), lw, logo_origin(lw, tw), tw);
            let ls2 = if l.len() > 0 { ls.push(l) } else { ls };
            (ls2, ls2.len() >= width / 2)
        }
    }
}

/// The preview's lines for an arranged layout and its art lines on a
/// preview `width` columns wide (at least 20 are drawn).
pub open spec fn preview_lines_spec(out: LayoutView, ascii: Seq<Seq<char>>, cfg: Config, ring: Seq<Seq<bool>>, width: nat) -> Seq<Seq<SegView>> {
    rows_state(out, cfg, ring, max_width_seq(trim_ends(ascii)), width, out.2.len()).0
}

/// The whole preview: the configuration's widgets arranged by the display
/// mode's engine, with the art lines of `art` when `show_art`.
pub open spec fn editor_preview_spec(widgets: Seq<&dyn Widget>, art: Seq<char>, cfg: Config, info: SysInfo, mode: DisplayMode, show_art: bool, width: nat, shifts: Seq<usize>, ring: Seq<Seq<bool>>) -> Seq<Seq<SegView>> {
    let ascii = if show_art { lines_seq(art) } else { Seq::empty() };
    let tw: usize = if width < 20 { 20 } else { width as usize };
    preview_lines_spec(preview_arranged(widgets, ascii, cfg, info, mode, tw, shifts), ascii, cfg, ring, width)
}


// ── Building the lines ───────────────────────────────────────────────────

/// A copy of a segment.
fn copy_seg(s: &StyledSegment) -> (r: StyledSegment)
    ensures
        r@ == s@,
{
    StyledSegment { text: to_string(s.text.as_str()), fg: s.fg, bg: s.bg, bold: s.bold }
}

/// Appends a segment.
fn push_seg(line: &mut Vec<StyledSegment>, seg: StyledSegment)
    ensures
        segs_view(final(line)@) == segs_view(old(line)@).push(seg@),
{
    line.push(seg);
    proof {
        assert(segs_view(final(line)@) =~= segs_view(old(line)@).push(seg@));
    }
}

/// Appends the styled segments of widget outputs.
fn push_outs(line: &mut Vec<StyledSegment>, ws: &Vec<WidgetOutput>)
    ensures
        segs_view(final(line)@) == segs_view(old(line)@) + outs_segs(crate::layout_engine::outs_view(ws@)),
{
    let ghost wv = crate::layout_engine::outs_view(ws@);
    let ghost base = segs_view(line@);
    let mut i: usize = 0;
    proof {
        assert(wv.take(0) =~= Seq::<WidgetView>::empty());
        assert(base + outs_segs(wv.take(0)) =~= base);
    }
    while i < ws.len()
        invariant
            i <= ws@.len(),
            wv == crate::layout_engine::outs_view(ws@),
            segs_view(line@) == base + outs_segs(wv.take(i as int)),
        decreases ws@.len() - i,
    {
        proof {
            assert(wv.take(i + 1).drop_last() =~= wv.take(i as int));
            assert(wv.take(i + 1).last() == ws@[i as int]@);
        }
        let ghost before = segs_view(line@);
        let segs = &ws[i].styled;
        let mut j: usize = 0;
        while j < segs.len()
            invariant
                j <= segs@.len(),
                segs_view(line@) == before + segs_view(segs@).take(j as int),
            decreases segs@.len() - j,
        {
            let c = copy_seg(&segs[j]);
            push_seg(line, c);
            proof {
                assert(segs_view(segs@).take(j + 1) =~= segs_view(segs@).take(j as int).push(segs@[j as int]@));
            }
            j += 1;
        }
        proof {
            assert(segs_view(segs@).take(segs@.len() as int) =~= segs_view(segs@));
            assert(segs_view(line@) =~= base + outs_segs(wv.take(i + 1)));
        }
        i += 1;
    }
    proof {
        assert(wv.take(ws@.len() as int) =~= wv);
    }
}

/// Columns of a line (saturating).
fn line_cols(line: &Vec<StyledSegment>) -> (r: usize)
    ensures
        r as nat == sat(cols(segs_view(line@))),
{
    let ghost sv = segs_view(line@);
    let mut r: usize = 0;
    let mut i: usize = 0;
    proof {
        assert(sv.take(0) =~= Seq::<SegView>::empty());
    }
    while i < line.len()
        invariant
            i <= line@.len(),
            sv == segs_view(line@),
            r as nat == sat(cols(sv.take(i as int))),
        decreases line@.len() - i,
    {
        proof {
            assert(sv.take(i + 1).drop_last() =~= sv.take(i as int));
            assert(sv.take(i + 1).last() == line@[i as int]@);
        }
        let w = str_width(line[i].text.as_str());
        r = r.saturating_add(w);
        i += 1;
    }
    proof {
        assert(sv.take(line@.len() as int) =~= sv);
    }
    r
}

/// Total width of widget outputs (saturating).
fn outs_cols(ws: &Vec<WidgetOutput>) -> (r: usize)
    ensures
        r as nat == sat(outs_width(crate::layout_engine::outs_view(ws@))),
{
    let ghost wv = crate::layout_engine::outs_view(ws@);
    let mut r: usize = 0;
    let mut i: usize = 0;
    proof {
        assert(wv.take(0) =~= Seq::<WidgetView>::empty());
    }
    while i < ws.len()
        invariant
            i <= ws@.len(),
            wv == crate::layout_engine::outs_view(ws@),
            r as nat == sat(outs_width(wv.take(i as int))),
        decreases ws@.len() - i,
    {
        proof {
            assert(wv.take(i + 1).drop_last() =~= wv.take(i as int));
            assert(wv.take(i + 1).last() == ws@[i as int]@);
        }
        r = r.saturating_add(ws[i].width);
        i += 1;
    }
    proof {
        assert(wv.take(ws@.len() as int) =~= wv);
    }
    r
}

/// Pads a line with blanks up to column `target`.
fn pad_line_to(line: &mut Vec<StyledSegment>, target: usize)
    ensures
        segs_view(final(line)@) == pad_to(segs_view(old(line)@), target as nat),
{
    let cur = line_cols(line);
    if target > cur {
        let seg = StyledSegment { text: spaces(target - cur), fg: None, bg: None, bold: false };
        push_seg(line, seg);
    }
}


/// Views of the ring rows.
pub open spec fn ring_view(ring: Seq<Vec<bool>>) -> Seq<Seq<bool>> {
    ring.map_values(|r: Vec<bool>| r@)
}

/// Whether cell `(ri, ci)` lies on the ring.
fn ring_cell(ring: &Vec<Vec<bool>>, ri: usize, ci: usize) -> (b: bool)
    ensures
        b == ring_at(ring_view(ring@), ri as int, ci as int),
{
    if ri < ring.len() && ci < ring[ri].len() { ring[ri][ci] } else { false }
}

/// Colour of an art cell (see `cell_color`).
fn cell_color_of(colors: &Vec<Color>, in_ring: bool, vert: bool, ri: usize, ci: usize, rows: usize, lw: usize) -> (c: Color)
    ensures
        c == cell_color(colors@, in_ring, vert, ri as nat, ci as nat, rows as nat, lw as nat),
{
    match flag_color_at(colors.as_slice(), in_ring, vert) {
        Some(c) => c,
        None => {
            let idx = if vert { ci } else { ri };
            let total = if vert { lw } else { rows };
            let k = stretch_index(idx, total, colors.len());
            if k < colors.len() { colors[k] } else { Color::new(255, 255, 255) }
        },
    }
}

/// Appends the art line `logo` of row `ri` (see `logo_segs`).
fn push_logo(line: &mut Vec<StyledSegment>, logo: &str, colors: &Vec<Color>, ring: &Vec<Vec<bool>>, vert: bool, ri: usize, rows: usize, lw: usize)
    ensures
        segs_view(final(line)@) == segs_view(old(line)@) + logo_segs(logo@, colors@, ring_view(ring@), vert, ri as nat, rows as nat, lw as nat),
{
    let v = chars_of(logo);
    let ghost rv = ring_view(ring@);
    let ghost base = segs_view(line@);
    let mut ci: usize = 0;
    proof {
        assert(logo@.take(0) =~= Seq::<char>::empty());
        assert(base + logo_segs(logo@.take(0), colors@, rv, vert, ri as nat, rows as nat, lw as nat) =~= base);
    }
    while ci < v.len()
        invariant
            ci <= v@.len(),
            v@ == logo@,
            rv == ring_view(ring@),
            segs_view(line@) == base + logo_segs(logo@.take(ci as int), colors@, rv, vert, ri as nat, rows as nat, lw as nat),
        decreases v@.len() - ci,
    {
        let ch = v[ci];
        proof {
            assert(logo@.take(ci + 1).drop_last() =~= logo@.take(ci as int));
            assert(logo@.take(ci + 1).last() == ch);
        }
        let ghost before = segs_view(line@);
        if ch != ' ' {
            let in_ring = ring_cell(ring, ri, ci);
            let c = cell_color_of(colors, in_ring, vert, ri, ci, rows, lw);
            let mut t = String::new();
            crate::text::push_char(&mut t, ch);
            proof {
                assert(t@ =~= seq![ch]);
            }
            push_seg(line, StyledSegment { text: t, fg: Some(c), bg: None, bold: false });
        } else {
            let mut t = String::new();
            crate::text::push_char(&mut t, ' ');
            proof {
                assert(t@ =~= seq![' ']);
            }
            push_seg(line, StyledSegment { text: t, fg: None, bg: None, bold: false });
        }
        proof {
            assert(segs_view(line@) =~= base + logo_segs(logo@.take(ci + 1), colors@, rv, vert, ri as nat, rows as nat, lw as nat));
        }
        ci += 1;
    }
    proof {
        assert(logo@.take(v@.len() as int) =~= logo@);
    }
}


proof fn lemma_rows_state_stays(out: LayoutView, cfg: Config, ring: Seq<Seq<bool>>, lw: nat, width: nat, k: nat, m: nat)
    requires
        rows_state(out, cfg, ring, lw, width, k).1,
        k <= m,
    ensures
        rows_state(out, cfg, ring, lw, width, m) == rows_state(out, cfg, ring, lw, width, k),
    decreases m - k,
{
    if k < m {
        lemma_rows_state_stays(out, cfg, ring, lw, width, k, (m - 1) as nat);
    }
}

/// A two-column indent followed by one styled text.
fn indented(text: &str, c: Color, bold: bool) -> (r: StyledLine)
    ensures
        crate::render::line_view(r) == seq![plain(seq![' ', ' ']), (text@, Some(c), None, bold)],
{
    let mut segs: Vec<StyledSegment> = Vec::new();
    segs.push(StyledSegment { text: spaces(2), fg: None, bg: None, bold: false });
    segs.push(StyledSegment { text: to_string(text), fg: Some(c), bg: None, bold });
    let r = StyledLine { segments: segs };
    proof {
        assert(spaces_seq(2) =~= seq![' ', ' ']);
        assert(crate::render::line_view(r) =~= seq![plain(seq![' ', ' ']), (text@, Some(c), None, bold)]);
    }
    r
}

/// Draws an arranged layout as the preview's styled lines (see
/// `preview_lines_spec`); `ring` marks the art cells on a flag's ring.
pub fn preview_lines(out: &LayoutOutput, ascii_lines: &Vec<String>, cfg: &Config, ring: &Vec<Vec<bool>>, width: usize) -> (r: Vec<StyledLine>)
    requires
        !hex_slicing_panics(cfg.title.color@),
        !hex_slicing_panics(cfg.separator.color@),
    ensures
        lines_view(r@) == preview_lines_spec(layout_view(*out), views(ascii_lines@), *cfg, ring_view(ring@), width as nat),
{
    let ghost ov = layout_view(*out);
    let ghost rv = ring_view(ring@);
    let tw = if width < 20 { 20 } else { width };
    let mut lines: Vec<StyledLine> = Vec::new();
    if !out.title.as_str().is_empty() {
        let c = match Color::from_hex_opt(cfg.title.color.as_str()) {
            Some(c) => c,
            None => Color::new(255, 154, 152),
        };
        lines.push(indented(out.title.as_str(), c, true));
    }
    if !out.separator.as_str().is_empty() {
        let c = match Color::from_hex_opt(cfg.separator.color.as_str()) {
            Some(c) => c,
            None => Color::new(157, 133, 255),
        };
        lines.push(indented(out.separator.as_str(), c, false));
    }
    proof {
        assert(lines_view(lines@) =~= head_lines(ov, *cfg));
    }
    let trimmed = trim_line_ends(ascii_lines);
    let lw = max_line_width(&trimmed);
    let ghost lwn = max_width_seq(trim_ends(views(ascii_lines@)));
    let origin = if lw > 0 && lw < tw { (tw - lw) / 2 } else { 0 };
    let vert = crate::text::str_eq(cfg.logo.color_dir.as_str(), "vertical");
    let n = out.rows.len();
    let mut k: usize = 0;
    let mut stopped = false;
    while k < n && !stopped
        invariant
            k <= n,
            n == out.rows@.len(),
            ov == layout_view(*out),
            rv == ring_view(ring@),
            lw as nat == lwn,
            lwn == max_width_seq(trim_ends(views(ascii_lines@))),
            tw == (if width < 20 { 20 } else { width }),
            origin as nat == logo_origin(lw as nat, tw as nat),
            vert == (cfg.logo.color_dir@ == "vertical"@),
            rows_state(ov, *cfg, rv, lwn, width as nat, k as nat) == (lines_view(lines@), stopped),
        decreases n - k,
    {
        let row = &out.rows[k];
        let ghost rview = ov.2[k as int];
        proof {
            assert(rview == crate::layout_engine::row_view(*row));
        }
        let mut segs: Vec<StyledSegment> = Vec::new();
        proof {
            assert(segs_view(segs@) =~= Seq::<SegView>::empty());
        }
        let right_vis = outs_cols(&row.right_widgets);
        let target = if tw > right_vis { tw - right_vis } else { 0 };
        push_outs(&mut segs, &row.left_widgets);
        proof {
            assert(segs_view(segs@) =~= outs_segs(rview.0));
        }
        match &row.logo_line {
            Some(logo) => {
                pad_line_to(&mut segs, origin);
                push_logo(&mut segs, logo.as_str(), &cfg.logo.colors, ring, vert, k, n, lw);
                pad_line_to(&mut segs, target);
            },
            None => {
                pad_line_to(&mut segs, target);
            },
        }
        push_outs(&mut segs, &row.right_widgets);
        pad_line_to(&mut segs, tw);
        proof {
            assert(segs_view(segs@) == preview_row(rview, k as nat, cfg.logo.colors@, rv, vert, n as nat, lwn, logo_origin(lwn, tw as nat), tw as nat));
        }
        if segs.len() > 0 {
            let ghost before = lines_view(lines@);
            let l = StyledLine { segments: segs };
            lines.push(l);
            proof {
                assert(lines_view(lines@) =~= before.push(crate::render::line_view(l)));
            }
        }
        k += 1;
        stopped = lines.len() >= width / 2;
    }
    proof {
        if stopped {
            lemma_rows_state_stays(ov, *cfg, rv, lwn, width as nat, k as nat, n as nat);
        }
    }
    lines
}

/// The editor's preview (see `editor_preview_spec`): the widgets arranged
/// by the display mode's engine on a screen `width` columns wide (at least
/// 20), with the art of `art` when `show_art`, drawn as styled lines.
pub fn editor_preview(
    widgets: &[&dyn Widget],
    art: &str,
    cfg: &Config,
    info: &SysInfo,
    mode: DisplayMode,
    show_art: bool,
    width: usize,
    shifts: &[usize],
    ring: &Vec<Vec<bool>>,
) -> (r: Vec<StyledLine>)
    requires
        arrange_ok(*cfg, widgets@.len(), if width < 20 { 20 } else { width }, preview_layout_spec(mode)),
        shifts@.len() >= widgets@.len(),
        forall|k: int| 0 <= k < widgets@.len() ==> #[trigger] shifts@[k] <= cfg.panel.max_shift,
        !hex_slicing_panics(cfg.title.color@),
        !hex_slicing_panics(cfg.separator.color@),
    ensures
        lines_view(r@) == editor_preview_spec(widgets@, art@, *cfg, *info, mode, show_art, width as nat, shifts@, ring_view(ring@)),
{
    let ascii: Vec<String> = if show_art { lines(art) } else { Vec::new() };
    proof {
        if !show_art {
            assert(views(ascii@) =~= Seq::<Seq<char>>::empty());
        }
    }
    let tw = if width < 20 { 20 } else { width };
    let out = match mode {
        DisplayMode::Desktop => ClassicLayout.arrange(widgets, &ascii, cfg, info, tw, shifts),
        DisplayMode::Companion => CompactLayout.arrange(widgets, &ascii, cfg, info, tw, shifts),
        DisplayMode::Monitor => MinimalLayout.arrange(widgets, &ascii, cfg, info, tw, shifts),
    };
    preview_lines(&out, &ascii, cfg, ring, width)
}


// ── Small and full logo ──────────────────────────────────────────────────

/// Columns of the widest line of `art`, trailing blanks not counted.
pub fn art_width(art: &str) -> (r: usize)
    ensures
        r == max_width_seq(trim_ends(lines_seq(art@))),
{
    let ls = lines(art);
    let trimmed = trim_line_ends(&ls);
    max_line_width(&trimmed)
}

/// Whether the small variant of the logo should replace the art shown: the
/// art (`art_w` columns) leaves fewer than ten columns of a `term_w`-column
/// terminal, a small variant exists, and it is not already shown.
pub fn wants_small_logo(art_w: usize, term_w: usize, has_small: bool, is_small: bool) -> (r: bool)
    ensures
        r == (art_w > 0 && sat_sub(term_w as int, art_w as int) < 10 && has_small && !is_small),
{
    let room = if term_w > art_w { term_w - art_w } else { 0 };
    art_w > 0 && room < 10 && has_small && !is_small
}

/// Whether the full logo (`full_w` columns) may come back while the small
/// one is shown: it leaves at least ten columns of the terminal.
pub fn full_logo_fits(full_w: usize, term_w: usize) -> (r: bool)
    ensures
        r == (sat_sub(term_w as int, full_w as int) >= 10),
{
    let room = if term_w > full_w { term_w - full_w } else { 0 };
    room >= 10
}

} // verus!

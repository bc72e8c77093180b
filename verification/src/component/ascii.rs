//! The art component: the logo, centred and coloured.
use vstd::prelude::*;
use super::{pad_line, push_row, rows_view, sp, spans_view, with_fg, Component, RenderCtx, StyledSpan};
use crate::config::Config;
use crate::info::SysInfo;
use crate::render::{colors_vertical, max_line_width, max_width_seq, pad_segs, trim_ends, trim_line_ends, SegView};
use crate::text::{chars_of, lines, lines_seq, push_char, spaces, spaces_seq, str_eq, views};
use crate::theme::{flag_color_at, flag_color_spec, stretch_index, stretch_spec, Color};
use crate::widget::sat_sub;
use crate::width::{char_cols, char_cols_of};

verus! {

/// Whether cell `col` of art row `i` lies on the flag ring.
pub open spec fn ring_at(ring: Seq<Vec<bool>>, i: nat, col: nat) -> bool {
    i < ring.len() && col < ring[i as int]@.len() && ring[i as int]@[col as int]
}

/// Colour of the art cell at row `i`, column `col`: the flag pattern for a
/// flag palette, otherwise the palette spread over the rows (or over the
/// columns when `vert`), white when the palette is empty.
pub open spec fn cell_color(pal: Seq<Color>, ring: Seq<Vec<bool>>, i: nat, col: nat, total: nat, w: nat, vert: bool) -> Color {
    match flag_color_spec(pal, ring_at(ring, i, col), false) {
        Some(c) => c,
        None => {
            let k = stretch_spec(if vert { col } else { i }, if vert { w } else { total }, pal.len());
            if k < pal.len() { pal[k as int] } else { Color { r: 255, g: 255, b: 255 } }
        },
    }
}

/// Spans of art row `i` (one per character, non-blank ones coloured) and
/// the column reached.
pub open spec fn art_row_spans(s: Seq<char>, pal: Seq<Color>, ring: Seq<Vec<bool>>, i: nat, total: nat, w: nat, vert: bool) -> (Seq<SegView>, nat)
    decreases s.len(),
{
    if s.len() == 0 {
        (Seq::empty(), 0)
    } else {
        let (prev, col) = art_row_spans(s.drop_last(), pal, ring, i, total, w, vert);
        let ch = s.last();
        let span = if ch != ' ' { with_fg(sp(seq![ch]), cell_color(pal, ring, i, col, total, w, vert)) } else { sp(seq![' ']) };
        let next = if col + char_cols(ch) < usize::MAX { col + char_cols(ch) } else { usize::MAX as nat };
        (prev.push(span), next)
    }
}

/// The art's lines without trailing white space.
pub open spec fn art_lines(art: Seq<char>) -> Seq<Seq<char>> {
    trim_ends(lines_seq(art))
}

/// What the art component draws: each row centred as a block on a
/// terminal `tw` columns wide and padded to the block's right edge.
pub open spec fn ascii_styled(art: Seq<char>, ring: Seq<Vec<bool>>, cfg: Config, tw: usize, pal: Seq<Color>) -> Seq<Seq<SegView>> {
    let ls = art_lines(art);
    let w = max_width_seq(ls);
    let center = (sat_sub(tw as int, w as int) / 2) as nat;
    let vert = colors_vertical(cfg);
    Seq::new(ls.len(), |i: int| pad_segs(
        (if center > 0 { seq![sp(spaces_seq(center))] } else { Seq::empty() }) + art_row_spans(ls[i], pal, ring, i as nat, ls.len(), w, vert).0,
        center + w,
    ))
}

/// The art rows without indent, each padded to the art's width, and that
/// width.
pub open spec fn ascii_colored(art: Seq<char>, ring: Seq<Vec<bool>>, cfg: Config, pal: Seq<Color>) -> (Seq<Seq<SegView>>, nat) {
    let ls = art_lines(art);
    let w = max_width_seq(ls);
    let vert = colors_vertical(cfg);
    (Seq::new(ls.len(), |i: int| pad_segs(art_row_spans(ls[i], pal, ring, i as nat, ls.len(), w, vert).0, w)), w)
}

/// The logo. `ring` marks, per row and column, the cells on the ring of a
/// flag pattern.
pub struct AsciiComponent {
    pub art: String,
    pub ring: Vec<Vec<bool>>,
}

impl AsciiComponent {
    /// A logo component for `art`, with its flag-ring cells.
    pub fn new(art: String, ring: Vec<Vec<bool>>) -> (r: Self)
        ensures
            r.art@ == art@,
            r.ring@ == ring@,
    {
        AsciiComponent { art, ring }
    }
}

/// Whether cell `col` of row `i` is on the ring.
fn ring_at_of(ring: &Vec<Vec<bool>>, i: usize, col: usize) -> (b: bool)
    ensures
        b == ring_at(ring@, i as nat, col as nat),
{
    i < ring.len() && col < ring[i].len() && ring[i][col]
}

/// Colour of one art cell.
fn cell_color_of(pal: &[Color], ring: &Vec<Vec<bool>>, i: usize, col: usize, total: usize, w: usize, vert: bool) -> (c: Color)
    ensures
        c == cell_color(pal@, ring@, i as nat, col as nat, total as nat, w as nat, vert),
{
    match flag_color_at(pal, ring_at_of(ring, i, col), false) {
        Some(c) => c,
        None => {
            let k = stretch_index(if vert { col } else { i }, if vert { w } else { total }, pal.len());
            if k < pal.len() { pal[k] } else { Color::new(255, 255, 255) }
        },
    }
}

/// Spans of one art row.
fn art_row_exec(s: &str, pal: &[Color], ring: &Vec<Vec<bool>>, i: usize, total: usize, w: usize, vert: bool) -> (r: Vec<StyledSpan>)
    ensures
        spans_view(r@) == art_row_spans(s@, pal@, ring@, i as nat, total as nat, w as nat, vert).0,
{
    let v = chars_of(s);
    let mut out: Vec<StyledSpan> = Vec::new();
    let mut col: usize = 0;
    let mut k: usize = 0;
    while k < v.len()
        invariant
            v@ == s@,
            k <= v@.len(),
            (spans_view(out@), col as nat) == art_row_spans(s@.take(k as int), pal@, ring@, i as nat, total as nat, w as nat, vert),
        decreases v@.len() - k,
    {
        proof {
            assert(s@.take(k + 1).drop_last() =~= s@.take(k as int));
        }
        let ch = v[k];
        let mut t = String::new();
        push_char(&mut t, ch);
        proof {
            assert(t@ =~= seq![ch]);
        }
        let ghost before = spans_view(out@);
        let span = if ch != ' ' {
            let c = cell_color_of(pal, ring, i, col, total, w, vert);
            StyledSpan::new(t).fg(c)
        } else {
            StyledSpan::new(t)
        };
        out.push(span);
        proof {
            assert(spans_view(out@) =~= before.push(if ch != ' ' {
                with_fg(sp(seq![ch]), cell_color(pal@, ring@, i as nat, col as nat, total as nat, w as nat, vert))
            } else {
                sp(seq![' '])
            }));
        }
        let cw = char_cols_of(ch);
        col = col.saturating_add(cw);
        k += 1;
    }
    proof {
        assert(s@.take(s@.len() as int) =~= s@);
    }
    out
}

impl Component for AsciiComponent {
    open spec fn name_view(&self) -> Seq<char> {
        "ascii"@
    }

    open spec fn styled(&self, info: SysInfo, cfg: Config, tw: usize, palette: Seq<Color>) -> Seq<Seq<SegView>> {
        ascii_styled(self.art@, self.ring@, cfg, tw, palette)
    }

    open spec fn colored(&self, info: SysInfo, cfg: Config, tw: usize, palette: Seq<Color>) -> (Seq<Seq<SegView>>, nat) {
        ascii_colored(self.art@, self.ring@, cfg, palette)
    }

    open spec fn side(&self, info: SysInfo, cfg: Config, tw: usize, palette: Seq<Color>, left: bool, avail: usize) -> Seq<Seq<SegView>> {
        Seq::empty()
    }

    fn name(&self) -> (r: &str) {
        "ascii"
    }

    fn render_styled(&self, ctx: &RenderCtx) -> (r: Vec<Vec<StyledSpan>>) {
        let raw = lines(self.art.as_str());
        let ls = trim_line_ends(&raw);
        let w = max_line_width(&ls);
        let tw = ctx.term_width;
        let center = (if tw > w { tw - w } else { 0 }) / 2;
        proof {
            reveal_strlit("vertical");
        }
        let vert = str_eq(ctx.cfg.logo.color_dir.as_str(), "vertical");
        let ghost lv = views(ls@);
        let total = ls.len();
        let mut out: Vec<Vec<StyledSpan>> = Vec::new();
        let mut i: usize = 0;
        while i < total
            invariant
                i <= total,
                total == ls@.len(),
                lv == views(ls@),
                lv == art_lines(self.art@),
                w == max_width_seq(lv),
                center as int == sat_sub(tw as int, w as int) / 2,
                tw == ctx.term_width,
                vert == colors_vertical(*ctx.cfg),
                rows_view(out@) == Seq::new(i as nat, |k: int| pad_segs(
                    (if center > 0 { seq![sp(spaces_seq(center as nat))] } else { Seq::empty() }) + art_row_spans(
                        lv[k],
                        ctx.palette@,
                        self.ring@,
                        k as nat,
                        total as nat,
                        w as nat,
                        vert,
                    ).0,
                    (center + w) as nat,
                )),
            decreases total - i,
        {
            let mut line: Vec<StyledSpan> = Vec::new();
            if center > 0 {
                line.push(StyledSpan::new(spaces(center)));
            }
            proof {
                assert(spans_view(line@) =~= (if center > 0 { seq![sp(spaces_seq(center as nat))] } else { Seq::<SegView>::empty() }));
                assert(lv[i as int] == ls@[i as int]@);
            }
            let cells = art_row_exec(ls[i].as_str(), ctx.palette, &self.ring, i, total, w, vert);
            super::extend_line(&mut line, cells);
            pad_line(&mut line, center + w);
            push_row(&mut out, line);
            proof {
                assert(rows_view(out@) =~= Seq::new((i + 1) as nat, |k: int| pad_segs(
                    (if center > 0 { seq![sp(spaces_seq(center as nat))] } else { Seq::empty() }) + art_row_spans(
                        lv[k],
                        ctx.palette@,
                        self.ring@,
                        k as nat,
                        total as nat,
                        w as nat,
                        vert,
                    ).0,
                    (center + w) as nat,
                )));
            }
            i += 1;
        }
        out
    }

    fn render_colored_lines(&self, ctx: &RenderCtx) -> (r: (Vec<Vec<StyledSpan>>, usize)) {
        let raw = lines(self.art.as_str());
        let ls = trim_line_ends(&raw);
        let w = max_line_width(&ls);
        proof {
            reveal_strlit("vertical");
        }
        let vert = str_eq(ctx.cfg.logo.color_dir.as_str(), "vertical");
        let ghost lv = views(ls@);
        let total = ls.len();
        let mut out: Vec<Vec<StyledSpan>> = Vec::new();
        let mut i: usize = 0;
        while i < total
            invariant
                i <= total,
                total == ls@.len(),
                lv == views(ls@),
                lv == art_lines(self.art@),
                w == max_width_seq(lv),
                vert == colors_vertical(*ctx.cfg),
                rows_view(out@) == Seq::new(i as nat, |k: int| pad_segs(
                    art_row_spans(lv[k], ctx.palette@, self.ring@, k as nat, total as nat, w as nat, vert).0,
                    w as nat,
                )),
            decreases total - i,
        {
            proof {
                assert(lv[i as int] == ls@[i as int]@);
            }
            let mut line = art_row_exec(ls[i].as_str(), ctx.palette, &self.ring, i, total, w, vert);
            pad_line(&mut line, w);
            push_row(&mut out, line);
            proof {
                assert(rows_view(out@) =~= Seq::new((i + 1) as nat, |k: int| pad_segs(
                    art_row_spans(lv[k], ctx.palette@, self.ring@, k as nat, total as nat, w as nat, vert).0,
                    w as nat,
                )));
            }
            i += 1;
        }
        (out, w)
    }

    fn render_side_styled(&self, ctx: &RenderCtx, left: bool, avail: usize) -> (r: Vec<Vec<StyledSpan>>) {
        let v: Vec<Vec<StyledSpan>> = Vec::new();
        proof {
            assert(rows_view(v@) =~= Seq::<Seq<SegView>>::empty());
        }
        v
    }

    fn min_width(&self) -> (r: usize)
        ensures
            r == max_width_seq(art_lines(self.art@)),
    {
        let raw = lines(self.art.as_str());
        let ls = trim_line_ends(&raw);
        max_line_width(&ls)
    }

    fn min_height(&self) -> (r: usize)
        ensures
            r == lines_seq(self.art@).len(),
    {
        let raw = lines(self.art.as_str());
        raw.len()
    }
}

} // verus!

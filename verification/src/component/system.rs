//! The system component: the configured fields as powerline panels.
use vstd::prelude::*;
use super::{ctx_ok, pad_line, push_row, rows_view, sp, spans_view, Component, RenderCtx, StyledSpan};
use crate::config::{Config, FieldDef};
use crate::info::SysInfo;
use crate::render::{enabled_fields, enabled_of, SegView, StyledSegment};
use crate::text::{spaces, spaces_seq, to_string};
use crate::theme::{byte_len, utf8_width, Color};
use crate::widget::{field_output, render_field, sat_sub, RenderCtx as WidgetCtx};

verus! {

/// The fallback panel colour.
pub open spec fn gray() -> Color {
    Color { r: 200, g: 200, b: 200 }
}

/// Palette entry `k`, or gray.
pub open spec fn pal_or_gray(pal: Seq<Color>, k: nat) -> Color {
    if k < pal.len() { pal[k as int] } else { gray() }
}

/// Widget segments as spans: each keeps its text and colour, gray where
/// it had none.
pub open spec fn sys_spans(segs: Seq<SegView>) -> Seq<SegView> {
    Seq::new(segs.len(), |k: int| (segs[k].0, Some(match segs[k].1 {
        Some(c) => c,
        None => gray(),
    }), None, false))
}

/// Bytes of the texts of a line.
pub open spec fn spans_bytes(line: Seq<SegView>) -> nat
    decreases line.len(),
{
    if line.len() == 0 {
        0
    } else {
        spans_bytes(line.drop_last()) + byte_len(line.last().0)
    }
}

/// Right-hand colour of row `i`: palette entry `i + 3`, cycling.
pub open spec fn right_color(pal: Seq<Color>, i: nat) -> Color {
    if pal.len() > 0 { pal[((i + 3) % pal.len()) as int] } else { gray() }
}

/// Row `i`: the left field's panel (if enabled), blanks up to half the
/// width (counted in bytes), then the right field's panel (if enabled).
pub open spec fn sys_line(cfg: Config, info: SysInfo, tw: usize, pal: Seq<Color>, i: int) -> Seq<SegView> {
    let half = (tw / 2) as nat;
    let mw = sat_sub(half as int, 4) as usize;
    let left = cfg.display.left@;
    let right = cfg.display.right@;
    let l = if i < left.len() && left[i].enabled {
        sys_spans(field_output(left[i], info, cfg.panel, mw, pal_or_gray(pal, i as nat)).1)
    } else {
        Seq::empty()
    };
    let b = spans_bytes(l);
    let l2 = if b < half { l.push(sp(spaces_seq((half - b) as nat))) } else { l };
    let r = if i < right.len() && right[i].enabled {
        sys_spans(field_output(right[i], info, cfg.panel, mw, right_color(pal, i as nat)).1)
    } else {
        Seq::empty()
    };
    l2 + r
}

/// What the system component draws.
pub open spec fn sys_styled(cfg: Config, info: SysInfo, tw: usize, pal: Seq<Color>) -> Seq<Seq<SegView>> {
    let n = if cfg.display.left@.len() < cfg.display.right@.len() { cfg.display.right@.len() } else { cfg.display.left@.len() };
    Seq::new(n, |i: int| sys_line(cfg, info, tw, pal, i))
}

/// Panel rows of one side: one per enabled field, each at most `avail`
/// columns, coloured by palette entry `k` (left) or `k + 3` (right).
pub open spec fn sys_side(cfg: Config, info: SysInfo, pal: Seq<Color>, left: bool, avail: usize) -> Seq<Seq<SegView>> {
    let defs = if left { enabled_fields(cfg.display.left@) } else { enabled_fields(cfg.display.right@) };
    Seq::new(defs.len(), |k: int| sys_spans(field_output(defs[k], info, cfg.panel, avail, if left {
        pal_or_gray(pal, k as nat)
    } else {
        right_color(pal, k as nat)
    }).1))
}

/// The configured fields as powerline panels.
pub struct SystemComponent;

/// Widget segments as spans.
fn spans_of_segments(segs: &Vec<StyledSegment>) -> (r: Vec<StyledSpan>)
    ensures
        spans_view(r@) == sys_spans(crate::render::segs_view(segs@)),
{
    let mut out: Vec<StyledSpan> = Vec::new();
    let mut k: usize = 0;
    while k < segs.len()
        invariant
            k <= segs@.len(),
            spans_view(out@) == sys_spans(crate::render::segs_view(segs@)).take(k as int),
        decreases segs@.len() - k,
    {
        let s = &segs[k];
        let c = match s.fg {
            Some(c) => c,
            None => Color::new(200, 200, 200),
        };
        let ghost before = spans_view(out@);
        let sp_new = StyledSpan::new(to_string(s.text.as_str())).fg(c);
        proof {
            assert(sp_new@ == sys_spans(crate::render::segs_view(segs@))[k as int]);
        }
        out.push(sp_new);
        proof {
            assert(spans_view(out@) =~= before.push(sp_new@));
            assert(spans_view(out@) =~= sys_spans(crate::render::segs_view(segs@)).take(k + 1));
        }
        k += 1;
    }
    proof {
        assert(sys_spans(crate::render::segs_view(segs@)).take(segs@.len() as int) =~= sys_spans(crate::render::segs_view(segs@)));
    }
    out
}

/// Bytes of a line, capped at `cap`.
fn line_bytes_capped(line: &Vec<StyledSpan>, cap: usize) -> (r: usize)
    ensures
        r as nat == if spans_bytes(spans_view(line@)) < cap { spans_bytes(spans_view(line@)) } else { cap as nat },
{
    let mut acc: usize = 0;
    let mut j: usize = 0;
    while j < line.len()
        invariant
            j <= line@.len(),
            acc as nat == if spans_bytes(spans_view(line@).take(j as int)) < cap {
                spans_bytes(spans_view(line@).take(j as int))
            } else {
                cap as nat
            },
        decreases line@.len() - j,
    {
        proof {
            assert(spans_view(line@).take(j + 1).drop_last() =~= spans_view(line@).take(j as int));
        }
        let b = text_bytes_capped(line[j].text.as_str(), cap);
        if acc < cap {
            acc = if b < cap - acc { acc + b } else { cap };
        }
        j += 1;
    }
    proof {
        assert(spans_view(line@).take(line@.len() as int) =~= spans_view(line@));
    }
    acc
}

/// Bytes of a string, capped at `cap`.
pub fn text_bytes_capped(s: &str, cap: usize) -> (r: usize)
    ensures
        r as nat == if byte_len(s@) < cap { byte_len(s@) } else { cap as nat },
{
    let v = crate::text::chars_of(s);
    let mut acc: usize = 0;
    let mut i: usize = 0;
    while i < v.len()
        invariant
            v@ == s@,
            i <= v@.len(),
            acc as nat == if byte_len(s@.take(i as int)) < cap { byte_len(s@.take(i as int)) } else { cap as nat },
        decreases v@.len() - i,
    {
        proof {
            assert(s@.take(i + 1).drop_last() =~= s@.take(i as int));
        }
        let b = utf8_width(v[i]);
        if acc < cap {
            acc = if b < cap - acc { acc + b } else { cap };
        }
        i += 1;
    }
    proof {
        assert(s@.take(s@.len() as int) =~= s@);
    }
    acc
}

/// Palette entry `k`, or gray.
fn pal_or_gray_of(pal: &[Color], k: usize) -> (c: Color)
    ensures
        c == pal_or_gray(pal@, k as nat),
{
    if k < pal.len() { pal[k] } else { Color::new(200, 200, 200) }
}

/// Palette entry `k + 3` (cycling), or gray.
fn right_color_of(pal: &[Color], k: usize) -> (c: Color)
    ensures
        c == right_color(pal@, k as nat),
{
    if pal.len() > 0 {
        let m = pal.len();
        let j = (((k % m) as u128 + (3 % m) as u128) % (m as u128)) as usize;
        proof {
            vstd::arithmetic::div_mod::lemma_add_mod_noop(k as int, 3, m as int);
        }
        pal[j]
    } else {
        Color::new(200, 200, 200)
    }
}

/// Panel spans of one field.
fn field_spans(def: &FieldDef, info: &SysInfo, cfg: &Config, avail: usize, c: Color) -> (r: Vec<StyledSpan>)
    requires
        crate::widget::panel_colors_ok(cfg.panel),
    ensures
        spans_view(r@) == sys_spans(field_output(*def, *info, cfg.panel, avail, c).1),
{
    let wctx = WidgetCtx { info, panel_cfg: &cfg.panel, max_width: avail, fg_color: c };
    let o = render_field(def, &wctx);
    spans_of_segments(&o.styled)
}

impl Component for SystemComponent {
    open spec fn name_view(&self) -> Seq<char> {
        "system"@
    }

    open spec fn styled(&self, info: SysInfo, cfg: Config, tw: usize, palette: Seq<Color>) -> Seq<Seq<SegView>> {
        sys_styled(cfg, info, tw, palette)
    }

    open spec fn colored(&self, info: SysInfo, cfg: Config, tw: usize, palette: Seq<Color>) -> (Seq<Seq<SegView>>, nat) {
        (Seq::empty(), 0)
    }

    open spec fn side(&self, info: SysInfo, cfg: Config, tw: usize, palette: Seq<Color>, left: bool, avail: usize) -> Seq<Seq<SegView>> {
        sys_side(cfg, info, palette, left, avail)
    }

    fn name(&self) -> (r: &str) {
        "system"
    }

    fn render_styled(&self, ctx: &RenderCtx) -> (r: Vec<Vec<StyledSpan>>) {
        let cfg = ctx.cfg;
        let left = &cfg.display.left;
        let right = &cfg.display.right;
        let n = if left.len() < right.len() { right.len() } else { left.len() };
        let half = ctx.term_width / 2;
        let mw = if half > 4 { half - 4 } else { 0 };
        let mut lines: Vec<Vec<StyledSpan>> = Vec::new();
        let mut i: usize = 0;
        while i < n
            invariant
                i <= n,
                n == (if cfg.display.left@.len() < cfg.display.right@.len() { cfg.display.right@.len() } else { cfg.display.left@.len() }),
                left == &cfg.display.left,
                right == &cfg.display.right,
                half == ctx.term_width / 2,
                mw as int == sat_sub(half as int, 4),
                ctx_ok(*cfg, ctx.term_width, ctx.palette@),
                rows_view(lines@) == Seq::new(i as nat, |k: int| sys_line(*cfg, *ctx.info, ctx.term_width, ctx.palette@, k)),
            decreases n - i,
        {
            let mut line: Vec<StyledSpan> = if i < left.len() && left[i].enabled {
                let c = pal_or_gray_of(ctx.palette, i);
                field_spans(&left[i], ctx.info, cfg, mw, c)
            } else {
                let v: Vec<StyledSpan> = Vec::new();
                proof {
                    assert(spans_view(v@) =~= Seq::<SegView>::empty());
                }
                v
            };
            let b = line_bytes_capped(&line, half);
            if b < half {
                let ghost before = spans_view(line@);
                line.push(StyledSpan::new(spaces(half - b)));
                proof {
                    assert(spans_view(line@) =~= before.push(sp(spaces_seq((half - b) as nat))));
                }
            }
            if i < right.len() && right[i].enabled {
                proof {
                    assert(ctx.palette@.len() > 0) by {
                        if ctx.palette@.len() == 0 {
                            assert(!cfg.display.right@[i as int].enabled);
                        }
                    }
                }
                let c = right_color_of(ctx.palette, i);
                let r = field_spans(&right[i], ctx.info, cfg, mw, c);
                super::extend_line(&mut line, r);
            } else {
                proof {
                    assert(spans_view(line@) =~= spans_view(line@) + Seq::<SegView>::empty());
                }
            }
            push_row(&mut lines, line);
            proof {
                assert(rows_view(lines@) =~= Seq::new((i + 1) as nat, |k: int| sys_line(*cfg, *ctx.info, ctx.term_width, ctx.palette@, k)));
            }
            i += 1;
        }
        lines
    }

    fn render_colored_lines(&self, ctx: &RenderCtx) -> (r: (Vec<Vec<StyledSpan>>, usize)) {
        let v: Vec<Vec<StyledSpan>> = Vec::new();
        proof {
            assert(rows_view(v@) =~= Seq::<Seq<SegView>>::empty());
        }
        (v, 0)
    }

    fn render_side_styled(&self, ctx: &RenderCtx, left: bool, avail: usize) -> (r: Vec<Vec<StyledSpan>>) {
        let cfg = ctx.cfg;
        let defs = if left { enabled_of(&cfg.display.left) } else { enabled_of(&cfg.display.right) };
        let ghost dv = if left { enabled_fields(cfg.display.left@) } else { enabled_fields(cfg.display.right@) };
        let mut lines: Vec<Vec<StyledSpan>> = Vec::new();
        let mut k: usize = 0;
        while k < defs.len()
            invariant
                k <= defs@.len(),
                defs@.map_values(|f: &FieldDef| *f) == dv,
                dv == (if left { enabled_fields(cfg.display.left@) } else { enabled_fields(cfg.display.right@) }),
                ctx_ok(*cfg, ctx.term_width, ctx.palette@),
                rows_view(lines@) == sys_side(*cfg, *ctx.info, ctx.palette@, left, avail).take(k as int),
            decreases defs@.len() - k,
        {
            let c = if left { pal_or_gray_of(ctx.palette, k) } else { right_color_of(ctx.palette, k) };
            let line = field_spans(defs[k], ctx.info, cfg, avail, c);
            push_row(&mut lines, line);
            proof {
                assert(dv[k as int] == *defs@[k as int]);
                assert(rows_view(lines@) =~= sys_side(*cfg, *ctx.info, ctx.palette@, left, avail).take(k + 1));
            }
            k += 1;
        }
        proof {
            assert(defs@.map_values(|f: &FieldDef| *f).len() == defs@.len());
            assert(sys_side(*cfg, *ctx.info, ctx.palette@, left, avail).take(defs@.len() as int) =~= sys_side(
                *cfg,
                *ctx.info,
                ctx.palette@,
                left,
                avail,
            ));
        }
        lines
    }

    fn min_width(&self) -> (r: usize)
        ensures
            r == 30,
    {
        30
    }

    fn min_height(&self) -> (r: usize)
        ensures
            r == 5,
    {
        5
    }
}

} // verus!

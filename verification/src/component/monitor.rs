//! The monitor component: usage bars for processor, memory, disk, battery.
use vstd::prelude::*;
use super::{push_row, rows_view, sp, spans_view, with_bold, with_fg, Component, RenderCtx, StyledSpan};
use crate::config::Config;
use crate::info::SysInfo;
use crate::render::SegView;
use crate::text::{push_char, push_str, repeat_char, repeat_char_seq, to_string};
use crate::theme::Color;
use crate::widget::sat_sub;

verus! {

/// One measured quantity: its label and colour, the number of filled cells
/// for each bar width from 6 to 20 (`fills[w - 6]`), the percentage text,
/// the colour of its level, and an optional note line shown under the bar.
pub struct MonitorReading {
    pub label: String,
    pub color: Color,
    pub fills: Vec<usize>,
    pub pct_text: String,
    pub level: Color,
    pub note: Option<String>,
}

/// Usage bars. The readings are measured by the caller.
pub struct MonitorComponent {
    pub readings: Vec<MonitorReading>,
}

/// Bar width on a terminal `tw` columns wide: `tw - 12`, kept within 6..=20.
pub open spec fn bar_width(tw: usize) -> nat {
    let a = sat_sub(tw as int, 12);
    let b = if a < 20 { a } else { 20 };
    (if b < 6 { 6 } else { b }) as nat
}

/// Filled cells of a reading's bar `w` cells wide.
pub open spec fn fill_at(r: MonitorReading, w: nat) -> nat {
    if w >= 6 && w - 6 < r.fills@.len() { r.fills@[w - 6] as nat } else { 0 }
}

/// The bar: filled cells, then light cells up to `w`.
pub open spec fn bar_text(fill: nat, w: nat) -> Seq<char> {
    repeat_char_seq('\u{2588}', fill) + repeat_char_seq('\u{2591}', sat_sub(w as int, fill as int) as nat)
}

/// The lines of one reading: its bar line, then its note line if any.
pub open spec fn reading_lines(r: MonitorReading, w: nat) -> Seq<Seq<SegView>> {
    let bar = seq![
        with_bold(with_fg(sp(seq![' '] + r.label@ + seq![' ']), r.color)),
        sp(seq![' ']),
        with_fg(sp(bar_text(fill_at(r, w), w)), r.level),
        with_fg(sp(r.pct_text@), r.level),
    ];
    match r.note {
        Some(t) => seq![
            bar,
            seq![with_bold(with_fg(sp(seq![' ', ' ']), Color { r: 140, g: 140, b: 160 })), sp(seq![' ']), with_fg(
                sp(t@),
                Color { r: 200, g: 200, b: 220 },
            )],
        ],
        None => seq![bar],
    }
}

/// Lines of readings `0..k`.
pub open spec fn readings_lines(rs: Seq<MonitorReading>, w: nat, k: nat) -> Seq<Seq<SegView>>
    decreases k,
{
    if k == 0 {
        Seq::empty()
    } else {
        readings_lines(rs, w, (k - 1) as nat) + reading_lines(rs[k - 1], w)
    }
}

/// What the monitor draws: a bold title in the accent colour, then each
/// reading.
pub open spec fn monitor_styled(rs: Seq<MonitorReading>, tw: usize, pal: Seq<Color>) -> Seq<Seq<SegView>> {
    let ac = if pal.len() > 0 { pal[0] } else { Color { r: 255, g: 102, b: 146 } };
    seq![seq![with_bold(with_fg(sp(" MONITOR "@), ac))]] + readings_lines(rs, bar_width(tw), rs.len())
}

/// The lines of one reading.
fn reading_lines_exec(r: &MonitorReading, w: usize) -> (out: Vec<Vec<StyledSpan>>)
    requires
        6 <= w <= 20,
    ensures
        rows_view(out@) == reading_lines(*r, w as nat),
{
    let fill: usize = if w - 6 < r.fills.len() { r.fills[w - 6] } else { 0 };
    let mut label = String::new();
    push_char(&mut label, ' ');
    push_str(&mut label, r.label.as_str());
    push_char(&mut label, ' ');
    proof {
        assert(label@ =~= seq![' '] + r.label@ + seq![' ']);
    }
    let mut bar = repeat_char('\u{2588}', fill);
    let light = repeat_char('\u{2591}', if w > fill { w - fill } else { 0 });
    push_str(&mut bar, &light);
    proof {
        assert(fill as nat == fill_at(*r, w as nat));
        assert(bar@ =~= bar_text(fill as nat, w as nat));
    }
    let mut l: Vec<StyledSpan> = Vec::new();
    l.push(StyledSpan::new(label).fg(r.color).bold());
    l.push(StyledSpan::new(to_string(" ")));
    l.push(StyledSpan::new(bar).fg(r.level));
    l.push(StyledSpan::new(to_string(r.pct_text.as_str())).fg(r.level));
    proof {
        reveal_strlit(" ");
        assert(" "@ =~= seq![' ']);
        assert(spans_view(l@) =~= reading_lines(*r, w as nat)[0]);
    }
    let mut out: Vec<Vec<StyledSpan>> = Vec::new();
    push_row(&mut out, l);
    match &r.note {
        Some(t) => {
            let mut n: Vec<StyledSpan> = Vec::new();
            n.push(StyledSpan::new(to_string("  ")).fg(Color::new(140, 140, 160)).bold());
            n.push(StyledSpan::new(to_string(" ")));
            n.push(StyledSpan::new(to_string(t.as_str())).fg(Color::new(200, 200, 220)));
            proof {
                reveal_strlit("  ");
                reveal_strlit(" ");
                assert(" "@ =~= seq![' ']);
                assert("  "@ =~= seq![' ', ' ']);
                assert(spans_view(n@) =~= reading_lines(*r, w as nat)[1]);
            }
            push_row(&mut out, n);
        },
        None => {},
    }
    proof {
        assert(rows_view(out@) =~= reading_lines(*r, w as nat));
    }
    out
}

impl Component for MonitorComponent {
    open spec fn name_view(&self) -> Seq<char> {
        "monitor"@
    }

    open spec fn styled(&self, info: SysInfo, cfg: Config, tw: usize, palette: Seq<Color>) -> Seq<Seq<SegView>> {
        monitor_styled(self.readings@, tw, palette)
    }

    open spec fn colored(&self, info: SysInfo, cfg: Config, tw: usize, palette: Seq<Color>) -> (Seq<Seq<SegView>>, nat) {
        (Seq::empty(), 0)
    }

    open spec fn side(&self, info: SysInfo, cfg: Config, tw: usize, palette: Seq<Color>, left: bool, avail: usize) -> Seq<Seq<SegView>> {
        Seq::empty()
    }

    fn name(&self) -> (r: &str) {
        "monitor"
    }

    fn render_styled(&self, ctx: &RenderCtx) -> (r: Vec<Vec<StyledSpan>>) {
        let tw = ctx.term_width;
        let a = if tw > 12 { tw - 12 } else { 0 };
        let b = if a < 20 { a } else { 20 };
        let w = if b < 6 { 6 } else { b };
        let ac = if ctx.palette.len() > 0 { ctx.palette[0] } else { Color::new(255, 102, 146) };
        let mut out: Vec<Vec<StyledSpan>> = Vec::new();
        let mut head: Vec<StyledSpan> = Vec::new();
        head.push(StyledSpan::new(to_string(" MONITOR ")).fg(ac).bold());
        proof {
            assert(spans_view(head@) =~= seq![with_bold(with_fg(sp(" MONITOR "@), ac))]);
        }
        push_row(&mut out, head);
        let ghost h = rows_view(out@);
        proof {
            assert(h =~= seq![seq![with_bold(with_fg(sp(" MONITOR "@), ac))]]);
        }
        let mut k: usize = 0;
        while k < self.readings.len()
            invariant
                k <= self.readings@.len(),
                w as nat == bar_width(tw),
                6 <= w <= 20,
                rows_view(out@) == h + readings_lines(self.readings@, w as nat, k as nat),
            decreases self.readings@.len() - k,
        {
            let lines = reading_lines_exec(&self.readings[k], w);
            let ghost before = rows_view(out@);
            let mut j: usize = 0;
            while j < lines.len()
                invariant
                    j <= lines@.len(),
                    rows_view(out@) == before + rows_view(lines@).take(j as int),
                decreases lines@.len() - j,
            {
                let line = super::row_or_empty(&lines, j);
                push_row(&mut out, line);
                proof {
                    assert(rows_view(out@) =~= before + rows_view(lines@).take(j + 1));
                }
                j += 1;
            }
            proof {
                assert(rows_view(lines@).take(lines@.len() as int) =~= rows_view(lines@));
                assert(rows_view(out@) =~= h + readings_lines(self.readings@, w as nat, (k + 1) as nat));
            }
            k += 1;
        }
        proof {
            assert(rows_view(out@) =~= monitor_styled(self.readings@, tw, ctx.palette@));
        }
        out
    }

    fn render_colored_lines(&self, ctx: &RenderCtx) -> (r: (Vec<Vec<StyledSpan>>, usize)) {
        let v: Vec<Vec<StyledSpan>> = Vec::new();
        proof {
            assert(rows_view(v@) =~= Seq::<Seq<SegView>>::empty());
        }
        (v, 0)
    }

    fn render_side_styled(&self, ctx: &RenderCtx, left: bool, avail: usize) -> (r: Vec<Vec<StyledSpan>>) {
        let v: Vec<Vec<StyledSpan>> = Vec::new();
        proof {
            assert(rows_view(v@) =~= Seq::<Seq<SegView>>::empty());
        }
        v
    }

    fn min_width(&self) -> (r: usize)
        ensures
            r == 25,
    {
        25
    }

    fn min_height(&self) -> (r: usize)
        ensures
            r == 6,
    {
        6
    }
}

} // verus!

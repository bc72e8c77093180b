//! The companion component: a friendly status card for the device.
use vstd::prelude::*;
use super::system::{spans_bytes, text_bytes_capped};
use super::{push_row, rows_view, sp, spans_view, with_bold, with_fg, Component, RenderCtx, StyledSpan};
use crate::config::Config;
use crate::info::SysInfo;
use crate::render::SegView;
use crate::strs::{contains, contains_seq, trim_end_char_seq, trim_end_matches};
use crate::text::{push_str, spaces, spaces_seq, str_eq, to_string};
use crate::theme::Color;

verus! {

/// Grey of the labels.
pub open spec fn muted() -> Color {
    Color { r: 140, g: 140, b: 160 }
}

/// Light grey of plain values.
pub open spec fn value_gray() -> Color {
    Color { r: 200, g: 200, b: 220 }
}

/// Accent colour: the first palette entry, or pink.
pub open spec fn accent(pal: Seq<Color>) -> Color {
    if pal.len() > 0 { pal[0] } else { Color { r: 255, g: 102, b: 146 } }
}

/// `a` when it is not empty, otherwise `b`.
pub open spec fn or_else(a: Seq<char>, b: Seq<char>) -> Seq<char> {
    if a.len() > 0 { a } else { b }
}

/// Colour of a battery-health word.
pub open spec fn health_color(h: Seq<char>) -> Color {
    if h == "Good"@ || h == "Excellent"@ {
        Color { r: 80, g: 200, b: 120 }
    } else if h == "Fair"@ {
        Color { r: 255, g: 200, b: 80 }
    } else {
        Color { r: 200, g: 100, b: 100 }
    }
}

/// Colour of the root status.
pub open spec fn root_color(r: Seq<char>) -> Color {
    if contains_seq(r, "active"@) || contains_seq(r, "Unlocked"@) {
        Color { r: 255, g: 200, b: 80 }
    } else {
        Color { r: 200, g: 100, b: 100 }
    }
}

/// A label in muted grey followed by a value in colour `c`.
pub open spec fn labelled(label: Seq<char>, value: Seq<char>, c: Color) -> Seq<SegView> {
    seq![with_fg(sp(label), muted()), with_fg(sp(value), c)]
}

/// The card's lines before padding: greeting, device, a blank line,
/// health, then battery, uptime and root status where known.
pub open spec fn companion_raw(info: SysInfo, pal: Seq<Color>) -> Seq<Seq<SegView>> {
    let user = or_else(info.user@, "explorer"@);
    let device = or_else(info.device@, info.host@);
    let health = or_else(info.battery_health@, "Unknown"@);
    let uptime = or_else(info.uptime@, info.uptime_days@);
    let temp = if info.battery_temp@.len() > 0 { " | "@ + info.battery_temp@ } else { Seq::empty() };
    let battery = if info.battery_level@.len() > 0 {
        seq![labelled("  Battery: "@, trim_end_char_seq(info.battery_level@, '%') + "%"@ + temp, Color { r: 100, g: 200, b: 255 })]
    } else {
        Seq::empty()
    };
    let up = if uptime.len() > 0 && uptime != "\u{2014}"@ {
        seq![labelled("  Uptime: "@, uptime, value_gray())]
    } else {
        Seq::empty()
    };
    let root = if info.root_status@.len() > 0 {
        seq![labelled("  Root: "@, info.root_status@, root_color(info.root_status@))]
    } else {
        Seq::empty()
    };
    seq![
        seq![with_fg(sp("  Hello "@), muted()), with_bold(with_fg(sp(user), accent(pal)))],
        labelled("  "@, device, value_gray()),
        seq![sp(Seq::empty())],
        labelled("  System Health: "@, health, health_color(health)),
    ] + battery + up + root
}

/// A line padded with blanks to `w` bytes.
pub open spec fn pad_bytes(line: Seq<SegView>, w: nat) -> Seq<SegView> {
    let b = spans_bytes(line);
    if b < w { line.push(sp(spaces_seq((w - b) as nat))) } else { line }
}

/// What the companion draws on a terminal `tw` columns wide.
pub open spec fn companion_styled(info: SysInfo, tw: usize, pal: Seq<Color>) -> Seq<Seq<SegView>> {
    let raw = companion_raw(info, pal);
    Seq::new(raw.len(), |k: int| pad_bytes(raw[k], tw as nat))
}

/// A friendly status card.
pub struct CompanionComponent;

/// A label in muted grey and a value in `c`.
fn labelled_line(label: &str, value: String, c: Color) -> (r: Vec<StyledSpan>)
    ensures
        spans_view(r@) == labelled(label@, value@, c),
{
    let mut v: Vec<StyledSpan> = Vec::new();
    v.push(StyledSpan::new(to_string(label)).fg(Color::new(140, 140, 160)));
    v.push(StyledSpan::new(value).fg(c));
    proof {
        assert(spans_view(v@) =~= labelled(label@, value@, c));
    }
    v
}

/// `a` when it is not empty, otherwise `b`.
fn or_else_of(a: &str, b: &str) -> (r: String)
    ensures
        r@ == or_else(a@, b@),
{
    if a.unicode_len() > 0 { to_string(a) } else { to_string(b) }
}

/// Pads a line with blanks to `w` bytes.
fn pad_bytes_exec(line: &mut Vec<StyledSpan>, w: usize)
    ensures
        spans_view(final(line)@) == pad_bytes(spans_view(old(line)@), w as nat),
{
    let mut acc: usize = 0;
    let mut j: usize = 0;
    while j < line.len()
        invariant
            j <= line@.len(),
            acc as nat == if spans_bytes(spans_view(line@).take(j as int)) < w {
                spans_bytes(spans_view(line@).take(j as int))
            } else {
                w as nat
            },
        decreases line@.len() - j,
    {
        proof {
            assert(spans_view(line@).take(j + 1).drop_last() =~= spans_view(line@).take(j as int));
        }
        let b = text_bytes_capped(line[j].text.as_str(), w);
        if acc < w {
            acc = if b < w - acc { acc + b } else { w };
        }
        j += 1;
    }
    proof {
        assert(spans_view(line@).take(line@.len() as int) =~= spans_view(line@));
    }
    if acc < w {
        let ghost before = spans_view(line@);
        line.push(StyledSpan::new(spaces(w - acc)));
        proof {
            assert(spans_view(line@) =~= before.push(sp(spaces_seq((w - acc) as nat))));
        }
    }
}

/// The unpadded lines of the card.
fn companion_lines(info: &SysInfo, pal: &[Color]) -> (r: Vec<Vec<StyledSpan>>)
    ensures
        rows_view(r@) == companion_raw(*info, pal@),
{
    proof {
        reveal_strlit("Good");
        reveal_strlit("Excellent");
        reveal_strlit("Fair");
        reveal_strlit("\u{2014}");
    }
    let ac = if pal.len() > 0 { pal[0] } else { Color::new(255, 102, 146) };
    let user = or_else_of(info.user.as_str(), "explorer");
    let device = or_else_of(info.device.as_str(), info.host.as_str());
    let health = or_else_of(info.battery_health.as_str(), "Unknown");
    let uptime = or_else_of(info.uptime.as_str(), info.uptime_days.as_str());
    let mut lines: Vec<Vec<StyledSpan>> = Vec::new();

    let ghost uv = user@;
    let mut l1: Vec<StyledSpan> = Vec::new();
    l1.push(StyledSpan::new(to_string("  Hello ")).fg(Color::new(140, 140, 160)));
    l1.push(StyledSpan::new(user).fg(ac).bold());
    proof {
        assert(spans_view(l1@) =~= seq![with_fg(sp("  Hello "@), muted()), with_bold(with_fg(sp(uv), accent(pal@)))]);
    }
    push_row(&mut lines, l1);
    push_row(&mut lines, labelled_line("  ", device, Color::new(200, 200, 220)));
    let mut l3: Vec<StyledSpan> = Vec::new();
    l3.push(StyledSpan::new(String::new()));
    proof {
        assert(spans_view(l3@) =~= seq![sp(Seq::<char>::empty())]);
    }
    push_row(&mut lines, l3);
    let hc = if str_eq(health.as_str(), "Good") || str_eq(health.as_str(), "Excellent") {
        Color::new(80, 200, 120)
    } else if str_eq(health.as_str(), "Fair") {
        Color::new(255, 200, 80)
    } else {
        Color::new(200, 100, 100)
    };
    proof {
        assert(hc == health_color(health@));
    }
    push_row(&mut lines, labelled_line("  System Health: ", health, hc));
    let ghost head = rows_view(lines@);
    proof {
        assert(head =~= companion_raw(*info, pal@).take(4));
    }

    if info.battery_level.unicode_len() > 0 {
        let mut v = trim_end_matches(info.battery_level.as_str(), '%');
        push_str(&mut v, "%");
        let ghost v0 = v@;
        if info.battery_temp.unicode_len() > 0 {
            push_str(&mut v, " | ");
            push_str(&mut v, info.battery_temp.as_str());
            proof {
                assert(v@ =~= v0 + (" | "@ + info.battery_temp@));
            }
        } else {
            proof {
                assert(v@ =~= v0 + Seq::<char>::empty());
            }
        }
        push_row(&mut lines, labelled_line("  Battery: ", v, Color::new(100, 200, 255)));
    }
    let ghost after_bat = rows_view(lines@);
    if uptime.unicode_len() > 0 && !str_eq(uptime.as_str(), "\u{2014}") {
        push_row(&mut lines, labelled_line("  Uptime: ", uptime, Color::new(200, 200, 220)));
    }
    let ghost after_up = rows_view(lines@);
    if info.root_status.unicode_len() > 0 {
        let rc = if contains(info.root_status.as_str(), "active") || contains(info.root_status.as_str(), "Unlocked") {
            Color::new(255, 200, 80)
        } else {
            Color::new(200, 100, 100)
        };
        push_row(&mut lines, labelled_line("  Root: ", to_string(info.root_status.as_str()), rc));
    }
    proof {
        let raw = companion_raw(*info, pal@);
        assert(rows_view(lines@) =~= raw);
    }
    lines
}

impl Component for CompanionComponent {
    open spec fn name_view(&self) -> Seq<char> {
        "companion"@
    }

    open spec fn styled(&self, info: SysInfo, cfg: Config, tw: usize, palette: Seq<Color>) -> Seq<Seq<SegView>> {
        companion_styled(info, tw, palette)
    }

    open spec fn colored(&self, info: SysInfo, cfg: Config, tw: usize, palette: Seq<Color>) -> (Seq<Seq<SegView>>, nat) {
        (Seq::empty(), 0)
    }

    open spec fn side(&self, info: SysInfo, cfg: Config, tw: usize, palette: Seq<Color>, left: bool, avail: usize) -> Seq<Seq<SegView>> {
        Seq::empty()
    }

    fn name(&self) -> (r: &str) {
        "companion"
    }

    fn render_styled(&self, ctx: &RenderCtx) -> (r: Vec<Vec<StyledSpan>>) {
        let raw = companion_lines(ctx.info, ctx.palette);
        let ghost rv = rows_view(raw@);
        let mut out: Vec<Vec<StyledSpan>> = Vec::new();
        let mut k: usize = 0;
        while k < raw.len()
            invariant
                k <= raw@.len(),
                rv == rows_view(raw@),
                rows_view(out@) == Seq::new(k as nat, |j: int| pad_bytes(rv[j], ctx.term_width as nat)),
            decreases raw@.len() - k,
        {
            let mut line = super::row_or_empty(&raw, k);
            pad_bytes_exec(&mut line, ctx.term_width);
            push_row(&mut out, line);
            proof {
                assert(rows_view(out@) =~= Seq::new((k + 1) as nat, |j: int| pad_bytes(rv[j], ctx.term_width as nat)));
            }
            k += 1;
        }
        out
    }

    fn render_colored_lines(&self, ctx: &RenderCtx) -> (r: (Vec<Vec<StyledSpan>>, usize)) {
        let v: Vec<Vec<StyledSpan>> = Vec::new();
        proof {
            assert(rows_view(v@) =~= Seq::<Seq<SegView>>::empty());
        }
        (v, 0)
    }

    fn render_side_styled(&self, ctx: &RenderCtx, left: bool, avail: usize) -> (r: Vec<Vec<StyledSpan>>) {
        let v: Vec<Vec<StyledSpan>> = Vec::new();
        proof {
            assert(rows_view(v@) =~= Seq::<Seq<SegView>>::empty());
        }
        v
    }

    fn min_width(&self) -> (r: usize)
        ensures
            r == 20,
    {
        20
    }

    fn min_height(&self) -> (r: usize)
        ensures
            r == 5,
    {
        5
    }
}

} // verus!

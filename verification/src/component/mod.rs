//! Scenes: arrangements of components (the art, the system panels, monitor
//! bars, a status card), each of which draws itself as styled lines.
use vstd::prelude::*;
use crate::config::Config;
use crate::info::SysInfo;
use crate::render::{bold_seq, config_colors_ok, desk_sizes_ok, lines_ansi, pad_segs, push_bold, seg_ansi, segs_ansi, segs_width, SegView};
use crate::text::{push_char, push_str, repeat_char, repeat_char_seq, spaces, spaces_seq, str_eq, to_string};
use crate::theme::{bg_escape_seq, fg_escape_seq, utf8_len, utf8_width, Color};
use crate::widget::{push_reset, reset_seq, sat_sub};
use crate::width::{str_width, str_width_of};

pub mod ascii;
pub mod companion;
pub mod monitor;
pub mod system;

verus! {

/// What a component is drawn with.
pub struct RenderCtx<'a> {
    pub info: &'a SysInfo,
    pub cfg: &'a Config,
    pub term_width: usize,
    pub palette: &'a [Color],
}

/// A run of text with one style.
pub struct StyledSpan {
    pub text: String,
    pub fg: Option<Color>,
    pub bg: Option<Color>,
    pub bold: bool,
}

impl View for StyledSpan {
    type V = SegView;

    open spec fn view(&self) -> SegView {
        (self.text@, self.fg, self.bg, self.bold)
    }
}

/// A plain span: no colour, not bold.
pub open spec fn sp(text: Seq<char>) -> SegView {
    (text, None, None, false)
}

/// `v` with foreground `c`.
pub open spec fn with_fg(v: SegView, c: Color) -> SegView {
    (v.0, Some(c), v.2, v.3)
}

/// `v` in bold.
pub open spec fn with_bold(v: SegView) -> SegView {
    (v.0, v.1, v.2, true)
}

/// Views of a line of spans.
pub open spec fn spans_view(s: Seq<StyledSpan>) -> Seq<SegView> {
    s.map_values(|x: StyledSpan| x@)
}

/// Views of a list of lines.
pub open spec fn rows_view(s: Seq<Vec<StyledSpan>>) -> Seq<Seq<SegView>> {
    s.map_values(|v: Vec<StyledSpan>| spans_view(v@))
}

impl StyledSpan {
    /// A plain span.
    pub fn new(text: String) -> (r: Self)
        ensures
            r@ == sp(text@),
    {
        StyledSpan { text, fg: None, bg: None, bold: false }
    }

    /// The same span in foreground colour `c`.
    pub fn fg(self, c: Color) -> (r: Self)
        ensures
            r@ == with_fg(self@, c),
    {
        StyledSpan { text: self.text, fg: Some(c), bg: self.bg, bold: self.bold }
    }

    /// The same span in bold.
    pub fn bold(self) -> (r: Self)
        ensures
            r@ == with_bold(self@),
    {
        StyledSpan { text: self.text, fg: self.fg, bg: self.bg, bold: true }
    }
}

/// A plain span of text `s`.
pub fn span_of(s: &str) -> (r: StyledSpan)
    ensures
        r@ == sp(s@),
{
    StyledSpan::new(to_string(s))
}

/// Whether a component can be drawn in this context without panicking:
/// readable colours, sizes in range, and a palette whenever a right-hand
/// field is shown.
pub open spec fn ctx_ok(cfg: Config, tw: usize, palette: Seq<Color>) -> bool {
    &&& config_colors_ok(cfg)
    &&& desk_sizes_ok(cfg.panel, tw as nat)
    &&& (palette.len() > 0 || forall|i: int| 0 <= i < cfg.display.right@.len() ==> !(#[trigger] cfg.display.right@[i]).enabled)
}

/// A piece of a scene.
pub trait Component {
    /// The component's name, by which scenes find it.
    spec fn name_view(&self) -> Seq<char>;

    /// What `render_styled` draws.
    spec fn styled(&self, info: SysInfo, cfg: Config, tw: usize, palette: Seq<Color>) -> Seq<Seq<SegView>>;

    /// What `render_colored_lines` gives: coloured art rows without
    /// indent, and their width.
    spec fn colored(&self, info: SysInfo, cfg: Config, tw: usize, palette: Seq<Color>) -> (Seq<Seq<SegView>>, nat);

    /// What `render_side_styled` gives for one side of the panels.
    spec fn side(&self, info: SysInfo, cfg: Config, tw: usize, palette: Seq<Color>, left: bool, avail: usize) -> Seq<Seq<SegView>>;

    /// Name of the component.
    fn name(&self) -> (r: &str)
        ensures
            r@ == self.name_view(),
    ;

    /// Draws the component as styled lines.
    fn render_styled(&self, ctx: &RenderCtx) -> (r: Vec<Vec<StyledSpan>>)
        requires
            ctx_ok(*ctx.cfg, ctx.term_width, ctx.palette@),
        ensures
            rows_view(r@) == self.styled(*ctx.info, *ctx.cfg, ctx.term_width, ctx.palette@),
    ;

    /// Draws the component as ANSI text.
    fn render_ansi(&self, ctx: &RenderCtx) -> (r: String)
        requires
            ctx_ok(*ctx.cfg, ctx.term_width, ctx.palette@),
        ensures
            r@ == lines_ansi(self.styled(*ctx.info, *ctx.cfg, ctx.term_width, ctx.palette@)),
    {
        let lines = self.render_styled(ctx);
        spans_to_ansi(&lines)
    }

    /// Coloured art rows without indent, and their width (nothing for
    /// components that are not art).
    fn render_colored_lines(&self, ctx: &RenderCtx) -> (r: (Vec<Vec<StyledSpan>>, usize))
        requires
            ctx_ok(*ctx.cfg, ctx.term_width, ctx.palette@),
        ensures
            (rows_view(r.0@), r.1 as nat) == self.colored(*ctx.info, *ctx.cfg, ctx.term_width, ctx.palette@),
    ;

    /// Panel rows for the left or right side, each at most `avail` columns
    /// (nothing for components that draw no panels).
    fn render_side_styled(&self, ctx: &RenderCtx, left: bool, avail: usize) -> (r: Vec<Vec<StyledSpan>>)
        requires
            ctx_ok(*ctx.cfg, ctx.term_width, ctx.palette@),
        ensures
            rows_view(r@) == self.side(*ctx.info, *ctx.cfg, ctx.term_width, ctx.palette@, left, avail),
    ;

    /// Columns the component needs at least.
    fn min_width(&self) -> usize;

    /// Rows the component needs at least.
    fn min_height(&self) -> usize;
}

// ── Scenes ───────────────────────────────────────────────────────────────

/// Arrangements of components.
#[derive(Debug, Clone, Copy, PartialEq, Eq, Structural)]
pub enum Scene {
    Classic,
    Dashboard,
    Cockpit,
    ClassicFetch,
}

impl Scene {
    /// All scenes, in menu order.
    pub fn all() -> (r: &'static [Scene])
        ensures
            r@ == seq![Scene::Classic, Scene::Dashboard, Scene::Cockpit, Scene::ClassicFetch],
    {
        &[Scene::Classic, Scene::Dashboard, Scene::Cockpit, Scene::ClassicFetch]
    }

    /// Display name.
    pub fn name(&self) -> (r: &'static str)
        ensures
            r@ == match *self {
                Scene::Classic => "Classic"@,
                Scene::Dashboard => "Terminal Dashboard"@,
                Scene::Cockpit => "Cockpit"@,
                Scene::ClassicFetch => "ClassicFetch"@,
            },
    {
        match self {
            Scene::Classic => "Classic",
            Scene::Dashboard => "Terminal Dashboard",
            Scene::Cockpit => "Cockpit",
            Scene::ClassicFetch => "ClassicFetch",
        }
    }

    /// One-line description.
    pub fn description(&self) -> (r: &'static str)
        ensures
            r@ == match *self {
                Scene::Classic => "ASCII centered, left/right powerline panels"@,
                Scene::Dashboard => "Multi-panel TUI dashboard layout"@,
                Scene::Cockpit => "ASCII centered, panels arranged around it"@,
                Scene::ClassicFetch => "Fastfetch-style: info left, logo right, no panels"@,
            },
    {
        match self {
            Scene::Classic => "ASCII centered, left/right powerline panels",
            Scene::Dashboard => "Multi-panel TUI dashboard layout",
            Scene::Cockpit => "ASCII centered, panels arranged around it",
            Scene::ClassicFetch => "Fastfetch-style: info left, logo right, no panels",
        }
    }

    /// Recommended minimum terminal width.
    pub fn min_width(&self) -> (r: usize)
        ensures
            r == match *self {
                Scene::Classic => 80usize,
                Scene::Dashboard => 80usize,
                Scene::Cockpit => 60usize,
                Scene::ClassicFetch => 70usize,
            },
    {
        match self {
            Scene::Classic => 80,
            Scene::Dashboard => 80,
            Scene::Cockpit => 60,
            Scene::ClassicFetch => 70,
        }
    }
}

/// The lines a scene draws.
pub struct SceneOutput {
    pub lines: Vec<Vec<StyledSpan>>,
}

// ── Line helpers ─────────────────────────────────────────────────────────

/// Styled lines as ANSI text.
pub fn spans_to_ansi(lines: &Vec<Vec<StyledSpan>>) -> (r: String)
    ensures
        r@ == lines_ansi(rows_view(lines@)),
{
    let mut out = String::new();
    let mut i: usize = 0;
    while i < lines.len()
        invariant
            i <= lines@.len(),
            out@ == lines_ansi(rows_view(lines@).take(i as int)),
        decreases lines@.len() - i,
    {
        proof {
            assert(rows_view(lines@).take(i + 1).drop_last() =~= rows_view(lines@).take(i as int));
        }
        let line = &lines[i];
        let ghost o0 = out@;
        let mut j: usize = 0;
        while j < line.len()
            invariant
                j <= line@.len(),
                out@ == o0 + segs_ansi(spans_view(line@).take(j as int)),
            decreases line@.len() - j,
        {
            proof {
                assert(spans_view(line@).take(j + 1).drop_last() =~= spans_view(line@).take(j as int));
            }
            let s = &line[j];
            if s.bold {
                push_bold(&mut out);
            }
            match &s.fg {
                Some(c) => {
                    let e = c.fg_escape();
                    push_str(&mut out, &e);
                },
                None => {},
            }
            match &s.bg {
                Some(c) => {
                    let e = c.bg_escape();
                    push_str(&mut out, &e);
                },
                None => {},
            }
            push_str(&mut out, s.text.as_str());
            push_reset(&mut out);
            proof {
                assert(seg_ansi(s@) =~= (if s.bold { bold_seq() } else { Seq::empty() }) + (match s.fg {
                    Some(c) => fg_escape_seq(c),
                    None => Seq::empty(),
                }) + (match s.bg {
                    Some(c) => bg_escape_seq(c),
                    None => Seq::empty(),
                }) + s.text@ + reset_seq());
                assert(out@ =~= o0 + segs_ansi(spans_view(line@).take(j + 1)));
            }
            j += 1;
        }
        proof {
            assert(spans_view(line@).take(line@.len() as int) =~= spans_view(line@));
        }
        push_char(&mut out, '\n');
        proof {
            assert(out@ =~= lines_ansi(rows_view(lines@).take(i + 1)));
        }
        i += 1;
    }
    proof {
        assert(rows_view(lines@).take(lines@.len() as int) =~= rows_view(lines@));
    }
    out
}

/// Visible columns of a line, capped at `cap`.
pub fn line_width_capped(line: &Vec<StyledSpan>, cap: usize) -> (r: usize)
    ensures
        r as nat == if segs_width(spans_view(line@)) < cap { segs_width(spans_view(line@)) } else { cap as nat },
{
    let mut acc: usize = 0;
    let mut j: usize = 0;
    while j < line.len()
        invariant
            j <= line@.len(),
            acc as nat == if segs_width(spans_view(line@).take(j as int)) < cap {
                segs_width(spans_view(line@).take(j as int))
            } else {
                cap as nat
            },
        decreases line@.len() - j,
    {
        proof {
            assert(spans_view(line@).take(j + 1).drop_last() =~= spans_view(line@).take(j as int));
        }
        let w = str_width(line[j].text.as_str());
        if acc < cap {
            acc = if w < cap - acc { acc + w } else { cap };
        }
        j += 1;
    }
    proof {
        assert(spans_view(line@).take(line@.len() as int) =~= spans_view(line@));
    }
    acc
}

/// Pads a line with a blank span up to `w` columns.
pub fn pad_line(line: &mut Vec<StyledSpan>, w: usize)
    ensures
        spans_view(final(line)@) == pad_segs(spans_view(old(line)@), w as nat),
{
    let cur = line_width_capped(line, w);
    if cur < w {
        let ghost before = spans_view(line@);
        line.push(StyledSpan::new(spaces(w - cur)));
        proof {
            assert(spans_view(final(line)@) =~= before.push(sp(spaces_seq((w - cur) as nat))));
        }
    }
}

/// Appends the spans of `src` to `line`.
pub fn extend_line(line: &mut Vec<StyledSpan>, src: Vec<StyledSpan>)
    ensures
        spans_view(final(line)@) == spans_view(old(line)@) + spans_view(src@),
{
    let ghost a = spans_view(line@);
    let ghost b = spans_view(src@);
    let mut src = src;
    line.append(&mut src);
    proof {
        assert(spans_view(final(line)@) =~= a + b);
    }
}

/// Pushes a line onto a list of lines.
pub fn push_row(rows: &mut Vec<Vec<StyledSpan>>, line: Vec<StyledSpan>)
    ensures
        rows_view(final(rows)@) == rows_view(old(rows)@).push(spans_view(line@)),
{
    let ghost v = spans_view(line@);
    rows.push(line);
    proof {
        assert(rows_view(final(rows)@) =~= rows_view(old(rows)@).push(v));
    }
}

/// A copy of a span.
pub fn copy_span(s: &StyledSpan) -> (r: StyledSpan)
    ensures
        r@ == s@,
{
    StyledSpan { text: to_string(s.text.as_str()), fg: s.fg, bg: s.bg, bold: s.bold }
}

/// A copy of a line.
pub fn copy_line(line: &Vec<StyledSpan>) -> (r: Vec<StyledSpan>)
    ensures
        spans_view(r@) == spans_view(line@),
{
    let mut out: Vec<StyledSpan> = Vec::new();
    let mut j: usize = 0;
    while j < line.len()
        invariant
            j <= line@.len(),
            spans_view(out@) == spans_view(line@).take(j as int),
        decreases line@.len() - j,
    {
        let ghost before = spans_view(out@);
        out.push(copy_span(&line[j]));
        proof {
            assert(spans_view(out@) =~= before.push(line@[j as int]@));
            assert(spans_view(out@) =~= spans_view(line@).take(j + 1));
        }
        j += 1;
    }
    proof {
        assert(spans_view(line@).take(line@.len() as int) =~= spans_view(line@));
    }
    out
}

/// A copy of line `i` of `rows`, or an empty line when there is none.
pub fn row_or_empty(rows: &Vec<Vec<StyledSpan>>, i: usize) -> (r: Vec<StyledSpan>)
    ensures
        spans_view(r@) == if i < rows@.len() { rows_view(rows@)[i as int] } else { Seq::<SegView>::empty() },
{
    if i < rows.len() {
        copy_line(&rows[i])
    } else {
        let v: Vec<StyledSpan> = Vec::new();
        proof {
            assert(spans_view(v@) =~= Seq::<SegView>::empty());
        }
        v
    }
}

/// A line holding `n` copies of `c`.
pub fn rule_line(c: char, n: usize) -> (r: Vec<StyledSpan>)
    ensures
        spans_view(r@) == seq![sp(repeat_char_seq(c, n as nat))],
{
    let mut v: Vec<StyledSpan> = Vec::new();
    v.push(StyledSpan::new(repeat_char(c, n)));
    proof {
        assert(spans_view(v@) =~= seq![sp(repeat_char_seq(c, n as nat))]);
    }
    v
}

// ── Finding components ───────────────────────────────────────────────────

/// Index of the first component called `name`.
pub open spec fn comp_index(cs: Seq<&dyn Component>, name: Seq<char>) -> Option<int>
    decreases cs.len(),
{
    if cs.len() == 0 {
        None
    } else {
        match comp_index(cs.drop_last(), name) {
            Some(i) => Some(i),
            None => if cs.last().name_view() == name { Some(cs.len() - 1) } else { None },
        }
    }
}

/// Index of the first component called `name`.
pub fn find_component(components: &[&dyn Component], name: &str) -> (r: Option<usize>)
    ensures
        match r {
            Some(i) => comp_index(components@, name@) == Some(i as int) && i < components@.len(),
            None => comp_index(components@, name@) is None,
        },
{
    let mut i: usize = 0;
    while i < components.len()
        invariant
            i <= components@.len(),
            comp_index(components@.take(i as int), name@) is None,
        decreases components@.len() - i,
    {
        proof {
            assert(components@.take(i + 1).drop_last() =~= components@.take(i as int));
        }
        let c = components[i];
        if str_eq(c.name(), name) {
            proof {
                lemma_comp_index_prefix(components@, name@, (i + 1) as int);
            }
            return Some(i);
        }
        i += 1;
    }
    proof {
        assert(components@.take(components@.len() as int) =~= components@);
    }
    None
}

proof fn lemma_comp_index_prefix(cs: Seq<&dyn Component>, name: Seq<char>, k: int)
    requires
        0 < k <= cs.len(),
        comp_index(cs.take(k), name) is Some,
    ensures
        comp_index(cs, name) == comp_index(cs.take(k), name),
    decreases cs.len() - k,
{
    if k < cs.len() {
        assert(cs.drop_last().take(k) =~= cs.take(k));
        if k < cs.len() - 1 || k == cs.len() - 1 {
            if k == cs.len() - 1 {
                assert(cs.drop_last() =~= cs.take(k));
            } else {
                lemma_comp_index_prefix(cs.drop_last(), name, k);
            }
        }
    } else {
        assert(cs.take(k) =~= cs);
    }
}

/// Lines of the component called `name`, drawn `tw` columns wide, or none.
pub open spec fn comp_styled(cs: Seq<&dyn Component>, name: Seq<char>, info: SysInfo, cfg: Config, tw: usize, pal: Seq<Color>) -> Seq<Seq<SegView>> {
    match comp_index(cs, name) {
        Some(i) => cs[i].styled(info, cfg, tw, pal),
        None => Seq::empty(),
    }
}

/// Lines of the component called `name`, or none.
fn styled_of(components: &[&dyn Component], name: &str, ctx: &RenderCtx) -> (r: Vec<Vec<StyledSpan>>)
    requires
        ctx_ok(*ctx.cfg, ctx.term_width, ctx.palette@),
    ensures
        rows_view(r@) == comp_styled(components@, name@, *ctx.info, *ctx.cfg, ctx.term_width, ctx.palette@),
{
    match find_component(components, name) {
        Some(i) => components[i].render_styled(ctx),
        None => {
            let v: Vec<Vec<StyledSpan>> = Vec::new();
            proof {
                assert(rows_view(v@) =~= Seq::<Seq<SegView>>::empty());
            }
            v
        },
    }
}

// ── Blocks ───────────────────────────────────────────────────────────────

/// `lines` under a header `── title ──` centred in `w` columns (no header
/// for an empty title), each line padded to `w` columns.
pub open spec fn wrap_block_spec(title: Seq<char>, lines: Seq<Seq<SegView>>, w: nat) -> Seq<Seq<SegView>> {
    block_header(title, w) + Seq::new(lines.len(), |i: int| pad_segs(lines[i], w))
}

/// Header of a titled block: `── title ──` centred in `w` columns, or
/// nothing for an empty title.
pub open spec fn block_header(title: Seq<char>, w: nat) -> Seq<Seq<SegView>> {
    if title.len() > 0 {
        let t = seq![' '] + title + seq![' '];
        let side = (sat_sub(w as int, str_width_of(t) as int) / 2) as nat;
        seq![seq![sp(repeat_char_seq('\u{2500}', side) + t + repeat_char_seq('\u{2500}', side))]]
    } else {
        Seq::empty()
    }
}

/// Frames lines as a titled block `term_w` columns wide.
pub fn wrap_block(title: &str, lines: &Vec<Vec<StyledSpan>>, term_w: usize) -> (r: Vec<Vec<StyledSpan>>)
    ensures
        rows_view(r@) == wrap_block_spec(title@, rows_view(lines@), term_w as nat),
{
    let mut out: Vec<Vec<StyledSpan>> = Vec::new();
    if title.unicode_len() > 0 {
        let mut t = String::new();
        push_char(&mut t, ' ');
        push_str(&mut t, title);
        push_char(&mut t, ' ');
        proof {
            assert(t@ =~= seq![' '] + title@ + seq![' ']);
        }
        let tw = str_width(&t);
        let side = (if term_w > tw { term_w - tw } else { 0 }) / 2;
        let mut header = repeat_char('\u{2500}', side);
        push_str(&mut header, &t);
        let tail = repeat_char('\u{2500}', side);
        push_str(&mut header, &tail);
        let ghost hv = header@;
        let mut hl: Vec<StyledSpan> = Vec::new();
        hl.push(StyledSpan::new(header));
        proof {
            assert(spans_view(hl@) =~= seq![sp(hv)]);
        }
        push_row(&mut out, hl);
        proof {
            assert(rows_view(out@) =~= seq![seq![sp(hv)]]);
            assert(rows_view(out@) =~= block_header(title@, term_w as nat));
        }
    } else {
        proof {
            assert(rows_view(out@) =~= block_header(title@, term_w as nat));
        }
    }
    let ghost head = rows_view(out@);
    let ghost src = rows_view(lines@);
    let n = lines.len();
    let mut i: usize = 0;
    while i < n
        invariant
            i <= n,
            n == lines@.len(),
            src == rows_view(lines@),
            rows_view(out@) == head + Seq::new(i as nat, |k: int| pad_segs(src[k], term_w as nat)),
        decreases n - i,
    {
        let mut line = row_or_empty(&lines, i);
        pad_line(&mut line, term_w);
        push_row(&mut out, line);
        proof {
            assert(rows_view(out@) =~= head + Seq::new((i + 1) as nat, |k: int| pad_segs(src[k], term_w as nat)));
        }
        i += 1;
    }
    proof {
        assert(rows_view(out@) =~= wrap_block_spec(title@, src, term_w as nat));
    }
    out
}


// ── Scene layouts ────────────────────────────────────────────────────────

/// Line `i` of `rows`, or an empty line.
pub open spec fn row_at(rows: Seq<Seq<SegView>>, i: int) -> Seq<SegView> {
    if 0 <= i < rows.len() { rows[i] } else { Seq::empty() }
}

/// The larger of two lengths.
pub open spec fn max_len(a: nat, b: nat) -> nat {
    if a < b { b } else { a }
}

/// Two columns side by side: each left line padded to `half` columns, the
/// right line after it, the whole padded to `tw` columns.
pub open spec fn two_col_rows(l: Seq<Seq<SegView>>, r: Seq<Seq<SegView>>, half: nat, tw: nat) -> Seq<Seq<SegView>> {
    Seq::new(max_len(l.len(), r.len()), |i: int| pad_segs(pad_segs(row_at(l, i), half) + row_at(r, i), tw))
}

/// A line of `n` light horizontal rules.
pub open spec fn light_rule(n: nat) -> Seq<SegView> {
    seq![sp(repeat_char_seq('\u{2500}', n))]
}

/// A line of `n` heavy horizontal rules.
pub open spec fn heavy_rule(n: nat) -> Seq<SegView> {
    seq![sp(repeat_char_seq('\u{2501}', n))]
}

/// Lines of the component called `name` framed as a block titled `title`
/// and `w` columns wide, or none.
pub open spec fn comp_wrapped(cs: Seq<&dyn Component>, name: Seq<char>, title: Seq<char>, info: SysInfo, cfg: Config, tw: usize, pal: Seq<Color>, w: nat) -> Seq<Seq<SegView>> {
    match comp_index(cs, name) {
        Some(i) => wrap_block_spec(title, cs[i].styled(info, cfg, tw, pal), w),
        None => Seq::empty(),
    }
}

/// The dashboard: art beside a framed system block, a rule, then framed
/// monitor and status blocks side by side.
pub open spec fn dashboard_spec(cs: Seq<&dyn Component>, info: SysInfo, cfg: Config, tw: usize, pal: Seq<Color>) -> Seq<Seq<SegView>> {
    let a = comp_styled(cs, "ascii"@, info, cfg, tw, pal);
    let s = comp_wrapped(cs, "system"@, "SYSTEM"@, info, cfg, tw, pal, 30);
    let m = comp_wrapped(cs, "monitor"@, "MONITOR"@, info, cfg, tw, pal, 30);
    let c = comp_wrapped(cs, "companion"@, "STATUS"@, info, cfg, tw, pal, 30);
    let half = (tw / 2) as nat;
    two_col_rows(a, s, half, tw as nat) + seq![light_rule(tw as nat)] + two_col_rows(m, c, half, tw as nat)
}

/// A line centred in `tw` columns (then padded to them).
pub open spec fn centered_line(line: Seq<SegView>, tw: nat) -> Seq<SegView> {
    let pad = (sat_sub(tw as int, segs_width(line) as int) / 2) as nat;
    pad_segs((if pad > 0 { seq![sp(spaces_seq(pad))] } else { Seq::empty() }) + line, tw)
}

/// The cockpit: the art centred between heavy rules, then the system and
/// monitor lines side by side, then a closing rule.
pub open spec fn cockpit_spec(cs: Seq<&dyn Component>, info: SysInfo, cfg: Config, tw: usize, pal: Seq<Color>) -> Seq<Seq<SegView>> {
    let a = comp_styled(cs, "ascii"@, info, cfg, tw, pal);
    let s = comp_styled(cs, "system"@, info, cfg, tw, pal);
    let m = comp_styled(cs, "monitor"@, info, cfg, tw, pal);
    let half = (tw / 2) as nat;
    seq![heavy_rule(tw as nat)] + Seq::new(a.len(), |i: int| centered_line(a[i], tw as nat)) + seq![heavy_rule(tw as nat)]
        + two_col_rows(s, m, half, tw as nat) + seq![heavy_rule(tw as nat)]
}

/// Row `i` of the split monitor scene.
pub open spec fn split_row(a: Seq<Seq<SegView>>, s: Seq<Seq<SegView>>, m: Seq<Seq<SegView>>, half: nat, mw: nat, tw: nat, i: int) -> Seq<SegView> {
    let left0 = row_at(a, i) + row_at(s, i);
    let left = if segs_width(left0) > half {
        if i < a.len() { pad_segs(a[i], half) } else { Seq::empty() }
    } else {
        pad_segs(left0, half)
    };
    pad_segs(left + (if i < m.len() { m[i] } else { seq![sp(spaces_seq(mw))] }), tw)
}

/// The split monitor scene: art and system lines in the left half, the
/// framed monitor (drawn for the right half) beside them, between rules.
pub open spec fn monitor_split_spec(cs: Seq<&dyn Component>, info: SysInfo, cfg: Config, tw: usize, pal: Seq<Color>) -> Seq<Seq<SegView>> {
    let half = (tw / 2) as nat;
    let mw = sat_sub(half as int, 4) as nat;
    let a = comp_styled(cs, "ascii"@, info, cfg, tw, pal);
    let s = comp_styled(cs, "system"@, info, cfg, tw, pal);
    let m = comp_wrapped(cs, "monitor"@, " MONITOR "@, info, cfg, mw as usize, pal, mw);
    let n = max_len(max_len(a.len(), s.len()), m.len());
    seq![heavy_rule(tw as nat)] + Seq::new(n, |i: int| split_row(a, s, m, half, mw, tw as nat, i)) + seq![heavy_rule(tw as nat)]
}

/// Widest single span of a line.
pub open spec fn max_span_of(line: Seq<SegView>) -> nat
    decreases line.len(),
{
    if line.len() == 0 {
        0
    } else {
        let a = max_span_of(line.drop_last());
        let b = str_width_of(line.last().0);
        if a < b { b } else { a }
    }
}

/// Widest single span of all lines.
pub open spec fn max_span_width(lines: Seq<Seq<SegView>>) -> nat
    decreases lines.len(),
{
    if lines.len() == 0 {
        0
    } else {
        let a = max_span_width(lines.drop_last());
        let b = max_span_of(lines.last());
        if a < b { b } else { a }
    }
}

/// Row `i` of the fastfetch-style scene.
pub open spec fn fetch_row(a: Seq<Seq<SegView>>, s: Seq<Seq<SegView>>, aw: nat, left_w: nat, tw: nat, i: int) -> Seq<SegView> {
    let line0 = if i < s.len() {
        pad_segs(s[i], left_w)
    } else if aw > 0 {
        seq![sp(spaces_seq(left_w))]
    } else {
        Seq::empty()
    };
    let line1 = if i < a.len() && aw > 0 {
        (if left_w > 0 { pad_segs(line0, sat_sub(tw as int, aw as int) as nat) } else { line0 }) + a[i]
    } else {
        line0
    };
    pad_segs(line1, tw)
}

/// The fastfetch-style scene: system lines on the left, the art on the
/// right, four columns apart.
pub open spec fn classicfetch_spec(cs: Seq<&dyn Component>, info: SysInfo, cfg: Config, tw: usize, pal: Seq<Color>) -> Seq<Seq<SegView>> {
    let a = comp_styled(cs, "ascii"@, info, cfg, tw, pal);
    let s = comp_styled(cs, "system"@, info, cfg, tw, pal);
    let aw = max_span_width(a);
    let left_w = if aw > 0 { sat_sub(tw as int, (aw + 4) as int) as nat } else { tw as nat };
    Seq::new(max_len(a.len(), s.len()), |i: int| fetch_row(a, s, aw, left_w, tw as nat, i))
}

/// Framed lines of the component called `name`, or none.
fn wrapped_of(components: &[&dyn Component], name: &str, title: &str, ctx: &RenderCtx, w: usize) -> (r: Vec<Vec<StyledSpan>>)
    requires
        ctx_ok(*ctx.cfg, ctx.term_width, ctx.palette@),
    ensures
        rows_view(r@) == comp_wrapped(components@, name@, title@, *ctx.info, *ctx.cfg, ctx.term_width, ctx.palette@, w as nat),
{
    match find_component(components, name) {
        Some(i) => {
            let lines = components[i].render_styled(ctx);
            wrap_block(title, &lines, w)
        },
        None => {
            let v: Vec<Vec<StyledSpan>> = Vec::new();
            proof {
                assert(rows_view(v@) =~= Seq::<Seq<SegView>>::empty());
            }
            v
        },
    }
}

/// Appends `two_col_rows(l, r, half, tw)`.
fn push_two_columns(all: &mut Vec<Vec<StyledSpan>>, l: &Vec<Vec<StyledSpan>>, r: &Vec<Vec<StyledSpan>>, half: usize, tw: usize)
    ensures
        rows_view(final(all)@) == rows_view(old(all)@) + two_col_rows(rows_view(l@), rows_view(r@), half as nat, tw as nat),
{
    let ghost a0 = rows_view(all@);
    let n = if l.len() < r.len() { r.len() } else { l.len() };
    let mut i: usize = 0;
    while i < n
        invariant
            i <= n,
            n == max_len(l@.len(), r@.len()),
            rows_view(all@) == a0 + two_col_rows(rows_view(l@), rows_view(r@), half as nat, tw as nat).take(i as int),
        decreases n - i,
    {
        let mut line = row_or_empty(l, i);
        pad_line(&mut line, half);
        let right = row_or_empty(r, i);
        extend_line(&mut line, right);
        pad_line(&mut line, tw);
        push_row(all, line);
        proof {
            assert(rows_view(all@) =~= a0 + two_col_rows(rows_view(l@), rows_view(r@), half as nat, tw as nat).take(i + 1));
        }
        i += 1;
    }
    proof {
        assert(two_col_rows(rows_view(l@), rows_view(r@), half as nat, tw as nat).take(n as int) =~= two_col_rows(
            rows_view(l@),
            rows_view(r@),
            half as nat,
            tw as nat,
        ));
    }
}

/// Draws the dashboard scene.
pub fn render_dashboard(components: &[&dyn Component], ctx: &RenderCtx) -> (r: SceneOutput)
    requires
        ctx_ok(*ctx.cfg, ctx.term_width, ctx.palette@),
    ensures
        rows_view(r.lines@) == dashboard_spec(components@, *ctx.info, *ctx.cfg, ctx.term_width, ctx.palette@),
{
    let tw = ctx.term_width;
    let a = styled_of(components, "ascii", ctx);
    let s = wrapped_of(components, "system", "SYSTEM", ctx, 30);
    let m = wrapped_of(components, "monitor", "MONITOR", ctx, 30);
    let c = wrapped_of(components, "companion", "STATUS", ctx, 30);
    let half = tw / 2;
    let mut all: Vec<Vec<StyledSpan>> = Vec::new();
    push_two_columns(&mut all, &a, &s, half, tw);
    push_row(&mut all, rule_line('\u{2500}', tw));
    push_two_columns(&mut all, &m, &c, half, tw);
    proof {
        assert(rows_view(all@) =~= dashboard_spec(components@, *ctx.info, *ctx.cfg, ctx.term_width, ctx.palette@));
    }
    SceneOutput { lines: all }
}

/// Draws the cockpit scene.
pub fn render_cockpit(components: &[&dyn Component], ctx: &RenderCtx) -> (r: SceneOutput)
    requires
        ctx_ok(*ctx.cfg, ctx.term_width, ctx.palette@),
    ensures
        rows_view(r.lines@) == cockpit_spec(components@, *ctx.info, *ctx.cfg, ctx.term_width, ctx.palette@),
{
    let tw = ctx.term_width;
    let a = styled_of(components, "ascii", ctx);
    let s = styled_of(components, "system", ctx);
    let m = styled_of(components, "monitor", ctx);
    let mut all: Vec<Vec<StyledSpan>> = Vec::new();
    push_row(&mut all, rule_line('\u{2501}', tw));
    let ghost head = rows_view(all@);
    let ghost av = rows_view(a@);
    let mut i: usize = 0;
    while i < a.len()
        invariant
            i <= a@.len(),
            av == rows_view(a@),
            rows_view(all@) == head + Seq::new(i as nat, |k: int| centered_line(av[k], tw as nat)),
        decreases a@.len() - i,
    {
        let src = row_or_empty(&a, i);
        let w = line_width_capped(&src, tw);
        let pad = (tw - w) / 2;
        let mut line: Vec<StyledSpan> = Vec::new();
        if pad > 0 {
            line.push(StyledSpan::new(spaces(pad)));
        }
        proof {
            assert(spans_view(line@) =~= (if pad > 0 { seq![sp(spaces_seq(pad as nat))] } else { Seq::<SegView>::empty() }));
        }
        extend_line(&mut line, src);
        pad_line(&mut line, tw);
        push_row(&mut all, line);
        proof {
            assert(rows_view(all@) =~= head + Seq::new((i + 1) as nat, |k: int| centered_line(av[k], tw as nat)));
        }
        i += 1;
    }
    push_row(&mut all, rule_line('\u{2501}', tw));
    push_two_columns(&mut all, &s, &m, tw / 2, tw);
    push_row(&mut all, rule_line('\u{2501}', tw));
    proof {
        assert(rows_view(all@) =~= cockpit_spec(components@, *ctx.info, *ctx.cfg, ctx.term_width, ctx.palette@));
    }
    SceneOutput { lines: all }
}

/// Draws the split monitor scene: the fetch output in the left half, the
/// monitor, drawn for the right half, beside it.
pub fn render_monitor_split(components: &[&dyn Component], ctx: &RenderCtx) -> (r: SceneOutput)
    requires
        ctx_ok(*ctx.cfg, ctx.term_width, ctx.palette@),
    ensures
        rows_view(r.lines@) == monitor_split_spec(components@, *ctx.info, *ctx.cfg, ctx.term_width, ctx.palette@),
{
    let tw = ctx.term_width;
    let half = tw / 2;
    let mw = if half > 4 { half - 4 } else { 0 };
    let a = styled_of(components, "ascii", ctx);
    let s = styled_of(components, "system", ctx);
    let mon_ctx = RenderCtx { info: ctx.info, cfg: ctx.cfg, term_width: mw, palette: ctx.palette };
    let m = wrapped_of(components, "monitor", " MONITOR ", &mon_ctx, mw);
    let n0 = if a.len() < s.len() { s.len() } else { a.len() };
    let n = if n0 < m.len() { m.len() } else { n0 };
    let mut all: Vec<Vec<StyledSpan>> = Vec::new();
    push_row(&mut all, rule_line('\u{2501}', tw));
    let ghost head = rows_view(all@);
    let ghost av = rows_view(a@);
    let ghost sv = rows_view(s@);
    let ghost mv = rows_view(m@);
    let mut i: usize = 0;
    while i < n
        invariant
            i <= n,
            n == max_len(max_len(a@.len(), s@.len()), m@.len()),
            av == rows_view(a@),
            sv == rows_view(s@),
            mv == rows_view(m@),
            half == tw / 2,
            mw as int == sat_sub(half as int, 4),
            rows_view(all@) == head + Seq::new(i as nat, |k: int| split_row(av, sv, mv, half as nat, mw as nat, tw as nat, k)),
        decreases n - i,
    {
        let mut left = row_or_empty(&a, i);
        let sl = row_or_empty(&s, i);
        extend_line(&mut left, sl);
        let wl = line_width_capped(&left, half + 1);
        let mut line: Vec<StyledSpan> = if wl > half {
            if i < a.len() {
                let mut x = row_or_empty(&a, i);
                pad_line(&mut x, half);
                x
            } else {
                let v: Vec<StyledSpan> = Vec::new();
                proof {
                    assert(spans_view(v@) =~= Seq::<SegView>::empty());
                }
                v
            }
        } else {
            pad_line(&mut left, half);
            left
        };
        if i < m.len() {
            let ml = row_or_empty(&m, i);
            extend_line(&mut line, ml);
        } else {
            let ghost before = spans_view(line@);
            line.push(StyledSpan::new(spaces(mw)));
            proof {
                assert(spans_view(line@) =~= before + seq![sp(spaces_seq(mw as nat))]);
            }
        }
        pad_line(&mut line, tw);
        push_row(&mut all, line);
        proof {
            assert(rows_view(all@) =~= head + Seq::new((i + 1) as nat, |k: int| split_row(av, sv, mv, half as nat, mw as nat, tw as nat, k)));
        }
        i += 1;
    }
    push_row(&mut all, rule_line('\u{2501}', tw));
    proof {
        assert(rows_view(all@) =~= monitor_split_spec(components@, *ctx.info, *ctx.cfg, ctx.term_width, ctx.palette@));
    }
    SceneOutput { lines: all }
}

/// Widest single span of all lines.
fn widest_span(lines: &Vec<Vec<StyledSpan>>) -> (r: usize)
    ensures
        r as nat == max_span_width(rows_view(lines@)),
{
    let mut m: usize = 0;
    let mut i: usize = 0;
    while i < lines.len()
        invariant
            i <= lines@.len(),
            m as nat == max_span_width(rows_view(lines@).take(i as int)),
        decreases lines@.len() - i,
    {
        proof {
            assert(rows_view(lines@).take(i + 1).drop_last() =~= rows_view(lines@).take(i as int));
        }
        let line = &lines[i];
        let mut lm: usize = 0;
        let mut j: usize = 0;
        while j < line.len()
            invariant
                j <= line@.len(),
                lm as nat == max_span_of(spans_view(line@).take(j as int)),
            decreases line@.len() - j,
        {
            proof {
                assert(spans_view(line@).take(j + 1).drop_last() =~= spans_view(line@).take(j as int));
            }
            let w = str_width(line[j].text.as_str());
            if lm < w {
                lm = w;
            }
            j += 1;
        }
        proof {
            assert(spans_view(line@).take(line@.len() as int) =~= spans_view(line@));
        }
        if m < lm {
            m = lm;
        }
        i += 1;
    }
    proof {
        assert(rows_view(lines@).take(lines@.len() as int) =~= rows_view(lines@));
    }
    m
}

/// Draws the fastfetch-style scene.
pub fn render_classicfetch(components: &[&dyn Component], ctx: &RenderCtx) -> (r: SceneOutput)
    requires
        ctx_ok(*ctx.cfg, ctx.term_width, ctx.palette@),
    ensures
        rows_view(r.lines@) == classicfetch_spec(components@, *ctx.info, *ctx.cfg, ctx.term_width, ctx.palette@),
{
    let tw = ctx.term_width;
    let a = styled_of(components, "ascii", ctx);
    let s = styled_of(components, "system", ctx);
    let aw = widest_span(&a);
    let left_w = if aw > 0 { crate::render::sat_sub_wide(tw, (aw as u128) + 4) } else { tw };
    let target = if tw > aw { tw - aw } else { 0 };
    let n = if a.len() < s.len() { s.len() } else { a.len() };
    let ghost av = rows_view(a@);
    let ghost sv = rows_view(s@);
    let mut all: Vec<Vec<StyledSpan>> = Vec::new();
    let mut i: usize = 0;
    while i < n
        invariant
            i <= n,
            n == max_len(a@.len(), s@.len()),
            av == rows_view(a@),
            sv == rows_view(s@),
            aw as nat == max_span_width(av),
            left_w as nat == (if aw > 0 { sat_sub(tw as int, aw + 4) as nat } else { tw as nat }),
            target as int == sat_sub(tw as int, aw as int),
            rows_view(all@) == Seq::new(i as nat, |k: int| fetch_row(av, sv, aw as nat, left_w as nat, tw as nat, k)),
        decreases n - i,
    {
        let mut line: Vec<StyledSpan> = if i < s.len() {
            let mut x = row_or_empty(&s, i);
            pad_line(&mut x, left_w);
            x
        } else if aw > 0 {
            let mut x: Vec<StyledSpan> = Vec::new();
            x.push(StyledSpan::new(spaces(left_w)));
            proof {
                assert(spans_view(x@) =~= seq![sp(spaces_seq(left_w as nat))]);
            }
            x
        } else {
            let v: Vec<StyledSpan> = Vec::new();
            proof {
                assert(spans_view(v@) =~= Seq::<SegView>::empty());
            }
            v
        };
        if i < a.len() && aw > 0 {
            if left_w > 0 {
                pad_line(&mut line, target);
            }
            let al = row_or_empty(&a, i);
            extend_line(&mut line, al);
        }
        pad_line(&mut line, tw);
        push_row(&mut all, line);
        proof {
            assert(rows_view(all@) =~= Seq::new((i + 1) as nat, |k: int| fetch_row(av, sv, aw as nat, left_w as nat, tw as nat, k)));
        }
        i += 1;
    }
    SceneOutput { lines: all }
}


// ── The classic scene ────────────────────────────────────────────────────

/// Visible columns of a line, or `usize::MAX` when that is less.
pub open spec fn width_cap(line: Seq<SegView>) -> nat {
    if segs_width(line) < usize::MAX { segs_width(line) } else { usize::MAX as nat }
}

/// Widest line (see `width_cap`).
pub open spec fn max_line_cap(lines: Seq<Seq<SegView>>) -> nat
    decreases lines.len(),
{
    if lines.len() == 0 {
        0
    } else {
        let a = max_line_cap(lines.drop_last());
        let b = width_cap(lines.last());
        if a < b { b } else { a }
    }
}

/// Coloured art rows and their width from the component called `"ascii"`.
pub open spec fn classic_art(cs: Seq<&dyn Component>, info: SysInfo, cfg: Config, tw: usize, pal: Seq<Color>) -> (Seq<Seq<SegView>>, nat) {
    match comp_index(cs, "ascii"@) {
        Some(i) => cs[i].colored(info, cfg, tw, pal),
        None => (Seq::empty(), 0),
    }
}

/// One side's panel rows from the component called `"system"`.
pub open spec fn classic_side(cs: Seq<&dyn Component>, info: SysInfo, cfg: Config, tw: usize, pal: Seq<Color>, left: bool, avail: usize) -> Seq<Seq<SegView>> {
    match comp_index(cs, "system"@) {
        Some(i) => cs[i].side(info, cfg, tw, pal, left, avail),
        None => Seq::empty(),
    }
}

/// The gap between panels and art (at least one column).
pub open spec fn classic_gap(cfg: Config) -> nat {
    if cfg.panel.gap < 1 { 1 } else { cfg.panel.gap as nat }
}

/// Geometry of the classic scene: art lines, art width, art origin, left
/// and right panel rows, their widths, monitor rows, panel row count,
/// first panel row and total row count.
pub struct ClassicGeom {
    pub art: Seq<Seq<SegView>>,
    pub aw: nat,
    pub origin: nat,
    pub left: Seq<Seq<SegView>>,
    pub right: Seq<Seq<SegView>>,
    pub left_w: nat,
    pub right_w: nat,
    pub mon: Seq<Seq<SegView>>,
    pub n: nat,
    pub start: nat,
    pub total: nat,
}

/// The geometry of the classic scene.
pub open spec fn classic_geom(cs: Seq<&dyn Component>, info: SysInfo, cfg: Config, tw: usize, pal: Seq<Color>) -> ClassicGeom {
    let (art, aw) = classic_art(cs, info, cfg, tw, pal);
    let p = cfg.panel;
    let gap = classic_gap(cfg);
    let origin: nat = if aw > 0 && aw < tw { ((tw - aw) / 2) as nat } else { 0 };
    let la = crate::render::at_least4(sat_sub(origin as int, p.left_pad + p.max_shift + gap + 1));
    let ra = crate::render::at_least4(sat_sub(tw as int, origin + aw + gap + p.right_pad + p.max_shift + 1));
    let left = classic_side(cs, info, cfg, tw, pal, true, la as usize);
    let right = classic_side(cs, info, cfg, tw, pal, false, ra as usize);
    let mon = comp_styled(cs, "monitor"@, info, cfg, tw, pal);
    let lh = art.len();
    let n = max_len(max_len(left.len(), right.len()), mon.len());
    let start: nat = if lh > 0 { (sat_sub(lh as int, n as int) / 2) as nat } else { 0 };
    let total = if lh == 0 { n } else { max_len(lh, start + n) };
    ClassicGeom { art, aw, origin, left, right, left_w: max_line_cap(left), right_w: max_line_cap(right), mon, n, start, total }
}

/// The left part of a panel row: indent, then panel `k` right-aligned in
/// the left column (or blanks when there is none).
pub open spec fn classic_left_part(g: ClassicGeom, cfg: Config, shift: nat, k: int) -> Seq<SegView> {
    let l0 = seq![sp(spaces_seq((cfg.panel.left_pad + shift) as nat))];
    if k < g.left.len() {
        let cw = width_cap(g.left[k]);
        l0 + (if cw < g.left_w { seq![sp(spaces_seq((g.left_w - cw) as nat))] } else { Seq::empty() }) + g.left[k]
    } else {
        l0 + seq![sp(spaces_seq(if g.left_w < 1 { 1 } else { g.left_w }))]
    }
}

/// A panel row up to the end of the art.
pub open spec fn classic_mid_part(g: ClassicGeom, cfg: Config, shift: nat, k: int, i: int) -> Seq<SegView> {
    let gap = classic_gap(cfg);
    let l2 = pad_segs(classic_left_part(g, cfg, shift, k), sat_sub(g.origin as int, gap as int) as nat);
    let l3 = if g.aw > 0 { l2 + seq![sp(spaces_seq(gap))] } else { l2 };
    if i < g.art.len() { l3 + g.art[i] } else if g.aw > 0 { l3 + seq![sp(spaces_seq(g.aw))] } else { l3 }
}

/// A panel row: left panel, art, right panel, and the monitor line where
/// it fits.
pub open spec fn classic_panel_line(g: ClassicGeom, cfg: Config, tw: nat, shift: nat, k: int, i: int) -> Seq<SegView> {
    let l4 = classic_mid_part(g, cfg, shift, k, i);
    let l5 = if k < g.right.len() {
        pad_segs(l4, sat_sub(tw as int, cfg.panel.right_pad + shift + g.right_w) as nat) + g.right[k]
    } else {
        l4
    };
    if k < g.mon.len() && segs_width(l5) + 2 + segs_width(g.mon[k]) <= tw {
        l5 + seq![sp(spaces_seq(2))] + g.mon[k]
    } else {
        l5
    }
}

/// Row `i` of the classic scene, its panel row shifted right by `shift`.
pub open spec fn classic_row(g: ClassicGeom, cfg: Config, tw: nat, shift: nat, i: int) -> Seq<SegView> {
    let lh = g.art.len();
    let in_range = lh == 0 || (g.start <= i && i < g.start + g.n);
    let k = if lh > 0 { sat_sub(i, g.start as int) } else { i };
    let line = if in_range {
        classic_panel_line(g, cfg, tw, shift, k, i)
    } else {
        (if g.origin > 0 { seq![sp(spaces_seq(g.origin))] } else { Seq::empty() }) + row_at(g.art, i)
    };
    pad_segs(line, tw)
}

/// Shift of row `i` of the classic scene (panel row shifts; 0 elsewhere).
pub open spec fn classic_shift(g: ClassicGeom, shifts: Seq<usize>, i: int) -> nat {
    let k = if g.art.len() > 0 { sat_sub(i, g.start as int) } else { i };
    if 0 <= k < g.n && (g.art.len() == 0 || (g.start <= i && i < g.start + g.n)) { shifts[k] as nat } else { 0 }
}

/// The title line of the classic scene (none for an empty title).
pub open spec fn classic_title(cfg: Config, info: SysInfo, tw: nat) -> Seq<Seq<SegView>> {
    let t = crate::render::title_text_seq(cfg, info);
    if t.len() > 0 {
        seq![pad_segs(seq![sp(spaces_seq(2)), (t, Some(crate::render::title_color(cfg)), None, true)], tw)]
    } else {
        Seq::empty()
    }
}

/// The separator line of the classic scene (none when it would be empty).
pub open spec fn classic_separator(cfg: Config, tw: nat) -> Seq<Seq<SegView>> {
    let n = if cfg.separator.length < sat_sub(tw as int, 4) { cfg.separator.length as int } else { sat_sub(tw as int, 4) };
    if n > 0 {
        seq![pad_segs(seq![sp(spaces_seq(2)), with_fg(sp(crate::render::separator_text(cfg, tw)), crate::render::separator_color(cfg))], tw)]
    } else {
        Seq::empty()
    }
}

/// The classic scene: title and separator, then the art centred with the
/// system panels on both sides, panel row `k` shifted right by `shifts[k]`,
/// and monitor lines after the right panels where they fit.
pub open spec fn classic_spec(cs: Seq<&dyn Component>, info: SysInfo, cfg: Config, tw: usize, pal: Seq<Color>, shifts: Seq<usize>) -> Seq<Seq<SegView>> {
    let g = classic_geom(cs, info, cfg, tw, pal);
    classic_title(cfg, info, tw as nat) + classic_separator(cfg, tw as nat) + Seq::new(
        g.total,
        |i: int| classic_row(g, cfg, tw as nat, classic_shift(g, shifts, i), i),
    )
}

/// The classic scene needs a shift for every panel row, none beyond
/// `max_shift`.
pub open spec fn classic_shifts_ok(cs: Seq<&dyn Component>, info: SysInfo, cfg: Config, tw: usize, pal: Seq<Color>, shifts: Seq<usize>) -> bool {
    let g = classic_geom(cs, info, cfg, tw, pal);
    &&& shifts.len() >= g.n
    &&& forall|k: int| 0 <= k < g.n ==> #[trigger] shifts[k] <= cfg.panel.max_shift
}

/// Widest line of `lines` (see `width_cap`).
fn widest_line(lines: &Vec<Vec<StyledSpan>>) -> (r: usize)
    ensures
        r as nat == max_line_cap(rows_view(lines@)),
{
    let mut m: usize = 0;
    let mut i: usize = 0;
    while i < lines.len()
        invariant
            i <= lines@.len(),
            m as nat == max_line_cap(rows_view(lines@).take(i as int)),
        decreases lines@.len() - i,
    {
        proof {
            assert(rows_view(lines@).take(i + 1).drop_last() =~= rows_view(lines@).take(i as int));
        }
        let w = line_width_capped(&lines[i], usize::MAX);
        if m < w {
            m = w;
        }
        i += 1;
    }
    proof {
        assert(rows_view(lines@).take(lines@.len() as int) =~= rows_view(lines@));
    }
    m
}

/// Art rows and width from the component called `"ascii"`.
fn classic_art_of(components: &[&dyn Component], ctx: &RenderCtx) -> (r: (Vec<Vec<StyledSpan>>, usize))
    requires
        ctx_ok(*ctx.cfg, ctx.term_width, ctx.palette@),
    ensures
        (rows_view(r.0@), r.1 as nat) == classic_art(components@, *ctx.info, *ctx.cfg, ctx.term_width, ctx.palette@),
{
    match find_component(components, "ascii") {
        Some(i) => components[i].render_colored_lines(ctx),
        None => {
            let v: Vec<Vec<StyledSpan>> = Vec::new();
            proof {
                assert(rows_view(v@) =~= Seq::<Seq<SegView>>::empty());
            }
            (v, 0)
        },
    }
}

/// One side's panel rows from the component called `"system"`.
fn classic_side_of(components: &[&dyn Component], ctx: &RenderCtx, left: bool, avail: usize) -> (r: Vec<Vec<StyledSpan>>)
    requires
        ctx_ok(*ctx.cfg, ctx.term_width, ctx.palette@),
    ensures
        rows_view(r@) == classic_side(components@, *ctx.info, *ctx.cfg, ctx.term_width, ctx.palette@, left, avail),
{
    match find_component(components, "system") {
        Some(i) => components[i].render_side_styled(ctx, left, avail),
        None => {
            let v: Vec<Vec<StyledSpan>> = Vec::new();
            proof {
                assert(rows_view(v@) =~= Seq::<Seq<SegView>>::empty());
            }
            v
        },
    }
}

/// The left part of a panel row.
fn classic_left_exec(cfg: &Config, left: &Vec<Vec<StyledSpan>>, left_w: usize, shift: usize, k: usize, Ghost(g): Ghost<ClassicGeom>) -> (r: Vec<StyledSpan>)
    requires
        g.left == rows_view(left@),
        g.left_w == left_w,
        desk_sizes_ok(cfg.panel, 0),
        shift <= cfg.panel.max_shift,
    ensures
        spans_view(r@) == classic_left_part(g, *cfg, shift as nat, k as int),
{
    let mut line: Vec<StyledSpan> = Vec::new();
    line.push(StyledSpan::new(spaces(cfg.panel.left_pad + shift)));
    let ghost l0 = spans_view(line@);
    proof {
        assert(l0 =~= seq![sp(spaces_seq((cfg.panel.left_pad + shift) as nat))]);
    }
    if k < left.len() {
        let src = row_or_empty(left, k);
        let cw = line_width_capped(&src, usize::MAX);
        if cw < left_w {
            line.push(StyledSpan::new(spaces(left_w - cw)));
        }
        let ghost l1 = spans_view(line@);
        proof {
            assert(l1 =~= l0 + (if cw < left_w { seq![sp(spaces_seq((left_w - cw) as nat))] } else { Seq::<SegView>::empty() }));
        }
        extend_line(&mut line, src);
    } else {
        line.push(StyledSpan::new(spaces(if left_w < 1 { 1 } else { left_w })));
        proof {
            assert(spans_view(line@) =~= l0 + seq![sp(spaces_seq(if left_w < 1 { 1 } else { left_w as nat }))]);
        }
    }
    line
}

/// A panel row up to the end of the art.
fn classic_mid_exec(
    cfg: &Config,
    art: &Vec<Vec<StyledSpan>>,
    aw: usize,
    origin: usize,
    left: &Vec<Vec<StyledSpan>>,
    left_w: usize,
    shift: usize,
    k: usize,
    i: usize,
    Ghost(g): Ghost<ClassicGeom>,
) -> (r: Vec<StyledSpan>)
    requires
        g.art == rows_view(art@),
        g.aw == aw,
        g.origin == origin,
        g.left == rows_view(left@),
        g.left_w == left_w,
        desk_sizes_ok(cfg.panel, 0),
        shift <= cfg.panel.max_shift,
    ensures
        spans_view(r@) == classic_mid_part(g, *cfg, shift as nat, k as int, i as int),
{
    let gap = if cfg.panel.gap < 1 { 1 } else { cfg.panel.gap };
    let mut line = classic_left_exec(cfg, left, left_w, shift, k, Ghost(g));
    let target = if origin > gap { origin - gap } else { 0 };
    pad_line(&mut line, target);
    let ghost l2 = spans_view(line@);
    if aw > 0 {
        line.push(StyledSpan::new(spaces(gap)));
    }
    let ghost l3 = spans_view(line@);
    proof {
        assert(l3 =~= if aw > 0 { l2 + seq![sp(spaces_seq(gap as nat))] } else { l2 });
    }
    if i < art.len() {
        let al = row_or_empty(art, i);
        extend_line(&mut line, al);
    } else if aw > 0 {
        line.push(StyledSpan::new(spaces(aw)));
        proof {
            assert(spans_view(line@) =~= l3 + seq![sp(spaces_seq(aw as nat))]);
        }
    }
    line
}

/// A panel row of the classic scene.
fn classic_panel_exec(
    cfg: &Config,
    art: &Vec<Vec<StyledSpan>>,
    aw: usize,
    origin: usize,
    left: &Vec<Vec<StyledSpan>>,
    right: &Vec<Vec<StyledSpan>>,
    left_w: usize,
    right_w: usize,
    mon: &Vec<Vec<StyledSpan>>,
    tw: usize,
    shift: usize,
    k: usize,
    i: usize,
    Ghost(g): Ghost<ClassicGeom>,
) -> (r: Vec<StyledSpan>)
    requires
        g.art == rows_view(art@),
        g.aw == aw,
        g.origin == origin,
        g.left == rows_view(left@),
        g.right == rows_view(right@),
        g.left_w == left_w,
        g.right_w == right_w,
        g.mon == rows_view(mon@),
        desk_sizes_ok(cfg.panel, tw as nat),
        shift <= cfg.panel.max_shift,
    ensures
        spans_view(r@) == classic_panel_line(g, *cfg, tw as nat, shift as nat, k as int, i as int),
{
    let mut line = classic_mid_exec(cfg, art, aw, origin, left, left_w, shift, k, i, Ghost(g));
    if k < right.len() {
        let rt = crate::render::sat_sub_wide(tw, (cfg.panel.right_pad as u128) + (shift as u128) + (right_w as u128));
        pad_line(&mut line, rt);
        let rl = row_or_empty(right, k);
        extend_line(&mut line, rl);
    }
    let ghost l5 = spans_view(line@);
    if k < mon.len() {
        let cur = line_width_capped(&line, tw + 1);
        let ml = row_or_empty(mon, k);
        let mw = line_width_capped(&ml, tw + 1);
        if (cur as u128) + 2 + (mw as u128) <= (tw as u128) {
            line.push(StyledSpan::new(spaces(2)));
            let ghost l6 = spans_view(line@);
            proof {
                assert(l6 =~= l5 + seq![sp(spaces_seq(2))]);
            }
            extend_line(&mut line, ml);
        }
    }
    line
}

/// Row `i` of the classic scene.
fn classic_row_exec(
    cfg: &Config,
    art: &Vec<Vec<StyledSpan>>,
    aw: usize,
    origin: usize,
    left: &Vec<Vec<StyledSpan>>,
    right: &Vec<Vec<StyledSpan>>,
    left_w: usize,
    right_w: usize,
    mon: &Vec<Vec<StyledSpan>>,
    n: usize,
    start: usize,
    tw: usize,
    shift: usize,
    i: usize,
    Ghost(g): Ghost<ClassicGeom>,
) -> (r: Vec<StyledSpan>)
    requires
        g.art == rows_view(art@),
        g.aw == aw,
        g.origin == origin,
        g.left == rows_view(left@),
        g.right == rows_view(right@),
        g.left_w == left_w,
        g.right_w == right_w,
        g.mon == rows_view(mon@),
        g.n == n,
        g.start == start,
        desk_sizes_ok(cfg.panel, tw as nat),
        shift <= cfg.panel.max_shift,
    ensures
        spans_view(r@) == classic_row(g, *cfg, tw as nat, shift as nat, i as int),
{
    let lh = art.len();
    let in_range = lh == 0 || (start <= i && i - start < n);
    let k = if lh > 0 { if i > start { i - start } else { 0 } } else { i };
    let mut line: Vec<StyledSpan> = if in_range {
        classic_panel_exec(cfg, art, aw, origin, left, right, left_w, right_w, mon, tw, shift, k, i, Ghost(g))
    } else {
        let mut l: Vec<StyledSpan> = Vec::new();
        if origin > 0 {
            l.push(StyledSpan::new(spaces(origin)));
        }
        proof {
            assert(spans_view(l@) =~= (if origin > 0 { seq![sp(spaces_seq(origin as nat))] } else { Seq::<SegView>::empty() }));
        }
        let al = row_or_empty(art, i);
        extend_line(&mut l, al);
        l
    };
    pad_line(&mut line, tw);
    line
}

/// Draws the classic scene; panel row `k` is shifted right by `shifts[k]`
/// (the cascade offsets).
#[verifier::rlimit(60)]
pub fn render_classic(components: &[&dyn Component], ctx: &RenderCtx, shifts: &[usize]) -> (r: SceneOutput)
    requires
        ctx_ok(*ctx.cfg, ctx.term_width, ctx.palette@),
        classic_shifts_ok(components@, *ctx.info, *ctx.cfg, ctx.term_width, ctx.palette@, shifts@),
    ensures
        rows_view(r.lines@) == classic_spec(components@, *ctx.info, *ctx.cfg, ctx.term_width, ctx.palette@, shifts@),
{
    let tw = ctx.term_width;
    let cfg = ctx.cfg;
    let p = &cfg.panel;
    let ghost g = classic_geom(components@, *ctx.info, *cfg, tw, ctx.palette@);
    let (art, aw) = classic_art_of(components, ctx);
    let gap = if p.gap < 1 { 1 } else { p.gap };
    let origin = if aw > 0 && aw < tw { (tw - aw) / 2 } else { 0 };
    let la0 = crate::render::sat_sub_wide(origin, (p.left_pad as u128) + (p.max_shift as u128) + (gap as u128) + 1);
    let la = if la0 < 4 { 4 } else { la0 };
    let ra0 = crate::render::sat_sub_wide(tw, (origin as u128) + (aw as u128) + (gap as u128) + (p.right_pad as u128) + (p.max_shift as u128) + 1);
    let ra = if ra0 < 4 { 4 } else { ra0 };
    let left = classic_side_of(components, ctx, true, la);
    let right = classic_side_of(components, ctx, false, ra);
    let mon = styled_of(components, "monitor", ctx);
    let left_w = widest_line(&left);
    let right_w = widest_line(&right);
    let lh = art.len();
    let n0 = if left.len() < right.len() { right.len() } else { left.len() };
    let n = if n0 < mon.len() { mon.len() } else { n0 };
    let start = if lh > 0 { (if lh > n { lh - n } else { 0 }) / 2 } else { 0 };
    let total: usize = if lh == 0 { n } else if (lh as u128) < (start as u128) + (n as u128) { start + n } else { lh };
    proof {
        assert(g.art == rows_view(art@));
        assert(g.aw == aw);
        assert(g.left == rows_view(left@));
        assert(g.right == rows_view(right@));
        assert(g.total == total);
    }

    let mut all: Vec<Vec<StyledSpan>> = Vec::new();
    let tt = crate::render::title_text(cfg, ctx.info);
    if tt.unicode_len() > 0 {
        let tc = crate::render::title_color_of(cfg);
        let ghost tv = tt@;
        let mut l: Vec<StyledSpan> = Vec::new();
        l.push(StyledSpan::new(spaces(2)));
        l.push(StyledSpan { text: tt, fg: Some(tc), bg: None, bold: true });
        proof {
            assert(spans_view(l@) =~= seq![sp(spaces_seq(2)), (tv, Some(tc), None, true)]);
        }
        pad_line(&mut l, tw);
        push_row(&mut all, l);
        proof {
            assert(rows_view(all@) =~= classic_title(*cfg, *ctx.info, tw as nat));
        }
    } else {
        proof {
            assert(rows_view(all@) =~= classic_title(*cfg, *ctx.info, tw as nat));
        }
    }
    let ghost after_title = rows_view(all@);
    let sep = crate::render::separator_string(cfg, tw);
    let avail = if tw > 4 { tw - 4 } else { 0 };
    let sep_len = if cfg.separator.length < avail { cfg.separator.length } else { avail };
    if sep_len > 0 {
        let sc = crate::render::separator_color_of(cfg);
        let ghost sv = sep@;
        let mut l: Vec<StyledSpan> = Vec::new();
        l.push(StyledSpan::new(spaces(2)));
        l.push(StyledSpan::new(sep).fg(sc));
        proof {
            assert(spans_view(l@) =~= seq![sp(spaces_seq(2)), with_fg(sp(sv), sc)]);
        }
        pad_line(&mut l, tw);
        push_row(&mut all, l);
        proof {
            assert(rows_view(all@) =~= after_title + classic_separator(*cfg, tw as nat));
        }
    } else {
        proof {
            assert(rows_view(all@) =~= after_title + classic_separator(*cfg, tw as nat));
        }
    }
    let ghost head = rows_view(all@);
    let mut i: usize = 0;
    while i < total
        invariant
            i <= total,
            total == g.total,
            g.art == rows_view(art@),
            g.aw == aw,
            g.origin == origin,
            g.left == rows_view(left@),
            g.right == rows_view(right@),
            g.left_w == left_w,
            g.right_w == right_w,
            g.mon == rows_view(mon@),
            g.n == n,
            g.start == start,
            lh == art@.len(),
            origin <= tw,
            tw == ctx.term_width,
            desk_sizes_ok(cfg.panel, tw as nat),
            classic_shifts_ok(components@, *ctx.info, *cfg, tw, ctx.palette@, shifts@),
            g == classic_geom(components@, *ctx.info, *cfg, tw, ctx.palette@),
            rows_view(all@) == head + Seq::new(i as nat, |j: int| classic_row(g, *cfg, tw as nat, classic_shift(g, shifts@, j), j)),
        decreases total - i,
    {
        let k = if lh > 0 { if i > start { i - start } else { 0 } } else { i };
        let in_range = lh == 0 || (start <= i && i - start < n);
        let shift = if in_range && k < n { shifts[k] } else { 0 };
        let line = classic_row_exec(cfg, &art, aw, origin, &left, &right, left_w, right_w, &mon, n, start, tw, shift, i, Ghost(g));
        push_row(&mut all, line);
        proof {
            assert(shift as nat == classic_shift(g, shifts@, i as int));
            assert(rows_view(all@) =~= head + Seq::new((i + 1) as nat, |j: int| classic_row(g, *cfg, tw as nat, classic_shift(g, shifts@, j), j)));
        }
        i += 1;
    }
    proof {
        assert(rows_view(all@) =~= classic_spec(components@, *ctx.info, *cfg, tw, ctx.palette@, shifts@));
    }
    SceneOutput { lines: all }
}

/// Draws a scene. The classic scene shifts panel row `k` right by
/// `shifts[k]`; the other scenes do not use `shifts`.
pub fn render_scene(scene: Scene, components: &[&dyn Component], ctx: &RenderCtx, shifts: &[usize]) -> (r: SceneOutput)
    requires
        ctx_ok(*ctx.cfg, ctx.term_width, ctx.palette@),
        scene == Scene::Classic ==> classic_shifts_ok(components@, *ctx.info, *ctx.cfg, ctx.term_width, ctx.palette@, shifts@),
    ensures
        rows_view(r.lines@) == scene_spec(scene, components@, *ctx.info, *ctx.cfg, ctx.term_width, ctx.palette@, shifts@),
{
    match scene {
        Scene::Classic => render_classic(components, ctx, shifts),
        Scene::Dashboard => render_dashboard(components, ctx),
        Scene::Cockpit => render_cockpit(components, ctx),
        Scene::ClassicFetch => render_classicfetch(components, ctx),
    }
}

/// What a scene draws.
pub open spec fn scene_spec(scene: Scene, cs: Seq<&dyn Component>, info: SysInfo, cfg: Config, tw: usize, pal: Seq<Color>, shifts: Seq<usize>) -> Seq<Seq<SegView>> {
    match scene {
        Scene::Classic => classic_spec(cs, info, cfg, tw, pal, shifts),
        Scene::Dashboard => dashboard_spec(cs, info, cfg, tw, pal),
        Scene::Cockpit => cockpit_spec(cs, info, cfg, tw, pal),
        Scene::ClassicFetch => classicfetch_spec(cs, info, cfg, tw, pal),
    }
}

/// Draws a scene as ANSI text.
pub fn render_scene_ansi(scene: Scene, components: &[&dyn Component], ctx: &RenderCtx, shifts: &[usize]) -> (r: String)
    requires
        ctx_ok(*ctx.cfg, ctx.term_width, ctx.palette@),
        scene == Scene::Classic ==> classic_shifts_ok(components@, *ctx.info, *ctx.cfg, ctx.term_width, ctx.palette@, shifts@),
    ensures
        r@ == lines_ansi(scene_spec(scene, components@, *ctx.info, *ctx.cfg, ctx.term_width, ctx.palette@, shifts@)),
{
    let out = render_scene(scene, components, ctx, shifts);
    spans_to_ansi(&out.lines)
}


/// The ANSI text of a scene (what `render_scene_ansi` returns) shows, with
/// its escape sequences stripped, the texts of the scene's styled lines
/// (what `render_scene` returns), one line break after each, when no span
/// text holds an escape character.
pub proof fn scene_ansi_shows_scene_text(scene: Scene, cs: Seq<&dyn Component>, info: SysInfo, cfg: Config, tw: usize, pal: Seq<Color>, shifts: Seq<usize>)
    requires
        crate::render::texts_plain(scene_spec(scene, cs, info, cfg, tw, pal, shifts)),
    ensures
        crate::text::strip_ansi_seq(lines_ansi(scene_spec(scene, cs, info, cfg, tw, pal, shifts)))
            == crate::render::lines_plain(scene_spec(scene, cs, info, cfg, tw, pal, shifts)),
{
    crate::render::ansi_strips_to_text(scene_spec(scene, cs, info, cfg, tw, pal, shifts));
}

} // verus!

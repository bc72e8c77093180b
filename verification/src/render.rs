//! Styled text and the ANSI renderers for desktop and phone terminals.
use vstd::prelude::*;
use crate::config::{Config, FieldDef, PanelConfig};
use crate::info::SysInfo;
use crate::strs::{replace, replace_seq};
use crate::text::{
    chars_of, count_leading_blanks, esc, is_blank, leading_blanks, lines, lines_seq, skip_chars, skip_seq, str_eq, push_char, push_str, repeat_seq, repeat_str, spaces, spaces_seq, strip_ansi_seq, strip_state, trim_seq,
    to_string, trim_end, trim_end_seq, views,
};
use crate::theme::{bg_escape_seq, fg_escape_seq, hex_slicing_panics, parse_hex_color, Color};
use crate::widget::{field_output, panel_colors_ok, push_reset, render_field, reset_seq, sat_sub, RenderCtx};
use crate::width::{char_cols, char_cols_of, str_width, str_width_of};

verus! {

/// A run of text with one style.
pub struct StyledSegment {
    pub text: String,
    pub fg: Option<Color>,
    pub bg: Option<Color>,
    pub bold: bool,
}

/// A line of styled segments.
pub struct StyledLine {
    pub segments: Vec<StyledSegment>,
}

/// Text and style of a segment.
pub type SegView = (Seq<char>, Option<Color>, Option<Color>, bool);

/// An unbolded segment with no background.
pub open spec fn seg_view(text: Seq<char>, fg: Option<Color>) -> SegView {
    (text, fg, None, false)
}

impl View for StyledSegment {
    type V = SegView;

    open spec fn view(&self) -> SegView {
        (self.text@, self.fg, self.bg, self.bold)
    }
}

/// Views of a list of segments.
pub open spec fn segs_view(s: Seq<StyledSegment>) -> Seq<SegView> {
    s.map_values(|x: StyledSegment| x@)
}

/// An unbolded segment with no background.
pub fn segment(text: String, fg: Option<Color>) -> (r: StyledSegment)
    ensures
        r@ == seg_view(text@, fg),
{
    StyledSegment { text, fg, bg: None, bold: false }
}


// ── Shared spec pieces ───────────────────────────────────────────────────

/// `ESC [1m` (bold).
pub open spec fn bold_seq() -> Seq<char> {
    seq![esc(), '\u{5b}', '1', 'm']
}

/// The widest of `lines`, in columns.
pub open spec fn max_width_seq(lines: Seq<Seq<char>>) -> nat
    decreases lines.len(),
{
    if lines.len() == 0 {
        0
    } else {
        let a = max_width_seq(lines.drop_last());
        let b = str_width_of(lines.last());
        if a < b { b } else { a }
    }
}

/// Each line without trailing white space.
pub open spec fn trim_ends(lines: Seq<Seq<char>>) -> Seq<Seq<char>> {
    lines.map_values(|l: Seq<char>| trim_end_seq(l))
}

/// `format!("{:w$}", s)`: `s` followed by blanks up to `w` characters.
pub open spec fn pad_chars(s: Seq<char>, w: nat) -> Seq<char> {
    if s.len() < w { s + spaces_seq((w - s.len()) as nat) } else { s }
}

/// Each non-blank character of `s` preceded by the escape of `c`; blanks
/// stay plain.
pub open spec fn colorize_seq(s: Seq<char>, c: Color) -> Seq<char>
    decreases s.len(),
{
    if s.len() == 0 {
        Seq::empty()
    } else {
        colorize_seq(s.drop_last(), c) + if s.last() != ' ' {
            fg_escape_seq(c).push(s.last())
        } else {
            seq![' ']
        }
    }
}

/// Visible columns of ANSI text.
pub open spec fn visible_width_seq(s: Seq<char>) -> nat {
    str_width_of(strip_ansi_seq(s))
}

/// State of the width-limited copy: text kept, columns used, whether an
/// escape sequence is open, the open sequence, and whether the limit was hit.
pub type TrimState = (Seq<char>, nat, bool, Seq<char>, bool);

/// Width-limited copy over `s`: visible characters are kept while they
/// fit; from the first one that does not fit on, visible characters are
/// dropped, but every complete escape sequence is still kept.
pub open spec fn trim_width_state(s: Seq<char>, max: nat) -> TrimState
    decreases s.len(),
{
    if s.len() == 0 {
        (Seq::empty(), 0, false, Seq::empty(), false)
    } else {
        let st = trim_width_state(s.drop_last(), max);
        let c = s.last();
        let (out, vis, in_esc, buf, done) = st;
        if in_esc {
            if c == 'm' {
                (out + buf.push(c), vis, false, Seq::empty(), done)
            } else {
                (out, vis, true, buf.push(c), done)
            }
        } else if c == esc() {
            (out, vis, true, seq![c], done)
        } else if done || vis + char_cols(c) > max {
            (out, vis, false, buf, true)
        } else {
            (out.push(c), vis + char_cols(c), false, buf, false)
        }
    }
}

/// ANSI text cut to `max` visible columns: the visible characters up to the
/// first that does not fit, every complete escape sequence (also those past
/// the cut), and an unfinished one at the end.
pub open spec fn trim_to_width_seq(s: Seq<char>, max: nat) -> Seq<char> {
    let (out, vis, in_esc, buf, done) = trim_width_state(s, max);
    if in_esc { out + buf } else { out }
}

/// Enabled entries of a field list, in order.
pub open spec fn enabled_fields(s: Seq<FieldDef>) -> Seq<FieldDef>
    decreases s.len(),
{
    if s.len() == 0 {
        Seq::empty()
    } else {
        let e = enabled_fields(s.drop_last());
        if s.last().enabled { e.push(s.last()) } else { e }
    }
}

/// Palette colour `k` (cycling), or white for an empty palette.
pub open spec fn palette_at(colors: Seq<Color>, k: nat) -> Color {
    if colors.len() > 0 { colors[(k % colors.len()) as int] } else { Color { r: 255, g: 255, b: 255 } }
}

/// Title text with `{user}` and `{host}` filled in.
pub open spec fn title_text_seq(cfg: Config, info: SysInfo) -> Seq<char> {
    replace_seq(replace_seq(cfg.title.format@, "{user}"@, info.user@), "{host}"@, info.host@)
}

/// Title colour (a soft red when the configured one does not parse).
pub open spec fn title_color(cfg: Config) -> Color {
    match parse_hex_color(cfg.title.color@) {
        Some(c) => c,
        None => Color { r: 255, g: 154, b: 152 },
    }
}

/// Separator colour (a lavender when the configured one does not parse).
pub open spec fn separator_color(cfg: Config) -> Color {
    match parse_hex_color(cfg.separator.color@) {
        Some(c) => c,
        None => Color { r: 157, g: 133, b: 255 },
    }
}

/// Separator text: the configured string repeated up to the configured
/// length, but at most four less than the terminal width.
pub open spec fn separator_text(cfg: Config, tw: nat) -> Seq<char> {
    let n = if cfg.separator.length < sat_sub(tw as int, 4) { cfg.separator.length as int } else { sat_sub(tw as int, 4) };
    repeat_seq(cfg.separator.char@, n as nat)
}

/// Blank line, then the coloured bold title.
pub open spec fn title_block(cfg: Config, info: SysInfo) -> Seq<char> {
    seq!['\n'] + fg_escape_seq(title_color(cfg)) + seq![' ', ' '] + bold_seq() + title_text_seq(cfg, info) + reset_seq() + reset_seq() + seq!['\n']
}

/// The coloured separator line.
pub open spec fn separator_block(cfg: Config, tw: nat) -> Seq<char> {
    fg_escape_seq(separator_color(cfg)) + seq![' ', ' '] + separator_text(cfg, tw) + reset_seq() + reset_seq() + seq!['\n']
}

/// All colours of a configuration can be read without panicking.
pub open spec fn config_colors_ok(cfg: Config) -> bool {
    &&& panel_colors_ok(cfg.panel)
    &&& !hex_slicing_panics(cfg.title.color@)
    &&& !hex_slicing_panics(cfg.separator.color@)
}

// ── Shared exec pieces ───────────────────────────────────────────────────

/// The widest line, in columns.
pub fn max_line_width(lines: &Vec<String>) -> (r: usize)
    ensures
        r == max_width_seq(views(lines@)),
{
    let mut m: usize = 0;
    let mut i: usize = 0;
    while i < lines.len()
        invariant
            i <= lines@.len(),
            m == max_width_seq(views(lines@).take(i as int)),
        decreases lines@.len() - i,
    {
        proof {
            assert(views(lines@).take(i + 1).drop_last() =~= views(lines@).take(i as int));
            assert(views(lines@).take(i + 1).last() == lines@[i as int]@);
        }
        let w = str_width(lines[i].as_str());
        if m < w {
            m = w;
        }
        i += 1;
    }
    proof {
        assert(views(lines@).take(lines@.len() as int) =~= views(lines@));
    }
    m
}

/// Each line without trailing white space.
pub fn trim_line_ends(lines: &Vec<String>) -> (r: Vec<String>)
    ensures
        views(r@) == trim_ends(views(lines@)),
{
    let mut out: Vec<String> = Vec::new();
    let mut i: usize = 0;
    while i < lines.len()
        invariant
            i <= lines@.len(),
            views(out@) == trim_ends(views(lines@)).take(i as int),
        decreases lines@.len() - i,
    {
        let t = trim_end(lines[i].as_str());
        let ghost before = out@;
        out.push(t);
        proof {
            assert(views(out@) =~= views(before).push(t@));
            assert(trim_ends(views(lines@)).take(i + 1) =~= trim_ends(views(lines@)).take(i as int).push(
                trim_end_seq(lines@[i as int]@),
            ));
        }
        i += 1;
    }
    proof {
        assert(trim_ends(views(lines@)).take(lines@.len() as int) =~= trim_ends(views(lines@)));
    }
    out
}

/// `format!("{:w$}", s)`.
pub fn pad_to_chars(s: &str, w: usize) -> (r: String)
    ensures
        r@ == pad_chars(s@, w as nat),
{
    let n = s.unicode_len();
    let mut r = to_string(s);
    if n < w {
        let p = spaces(w - n);
        push_str(&mut r, &p);
    }
    r
}

/// Appends `colorize_seq(s, c)`.
pub fn push_colorized(out: &mut String, s: &str, c: Color)
    ensures
        final(out)@ == old(out)@ + colorize_seq(s@, c),
{
    let esc_c = c.fg_escape();
    let ghost o0 = out@;
    for ch in it: s.chars()
        invariant
            it.seq() == s@,
            esc_c@ == fg_escape_seq(c),
            out@ == o0 + colorize_seq(s@.take(it.index() as int), c),
    {
        let ghost i = it.index();
        proof {
            assert(s@.take(i + 1).drop_last() =~= s@.take(i as int));
        }
        if ch != ' ' {
            push_str(out, &esc_c);
            push_char(out, ch);
        } else {
            push_char(out, ' ');
        }
        proof {
            assert(out@ =~= o0 + colorize_seq(s@.take(i + 1), c));
        }
    }
    proof {
        assert(s@.take(s@.len() as int) =~= s@);
    }
}

/// The characters of `s` with every escape sequence removed.
pub fn strip_ansi(s: &str) -> (r: String)
    ensures
        r@ == strip_ansi_seq(s@),
{
    let mut out = String::new();
    let mut in_escape = false;
    for c in it: s.chars()
        invariant
            it.seq() == s@,
            (out@, in_escape) == strip_state(s@.take(it.index() as int)),
    {
        proof {
            assert(s@.take(it.index() + 1).drop_last() =~= s@.take(it.index() as int));
        }
        if in_escape {
            if c == 'm' {
                in_escape = false;
            }
        } else if c == '\x1b' {
            in_escape = true;
        } else {
            push_char(&mut out, c);
        }
    }
    proof {
        assert(s@.take(s@.len() as int) =~= s@);
    }
    out
}

/// Visible columns of ANSI text.
pub fn visible_width(s: &str) -> (r: usize)
    ensures
        r == visible_width_seq(s@),
{
    let plain = strip_ansi(s);
    str_width(&plain)
}

/// Cuts ANSI text to at most `max_width` visible columns.
pub fn trim_to_width(s: &str, max_width: usize) -> (r: String)
    ensures
        r@ == trim_to_width_seq(s@, max_width as nat),
{
    let mut out = String::new();
    let mut vis: usize = 0;
    let mut in_escape = false;
    let mut escape_buf = String::new();
    let mut done = false;
    for c in it: s.chars()
        invariant
            it.seq() == s@,
            vis <= max_width,
            (out@, vis as nat, in_escape, escape_buf@, done) == trim_width_state(s@.take(it.index() as int), max_width as nat),
    {
        proof {
            assert(s@.take(it.index() + 1).drop_last() =~= s@.take(it.index() as int));
        }
        if in_escape {
            push_char(&mut escape_buf, c);
            if c == 'm' {
                in_escape = false;
                push_str(&mut out, &escape_buf);
                escape_buf = String::new();
            }
        } else if c == '\x1b' {
            in_escape = true;
            escape_buf = String::new();
            push_char(&mut escape_buf, c);
            proof {
                assert(escape_buf@ =~= seq![c]);
            }
        } else if !done {
            let w = char_cols_of(c);
            if (vis as u128) + (w as u128) > (max_width as u128) {
                done = true;
            } else {
                vis = vis + w;
                push_char(&mut out, c);
            }
        }
    }
    proof {
        assert(s@.take(s@.len() as int) =~= s@);
    }
    if in_escape {
        push_str(&mut out, &escape_buf);
    }
    out
}

/// Enabled entries of a field list.
pub fn enabled_of(v: &Vec<FieldDef>) -> (r: Vec<&FieldDef>)
    ensures
        r@.map_values(|f: &FieldDef| *f) == enabled_fields(v@),
{
    let mut out: Vec<&FieldDef> = Vec::new();
    let mut i: usize = 0;
    while i < v.len()
        invariant
            i <= v@.len(),
            out@.map_values(|f: &FieldDef| *f) == enabled_fields(v@.take(i as int)),
        decreases v@.len() - i,
    {
        proof {
            assert(v@.take(i + 1).drop_last() =~= v@.take(i as int));
        }
        if v[i].enabled {
            let ghost before = out@;
            out.push(&v[i]);
            proof {
                assert(out@.map_values(|f: &FieldDef| *f) =~= before.map_values(|f: &FieldDef| *f).push(v@[i as int]));
            }
        }
        i += 1;
    }
    proof {
        assert(v@.take(v@.len() as int) =~= v@);
    }
    out
}

/// Palette colour `k` (cycling), or white.
pub fn palette_color(colors: &Vec<Color>, k: usize) -> (c: Color)
    ensures
        c == palette_at(colors@, k as nat),
{
    if colors.len() > 0 {
        colors[k % colors.len()]
    } else {
        Color::new(255, 255, 255)
    }
}

/// The title with `{user}` and `{host}` filled in.
pub fn title_text(cfg: &Config, info: &SysInfo) -> (r: String)
    ensures
        r@ == title_text_seq(*cfg, *info),
{
    proof {
        reveal_strlit("{user}");
        reveal_strlit("{host}");
    }
    let a = replace(cfg.title.format.as_str(), "{user}", info.user.as_str());
    replace(&a, "{host}", info.host.as_str())
}

/// The title colour.
pub fn title_color_of(cfg: &Config) -> (c: Color)
    requires
        config_colors_ok(*cfg),
    ensures
        c == title_color(*cfg),
{
    match Color::from_hex_opt(cfg.title.color.as_str()) {
        Some(c) => c,
        None => Color::new(255, 154, 152),
    }
}

/// The separator colour.
pub fn separator_color_of(cfg: &Config) -> (c: Color)
    requires
        config_colors_ok(*cfg),
    ensures
        c == separator_color(*cfg),
{
    match Color::from_hex_opt(cfg.separator.color.as_str()) {
        Some(c) => c,
        None => Color::new(157, 133, 255),
    }
}

/// Appends `ESC [1m`.
pub fn push_bold(s: &mut String)
    ensures
        final(s)@ == old(s)@ + bold_seq(),
{
    push_char(s, '\x1b');
    push_char(s, '\u{5b}');
    push_char(s, '1');
    push_char(s, 'm');
    proof {
        assert(final(s)@ =~= old(s)@ + bold_seq());
    }
}

/// Appends the title block.
pub fn push_title_block(out: &mut String, cfg: &Config, info: &SysInfo)
    requires
        config_colors_ok(*cfg),
    ensures
        final(out)@ == old(out)@ + title_block(*cfg, *info),
{
    let c = title_color_of(cfg);
    let t = title_text(cfg, info);
    push_char(out, '\n');
    let e = c.fg_escape();
    push_str(out, &e);
    push_char(out, ' ');
    push_char(out, ' ');
    push_bold(out);
    push_str(out, &t);
    push_reset(out);
    push_reset(out);
    push_char(out, '\n');
    proof {
        assert(final(out)@ =~= old(out)@ + title_block(*cfg, *info));
    }
}

/// The separator text for a terminal `tw` columns wide.
pub fn separator_string(cfg: &Config, tw: usize) -> (r: String)
    ensures
        r@ == separator_text(*cfg, tw as nat),
{
    let avail = if tw > 4 { tw - 4 } else { 0 };
    let n = if cfg.separator.length < avail { cfg.separator.length } else { avail };
    repeat_str(cfg.separator.char.as_str(), n)
}

/// Appends the separator block.
pub fn push_separator_block(out: &mut String, cfg: &Config, tw: usize)
    requires
        config_colors_ok(*cfg),
    ensures
        final(out)@ == old(out)@ + separator_block(*cfg, tw as nat),
{
    let c = separator_color_of(cfg);
    let t = separator_string(cfg, tw);
    let e = c.fg_escape();
    push_str(out, &e);
    push_char(out, ' ');
    push_char(out, ' ');
    push_str(out, &t);
    push_reset(out);
    push_reset(out);
    push_char(out, '\n');
    proof {
        assert(final(out)@ =~= old(out)@ + separator_block(*cfg, tw as nat));
    }
}


// ── Desktop renderer ─────────────────────────────────────────────────────

/// Number of panel rows: the longer of the two enabled field lists.
pub open spec fn panel_row_count(cfg: Config) -> nat {
    let l = enabled_fields(cfg.display.left@).len();
    let r = enabled_fields(cfg.display.right@).len();
    if l < r { r } else { l }
}

/// The art lines kept on a terminal `tw` columns wide: all of them when the
/// centred art leaves room for panels on both sides, none otherwise.
pub open spec fn fitted_logo(lines: Seq<Seq<char>>, panel: PanelConfig, tw: nat) -> Seq<Seq<char>> {
    if lines.len() == 0 {
        lines
    } else {
        let lw = max_width_seq(lines);
        let origin = sat_sub(tw as int, lw as int) / 2;
        if origin < panel.left_pad + panel.gap + 8 || tw < origin + lw + panel.gap + panel.right_pad
            + panel.max_shift + 8 {
            Seq::empty()
        } else {
            lines
        }
    }
}

/// Column where art `lw` columns wide starts when centred.
pub open spec fn logo_origin(lh: nat, lw: nat, tw: nat) -> nat {
    if lh > 0 && lw < tw { ((tw - lw) / 2) as nat } else { 0 }
}

/// One art line without trailing white space, padded to `lw` characters,
/// each non-blank character in colour `c`.
pub open spec fn logo_cells(line: Seq<char>, lw: nat, c: Color) -> Seq<char> {
    colorize_seq(pad_chars(trim_end_seq(line), lw), c)
}

/// A row brought to `tw` visible columns: cut when wider, padded with
/// blanks when narrower.
pub open spec fn fit_row(row: Seq<char>, tw: nat) -> Seq<char> {
    let rv = visible_width_seq(row);
    if rv > tw {
        trim_to_width_seq(row, tw)
    } else if rv < tw {
        row + spaces_seq((tw - rv) as nat)
    } else {
        row
    }
}

/// A row padded with blanks to at least `tw` visible columns.
pub open spec fn pad_row(row: Seq<char>, tw: nat) -> Seq<char> {
    let rv = visible_width_seq(row);
    if rv < tw { row + spaces_seq((tw - rv) as nat) } else { row }
}

/// A row followed by a reset and a line break.
pub open spec fn end_line(row: Seq<char>) -> Seq<char> {
    row + reset_seq() + seq!['\n']
}

/// `a`, but at least 4.
pub open spec fn at_least4(a: int) -> int {
    if a < 4 { 4 } else { a }
}

/// Text and visible width of the panel for entry `idx` of `defs`, or
/// nothing when the list is shorter.
pub open spec fn panel_text(defs: Seq<FieldDef>, idx: nat, info: SysInfo, panel: PanelConfig, avail: int, c: Color) -> (Seq<char>, nat) {
    if idx < defs.len() {
        let o = field_output(defs[idx as int], info, panel, avail as usize, c);
        (o.0, o.2)
    } else {
        (Seq::empty(), 0)
    }
}

/// Desktop row `i` that carries panel row `idx`, shifted right by `shift`.
pub open spec fn desk_panel_row(cfg: Config, info: SysInfo, logo: Seq<Seq<char>>, lw: nat, origin: nat, tw: nat, idx: nat, shift: nat, i: nat) -> Seq<char> {
    end_line(fit_row(desk_panel_line(cfg, info, logo, lw, origin, tw, idx, shift, i), tw))
}

/// Desktop row `i` that carries panel row `idx`, before it is brought to
/// the screen width: left panel, art line `i`, right panel.
pub open spec fn desk_panel_line(cfg: Config, info: SysInfo, logo: Seq<Seq<char>>, lw: nat, origin: nat, tw: nat, idx: nat, shift: nat, i: nat) -> Seq<char> {
    let p = cfg.panel;
    let colors = cfg.logo.colors@;
    let left = enabled_fields(cfg.display.left@);
    let right = enabled_fields(cfg.display.right@);
    let lp = panel_text(left, idx, info, p, at_least4(sat_sub(origin as int, p.left_pad + shift + p.gap)), palette_at(colors, idx));
    let rp = panel_text(right, idx, info, p, at_least4(sat_sub(tw as int, origin + lw + p.gap + p.right_pad + p.max_shift)), palette_at(colors, idx + 3));
    let row0 = spaces_seq((p.left_pad + shift) as nat) + lp.0 + spaces_seq(sat_sub(origin as int, p.left_pad + shift + lp.1 + p.gap) as nat)
        + spaces_seq(p.gap as nat);
    let row1 = if i < logo.len() { row0 + logo_cells(logo[i as int], lw, palette_at(colors, i)) } else { row0 };
    if trim_seq(rp.0).len() > 0 {
        row1 + spaces_seq(sat_sub(sat_sub(tw as int, p.right_pad + shift), (rp.1 + visible_width_seq(row1)) as int) as nat) + rp.0
    } else {
        row1
    }
}

/// Art line `i` as the desktop draws it: trimmed at the end, padded to
/// `lw` columns, its non-blank characters in palette colour `i`.
pub open spec fn shown_art_line(cfg: Config, logo: Seq<Seq<char>>, lw: nat, i: nat) -> Seq<char> {
    colorize_seq(pad_chars(trim_end_seq(logo[i as int]), lw), palette_at(cfg.logo.colors@, i))
}

/// Whether desktop row `i` fits the screen before it is brought to the
/// screen width (a row that carries panels and is wider gets cut).
pub open spec fn desk_row_fits(cfg: Config, info: SysInfo, logo: Seq<Seq<char>>, lw: nat, origin: nat, tw: nat, shifts: Seq<usize>, n: nat, i: nat) -> bool {
    let start = panel_start(logo.len(), n);
    (start <= i && i < start + n) ==> visible_width_seq(
        desk_panel_line(cfg, info, logo, lw, origin, tw, (i - start) as nat, shifts[i - start] as nat, i),
    ) <= tw
}

/// The desktop output draws the art intact: every row `i` within the art
/// holds art line `i` (trimmed, padded and coloured), whether or not it
/// carries panels, unless the row is too wide for the screen and is cut.
pub proof fn desk_rows_show_art_in_order(cfg: Config, info: SysInfo, logo: Seq<Seq<char>>, lw: nat, origin: nat, tw: nat, shifts: Seq<usize>, n: nat, i: nat)
    requires
        i < logo.len(),
        desk_row_fits(cfg, info, logo, lw, origin, tw, shifts, n, i),
    ensures
        exists|k: int| 0 <= k && k + shown_art_line(cfg, logo, lw, i).len() <= desk_row(cfg, info, logo, lw, origin, tw, shifts, n, i).len()
            && #[trigger] desk_row(cfg, info, logo, lw, origin, tw, shifts, n, i).subrange(k, k + shown_art_line(cfg, logo, lw, i).len())
            == shown_art_line(cfg, logo, lw, i),
{
    let cells = shown_art_line(cfg, logo, lw, i);
    let row = desk_row(cfg, info, logo, lw, origin, tw, shifts, n, i);
    let start = panel_start(logo.len(), n);
    if start <= i && i < start + n {
        let idx = (i - start) as nat;
        let shift = shifts[idx as int] as nat;
        let p = cfg.panel;
        let colors = cfg.logo.colors@;
        let left = enabled_fields(cfg.display.left@);
        let lp = panel_text(left, idx, info, p, at_least4(sat_sub(origin as int, p.left_pad + shift + p.gap)), palette_at(colors, idx));
        let row0 = spaces_seq((p.left_pad + shift) as nat) + lp.0 + spaces_seq(sat_sub(origin as int, p.left_pad + shift + lp.1 + p.gap) as nat)
            + spaces_seq(p.gap as nat);
        let line = desk_panel_line(cfg, info, logo, lw, origin, tw, idx, shift, i);
        let k = row0.len() as int;
        assert(line.subrange(k, k + cells.len()) =~= cells);
        assert(row.subrange(k, k + cells.len()) =~= line.subrange(k, k + cells.len()));
        assert(row.subrange(k, k + cells.len()) == cells);
    } else {
        let k = origin as int;
        assert(row.subrange(k, k + cells.len()) =~= cells);
    }
}

/// Desktop row `i` outside the panel rows: the centred art line alone.
pub open spec fn desk_art_row(cfg: Config, logo: Seq<Seq<char>>, lw: nat, origin: nat, tw: nat, i: nat) -> Seq<char> {
    end_line(pad_row(spaces_seq(origin) + logo_cells(logo[i as int], lw, palette_at(cfg.logo.colors@, i)), tw))
}

/// First row that carries panels: the panel block is centred on the art.
pub open spec fn panel_start(lh: nat, n: nat) -> nat {
    if lh > 0 { (sat_sub(lh as int, n as int) / 2) as nat } else { 0 }
}

/// Desktop row `i`.
pub open spec fn desk_row(cfg: Config, info: SysInfo, logo: Seq<Seq<char>>, lw: nat, origin: nat, tw: nat, shifts: Seq<usize>, n: nat, i: nat) -> Seq<char> {
    let lh = logo.len();
    let start = panel_start(lh, n);
    if lh == 0 {
        desk_panel_row(cfg, info, logo, lw, origin, tw, i, shifts[i as int] as nat, i)
    } else if start <= i && i < start + n {
        let idx = (i - start) as nat;
        desk_panel_row(cfg, info, logo, lw, origin, tw, idx, shifts[idx as int] as nat, i)
    } else {
        desk_art_row(cfg, logo, lw, origin, tw, i)
    }
}

/// Desktop rows `0..k`, concatenated.
pub open spec fn desk_rows(cfg: Config, info: SysInfo, logo: Seq<Seq<char>>, lw: nat, origin: nat, tw: nat, shifts: Seq<usize>, n: nat, k: nat) -> Seq<char>
    decreases k,
{
    if k == 0 {
        Seq::empty()
    } else {
        desk_rows(cfg, info, logo, lw, origin, tw, shifts, n, (k - 1) as nat) + desk_row(cfg, info, logo, lw, origin, tw, shifts, n, (k - 1) as nat)
    }
}

/// The whole desktop output for art `art` on a terminal `tw` columns wide,
/// with panel row `k` shifted right by `shifts[k]`.
pub open spec fn render_spec(cfg: Config, info: SysInfo, art: Seq<char>, tw: nat, shifts: Seq<usize>) -> Seq<char> {
    let logo = fitted_logo(lines_seq(art), cfg.panel, tw);
    let lw = max_width_seq(logo);
    let origin = logo_origin(logo.len(), lw, tw);
    let n = panel_row_count(cfg);
    let rows = if logo.len() == 0 { n } else { logo.len() };
    title_block(cfg, info) + separator_block(cfg, tw) + desk_rows(cfg, info, logo, lw, origin, tw, shifts, n, rows) + seq!['\n']
}

/// The art is kept whole or dropped whole, and when it is kept, centring
/// it leaves at least eight columns beside the left padding and gap, and
/// room for the gap, the right padding, the largest shift and eight more
/// columns on the right.
pub proof fn fitted_logo_leaves_room(lines: Seq<Seq<char>>, panel: PanelConfig, tw: nat)
    ensures
        fitted_logo(lines, panel, tw) == lines || fitted_logo(lines, panel, tw).len() == 0,
        fitted_logo(lines, panel, tw).len() > 0 ==> ({
            let lw = max_width_seq(lines);
            let o = logo_origin(lines.len(), lw, tw);
            &&& o >= panel.left_pad + panel.gap + 8
            &&& o + lw + panel.gap + panel.right_pad + panel.max_shift + 8 <= tw
        }),
{
}

/// Panel sizes for which the desktop layout arithmetic stays in range.
pub open spec fn desk_sizes_ok(panel: PanelConfig, tw: nat) -> bool {
    panel.left_pad + panel.right_pad + panel.gap + 2 * panel.max_shift + tw + 16 <= usize::MAX
}

/// The shift table covers every panel row and stays within `max_shift`.
pub open spec fn shifts_ok(cfg: Config, shifts: Seq<usize>) -> bool {
    &&& shifts.len() >= panel_row_count(cfg)
    &&& forall|k: int| 0 <= k < panel_row_count(cfg) ==> #[trigger] shifts[k] <= cfg.panel.max_shift
}

/// `a - b`, or 0, for widths that may exceed `usize` when summed.
pub fn sat_sub_wide(a: usize, b: u128) -> (r: usize)
    ensures
        r == sat_sub(a as int, b as int),
{
    if (a as u128) > b {
        (a as u128 - b) as usize
    } else {
        0
    }
}

/// Number of panel rows (`panel_row_count`).
pub fn panel_rows(cfg: &Config) -> (n: usize)
    ensures
        n == panel_row_count(*cfg),
{
    let l = enabled_of(&cfg.display.left);
    let r = enabled_of(&cfg.display.right);
    proof {
        assert(l@.map_values(|f: &FieldDef| *f).len() == l@.len());
        assert(r@.map_values(|f: &FieldDef| *f).len() == r@.len());
    }
    if l.len() < r.len() { r.len() } else { l.len() }
}

/// Text and width of the panel for entry `idx` of `defs`.
fn panel_text_of(defs: &Vec<&FieldDef>, idx: usize, info: &SysInfo, panel: &PanelConfig, avail: usize, c: Color) -> (r: (String, usize))
    requires
        panel_colors_ok(*panel),
    ensures
        (r.0@, r.1 as nat) == panel_text(defs@.map_values(|f: &FieldDef| *f), idx as nat, *info, *panel, avail as int, c),
{
    if idx < defs.len() {
        let ctx = RenderCtx { info, panel_cfg: panel, max_width: avail, fg_color: c };
        let o = render_field(defs[idx], &ctx);
        (o.ansi, o.width)
    } else {
        (String::new(), 0)
    }
}

/// Palette colour `k + 3` (cycling), or white.
fn palette_color_plus3(colors: &Vec<Color>, k: usize) -> (c: Color)
    ensures
        c == palette_at(colors@, k as nat + 3),
{
    if colors.len() > 0 {
        let m = colors.len();
        let j = (((k % m) as u128 + (3 % m) as u128) % (m as u128)) as usize;
        proof {
            vstd::arithmetic::div_mod::lemma_add_mod_noop(k as int, 3, m as int);
        }
        colors[j]
    } else {
        Color::new(255, 255, 255)
    }
}

/// Appends an art line, trimmed, padded to `lw` and coloured.
fn push_logo_cells(row: &mut String, line: &str, lw: usize, c: Color)
    ensures
        final(row)@ == old(row)@ + logo_cells(line@, lw as nat, c),
{
    let t = trim_end(line);
    let padded = pad_to_chars(&t, lw);
    push_colorized(row, &padded, c);
}

/// Brings a row to `tw` visible columns.
fn fit_row_exec(row: String, tw: usize) -> (r: String)
    ensures
        r@ == fit_row(row@, tw as nat),
{
    let rv = visible_width(&row);
    if rv > tw {
        trim_to_width(&row, tw)
    } else if rv < tw {
        let mut row = row;
        let pad = spaces(tw - rv);
        push_str(&mut row, &pad);
        row
    } else {
        row
    }
}

/// Pads a row to at least `tw` visible columns.
pub fn pad_row_exec(row: String, tw: usize) -> (r: String)
    ensures
        r@ == pad_row(row@, tw as nat),
{
    let rv = visible_width(&row);
    if rv < tw {
        let mut row = row;
        let pad = spaces(tw - rv);
        push_str(&mut row, &pad);
        row
    } else {
        row
    }
}

/// Appends a reset and a line break.
fn push_end_line(out: &mut String, row: &str)
    ensures
        final(out)@ == old(out)@ + end_line(row@),
{
    push_str(out, row);
    push_reset(out);
    push_char(out, '\n');
    proof {
        assert(final(out)@ =~= old(out)@ + end_line(row@));
    }
}

/// Desktop row carrying panel row `idx`.
#[verifier::rlimit(40)]
fn desk_panel_row_exec(
    cfg: &Config,
    info: &SysInfo,
    left: &Vec<&FieldDef>,
    right: &Vec<&FieldDef>,
    logo: &Vec<String>,
    lw: usize,
    origin: usize,
    tw: usize,
    idx: usize,
    shift: usize,
    i: usize,
) -> (r: String)
    requires
        panel_colors_ok(cfg.panel),
        left@.map_values(|f: &FieldDef| *f) == enabled_fields(cfg.display.left@),
        right@.map_values(|f: &FieldDef| *f) == enabled_fields(cfg.display.right@),
        desk_sizes_ok(cfg.panel, tw as nat),
        shift <= cfg.panel.max_shift,
        origin <= tw,
    ensures
        r@ == desk_panel_row(*cfg, *info, views(logo@), lw as nat, origin as nat, tw as nat, idx as nat, shift as nat, i as nat),
{
    let p = &cfg.panel;
    let lead = p.left_pad + shift;
    let la0 = sat_sub_wide(origin, (lead as u128) + (p.gap as u128));
    let la = if la0 < 4 { 4 } else { la0 };
    let lc = palette_color(&cfg.logo.colors, idx);
    let (lt, lv) = panel_text_of(left, idx, info, p, la, lc);
    let ra0 = sat_sub_wide(tw, (origin as u128) + (lw as u128) + (p.gap as u128) + (p.right_pad as u128) + (p.max_shift as u128));
    let ra = if ra0 < 4 { 4 } else { ra0 };
    let rc = palette_color_plus3(&cfg.logo.colors, idx);
    let (rt, rv) = panel_text_of(right, idx, info, p, ra, rc);

    let mut row = spaces(lead);
    push_str(&mut row, &lt);
    let extra = sat_sub_wide(origin, (lead as u128) + (lv as u128) + (p.gap as u128));
    let s1 = spaces(extra);
    push_str(&mut row, &s1);
    let s2 = spaces(p.gap);
    push_str(&mut row, &s2);
    let ghost row0 = row@;
    if i < logo.len() {
        let c = palette_color(&cfg.logo.colors, i);
        push_logo_cells(&mut row, logo[i].as_str(), lw, c);
    }
    let ghost row1 = row@;
    if !is_blank(&rt) {
        let target = sat_sub_wide(tw, (p.right_pad as u128) + (shift as u128));
        let vw = visible_width(&row);
        let need = sat_sub_wide(target, (rv as u128) + (vw as u128));
        let s3 = spaces(need);
        push_str(&mut row, &s3);
        push_str(&mut row, &rt);
    }
    let fitted = fit_row_exec(row, tw);
    let mut out = String::new();
    push_end_line(&mut out, &fitted);
    proof {
        let colors = cfg.logo.colors@;
        let l = enabled_fields(cfg.display.left@);
        let rr = enabled_fields(cfg.display.right@);
        assert(la as int == at_least4(sat_sub(origin as int, p.left_pad + shift + p.gap)));
        assert(ra as int == at_least4(sat_sub(tw as int, origin + lw + p.gap + p.right_pad + p.max_shift)));
        assert(row0 =~= spaces_seq((p.left_pad + shift) as nat) + lt@ + spaces_seq(sat_sub(origin as int, p.left_pad + shift + lv + p.gap) as nat)
            + spaces_seq(p.gap as nat));
        if i < logo.len() {
            assert(views(logo@)[i as int] == logo@[i as int]@);
        }
        assert(out@ =~= desk_panel_row(*cfg, *info, views(logo@), lw as nat, origin as nat, tw as nat, idx as nat, shift as nat, i as nat));
    }
    out
}

/// Desktop row showing only art line `i`.
fn desk_art_row_exec(cfg: &Config, logo: &Vec<String>, lw: usize, origin: usize, tw: usize, i: usize) -> (r: String)
    requires
        i < logo@.len(),
    ensures
        r@ == desk_art_row(*cfg, views(logo@), lw as nat, origin as nat, tw as nat, i as nat),
{
    let mut row = spaces(origin);
    let c = palette_color(&cfg.logo.colors, i);
    push_logo_cells(&mut row, logo[i].as_str(), lw, c);
    let padded = pad_row_exec(row, tw);
    let mut out = String::new();
    push_end_line(&mut out, &padded);
    proof {
        assert(views(logo@)[i as int] == logo@[i as int]@);
        assert(out@ =~= desk_art_row(*cfg, views(logo@), lw as nat, origin as nat, tw as nat, i as nat));
    }
    out
}

/// Renders the desktop output on a terminal `term_width` columns wide:
/// the title, the separator, then the art centred with the enabled fields
/// as powerline panels on both sides of it. Panel row `k` is shifted right
/// by `shifts[k]` (the cascade offsets). Rows that carry panels are exactly
/// `term_width` columns wide; when the art leaves no room for panels it is
/// left out and only the panels are drawn.
#[verifier::rlimit(40)]
pub fn render(cfg: &Config, info: &SysInfo, ascii_art: &str, term_width: usize, shifts: &Vec<usize>) -> (r: String)
    requires
        config_colors_ok(*cfg),
        desk_sizes_ok(cfg.panel, term_width as nat),
        shifts_ok(*cfg, shifts@),
    ensures
        r@ == render_spec(*cfg, *info, ascii_art@, term_width as nat, shifts@),
{
    let tw = term_width;
    let p = &cfg.panel;
    let all_lines = lines(ascii_art);
    let lw0 = max_line_width(&all_lines);
    let logo: Vec<String> = if all_lines.len() > 0 {
        let origin_t = sat_sub_wide(tw, lw0 as u128) / 2;
        if (origin_t as u128) < (p.left_pad as u128) + (p.gap as u128) + 8 || (tw as u128) < (origin_t as u128)
            + (lw0 as u128) + (p.gap as u128) + (p.right_pad as u128) + (p.max_shift as u128) + 8 {
            Vec::new()
        } else {
            all_lines
        }
    } else {
        all_lines
    };
    let ghost logo_v = fitted_logo(lines_seq(ascii_art@), cfg.panel, tw as nat);
    proof {
        if logo@.len() == 0 {
            assert(views(logo@) =~= Seq::<Seq<char>>::empty());
        }
        assert(views(logo@) == logo_v);
    }
    let lh = logo.len();
    let lw = if lh > 0 { lw0 } else { 0 };
    let origin = if lh > 0 && lw < tw { (tw - lw) / 2 } else { 0 };
    let n = panel_rows(cfg);
    let left = enabled_of(&cfg.display.left);
    let right = enabled_of(&cfg.display.right);
    let rows = if lh == 0 { n } else { lh };
    let start = if lh > 0 { (if lh > n { lh - n } else { 0 }) / 2 } else { 0 };
    proof {
        assert(lw as nat == max_width_seq(logo_v));
        assert(origin as nat == logo_origin(lh as nat, lw as nat, tw as nat));
        assert(start as nat == panel_start(lh as nat, n as nat));
    }

    let mut out = String::new();
    push_title_block(&mut out, cfg, info);
    push_separator_block(&mut out, cfg, tw);
    let ghost prefix = out@;
    let mut i: usize = 0;
    while i < rows
        invariant
            i <= rows,
            rows == (if lh == 0 { n } else { lh }),
            lh == logo@.len(),
            n == panel_row_count(*cfg),
            start as nat == panel_start(lh as nat, n as nat),
            origin <= tw,
            tw == term_width,
            config_colors_ok(*cfg),
            desk_sizes_ok(cfg.panel, tw as nat),
            shifts_ok(*cfg, shifts@),
            left@.map_values(|f: &FieldDef| *f) == enabled_fields(cfg.display.left@),
            right@.map_values(|f: &FieldDef| *f) == enabled_fields(cfg.display.right@),
            out@ == prefix + desk_rows(*cfg, *info, views(logo@), lw as nat, origin as nat, tw as nat, shifts@, n as nat, i as nat),
        decreases rows - i,
    {
        let row = if lh == 0 {
            desk_panel_row_exec(cfg, info, &left, &right, &logo, lw, origin, tw, i, shifts[i], i)
        } else if start <= i && i - start < n {
            let k = i - start;
            desk_panel_row_exec(cfg, info, &left, &right, &logo, lw, origin, tw, k, shifts[k], i)
        } else {
            desk_art_row_exec(cfg, &logo, lw, origin, tw, i)
        };
        proof {
            assert(row@ == desk_row(*cfg, *info, views(logo@), lw as nat, origin as nat, tw as nat, shifts@, n as nat, i as nat));
        }
        push_str(&mut out, &row);
        i += 1;
    }
    push_char(&mut out, '\n');
    proof {
        assert(out@ =~= render_spec(*cfg, *info, ascii_art@, term_width as nat, shifts@));
    }
    out
}


// ── Art on its own ───────────────────────────────────────────────────────

/// The smallest indent (leading blanks) among the lines that are not blank,
/// if there is such a line.
pub open spec fn min_indent(lines: Seq<Seq<char>>) -> Option<nat>
    decreases lines.len(),
{
    if lines.len() == 0 {
        None
    } else {
        let m = min_indent(lines.drop_last());
        let l = lines.last();
        if trim_seq(l).len() == 0 {
            m
        } else {
            let b = leading_blanks(l);
            match m {
                None => Some(b),
                Some(x) => Some(if b < x { b } else { x }),
            }
        }
    }
}

/// Each line without the indent common to all non-blank lines.
pub open spec fn dedent_seq(lines: Seq<Seq<char>>) -> Seq<Seq<char>> {
    let k = match min_indent(lines) {
        Some(m) => m,
        None => 0,
    };
    lines.map_values(|l: Seq<char>| skip_seq(l, k))
}

/// Strips the indent common to all non-blank lines.
pub fn dedent(lines: &Vec<String>) -> (r: Vec<String>)
    ensures
        views(r@) == dedent_seq(views(lines@)),
{
    let mut m: Option<usize> = None;
    let mut i: usize = 0;
    while i < lines.len()
        invariant
            i <= lines@.len(),
            (match m { Some(x) => Some(x as nat), None => None }) == min_indent(views(lines@).take(i as int)),
        decreases lines@.len() - i,
    {
        proof {
            assert(views(lines@).take(i + 1).drop_last() =~= views(lines@).take(i as int));
            assert(views(lines@).take(i + 1).last() == lines@[i as int]@);
        }
        if !is_blank(lines[i].as_str()) {
            let b = count_leading_blanks(lines[i].as_str());
            m = match m {
                None => Some(b),
                Some(x) => Some(if b < x { b } else { x }),
            };
        }
        i += 1;
    }
    proof {
        assert(views(lines@).take(lines@.len() as int) =~= views(lines@));
    }
    let k = match m {
        Some(x) => x,
        None => 0,
    };
    let mut out: Vec<String> = Vec::new();
    let mut j: usize = 0;
    while j < lines.len()
        invariant
            j <= lines@.len(),
            views(out@) == dedent_seq(views(lines@)).take(j as int),
            k as nat == (match min_indent(views(lines@)) { Some(x) => x, None => 0nat }),
        decreases lines@.len() - j,
    {
        let s = skip_chars(lines[j].as_str(), k);
        let ghost before = out@;
        out.push(s);
        proof {
            assert(views(out@) =~= views(before).push(s@));
            assert(dedent_seq(views(lines@)).take(j + 1) =~= dedent_seq(views(lines@)).take(j as int).push(
                skip_seq(lines@[j as int]@, k as nat),
            ));
        }
        j += 1;
    }
    proof {
        assert(dedent_seq(views(lines@)).take(lines@.len() as int) =~= dedent_seq(views(lines@)));
    }
    out
}

/// Whether a line has something besides white space.
pub open spec fn non_blank(l: Seq<char>) -> bool {
    trim_seq(l).len() > 0
}

proof fn lemma_leading_le_len(l: Seq<char>)
    ensures
        leading_blanks(l) <= l.len(),
    decreases l.len(),
{
    if l.len() > 0 && l[0] == ' ' {
        lemma_leading_le_len(l.drop_first());
    }
}

proof fn lemma_leading_skip(l: Seq<char>, k: nat)
    requires
        k <= leading_blanks(l),
    ensures
        leading_blanks(skip_seq(l, k)) + k == leading_blanks(l),
    decreases k,
{
    lemma_leading_le_len(l);
    if k > 0 {
        lemma_leading_skip(l.drop_first(), (k - 1) as nat);
        if k < l.len() {
            assert(l.skip(k as int) =~= l.drop_first().skip(k - 1));
        }
    } else if l.len() > 0 {
        assert(l.skip(0) =~= l);
    }
}

proof fn lemma_min_indent(lines: Seq<Seq<char>>)
    ensures
        match min_indent(lines) {
            Some(m) => (forall|i: int| 0 <= i < lines.len() && #[trigger] non_blank(lines[i]) ==> m <= leading_blanks(lines[i]))
                && (exists|i: int| 0 <= i < lines.len() && #[trigger] non_blank(lines[i]) && leading_blanks(lines[i]) == m),
            None => forall|i: int| 0 <= i < lines.len() ==> !#[trigger] non_blank(lines[i]),
        },
    decreases lines.len(),
{
    if lines.len() > 0 {
        let init = lines.drop_last();
        lemma_min_indent(init);
        let l = lines.last();
        let n = lines.len() - 1;
        assert forall|i: int| 0 <= i < n implies lines[i] == init[i] by {}
        match min_indent(init) {
            Some(x) => {
                let w = choose|i: int| 0 <= i < init.len() && #[trigger] non_blank(init[i]) && leading_blanks(init[i]) == x;
                assert(lines[w] == init[w]);
                if non_blank(l) && leading_blanks(l) < x {
                    assert(non_blank(lines[n]) && leading_blanks(lines[n]) == leading_blanks(l));
                }
            },
            None => {
                if non_blank(l) {
                    assert(non_blank(lines[n]) && leading_blanks(lines[n]) == leading_blanks(l));
                }
            },
        }
    }
}

proof fn lemma_trim_end_all_ws(s: Seq<char>)
    ensures
        crate::text::all_ws(s) ==> crate::text::trim_end_seq(s).len() == 0,
        !crate::text::all_ws(s) ==> crate::text::trim_end_seq(s).len() > 0 && !crate::text::is_ws(
            crate::text::trim_end_seq(s).last(),
        ),
    decreases s.len(),
{
    if s.len() > 0 {
        lemma_trim_end_all_ws(s.drop_last());
        if crate::text::all_ws(s) {
            assert(crate::text::all_ws(s.drop_last())) by {
                assert forall|i: int| 0 <= i < s.drop_last().len() implies crate::text::is_ws(#[trigger] s.drop_last()[i]) by {
                    assert(s.drop_last()[i] == s[i]);
                }
            }
            assert(crate::text::is_ws(s[s.len() - 1]));
        } else if crate::text::is_ws(s.last()) {
            assert(!crate::text::all_ws(s.drop_last())) by {
                let j = choose|j: int| 0 <= j < s.len() && !crate::text::is_ws(#[trigger] s[j]);
                assert(j != s.len() - 1);
                assert(s.drop_last()[j] == s[j]);
            }
        }
    }
}

proof fn lemma_trim_start_keeps(t: Seq<char>)
    requires
        t.len() > 0,
        !crate::text::is_ws(t.last()),
    ensures
        crate::text::trim_start_seq(t).len() > 0,
    decreases t.len(),
{
    if crate::text::is_ws(t[0]) {
        assert(t.len() > 1);
        assert(t.drop_first().last() == t.last());
        lemma_trim_start_keeps(t.drop_first());
    }
}

/// A line is not blank exactly when some character of it is not white
/// space.
proof fn lemma_non_blank_iff(s: Seq<char>)
    ensures
        non_blank(s) <==> !crate::text::all_ws(s),
{
    lemma_trim_end_all_ws(s);
    if !crate::text::all_ws(s) {
        lemma_trim_start_keeps(crate::text::trim_end_seq(s));
    }
}

proof fn lemma_leading_are_blanks(s: Seq<char>, j: int)
    requires
        0 <= j < leading_blanks(s),
    ensures
        j < s.len(),
        s[j] == ' ',
    decreases s.len(),
{
    if j > 0 {
        lemma_leading_are_blanks(s.drop_first(), j - 1);
    }
}

/// Removing at most the leading blanks keeps a line blank or not blank.
proof fn lemma_skip_keeps_blankness(l: Seq<char>, k: nat)
    requires
        k <= leading_blanks(l),
    ensures
        non_blank(skip_seq(l, k)) == non_blank(l),
{
    lemma_non_blank_iff(l);
    lemma_non_blank_iff(skip_seq(l, k));
    lemma_leading_le_len(l);
    let t = skip_seq(l, k);
    if crate::text::all_ws(l) {
        assert forall|i: int| 0 <= i < t.len() implies crate::text::is_ws(#[trigger] t[i]) by {
            assert(t[i] == l[i + k]);
        }
    } else {
        let j = choose|j: int| 0 <= j < l.len() && !crate::text::is_ws(#[trigger] l[j]);
        if j < leading_blanks(l) {
            lemma_leading_are_blanks(l, j);
        }
        assert(k <= j);
        assert(t[j - k] == l[j]);
        assert(!crate::text::all_ws(t));
    }
}

/// Removing the common indent twice removes nothing more: afterwards some
/// non-blank line starts without a blank.
pub proof fn dedent_idempotent(lines: Seq<Seq<char>>)
    ensures
        dedent_seq(dedent_seq(lines)) == dedent_seq(lines),
{
    dedent_removes_common_indent(lines);
    lemma_min_indent(lines);
    let d = dedent_seq(lines);
    match min_indent(lines) {
        Some(m) => {
            let w = choose|i: int| 0 <= i < lines.len() && #[trigger] non_blank(lines[i]) && leading_blanks(d[i]) == 0;
            let mw = choose|i: int| 0 <= i < lines.len() && #[trigger] non_blank(lines[i]) && leading_blanks(lines[i]) == m;
            assert(m <= leading_blanks(lines[w]));
            lemma_skip_keeps_blankness(lines[w], m);
            assert(non_blank(d[w]));
            lemma_min_indent(d);
            match min_indent(d) {
                Some(m2) => {
                    assert(m2 <= leading_blanks(d[w]));
                },
                None => {
                    assert(!non_blank(d[w]));
                },
            }
            assert(min_indent(d) == Some(0nat));
            assert forall|i: int| 0 <= i < d.len() implies #[trigger] skip_seq(d[i], 0) == d[i] by {
                if d[i].len() > 0 {
                    assert(d[i].skip(0) =~= d[i]);
                } else {
                    assert(skip_seq(d[i], 0) =~= d[i]);
                }
            }
            assert(dedent_seq(d) =~= d);
        },
        None => {},
    }
}

/// Removing the common indent: the lines keep their number; when some
/// line is not blank, each non-blank line loses exactly the smallest
/// indent among them and at least one is left without indent; otherwise
/// nothing changes.
pub proof fn dedent_removes_common_indent(lines: Seq<Seq<char>>)
    ensures
        dedent_seq(lines).len() == lines.len(),
        match min_indent(lines) {
            Some(m) => (forall|i: int| 0 <= i < lines.len() && #[trigger] non_blank(lines[i]) ==> leading_blanks(dedent_seq(lines)[i]) + m
                == leading_blanks(lines[i])) && (exists|i: int| 0 <= i < lines.len() && #[trigger] non_blank(lines[i]) && leading_blanks(
                dedent_seq(lines)[i],
            ) == 0),
            None => dedent_seq(lines) == lines,
        },
{
    lemma_min_indent(lines);
    let d = dedent_seq(lines);
    match min_indent(lines) {
        Some(m) => {
            assert forall|i: int| 0 <= i < lines.len() && #[trigger] non_blank(lines[i]) implies leading_blanks(d[i]) + m == leading_blanks(
                lines[i],
            ) by {
                lemma_leading_skip(lines[i], m);
            }
            let w = choose|i: int| 0 <= i < lines.len() && #[trigger] non_blank(lines[i]) && leading_blanks(lines[i]) == m;
            lemma_leading_skip(lines[w], m);
        },
        None => {
            assert forall|i: int| 0 <= i < lines.len() implies d[i] == lines[i] by {
                if lines[i].len() > 0 {
                    assert(lines[i].skip(0) =~= lines[i]);
                } else {
                    assert(skip_seq(lines[i], 0) =~= lines[i]);
                }
            }
            assert(d =~= lines);
        },
    }
}

/// The lines of `art` with their common indent removed.
pub open spec fn compact_art(art: Seq<char>) -> Seq<Seq<char>> {
    dedent_seq(lines_seq(art))
}

/// Art lines made ready for a narrow screen: common indent removed.
pub fn compact_for_mobile(ascii_art: &str) -> (r: Vec<String>)
    ensures
        views(r@) == compact_art(ascii_art@),
{
    let ls = lines(ascii_art);
    dedent(&ls)
}

/// The cells of art row `row`: each non-blank character coloured with the
/// palette entry for its column (`vert`) or its row, blanks plain.
pub open spec fn art_cells(s: Seq<char>, colors: Seq<Color>, vert: bool, row: nat) -> Seq<char>
    decreases s.len(),
{
    if s.len() == 0 {
        Seq::empty()
    } else {
        let ci = (s.len() - 1) as nat;
        let c = palette_at(colors, if vert { ci } else { row });
        art_cells(s.drop_last(), colors, vert, row) + if s.last() != ' ' {
            fg_escape_seq(c).push(s.last())
        } else {
            seq![' ']
        }
    }
}

/// Whether the art is coloured by column.
pub open spec fn colors_vertical(cfg: Config) -> bool {
    cfg.logo.color_dir@ == "vertical"@
}

/// Rows `0..k` of the art drawn alone.
pub open spec fn art_only_rows(lines: Seq<Seq<char>>, colors: Seq<Color>, vert: bool, center: nat, w: nat, k: nat) -> Seq<char>
    decreases k,
{
    if k == 0 {
        Seq::empty()
    } else {
        let i = (k - 1) as nat;
        art_only_rows(lines, colors, vert, center, w, i) + end_line(
            spaces_seq(center) + art_cells(pad_chars(trim_end_seq(lines[i as int]), w), colors, vert, i),
        )
    }
}

/// The art alone, common indent removed, centred as a block on a terminal
/// `tw` columns wide and coloured by row or by column.
pub open spec fn art_only_spec(cfg: Config, art: Seq<char>, tw: nat) -> Seq<char> {
    let lines = compact_art(art);
    let w = max_width_seq(trim_ends(lines));
    let center = (sat_sub(tw as int, w as int) / 2) as nat;
    art_only_rows(lines, cfg.logo.colors@, colors_vertical(cfg), center, w, lines.len())
}

/// Whether drawing the art alone needs a palette colour for some cell.
pub open spec fn art_has_cells(art: Seq<char>) -> bool {
    let lines = compact_art(art);
    let w = max_width_seq(trim_ends(lines));
    exists|i: int| 0 <= i < lines.len() && #[trigger] pad_chars(trim_end_seq(lines[i]), w).len() > 0
}

/// Appends the coloured cells of one art row.
fn push_art_cells(out: &mut String, s: &str, colors: &Vec<Color>, vert: bool, row: usize)
    ensures
        final(out)@ == old(out)@ + art_cells(s@, colors@, vert, row as nat),
{
    let ghost o0 = out@;
    let v = chars_of(s);
    let mut ci: usize = 0;
    while ci < v.len()
        invariant
            v@ == s@,
            ci <= v@.len(),
            out@ == o0 + art_cells(s@.take(ci as int), colors@, vert, row as nat),
        decreases v@.len() - ci,
    {
        proof {
            assert(s@.take(ci + 1).drop_last() =~= s@.take(ci as int));
        }
        let ch = v[ci];
        let c = palette_color(colors, if vert { ci } else { row });
        if ch != ' ' {
            let e = c.fg_escape();
            push_str(out, &e);
            push_char(out, ch);
        } else {
            push_char(out, ' ');
        }
        proof {
            assert(out@ =~= o0 + art_cells(s@.take(ci + 1), colors@, vert, row as nat));
        }
        ci = ci + 1;
    }
    proof {
        assert(s@.take(s@.len() as int) =~= s@);
    }
}

/// Renders only the art, without system information: common indent
/// removed, centred as a block on a terminal `term_width` columns wide,
/// each character coloured by row (or by column when the logo's colour
/// direction is `"vertical"`).
pub fn render_ascii_only(cfg: &Config, ascii_art: &str, term_width: usize) -> (r: String)
    requires
        cfg.logo.colors@.len() > 0 || !art_has_cells(ascii_art@),
    ensures
        r@ == art_only_spec(*cfg, ascii_art@, term_width as nat),
{
    let ls = compact_for_mobile(ascii_art);
    let trimmed = trim_line_ends(&ls);
    let w = max_line_width(&trimmed);
    let center = (if term_width > w { term_width - w } else { 0 }) / 2;
    proof {
        reveal_strlit("vertical");
    }
    let vert = str_eq(cfg.logo.color_dir.as_str(), "vertical");
    let mut out = String::new();
    let mut i: usize = 0;
    while i < ls.len()
        invariant
            i <= ls@.len(),
            views(ls@) == compact_art(ascii_art@),
            w == max_width_seq(trim_ends(views(ls@))),
            center as nat == (sat_sub(term_width as int, w as int) / 2) as nat,
            vert == colors_vertical(*cfg),
            out@ == art_only_rows(views(ls@), cfg.logo.colors@, vert, center as nat, w as nat, i as nat),
        decreases ls@.len() - i,
    {
        let mut row = spaces(center);
        let t = trim_end(ls[i].as_str());
        let padded = pad_to_chars(&t, w);
        push_art_cells(&mut row, &padded, &cfg.logo.colors, vert, i);
        push_end_line(&mut out, &row);
        proof {
            assert(views(ls@)[i as int] == ls@[i as int]@);
            assert(out@ =~= art_only_rows(views(ls@), cfg.logo.colors@, vert, center as nat, w as nat, (i + 1) as nat));
        }
        i += 1;
    }
    out
}

// ── Styled lines as ANSI text ────────────────────────────────────────────

/// One segment as ANSI text: bold, foreground and background escapes where
/// set, the text, then a reset.
pub open spec fn seg_ansi(v: SegView) -> Seq<char> {
    let (text, fg, bg, bold) = v;
    (if bold { bold_seq() } else { Seq::empty() }) + (match fg {
        Some(c) => fg_escape_seq(c),
        None => Seq::empty(),
    }) + (match bg {
        Some(c) => bg_escape_seq(c),
        None => Seq::empty(),
    }) + text + reset_seq()
}

/// Segments `0..k` of a line as ANSI text.
pub open spec fn segs_ansi(segs: Seq<SegView>) -> Seq<char>
    decreases segs.len(),
{
    if segs.len() == 0 {
        Seq::empty()
    } else {
        segs_ansi(segs.drop_last()) + seg_ansi(segs.last())
    }
}

/// Styled lines as ANSI text, each line ended by a line break.
pub open spec fn lines_ansi(lines: Seq<Seq<SegView>>) -> Seq<char>
    decreases lines.len(),
{
    if lines.len() == 0 {
        Seq::empty()
    } else {
        lines_ansi(lines.drop_last()) + segs_ansi(lines.last()) + seq!['\n']
    }
}

/// The view of a styled line.
pub open spec fn line_view(l: StyledLine) -> Seq<SegView> {
    segs_view(l.segments@)
}

/// Views of styled lines.
pub open spec fn lines_view(ls: Seq<StyledLine>) -> Seq<Seq<SegView>> {
    ls.map_values(|l: StyledLine| line_view(l))
}

/// Appends one segment as ANSI text.
fn push_seg_ansi(out: &mut String, seg: &StyledSegment)
    ensures
        final(out)@ == old(out)@ + seg_ansi(seg@),
{
    if seg.bold {
        push_bold(out);
    }
    match &seg.fg {
        Some(c) => {
            let e = c.fg_escape();
            push_str(out, &e);
        },
        None => {},
    }
    match &seg.bg {
        Some(c) => {
            let e = c.bg_escape();
            push_str(out, &e);
        },
        None => {},
    }
    push_str(out, seg.text.as_str());
    push_reset(out);
    proof {
        assert(final(out)@ =~= old(out)@ + seg_ansi(seg@));
    }
}

/// Appends a list of segments as ANSI text.
pub fn push_segs_ansi(out: &mut String, segs: &Vec<StyledSegment>)
    ensures
        final(out)@ == old(out)@ + segs_ansi(segs_view(segs@)),
{
    let ghost o0 = out@;
    let mut j: usize = 0;
    while j < segs.len()
        invariant
            j <= segs@.len(),
            out@ == o0 + segs_ansi(segs_view(segs@).take(j as int)),
        decreases segs@.len() - j,
    {
        proof {
            assert(segs_view(segs@).take(j + 1).drop_last() =~= segs_view(segs@).take(j as int));
        }
        push_seg_ansi(out, &segs[j]);
        proof {
            assert(out@ =~= o0 + segs_ansi(segs_view(segs@).take(j + 1)));
        }
        j += 1;
    }
    proof {
        assert(segs_view(segs@).take(segs@.len() as int) =~= segs_view(segs@));
    }
}

/// Converts styled lines to ANSI text.
pub fn styled_lines_to_ansi(lines: &Vec<StyledLine>) -> (r: String)
    ensures
        r@ == lines_ansi(lines_view(lines@)),
{
    let mut out = String::new();
    let mut i: usize = 0;
    while i < lines.len()
        invariant
            i <= lines@.len(),
            out@ == lines_ansi(lines_view(lines@).take(i as int)),
        decreases lines@.len() - i,
    {
        proof {
            assert(lines_view(lines@).take(i + 1).drop_last() =~= lines_view(lines@).take(i as int));
        }
        push_segs_ansi(&mut out, &lines[i].segments);
        push_char(&mut out, '\n');
        proof {
            assert(out@ =~= lines_ansi(lines_view(lines@).take(i + 1)));
        }
        i += 1;
    }
    proof {
        assert(lines_view(lines@).take(lines@.len() as int) =~= lines_view(lines@));
    }
    out
}


// ── Narrow-screen renderer ───────────────────────────────────────────────

/// Enabled fields of both panel lists, left first.
pub open spec fn mobile_fields(cfg: Config) -> Seq<FieldDef> {
    enabled_fields(cfg.display.left@ + cfg.display.right@)
}

/// The art shown on a narrow screen: none when there is no art or the
/// screen is very narrow, otherwise the art with its common indent removed.
pub open spec fn mobile_logo(art: Seq<char>, is_narrow: bool) -> Seq<Seq<char>> {
    if art.len() == 0 || is_narrow { Seq::empty() } else { compact_art(art) }
}

/// Columns a single-column panel may use.
pub open spec fn mobile_avail(panel: PanelConfig, tw: nat) -> int {
    at_least4(sat_sub(tw as int, panel.left_pad + panel.right_pad + 2))
}

/// Art rows `0..k` of the narrow layout, centred as a block at `center`.
pub open spec fn mobile_logo_rows(lines: Seq<Seq<char>>, colors: Seq<Color>, center: nat, w: nat, k: nat) -> Seq<char>
    decreases k,
{
    if k == 0 {
        Seq::empty()
    } else {
        let i = (k - 1) as nat;
        mobile_logo_rows(lines, colors, center, w, i) + end_line(spaces_seq(center) + logo_cells(lines[i as int], w, palette_at(colors, i)))
    }
}

/// Panel rows `0..k` of the narrow layout, one field per row.
pub open spec fn mobile_panel_rows(cfg: Config, info: SysInfo, fields: Seq<FieldDef>, tw: nat, k: nat) -> Seq<char>
    decreases k,
{
    if k == 0 {
        Seq::empty()
    } else {
        let i = (k - 1) as nat;
        let o = field_output(fields[i as int], info, cfg.panel, mobile_avail(cfg.panel, tw) as usize, palette_at(cfg.logo.colors@, i));
        mobile_panel_rows(cfg, info, fields, tw, i) + end_line(pad_row(spaces_seq(cfg.panel.left_pad as nat) + o.0, tw))
    }
}

/// The narrow-screen output: title, separator, the art centred above the
/// panels (unless left out), then one panel per enabled field.
pub open spec fn render_mobile_spec(cfg: Config, info: SysInfo, art: Seq<char>, is_narrow: bool, tw: nat) -> Seq<char> {
    let logo = mobile_logo(art, is_narrow);
    let w = max_width_seq(trim_ends(logo));
    let center = (sat_sub(tw as int, w as int) / 2) as nat;
    let fields = mobile_fields(cfg);
    let art_block = if logo.len() > 0 {
        mobile_logo_rows(logo, cfg.logo.colors@, center, w, logo.len()) + seq!['\n']
    } else {
        Seq::empty()
    };
    title_block(cfg, info) + separator_block(cfg, tw) + art_block + mobile_panel_rows(cfg, info, fields, tw, fields.len()) + seq!['\n']
}

/// Row `k` of the narrow-screen panel block for the field list `fields`:
/// the field's panel (for `mobile_avail` columns, in palette colour `k`)
/// after the left padding, padded to the screen width.
pub open spec fn mobile_row_for(cfg: Config, info: SysInfo, fields: Seq<FieldDef>, tw: nat, k: int) -> Seq<char> {
    end_line(pad_row(
        spaces_seq(cfg.panel.left_pad as nat) + field_output(fields[k], info, cfg.panel, mobile_avail(cfg.panel, tw) as usize, palette_at(cfg.logo.colors@, k as nat)).0,
        tw,
    ))
}

/// The enabled fields of both panel lists, left ones first.
pub open spec fn both_lists_enabled(cfg: Config) -> Seq<FieldDef> {
    enabled_fields(cfg.display.left@) + enabled_fields(cfg.display.right@)
}

proof fn lemma_mobile_rows_flatten(cfg: Config, info: SysInfo, fields: Seq<FieldDef>, tw: nat, k: nat)
    ensures
        mobile_panel_rows(cfg, info, fields, tw, k) == Seq::new(k, |j: int| mobile_row_for(cfg, info, fields, tw, j)).flatten(),
    decreases k,
{
    let f = |j: int| mobile_row_for(cfg, info, fields, tw, j);
    if k == 0 {
        assert(Seq::new(0, f) =~= Seq::<Seq<char>>::empty());
    } else {
        let i = (k - 1) as nat;
        lemma_mobile_rows_flatten(cfg, info, fields, tw, i);
        assert(Seq::new(k, f) =~= Seq::new(i, f).push(f(i as int)));
        Seq::new(i, f).lemma_flatten_push(f(i as int));
    }
}

/// The narrow-screen output ends with its panel block and a blank line:
/// one row per enabled field of the left list and then of the right list,
/// in order, row `k` showing field `k` of that list.
pub proof fn mobile_shows_every_enabled_field(cfg: Config, info: SysInfo, art: Seq<char>, is_narrow: bool, tw: nat)
    ensures
        Seq::new(both_lists_enabled(cfg).len(), |k: int| mobile_row_for(cfg, info, both_lists_enabled(cfg), tw, k)).flatten().len() + 1
            <= render_mobile_spec(cfg, info, art, is_narrow, tw).len(),
        render_mobile_spec(cfg, info, art, is_narrow, tw).subrange(
            render_mobile_spec(cfg, info, art, is_narrow, tw).len() - Seq::new(both_lists_enabled(cfg).len(), |k: int| mobile_row_for(cfg, info, both_lists_enabled(cfg), tw, k)).flatten().len() - 1,
            render_mobile_spec(cfg, info, art, is_narrow, tw).len() as int,
        ) == Seq::new(both_lists_enabled(cfg).len(), |k: int| mobile_row_for(cfg, info, both_lists_enabled(cfg), tw, k)).flatten() + seq!['\n'],
{
    let fields = both_lists_enabled(cfg);
    lemma_enabled_append(cfg.display.left@, cfg.display.right@);
    assert(mobile_fields(cfg) == fields);
    lemma_mobile_rows_flatten(cfg, info, fields, tw, fields.len());
    let rows = Seq::new(fields.len(), |k: int| mobile_row_for(cfg, info, fields, tw, k)).flatten();
    let logo = mobile_logo(art, is_narrow);
    let w = max_width_seq(trim_ends(logo));
    let center = (sat_sub(tw as int, w as int) / 2) as nat;
    let art_block = if logo.len() > 0 {
        mobile_logo_rows(logo, cfg.logo.colors@, center, w, logo.len()) + seq!['\n']
    } else {
        Seq::empty()
    };
    let pre = title_block(cfg, info) + separator_block(cfg, tw) + art_block;
    let out = render_mobile_spec(cfg, info, art, is_narrow, tw);
    assert(out =~= pre + (rows + seq!['\n']));
    assert(out.subrange(out.len() - rows.len() - 1, out.len() as int) =~= rows + seq!['\n']);
}

proof fn lemma_enabled_append(a: Seq<FieldDef>, b: Seq<FieldDef>)
    ensures
        enabled_fields(a + b) == enabled_fields(a) + enabled_fields(b),
    decreases b.len(),
{
    if b.len() == 0 {
        assert(a + b =~= a);
        assert(enabled_fields(b) =~= Seq::<FieldDef>::empty());
        assert(enabled_fields(a) + enabled_fields(b) =~= enabled_fields(a));
    } else {
        lemma_enabled_append(a, b.drop_last());
        assert((a + b).drop_last() =~= a + b.drop_last());
        assert((a + b).last() == b.last());
        if b.last().enabled {
            assert(enabled_fields(a) + enabled_fields(b) =~= (enabled_fields(a) + enabled_fields(b.drop_last())).push(b.last()));
        } else {
            assert(enabled_fields(b) == enabled_fields(b.drop_last()));
        }
    }
}

/// Enabled fields of both lists, left first.
fn enabled_of_both<'a>(a: &'a Vec<FieldDef>, b: &'a Vec<FieldDef>) -> (r: Vec<&'a FieldDef>)
    ensures
        r@.map_values(|f: &FieldDef| *f) == enabled_fields(a@ + b@),
{
    let mut out = enabled_of(a);
    let tail = enabled_of(b);
    let ghost head = out@;
    let mut j: usize = 0;
    while j < tail.len()
        invariant
            j <= tail@.len(),
            tail@.map_values(|f: &FieldDef| *f) == enabled_fields(b@),
            head.map_values(|f: &FieldDef| *f) == enabled_fields(a@),
            out@ == head + tail@.take(j as int),
        decreases tail@.len() - j,
    {
        out.push(tail[j]);
        proof {
            assert(out@ =~= head + tail@.take(j + 1));
        }
        j += 1;
    }
    proof {
        assert(tail@.take(tail@.len() as int) =~= tail@);
        lemma_enabled_append(a@, b@);
        assert(out@.map_values(|f: &FieldDef| *f) =~= head.map_values(|f: &FieldDef| *f) + tail@.map_values(|f: &FieldDef| *f));
    }
    out
}

/// Renders the output for a phone or other narrow terminal `term_width`
/// columns wide: title and separator, then (unless `is_narrow` or there is
/// no art) the art centred as a block followed by a blank line, then every
/// enabled field, left list first, as a full-width panel.
pub fn render_mobile(cfg: &Config, info: &SysInfo, ascii_art: &str, is_narrow: bool, term_width: usize) -> (r: String)
    requires
        config_colors_ok(*cfg),
        desk_sizes_ok(cfg.panel, term_width as nat),
    ensures
        r@ == render_mobile_spec(*cfg, *info, ascii_art@, is_narrow, term_width as nat),
{
    let tw = term_width;
    let compacted = compact_for_mobile(ascii_art);
    let logo: Vec<String> = if ascii_art.unicode_len() == 0 || is_narrow { Vec::new() } else { compacted };
    proof {
        if logo@.len() == 0 {
            assert(views(logo@) =~= Seq::<Seq<char>>::empty());
        }
        assert(views(logo@) == mobile_logo(ascii_art@, is_narrow));
    }
    let fields = enabled_of_both(&cfg.display.left, &cfg.display.right);
    let mut out = String::new();
    push_title_block(&mut out, cfg, info);
    push_separator_block(&mut out, cfg, tw);
    let ghost after_head = out@;
    let trimmed = trim_line_ends(&logo);
    let w = max_line_width(&trimmed);
    let center = (if tw > w { tw - w } else { 0 }) / 2;
    if logo.len() > 0 {
        let mut i: usize = 0;
        while i < logo.len()
            invariant
                i <= logo@.len(),
                w == max_width_seq(trim_ends(views(logo@))),
                out@ == after_head + mobile_logo_rows(views(logo@), cfg.logo.colors@, center as nat, w as nat, i as nat),
            decreases logo@.len() - i,
        {
            let mut row = spaces(center);
            let c = palette_color(&cfg.logo.colors, i);
            push_logo_cells(&mut row, logo[i].as_str(), w, c);
            push_end_line(&mut out, &row);
            proof {
                assert(views(logo@)[i as int] == logo@[i as int]@);
                assert(out@ =~= after_head + mobile_logo_rows(views(logo@), cfg.logo.colors@, center as nat, w as nat, (i + 1) as nat));
            }
            i += 1;
        }
        push_char(&mut out, '\n');
    }
    let ghost after_art = out@;
    let p = &cfg.panel;
    let a0 = sat_sub_wide(tw, (p.left_pad as u128) + (p.right_pad as u128) + 2);
    let avail = if a0 < 4 { 4 } else { a0 };
    let mut k: usize = 0;
    while k < fields.len()
        invariant
            k <= fields@.len(),
            fields@.map_values(|f: &FieldDef| *f) == mobile_fields(*cfg),
            config_colors_ok(*cfg),
            avail as int == mobile_avail(cfg.panel, tw as nat),
            out@ == after_art + mobile_panel_rows(*cfg, *info, mobile_fields(*cfg), tw as nat, k as nat),
        decreases fields@.len() - k,
    {
        let c = palette_color(&cfg.logo.colors, k);
        let ctx = RenderCtx { info, panel_cfg: &cfg.panel, max_width: avail, fg_color: c };
        let o = render_field(fields[k], &ctx);
        let mut row = spaces(cfg.panel.left_pad);
        push_str(&mut row, &o.ansi);
        let padded = pad_row_exec(row, tw);
        push_end_line(&mut out, &padded);
        proof {
            assert(mobile_fields(*cfg)[k as int] == *fields@[k as int]);
            assert(out@ =~= after_art + mobile_panel_rows(*cfg, *info, mobile_fields(*cfg), tw as nat, (k + 1) as nat));
        }
        k += 1;
    }
    push_char(&mut out, '\n');
    proof {
        assert(fields@.map_values(|f: &FieldDef| *f).len() == fields@.len());
        assert(out@ =~= render_mobile_spec(*cfg, *info, ascii_art@, is_narrow, term_width as nat));
    }
    out
}


// ── Narrow-screen preview as styled lines ────────────────────────────────

/// Visible columns of a list of segments.
pub open spec fn segs_width(segs: Seq<SegView>) -> nat
    decreases segs.len(),
{
    if segs.len() == 0 {
        0
    } else {
        segs_width(segs.drop_last()) + str_width_of(segs.last().0)
    }
}

/// Segments padded with a blank segment up to `tw` columns.
pub open spec fn pad_segs(segs: Seq<SegView>, tw: nat) -> Seq<SegView> {
    let w = segs_width(segs);
    if w < tw { segs.push(seg_view(spaces_seq((tw - w) as nat), None)) } else { segs }
}

/// One segment per character of `s`: non-blank ones in colour `c`.
pub open spec fn char_segs(s: Seq<char>, c: Color) -> Seq<SegView> {
    Seq::new(s.len(), |k: int| if s[k] != ' ' { seg_view(seq![s[k]], Some(c)) } else { seg_view(seq![' '], None) })
}

/// The preview's title line.
pub open spec fn preview_title(cfg: Config, info: SysInfo) -> Seq<SegView> {
    seq![seg_view(spaces_seq(2), None), (title_text_seq(cfg, info), Some(title_color(cfg)), None, true)]
}

/// The preview's separator line.
pub open spec fn preview_separator(cfg: Config, tw: nat) -> Seq<SegView> {
    seq![seg_view(spaces_seq(2), None), seg_view(separator_text(cfg, tw), Some(separator_color(cfg)))]
}

/// Preview line for art row `i`.
pub open spec fn preview_logo_line(lines: Seq<Seq<char>>, colors: Seq<Color>, center: nat, w: nat, tw: nat, i: int) -> Seq<SegView> {
    pad_segs(seq![seg_view(spaces_seq(center), None)] + char_segs(pad_chars(trim_end_seq(lines[i]), w), palette_at(colors, i as nat)), tw)
}

/// Preview line for field `i`.
pub open spec fn preview_panel_line(cfg: Config, info: SysInfo, fields: Seq<FieldDef>, tw: nat, i: int) -> Seq<SegView> {
    let o = field_output(fields[i], info, cfg.panel, mobile_avail(cfg.panel, tw) as usize, palette_at(cfg.logo.colors@, i as nat));
    pad_segs(seq![seg_view(spaces_seq(cfg.panel.left_pad as nat), None)] + o.1, tw)
}

/// The narrow-screen preview: the lines `render_mobile` draws, as styled
/// segments, every art and panel line padded to `tw` columns.
pub open spec fn preview_spec(cfg: Config, info: SysInfo, art: Seq<char>, tw: nat, is_narrow: bool) -> Seq<Seq<SegView>> {
    let logo = mobile_logo(art, is_narrow);
    let w = max_width_seq(trim_ends(logo));
    let center = (sat_sub(tw as int, w as int) / 2) as nat;
    let fields = mobile_fields(cfg);
    let art_lines = if logo.len() > 0 {
        Seq::new(logo.len(), |i: int| preview_logo_line(logo, cfg.logo.colors@, center, w, tw, i)).push(seq![seg_view(seq![' '], None)])
    } else {
        Seq::empty()
    };
    seq![preview_title(cfg, info), preview_separator(cfg, tw)] + art_lines + Seq::new(fields.len(), |i: int| preview_panel_line(cfg, info, fields, tw, i))
}

/// The narrow-screen preview ends with one line per enabled field of the
/// left list and then of the right list, in order: line `k` of that block
/// is the left padding and field `k`'s panel segments (for `mobile_avail`
/// columns, in palette colour `k`), padded to the screen width.
pub proof fn preview_shows_every_enabled_field(cfg: Config, info: SysInfo, art: Seq<char>, tw: nat, is_narrow: bool)
    ensures
        both_lists_enabled(cfg).len() + 2 <= preview_spec(cfg, info, art, tw, is_narrow).len(),
        forall|k: int| 0 <= k < both_lists_enabled(cfg).len() ==>
            #[trigger] preview_spec(cfg, info, art, tw, is_narrow)[preview_spec(cfg, info, art, tw, is_narrow).len() - both_lists_enabled(cfg).len() + k]
            == pad_segs(
                seq![seg_view(spaces_seq(cfg.panel.left_pad as nat), None)] + field_output(
                    both_lists_enabled(cfg)[k], info, cfg.panel, mobile_avail(cfg.panel, tw) as usize, palette_at(cfg.logo.colors@, k as nat),
                ).1,
                tw,
            ),
{
    lemma_enabled_append(cfg.display.left@, cfg.display.right@);
    assert(mobile_fields(cfg) == both_lists_enabled(cfg));
}

/// Visible columns of `segs`, capped at `cap`.
fn segs_width_capped(segs: &Vec<StyledSegment>, cap: usize) -> (r: usize)
    ensures
        r as nat == if segs_width(segs_view(segs@)) < cap { segs_width(segs_view(segs@)) } else { cap as nat },
{
    let mut acc: usize = 0;
    let mut j: usize = 0;
    while j < segs.len()
        invariant
            j <= segs@.len(),
            acc as nat == if segs_width(segs_view(segs@).take(j as int)) < cap { segs_width(segs_view(segs@).take(j as int)) } else { cap as nat },
        decreases segs@.len() - j,
    {
        proof {
            assert(segs_view(segs@).take(j + 1).drop_last() =~= segs_view(segs@).take(j as int));
        }
        let w = str_width(segs[j].text.as_str());
        if acc < cap {
            acc = if w < cap - acc { acc + w } else { cap };
        }
        j += 1;
    }
    proof {
        assert(segs_view(segs@).take(segs@.len() as int) =~= segs_view(segs@));
    }
    acc
}

/// Pads segments with a blank segment up to `tw` columns.
fn pad_segs_exec(segs: &mut Vec<StyledSegment>, tw: usize)
    ensures
        segs_view(final(segs)@) == pad_segs(segs_view(old(segs)@), tw as nat),
{
    let w = segs_width_capped(segs, tw);
    if w < tw {
        let ghost before = segs@;
        segs.push(segment(spaces(tw - w), None));
        proof {
            assert(segs_view(final(segs)@) =~= segs_view(before).push(seg_view(spaces_seq((tw - w) as nat), None)));
        }
    }
}

/// Appends one segment per character of `s`.
fn push_char_segs(segs: &mut Vec<StyledSegment>, s: &str, c: Color)
    ensures
        segs_view(final(segs)@) == segs_view(old(segs)@) + char_segs(s@, c),
{
    let ghost s0 = segs_view(segs@);
    let v = chars_of(s);
    let mut k: usize = 0;
    while k < v.len()
        invariant
            v@ == s@,
            k <= v@.len(),
            segs_view(segs@) == s0 + char_segs(s@.take(k as int), c),
        decreases v@.len() - k,
    {
        let ch = v[k];
        let ghost before = segs_view(segs@);
        let mut t = String::new();
        push_char(&mut t, ch);
        if ch != ' ' {
            segs.push(segment(t, Some(c)));
        } else {
            segs.push(segment(t, None));
        }
        proof {
            assert(t@ =~= seq![ch]);
            assert(segs_view(segs@) =~= before.push(if ch != ' ' { seg_view(seq![ch], Some(c)) } else { seg_view(seq![' '], None) }));
            assert(char_segs(s@.take(k + 1), c) =~= char_segs(s@.take(k as int), c).push(
                if ch != ' ' { seg_view(seq![ch], Some(c)) } else { seg_view(seq![' '], None) },
            ));
        }
        k += 1;
    }
    proof {
        assert(s@.take(s@.len() as int) =~= s@);
    }
}

/// Pushes a styled line and records its view.
fn push_line(out: &mut Vec<StyledLine>, segs: Vec<StyledSegment>)
    ensures
        lines_view(final(out)@) == lines_view(old(out)@).push(segs_view(segs@)),
{
    let ghost v = segs_view(segs@);
    out.push(StyledLine { segments: segs });
    proof {
        assert(lines_view(final(out)@) =~= lines_view(old(out)@).push(v));
    }
}

/// The narrow-screen output as styled lines, for the editor preview on a
/// screen `term_width` columns wide.
#[verifier::rlimit(40)]
pub fn render_mobile_preview(cfg: &Config, info: &SysInfo, ascii_art: &str, term_width: u16, is_narrow: bool) -> (r: Vec<StyledLine>)
    requires
        config_colors_ok(*cfg),
        desk_sizes_ok(cfg.panel, term_width as nat),
    ensures
        lines_view(r@) == preview_spec(*cfg, *info, ascii_art@, term_width as nat, is_narrow),
{
    let tw = term_width as usize;
    let compacted = compact_for_mobile(ascii_art);
    let logo: Vec<String> = if ascii_art.unicode_len() == 0 || is_narrow { Vec::new() } else { compacted };
    proof {
        if logo@.len() == 0 {
            assert(views(logo@) =~= Seq::<Seq<char>>::empty());
        }
        assert(views(logo@) == mobile_logo(ascii_art@, is_narrow));
    }
    let fields = enabled_of_both(&cfg.display.left, &cfg.display.right);
    let mut out: Vec<StyledLine> = Vec::new();

    let tc = title_color_of(cfg);
    let tt = title_text(cfg, info);
    let mut l0: Vec<StyledSegment> = Vec::new();
    l0.push(segment(spaces(2), None));
    l0.push(StyledSegment { text: tt, fg: Some(tc), bg: None, bold: true });
    proof {
        assert(segs_view(l0@) =~= preview_title(*cfg, *info));
    }
    push_line(&mut out, l0);

    let sc = separator_color_of(cfg);
    let st = separator_string(cfg, tw);
    let mut l1: Vec<StyledSegment> = Vec::new();
    l1.push(segment(spaces(2), None));
    l1.push(segment(st, Some(sc)));
    proof {
        assert(segs_view(l1@) =~= preview_separator(*cfg, tw as nat));
    }
    push_line(&mut out, l1);
    let ghost head = lines_view(out@);

    let trimmed = trim_line_ends(&logo);
    let w = max_line_width(&trimmed);
    let center = (if tw > w { tw - w } else { 0 }) / 2;
    let ghost logo_v = views(logo@);
    if logo.len() > 0 {
        let mut i: usize = 0;
        while i < logo.len()
            invariant
                i <= logo@.len(),
                logo_v == views(logo@),
                w == max_width_seq(trim_ends(logo_v)),
                lines_view(out@) == head + Seq::new(i as nat, |k: int| preview_logo_line(logo_v, cfg.logo.colors@, center as nat, w as nat, tw as nat, k)),
            decreases logo@.len() - i,
        {
            let mut segs: Vec<StyledSegment> = Vec::new();
            segs.push(segment(spaces(center), None));
            let ghost sa = segs_view(segs@);
            proof {
                assert(sa =~= seq![seg_view(spaces_seq(center as nat), None)]);
                assert(logo_v[i as int] == logo@[i as int]@);
            }
            let c = palette_color(&cfg.logo.colors, i);
            let t = trim_end(logo[i].as_str());
            let padded = pad_to_chars(&t, w);
            push_char_segs(&mut segs, &padded, c);
            let ghost sb = segs_view(segs@);
            proof {
                assert(sb == seq![seg_view(spaces_seq(center as nat), None)] + char_segs(pad_chars(trim_end_seq(logo_v[i as int]), w as nat), palette_at(cfg.logo.colors@, i as nat)));
            }
            pad_segs_exec(&mut segs, tw);
            let ghost lv = segs_view(segs@);
            push_line(&mut out, segs);
            proof {
                assert(lv =~= preview_logo_line(logo_v, cfg.logo.colors@, center as nat, w as nat, tw as nat, i as int));
                assert(lines_view(out@) =~= head + Seq::new((i + 1) as nat, |k: int| preview_logo_line(logo_v, cfg.logo.colors@, center as nat, w as nat, tw as nat, k)));
            }
            i += 1;
        }
        let mut blank: Vec<StyledSegment> = Vec::new();
        blank.push(segment(spaces(1), None));
        proof {
            assert(spaces_seq(1) =~= seq![' ']);
            assert(segs_view(blank@) =~= seq![seg_view(seq![' '], None)]);
            assert(logo_v.len() == logo@.len());
        }
        push_line(&mut out, blank);
    }
    let ghost after_art = lines_view(out@);
    proof {
        if logo@.len() > 0 {
            assert(after_art =~= head + Seq::new(logo_v.len(), |k: int| preview_logo_line(logo_v, cfg.logo.colors@, center as nat, w as nat, tw as nat, k)).push(seq![seg_view(seq![' '], None)]));
        } else {
            assert(after_art =~= head);
        }
    }
    let p = &cfg.panel;
    let a0 = sat_sub_wide(tw, (p.left_pad as u128) + (p.right_pad as u128) + 2);
    let avail = if a0 < 4 { 4 } else { a0 };
    let mut k: usize = 0;
    while k < fields.len()
        invariant
            k <= fields@.len(),
            fields@.map_values(|f: &FieldDef| *f) == mobile_fields(*cfg),
            config_colors_ok(*cfg),
            avail as int == mobile_avail(cfg.panel, tw as nat),
            lines_view(out@) == after_art + Seq::new(k as nat, |j: int| preview_panel_line(*cfg, *info, mobile_fields(*cfg), tw as nat, j)),
        decreases fields@.len() - k,
    {
        let c = palette_color(&cfg.logo.colors, k);
        let ctx = RenderCtx { info, panel_cfg: &cfg.panel, max_width: avail, fg_color: c };
        let o = render_field(fields[k], &ctx);
        let mut segs: Vec<StyledSegment> = Vec::new();
        segs.push(segment(spaces(cfg.panel.left_pad), None));
        let ghost s0 = segs_view(segs@);
        proof {
            assert(s0 =~= seq![seg_view(spaces_seq(cfg.panel.left_pad as nat), None)]);
            assert(mobile_fields(*cfg)[k as int] == *fields@[k as int]);
        }
        let mut parts = o.styled;
        segs.append(&mut parts);
        proof {
            assert(segs_view(segs@) =~= s0 + segs_view(o.styled@));
        }
        pad_segs_exec(&mut segs, tw);
        let ghost lv = segs_view(segs@);
        push_line(&mut out, segs);
        proof {
            assert(mobile_fields(*cfg)[k as int] == *fields@[k as int]);
            assert(lv =~= preview_panel_line(*cfg, *info, mobile_fields(*cfg), tw as nat, k as int));
            assert(lines_view(out@) =~= after_art + Seq::new((k + 1) as nat, |j: int| preview_panel_line(*cfg, *info, mobile_fields(*cfg), tw as nat, j)));
        }
        k += 1;
    }
    proof {
        assert(fields@.map_values(|f: &FieldDef| *f).len() == fields@.len());
        assert(lines_view(out@) =~= preview_spec(*cfg, *info, ascii_art@, term_width as nat, is_narrow));
    }
    out
}


// ── What the ANSI text shows ─────────────────────────────────────────────

/// The texts of a line's segments, one after the other.
pub open spec fn segs_plain(segs: Seq<SegView>) -> Seq<char>
    decreases segs.len(),
{
    if segs.len() == 0 { Seq::empty() } else { segs_plain(segs.drop_last()) + segs.last().0 }
}

/// The texts of styled lines, each line ended by a line break.
pub open spec fn lines_plain(lines: Seq<Seq<SegView>>) -> Seq<char>
    decreases lines.len(),
{
    if lines.len() == 0 { Seq::empty() } else { lines_plain(lines.drop_last()) + segs_plain(lines.last()) + seq!['\n'] }
}

/// No segment text of `lines` holds an escape character.
pub open spec fn texts_plain(lines: Seq<Seq<SegView>>) -> bool {
    forall|i: int, j: int| 0 <= i < lines.len() && 0 <= j < lines[i].len() ==> !(#[trigger] lines[i][j]).0.contains(esc())
}

proof fn lemma_strip_concat(a: Seq<char>, b: Seq<char>)
    requires
        !strip_state(a).1,
    ensures
        strip_state(a + b) == (strip_state(a).0 + strip_state(b).0, strip_state(b).1),
    decreases b.len(),
{
    if b.len() == 0 {
        assert(a + b =~= a);
        assert(strip_state(a).0 + Seq::<char>::empty() =~= strip_state(a).0);
    } else {
        lemma_strip_concat(a, b.drop_last());
        assert((a + b).drop_last() =~= a + b.drop_last());
        assert((a + b).last() == b.last());
        let x = strip_state(a).0;
        let y = strip_state(b.drop_last()).0;
        assert((x + y).push(b.last()) =~= x + y.push(b.last()));
    }
}

proof fn lemma_strip_open_escape(p: Seq<char>)
    requires
        forall|i: int| 0 <= i < p.len() ==> #[trigger] p[i] != 'm',
    ensures
        strip_state(seq![esc()] + p) == (Seq::<char>::empty(), true),
    decreases p.len(),
{
    if p.len() == 0 {
        assert(seq![esc()] + p =~= seq![esc()]);
        assert(seq![esc()].drop_last() =~= Seq::<char>::empty());
        assert(strip_state(Seq::<char>::empty()) == (Seq::<char>::empty(), false));
        assert(seq![esc()].last() == esc());
    } else {
        lemma_strip_open_escape(p.drop_last());
        assert((seq![esc()] + p).drop_last() =~= seq![esc()] + p.drop_last());
        assert((seq![esc()] + p).last() == p.last());
        assert(p.last() == p[p.len() - 1]);
    }
}

/// An escape sequence `ESC p m` with no `m` in `p` shows nothing.
proof fn lemma_strip_escape(p: Seq<char>)
    requires
        forall|i: int| 0 <= i < p.len() ==> #[trigger] p[i] != 'm',
    ensures
        strip_state(seq![esc()] + p + seq!['m']) == (Seq::<char>::empty(), false),
{
    lemma_strip_open_escape(p);
    assert((seq![esc()] + p + seq!['m']).drop_last() =~= seq![esc()] + p);
}

proof fn lemma_dec_no_m(n: nat)
    ensures
        forall|i: int| 0 <= i < crate::numfmt::dec_seq(n).len() ==> #[trigger] crate::numfmt::dec_seq(n)[i] != 'm',
    decreases n,
{
    if n >= 10 {
        lemma_dec_no_m(n / 10);
        let d = crate::numfmt::dec_seq(n);
        assert forall|i: int| 0 <= i < d.len() implies #[trigger] d[i] != 'm' by {
            if i < d.len() - 1 {
                assert(d[i] == crate::numfmt::dec_seq(n / 10)[i]);
            }
        }
    }
}

/// A colour escape shows nothing.
proof fn lemma_strip_color(c: Color, lead: char)
    requires
        lead == '3' || lead == '4',
    ensures
        strip_state(seq![esc(), '\u{5b}', lead, '8', ';', '2', ';'] + crate::theme::rgb_params_seq(c)) == (Seq::<char>::empty(), false),
{
    let r = crate::numfmt::dec_seq(c.r as nat);
    let g = crate::numfmt::dec_seq(c.g as nat);
    let b = crate::numfmt::dec_seq(c.b as nat);
    lemma_dec_no_m(c.r as nat);
    lemma_dec_no_m(c.g as nat);
    lemma_dec_no_m(c.b as nat);
    let p = seq!['\u{5b}', lead, '8', ';', '2', ';'] + r + seq![';'] + g + seq![';'] + b;
    assert(seq![esc(), '\u{5b}', lead, '8', ';', '2', ';'] + crate::theme::rgb_params_seq(c) =~= seq![esc()] + p + seq!['m']);
    assert forall|i: int| 0 <= i < p.len() implies #[trigger] p[i] != 'm' by {
        let o1 = 6int;
        let o2 = o1 + r.len();
        let o3 = o2 + 1;
        let o4 = o3 + g.len();
        let o5 = o4 + 1;
        if i < o1 {
        } else if i < o2 {
            assert(p[i] == r[i - o1]);
        } else if i < o3 {
        } else if i < o4 {
            assert(p[i] == g[i - o3]);
        } else if i < o5 {
        } else {
            assert(p[i] == b[i - o5]);
        }
    }
    lemma_strip_escape(p);
}

/// One segment's ANSI text shows exactly its text.
proof fn lemma_strip_seg(v: SegView)
    requires
        !v.0.contains(esc()),
    ensures
        strip_state(seg_ansi(v)) == (v.0, false),
{
    let (text, fg, bg, bold) = v;
    let e = Seq::<char>::empty();
    let b0: Seq<char> = if bold { bold_seq() } else { e };
    let f0: Seq<char> = match fg {
        Some(c) => crate::theme::fg_escape_seq(c),
        None => e,
    };
    let g0: Seq<char> = match bg {
        Some(c) => crate::theme::bg_escape_seq(c),
        None => e,
    };
    assert(strip_state(e) == (e, false));
    if bold {
        lemma_strip_escape(seq!['\u{5b}', '1']);
        assert(bold_seq() =~= seq![esc()] + seq!['\u{5b}', '1'] + seq!['m']);
    }
    match fg {
        Some(c) => lemma_strip_color(c, '3'),
        None => {},
    }
    match bg {
        Some(c) => lemma_strip_color(c, '4'),
        None => {},
    }
    assert(strip_state(b0) == (e, false));
    assert(strip_state(f0) == (e, false));
    assert(strip_state(g0) == (e, false));
    assert forall|i: int| 0 <= i < text.len() implies #[trigger] text[i] != esc() by {
        if text[i] == esc() {
            assert(text.contains(esc()));
        }
    }
    crate::text::lemma_strip_plain(text);
    lemma_strip_escape(seq!['\u{5b}', '0']);
    assert(reset_seq() =~= seq![esc()] + seq!['\u{5b}', '0'] + seq!['m']);
    lemma_strip_concat(b0, f0);
    assert(e + e =~= e);
    lemma_strip_concat(b0 + f0, g0);
    lemma_strip_concat(b0 + f0 + g0, text);
    assert(e + text =~= text);
    lemma_strip_concat(b0 + f0 + g0 + text, reset_seq());
    assert(text + e =~= text);
    assert(seg_ansi(v) =~= b0 + f0 + g0 + text + reset_seq());
}

proof fn lemma_strip_segs(segs: Seq<SegView>)
    requires
        forall|j: int| 0 <= j < segs.len() ==> !(#[trigger] segs[j]).0.contains(esc()),
    ensures
        strip_state(segs_ansi(segs)) == (segs_plain(segs), false),
    decreases segs.len(),
{
    if segs.len() > 0 {
        assert forall|j: int| 0 <= j < segs.drop_last().len() implies !(#[trigger] segs.drop_last()[j]).0.contains(esc()) by {
            assert(segs.drop_last()[j] == segs[j]);
        }
        lemma_strip_segs(segs.drop_last());
        assert(segs.last() == segs[segs.len() - 1]);
        lemma_strip_seg(segs.last());
        lemma_strip_concat(segs_ansi(segs.drop_last()), seg_ansi(segs.last()));
    }
}

/// A panel shows the same text in the terminal as in the preview: when it
/// shows a value and no segment text holds an escape character, its ANSI
/// text with the escape sequences stripped is its segments' texts, one
/// after the other.
pub proof fn panel_ansi_shows_segments(def: FieldDef, info: SysInfo, panel: PanelConfig, max_width: usize, fg: Color)
    requires
        crate::widget::panel_value(def, info, panel, max_width).len() > 0,
        forall|j: int| 0 <= j < field_output(def, info, panel, max_width, fg).1.len()
            ==> !(#[trigger] field_output(def, info, panel, max_width, fg).1[j]).0.contains(esc()),
    ensures
        strip_ansi_seq(field_output(def, info, panel, max_width, fg).0) == segs_plain(field_output(def, info, panel, max_width, fg).1),
{
    let o = field_output(def, info, panel, max_width, fg);
    let seg = crate::widget::label_segment(def.icon@, def.label@);
    let vt = crate::widget::panel_value(def, info, panel, max_width);
    let sep_color = crate::widget::arrow_color(panel);
    let val_color = crate::widget::value_color(panel);
    let sep_space = if panel.max_val_width <= 35 { Seq::<char>::empty() } else { seq![' '] };
    let arrow = seq![crate::widget::powerline_arrow()];
    let e = Seq::<char>::empty();
    assert(o.1[0].0 == seg);
    assert(o.1[1].0 == arrow);
    assert(o.1[2].0 == sep_space);
    assert(o.1[3].0 == vt);
    lemma_strip_color(fg, '3');
    lemma_strip_color(sep_color, '3');
    lemma_strip_color(val_color, '3');
    lemma_strip_escape(seq!['\u{5b}', '0']);
    assert(reset_seq() =~= seq![esc()] + seq!['\u{5b}', '0'] + seq!['m']);
    assert forall|t: Seq<char>| !t.contains(esc()) implies forall|i: int| 0 <= i < t.len() ==> #[trigger] t[i] != esc() by {
        assert forall|i: int| 0 <= i < t.len() implies #[trigger] t[i] != esc() by {
            if t[i] == esc() {
                assert(t.contains(esc()));
            }
        }
    }
    crate::text::lemma_strip_plain(seg);
    crate::text::lemma_strip_plain(arrow);
    crate::text::lemma_strip_plain(sep_space);
    crate::text::lemma_strip_plain(vt);
    let f = fg_escape_seq(fg);
    let sc = fg_escape_seq(sep_color);
    let vc = fg_escape_seq(val_color);
    assert(strip_state(f) == (e, false));
    lemma_strip_concat(f, seg);
    assert(e + seg =~= seg);
    lemma_strip_concat(f + seg, sc);
    assert(seg + e =~= seg);
    lemma_strip_concat(f + seg + sc, arrow);
    lemma_strip_concat(f + seg + sc + arrow, sep_space);
    lemma_strip_concat(f + seg + sc + arrow + sep_space, vc);
    assert(seg + arrow + sep_space + e =~= seg + arrow + sep_space);
    lemma_strip_concat(f + seg + sc + arrow + sep_space + vc, vt);
    lemma_strip_concat(f + seg + sc + arrow + sep_space + vc + vt, reset_seq());
    assert(seg + arrow + sep_space + vt + e =~= seg + arrow + sep_space + vt);
    assert(o.0 =~= f + seg + sc + arrow + sep_space + vc + vt + reset_seq());
    reveal_with_fuel(segs_plain, 5);
    assert(segs_plain(o.1) =~= e + seg + arrow + sep_space + vt);
}

/// The ANSI text of styled lines shows exactly their texts: with the escape
/// sequences stripped, each line is its segments' texts followed by a line
/// break (when no text holds an escape character itself).
pub proof fn ansi_strips_to_text(lines: Seq<Seq<SegView>>)
    requires
        texts_plain(lines),
    ensures
        strip_ansi_seq(lines_ansi(lines)) == lines_plain(lines),
    decreases lines.len(),
{
    lemma_strip_lines(lines);
}

proof fn lemma_strip_lines(lines: Seq<Seq<SegView>>)
    requires
        texts_plain(lines),
    ensures
        strip_state(lines_ansi(lines)) == (lines_plain(lines), false),
    decreases lines.len(),
{
    if lines.len() > 0 {
        let init = lines.drop_last();
        assert forall|i: int, j: int| 0 <= i < init.len() && 0 <= j < init[i].len() implies !(#[trigger] init[i][j]).0.contains(esc()) by {
            assert(init[i] == lines[i]);
        }
        lemma_strip_lines(init);
        let l = lines.last();
        assert forall|j: int| 0 <= j < l.len() implies !(#[trigger] l[j]).0.contains(esc()) by {
            assert(l == lines[lines.len() - 1]);
        }
        lemma_strip_segs(l);
        lemma_strip_concat(lines_ansi(init), segs_ansi(l));
        assert(seq!['\n'].drop_last() =~= Seq::<char>::empty());
        assert(strip_state(Seq::<char>::empty()) == (Seq::<char>::empty(), false));
        assert(seq!['\n'].last() == '\n');
        assert('\n' != esc());
        assert(Seq::<char>::empty().push('\n') =~= seq!['\n']);
        assert(strip_state(seq!['\n']) == (seq!['\n'], false));
        lemma_strip_concat(lines_ansi(init) + segs_ansi(l), seq!['\n']);
    }
}

} // verus!

//! What the fetch makes of the system files, settings files and command
//! output it reads: the decisions of the probes, on text that the caller
//! has read.
use vstd::prelude::*;
use crate::strs::{
    contains, contains_seq, ends_with, find, find_seq, split, split_seq, strip_prefix, strip_prefix_seq,
    trim_char_seq, trim_matches,
};
use crate::theme::utf8_len;
use crate::text::{lines, lines_seq, str_eq, string_from_chars, chars_of, to_string, trim, trim_seq, views};

verus! {

/// An optional string by its view.
pub open spec fn opt_view(o: Option<String>) -> Option<Seq<char>> {
    match o {
        Some(s) => Some(s@),
        None => None,
    }
}

/// A line as it is matched: trimmed or as it stands.
pub open spec fn as_matched(l: Seq<char>, trimmed: bool) -> Seq<char> {
    if trimmed { trim_seq(l) } else { l }
}

/// The rest of the first line of `ls` that starts with `prefix` (after
/// trimming the lines, if `trimmed`).
pub open spec fn first_prefixed(ls: Seq<Seq<char>>, prefix: Seq<char>, trimmed: bool) -> Option<Seq<char>>
    decreases ls.len(),
{
    if ls.len() == 0 {
        None
    } else if prefix.is_prefix_of(as_matched(ls[0], trimmed)) {
        Some(as_matched(ls[0], trimmed).skip(prefix.len() as int))
    } else {
        first_prefixed(ls.drop_first(), prefix, trimmed)
    }
}

/// The rest of the first line of `content` that starts with `prefix`
/// (after trimming the lines, if `trimmed`).
pub fn first_prefixed_line(content: &str, prefix: &str, trimmed: bool) -> (r: Option<String>)
    ensures
        opt_view(r) == first_prefixed(lines_seq(content@), prefix@, trimmed),
{
    let ls = lines(content);
    let ghost lv = views(ls@);
    proof {
        assert(lv.skip(0) =~= lv);
    }
    let mut i: usize = 0;
    while i < ls.len()
        invariant
            i <= ls@.len(),
            lv == views(ls@),
            lv == lines_seq(content@),
            first_prefixed(lv, prefix@, trimmed) == first_prefixed(lv.skip(i as int), prefix@, trimmed),
        decreases ls@.len() - i,
    {
        let t = if trimmed { trim(ls[i].as_str()) } else { to_string(ls[i].as_str()) };
        proof {
            assert(lv.skip(i as int)[0] == ls@[i as int]@);
            assert(lv.skip(i as int).drop_first() =~= lv.skip(i + 1));
        }
        match strip_prefix(&t, prefix) {
            Some(rest) => {
                return Some(rest);
            },
            None => {},
        }
        i += 1;
    }
    proof {
        assert(lv.skip(i as int) =~= Seq::<Seq<char>>::empty());
    }
    None
}

/// Settings files that name the terminal font on a `key value` line.
#[derive(Debug, Clone, Copy, PartialEq, Eq, Structural)]
pub enum FontFile {
    /// `~/.config/kitty/kitty.conf`: `font_family NAME`.
    Kitty,
    /// `~/.config/alacritty/alacritty.yml`: `family: NAME`.
    AlacrittyYaml,
    /// `~/.config/alacritty/alacritty.toml`: `family = NAME`.
    AlacrittyToml,
    /// `~/.config/ghostty/config`: `font-family = NAME`.
    Ghostty,
    /// `~/.config/foot/foot.ini`: `font=NAME`.
    Foot,
    /// `~/.config/konsolerc`: `Font=NAME`.
    Konsole,
}

/// The key a font file names the font with.
pub open spec fn font_key(f: FontFile) -> Seq<char> {
    match f {
        FontFile::Kitty => "font_family "@,
        FontFile::AlacrittyYaml => "family:"@,
        FontFile::AlacrittyToml => "family ="@,
        FontFile::Ghostty => "font-family ="@,
        FontFile::Foot => "font="@,
        FontFile::Konsole => "Font="@,
    }
}

/// Whether the value may be quoted.
pub open spec fn font_quoted(f: FontFile) -> bool {
    f == FontFile::Kitty || f == FontFile::AlacrittyYaml || f == FontFile::AlacrittyToml
}

/// The font a settings file names: the trimmed rest of the first line
/// that starts with the file's key, without surrounding quotes where the
/// format quotes it.
pub open spec fn font_setting_spec(content: Seq<char>, f: FontFile) -> Option<Seq<char>> {
    match first_prefixed(lines_seq(content), font_key(f), true) {
        Some(v) => Some(if font_quoted(f) { trim_char_seq(trim_seq(v), '"') } else { trim_seq(v) }),
        None => None,
    }
}

/// The font named in a terminal's settings file.
pub fn font_setting(content: &str, f: FontFile) -> (r: Option<String>)
    ensures
        opt_view(r) == font_setting_spec(content@, f),
{
    let key = match f {
        FontFile::Kitty => "font_family ",
        FontFile::AlacrittyYaml => "family:",
        FontFile::AlacrittyToml => "family =",
        FontFile::Ghostty => "font-family =",
        FontFile::Foot => "font=",
        FontFile::Konsole => "Font=",
    };
    let quoted = match f {
        FontFile::Kitty | FontFile::AlacrittyYaml | FontFile::AlacrittyToml => true,
        _ => false,
    };
    match first_prefixed_line(content, key, true) {
        Some(v) => {
            let t = trim(&v);
            if quoted {
                Some(trim_matches(&t, '"'))
            } else {
                Some(t)
            }
        },
        None => None,
    }
}

/// The text between the first `q` of `line` and the next `q`.
pub open spec fn quoted_spec(line: Seq<char>, q: Seq<char>) -> Option<Seq<char>> {
    match find_seq(line, q) {
        Some(s) => match find_seq(line.skip(s + 1), q) {
            Some(e) => Some(line.subrange(s + 1, s + 1 + e)),
            None => None,
        },
        None => None,
    }
}

/// The font of a WezTerm line that sets one: the first double-quoted
/// text, or else the first single-quoted text.
pub open spec fn wezterm_line_font(line: Seq<char>) -> Option<Seq<char>> {
    if contains_seq(line, "font = wezterm.font"@) || contains_seq(line, "font="@) {
        match quoted_spec(line, "\""@) {
            Some(v) => Some(v),
            None => quoted_spec(line, "'"@),
        }
    } else {
        None
    }
}

/// The font of the first trimmed line of `ls` that sets one.
pub open spec fn wezterm_font_in(ls: Seq<Seq<char>>) -> Option<Seq<char>>
    decreases ls.len(),
{
    if ls.len() == 0 {
        None
    } else {
        match wezterm_line_font(trim_seq(ls[0])) {
            Some(v) => Some(v),
            None => wezterm_font_in(ls.drop_first()),
        }
    }
}

fn quoted(line: &str, q: &str) -> (r: Option<String>)
    requires
        q@.len() == 1,
    ensures
        opt_view(r) == quoted_spec(line@, q@),
{
    match find(line, q) {
        Some(s) => {
            let v = chars_of(line);
            assert(s < v.len());
            let rest = string_from_chars(&v, s + 1, v.len());
            proof {
                assert(rest@ =~= line@.skip(s + 1));
            }
            match find(&rest, q) {
                Some(e) => {
                    let r = string_from_chars(&v, s + 1, s + 1 + e);
                    proof {
                        assert(r@ =~= line@.subrange(s + 1, s + 1 + e));
                    }
                    Some(r)
                },
                None => None,
            }
        },
        None => None,
    }
}

fn wezterm_line(line: &str) -> (r: Option<String>)
    ensures
        opt_view(r) == wezterm_line_font(line@),
{
    if contains(line, "font = wezterm.font") || contains(line, "font=") {
        proof {
            reveal_strlit("\"");
            reveal_strlit("'");
        }
        match quoted(line, "\"") {
            Some(v) => Some(v),
            None => quoted(line, "'"),
        }
    } else {
        None
    }
}

/// The font set in a WezTerm configuration.
pub fn wezterm_font(content: &str) -> (r: Option<String>)
    ensures
        opt_view(r) == wezterm_font_in(lines_seq(content@)),
{
    let ls = lines(content);
    let ghost lv = views(ls@);
    proof {
        assert(lv.skip(0) =~= lv);
    }
    let mut i: usize = 0;
    while i < ls.len()
        invariant
            i <= ls@.len(),
            lv == views(ls@),
            lv == lines_seq(content@),
            wezterm_font_in(lv) == wezterm_font_in(lv.skip(i as int)),
        decreases ls@.len() - i,
    {
        let t = trim(ls[i].as_str());
        proof {
            assert(lv.skip(i as int)[0] == ls@[i as int]@);
            assert(lv.skip(i as int).drop_first() =~= lv.skip(i + 1));
        }
        match wezterm_line(&t) {
            Some(v) => {
                return Some(v);
            },
            None => {},
        }
        i += 1;
    }
    proof {
        assert(lv.skip(i as int) =~= Seq::<Seq<char>>::empty());
    }
    None
}

/// The font of an X resources line that sets one: a line ending in
/// `.font:` or holding `*font:` gives the trimmed text after its first
/// colon.
pub open spec fn xresources_line_font(line: Seq<char>) -> Option<Seq<char>> {
    if ".font:"@.is_suffix_of(line) || contains_seq(line, "*font:"@) {
        let parts = split_seq(line, ':');
        if parts.len() > 1 { Some(trim_seq(parts[1])) } else { None }
    } else {
        None
    }
}

/// The font of the first trimmed line of `ls` that sets one.
pub open spec fn xresources_font_in(ls: Seq<Seq<char>>) -> Option<Seq<char>>
    decreases ls.len(),
{
    if ls.len() == 0 {
        None
    } else {
        match xresources_line_font(trim_seq(ls[0])) {
            Some(v) => Some(v),
            None => xresources_font_in(ls.drop_first()),
        }
    }
}

fn xresources_line(line: &str) -> (r: Option<String>)
    ensures
        opt_view(r) == xresources_line_font(line@),
{
    if ends_with(line, ".font:") || contains(line, "*font:") {
        let parts = split(line, ':');
        if parts.len() > 1 {
            Some(trim(parts[1].as_str()))
        } else {
            None
        }
    } else {
        None
    }
}

/// The font set in an `.Xresources` or `.Xdefaults` file.
pub fn xresources_font(content: &str) -> (r: Option<String>)
    ensures
        opt_view(r) == xresources_font_in(lines_seq(content@)),
{
    let ls = lines(content);
    let ghost lv = views(ls@);
    proof {
        assert(lv.skip(0) =~= lv);
    }
    let mut i: usize = 0;
    while i < ls.len()
        invariant
            i <= ls@.len(),
            lv == views(ls@),
            lv == lines_seq(content@),
            xresources_font_in(lv) == xresources_font_in(lv.skip(i as int)),
        decreases ls@.len() - i,
    {
        let t = trim(ls[i].as_str());
        proof {
            assert(lv.skip(i as int)[0] == ls@[i as int]@);
            assert(lv.skip(i as int).drop_first() =~= lv.skip(i + 1));
        }
        match xresources_line(&t) {
            Some(v) => {
                return Some(v);
            },
            None => {},
        }
        i += 1;
    }
    proof {
        assert(lv.skip(i as int) =~= Seq::<Seq<char>>::empty());
    }
    None
}

/// The font that `gsettings` printed: its trimmed output without single
/// quotes, unless that is empty or the empty-array marker `@as`.
pub open spec fn gsettings_font_spec(out: Seq<char>) -> Option<Seq<char>> {
    let f = trim_char_seq(trim_seq(out), '\'');
    if f.len() > 0 && f != "@as"@ { Some(f) } else { None }
}

/// The font from the output of `gsettings get ... font`.
pub fn gsettings_font(out: &str) -> (r: Option<String>)
    ensures
        opt_view(r) == gsettings_font_spec(out@),
{
    let t = trim(out);
    let f = trim_matches(&t, '\'');
    if f.unicode_len() > 0 && !str_eq(f.as_str(), "@as") {
        Some(f)
    } else {
        None
    }
}

/// What the font lookup reads, in the order it is tried; `None` for a
/// file that could not be read or a command that could not be run.
pub struct FontSources {
    pub kitty: Option<String>,
    pub alacritty_yaml: Option<String>,
    pub alacritty_toml: Option<String>,
    pub wezterm: Option<String>,
    pub ghostty: Option<String>,
    pub foot: Option<String>,
    pub xresources: Option<String>,
    pub xdefaults: Option<String>,
    /// Output of `gsettings get ... font`.
    pub gsettings: Option<String>,
    pub konsole: Option<String>,
    /// Values of `TERM_FONT`, `FONT` and `TERMINAL_FONT` (empty when unset).
    pub env: Vec<String>,
}

/// `f` applied to the text, when there is one.
pub open spec fn parsed(o: Option<String>, f: spec_fn(Seq<char>) -> Option<Seq<char>>) -> Option<Seq<char>> {
    match o {
        Some(c) => f(c@),
        None => None,
    }
}

/// The first present value.
pub open spec fn first_some(s: Seq<Option<Seq<char>>>) -> Option<Seq<char>>
    decreases s.len(),
{
    if s.len() == 0 {
        None
    } else {
        match s[0] {
            Some(v) => Some(v),
            None => first_some(s.drop_first()),
        }
    }
}

/// The first non-empty string, or the empty string.
pub open spec fn first_nonempty(s: Seq<Seq<char>>) -> Seq<char>
    decreases s.len(),
{
    if s.len() == 0 {
        Seq::empty()
    } else if s[0].len() > 0 {
        s[0]
    } else {
        first_nonempty(s.drop_first())
    }
}

/// What each source names, in the order they are tried.
pub open spec fn font_candidates(s: FontSources) -> Seq<Option<Seq<char>>> {
    seq![
        parsed(s.kitty, |c: Seq<char>| font_setting_spec(c, FontFile::Kitty)),
        parsed(s.alacritty_yaml, |c: Seq<char>| font_setting_spec(c, FontFile::AlacrittyYaml)),
        parsed(s.alacritty_toml, |c: Seq<char>| font_setting_spec(c, FontFile::AlacrittyToml)),
        parsed(s.wezterm, |c: Seq<char>| wezterm_font_in(lines_seq(c))),
        parsed(s.ghostty, |c: Seq<char>| font_setting_spec(c, FontFile::Ghostty)),
        parsed(s.foot, |c: Seq<char>| font_setting_spec(c, FontFile::Foot)),
        parsed(s.xresources, |c: Seq<char>| xresources_font_in(lines_seq(c))),
        parsed(s.xdefaults, |c: Seq<char>| xresources_font_in(lines_seq(c))),
        parsed(s.gsettings, |c: Seq<char>| gsettings_font_spec(c)),
        parsed(s.konsole, |c: Seq<char>| font_setting_spec(c, FontFile::Konsole)),
    ]
}

/// The terminal font: the first that a settings file or `gsettings` names,
/// else the first set font variable, else nothing.
pub open spec fn font_spec(s: FontSources) -> Seq<char> {
    match first_some(font_candidates(s)) {
        Some(f) => f,
        None => first_nonempty(views(s.env@)),
    }
}

fn setting_of(o: &Option<String>, f: FontFile) -> (r: Option<String>)
    ensures
        opt_view(r) == parsed(*o, |c: Seq<char>| font_setting_spec(c, f)),
{
    match o {
        Some(c) => font_setting(c.as_str(), f),
        None => None,
    }
}

fn xres_of(o: &Option<String>) -> (r: Option<String>)
    ensures
        opt_view(r) == parsed(*o, |c: Seq<char>| xresources_font_in(lines_seq(c))),
{
    match o {
        Some(c) => xresources_font(c.as_str()),
        None => None,
    }
}

/// The terminal font named by the first source that names one.
pub fn detect_font(s: &FontSources) -> (r: String)
    ensures
        r@ == font_spec(*s),
{
    let ghost cands = font_candidates(*s);
    let mut found: Vec<Option<String>> = Vec::new();
    found.push(setting_of(&s.kitty, FontFile::Kitty));
    found.push(setting_of(&s.alacritty_yaml, FontFile::AlacrittyYaml));
    found.push(setting_of(&s.alacritty_toml, FontFile::AlacrittyToml));
    found.push(
        match &s.wezterm {
            Some(c) => wezterm_font(c.as_str()),
            None => None,
        },
    );
    found.push(setting_of(&s.ghostty, FontFile::Ghostty));
    found.push(setting_of(&s.foot, FontFile::Foot));
    found.push(xres_of(&s.xresources));
    found.push(xres_of(&s.xdefaults));
    found.push(
        match &s.gsettings {
            Some(c) => gsettings_font(c.as_str()),
            None => None,
        },
    );
    found.push(setting_of(&s.konsole, FontFile::Konsole));
    let ghost fv = found@.map_values(|o: Option<String>| opt_view(o));
    proof {
        assert(fv =~= cands);
        assert(fv.skip(0) =~= fv);
    }
    let mut i: usize = 0;
    while i < found.len()
        invariant
            i <= found@.len(),
            fv == found@.map_values(|o: Option<String>| opt_view(o)),
            fv == cands,
            cands == font_candidates(*s),
            first_some(fv) == first_some(fv.skip(i as int)),
        decreases found@.len() - i,
    {
        proof {
            assert(fv.skip(i as int)[0] == opt_view(found@[i as int]));
            assert(fv.skip(i as int).drop_first() =~= fv.skip(i + 1));
        }
        match &found[i] {
            Some(f) => {
                return to_string(f.as_str());
            },
            None => {},
        }
        i += 1;
    }
    proof {
        assert(fv.skip(i as int) =~= Seq::<Option<Seq<char>>>::empty());
        assert(views(s.env@).skip(0) =~= views(s.env@));
    }
    let mut j: usize = 0;
    while j < s.env.len()
        invariant
            j <= s.env@.len(),
            first_some(font_candidates(*s)) is None,
            first_nonempty(views(s.env@)) == first_nonempty(views(s.env@).skip(j as int)),
        decreases s.env@.len() - j,
    {
        proof {
            assert(views(s.env@).skip(j as int)[0] == s.env@[j as int]@);
            assert(views(s.env@).skip(j as int).drop_first() =~= views(s.env@).skip(j + 1));
        }
        if s.env[j].unicode_len() > 0 {
            return to_string(s.env[j].as_str());
        }
        j += 1;
    }
    proof {
        assert(views(s.env@).skip(j as int) =~= Seq::<Seq<char>>::empty());
    }
    String::new()
}

// ── Graphics card ────────────────────────────────────────────────────────

/// The characters that make up the first `n` bytes of `s`, when `n` falls
/// on a character boundary within `s` (where `&s[..n]` does not panic).
pub open spec fn byte_prefix(s: Seq<char>, n: int) -> Option<Seq<char>>
    decreases s.len(),
{
    if n == 0 {
        Some(Seq::empty())
    } else if n < 0 || s.len() == 0 || utf8_len(s[0]) > n {
        None
    } else {
        match byte_prefix(s.drop_first(), n - utf8_len(s[0])) {
            Some(t) => Some(seq![s[0]] + t),
            None => None,
        }
    }
}

/// `&s[a..b]` by characters, when both ends fall on character boundaries.
pub open spec fn byte_slice(s: Seq<char>, a: int, b: int) -> Option<Seq<char>> {
    match (byte_prefix(s, a), byte_prefix(s, b)) {
        (Some(p), Some(q)) => if p.len() <= q.len() { Some(q.skip(p.len() as int)) } else { None },
        _ => None,
    }
}

/// The characters of the first `n` bytes of `s`, if `n` is a boundary.
pub fn byte_prefix_of(s: &str, n: usize) -> (r: Option<String>)
    ensures
        opt_view(r) == byte_prefix(s@, n as int),
{
    let v = chars_of(s);
    proof {
        assert(v@.skip(0) =~= v@);
        match byte_prefix(s@, n as int) {
            Some(t) => {
                assert(v@.take(0) + t =~= t);
            },
            None => {},
        }
    }
    let mut i: usize = 0;
    let mut used: usize = 0;
    while i < v.len() && used < n
        invariant
            i <= v@.len(),
            used <= n,
            v@ == s@,
            byte_prefix(s@, n as int) == match byte_prefix(v@.skip(i as int), n - used) {
                Some(t) => Some(v@.take(i as int) + t),
                None => None,
            },
        decreases v@.len() - i,
    {
        let w = crate::theme::utf8_width(v[i]);
        proof {
            let t = v@.skip(i as int);
            assert(t[0] == v@[i as int]);
            assert(t.drop_first() =~= v@.skip(i + 1));
            assert(v@.take(i as int) + seq![v@[i as int]] =~= v@.take(i + 1));
            if w <= n - used {
                match byte_prefix(t.drop_first(), n - used - w) {
                    Some(u) => {
                        assert(v@.take(i as int) + (seq![t[0]] + u) =~= v@.take(i + 1) + u);
                    },
                    None => {},
                }
            }
        }
        if w > n - used {
            return None;
        }
        used = used + w;
        i += 1;
    }
    if used == n {
        proof {
            assert(v@.take(i as int) + Seq::<char>::empty() =~= v@.take(i as int));
        }
        Some(string_from_chars(&v, 0, i))
    } else {
        proof {
            assert(v@.skip(i as int).len() == 0);
        }
        None
    }
}

/// `&s[len - n..]` by characters: the last `n` bytes of `s`, when they are
/// whole characters (`None` when `s` is shorter or the cut falls inside a
/// character).
pub open spec fn byte_suffix(s: Seq<char>, n: int) -> Option<Seq<char>>
    decreases s.len(),
{
    if n == 0 {
        Some(Seq::empty())
    } else if n < 0 || s.len() == 0 || utf8_len(s.last()) > n {
        None
    } else {
        match byte_suffix(s.drop_last(), n - utf8_len(s.last())) {
            Some(t) => Some(t.push(s.last())),
            None => None,
        }
    }
}

/// The last `n` bytes of `s` (see `byte_suffix`).
pub fn byte_suffix_of(s: &str, n: usize) -> (r: Option<String>)
    ensures
        opt_view(r) == byte_suffix(s@, n as int),
{
    let v = chars_of(s);
    let mut i: usize = v.len();
    let mut used: usize = 0;
    proof {
        assert(v@.take(v@.len() as int) =~= v@);
        assert(v@.skip(v@.len() as int) =~= Seq::<char>::empty());
        match byte_suffix(s@, n as int) {
            Some(t) => {
                assert(t + Seq::<char>::empty() =~= t);
            },
            None => {},
        }
    }
    while i > 0 && used < n
        invariant
            i <= v@.len(),
            used <= n,
            v@ == s@,
            byte_suffix(s@, n as int) == match byte_suffix(v@.take(i as int), n - used) {
                Some(t) => Some(t + v@.skip(i as int)),
                None => None,
            },
        decreases i,
    {
        let c = v[i - 1];
        let w = crate::theme::utf8_width(c);
        proof {
            let t = v@.take(i as int);
            assert(t.last() == c);
            assert(t.drop_last() =~= v@.take(i - 1));
            if w <= n - used {
                match byte_suffix(t.drop_last(), n - used - w) {
                    Some(u) => {
                        assert(u.push(c) + v@.skip(i as int) =~= u + v@.skip(i - 1));
                    },
                    None => {},
                }
            }
        }
        if w > n - used {
            return None;
        }
        used = used + w;
        i -= 1;
    }
    if used == n {
        proof {
            assert(Seq::<char>::empty() + v@.skip(i as int) =~= v@.skip(i as int));
            assert(v@.skip(i as int) =~= v@.subrange(i as int, v@.len() as int));
        }
        Some(string_from_chars(&v, i, v.len()))
    } else {
        proof {
            assert(v@.take(i as int).len() == 0);
        }
        None
    }
}

/// What the `uevent` of a card shows.
pub enum UeventGpu {
    /// Driven by `amdgpu`.
    Amd,
    /// Driven by `nvidia`.
    Nvidia,
    /// A vendor read from the PCI id in `MODALIAS`.
    Vendor(String),
    /// Nothing of use.
    Unknown,
}

/// View of `UeventGpu`.
pub enum UeventView {
    Amd,
    Nvidia,
    Vendor(Seq<char>),
    Unknown,
}

/// View of a `UeventGpu`.
pub open spec fn uevent_view(u: UeventGpu) -> UeventView {
    match u {
        UeventGpu::Amd => UeventView::Amd,
        UeventGpu::Nvidia => UeventView::Nvidia,
        UeventGpu::Vendor(s) => UeventView::Vendor(s@),
        UeventGpu::Unknown => UeventView::Unknown,
    }
}

/// The vendor of a four-digit PCI vendor id.
pub open spec fn pci_vendor_spec(id: Seq<char>) -> Seq<char> {
    if id == "1002"@ || id == "1022"@ {
        "AMD"@
    } else if id == "10de"@ {
        "NVIDIA"@
    } else if id == "8086"@ {
        "Intel"@
    } else {
        "PCI:"@ + id
    }
}

/// The vendor of a PCI vendor id.
pub fn pci_vendor(id: &str) -> (r: String)
    ensures
        r@ == pci_vendor_spec(id@),
{
    if str_eq(id, "1002") || str_eq(id, "1022") {
        to_string("AMD")
    } else if str_eq(id, "10de") {
        to_string("NVIDIA")
    } else if str_eq(id, "8086") {
        to_string("Intel")
    } else {
        let mut r = to_string("PCI:");
        crate::text::push_str(&mut r, id);
        r
    }
}

/// The PCI part of a `MODALIAS` line: the text after its first `pci:v`, up
/// to the next one.
pub open spec fn pci_piece(line: Seq<char>) -> Option<Seq<char>> {
    match find_seq(line, "pci:v"@) {
        Some(i) => {
            let after = line.skip(i + 5);
            Some(
                match find_seq(after, "pci:v"@) {
                    Some(j) => after.take(j),
                    None => after,
                },
            )
        },
        None => None,
    }
}

/// The vendor id of a `MODALIAS` line: the last four bytes of the vendor
/// field (the text before the first `d` of its PCI part, eight hex digits
/// such as `00008086` for Intel). `Some(None)` where those bytes are no
/// whole characters (reading them panics); `None` where the line has none.
pub open spec fn modalias_vendor_id(line: Seq<char>) -> Option<Option<Seq<char>>> {
    match pci_piece(line) {
        Some(p) => {
            let parts = split_seq(p, 'd');
            if parts.len() >= 2 { Some(byte_suffix(parts[0], 4)) } else { None }
        },
        None => None,
    }
}

/// One line of a `uevent` read with the driver and device found so far:
/// the outcome when the scan stops there, or the next driver and device.
pub open spec fn uevent_line(line: Seq<char>, vendor: Seq<char>, device: Seq<char>) -> Result<UeventView, (Seq<char>, Seq<char>)> {
    let v = match strip_prefix_seq(line, "DRIVER="@) {
        Some(d) => d,
        None => vendor,
    };
    if v == "amdgpu"@ {
        Ok(UeventView::Amd)
    } else if v == "nvidia"@ {
        Ok(UeventView::Nvidia)
    } else if "MODALIAS"@.is_prefix_of(line) && device.len() == 0 {
        match modalias_vendor_id(line) {
            Some(Some(id)) => Err((v, pci_vendor_spec(id))),
            _ => Err((v, device)),
        }
    } else {
        Err((v, device))
    }
}

/// A `uevent` read line by line from the given driver and device.
pub open spec fn uevent_scan(ls: Seq<Seq<char>>, vendor: Seq<char>, device: Seq<char>) -> UeventView
    decreases ls.len(),
{
    if ls.len() == 0 {
        if device.len() > 0 { UeventView::Vendor(device) } else { UeventView::Unknown }
    } else {
        match uevent_line(ls[0], vendor, device) {
            Ok(u) => u,
            Err((v, d)) => uevent_scan(ls.drop_first(), v, d),
        }
    }
}

/// Whether reading a `uevent` from the given driver and device reaches a
/// `MODALIAS` line whose vendor id cuts a character.
pub open spec fn uevent_scan_panics(ls: Seq<Seq<char>>, vendor: Seq<char>, device: Seq<char>) -> bool
    decreases ls.len(),
{
    if ls.len() == 0 {
        false
    } else {
        let v = match strip_prefix_seq(ls[0], "DRIVER="@) {
            Some(d) => d,
            None => vendor,
        };
        if v == "amdgpu"@ || v == "nvidia"@ {
            false
        } else if "MODALIAS"@.is_prefix_of(ls[0]) && device.len() == 0 && modalias_vendor_id(ls[0]) == Some(
            None::<Seq<char>>,
        ) {
            true
        } else {
            match uevent_line(ls[0], vendor, device) {
                Ok(_) => false,
                Err((v2, d2)) => uevent_scan_panics(ls.drop_first(), v2, d2),
            }
        }
    }
}

fn pci_piece_of(line: &str) -> (r: Option<String>)
    ensures
        opt_view(r) == pci_piece(line@),
{
    match find(line, "pci:v") {
        Some(i) => {
            proof {
                reveal_strlit("pci:v");
            }
            let v = chars_of(line);
            assert(i < v.len());
            let after = string_from_chars(&v, i + 5, v.len());
            proof {
                assert(after@ =~= line@.skip(i + 5));
            }
            match find(&after, "pci:v") {
                Some(j) => {
                    let av = chars_of(&after);
                    let p = string_from_chars(&av, 0, j);
                    proof {
                        assert(p@ =~= after@.take(j as int));
                    }
                    Some(p)
                },
                None => Some(after),
            }
        },
        None => None,
    }
}

fn modalias_vendor(line: &str) -> (r: Option<Option<String>>)
    ensures
        match r {
            Some(Some(s)) => modalias_vendor_id(line@) == Some(Some(s@)),
            Some(None) => modalias_vendor_id(line@) == Some(None::<Seq<char>>),
            None => modalias_vendor_id(line@) is None,
        },
{
    match pci_piece_of(line) {
        Some(piece) => {
            let parts = split(&piece, 'd');
            if parts.len() >= 2 {
                Some(byte_suffix_of(parts[0].as_str(), 4))
            } else {
                None
            }
        },
        None => None,
    }
}

/// What the `uevent` of a graphics card shows.
pub fn uevent_gpu(uevent: &str) -> (r: UeventGpu)
    requires
        !uevent_scan_panics(lines_seq(uevent@), Seq::empty(), Seq::empty()),
    ensures
        uevent_view(r) == uevent_scan(lines_seq(uevent@), Seq::empty(), Seq::empty()),
{
    let ls = lines(uevent);
    let ghost lv = views(ls@);
    let mut vendor = String::new();
    let mut device = String::new();
    proof {
        assert(lv.skip(0) =~= lv);
    }
    let mut i: usize = 0;
    while i < ls.len()
        invariant
            i <= ls@.len(),
            lv == views(ls@),
            lv == lines_seq(uevent@),
            uevent_scan(lv, Seq::empty(), Seq::empty()) == uevent_scan(lv.skip(i as int), vendor@, device@),
            !uevent_scan_panics(lv.skip(i as int), vendor@, device@),
        decreases ls@.len() - i,
    {
        let line = ls[i].as_str();
        proof {
            assert(lv.skip(i as int)[0] == line@);
            assert(lv.skip(i as int).drop_first() =~= lv.skip(i + 1));
            reveal_strlit("amdgpu");
            reveal_strlit("nvidia");
        }
        match strip_prefix(line, "DRIVER=") {
            Some(d) => {
                vendor = d;
            },
            None => {},
        }
        if str_eq(vendor.as_str(), "amdgpu") {
            return UeventGpu::Amd;
        }
        if str_eq(vendor.as_str(), "nvidia") {
            return UeventGpu::Nvidia;
        }
        if crate::strs::starts_with(line, "MODALIAS") && device.unicode_len() == 0 {
            match modalias_vendor(line) {
                Some(Some(id)) => {
                    device = pci_vendor(&id);
                },
                _ => {},
            }
        }
        i += 1;
    }
    proof {
        assert(lv.skip(i as int) =~= Seq::<Seq<char>>::empty());
    }
    if device.unicode_len() > 0 {
        UeventGpu::Vendor(device)
    } else {
        UeventGpu::Unknown
    }
}

/// Whether a DRM entry is a card (not a render node or a connector's
/// parent): its name starts with `card` and has no `render` in it.
pub open spec fn is_gpu_card_spec(name: Seq<char>) -> bool {
    "card"@.is_prefix_of(name) && !contains_seq(name, "render"@)
}

/// Whether a DRM entry names a graphics card.
pub fn is_gpu_card(name: &str) -> (b: bool)
    ensures
        b == is_gpu_card_spec(name@),
{
    crate::strs::starts_with(name, "card") && !contains(name, "render")
}

/// What is read of one DRM card's device; `None` for a file that could not
/// be read.
pub struct CardFiles {
    pub uevent: Option<String>,
    pub product_name: Option<String>,
    pub model: Option<String>,
    pub class: Option<String>,
    pub vendor: Option<String>,
}

/// The trimmed text, when there is some.
pub open spec fn nonblank(o: Option<String>) -> Option<Seq<char>> {
    match o {
        Some(x) => if trim_seq(x@).len() > 0 { Some(trim_seq(x@)) } else { None },
        None => None,
    }
}

/// The vendor a sysfs vendor id (trimmed) names in the class fallback;
/// an unknown id shows its four hex digits.
pub open spec fn sysfs_vendor_spec(v: Seq<char>) -> Seq<char> {
    if v == "0x1002"@ || v == "0x1022"@ {
        "AMD"@
    } else if v == "0x10de"@ {
        "NVIDIA"@
    } else if v == "0x8086"@ {
        "Intel"@
    } else {
        match byte_slice(v, 2, 6) {
            Some(x) => "GPU (0x"@ + x + ")"@,
            None => Seq::empty(),
        }
    }
}

/// An unknown vendor id whose bytes 2 to 6 are no whole characters
/// (reading them panics).
pub open spec fn sysfs_vendor_panics(v: Seq<char>) -> bool {
    !(v == "0x1002"@ || v == "0x1022"@ || v == "0x10de"@ || v == "0x8086"@) && byte_slice(v, 2, 6) is None
}

/// Whether the class file names a VGA or 3D controller.
pub open spec fn is_display_class(c: Option<String>) -> bool {
    match c {
        Some(x) => contains_seq(trim_seq(x@), "0300"@) || contains_seq(trim_seq(x@), "0302"@),
        None => false,
    }
}

/// The graphics card's name from its `uevent`: the product name (or "AMD
/// Radeon") of an AMD card, the model (or "NVIDIA") of an NVIDIA card, the
/// PCI vendor otherwise.
pub open spec fn uevent_card_gpu(c: CardFiles) -> Option<Seq<char>> {
    match c.uevent {
        Some(u) => match uevent_scan(lines_seq(u@), Seq::empty(), Seq::empty()) {
            UeventView::Amd => Some(
                crate::info::shorten_gpu_spec(
                    match nonblank(c.product_name) {
                        Some(t) => t,
                        None => "AMD Radeon"@,
                    },
                ),
            ),
            UeventView::Nvidia => Some(
                match c.model {
                    Some(m) => crate::info::shorten_gpu_spec(trim_seq(m@)),
                    None => "NVIDIA"@,
                },
            ),
            UeventView::Vendor(d) => Some(d),
            UeventView::Unknown => None,
        },
        None => None,
    }
}

/// The graphics card a DRM card shows: from its `uevent`, else from its
/// class and vendor files, else none.
pub open spec fn card_gpu_spec(c: CardFiles) -> Option<Seq<char>> {
    match uevent_card_gpu(c) {
        Some(g) => Some(g),
        None => if is_display_class(c.class) {
            match c.vendor {
                Some(v) => Some(sysfs_vendor_spec(trim_seq(v@))),
                None => None,
            }
        } else {
            None
        },
    }
}

/// Whether reading the card panics: its `uevent` cuts a character in a
/// vendor id, or the class fallback does in the vendor file.
pub open spec fn card_panics(c: CardFiles) -> bool {
    ||| (match c.uevent {
        Some(u) => uevent_scan_panics(lines_seq(u@), Seq::empty(), Seq::empty()),
        None => false,
    })
    ||| (uevent_card_gpu(c) is None && is_display_class(c.class) && match c.vendor {
        Some(v) => sysfs_vendor_panics(trim_seq(v@)),
        None => false,
    })
}

fn sysfs_vendor(v: &str) -> (r: String)
    requires
        !sysfs_vendor_panics(v@),
    ensures
        r@ == sysfs_vendor_spec(v@),
{
    if str_eq(v, "0x1002") || str_eq(v, "0x1022") {
        to_string("AMD")
    } else if str_eq(v, "0x10de") {
        to_string("NVIDIA")
    } else if str_eq(v, "0x8086") {
        to_string("Intel")
    } else {
        let p2 = byte_prefix_of(v, 2);
        let p6 = byte_prefix_of(v, 6);
        match (p2, p6) {
            (Some(a), Some(b)) => {
                let bv = chars_of(&b);
                let n = a.unicode_len();
                if n <= bv.len() {
                    let x = string_from_chars(&bv, n, bv.len());
                    proof {
                        assert(x@ =~= b@.skip(a@.len() as int));
                    }
                    let mut r = to_string("GPU (0x");
                    crate::text::push_str(&mut r, &x);
                    crate::text::push_str(&mut r, ")");
                    r
                } else {
                    String::new()
                }
            },
            _ => String::new(),
        }
    }
}

fn nonblank_of(o: &Option<String>) -> (r: Option<String>)
    ensures
        opt_view(r) == nonblank(*o),
{
    match o {
        Some(x) => {
            let t = trim(x.as_str());
            if t.unicode_len() > 0 {
                Some(t)
            } else {
                None
            }
        },
        None => None,
    }
}

fn uevent_part(c: &CardFiles) -> (r: Option<String>)
    requires
        match c.uevent {
            Some(u) => !uevent_scan_panics(lines_seq(u@), Seq::empty(), Seq::empty()),
            None => true,
        },
    ensures
        opt_view(r) == uevent_card_gpu(*c),
{
    match &c.uevent {
        Some(u) => match uevent_gpu(u.as_str()) {
            UeventGpu::Amd => {
                let name = match nonblank_of(&c.product_name) {
                    Some(t) => t,
                    None => to_string("AMD Radeon"),
                };
                Some(crate::info::shorten_gpu(&name))
            },
            UeventGpu::Nvidia => match &c.model {
                Some(m) => {
                    let t = trim(m.as_str());
                    Some(crate::info::shorten_gpu(&t))
                },
                None => Some(to_string("NVIDIA")),
            },
            UeventGpu::Vendor(d) => Some(d),
            UeventGpu::Unknown => None,
        },
        None => None,
    }
}

fn display_class(c: &Option<String>) -> (b: bool)
    ensures
        b == is_display_class(*c),
{
    match c {
        Some(x) => {
            let t = trim(x.as_str());
            contains(&t, "0300") || contains(&t, "0302")
        },
        None => false,
    }
}

/// The graphics card a DRM card shows, if any.
pub fn card_gpu(c: &CardFiles) -> (r: Option<String>)
    requires
        !card_panics(*c),
    ensures
        opt_view(r) == card_gpu_spec(*c),
{
    match uevent_part(c) {
        Some(g) => Some(g),
        None => {
            if display_class(&c.class) {
                match &c.vendor {
                    Some(v) => {
                        let t = trim(v.as_str());
                        Some(sysfs_vendor(&t))
                    },
                    None => None,
                }
            } else {
                None
            }
        },
    }
}

/// Whether reading a `uevent` cuts a character in a vendor id.
pub fn uevent_cuts_char(uevent: &str) -> (b: bool)
    ensures
        b == uevent_scan_panics(lines_seq(uevent@), Seq::empty(), Seq::empty()),
{
    let ls = lines(uevent);
    let ghost lv = views(ls@);
    let mut vendor = String::new();
    let mut device = String::new();
    proof {
        assert(lv.skip(0) =~= lv);
    }
    let mut i: usize = 0;
    while i < ls.len()
        invariant
            i <= ls@.len(),
            lv == views(ls@),
            lv == lines_seq(uevent@),
            uevent_scan_panics(lv, Seq::empty(), Seq::empty()) == uevent_scan_panics(lv.skip(i as int), vendor@, device@),
        decreases ls@.len() - i,
    {
        let line = ls[i].as_str();
        proof {
            assert(lv.skip(i as int)[0] == line@);
            assert(lv.skip(i as int).drop_first() =~= lv.skip(i + 1));
            reveal_strlit("amdgpu");
            reveal_strlit("nvidia");
        }
        match strip_prefix(line, "DRIVER=") {
            Some(d) => {
                vendor = d;
            },
            None => {},
        }
        if str_eq(vendor.as_str(), "amdgpu") || str_eq(vendor.as_str(), "nvidia") {
            return false;
        }
        if crate::strs::starts_with(line, "MODALIAS") && device.unicode_len() == 0 {
            match modalias_vendor(line) {
                Some(Some(id)) => {
                    device = pci_vendor(&id);
                },
                Some(None) => {
                    return true;
                },
                None => {},
            }
        }
        i += 1;
    }
    proof {
        assert(lv.skip(i as int) =~= Seq::<Seq<char>>::empty());
    }
    false
}

fn sysfs_vendor_cuts(v: &str) -> (b: bool)
    ensures
        b == sysfs_vendor_panics(v@),
{
    if str_eq(v, "0x1002") || str_eq(v, "0x1022") || str_eq(v, "0x10de") || str_eq(v, "0x8086") {
        return false;
    }
    match (byte_prefix_of(v, 2), byte_prefix_of(v, 6)) {
        (Some(a), Some(b)) => a.unicode_len() > b.unicode_len(),
        _ => true,
    }
}

/// Whether reading a card panics: `card_gpu` may be called exactly when
/// this is false.
pub fn card_cuts_char(c: &CardFiles) -> (b: bool)
    ensures
        b == card_panics(*c),
{
    if let Some(u) = &c.uevent {
        if uevent_cuts_char(u.as_str()) {
            return true;
        }
    }
    if uevent_part(c).is_some() {
        return false;
    }
    if !display_class(&c.class) {
        return false;
    }
    match &c.vendor {
        Some(v) => {
            let t = trim(v.as_str());
            sysfs_vendor_cuts(&t)
        },
        None => false,
    }
}

/// The GPU the DRM cards `cards[i..]` name, read in order: the first card
/// that names one gives it; `Err(k)` where card `k` is reached and reading
/// it panics; `Ok(None)` where no card names one.
pub open spec fn drm_gpu_from(cards: Seq<CardFiles>, i: int) -> Result<Option<Seq<char>>, int>
    decreases cards.len() - i,
{
    if i < 0 || i >= cards.len() {
        Ok(None)
    } else if card_panics(cards[i]) {
        Err(i)
    } else {
        match card_gpu_spec(cards[i]) {
            Some(g) => Ok(Some(g)),
            None => drm_gpu_from(cards, i + 1),
        }
    }
}

/// The GPU named by the first of `cards` (the GPU cards of the DRM class,
/// in directory order) that names one; `Err(k)` where card `k` comes first
/// and reading it panics.
pub fn drm_gpu(cards: &Vec<CardFiles>) -> (r: Result<Option<String>, usize>)
    ensures
        match r {
            Ok(g) => drm_gpu_from(cards@, 0) == Ok::<Option<Seq<char>>, int>(opt_view(g)),
            Err(k) => drm_gpu_from(cards@, 0) == Err::<Option<Seq<char>>, int>(k as int),
        },
{
    let mut i: usize = 0;
    while i < cards.len()
        invariant
            i <= cards@.len(),
            drm_gpu_from(cards@, 0) == drm_gpu_from(cards@, i as int),
        decreases cards@.len() - i,
    {
        if card_cuts_char(&cards[i]) {
            return Err(i);
        }
        match card_gpu(&cards[i]) {
            Some(g) => {
                return Ok(Some(g));
            },
            None => {},
        }
        i += 1;
    }
    Ok(None)
}

/// What is read on a phone when no DRM card names the graphics; `None`
/// for a file that could not be read.
pub struct AndroidGpuFiles {
    /// `/sys/class/kgsl/kgsl-3d0/gpu_model`.
    pub kgsl_model: Option<String>,
    /// `/sys/class/kgsl/kgsl-3d0/device_name`.
    pub kgsl_name: Option<String>,
    /// `/sys/kernel/gpu/gpu_model`.
    pub mali_model: Option<String>,
    /// For the first platform device with `mali` in its name: its
    /// `gpuinfo`, if readable.
    pub mali_platform: Option<Option<String>>,
    /// `/proc/gpucrypto`.
    pub gpucrypto: Option<String>,
    /// The vendor file of the first DRM card that has a readable one.
    pub drm_vendor: Option<String>,
}

/// A phone GPU named by its DRM vendor id (trimmed).
pub open spec fn android_vendor_spec(v: Seq<char>) -> Seq<char> {
    if v == "0x1002"@ || v == "0x1022"@ {
        "AMD GPU"@
    } else if v == "0x10de"@ {
        "NVIDIA GPU"@
    } else if v == "0x8086"@ {
        "Intel GPU"@
    } else if v == "0x13b5"@ {
        "ARM Mali"@
    } else if v == "0x5143"@ {
        "Qualcomm Adreno"@
    } else {
        "GPU ("@ + v + ")"@
    }
}

/// The phone GPU: Adreno by the kgsl model or name, Mali by the kernel's
/// GPU model or a Mali platform device, PowerVR when `/proc/gpucrypto`
/// mentions a GPU, else the DRM vendor, else unknown.
pub open spec fn android_gpu_spec(a: AndroidGpuFiles) -> Seq<char> {
    if nonblank(a.kgsl_model) is Some {
        "Adreno "@ + nonblank(a.kgsl_model)->0
    } else if nonblank(a.kgsl_name) is Some {
        "Adreno "@ + nonblank(a.kgsl_name)->0
    } else if nonblank(a.mali_model) is Some {
        "Mali "@ + nonblank(a.mali_model)->0
    } else if a.mali_platform is Some {
        match nonblank(a.mali_platform->0) {
            Some(t) => "Mali "@ + t,
            None => "ARM Mali"@,
        }
    } else if a.gpucrypto is Some && (contains_seq(a.gpucrypto->0@, "GPU"@) || contains_seq(a.gpucrypto->0@, "gpu"@)) {
        "PowerVR"@
    } else if a.drm_vendor is Some {
        android_vendor_spec(trim_seq(a.drm_vendor->0@))
    } else {
        "unknown"@
    }
}

fn prefixed(p: &str, t: &str) -> (r: String)
    ensures
        r@ == p@ + t@,
{
    let mut r = to_string(p);
    crate::text::push_str(&mut r, t);
    r
}

/// The phone GPU.
pub fn android_gpu(a: &AndroidGpuFiles) -> (r: String)
    ensures
        r@ == android_gpu_spec(*a),
{
    if let Some(t) = nonblank_of(&a.kgsl_model) {
        return prefixed("Adreno ", &t);
    }
    if let Some(t) = nonblank_of(&a.kgsl_name) {
        return prefixed("Adreno ", &t);
    }
    if let Some(t) = nonblank_of(&a.mali_model) {
        return prefixed("Mali ", &t);
    }
    if let Some(g) = &a.mali_platform {
        return match nonblank_of(g) {
            Some(t) => prefixed("Mali ", &t),
            None => to_string("ARM Mali"),
        };
    }
    if let Some(c) = &a.gpucrypto {
        if contains(c.as_str(), "GPU") || contains(c.as_str(), "gpu") {
            return to_string("PowerVR");
        }
    }
    if let Some(v) = &a.drm_vendor {
        let t = trim(v.as_str());
        if str_eq(&t, "0x1002") || str_eq(&t, "0x1022") {
            return to_string("AMD GPU");
        } else if str_eq(&t, "0x10de") {
            return to_string("NVIDIA GPU");
        } else if str_eq(&t, "0x8086") {
            return to_string("Intel GPU");
        } else if str_eq(&t, "0x13b5") {
            return to_string("ARM Mali");
        } else if str_eq(&t, "0x5143") {
            return to_string("Qualcomm Adreno");
        } else {
            let mut r = prefixed("GPU (", &t);
            crate::text::push_str(&mut r, ")");
            return r;
        }
    }
    to_string("unknown")
}

// ── Numbers ──────────────────────────────────────────────────────────────

/// Whether every character is an ASCII digit.
pub open spec fn all_digits(s: Seq<char>) -> bool {
    forall|i: int| 0 <= i < s.len() ==> '0' <= #[trigger] s[i] <= '9'
}

/// The value of a string of decimal digits.
pub open spec fn digits_value(s: Seq<char>) -> nat
    decreases s.len(),
{
    if s.len() == 0 {
        0
    } else {
        digits_value(s.drop_last()) * 10 + ((s.last() as int) - ('0' as int)) as nat
    }
}

/// What `str::parse` gives for an unsigned integer type whose largest value
/// is `max`: an optional `+`, then one or more digits whose value fits.
pub open spec fn parse_uint_spec(s: Seq<char>, max: nat) -> Option<nat> {
    let t = if s.len() > 0 && s[0] == '+' { s.drop_first() } else { s };
    if t.len() > 0 && all_digits(t) && digits_value(t) <= max {
        Some(digits_value(t))
    } else {
        None
    }
}

proof fn lemma_digits_grow(t: Seq<char>, k: int)
    requires
        0 <= k <= t.len(),
        all_digits(t),
    ensures
        digits_value(t.take(k)) <= digits_value(t),
    decreases t.len() - k,
{
    if k < t.len() {
        lemma_digits_grow(t, k + 1);
        assert(t.take(k + 1).drop_last() =~= t.take(k));
        assert(t.take(k + 1).last() == t[k]);
    } else {
        assert(t.take(k) =~= t);
    }
}

/// `str::parse::<u64>`.
pub fn parse_u64(s: &str) -> (r: Option<u64>)
    ensures
        match r {
            Some(n) => parse_uint_spec(s@, u64::MAX as nat) == Some(n as nat),
            None => parse_uint_spec(s@, u64::MAX as nat) is None,
        },
{
    let v = chars_of(s);
    let start: usize = if v.len() > 0 && v[0] == '+' { 1 } else { 0 };
    let ghost t = if s@.len() > 0 && s@[0] == '+' { s@.drop_first() } else { s@ };
    proof {
        assert(t =~= v@.skip(start as int));
    }
    if start >= v.len() {
        return None;
    }
    let mut n: u64 = 0;
    let mut i: usize = start;
    while i < v.len()
        invariant
            start <= i <= v@.len(),
            t == v@.skip(start as int),
            t == (if s@.len() > 0 && s@[0] == '+' { s@.drop_first() } else { s@ }),
            all_digits(t.take(i - start)),
            n as nat == digits_value(t.take(i - start)),
        decreases v@.len() - i,
    {
        let c = v[i];
        proof {
            assert(t[i - start] == c);
            assert(t.take(i - start + 1).drop_last() =~= t.take(i - start));
            assert(t.take(i - start + 1).last() == c);
        }
        if c < '0' || c > '9' {
            proof {
                assert(!('0' <= t[i - start] <= '9'));
                assert(!all_digits(t));
                assert(parse_uint_spec(s@, u64::MAX as nat) is None);
            }
            return None;
        }
        let d = (c as u32 - '0' as u32) as u64;
        let grown = match n.checked_mul(10) {
            Some(m) => m.checked_add(d),
            None => None,
        };
        match grown {
            Some(m) => {
                n = m;
            },
            None => {
                proof {
                    assert(digits_value(t.take(i - start + 1)) == n * 10 + d);
                    assert(n * 10 + d > u64::MAX);
                    if all_digits(t) {
                        lemma_digits_grow(t, i - start + 1);
                    }
                    assert(parse_uint_spec(s@, u64::MAX as nat) is None);
                }
                return None;
            },
        }
        i += 1;
    }
    proof {
        assert(t.take(i - start) =~= t);
    }
    Some(n)
}

/// `str::parse::<u32>`.
pub fn parse_u32(s: &str) -> (r: Option<u32>)
    ensures
        match r {
            Some(n) => parse_uint_spec(s@, u32::MAX as nat) == Some(n as nat),
            None => parse_uint_spec(s@, u32::MAX as nat) is None,
        },
{
    match parse_u64(s) {
        Some(n) => if n <= u32::MAX as u64 {
            Some(n as u32)
        } else {
            None
        },
        None => {
            proof {
                let t = if s@.len() > 0 && s@[0] == '+' { s@.drop_first() } else { s@ };
                assert(parse_uint_spec(s@, u64::MAX as nat) is None);
            }
            None
        },
    }
}

// ── Packages ─────────────────────────────────────────────────────────────

/// The number of lines of command output.
pub fn line_count(out: &str) -> (n: usize)
    ensures
        n == lines_seq(out@).len(),
{
    let ls = lines(out);
    proof {
        assert(views(ls@).len() == ls@.len());
    }
    ls.len()
}

/// The number of entries a listing prints below its header line.
pub fn listed_count(out: &str) -> (n: usize)
    ensures
        n == crate::widget::sat_sub(lines_seq(out@).len() as int, 1),
{
    let c = line_count(out);
    if c > 0 { c - 1 } else { 0 }
}

/// The number of lines that hold a `/`.
pub open spec fn slash_lines(ls: Seq<Seq<char>>) -> nat
    decreases ls.len(),
{
    if ls.len() == 0 {
        0
    } else {
        slash_lines(ls.drop_last()) + if contains_seq(ls.last(), "/"@) { 1nat } else { 0nat }
    }
}

/// The installed packages in the output of `apt list --installed`: its
/// lines that hold a `/`.
pub fn apt_count(out: &str) -> (n: usize)
    ensures
        n == slash_lines(lines_seq(out@)),
{
    let ls = lines(out);
    let ghost lv = views(ls@);
    let mut n: usize = 0;
    let mut i: usize = 0;
    while i < ls.len()
        invariant
            i <= ls@.len(),
            lv == views(ls@),
            n == slash_lines(lv.take(i as int)),
            n <= i,
        decreases ls@.len() - i,
    {
        proof {
            assert(lv.take(i + 1).drop_last() =~= lv.take(i as int));
            assert(lv.take(i + 1).last() == ls@[i as int]@);
            reveal_strlit("/");
        }
        if contains(ls[i].as_str(), "/") {
            n = n + 1;
        }
        i += 1;
    }
    proof {
        assert(lv.take(ls@.len() as int) =~= lv);
    }
    n
}

/// The sum of the counts.
pub open spec fn count_sum(c: Seq<usize>) -> nat
    decreases c.len(),
{
    if c.len() == 0 { 0 } else { count_sum(c.drop_last()) + c.last() as nat }
}

/// The first positive count.
pub open spec fn first_positive(c: Seq<usize>) -> Option<usize>
    decreases c.len(),
{
    if c.len() == 0 {
        None
    } else if c[0] > 0 {
        Some(c[0])
    } else {
        first_positive(c.drop_first())
    }
}

/// The package line: on a phone the first package count of apt and dpkg
/// that is positive; otherwise the total of the package managers, or a
/// dash when none reported any.
pub open spec fn packages_spec(phone: Seq<usize>, managers: Seq<usize>) -> Seq<char> {
    match first_positive(phone) {
        Some(n) => crate::numfmt::dec_seq(n as nat),
        None => if count_sum(managers) == 0 { "\u{2014}"@ } else { crate::numfmt::dec_seq(count_sum(managers)) },
    }
}

proof fn lemma_sum_grows(c: Seq<usize>, k: int)
    requires
        0 <= k <= c.len(),
    ensures
        count_sum(c.take(k)) <= count_sum(c),
    decreases c.len() - k,
{
    if k < c.len() {
        lemma_sum_grows(c, k + 1);
        assert(c.take(k + 1).drop_last() =~= c.take(k));
    } else {
        assert(c.take(k) =~= c);
    }
}

/// The package line from the counts of the phone's package tools (apt,
/// then dpkg; none on other systems) and of the other package managers.
pub fn packages_line(phone: &Vec<usize>, managers: &Vec<usize>) -> (r: String)
    requires
        count_sum(managers@) <= u64::MAX,
    ensures
        r@ == packages_spec(phone@, managers@),
{
    let mut i: usize = 0;
    proof {
        assert(phone@.skip(0) =~= phone@);
    }
    while i < phone.len()
        invariant
            i <= phone@.len(),
            first_positive(phone@) == first_positive(phone@.skip(i as int)),
        decreases phone@.len() - i,
    {
        proof {
            assert(phone@.skip(i as int)[0] == phone@[i as int]);
            assert(phone@.skip(i as int).drop_first() =~= phone@.skip(i + 1));
        }
        if phone[i] > 0 {
            return crate::numfmt::decimal(phone[i] as u64);
        }
        i += 1;
    }
    proof {
        assert(phone@.skip(i as int) =~= Seq::<usize>::empty());
    }
    let mut total: u64 = 0;
    let mut j: usize = 0;
    while j < managers.len()
        invariant
            j <= managers@.len(),
            count_sum(managers@) <= u64::MAX,
            total as nat == count_sum(managers@.take(j as int)),
        decreases managers@.len() - j,
    {
        proof {
            assert(managers@.take(j + 1).drop_last() =~= managers@.take(j as int));
            lemma_sum_grows(managers@, j + 1);
        }
        total = total + managers[j] as u64;
        j += 1;
    }
    proof {
        assert(managers@.take(j as int) =~= managers@);
    }
    if total == 0 {
        to_string("\u{2014}")
    } else {
        crate::numfmt::decimal(total)
    }
}

// ── Display ──────────────────────────────────────────────────────────────

/// The physical size that `wm size` printed.
pub open spec fn physical_size_spec(out: Seq<char>) -> Option<Seq<char>> {
    match first_prefixed(lines_seq(out), "Physical size: "@, false) {
        Some(v) => Some(trim_seq(v)),
        None => None,
    }
}

/// The screen size from the output of `wm size`.
pub fn physical_size(out: &str) -> (r: Option<String>)
    ensures
        opt_view(r) == physical_size_spec(out@),
{
    match first_prefixed_line(out, "Physical size: ", false) {
        Some(v) => Some(trim(&v)),
        None => None,
    }
}

/// A parsed `u32` by its value.
pub open spec fn u32_view(o: Option<u32>) -> Option<nat> {
    match o {
        Some(n) => Some(n as nat),
        None => None,
    }
}

/// The framebuffer size: from `virtual_size` (`W,H`), with `xres` and
/// `yres` read in its place where it gives no width or no height.
pub open spec fn fb_resolution_spec(virtual_size: Option<Seq<char>>, xres: Option<Seq<char>>, yres: Option<Seq<char>>) -> Option<Seq<char>> {
    let parts = match virtual_size {
        Some(v) => split_seq(trim_seq(v), ','),
        None => Seq::empty(),
    };
    let w0 = if parts.len() >= 2 { parse_uint_spec(parts[0], u32::MAX as nat) } else { None };
    let h0 = if parts.len() >= 2 { parse_uint_spec(parts[1], u32::MAX as nat) } else { None };
    let (w, h) = if w0 is None || h0 is None {
        (
            match xres {
                Some(x) => parse_uint_spec(trim_seq(x), u32::MAX as nat),
                None => w0,
            },
            match yres {
                Some(y) => parse_uint_spec(trim_seq(y), u32::MAX as nat),
                None => h0,
            },
        )
    } else {
        (w0, h0)
    };
    match (w, h) {
        (Some(a), Some(b)) => Some(crate::numfmt::dec_seq(a) + seq!['x'] + crate::numfmt::dec_seq(b)),
        _ => None,
    }
}

fn parse_trimmed_u32(o: &Option<String>, fallback: Option<u32>) -> (r: Option<u32>)
    ensures
        u32_view(r) == match *o {
            Some(x) => parse_uint_spec(trim_seq(x@), u32::MAX as nat),
            None => u32_view(fallback),
        },
{
    match o {
        Some(x) => {
            let t = trim(x.as_str());
            parse_u32(&t)
        },
        None => fallback,
    }
}

/// The framebuffer resolution, `WxH`.
pub fn fb_resolution(virtual_size: &Option<String>, xres: &Option<String>, yres: &Option<String>) -> (r: Option<String>)
    ensures
        opt_view(r) == fb_resolution_spec(opt_view(*virtual_size), opt_view(*xres), opt_view(*yres)),
{
    let parts: Vec<String> = match virtual_size {
        Some(v) => {
            let t = trim(v.as_str());
            split(&t, ',')
        },
        None => Vec::new(),
    };
    proof {
        if virtual_size is None {
            assert(views(parts@) =~= Seq::<Seq<char>>::empty());
        }
    }
    let w0 = if parts.len() >= 2 { parse_u32(parts[0].as_str()) } else { None };
    let h0 = if parts.len() >= 2 { parse_u32(parts[1].as_str()) } else { None };
    let (w, h) = if w0.is_none() || h0.is_none() {
        (parse_trimmed_u32(xres, w0), parse_trimmed_u32(yres, h0))
    } else {
        (w0, h0)
    };
    match (w, h) {
        (Some(a), Some(b)) => {
            let mut r = crate::numfmt::decimal(a as u64);
            crate::text::push_str(&mut r, "x");
            let d = crate::numfmt::decimal(b as u64);
            crate::text::push_str(&mut r, &d);
            proof {
                reveal_strlit("x");
            }
            Some(r)
        },
        _ => None,
    }
}

/// The first non-blank line, trimmed.
pub open spec fn first_mode_in(ls: Seq<Seq<char>>) -> Option<Seq<char>>
    decreases ls.len(),
{
    if ls.len() == 0 {
        None
    } else if trim_seq(ls[0]).len() > 0 {
        Some(trim_seq(ls[0]))
    } else {
        first_mode_in(ls.drop_first())
    }
}

/// The first mode a DRM connector lists.
pub fn first_mode(modes: &str) -> (r: Option<String>)
    ensures
        opt_view(r) == first_mode_in(lines_seq(modes@)),
{
    let ls = lines(modes);
    let ghost lv = views(ls@);
    proof {
        assert(lv.skip(0) =~= lv);
    }
    let mut i: usize = 0;
    while i < ls.len()
        invariant
            i <= ls@.len(),
            lv == views(ls@),
            lv == lines_seq(modes@),
            first_mode_in(lv) == first_mode_in(lv.skip(i as int)),
        decreases ls@.len() - i,
    {
        proof {
            assert(lv.skip(i as int)[0] == ls@[i as int]@);
            assert(lv.skip(i as int).drop_first() =~= lv.skip(i + 1));
        }
        let t = trim(ls[i].as_str());
        if t.unicode_len() > 0 {
            return Some(t);
        }
        i += 1;
    }
    proof {
        assert(lv.skip(i as int) =~= Seq::<Seq<char>>::empty());
    }
    None
}

/// Whether a DRM entry is a card's connector (`cardN-NAME`).
pub open spec fn is_connector_spec(name: Seq<char>) -> bool {
    "card"@.is_prefix_of(name) && name.contains('-')
}

/// Whether a DRM entry is a card's connector.
pub fn is_connector(name: &str) -> (b: bool)
    ensures
        b == is_connector_spec(name@),
{
    let v = chars_of(name);
    let mut dash = false;
    let mut i: usize = 0;
    while i < v.len()
        invariant
            i <= v@.len(),
            v@ == name@,
            dash == exists|k: int| 0 <= k < i && v@[k] == '-',
        decreases v@.len() - i,
    {
        if v[i] == '-' {
            dash = true;
        }
        i += 1;
    }
    crate::strs::starts_with(name, "card") && dash
}

// ── Session ──────────────────────────────────────────────────────────────

/// The window manager named by the session variables `XDG_CURRENT_DESKTOP`,
/// `DESKTOP_SESSION`, `HYPRLAND_INSTANCE_SIGNATURE`, `SWAYSOCK`, `I3SOCK`,
/// `QTILE_SOCKET` and `AWESOME_CLIENT_INSTANCE` (in that order; `None` when
/// unset): the value of either of the first two when set and not empty,
/// the window manager that any of the others belongs to when set.
pub open spec fn wm_env_spec(vals: Seq<Option<Seq<char>>>) -> Option<Seq<char>>
    decreases vals.len(),
{
    if vals.len() == 0 {
        None
    } else {
        let k = 7 - vals.len();
        match vals[0] {
            Some(v) => if k >= 2 {
                Some(wm_socket_name(k))
            } else if v.len() > 0 {
                Some(v)
            } else {
                wm_env_spec(vals.drop_first())
            },
            None => wm_env_spec(vals.drop_first()),
        }
    }
}

/// The window manager of the `k`-th session variable, from the third.
pub open spec fn wm_socket_name(k: int) -> Seq<char> {
    if k == 2 {
        "Hyprland"@
    } else if k == 3 {
        "Sway"@
    } else if k == 4 {
        "i3"@
    } else if k == 5 {
        "Qtile"@
    } else {
        "Awesome"@
    }
}

/// The window manager named by the session variables.
pub fn wm_from_env(vals: &Vec<Option<String>>) -> (r: Option<String>)
    requires
        vals@.len() == 7,
    ensures
        opt_view(r) == wm_env_spec(vals@.map_values(|o: Option<String>| opt_view(o))),
{
    let ghost vv = vals@.map_values(|o: Option<String>| opt_view(o));
    proof {
        assert(vv.skip(0) =~= vv);
    }
    let mut i: usize = 0;
    while i < 7
        invariant
            i <= 7,
            vals@.len() == 7,
            vv == vals@.map_values(|o: Option<String>| opt_view(o)),
            wm_env_spec(vv) == wm_env_spec(vv.skip(i as int)),
        decreases 7 - i,
    {
        proof {
            assert(vv.skip(i as int)[0] == opt_view(vals@[i as int]));
            assert(vv.skip(i as int).drop_first() =~= vv.skip(i + 1));
            assert(vv.skip(i as int).len() == 7 - i);
        }
        match &vals[i] {
            Some(v) => {
                if i >= 2 {
                    let name = if i == 2 {
                        "Hyprland"
                    } else if i == 3 {
                        "Sway"
                    } else if i == 4 {
                        "i3"
                    } else if i == 5 {
                        "Qtile"
                    } else {
                        "Awesome"
                    };
                    return Some(to_string(name));
                }
                if v.unicode_len() > 0 {
                    return Some(to_string(v.as_str()));
                }
            },
            None => {},
        }
        i += 1;
    }
    proof {
        assert(vv.skip(7) =~= Seq::<Option<Seq<char>>>::empty());
    }
    None
}

/// The window manager a process name (trimmed) belongs to.
pub open spec fn wm_comm_spec(c: Seq<char>) -> Option<Seq<char>> {
    if c == "Hyprland"@ {
        Some("Hyprland"@)
    } else if c == "sway"@ {
        Some("Sway"@)
    } else if c == "i3"@ {
        Some("i3"@)
    } else if c == "qtile"@ {
        Some("Qtile"@)
    } else if c == "awesome"@ {
        Some("Awesome"@)
    } else if c == "bspwm"@ {
        Some("bspwm"@)
    } else if c == "dwm"@ {
        Some("dwm"@)
    } else if c == "openbox"@ {
        Some("Openbox"@)
    } else if c == "fluxbox"@ {
        Some("Fluxbox"@)
    } else if c == "xfwm4"@ {
        Some("Xfwm4"@)
    } else if c == "kwin_x11"@ || c == "kwin_wayland"@ {
        Some("KWin"@)
    } else {
        None
    }
}

/// The window manager whose process has the name in `comm`.
pub fn wm_from_comm(comm: &str) -> (r: Option<String>)
    ensures
        opt_view(r) == wm_comm_spec(trim_seq(comm@)),
{
    let c = trim(comm);
    let c = c.as_str();
    let name = if str_eq(c, "Hyprland") {
        "Hyprland"
    } else if str_eq(c, "sway") {
        "Sway"
    } else if str_eq(c, "i3") {
        "i3"
    } else if str_eq(c, "qtile") {
        "Qtile"
    } else if str_eq(c, "awesome") {
        "Awesome"
    } else if str_eq(c, "bspwm") {
        "bspwm"
    } else if str_eq(c, "dwm") {
        "dwm"
    } else if str_eq(c, "openbox") {
        "Openbox"
    } else if str_eq(c, "fluxbox") {
        "Fluxbox"
    } else if str_eq(c, "xfwm4") {
        "Xfwm4"
    } else if str_eq(c, "kwin_x11") || str_eq(c, "kwin_wayland") {
        "KWin"
    } else {
        return None;
    };
    Some(to_string(name))
}

/// The desktop named by the session: `XDG_CURRENT_DESKTOP`, then
/// `DESKTOP_SESSION` (trimmed, when not empty), then GNOME, MATE or KDE
/// when their session variable is set.
pub open spec fn de_env_spec(xdg: Option<Seq<char>>, session: Option<Seq<char>>, gnome: bool, mate: bool, kde: bool) -> Option<Seq<char>> {
    if xdg is Some && trim_seq(xdg->0).len() > 0 {
        Some(trim_seq(xdg->0))
    } else if session is Some && trim_seq(session->0).len() > 0 {
        Some(trim_seq(session->0))
    } else if gnome {
        Some("GNOME"@)
    } else if mate {
        Some("MATE"@)
    } else if kde {
        Some("KDE"@)
    } else {
        None
    }
}

/// The desktop named by the session variables.
pub fn de_from_env(xdg: &Option<String>, session: &Option<String>, gnome: bool, mate: bool, kde: bool) -> (r: Option<String>)
    ensures
        opt_view(r) == de_env_spec(opt_view(*xdg), opt_view(*session), gnome, mate, kde),
{
    if let Some(x) = xdg {
        let t = trim(x.as_str());
        if t.unicode_len() > 0 {
            return Some(t);
        }
    }
    if let Some(x) = session {
        let t = trim(x.as_str());
        if t.unicode_len() > 0 {
            return Some(t);
        }
    }
    if gnome {
        Some(to_string("GNOME"))
    } else if mate {
        Some(to_string("MATE"))
    } else if kde {
        Some(to_string("KDE"))
    } else {
        None
    }
}

/// The desktop a process name (trimmed) belongs to.
pub open spec fn de_comm_spec(c: Seq<char>) -> Option<Seq<char>> {
    if c == "gnome-shell"@ {
        Some("GNOME"@)
    } else if c == "plasmashell"@ {
        Some("KDE"@)
    } else if c == "xfce4-session"@ {
        Some("Xfce"@)
    } else if c == "mate-session"@ {
        Some("MATE"@)
    } else if c == "lxqt-session"@ {
        Some("LXQt"@)
    } else if c == "lxpanel"@ {
        Some("LXDE"@)
    } else if c == "cinnamon-session"@ {
        Some("Cinnamon"@)
    } else if c == "budgie-wm"@ {
        Some("Budgie"@)
    } else if c == "deepin-wm"@ {
        Some("Deepin"@)
    } else if c == "enlightenment"@ {
        Some("Enlightenment"@)
    } else if c == "openbox"@ || c == "fluxbox"@ || c == "i3"@ {
        Some(c)
    } else {
        None
    }
}

/// The desktop whose process has the name in `comm`.
pub fn de_from_comm(comm: &str) -> (r: Option<String>)
    ensures
        opt_view(r) == de_comm_spec(trim_seq(comm@)),
{
    let c = trim(comm);
    let cs = c.as_str();
    let name = if str_eq(cs, "gnome-shell") {
        "GNOME"
    } else if str_eq(cs, "plasmashell") {
        "KDE"
    } else if str_eq(cs, "xfce4-session") {
        "Xfce"
    } else if str_eq(cs, "mate-session") {
        "MATE"
    } else if str_eq(cs, "lxqt-session") {
        "LXQt"
    } else if str_eq(cs, "lxpanel") {
        "LXDE"
    } else if str_eq(cs, "cinnamon-session") {
        "Cinnamon"
    } else if str_eq(cs, "budgie-wm") {
        "Budgie"
    } else if str_eq(cs, "deepin-wm") {
        "Deepin"
    } else if str_eq(cs, "enlightenment") {
        "Enlightenment"
    } else if str_eq(cs, "openbox") || str_eq(cs, "fluxbox") || str_eq(cs, "i3") {
        return Some(to_string(cs));
    } else {
        return None;
    };
    Some(to_string(name))
}

// ── Small readings ───────────────────────────────────────────────────────

/// The first word of `s`, or `dflt` when it has none.
pub open spec fn first_word_or_spec(s: Seq<char>, dflt: Seq<char>) -> Seq<char> {
    let w = crate::strs::words_seq(s);
    if w.len() > 0 { w[0] } else { dflt }
}

/// The first word of `s`, or `dflt` when it has none.
pub fn first_word_or(s: &str, dflt: &str) -> (r: String)
    ensures
        r@ == first_word_or_spec(s@, dflt@),
{
    let w = crate::strs::words(s);
    if w.len() > 0 {
        to_string(w[0].as_str())
    } else {
        to_string(dflt)
    }
}

/// Whether a `/proc` entry is a process: its name is all digits.
pub fn is_pid_name(name: &str) -> (b: bool)
    ensures
        b == all_digits(name@),
{
    let v = chars_of(name);
    let mut i: usize = 0;
    while i < v.len()
        invariant
            i <= v@.len(),
            v@ == name@,
            forall|k: int| 0 <= k < i ==> '0' <= #[trigger] v@[k] <= '9',
        decreases v@.len() - i,
    {
        if v[i] < '0' || v[i] > '9' {
            return false;
        }
        i += 1;
    }
    true
}

/// A `meminfo` value: the first word of the trimmed rest of the line as a
/// number of kilobytes, 0 when there is none or it is no number.
pub open spec fn kb_value_spec(rest: Seq<char>) -> nat {
    match parse_uint_spec(first_word_or_spec(trim_seq(rest), "0"@), u64::MAX as nat) {
        Some(n) => n,
        None => 0,
    }
}

/// A `meminfo` value in kilobytes.
pub fn kb_value(rest: &str) -> (n: u64)
    ensures
        n as nat == kb_value_spec(rest@),
{
    let t = trim(rest);
    let w = first_word_or(&t, "0");
    match parse_u64(&w) {
        Some(n) => n,
        None => 0,
    }
}

/// Total and available memory in `/proc/meminfo` from the line given so
/// far: the last `MemTotal:` and `MemAvailable:` lines count.
pub open spec fn meminfo_scan(ls: Seq<Seq<char>>) -> (nat, nat)
    decreases ls.len(),
{
    if ls.len() == 0 {
        (0, 0)
    } else {
        let (t, a) = meminfo_scan(ls.drop_last());
        let l = ls.last();
        let t2 = match strip_prefix_seq(l, "MemTotal:"@) {
            Some(r) => kb_value_spec(r),
            None => t,
        };
        let a2 = match strip_prefix_seq(l, "MemAvailable:"@) {
            Some(r) => kb_value_spec(r),
            None => a,
        };
        (t2, a2)
    }
}

/// Total and available memory, in kilobytes, from `/proc/meminfo`.
pub fn meminfo_kb(content: &str) -> (r: (u64, u64))
    ensures
        (r.0 as nat, r.1 as nat) == meminfo_scan(lines_seq(content@)),
{
    let ls = lines(content);
    let ghost lv = views(ls@);
    let mut total: u64 = 0;
    let mut avail: u64 = 0;
    let mut i: usize = 0;
    while i < ls.len()
        invariant
            i <= ls@.len(),
            lv == views(ls@),
            (total as nat, avail as nat) == meminfo_scan(lv.take(i as int)),
        decreases ls@.len() - i,
    {
        proof {
            assert(lv.take(i + 1).drop_last() =~= lv.take(i as int));
            assert(lv.take(i + 1).last() == ls@[i as int]@);
        }
        match strip_prefix(ls[i].as_str(), "MemTotal:") {
            Some(r) => {
                total = kb_value(&r);
            },
            None => {},
        }
        match strip_prefix(ls[i].as_str(), "MemAvailable:") {
            Some(r) => {
                avail = kb_value(&r);
            },
            None => {},
        }
        i += 1;
    }
    proof {
        assert(lv.take(ls@.len() as int) =~= lv);
    }
    (total, avail)
}

/// The product name in a DMI file: trimmed, unless empty or a board
/// maker's placeholder.
pub open spec fn dmi_name_spec(content: Seq<char>) -> Option<Seq<char>> {
    let t = trim_seq(content);
    if t.len() > 0 && t != "System Product Name"@ && t != "To Be Filled By O.E.M."@ { Some(t) } else { None }
}

/// The product name in a DMI file.
pub fn dmi_name(content: &str) -> (r: Option<String>)
    ensures
        opt_view(r) == dmi_name_spec(content@),
{
    let t = trim(content);
    if t.unicode_len() > 0 && !str_eq(&t, "System Product Name") && !str_eq(&t, "To Be Filled By O.E.M.") {
        Some(t)
    } else {
        None
    }
}

/// The blocks a `/proc/partitions` line counts: its size column, for a
/// partition that is no loop, zram or ram device (0 when it is, or when
/// the line has no such columns or the size is no number).
pub open spec fn partition_line_blocks(l: Seq<char>) -> nat {
    let p = crate::strs::words_seq(l);
    if p.len() >= 4 && !("loop"@.is_prefix_of(p[3]) || "zram"@.is_prefix_of(p[3]) || "ram"@.is_prefix_of(p[3])) {
        match parse_uint_spec(p[2], u64::MAX as nat) {
            Some(n) => n,
            None => 0,
        }
    } else {
        0
    }
}

/// The blocks of the given partition lines.
pub open spec fn partition_sum(ls: Seq<Seq<char>>) -> nat
    decreases ls.len(),
{
    if ls.len() == 0 { 0 } else { partition_sum(ls.drop_last()) + partition_line_blocks(ls.last()) }
}

/// The partition lines of `/proc/partitions`: all but its header and the
/// blank line under it.
pub open spec fn partition_lines(content: Seq<char>) -> Seq<Seq<char>> {
    let ls = lines_seq(content);
    if ls.len() >= 2 { ls.skip(2) } else { Seq::empty() }
}

fn line_blocks(l: &str) -> (n: u64)
    ensures
        n as nat == partition_line_blocks(l@),
{
    let p = crate::strs::words(l);
    if p.len() >= 4 {
        let name = p[3].as_str();
        if crate::strs::starts_with(name, "loop") || crate::strs::starts_with(name, "zram") || crate::strs::starts_with(name, "ram") {
            0
        } else {
            match parse_u64(p[2].as_str()) {
                Some(n) => n,
                None => 0,
            }
        }
    } else {
        0
    }
}

proof fn lemma_partition_grows(ls: Seq<Seq<char>>, k: int)
    requires
        0 <= k <= ls.len(),
    ensures
        partition_sum(ls.take(k)) <= partition_sum(ls),
    decreases ls.len() - k,
{
    if k < ls.len() {
        lemma_partition_grows(ls, k + 1);
        assert(ls.take(k + 1).drop_last() =~= ls.take(k));
    } else {
        assert(ls.take(k) =~= ls);
    }
}

/// The storage blocks (of 1 KiB) that `/proc/partitions` lists.
pub fn partition_blocks(content: &str) -> (n: u64)
    requires
        partition_sum(partition_lines(content@)) <= u64::MAX,
    ensures
        n as nat == partition_sum(partition_lines(content@)),
{
    let ls = lines(content);
    let ghost lv = views(ls@);
    let ghost pl = partition_lines(content@);
    if ls.len() < 2 {
        proof {
            assert(pl =~= Seq::<Seq<char>>::empty());
        }
        return 0;
    }
    proof {
        assert(pl =~= lv.skip(2));
    }
    let mut total: u64 = 0;
    let mut i: usize = 2;
    while i < ls.len()
        invariant
            2 <= i <= ls@.len(),
            lv == views(ls@),
            pl == lv.skip(2),
            partition_sum(pl) <= u64::MAX,
            total as nat == partition_sum(pl.take(i - 2)),
        decreases ls@.len() - i,
    {
        proof {
            assert(pl.take(i - 1).drop_last() =~= pl.take(i - 2));
            assert(pl.take(i - 1).last() == ls@[i as int]@);
            lemma_partition_grows(pl, i - 1);
        }
        let b = line_blocks(ls[i].as_str());
        total = total + b;
        i += 1;
    }
    proof {
        assert(pl.take(i - 2) =~= pl);
    }
    total
}

/// The program name of a shell path: the text after its last `/`.
pub open spec fn shell_name_spec(path: Seq<char>) -> Seq<char> {
    split_seq(path, '/').last()
}

/// The shell's program name from `$SHELL`.
pub fn shell_name(path: &str) -> (r: String)
    ensures
        r@ == shell_name_spec(path@),
{
    let parts = split(path, '/');
    proof {
        assert(views(parts@).len() == parts@.len());
        assert(split_seq(path@, '/').len() > 0);
    }
    to_string(parts[parts.len() - 1].as_str())
}

/// The storage blocks that `/proc/partitions` lists, or `None` where their
/// sum does not fit in 64 bits.
pub fn partition_blocks_checked(content: &str) -> (r: Option<u64>)
    ensures
        match r {
            Some(n) => n as nat == partition_sum(partition_lines(content@)),
            None => partition_sum(partition_lines(content@)) > u64::MAX,
        },
{
    let ls = lines(content);
    let ghost lv = views(ls@);
    let ghost pl = partition_lines(content@);
    if ls.len() < 2 {
        proof {
            assert(pl =~= Seq::<Seq<char>>::empty());
        }
        return Some(0);
    }
    proof {
        assert(pl =~= lv.skip(2));
    }
    let mut total: u64 = 0;
    let mut i: usize = 2;
    while i < ls.len()
        invariant
            2 <= i <= ls@.len(),
            lv == views(ls@),
            pl == lv.skip(2),
            pl == partition_lines(content@),
            total as nat == partition_sum(pl.take(i - 2)),
        decreases ls@.len() - i,
    {
        proof {
            assert(pl.take(i - 1).drop_last() =~= pl.take(i - 2));
            assert(pl.take(i - 1).last() == ls@[i as int]@);
        }
        let b = line_blocks(ls[i].as_str());
        match total.checked_add(b) {
            Some(t) => {
                total = t;
            },
            None => {
                proof {
                    lemma_partition_grows(pl, i - 1);
                }
                return None;
            },
        }
        i += 1;
    }
    proof {
        assert(pl.take(i - 2) =~= pl);
    }
    Some(total)
}

} // verus!

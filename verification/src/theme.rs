//! Colours, built-in palettes and the palette stretching rule.
use vstd::prelude::*;
use crate::numfmt::{dec_seq, hex2_seq, hex_digit_char, push_decimal, push_hex2};
use crate::text::{chars_of, esc, push_char, str_eq};

verus! {

/// A 24-bit RGB colour.
#[derive(Clone, Copy, Debug, PartialEq, Eq, Structural)]
pub struct Color {
    pub r: u8,
    pub g: u8,
    pub b: u8,
}

// ── Hex parsing model ────────────────────────────────────────────────────

/// Number of UTF-8 bytes that encode `c`.
pub open spec fn utf8_len(c: char) -> nat {
    if (c as u32) < 0x80 {
        1
    } else if (c as u32) < 0x800 {
        2
    } else if (c as u32) < 0x10000 {
        3
    } else {
        4
    }
}

/// Byte length of the UTF-8 encoding of `s` (`str::len`).
pub open spec fn byte_len(s: Seq<char>) -> nat
    decreases s.len(),
{
    if s.len() == 0 {
        0
    } else {
        byte_len(s.drop_last()) + utf8_len(s.last())
    }
}

/// Whether `c` is ASCII.
pub open spec fn is_ascii_char(c: char) -> bool {
    (c as u32) < 0x80
}

/// `c.to_digit(16)`.
pub open spec fn hex_value(c: char) -> Option<u8> {
    if '0' <= c && c <= '9' {
        Some((c as u32 - '0' as u32) as u8)
    } else if 'a' <= c && c <= 'f' {
        Some((c as u32 - 'a' as u32 + 10) as u8)
    } else if 'A' <= c && c <= 'F' {
        Some((c as u32 - 'A' as u32 + 10) as u8)
    } else {
        None
    }
}

/// `u8::from_str_radix` of the two ASCII characters `c0 c1` in base 16,
/// which takes one leading `'+'`.
pub open spec fn radix16_pair(c0: char, c1: char) -> Option<u8> {
    if c0 == '+' {
        hex_value(c1)
    } else {
        match (hex_value(c0), hex_value(c1)) {
            (Some(a), Some(b)) => Some((a * 16 + b) as u8),
            _ => None,
        }
    }
}

/// `s` with one leading `'#'` removed.
pub open spec fn strip_hash(s: Seq<char>) -> Seq<char> {
    if s.len() > 0 && s[0] == '#' {
        s.drop_first()
    } else {
        s
    }
}

/// Inputs on which `Color::from_hex_opt` slices a string inside a
/// character and panics: six bytes whose second or fourth byte boundary
/// falls inside a character, reached before parsing failed.
pub open spec fn hex_slicing_panics(s: Seq<char>) -> bool {
    let t = strip_hash(s);
    &&& byte_len(t) == 6
    &&& {
        ||| utf8_len(t[0]) >= 3
        ||| (is_ascii_char(t[0]) && !is_ascii_char(t[1]))
        ||| (is_ascii_char(t[0]) && is_ascii_char(t[1]) && radix16_pair(t[0], t[1]) is Some && (
        utf8_len(t[2]) >= 3 || (is_ascii_char(t[2]) && !is_ascii_char(t[3]))))
    }
}

/// The colour that `Color::from_hex_opt` reads from `s`: an optional `'#'`
/// followed by exactly six bytes that form three base-16 pairs.
pub open spec fn parse_hex_color(s: Seq<char>) -> Option<Color> {
    let t = strip_hash(s);
    if byte_len(t) == 6 && t.len() == 6 && (forall|i: int|
        0 <= i < 6 ==> is_ascii_char(#[trigger] t[i])) {
        match (radix16_pair(t[0], t[1]), radix16_pair(t[2], t[3]), radix16_pair(t[4], t[5])) {
            (Some(r), Some(g), Some(b)) => Some(Color { r, g, b }),
            _ => None,
        }
    } else {
        None
    }
}

/// `"#RRGGBB"` in upper-case hexadecimal.
pub open spec fn hex_string_seq(c: Color) -> Seq<char> {
    seq!['#'] + hex2_seq(c.r) + hex2_seq(c.g) + hex2_seq(c.b)
}

/// The three decimal components separated by `';'`, then `'m'`.
pub open spec fn rgb_params_seq(c: Color) -> Seq<char> {
    dec_seq(c.r as nat) + seq![';'] + dec_seq(c.g as nat) + seq![';'] + dec_seq(c.b as nat) + seq![
        'm',
    ]
}

/// True-colour foreground escape sequence `ESC [38;2;R;G;Bm`.
pub open spec fn fg_escape_seq(c: Color) -> Seq<char> {
    seq![esc(), '\u{5b}', '3', '8', ';', '2', ';'] + rgb_params_seq(c)
}

/// True-colour background escape sequence `ESC [48;2;R;G;Bm`.
pub open spec fn bg_escape_seq(c: Color) -> Seq<char> {
    seq![esc(), '\u{5b}', '4', '8', ';', '2', ';'] + rgb_params_seq(c)
}

fn hex_val(c: char) -> (r: Option<u8>)
    ensures
        r == hex_value(c),
{
    if '0' <= c && c <= '9' {
        Some((c as u32 - '0' as u32) as u8)
    } else if 'a' <= c && c <= 'f' {
        Some((c as u32 - 'a' as u32 + 10) as u8)
    } else if 'A' <= c && c <= 'F' {
        Some((c as u32 - 'A' as u32 + 10) as u8)
    } else {
        None
    }
}

fn radix16(c0: char, c1: char) -> (r: Option<u8>)
    ensures
        r == radix16_pair(c0, c1),
{
    if c0 == '+' {
        hex_val(c1)
    } else {
        match (hex_val(c0), hex_val(c1)) {
            (Some(a), Some(b)) => Some(a * 16 + b),
            _ => None,
        }
    }
}

/// Number of UTF-8 bytes that encode `c`.
pub fn utf8_width(c: char) -> (n: usize)
    ensures
        n as nat == utf8_len(c),
{
    if (c as u32) < 0x80 {
        1
    } else if (c as u32) < 0x800 {
        2
    } else if (c as u32) < 0x10000 {
        3
    } else {
        4
    }
}

proof fn lemma_byte_len_ascii(s: Seq<char>)
    requires
        forall|i: int| 0 <= i < s.len() ==> is_ascii_char(#[trigger] s[i]),
    ensures
        byte_len(s) == s.len(),
    decreases s.len(),
{
    if s.len() > 0 {
        lemma_byte_len_ascii(s.drop_last());
    }
}

proof fn lemma_byte_len_ge_len(s: Seq<char>)
    ensures
        byte_len(s) >= s.len(),
    decreases s.len(),
{
    if s.len() > 0 {
        lemma_byte_len_ge_len(s.drop_last());
    }
}

proof fn lemma_byte_len_mono(s: Seq<char>, i: int)
    requires
        0 <= i <= s.len(),
    ensures
        byte_len(s.take(i)) <= byte_len(s),
    decreases s.len() - i,
{
    if i < s.len() {
        lemma_byte_len_mono(s.drop_last(), i);
        assert(s.drop_last().take(i) =~= s.take(i));
    } else {
        assert(s.take(i) =~= s);
    }
}

proof fn lemma_byte_len_le(s: Seq<char>)
    ensures
        byte_len(s) <= 4 * s.len(),
    decreases s.len(),
{
    if s.len() > 0 {
        lemma_byte_len_le(s.drop_last());
    }
}

proof fn lemma_byte_len_split(s: Seq<char>, k: int)
    requires
        0 <= k <= s.len(),
    ensures
        byte_len(s) == byte_len(s.take(k)) + byte_len(s.skip(k)),
    decreases s.len(),
{
    if k == s.len() {
        assert(s.take(k) =~= s);
        assert(s.skip(k).len() == 0);
    } else {
        lemma_byte_len_split(s.drop_last(), k);
        assert(s.drop_last().take(k) =~= s.take(k));
        assert(s.skip(k).drop_last() =~= s.drop_last().skip(k));
        assert(s.skip(k).last() == s.last());
    }
}

/// Whether `Color::from_hex_opt` would slice `hex` inside a character
/// (see `hex_slicing_panics`).
pub fn hex_panics(hex: &str) -> (b: bool)
    ensures
        b == hex_slicing_panics(hex@),
{
    let v = chars_of(hex);
    let start: usize = if v.len() > 0 && v[0] == '#' {
        1
    } else {
        0
    };
    let ghost t = strip_hash(hex@);
    proof {
        assert(t =~= v@.skip(start as int));
    }
    if capped_byte_len(&v, start) != 6 {
        return false;
    }
    proof {
        lemma_byte_len_le(t);
        lemma_byte_len_split(t, 1);
    }
    let c0 = v[start];
    let c1 = v[start + 1];
    if utf8_width(c0) >= 3 {
        return true;
    }
    let a0 = (c0 as u32) < 0x80;
    let a1 = (c1 as u32) < 0x80;
    if a0 && !a1 {
        return true;
    }
    if !(a0 && a1) {
        return false;
    }
    if radix16(c0, c1).is_none() {
        return false;
    }
    proof {
        assert(t[0] == c0 && t[1] == c1);
        lemma_byte_len_split(t, 2);
        assert(t.take(2) =~= seq![c0, c1]);
        assert(seq![c0, c1].drop_last() =~= seq![c0]);
        assert(seq![c0].drop_last() =~= Seq::<char>::empty());
        assert(byte_len(Seq::<char>::empty()) == 0);
        assert(seq![c0].last() == c0);
        assert(byte_len(seq![c0]) == 1);
        assert(seq![c0, c1].last() == c1);
        assert(byte_len(seq![c0, c1]) == 2);
        lemma_byte_len_le(t.skip(2));
    }
    let c2 = v[start + 2];
    if utf8_width(c2) >= 3 {
        return true;
    }
    if (c2 as u32) >= 0x80 {
        return false;
    }
    proof {
        assert(t[2] == c2);
        lemma_byte_len_split(t, 3);
        assert(t.take(3) =~= seq![c0, c1, c2]);
        assert(seq![c0, c1, c2].drop_last() =~= seq![c0, c1]);
        assert(seq![c0, c1, c2].last() == c2);
        assert(byte_len(seq![c0, c1, c2]) == 3);
        lemma_byte_len_le(t.skip(3));
    }
    let c3 = v[start + 3];
    (c3 as u32) >= 0x80
}

/// Byte length of `v[start..]` if it is at most 6, and 7 otherwise.
fn capped_byte_len(v: &Vec<char>, start: usize) -> (n: usize)
    requires
        start <= v.len(),
    ensures
        n <= 7,
        n <= 6 ==> n == byte_len(v@.skip(start as int)),
        n == 7 ==> byte_len(v@.skip(start as int)) > 6,
{
    let ghost t = v@.skip(start as int);
    let mut n: usize = 0;
    let mut i = start;
    while i < v.len()
        invariant
            start <= i <= v.len(),
            t == v@.skip(start as int),
            n <= 6,
            n == byte_len(t.take(i - start)),
        decreases v.len() - i,
    {
        proof {
            assert(t.take(i - start + 1).drop_last() =~= t.take(i - start));
        }
        let w = utf8_width(v[i]);
        if n + w > 6 {
            proof {
                lemma_byte_len_mono(t, i - start + 1);
            }
            return 7;
        }
        n = n + w;
        i += 1;
    }
    proof {
        assert(t.take(i - start) =~= t);
    }
    n
}

impl Color {
    /// A colour from its components.
    pub fn new(r: u8, g: u8, b: u8) -> (c: Self)
        ensures
            c == (Color { r, g, b }),
    {
        Color { r, g, b }
    }

    /// Parses `"#RRGGBB"` (the `'#'` is optional, digits in either case).
    pub fn from_hex_opt(hex: &str) -> (c: Option<Self>)
        requires
            !hex_slicing_panics(hex@),
        ensures
            c == parse_hex_color(hex@),
    {
        let v = chars_of(hex);
        let start: usize = if v.len() > 0 && v[0] == '#' {
            1
        } else {
            0
        };
        let ghost t = strip_hash(hex@);
        proof {
            assert(t =~= v@.skip(start as int));
        }
        let blen = capped_byte_len(&v, start);
        if blen != 6 {
            return None;
        }
        if v.len() - start != 6 {
            return None;
        }
        let mut i = start;
        while i < v.len()
            invariant
                start <= i <= v.len(),
                v@ == hex@,
                t == v@.skip(start as int),
                forall|j: int| 0 <= j < i - start ==> is_ascii_char(#[trigger] t[j]),
            decreases v.len() - i,
        {
            if (v[i] as u32) >= 0x80 {
                return None;
            }
            i += 1;
        }
        let r = match radix16(v[start], v[start + 1]) {
            Some(x) => x,
            None => return None,
        };
        let g = match radix16(v[start + 2], v[start + 3]) {
            Some(x) => x,
            None => return None,
        };
        let b = match radix16(v[start + 4], v[start + 5]) {
            Some(x) => x,
            None => return None,
        };
        Some(Color { r, g, b })
    }

    /// `from_hex_opt`, falling back to white.
    pub fn from_hex(hex: &str) -> (c: Self)
        requires
            !hex_slicing_panics(hex@),
        ensures
            c == match parse_hex_color(hex@) {
                Some(p) => p,
                None => Color { r: 255, g: 255, b: 255 },
            },
    {
        match Self::from_hex_opt(hex) {
            Some(c) => c,
            None => Color::new(255, 255, 255),
        }
    }

    /// `"#RRGGBB"` in upper case.
    pub fn to_hex_string(&self) -> (s: String)
        ensures
            s@ == hex_string_seq(*self),
    {
        let mut s = String::new();
        push_char(&mut s, '#');
        push_hex2(&mut s, self.r);
        push_hex2(&mut s, self.g);
        push_hex2(&mut s, self.b);
        s
    }

    /// ANSI true-colour foreground escape sequence.
    pub fn fg_escape(&self) -> (s: String)
        ensures
            s@ == fg_escape_seq(*self),
    {
        let mut s = String::new();
        push_char(&mut s, '\x1b');
        push_char(&mut s, '\u{5b}');
        push_char(&mut s, '3');
        push_char(&mut s, '8');
        push_char(&mut s, ';');
        push_char(&mut s, '2');
        push_char(&mut s, ';');
        self.push_rgb_params(&mut s);
        proof {
            assert(s@ =~= fg_escape_seq(*self));
        }
        s
    }

    /// ANSI true-colour background escape sequence.
    pub fn bg_escape(&self) -> (s: String)
        ensures
            s@ == bg_escape_seq(*self),
    {
        let mut s = String::new();
        push_char(&mut s, '\x1b');
        push_char(&mut s, '\u{5b}');
        push_char(&mut s, '4');
        push_char(&mut s, '8');
        push_char(&mut s, ';');
        push_char(&mut s, '2');
        push_char(&mut s, ';');
        self.push_rgb_params(&mut s);
        proof {
            assert(s@ =~= bg_escape_seq(*self));
        }
        s
    }

    fn push_rgb_params(&self, s: &mut String)
        ensures
            final(s)@ == old(s)@ + rgb_params_seq(*self),
    {
        push_decimal(s, self.r as u64);
        push_char(s, ';');
        push_decimal(s, self.g as u64);
        push_char(s, ';');
        push_decimal(s, self.b as u64);
        push_char(s, 'm');
        proof {
            assert(final(s)@ =~= old(s)@ + rgb_params_seq(*self));
        }
    }
}

proof fn lemma_hex_digit_value(d: nat)
    requires
        d < 16,
    ensures
        hex_value(hex_digit_char(d)) == Some(d as u8),
        hex_digit_char(d) != '+',
        is_ascii_char(hex_digit_char(d)),
{
}

proof fn lemma_hex_pair(b: u8)
    ensures
        radix16_pair(hex2_seq(b)[0], hex2_seq(b)[1]) == Some(b),
        is_ascii_char(hex2_seq(b)[0]),
        is_ascii_char(hex2_seq(b)[1]),
        hex2_seq(b).len() == 2,
{
    lemma_hex_digit_value((b / 16) as nat);
    lemma_hex_digit_value((b % 16) as nat);
    assert(((b / 16) * 16 + b % 16) as u8 == b);
}

/// Reading back the upper-case hex form of a colour gives the colour.
pub proof fn hex_round_trip(c: Color)
    ensures
        !hex_slicing_panics(hex_string_seq(c)),
        parse_hex_color(hex_string_seq(c)) == Some(c),
{
    let s = hex_string_seq(c);
    let t = strip_hash(s);
    assert(t =~= hex2_seq(c.r) + hex2_seq(c.g) + hex2_seq(c.b));
    lemma_hex_pair(c.r);
    lemma_hex_pair(c.g);
    lemma_hex_pair(c.b);
    assert(t[0] == hex2_seq(c.r)[0] && t[1] == hex2_seq(c.r)[1]);
    assert(t[2] == hex2_seq(c.g)[0] && t[3] == hex2_seq(c.g)[1]);
    assert(t[4] == hex2_seq(c.b)[0] && t[5] == hex2_seq(c.b)[1]);
    assert forall|i: int| 0 <= i < t.len() implies is_ascii_char(#[trigger] t[i]) by {}
    lemma_byte_len_ascii(t);
}


/// `c.to_ascii_lowercase()`: upper-case ASCII letters lowered, every other
/// character kept.
pub open spec fn ascii_lower(c: char) -> char {
    if c == 'A' { 'a' }
    else if c == 'B' { 'b' }
    else if c == 'C' { 'c' }
    else if c == 'D' { 'd' }
    else if c == 'E' { 'e' }
    else if c == 'F' { 'f' }
    else if 'G' <= c && c <= 'Z' { ((c as u32) + 32) as char }
    else { c }
}

/// The hex form of a colour in lower case (`"#rrggbb"`).
pub open spec fn hex_string_lower_seq(c: Color) -> Seq<char> {
    hex_string_seq(c).map_values(|x: char| ascii_lower(x))
}

proof fn lemma_lower_hex_pair(b: u8)
    ensures
        radix16_pair(ascii_lower(hex2_seq(b)[0]), ascii_lower(hex2_seq(b)[1])) == Some(b),
        is_ascii_char(ascii_lower(hex2_seq(b)[0])),
        is_ascii_char(ascii_lower(hex2_seq(b)[1])),
{
    lemma_hex_pair(b);
    lemma_hex_digit_value((b / 16) as nat);
    lemma_hex_digit_value((b % 16) as nat);
    assert(hex_value(ascii_lower(hex2_seq(b)[0])) == hex_value(hex2_seq(b)[0]));
    assert(hex_value(ascii_lower(hex2_seq(b)[1])) == hex_value(hex2_seq(b)[1]));
    assert(ascii_lower(hex2_seq(b)[0]) != '+');
}

/// Reading back the lower-case hex form of a colour gives the colour too.
pub proof fn hex_lower_round_trip(c: Color)
    ensures
        !hex_slicing_panics(hex_string_lower_seq(c)),
        parse_hex_color(hex_string_lower_seq(c)) == Some(c),
{
    let s = hex_string_lower_seq(c);
    let u = hex_string_seq(c);
    assert(s.len() == 7);
    assert(s[0] == '#');
    let t = strip_hash(s);
    assert(t =~= s.skip(1));
    lemma_lower_hex_pair(c.r);
    lemma_lower_hex_pair(c.g);
    lemma_lower_hex_pair(c.b);
    assert(u[1] == hex2_seq(c.r)[0] && u[2] == hex2_seq(c.r)[1]);
    assert(u[3] == hex2_seq(c.g)[0] && u[4] == hex2_seq(c.g)[1]);
    assert(u[5] == hex2_seq(c.b)[0] && u[6] == hex2_seq(c.b)[1]);
    assert(t[0] == ascii_lower(u[1]) && t[1] == ascii_lower(u[2]));
    assert(t[2] == ascii_lower(u[3]) && t[3] == ascii_lower(u[4]));
    assert(t[4] == ascii_lower(u[5]) && t[5] == ascii_lower(u[6]));
    assert forall|i: int| 0 <= i < t.len() implies is_ascii_char(#[trigger] t[i]) by {}
    lemma_byte_len_ascii(t);
}

// ── Themes ───────────────────────────────────────────────────────────────

/// A named palette.
pub struct Theme {
    pub name: &'static str,
    pub colors: Vec<Color>,
}

/// The view of a theme: its name and its colours.
pub open spec fn theme_view(t: Theme) -> (Seq<char>, Seq<Color>) {
    (t.name@, t.colors@)
}

/// Views of a list of themes.
pub open spec fn themes_view(ts: Seq<Theme>) -> Seq<(Seq<char>, Seq<Color>)> {
    ts.map_values(|t: Theme| theme_view(t))
}

/// A colour from its components.
pub open spec fn rgb(r: u8, g: u8, b: u8) -> Color {
    Color { r, g, b }
}

/// The built-in themes, in menu order: pride flags first, then editor
/// palettes, then the plain white one.
pub open spec fn builtin_themes() -> Seq<(Seq<char>, Seq<Color>)> {
    seq![
        ("xenogender"@, seq![rgb(0xFF, 0x66, 0x92), rgb(0xFF, 0x9A, 0x98), rgb(0xFF, 0xB8, 0x83), rgb(0xFB, 0xFF, 0xA8), rgb(0x85, 0xBC, 0xFF), rgb(0x9D, 0x85, 0xFF), rgb(0xA5, 0x10, 0xFF)]),
        ("trans"@, seq![rgb(0x55, 0xCD, 0xFC), rgb(0x55, 0xCD, 0xFC), rgb(0xF7, 0xA8, 0xB8), rgb(0xFF, 0xFF, 0xFF), rgb(0xF7, 0xA8, 0xB8), rgb(0x55, 0xCD, 0xFC), rgb(0x55, 0xCD, 0xFC)]),
        ("nb"@, seq![rgb(0xFF, 0xF4, 0x30), rgb(0xFF, 0xFF, 0xFF), rgb(0x9C, 0x59, 0xD1), rgb(0x2C, 0x2C, 0x2C)]),
        ("genderfluid"@, seq![rgb(0xFF, 0x75, 0xA2), rgb(0xFF, 0xFF, 0xFF), rgb(0xC0, 0x11, 0xD7), rgb(0x2C, 0x2C, 0x2C), rgb(0x31, 0x70, 0xD0)]),
        ("pan"@, seq![rgb(0xFF, 0x21, 0x8C), rgb(0xFF, 0xD8, 0x00), rgb(0x21, 0xB1, 0xFF)]),
        ("bi"@, seq![rgb(0xD6, 0x02, 0x70), rgb(0xD6, 0x02, 0x70), rgb(0x9B, 0x4F, 0x96), rgb(0x00, 0x38, 0xA8), rgb(0x00, 0x38, 0xA8)]),
        ("ace"@, seq![rgb(0x00, 0x00, 0x00), rgb(0xA4, 0xA4, 0xA4), rgb(0xFF, 0xFF, 0xFF), rgb(0x81, 0x00, 0x81)]),
        ("lesbian"@, seq![rgb(0xD5, 0x2D, 0x00), rgb(0xD5, 0x2D, 0x00), rgb(0xFF, 0x9A, 0x56), rgb(0xFF, 0xFF, 0xFF), rgb(0xD3, 0x62, 0xA4), rgb(0xA3, 0x02, 0x62), rgb(0xA3, 0x02, 0x62)]),
        ("gay"@, seq![rgb(0x07, 0x8D, 0x70), rgb(0x26, 0xCE, 0xAA), rgb(0x98, 0xE8, 0xC1), rgb(0xFF, 0xFF, 0xFF), rgb(0x7B, 0xAD, 0xE2), rgb(0x50, 0x49, 0xCC), rgb(0x3D, 0x1A, 0x78)]),
        ("intersex"@, seq![rgb(0xFF, 0xD7, 0x00), rgb(0x79, 0x02, 0xAA)]),
        ("aromantic"@, seq![rgb(0x3D, 0xA5, 0x42), rgb(0xA8, 0xD4, 0x7A), rgb(0xFF, 0xFF, 0xFF), rgb(0xBA, 0xBA, 0xBA), rgb(0x00, 0x00, 0x00)]),
        ("agender"@, seq![rgb(0x00, 0x00, 0x00), rgb(0xBA, 0xBA, 0xBA), rgb(0xFF, 0xFF, 0xFF), rgb(0xB4, 0xFF, 0x3B), rgb(0xFF, 0xFF, 0xFF), rgb(0xBA, 0xBA, 0xBA), rgb(0x00, 0x00, 0x00)]),
        ("arch"@, seq![rgb(0x17, 0x93, 0xD1), rgb(0x17, 0x93, 0xD1), rgb(0x17, 0x93, 0xD1), rgb(0x17, 0x93, 0xD1), rgb(0x17, 0x93, 0xD1)]),
        ("catppuccin-mocha"@, seq![rgb(0xF5, 0xC2, 0xE7), rgb(0xCB, 0xA6, 0xF7), rgb(0x94, 0xE2, 0xD5), rgb(0xA6, 0xE3, 0xA1), rgb(0xF9, 0xE2, 0xAF), rgb(0xFA, 0xB3, 0x87), rgb(0x89, 0xB4, 0xFA)]),
        ("catppuccin-latte"@, seq![rgb(0xDD, 0x78, 0x78), rgb(0x88, 0x39, 0xEF), rgb(0x40, 0xA0, 0x2B), rgb(0xFE, 0x64, 0x0B), rgb(0xDF, 0x8E, 0x1D), rgb(0x04, 0xA5, 0xE5), rgb(0x20, 0x9F, 0xB5)]),
        ("dracula"@, seq![rgb(0xFF, 0x55, 0x55), rgb(0xFF, 0x79, 0xC6), rgb(0xBD, 0x93, 0xF9), rgb(0x50, 0xFA, 0x7B), rgb(0xF1, 0xFA, 0x8C), rgb(0xFF, 0xB8, 0x6C), rgb(0x8B, 0xE9, 0xFD)]),
        ("gruvbox"@, seq![rgb(0xCC, 0x24, 0x1D), rgb(0x98, 0x97, 0x1A), rgb(0xD7, 0x99, 0x21), rgb(0x45, 0x85, 0x88), rgb(0xB1, 0x62, 0x86), rgb(0x68, 0x9D, 0x6A), rgb(0xFB, 0x49, 0x34)]),
        ("tokyonight"@, seq![rgb(0xF7, 0x76, 0x8E), rgb(0xBB, 0x9A, 0xF7), rgb(0x7D, 0xCF, 0xFF), rgb(0x9E, 0xCE, 0x6A), rgb(0xE0, 0xAF, 0x68), rgb(0x73, 0xDA, 0xCA), rgb(0xFF, 0x9E, 0x64)]),
        ("nord"@, seq![rgb(0xBF, 0x61, 0x6A), rgb(0xD0, 0x87, 0x70), rgb(0xEB, 0xCB, 0x8B), rgb(0xA3, 0xBE, 0x8C), rgb(0xB4, 0x8E, 0xAD), rgb(0x88, 0xC0, 0xD0), rgb(0x81, 0xA1, 0xC1)]),
        ("everforest"@, seq![rgb(0xE6, 0x7E, 0x80), rgb(0xE6, 0x98, 0x75), rgb(0xDB, 0xBC, 0x7F), rgb(0xA7, 0xC0, 0x80), rgb(0x7F, 0xBB, 0xB3), rgb(0x83, 0xC0, 0x92), rgb(0xD3, 0xC6, 0xAA)]),
        ("solarized-dark"@, seq![rgb(0xDC, 0x32, 0x2F), rgb(0xCB, 0x4B, 0x16), rgb(0xB5, 0x89, 0x00), rgb(0x85, 0x99, 0x00), rgb(0x6C, 0x71, 0xC4), rgb(0x26, 0x8B, 0xD2), rgb(0x2A, 0xA1, 0x98)]),
        ("monokai"@, seq![rgb(0xF9, 0x26, 0x72), rgb(0xFD, 0x97, 0x1F), rgb(0xE6, 0xDB, 0x74), rgb(0xA6, 0xE2, 0x2E), rgb(0x66, 0xD9, 0xEF), rgb(0xAE, 0x81, 0xFF), rgb(0xF8, 0xF8, 0xF2)]),
        ("one-dark"@, seq![rgb(0xE0, 0x6C, 0x75), rgb(0xD1, 0x9A, 0x66), rgb(0xE5, 0xC0, 0x7B), rgb(0x98, 0xC3, 0x79), rgb(0x56, 0xB6, 0xC2), rgb(0x61, 0xAF, 0xEF), rgb(0xC6, 0x78, 0xDD)]),
        ("rose-pine"@, seq![rgb(0xEB, 0x6F, 0x92), rgb(0xF6, 0xC1, 0x77), rgb(0xEB, 0xBC, 0xBA), rgb(0x31, 0x74, 0x8F), rgb(0x9C, 0xCF, 0xD8), rgb(0xC4, 0xA7, 0xE7), rgb(0xE0, 0xDE, 0xF4)]),
        ("synthwave"@, seq![rgb(0xFF, 0x7E, 0xDB), rgb(0xFF, 0x7E, 0xDB), rgb(0x36, 0xF9, 0xF6), rgb(0x36, 0xF9, 0xF6), rgb(0xFF, 0xE0, 0x66), rgb(0xFF, 0xE0, 0x66), rgb(0xB4, 0xA0, 0xFF)]),
        ("singularityos"@, seq![rgb(0xC0, 0x84, 0xFC), rgb(0xA7, 0x8B, 0xFA), rgb(0x81, 0x8C, 0xF8), rgb(0x63, 0x66, 0xF1), rgb(0x4F, 0x46, 0xE5)]),
        ("classic"@, seq![rgb(0xFF, 0xFF, 0xFF), rgb(0xFF, 0xFF, 0xFF), rgb(0xFF, 0xFF, 0xFF), rgb(0xFF, 0xFF, 0xFF), rgb(0xFF, 0xFF, 0xFF)]),
    ]
}

/// All built-in themes.
pub fn all_themes() -> (r: Vec<Theme>)
    ensures
        themes_view(r@) == builtin_themes(),
{
    let mut v: Vec<Theme> = Vec::new();
    v.push(Theme { name: "xenogender", colors: vec![Color::new(0xFF, 0x66, 0x92), Color::new(0xFF, 0x9A, 0x98), Color::new(0xFF, 0xB8, 0x83), Color::new(0xFB, 0xFF, 0xA8), Color::new(0x85, 0xBC, 0xFF), Color::new(0x9D, 0x85, 0xFF), Color::new(0xA5, 0x10, 0xFF)] });
    v.push(Theme { name: "trans", colors: vec![Color::new(0x55, 0xCD, 0xFC), Color::new(0x55, 0xCD, 0xFC), Color::new(0xF7, 0xA8, 0xB8), Color::new(0xFF, 0xFF, 0xFF), Color::new(0xF7, 0xA8, 0xB8), Color::new(0x55, 0xCD, 0xFC), Color::new(0x55, 0xCD, 0xFC)] });
    v.push(Theme { name: "nb", colors: vec![Color::new(0xFF, 0xF4, 0x30), Color::new(0xFF, 0xFF, 0xFF), Color::new(0x9C, 0x59, 0xD1), Color::new(0x2C, 0x2C, 0x2C)] });
    v.push(Theme { name: "genderfluid", colors: vec![Color::new(0xFF, 0x75, 0xA2), Color::new(0xFF, 0xFF, 0xFF), Color::new(0xC0, 0x11, 0xD7), Color::new(0x2C, 0x2C, 0x2C), Color::new(0x31, 0x70, 0xD0)] });
    v.push(Theme { name: "pan", colors: vec![Color::new(0xFF, 0x21, 0x8C), Color::new(0xFF, 0xD8, 0x00), Color::new(0x21, 0xB1, 0xFF)] });
    v.push(Theme { name: "bi", colors: vec![Color::new(0xD6, 0x02, 0x70), Color::new(0xD6, 0x02, 0x70), Color::new(0x9B, 0x4F, 0x96), Color::new(0x00, 0x38, 0xA8), Color::new(0x00, 0x38, 0xA8)] });
    v.push(Theme { name: "ace", colors: vec![Color::new(0x00, 0x00, 0x00), Color::new(0xA4, 0xA4, 0xA4), Color::new(0xFF, 0xFF, 0xFF), Color::new(0x81, 0x00, 0x81)] });
    v.push(Theme { name: "lesbian", colors: vec![Color::new(0xD5, 0x2D, 0x00), Color::new(0xD5, 0x2D, 0x00), Color::new(0xFF, 0x9A, 0x56), Color::new(0xFF, 0xFF, 0xFF), Color::new(0xD3, 0x62, 0xA4), Color::new(0xA3, 0x02, 0x62), Color::new(0xA3, 0x02, 0x62)] });
    v.push(Theme { name: "gay", colors: vec![Color::new(0x07, 0x8D, 0x70), Color::new(0x26, 0xCE, 0xAA), Color::new(0x98, 0xE8, 0xC1), Color::new(0xFF, 0xFF, 0xFF), Color::new(0x7B, 0xAD, 0xE2), Color::new(0x50, 0x49, 0xCC), Color::new(0x3D, 0x1A, 0x78)] });
    v.push(Theme { name: "intersex", colors: vec![Color::new(0xFF, 0xD7, 0x00), Color::new(0x79, 0x02, 0xAA)] });
    v.push(Theme { name: "aromantic", colors: vec![Color::new(0x3D, 0xA5, 0x42), Color::new(0xA8, 0xD4, 0x7A), Color::new(0xFF, 0xFF, 0xFF), Color::new(0xBA, 0xBA, 0xBA), Color::new(0x00, 0x00, 0x00)] });
    v.push(Theme { name: "agender", colors: vec![Color::new(0x00, 0x00, 0x00), Color::new(0xBA, 0xBA, 0xBA), Color::new(0xFF, 0xFF, 0xFF), Color::new(0xB4, 0xFF, 0x3B), Color::new(0xFF, 0xFF, 0xFF), Color::new(0xBA, 0xBA, 0xBA), Color::new(0x00, 0x00, 0x00)] });
    v.push(Theme { name: "arch", colors: vec![Color::new(0x17, 0x93, 0xD1), Color::new(0x17, 0x93, 0xD1), Color::new(0x17, 0x93, 0xD1), Color::new(0x17, 0x93, 0xD1), Color::new(0x17, 0x93, 0xD1)] });
    v.push(Theme { name: "catppuccin-mocha", colors: vec![Color::new(0xF5, 0xC2, 0xE7), Color::new(0xCB, 0xA6, 0xF7), Color::new(0x94, 0xE2, 0xD5), Color::new(0xA6, 0xE3, 0xA1), Color::new(0xF9, 0xE2, 0xAF), Color::new(0xFA, 0xB3, 0x87), Color::new(0x89, 0xB4, 0xFA)] });
    v.push(Theme { name: "catppuccin-latte", colors: vec![Color::new(0xDD, 0x78, 0x78), Color::new(0x88, 0x39, 0xEF), Color::new(0x40, 0xA0, 0x2B), Color::new(0xFE, 0x64, 0x0B), Color::new(0xDF, 0x8E, 0x1D), Color::new(0x04, 0xA5, 0xE5), Color::new(0x20, 0x9F, 0xB5)] });
    v.push(Theme { name: "dracula", colors: vec![Color::new(0xFF, 0x55, 0x55), Color::new(0xFF, 0x79, 0xC6), Color::new(0xBD, 0x93, 0xF9), Color::new(0x50, 0xFA, 0x7B), Color::new(0xF1, 0xFA, 0x8C), Color::new(0xFF, 0xB8, 0x6C), Color::new(0x8B, 0xE9, 0xFD)] });
    v.push(Theme { name: "gruvbox", colors: vec![Color::new(0xCC, 0x24, 0x1D), Color::new(0x98, 0x97, 0x1A), Color::new(0xD7, 0x99, 0x21), Color::new(0x45, 0x85, 0x88), Color::new(0xB1, 0x62, 0x86), Color::new(0x68, 0x9D, 0x6A), Color::new(0xFB, 0x49, 0x34)] });
    v.push(Theme { name: "tokyonight", colors: vec![Color::new(0xF7, 0x76, 0x8E), Color::new(0xBB, 0x9A, 0xF7), Color::new(0x7D, 0xCF, 0xFF), Color::new(0x9E, 0xCE, 0x6A), Color::new(0xE0, 0xAF, 0x68), Color::new(0x73, 0xDA, 0xCA), Color::new(0xFF, 0x9E, 0x64)] });
    v.push(Theme { name: "nord", colors: vec![Color::new(0xBF, 0x61, 0x6A), Color::new(0xD0, 0x87, 0x70), Color::new(0xEB, 0xCB, 0x8B), Color::new(0xA3, 0xBE, 0x8C), Color::new(0xB4, 0x8E, 0xAD), Color::new(0x88, 0xC0, 0xD0), Color::new(0x81, 0xA1, 0xC1)] });
    v.push(Theme { name: "everforest", colors: vec![Color::new(0xE6, 0x7E, 0x80), Color::new(0xE6, 0x98, 0x75), Color::new(0xDB, 0xBC, 0x7F), Color::new(0xA7, 0xC0, 0x80), Color::new(0x7F, 0xBB, 0xB3), Color::new(0x83, 0xC0, 0x92), Color::new(0xD3, 0xC6, 0xAA)] });
    v.push(Theme { name: "solarized-dark", colors: vec![Color::new(0xDC, 0x32, 0x2F), Color::new(0xCB, 0x4B, 0x16), Color::new(0xB5, 0x89, 0x00), Color::new(0x85, 0x99, 0x00), Color::new(0x6C, 0x71, 0xC4), Color::new(0x26, 0x8B, 0xD2), Color::new(0x2A, 0xA1, 0x98)] });
    v.push(Theme { name: "monokai", colors: vec![Color::new(0xF9, 0x26, 0x72), Color::new(0xFD, 0x97, 0x1F), Color::new(0xE6, 0xDB, 0x74), Color::new(0xA6, 0xE2, 0x2E), Color::new(0x66, 0xD9, 0xEF), Color::new(0xAE, 0x81, 0xFF), Color::new(0xF8, 0xF8, 0xF2)] });
    v.push(Theme { name: "one-dark", colors: vec![Color::new(0xE0, 0x6C, 0x75), Color::new(0xD1, 0x9A, 0x66), Color::new(0xE5, 0xC0, 0x7B), Color::new(0x98, 0xC3, 0x79), Color::new(0x56, 0xB6, 0xC2), Color::new(0x61, 0xAF, 0xEF), Color::new(0xC6, 0x78, 0xDD)] });
    v.push(Theme { name: "rose-pine", colors: vec![Color::new(0xEB, 0x6F, 0x92), Color::new(0xF6, 0xC1, 0x77), Color::new(0xEB, 0xBC, 0xBA), Color::new(0x31, 0x74, 0x8F), Color::new(0x9C, 0xCF, 0xD8), Color::new(0xC4, 0xA7, 0xE7), Color::new(0xE0, 0xDE, 0xF4)] });
    v.push(Theme { name: "synthwave", colors: vec![Color::new(0xFF, 0x7E, 0xDB), Color::new(0xFF, 0x7E, 0xDB), Color::new(0x36, 0xF9, 0xF6), Color::new(0x36, 0xF9, 0xF6), Color::new(0xFF, 0xE0, 0x66), Color::new(0xFF, 0xE0, 0x66), Color::new(0xB4, 0xA0, 0xFF)] });
    v.push(Theme { name: "singularityos", colors: vec![Color::new(0xC0, 0x84, 0xFC), Color::new(0xA7, 0x8B, 0xFA), Color::new(0x81, 0x8C, 0xF8), Color::new(0x63, 0x66, 0xF1), Color::new(0x4F, 0x46, 0xE5)] });
    v.push(Theme { name: "classic", colors: vec![Color::new(0xFF, 0xFF, 0xFF), Color::new(0xFF, 0xFF, 0xFF), Color::new(0xFF, 0xFF, 0xFF), Color::new(0xFF, 0xFF, 0xFF), Color::new(0xFF, 0xFF, 0xFF)] });
    proof {
        assert(themes_view(v@) =~= builtin_themes());
    }
    v
}

/// The built-in theme called `name`, if there is one.
pub fn find_theme(name: &str) -> (r: Option<Theme>)
    ensures
        match r {
            Some(t) => exists|i: int| 0 <= i < builtin_themes().len() && theme_view(t) == builtin_themes()[i]
                && builtin_themes()[i].0 == name@
                && forall|j: int| 0 <= j < i ==> builtin_themes()[j].0 != name@,
            None => forall|i: int| 0 <= i < builtin_themes().len() ==> builtin_themes()[i].0 != name@,
        },
{
    let mut v = all_themes();
    let mut i: usize = 0;
    while i < v.len()
        invariant
            i <= v@.len(),
            themes_view(v@) == builtin_themes(),
            forall|j: int| 0 <= j < i ==> builtin_themes()[j].0 != name@,
        decreases v@.len() - i,
    {
        proof {
            assert(builtin_themes()[i as int] == theme_view(v@[i as int]));
        }
        if str_eq(v[i].name, name) {
            let t = v.remove(i);
            return Some(t);
        }
        i += 1;
    }
    None
}

/// Name of the theme new configurations start with.
pub const DEFAULT_THEME: &'static str = "singularityos";

/// The default theme of new configurations is one of the built-in themes,
/// so `find_theme(DEFAULT_THEME)` finds it.
pub proof fn default_theme_is_built_in()
    ensures
        exists|i: int| 0 <= i < builtin_themes().len() && #[trigger] builtin_themes()[i].0 == DEFAULT_THEME@,
{
    let k = 25int;
    assert(builtin_themes()[k].0 == DEFAULT_THEME@);
}

// ── Spreading a palette over rows ────────────────────────────────────────

/// Palette entry for position `i` of `total` when `len` colours are spread
/// as evenly as possible: every entry gets `total / len` positions, the
/// first `total % len` entries one more, in order.
pub open spec fn stretch_spec(i: nat, total: nat, len: nat) -> nat {
    if len <= 1 || total == 0 {
        0
    } else if total <= len {
        if i < len - 1 { i } else { (len - 1) as nat }
    } else {
        let base = total / len;
        let rem = total % len;
        let thick = base + 1;
        if i < thick * rem {
            i / thick
        } else {
            (rem + ((i - thick * rem) as nat) / base) as nat
        }
    }
}

/// First position that palette entry `k` colours.
pub open spec fn stretch_start(k: nat, total: nat, len: nat) -> nat {
    let base = total / len;
    let rem = total % len;
    if k < rem { k * (base + 1) } else { ((base + 1) * rem + (k - rem) * base) as nat }
}

proof fn lemma_stretch_facts(total: nat, len: nat)
    requires
        len > 1,
        total > len,
    ensures
        total == (total / len) * len + total % len,
        total % len < len,
        total / len >= 1,
        (total / len + 1) * (total % len) <= total,
        total - (total / len + 1) * (total % len) == (total / len) * (len - total % len),
{
    let base = total / len;
    let rem = total % len;
    vstd::arithmetic::div_mod::lemma_fundamental_div_mod(total as int, len as int);
    assert(total == base * len + rem);
    assert(base >= 1) by (nonlinear_arith)
        requires
            total == base * len + rem,
            rem < len,
            total > len,
    ;
    assert((base + 1) * rem <= total && total - (base + 1) * rem == base * (len - rem)) by (nonlinear_arith)
        requires
            total == base * len + rem,
            rem < len,
    ;
}

/// Positions before `total` get a palette entry that exists.
pub proof fn stretch_in_bounds(i: nat, total: nat, len: nat)
    requires
        len > 0,
        i < total,
    ensures
        stretch_spec(i, total, len) < len,
{
    if len > 1 && total > len {
        lemma_stretch_facts(total, len);
        let base = total / len;
        let rem = total % len;
        let thick = base + 1;
        if i < thick * rem {
            assert(i / thick < rem) by (nonlinear_arith)
                requires
                    i < thick * rem,
                    thick > 0,
            ;
        } else {
            let d = (i - thick * rem) as nat;
            assert(d < base * (len - rem));
            assert(d / base < len - rem) by (nonlinear_arith)
                requires
                    d < base * (len - rem),
                    base > 0,
            ;
        }
    }
}

/// The entries are laid out in order: a later position never gets an
/// earlier palette entry.
pub proof fn stretch_monotone(i: nat, j: nat, total: nat, len: nat)
    requires
        i <= j,
    ensures
        stretch_spec(i, total, len) <= stretch_spec(j, total, len),
{
    if len > 1 && total > len {
        lemma_stretch_facts(total, len);
        let base = total / len;
        let rem = total % len;
        let thick = base + 1;
        if j < thick * rem {
            assert(i / thick <= j / thick) by (nonlinear_arith)
                requires
                    i <= j,
                    thick > 0,
            ;
        } else if i < thick * rem {
            assert(i / thick < rem) by (nonlinear_arith)
                requires
                    i < thick * rem,
                    thick > 0,
            ;
        } else {
            let a = (i - thick * rem) as nat;
            let b = (j - thick * rem) as nat;
            assert(a / base <= b / base) by (nonlinear_arith)
                requires
                    a <= b,
                    base > 0,
            ;
        }
    }
}

/// When there are at least as many positions as colours, every colour is
/// used: entry `k` colours position `stretch_start(k, ..)`, which lies
/// before `total`.
pub proof fn stretch_covers(k: nat, total: nat, len: nat)
    requires
        k < len,
        len <= total,
    ensures
        stretch_start(k, total, len) < total,
        len > 1 && total > len ==> stretch_spec(stretch_start(k, total, len), total, len) == k,
{
    if len > 1 && total > len {
        lemma_stretch_facts(total, len);
        let base = total / len;
        let rem = total % len;
        let thick = base + 1;
        if k < rem {
            let s = k * thick;
            assert(s < thick * rem && s / thick == k) by (nonlinear_arith)
                requires
                    s == k * thick,
                    k < rem,
                    thick > 0,
            ;
        } else {
            let m = (k - rem) as nat;
            assert(m * base / base == m) by (nonlinear_arith)
                requires
                    base > 0,
            ;
            assert(thick * rem + m * base < total) by (nonlinear_arith)
                requires
                    m < len - rem,
                    total - thick * rem == base * (len - rem),
                    base > 0,
            ;
        }
    } else if total == len {
        assert(total / len == 1) by (nonlinear_arith)
            requires
                total == len,
                len > 0,
        ;
        assert(total % len == 0) by (nonlinear_arith)
            requires
                total == len,
                len > 0,
        ;
        let base = total / len;
        assert(stretch_start(k, total, len) == (base + 1) * 0 + (k - 0) * base);
        assert((base + 1) * 0 + (k - 0) * base == k) by (nonlinear_arith)
            requires
                base == 1,
        ;
    } else {
        assert(total % len == 0) by (nonlinear_arith)
            requires
                len == 1,
        ;
        let base = total / len;
        assert(stretch_start(k, total, len) == (base + 1) * 0 + (k - 0) * base);
        assert((base + 1) * 0 + (k - 0) * base == 0) by (nonlinear_arith)
            requires
                k == 0,
        ;
    }
}

/// Number of positions palette entry `k` colours: `total / len`, one more
/// for the first `total % len` entries.
pub open spec fn stretch_size(k: nat, total: nat, len: nat) -> nat {
    total / len + if k < total % len { 1nat } else { 0nat }
}

/// With at least as many positions as colours, palette entry `k` colours
/// exactly the `stretch_size(k, ..)` positions from `stretch_start(k, ..)`
/// on: the entries share the positions as evenly as possible, in order,
/// the first `total % len` getting one more.
pub proof fn stretch_counts(i: nat, k: nat, total: nat, len: nat)
    requires
        1 <= len <= total,
        i < total,
        k < len,
    ensures
        (stretch_spec(i, total, len) == k) <==> (stretch_start(k, total, len) <= i && i < stretch_start(k, total, len)
            + stretch_size(k, total, len)),
{
    let base = total / len;
    let rem = total % len;
    if len == 1 {
        assert(total / 1 == total && total % 1 == 0) by (nonlinear_arith)
            requires
                len == 1,
        ;
        assert(k == 0);
        assert(stretch_start(k, total, len) == 0) by (nonlinear_arith)
            requires
                stretch_start(k, total, len) == (base + 1) * rem + (k - rem) * base,
                k == 0,
                rem == 0,
        ;
    } else if total == len {
        assert(total / len == 1 && total % len == 0) by (nonlinear_arith)
            requires
                total == len,
                len > 0,
        ;
        assert(stretch_start(k, total, len) == k) by (nonlinear_arith)
            requires
                stretch_start(k, total, len) == (base + 1) * 0 + (k - 0) * base,
                base == 1,
        ;
    } else {
        lemma_stretch_facts(total, len);
        let thick = base + 1;
        if k < rem {
            let st = k * thick;
            assert(stretch_start(k, total, len) == st);
            assert(stretch_size(k, total, len) == thick);
            if i < thick * rem {
                assert((i / thick == k) <==> (st <= i && i < st + thick)) by (nonlinear_arith)
                    requires
                        st == k * thick,
                        thick > 0,
                ;
            } else {
                let d = (i - thick * rem) as nat;
                assert(st + thick <= thick * rem) by (nonlinear_arith)
                    requires
                        st == k * thick,
                        k < rem,
                ;
                assert(rem + d / base >= rem);
            }
        } else {
            let m = (k - rem) as nat;
            let st = thick * rem + m * base;
            assert(stretch_start(k, total, len) == st);
            assert(stretch_size(k, total, len) == base);
            if i < thick * rem {
                assert(i / thick < rem) by (nonlinear_arith)
                    requires
                        i < thick * rem,
                        thick > 0,
                ;
            } else {
                let d = (i - thick * rem) as nat;
                assert((d / base == m) <==> (m * base <= d && d < m * base + base)) by (nonlinear_arith)
                    requires
                        base > 0,
                ;
            }
        }
    }
}

/// With at least as many positions as colours, palette entry `k` colours
/// exactly `total / len` of the `total` positions, one more for the first
/// `total % len` entries: no entry is skipped.
pub proof fn stretch_count(k: nat, total: nat, len: nat)
    requires
        1 <= len <= total,
        k < len,
    ensures
        Set::new(|i: int| 0 <= i < total && stretch_spec(i as nat, total, len) == k).finite(),
        Set::new(|i: int| 0 <= i < total && stretch_spec(i as nat, total, len) == k).len() == stretch_size(k, total, len),
{
    let b = total / len;
    let r = total % len;
    vstd::arithmetic::div_mod::lemma_fundamental_div_mod(total as int, len as int);
    assert(total == len * b + r && r < len);
    let st = stretch_start(k, total, len);
    let sz = stretch_size(k, total, len);
    if k < r {
        assert(st + sz <= total) by (nonlinear_arith)
            requires
                st == k * (b + 1),
                sz == b + 1,
                k + 1 <= r,
                r <= len,
                total == len * b + r,
        ;
    } else {
        assert(st + sz <= total) by (nonlinear_arith)
            requires
                st == (b + 1) * r + (k - r) * b,
                sz == b,
                r <= k,
                k + 1 <= len,
                total == len * b + r,
        ;
    }
    let s = Set::new(|i: int| 0 <= i < total && stretch_spec(i as nat, total, len) == k);
    assert forall|i: int| s.contains(i) <==> vstd::set_lib::set_int_range(st as int, (st + sz) as int).contains(i) by {
        if 0 <= i < total {
            stretch_counts(i as nat, k, total, len);
        }
    }
    assert(s =~= vstd::set_lib::set_int_range(st as int, (st + sz) as int));
    vstd::set_lib::lemma_int_range(st as int, (st + sz) as int);
}

/// With no more positions than colours each position keeps its own colour.
pub proof fn stretch_identity_when_short(i: nat, total: nat, len: nat)
    requires
        1 < len,
        0 < total <= len,
        i < total,
    ensures
        stretch_spec(i, total, len) == i,
{
}

/// Palette entry for position `i` of `total` with `len` colours (see
/// `stretch_spec`).
pub fn stretch_index(i: usize, total: usize, len: usize) -> (r: usize)
    ensures
        r as nat == stretch_spec(i as nat, total as nat, len as nat),
{
    if len <= 1 || total == 0 {
        return 0;
    }
    if total <= len {
        return if i < len - 1 { i } else { len - 1 };
    }
    proof {
        lemma_stretch_facts(total as nat, len as nat);
    }
    let base = total / len;
    let rem = total % len;
    proof {
        assert(base < total) by (nonlinear_arith)
            requires
                total == base * len + rem,
                len > 1,
                base >= 1,
        ;
    }
    let thick = base + 1;
    let bound = thick * rem;
    proof {
        assert(rem <= bound) by (nonlinear_arith)
            requires
                bound == thick * rem,
                thick >= 1,
        ;
    }
    if i < bound {
        i / thick
    } else {
        proof {
            let d = (i - bound) as nat;
            assert(d / (base as nat) <= d) by (nonlinear_arith)
                requires
                    base >= 1,
            ;
        }
        rem + (i - bound) / base
    }
}

// ── Flag patterns ────────────────────────────────────────────────────────

/// Yellow of the intersex flag.
pub open spec fn intersex_yellow() -> Color {
    Color { r: 0xFF, g: 0xD7, b: 0x00 }
}

/// Purple of the intersex flag.
pub open spec fn intersex_purple() -> Color {
    Color { r: 0x79, g: 0x02, b: 0xAA }
}

/// Background and ring colours when the palette starts with the two
/// intersex colours (in either order), `None` for any other palette.
pub open spec fn intersex_roles(colors: Seq<Color>) -> Option<(Color, Color)> {
    if colors.len() >= 2 && (colors[0] == intersex_yellow() || colors[0] == intersex_purple())
        && (colors[1] == intersex_yellow() || colors[1] == intersex_purple()) && colors[0] != colors[1] {
        if colors[0] == intersex_yellow() { Some((colors[0], colors[1])) } else { Some((colors[1], colors[0])) }
    } else {
        None
    }
}

/// Flag-pattern colour of a cell: for the intersex palette, the ring colour
/// on the ring and the background colour elsewhere (roles exchanged when
/// `swapped`); `None` for palettes that are no known flag.
pub open spec fn flag_color_spec(colors: Seq<Color>, in_ring: bool, swapped: bool) -> Option<Color> {
    match intersex_roles(colors) {
        Some((bg, ring)) => Some(if swapped {
            if in_ring { bg } else { ring }
        } else {
            if in_ring { ring } else { bg }
        }),
        None => None,
    }
}

/// Flag-pattern colour of a cell; `in_ring` says whether the cell lies on
/// the flag's ring (the caller measures that on the art's geometry).
pub fn flag_color_at(colors: &[Color], in_ring: bool, swapped: bool) -> (r: Option<Color>)
    ensures
        r == flag_color_spec(colors@, in_ring, swapped),
{
    if colors.len() >= 2 {
        let yellow = Color::new(0xFF, 0xD7, 0x00);
        let purple = Color::new(0x79, 0x02, 0xAA);
        let c0 = colors[0];
        let c1 = colors[1];
        if (c0 == yellow || c0 == purple) && (c1 == yellow || c1 == purple) && c0 != c1 {
            let (bg, ring) = if c0 == yellow { (c0, c1) } else { (c1, c0) };
            return Some(if swapped {
                if in_ring { bg } else { ring }
            } else {
                if in_ring { ring } else { bg }
            });
        }
    }
    None
}

} // verus!

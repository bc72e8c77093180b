//! Logo text handling: cleaning loaded art, choosing the logo variant for
//! the terminal, expanding `~` in logo paths.
use vstd::prelude::*;
use crate::render::{non_blank, trim_ends, trim_line_ends};
use crate::strs::{trim_start_char_seq, trim_start_matches};
use crate::text::{chars_of, lines, lines_seq, push_char, push_str, skip_chars, skip_seq, to_string, trim_seq, views};

verus! {

/// Whether `c` counts as indent in art: a blank or an empty braille cell.
pub open spec fn is_indent(c: char) -> bool {
    c == ' ' || c == '\u{2800}'
}

/// Leading indent characters of a line.
pub open spec fn indent_of(l: Seq<char>) -> nat
    decreases l.len(),
{
    if l.len() > 0 && is_indent(l[0]) { 1 + indent_of(l.drop_first()) } else { 0 }
}

/// The smallest indent among non-blank lines, or 0 when all are blank.
pub open spec fn min_lead(lines: Seq<Seq<char>>) -> nat
    decreases lines.len(),
{
    if lines.len() == 0 {
        0
    } else {
        let rest = lines.drop_last();
        let m = min_lead(rest);
        let l = lines.last();
        if !non_blank(l) {
            m
        } else if !any_non_blank(rest) || indent_of(l) < m {
            indent_of(l)
        } else {
            m
        }
    }
}

/// Whether some line is not blank.
pub open spec fn any_non_blank(lines: Seq<Seq<char>>) -> bool {
    exists|i: int| 0 <= i < lines.len() && #[trigger] non_blank(lines[i])
}

/// Lines joined with line breaks.
pub open spec fn join_lines(lines: Seq<Seq<char>>) -> Seq<char>
    decreases lines.len(),
{
    if lines.len() == 0 {
        Seq::empty()
    } else if lines.len() == 1 {
        lines[0]
    } else {
        join_lines(lines.drop_last()) + seq!['\n'] + lines.last()
    }
}

/// Art cleaned for display: trailing white space removed from each line,
/// the indent common to the non-blank lines removed, lines joined with
/// line breaks.
pub open spec fn clean_ascii_spec(art: Seq<char>) -> Seq<char> {
    let ls = trim_ends(lines_seq(art));
    let k = min_lead(ls);
    if k == 0 { join_lines(ls) } else { join_lines(ls.map_values(|l: Seq<char>| skip_seq(l, k))) }
}

/// Number of leading indent characters.
fn count_indent(s: &str) -> (n: usize)
    ensures
        n as nat == indent_of(s@),
{
    let v = chars_of(s);
    let mut i: usize = 0;
    proof {
        assert(s@.subrange(0, s@.len() as int) =~= s@);
    }
    while i < v.len() && (v[i] == ' ' || v[i] == '\u{2800}')
        invariant
            i <= v.len(),
            v@ == s@,
            indent_of(s@) == i + indent_of(s@.subrange(i as int, s@.len() as int)),
        decreases v.len() - i,
    {
        proof {
            let rest = s@.subrange(i as int, s@.len() as int);
            assert(rest.drop_first() =~= s@.subrange(i + 1, s@.len() as int));
        }
        i += 1;
    }
    proof {
        let rest = s@.subrange(i as int, s@.len() as int);
        if rest.len() > 0 {
            assert(rest[0] == v@[i as int]);
        }
    }
    i
}

/// Joins lines with line breaks.
fn join_with_newlines(ls: &Vec<String>) -> (r: String)
    ensures
        r@ == join_lines(views(ls@)),
{
    let mut out = String::new();
    let mut i: usize = 0;
    while i < ls.len()
        invariant
            i <= ls@.len(),
            out@ == join_lines(views(ls@).take(i as int)),
        decreases ls@.len() - i,
    {
        proof {
            assert(views(ls@).take(i + 1).drop_last() =~= views(ls@).take(i as int));
        }
        if i > 0 {
            push_char(&mut out, '\n');
        }
        push_str(&mut out, ls[i].as_str());
        proof {
            if i == 0 {
                assert(views(ls@).take(1)[0] == ls@[0]@);
                assert(out@ =~= join_lines(views(ls@).take(1)));
            } else {
                assert(out@ =~= join_lines(views(ls@).take(i + 1)));
            }
        }
        i += 1;
    }
    proof {
        assert(views(ls@).take(ls@.len() as int) =~= views(ls@));
    }
    out
}

/// Cleans loaded art: trims each line's end, removes the common indent
/// (blanks and empty braille cells) of the non-blank lines, and joins the
/// lines with line breaks.
pub fn clean_ascii(art: &str) -> (r: String)
    ensures
        r@ == clean_ascii_spec(art@),
{
    let raw = lines(art);
    let ls = trim_line_ends(&raw);
    let ghost lv = views(ls@);
    let mut m: usize = 0;
    let mut found = false;
    let mut i: usize = 0;
    while i < ls.len()
        invariant
            i <= ls@.len(),
            lv == views(ls@),
            m as nat == min_lead(lv.take(i as int)),
            found == any_non_blank(lv.take(i as int)),
        decreases ls@.len() - i,
    {
        proof {
            assert(lv.take(i + 1).drop_last() =~= lv.take(i as int));
            assert(lv.take(i + 1).last() == ls@[i as int]@);
        }
        let blank = crate::text::is_blank(ls[i].as_str());
        if !blank {
            let c = count_indent(ls[i].as_str());
            if !found || c < m {
                m = c;
            }
            found = true;
        }
        proof {
            let t = lv.take(i + 1);
            if !blank {
                assert(non_blank(t[i as int]));
                assert(any_non_blank(t));
            } else {
                if any_non_blank(t) {
                    let w = choose|j: int| 0 <= j < t.len() && #[trigger] non_blank(t[j]);
                    assert(w < i);
                    assert(t[w] == lv.take(i as int)[w]);
                    assert(any_non_blank(lv.take(i as int)));
                }
                if any_non_blank(lv.take(i as int)) {
                    let w = choose|j: int| 0 <= j < lv.take(i as int).len() && #[trigger] non_blank(lv.take(i as int)[j]);
                    assert(t[w] == lv.take(i as int)[w]);
                }
            }
            if !blank && any_non_blank(lv.take(i as int)) {
                let w = choose|j: int| 0 <= j < lv.take(i as int).len() && #[trigger] non_blank(lv.take(i as int)[j]);
                assert(t[w] == lv.take(i as int)[w]);
            }
        }
        i += 1;
    }
    proof {
        assert(lv.take(ls@.len() as int) =~= lv);
    }
    if m == 0 {
        join_with_newlines(&ls)
    } else {
        let mut out: Vec<String> = Vec::new();
        let mut j: usize = 0;
        while j < ls.len()
            invariant
                j <= ls@.len(),
                lv == views(ls@),
                views(out@) == lv.map_values(|l: Seq<char>| skip_seq(l, m as nat)).take(j as int),
            decreases ls@.len() - j,
        {
            let s = skip_chars(ls[j].as_str(), m);
            let ghost before = views(out@);
            out.push(s);
            proof {
                assert(views(out@) =~= before.push(s@));
                assert(views(out@) =~= lv.map_values(|l: Seq<char>| skip_seq(l, m as nat)).take(j + 1));
            }
            j += 1;
        }
        proof {
            assert(lv.map_values(|l: Seq<char>| skip_seq(l, m as nat)).take(ls@.len() as int) =~= lv.map_values(
                |l: Seq<char>| skip_seq(l, m as nat),
            ));
        }
        join_with_newlines(&out)
    }
}

/// The logo key to load: none without a key; the `_small` variant on a
/// terminal narrower than 65 columns when that variant exists; the key
/// itself otherwise.
pub open spec fn logo_key_spec(key: Seq<char>, term_width: usize, small_exists: bool) -> Seq<char> {
    if key.len() == 0 {
        Seq::empty()
    } else if term_width < 65 && small_exists {
        key + "_small"@
    } else {
        key
    }
}

/// The name of the small variant of a logo.
pub fn small_key(key: &str) -> (r: String)
    ensures
        r@ == key@ + "_small"@,
{
    let mut r = to_string(key);
    push_str(&mut r, "_small");
    r
}

/// Chooses the logo key for a terminal `term_width` columns wide;
/// `small_exists` says whether the key's `_small` variant exists.
pub fn logo_key(key: &str, term_width: usize, small_exists: bool) -> (r: String)
    ensures
        r@ == logo_key_spec(key@, term_width, small_exists),
{
    if key.unicode_len() == 0 {
        String::new()
    } else if term_width < 65 && small_exists {
        small_key(key)
    } else {
        to_string(key)
    }
}

/// `rest` appended to the directory `home` as a path component.
pub open spec fn path_join(home: Seq<char>, rest: Seq<char>) -> Seq<char> {
    if home.len() == 0 || home.last() == '/' { home + rest } else { home + seq!['/'] + rest }
}

/// A logo path with a leading `~` replaced by the home directory.
pub open spec fn expand_home_spec(path: Seq<char>, home: Seq<char>) -> Seq<char> {
    if path.len() > 0 && path[0] == '~' { path_join(home, trim_start_char_seq(path.drop_first(), '/')) } else { path }
}

/// Replaces a leading `~` in `path` by the home directory `home`.
pub fn expand_home(path: &str, home: &str) -> (r: String)
    ensures
        r@ == expand_home_spec(path@, home@),
{
    let v = chars_of(path);
    if v.len() > 0 && v[0] == '~' {
        let rest0 = skip_chars(path, 1);
        proof {
            assert(skip_seq(path@, 1) =~= path@.drop_first());
        }
        let rest = trim_start_matches(&rest0, '/');
        let hv = chars_of(home);
        let mut r = to_string(home);
        if hv.len() > 0 && hv[hv.len() - 1] != '/' {
            push_char(&mut r, '/');
        }
        push_str(&mut r, &rest);
        proof {
            assert(r@ =~= expand_home_spec(path@, home@));
        }
        r
    } else {
        to_string(path)
    }
}


/// Whether a logo file name is listed: not hidden and not a `_small`
/// variant.
pub open spec fn keep_logo_key_spec(k: Seq<char>) -> bool {
    !"."@.is_prefix_of(k) && !"_small"@.is_suffix_of(k)
}

/// Whether a logo file name is listed.
pub fn keep_logo_key(k: &str) -> (b: bool)
    ensures
        b == keep_logo_key_spec(k@),
{
    let hidden = crate::strs::starts_with(k, ".");
    let small = crate::strs::ends_with(k, "_small");
    !hidden && !small
}

} // verus!

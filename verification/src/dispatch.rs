//! Decisions of the command-line front end: which renderer to use, how a
//! preset is listed, where an update is installed.
use vstd::prelude::*;
use crate::render::pad_chars;
use crate::text::{push_char, push_str, to_string, views};
use crate::theme::{bg_escape_seq, Color};
use crate::widget::{push_reset, reset_seq};

verus! {

/// Which renderer draws the fetch output.
#[derive(Debug, Clone, Copy, PartialEq, Eq, Structural)]
pub enum OutputKind {
    /// Art between two panel columns.
    Desktop,
    /// Art above a single panel column.
    Mobile,
    /// A single panel column without art.
    MobileNarrow,
}

/// The renderer for a terminal `tw` columns wide: phones and terminals
/// narrower than 80 columns get the single-column output, without art
/// below 55 columns.
pub open spec fn output_kind_spec(is_android: bool, tw: usize) -> OutputKind {
    let mobile = is_android || tw < 80;
    if mobile && tw < 55 {
        OutputKind::MobileNarrow
    } else if mobile {
        OutputKind::Mobile
    } else {
        OutputKind::Desktop
    }
}

/// Chooses the renderer.
pub fn output_kind(is_android: bool, tw: usize) -> (r: OutputKind)
    ensures
        r == output_kind_spec(is_android, tw),
{
    let mobile = is_android || tw < 80;
    if mobile && tw < 55 {
        OutputKind::MobileNarrow
    } else if mobile {
        OutputKind::Mobile
    } else {
        OutputKind::Desktop
    }
}

/// Colour swatches: two blanks on each colour's background.
pub open spec fn swatch_spec(colors: Seq<Color>) -> Seq<char>
    decreases colors.len(),
{
    if colors.len() == 0 {
        Seq::empty()
    } else {
        swatch_spec(colors.drop_last()) + bg_escape_seq(colors.last()) + seq![' ', ' '] + reset_seq()
    }
}

/// One line of the preset list: the name padded to 20 characters, then
/// the swatches.
pub open spec fn preset_line_spec(name: Seq<char>, colors: Seq<Color>) -> Seq<char> {
    seq![' ', ' '] + pad_chars(name, 20) + seq![' '] + swatch_spec(colors)
}

/// The preset list line for a theme.
pub fn preset_line(name: &str, colors: &Vec<Color>) -> (r: String)
    ensures
        r@ == preset_line_spec(name@, colors@),
{
    let mut out = String::new();
    push_char(&mut out, ' ');
    push_char(&mut out, ' ');
    let p = crate::render::pad_to_chars(name, 20);
    push_str(&mut out, &p);
    push_char(&mut out, ' ');
    let ghost head = out@;
    let mut i: usize = 0;
    while i < colors.len()
        invariant
            i <= colors@.len(),
            out@ == head + swatch_spec(colors@.take(i as int)),
        decreases colors@.len() - i,
    {
        proof {
            assert(colors@.take(i + 1).drop_last() =~= colors@.take(i as int));
        }
        let e = colors[i].bg_escape();
        push_str(&mut out, &e);
        push_char(&mut out, ' ');
        push_char(&mut out, ' ');
        push_reset(&mut out);
        proof {
            assert(out@ =~= head + swatch_spec(colors@.take(i + 1)));
        }
        i += 1;
    }
    proof {
        assert(colors@.take(colors@.len() as int) =~= colors@);
    }
    out
}

/// Where an update installs the binary: under the Termux prefix on
/// phones (its default when unset), under `~/.local/bin` elsewhere (with
/// `/tmp` as home when unset).
pub open spec fn install_dest_spec(is_android: bool, prefix: Option<Seq<char>>, home: Option<Seq<char>>) -> Seq<char> {
    if is_android {
        (match prefix {
            Some(p) => p,
            None => "/data/data/com.termux/files/usr"@,
        }) + "/bin/atlasfetch"@
    } else {
        (match home {
            Some(h) => h,
            None => "/tmp"@,
        }) + "/.local/bin/atlasfetch"@
    }
}

/// Where an update installs the binary.
pub fn install_dest(is_android: bool, prefix: Option<&str>, home: Option<&str>) -> (r: String)
    ensures
        r@ == install_dest_spec(is_android, match prefix {
            Some(p) => Some(p@),
            None => None,
        }, match home {
            Some(h) => Some(h@),
            None => None,
        }),
{
    if is_android {
        let mut r = match prefix {
            Some(p) => to_string(p),
            None => to_string("/data/data/com.termux/files/usr"),
        };
        push_str(&mut r, "/bin/atlasfetch");
        r
    } else {
        let mut r = match home {
            Some(h) => to_string(h),
            None => to_string("/tmp"),
        };
        push_str(&mut r, "/.local/bin/atlasfetch");
        r
    }
}

/// Directories searched for the source tree, in order.
pub open spec fn source_candidates_spec(home: Seq<char>) -> Seq<Seq<char>> {
    seq![
        home + "/Projetos/atlasfetch"@,
        home + "/src/atlasfetch"@,
        home + "/atlasfetch"@,
        home + "/code/atlasfetch"@,
        home + "/dev/atlasfetch"@,
    ]
}

fn joined(a: &str, b: &str) -> (r: String)
    ensures
        r@ == a@ + b@,
{
    let mut r = to_string(a);
    push_str(&mut r, b);
    r
}

/// Directories searched for the source tree under the home directory.
pub fn source_candidates(home: &str) -> (r: Vec<String>)
    ensures
        views(r@) == source_candidates_spec(home@),
{
    let mut v: Vec<String> = Vec::new();
    v.push(joined(home, "/Projetos/atlasfetch"));
    v.push(joined(home, "/src/atlasfetch"));
    v.push(joined(home, "/atlasfetch"));
    v.push(joined(home, "/code/atlasfetch"));
    v.push(joined(home, "/dev/atlasfetch"));
    proof {
        assert(views(v@) =~= source_candidates_spec(home@));
    }
    v
}

} // verus!

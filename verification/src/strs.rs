//! Substring search, replacement, splitting and affix removal on strings,
//! stated over their character sequences.
use vstd::prelude::*;
use crate::text::{chars_of, is_whitespace, is_ws, push_char, push_str, string_from_chars, views};

verus! {

/// `p` occurs in `s` at position `i`.
pub open spec fn matches_at(s: Seq<char>, p: Seq<char>, i: int) -> bool {
    0 <= i && i + p.len() <= s.len() && s.subrange(i, i + p.len()) == p
}

/// Position of the first occurrence of `p` in `s` (`str::find`, counted in
/// characters).
pub open spec fn find_seq(s: Seq<char>, p: Seq<char>) -> Option<int> {
    if exists|i: int| matches_at(s, p, i) {
        Some(choose|i: int| matches_at(s, p, i) && forall|j: int| 0 <= j < i ==> !matches_at(s, p, j))
    } else {
        None
    }
}

/// `str::contains`.
pub open spec fn contains_seq(s: Seq<char>, p: Seq<char>) -> bool {
    exists|i: int| matches_at(s, p, i)
}

/// Every non-overlapping occurrence of `from` in `s`, scanned left to
/// right, replaced by `to` (`str::replace` for a non-empty `from`).
pub open spec fn replace_seq(s: Seq<char>, from: Seq<char>, to: Seq<char>) -> Seq<char>
    decreases s.len(),
{
    if from.len() == 0 || s.len() < from.len() {
        s
    } else if s.take(from.len() as int) == from {
        to + replace_seq(s.skip(from.len() as int), from, to)
    } else {
        seq![s[0]] + replace_seq(s.drop_first(), from, to)
    }
}

/// Pieces of `s` between occurrences of `sep`: the finished pieces and the
/// piece being read.
pub open spec fn split_state(s: Seq<char>, sep: char) -> (Seq<Seq<char>>, Seq<char>)
    decreases s.len(),
{
    if s.len() == 0 {
        (Seq::empty(), Seq::empty())
    } else {
        let (done, cur) = split_state(s.drop_last(), sep);
        if s.last() == sep {
            (done.push(cur), Seq::empty())
        } else {
            (done, cur.push(s.last()))
        }
    }
}

/// `s.split(sep)`: always at least one piece.
pub open spec fn split_seq(s: Seq<char>, sep: char) -> Seq<Seq<char>> {
    let (done, cur) = split_state(s, sep);
    done.push(cur)
}

/// Words of `s` between white space: finished words and the word being read.
pub open spec fn words_state(s: Seq<char>) -> (Seq<Seq<char>>, Seq<char>)
    decreases s.len(),
{
    if s.len() == 0 {
        (Seq::empty(), Seq::empty())
    } else {
        let (done, cur) = words_state(s.drop_last());
        if is_ws(s.last()) {
            if cur.len() > 0 {
                (done.push(cur), Seq::empty())
            } else {
                (done, cur)
            }
        } else {
            (done, cur.push(s.last()))
        }
    }
}

/// `s.split_whitespace()`.
pub open spec fn words_seq(s: Seq<char>) -> Seq<Seq<char>> {
    let (done, cur) = words_state(s);
    if cur.len() > 0 {
        done.push(cur)
    } else {
        done
    }
}

/// `s` without every trailing `c` (`str::trim_end_matches(c)`).
pub open spec fn trim_end_char_seq(s: Seq<char>, c: char) -> Seq<char>
    decreases s.len(),
{
    if s.len() > 0 && s.last() == c {
        trim_end_char_seq(s.drop_last(), c)
    } else {
        s
    }
}

/// `s` without every leading `c` (`str::trim_start_matches(c)`).
pub open spec fn trim_start_char_seq(s: Seq<char>, c: char) -> Seq<char>
    decreases s.len(),
{
    if s.len() > 0 && s[0] == c {
        trim_start_char_seq(s.drop_first(), c)
    } else {
        s
    }
}

/// `str::trim_matches(c)`.
pub open spec fn trim_char_seq(s: Seq<char>, c: char) -> Seq<char> {
    trim_end_char_seq(trim_start_char_seq(s, c), c)
}

/// `str::strip_prefix`.
pub open spec fn strip_prefix_seq(s: Seq<char>, p: Seq<char>) -> Option<Seq<char>> {
    if p.is_prefix_of(s) {
        Some(s.skip(p.len() as int))
    } else {
        None
    }
}

/// `str::strip_suffix`.
pub open spec fn strip_suffix_seq(s: Seq<char>, p: Seq<char>) -> Option<Seq<char>> {
    if p.is_suffix_of(s) {
        Some(s.take(s.len() - p.len()))
    } else {
        None
    }
}

/// Whether `p` occurs in `v` at `i`.
fn matches_at_vec(v: &Vec<char>, p: &Vec<char>, i: usize) -> (b: bool)
    requires
        i <= v.len(),
    ensures
        b == matches_at(v@, p@, i as int),
{
    if p.len() > v.len() - i {
        return false;
    }
    let mut j: usize = 0;
    while j < p.len()
        invariant
            j <= p.len(),
            i + p.len() <= v.len(),
            forall|k: int| 0 <= k < j ==> v@[i + k] == p@[k],
        decreases p.len() - j,
    {
        if v[i + j] != p[j] {
            proof {
                assert(v@.subrange(i as int, i + p.len())[j as int] != p@[j as int]);
            }
            return false;
        }
        j += 1;
    }
    proof {
        assert(v@.subrange(i as int, i + p.len()) =~= p@);
    }
    true
}

/// Character position of the first occurrence of `p` in `s`.
pub fn find(s: &str, p: &str) -> (r: Option<usize>)
    ensures
        r matches Some(i) ==> find_seq(s@, p@) == Some(i as int) && i + p@.len() <= s@.len(),
        r is None ==> find_seq(s@, p@) is None,
{
    let v = chars_of(s);
    let pv = chars_of(p);
    find_in(&v, &pv)
}

proof fn lemma_find_first(s: Seq<char>, p: Seq<char>, i: int)
    requires
        matches_at(s, p, i),
        forall|j: int| 0 <= j < i ==> !matches_at(s, p, j),
    ensures
        find_seq(s, p) == Some(i),
{
    let k = choose|k: int| matches_at(s, p, k) && forall|j: int| 0 <= j < k ==> !matches_at(s, p, j);
    assert(matches_at(s, p, k));
    if k < i {
        assert(!matches_at(s, p, k));
    } else if k > i {
        assert(!matches_at(s, p, i));
    }
}

/// First occurrence of `p` in `v`.
fn find_in(v: &Vec<char>, p: &Vec<char>) -> (r: Option<usize>)
    ensures
        r matches Some(i) ==> find_seq(v@, p@) == Some(i as int) && i + p@.len() <= v.len(),
        r is None ==> find_seq(v@, p@) is None,
{
    if p.len() > v.len() {
        proof {
            assert forall|j: int| !matches_at(v@, p@, j) by {}
        }
        return None;
    }
    if p.len() == 0 {
        proof {
            assert(v@.subrange(0, 0) =~= p@);
            lemma_find_first(v@, p@, 0);
        }
        return Some(0);
    }
    let last = v.len() - p.len();
    let mut i: usize = 0;
    while i <= last
        invariant
            last == v.len() - p.len(),
            p.len() > 0,
            i <= last + 1,
            forall|j: int| 0 <= j < i ==> !matches_at(v@, p@, j),
        decreases last + 1 - i,
    {
        if matches_at_vec(v, p, i) {
            proof {
                lemma_find_first(v@, p@, i as int);
            }
            return Some(i);
        }
        i += 1;
    }
    proof {
        assert forall|j: int| !matches_at(v@, p@, j) by {
            if 0 <= j < i {
            } else if j >= i {
                assert(j + p@.len() > v@.len());
            }
        }
    }
    None
}

/// `s.contains(p)`.
pub fn contains(s: &str, p: &str) -> (b: bool)
    ensures
        b == contains_seq(s@, p@),
{
    find(s, p).is_some()
}

/// `s.starts_with(p)`.
pub fn starts_with(s: &str, p: &str) -> (b: bool)
    ensures
        b == p@.is_prefix_of(s@),
{
    let v = chars_of(s);
    let pv = chars_of(p);
    let r = matches_at_vec(&v, &pv, 0);
    proof {
        if r {
            assert(s@.take(p@.len() as int) =~= s@.subrange(0, p@.len() as int));
        } else if p@.is_prefix_of(s@) {
            assert(s@.subrange(0, p@.len() as int) =~= s@.take(p@.len() as int));
        }
    }
    r
}

/// `s.ends_with(p)`.
pub fn ends_with(s: &str, p: &str) -> (b: bool)
    ensures
        b == p@.is_suffix_of(s@),
{
    let v = chars_of(s);
    let pv = chars_of(p);
    if pv.len() > v.len() {
        return false;
    }
    let start = v.len() - pv.len();
    let r = matches_at_vec(&v, &pv, start);
    proof {
        if r {
            assert(s@.skip(start as int) =~= s@.subrange(start as int, s@.len() as int));
        } else if p@.is_suffix_of(s@) {
            assert(s@.subrange(start as int, s@.len() as int) =~= s@.skip(start as int));
        }
    }
    r
}

/// `s.strip_prefix(p)`.
pub fn strip_prefix(s: &str, p: &str) -> (r: Option<String>)
    ensures
        r matches Some(t) ==> strip_prefix_seq(s@, p@) == Some(t@),
        r is None ==> strip_prefix_seq(s@, p@) is None,
{
    let v = chars_of(s);
    let pv = chars_of(p);
    if matches_at_vec(&v, &pv, 0) {
        let t = string_from_chars(&v, pv.len(), v.len());
        proof {
            assert(s@.take(p@.len() as int) =~= s@.subrange(0, p@.len() as int));
            assert(s@.skip(p@.len() as int) =~= s@.subrange(p@.len() as int, s@.len() as int));
        }
        Some(t)
    } else {
        proof {
            if p@.is_prefix_of(s@) {
                assert(s@.subrange(0, p@.len() as int) =~= s@.take(p@.len() as int));
            }
        }
        None
    }
}

/// `s.strip_suffix(p)`.
pub fn strip_suffix(s: &str, p: &str) -> (r: Option<String>)
    ensures
        r matches Some(t) ==> strip_suffix_seq(s@, p@) == Some(t@),
        r is None ==> strip_suffix_seq(s@, p@) is None,
{
    if ends_with(s, p) {
        let v = chars_of(s);
        let pv = chars_of(p);
        let t = string_from_chars(&v, 0, v.len() - pv.len());
        proof {
            assert(s@.take(s@.len() - p@.len()) =~= s@.subrange(0, s@.len() - p@.len()));
        }
        Some(t)
    } else {
        None
    }
}

/// The characters of `s` before position `i`.
pub fn prefix_chars(s: &str, i: usize) -> (r: String)
    requires
        i <= s@.len(),
    ensures
        r@ == s@.take(i as int),
{
    let v = chars_of(s);
    let r = string_from_chars(&v, 0, i);
    proof {
        assert(s@.take(i as int) =~= s@.subrange(0, i as int));
    }
    r
}

/// `s.replace(from, to)` for a non-empty `from`.
pub fn replace(s: &str, from: &str, to: &str) -> (r: String)
    requires
        from@.len() > 0,
    ensures
        r@ == replace_seq(s@, from@, to@),
{
    let v = chars_of(s);
    let fv = chars_of(from);
    let mut out = String::new();
    let mut i: usize = 0;
    proof {
        assert(s@.skip(0) =~= s@);
        assert(out@ + replace_seq(s@, from@, to@) =~= replace_seq(s@, from@, to@));
    }
    while i < v.len()
        invariant
            v@ == s@,
            fv@ == from@,
            fv@.len() > 0,
            i <= v.len(),
            out@ + replace_seq(s@.skip(i as int), from@, to@) == replace_seq(s@, from@, to@),
        decreases v.len() - i,
    {
        let ghost rest = s@.skip(i as int);
        if matches_at_vec(&v, &fv, i) {
            proof {
                assert(rest.take(from@.len() as int) =~= s@.subrange(i as int, i + from@.len()));
                assert(rest.skip(from@.len() as int) =~= s@.skip(i + from@.len()));
            }
            push_str(&mut out, to);
            i += fv.len();
        } else {
            proof {
                if rest.len() >= from@.len() {
                    assert(rest.take(from@.len() as int) =~= s@.subrange(i as int, i + from@.len()));
                }
                assert(rest.drop_first() =~= s@.skip(i + 1));
            }
            push_char(&mut out, v[i]);
            proof {
                assert(out@ + replace_seq(s@.skip(i + 1), from@, to@) =~= old_plus(out@,
                    replace_seq(s@.skip(i + 1), from@, to@)));
            }
            i += 1;
        }
    }
    proof {
        assert(s@.skip(i as int) =~= Seq::<char>::empty());
    }
    out
}

spec fn old_plus(a: Seq<char>, b: Seq<char>) -> Seq<char> {
    a + b
}

/// `s.split(sep)`, each piece owned.
pub fn split(s: &str, sep: char) -> (r: Vec<String>)
    ensures
        views(r@) == split_seq(s@, sep),
{
    let mut done: Vec<String> = Vec::new();
    let mut cur: Vec<char> = Vec::new();
    for c in it: s.chars()
        invariant
            it.seq() == s@,
            (views(done@), cur@) == split_state(s@.take(it.index() as int), sep),
    {
        proof {
            assert(s@.take(it.index() + 1).drop_last() =~= s@.take(it.index() as int));
        }
        if c == sep {
            let len = cur.len();
            let piece = string_from_chars(&cur, 0, len);
            proof {
                assert(cur@.subrange(0, len as int) =~= cur@);
            }
            let ghost before = done@;
            done.push(piece);
            proof {
                assert(views(done@) =~= views(before).push(piece@));
            }
            cur = Vec::new();
        } else {
            cur.push(c);
        }
    }
    proof {
        assert(s@.take(s@.len() as int) =~= s@);
    }
    let len = cur.len();
    let piece = string_from_chars(&cur, 0, len);
    proof {
        assert(cur@.subrange(0, len as int) =~= cur@);
    }
    let ghost before = done@;
    done.push(piece);
    proof {
        assert(views(done@) =~= views(before).push(piece@));
    }
    done
}

/// `s.split_whitespace()`, each word owned.
pub fn words(s: &str) -> (r: Vec<String>)
    ensures
        views(r@) == words_seq(s@),
{
    let mut done: Vec<String> = Vec::new();
    let mut cur: Vec<char> = Vec::new();
    for c in it: s.chars()
        invariant
            it.seq() == s@,
            (views(done@), cur@) == words_state(s@.take(it.index() as int)),
    {
        proof {
            assert(s@.take(it.index() + 1).drop_last() =~= s@.take(it.index() as int));
        }
        if is_whitespace(c) {
            if cur.len() > 0 {
                let len = cur.len();
                let piece = string_from_chars(&cur, 0, len);
                proof {
                    assert(cur@.subrange(0, len as int) =~= cur@);
                }
                let ghost before = done@;
                done.push(piece);
                proof {
                    assert(views(done@) =~= views(before).push(piece@));
                }
                cur = Vec::new();
            }
        } else {
            cur.push(c);
        }
    }
    proof {
        assert(s@.take(s@.len() as int) =~= s@);
    }
    if cur.len() > 0 {
        let len = cur.len();
        let piece = string_from_chars(&cur, 0, len);
        proof {
            assert(cur@.subrange(0, len as int) =~= cur@);
        }
        let ghost before = done@;
        done.push(piece);
        proof {
            assert(views(done@) =~= views(before).push(piece@));
        }
    }
    done
}

proof fn lemma_trim_end_char(s: Seq<char>, c: char, k: int)
    requires
        0 <= k <= s.len(),
        forall|j: int| k <= j < s.len() ==> #[trigger] s[j] == c,
    ensures
        trim_end_char_seq(s, c) == trim_end_char_seq(s.take(k), c),
    decreases s.len() - k,
{
    if k < s.len() {
        lemma_trim_end_char(s.drop_last(), c, k);
        assert(s.drop_last().take(k) =~= s.take(k));
    } else {
        assert(s.take(k) =~= s);
    }
}

proof fn lemma_trim_start_char(s: Seq<char>, c: char, k: int)
    requires
        0 <= k <= s.len(),
        forall|j: int| 0 <= j < k ==> #[trigger] s[j] == c,
    ensures
        trim_start_char_seq(s, c) == trim_start_char_seq(s.subrange(k, s.len() as int), c),
    decreases k,
{
    if k > 0 {
        lemma_trim_start_char(s.drop_first(), c, k - 1);
        assert(s.drop_first().subrange(k - 1, s.drop_first().len() as int) =~= s.subrange(
            k,
            s.len() as int,
        ));
    } else {
        assert(s.subrange(0, s.len() as int) =~= s);
    }
}

/// `s.trim_end_matches(c)`.
pub fn trim_end_matches(s: &str, c: char) -> (r: String)
    ensures
        r@ == trim_end_char_seq(s@, c),
{
    let v = chars_of(s);
    let mut k = v.len();
    while k > 0 && v[k - 1] == c
        invariant
            k <= v.len(),
            forall|j: int| k <= j < v.len() ==> #[trigger] v@[j] == c,
        decreases k,
    {
        k -= 1;
    }
    proof {
        lemma_trim_end_char(v@, c, k as int);
        assert(v@.take(k as int) =~= v@.subrange(0, k as int));
        if k > 0 {
            assert(v@.take(k as int).last() == v@[k - 1]);
        }
    }
    string_from_chars(&v, 0, k)
}

/// `s.trim_start_matches(c)`.
pub fn trim_start_matches(s: &str, c: char) -> (r: String)
    ensures
        r@ == trim_start_char_seq(s@, c),
{
    let v = chars_of(s);
    let mut k: usize = 0;
    while k < v.len() && v[k] == c
        invariant
            k <= v.len(),
            forall|j: int| 0 <= j < k ==> #[trigger] v@[j] == c,
        decreases v.len() - k,
    {
        k += 1;
    }
    proof {
        lemma_trim_start_char(v@, c, k as int);
        let u = v@.subrange(k as int, v@.len() as int);
        if u.len() > 0 {
            assert(u[0] == v@[k as int]);
        }
    }
    string_from_chars(&v, k, v.len())
}

/// `s.trim_matches(c)`.
pub fn trim_matches(s: &str, c: char) -> (r: String)
    ensures
        r@ == trim_char_seq(s@, c),
{
    let t = trim_start_matches(s, c);
    trim_end_matches(&t, c)
}

} // verus!

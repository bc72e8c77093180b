//! Character-level string helpers shared by every renderer.
//!
//! Strings are modelled by their `Seq<char>` views. Each helper here states
//! its result exactly over those views.
use vstd::prelude::*;

verus! {

/// The escape character that starts an ANSI control sequence.
pub open spec fn esc() -> char {
    '\x1b'
}

/// `n` copies of the character `c`.
pub open spec fn repeat_char_seq(c: char, n: nat) -> Seq<char> {
    Seq::new(n, |_i: int| c)
}

/// `n` blanks.
pub open spec fn spaces_seq(n: nat) -> Seq<char> {
    repeat_char_seq(' ', n)
}

/// `s` concatenated `n` times.
pub open spec fn repeat_seq(s: Seq<char>, n: nat) -> Seq<char>
    decreases n,
{
    if n == 0 {
        Seq::empty()
    } else {
        repeat_seq(s, (n - 1) as nat) + s
    }
}

/// Unicode `White_Space` characters, the set that `char::is_whitespace` accepts.
pub open spec fn is_ws(c: char) -> bool {
    ||| ('\u{9}' <= c && c <= '\u{d}')
    ||| c == ' '
    ||| c == '\u{85}'
    ||| c == '\u{a0}'
    ||| c == '\u{1680}'
    ||| ('\u{2000}' <= c && c <= '\u{200a}')
    ||| c == '\u{2028}'
    ||| c == '\u{2029}'
    ||| c == '\u{202f}'
    ||| c == '\u{205f}'
    ||| c == '\u{3000}'
}

/// `s` without its trailing white space (`str::trim_end`).
pub open spec fn trim_end_seq(s: Seq<char>) -> Seq<char>
    decreases s.len(),
{
    if s.len() > 0 && is_ws(s.last()) {
        trim_end_seq(s.drop_last())
    } else {
        s
    }
}

/// `s` without its leading white space (`str::trim_start`).
pub open spec fn trim_start_seq(s: Seq<char>) -> Seq<char>
    decreases s.len(),
{
    if s.len() > 0 && is_ws(s[0]) {
        trim_start_seq(s.drop_first())
    } else {
        s
    }
}

/// `s` without leading and trailing white space (`str::trim`).
pub open spec fn trim_seq(s: Seq<char>) -> Seq<char> {
    trim_start_seq(trim_end_seq(s))
}

/// Whether every character of `s` is white space.
pub open spec fn all_ws(s: Seq<char>) -> bool {
    forall|i: int| 0 <= i < s.len() ==> is_ws(#[trigger] s[i])
}

/// The number of leading blanks (`' '`) of `s`.
pub open spec fn leading_blanks(s: Seq<char>) -> nat
    decreases s.len(),
{
    if s.len() > 0 && s[0] == ' ' {
        1 + leading_blanks(s.drop_first())
    } else {
        0
    }
}

/// Left-to-right pass of the ANSI stripper over `s`: the visible text kept
/// so far and whether an escape sequence is still open.
pub open spec fn strip_state(s: Seq<char>) -> (Seq<char>, bool)
    decreases s.len(),
{
    if s.len() == 0 {
        (Seq::empty(), false)
    } else {
        let (out, in_esc) = strip_state(s.drop_last());
        let c = s.last();
        if in_esc {
            (out, c != 'm')
        } else if c == esc() {
            (out, true)
        } else {
            (out.push(c), false)
        }
    }
}

/// `s` with every escape sequence (from `ESC` up to and including the next
/// `m`) removed.
pub open spec fn strip_ansi_seq(s: Seq<char>) -> Seq<char> {
    strip_state(s).0
}

/// Lines of `s` as `str::lines` yields them: split at `'\n'`, one `'\r'`
/// removed before each `'\n'`, and no empty last line after a final
/// line ending. The state holds the finished lines and the current line.
pub open spec fn lines_state(s: Seq<char>) -> (Seq<Seq<char>>, Seq<char>)
    decreases s.len(),
{
    if s.len() == 0 {
        (Seq::empty(), Seq::empty())
    } else {
        let (done, cur) = lines_state(s.drop_last());
        let c = s.last();
        if c == '\n' {
            let line = if cur.len() > 0 && cur.last() == '\r' {
                cur.drop_last()
            } else {
                cur
            };
            (done.push(line), Seq::empty())
        } else {
            (done, cur.push(c))
        }
    }
}

/// The lines of `s` (`str::lines`).
pub open spec fn lines_seq(s: Seq<char>) -> Seq<Seq<char>> {
    let (done, cur) = lines_state(s);
    if cur.len() > 0 {
        done.push(cur)
    } else {
        done
    }
}

/// The views of a vector of strings.
pub open spec fn views(v: Seq<String>) -> Seq<Seq<char>> {
    v.map_values(|x: String| x@)
}

/// Appends one character to a string (`String::push`).
#[verifier::external_body]
pub(crate) fn push_char(s: &mut String, c: char)
    ensures
        final(s)@ == old(s)@.push(c),
{
    s.push(c);
}

/// Appends `t` to `s`.
pub fn push_str(s: &mut String, t: &str)
    ensures
        final(s)@ == old(s)@ + t@,
{
    let ghost s0 = s@;
    for c in it: t.chars()
        invariant
            it.seq() == t@,
            s@ == s0 + t@.take(it.index() as int),
    {
        push_char(s, c);
        proof {
            assert(t@.take(it.index() + 1) =~= t@.take(it.index() as int).push(c));
        }
    }
    proof {
        assert(t@.take(t@.len() as int) =~= t@);
    }
}

/// A new string holding `t`.
pub fn to_string(t: &str) -> (r: String)
    ensures
        r@ == t@,
{
    let mut r = String::new();
    push_str(&mut r, t);
    r
}

/// The characters of `s`, in order.
pub fn chars_of(s: &str) -> (v: Vec<char>)
    ensures
        v@ == s@,
{
    let mut v: Vec<char> = Vec::new();
    for c in it: s.chars()
        invariant
            it.seq() == s@,
            v@ == s@.take(it.index() as int),
    {
        v.push(c);
        proof {
            assert(s@.take(it.index() + 1) =~= s@.take(it.index() as int).push(c));
        }
    }
    proof {
        assert(s@.take(s@.len() as int) =~= s@);
    }
    v
}

/// A string made of the characters `v[from..to]`.
pub fn string_from_chars(v: &Vec<char>, from: usize, to: usize) -> (r: String)
    requires
        from <= to <= v.len(),
    ensures
        r@ == v@.subrange(from as int, to as int),
{
    let mut r = String::new();
    let mut i = from;
    while i < to
        invariant
            from <= i <= to <= v.len(),
            r@ == v@.subrange(from as int, i as int),
        decreases to - i,
    {
        push_char(&mut r, v[i]);
        proof {
            assert(v@.subrange(from as int, i + 1) =~= v@.subrange(from as int, i as int).push(
                v@[i as int],
            ));
        }
        i += 1;
    }
    r
}

/// `n` copies of `c` (`c.to_string().repeat(n)`).
pub fn repeat_char(c: char, n: usize) -> (r: String)
    ensures
        r@ == repeat_char_seq(c, n as nat),
{
    let mut r = String::new();
    let mut i: usize = 0;
    while i < n
        invariant
            i <= n,
            r@ == repeat_char_seq(c, i as nat),
        decreases n - i,
    {
        push_char(&mut r, c);
        proof {
            assert(repeat_char_seq(c, (i + 1) as nat) =~= repeat_char_seq(c, i as nat).push(c));
        }
        i += 1;
    }
    r
}

/// `n` blanks (`" ".repeat(n)`).
pub fn spaces(n: usize) -> (r: String)
    ensures
        r@ == spaces_seq(n as nat),
{
    repeat_char(' ', n)
}

/// `s` repeated `n` times (`str::repeat`).
pub fn repeat_str(s: &str, n: usize) -> (r: String)
    ensures
        r@ == repeat_seq(s@, n as nat),
{
    let mut r = String::new();
    let mut i: usize = 0;
    while i < n
        invariant
            i <= n,
            r@ == repeat_seq(s@, i as nat),
        decreases n - i,
    {
        push_str(&mut r, s);
        i += 1;
    }
    r
}

/// `char::is_whitespace`.
pub fn is_whitespace(c: char) -> (b: bool)
    ensures
        b == is_ws(c),
{
    ('\u{9}' <= c && c <= '\u{d}') || c == ' ' || c == '\u{85}' || c == '\u{a0}' || c
        == '\u{1680}' || ('\u{2000}' <= c && c <= '\u{200a}') || c == '\u{2028}' || c
        == '\u{2029}' || c == '\u{202f}' || c == '\u{205f}' || c == '\u{3000}'
}

proof fn lemma_trim_end_prefix(s: Seq<char>, k: int)
    requires
        0 <= k <= s.len(),
        forall|j: int| k <= j < s.len() ==> is_ws(#[trigger] s[j]),
    ensures
        trim_end_seq(s) == trim_end_seq(s.take(k)),
    decreases s.len() - k,
{
    if k < s.len() {
        assert(s.drop_last() =~= s.take(s.len() - 1));
        lemma_trim_end_prefix(s.drop_last(), k);
        assert(s.drop_last().take(k) =~= s.take(k));
    } else {
        assert(s.take(k) =~= s);
    }
}

proof fn lemma_trim_start_suffix(s: Seq<char>, k: int)
    requires
        0 <= k <= s.len(),
        forall|j: int| 0 <= j < k ==> is_ws(#[trigger] s[j]),
    ensures
        trim_start_seq(s) == trim_start_seq(s.subrange(k, s.len() as int)),
    decreases k,
{
    if k > 0 {
        lemma_trim_start_suffix(s.drop_first(), k - 1);
        assert(s.drop_first().subrange(k - 1, s.drop_first().len() as int) =~= s.subrange(
            k,
            s.len() as int,
        ));
    } else {
        assert(s.subrange(0, s.len() as int) =~= s);
    }
}

/// Characters of `v` without its trailing white space.
pub fn trim_end_chars(v: &Vec<char>) -> (k: usize)
    ensures
        k <= v.len(),
        trim_end_seq(v@) == v@.take(k as int),
{
    let mut k = v.len();
    while k > 0 && is_whitespace(v[k - 1])
        invariant
            k <= v.len(),
            forall|j: int| k <= j < v.len() ==> is_ws(#[trigger] v@[j]),
        decreases k,
    {
        k -= 1;
    }
    proof {
        lemma_trim_end_prefix(v@, k as int);
        if k > 0 {
            assert(v@.take(k as int).last() == v@[k - 1]);
        }
    }
    k
}

/// Index of the first non-white-space character of `v[..end]`.
pub fn trim_start_chars(v: &Vec<char>, end: usize) -> (k: usize)
    requires
        end <= v.len(),
    ensures
        k <= end,
        trim_start_seq(v@.take(end as int)) == v@.subrange(k as int, end as int),
{
    let mut k: usize = 0;
    while k < end && is_whitespace(v[k])
        invariant
            k <= end <= v.len(),
            forall|j: int| 0 <= j < k ==> is_ws(#[trigger] v@[j]),
        decreases end - k,
    {
        k += 1;
    }
    proof {
        let t = v@.take(end as int);
        assert forall|j: int| 0 <= j < k implies is_ws(#[trigger] t[j]) by {
            assert(t[j] == v@[j]);
        }
        lemma_trim_start_suffix(t, k as int);
        assert(t.subrange(k as int, t.len() as int) =~= v@.subrange(k as int, end as int));
        let u = v@.subrange(k as int, end as int);
        if u.len() > 0 {
            assert(u[0] == v@[k as int]);
        }
    }
    k
}

/// `s.trim_end()`.
pub fn trim_end(s: &str) -> (r: String)
    ensures
        r@ == trim_end_seq(s@),
{
    let v = chars_of(s);
    let k = trim_end_chars(&v);
    string_from_chars(&v, 0, k)
}

/// `s.trim()`.
pub fn trim(s: &str) -> (r: String)
    ensures
        r@ == trim_seq(s@),
{
    let v = chars_of(s);
    let k = trim_end_chars(&v);
    let j = trim_start_chars(&v, k);
    string_from_chars(&v, j, k)
}

/// Whether `s.trim()` is empty.
pub fn is_blank(s: &str) -> (b: bool)
    ensures
        b == (trim_seq(s@).len() == 0),
{
    let t = trim(s);
    t.unicode_len() == 0
}

/// `s.chars().take_while(|c| *c == ' ').count()`.
pub fn count_leading_blanks(s: &str) -> (n: usize)
    ensures
        n as nat == leading_blanks(s@),
{
    let v = chars_of(s);
    let mut i: usize = 0;
    proof {
        assert(s@.subrange(0, s@.len() as int) =~= s@);
    }
    while i < v.len() && v[i] == ' '
        invariant
            i <= v.len(),
            v@ == s@,
            leading_blanks(s@) == i + leading_blanks(s@.subrange(i as int, s@.len() as int)),
        decreases v.len() - i,
    {
        proof {
            let rest = s@.subrange(i as int, s@.len() as int);
            assert(rest.drop_first() =~= s@.subrange(i + 1, s@.len() as int));
        }
        i += 1;
    }
    proof {
        let rest = s@.subrange(i as int, s@.len() as int);
        if rest.len() > 0 {
            assert(rest[0] == v@[i as int]);
        }
    }
    i
}

/// `s` without its first `n` characters (empty when `s` is shorter).
pub open spec fn skip_seq(s: Seq<char>, n: nat) -> Seq<char> {
    if n >= s.len() {
        Seq::empty()
    } else {
        s.skip(n as int)
    }
}

/// `s.chars().skip(n).collect::<String>()`.
pub fn skip_chars(s: &str, n: usize) -> (r: String)
    ensures
        r@ == skip_seq(s@, n as nat),
{
    let v = chars_of(s);
    if n >= v.len() {
        String::new()
    } else {
        let r = string_from_chars(&v, n, v.len());
        proof {
            assert(s@.skip(n as int) =~= s@.subrange(n as int, s@.len() as int));
        }
        r
    }
}

/// The lines of `s` (`s.lines()`), each as an owned string.
pub fn lines(s: &str) -> (r: Vec<String>)
    ensures
        views(r@) == lines_seq(s@),
{
    let mut done: Vec<String> = Vec::new();
    let mut cur: Vec<char> = Vec::new();
    for c in it: s.chars()
        invariant
            it.seq() == s@,
            (views(done@), cur@) == lines_state(s@.take(it.index() as int)),
    {
        proof {
            assert(s@.take(it.index() + 1).drop_last() =~= s@.take(it.index() as int));
        }
        if c == '\n' {
            let n = cur.len();
            let end = if n > 0 && cur[n - 1] == '\r' {
                n - 1
            } else {
                n
            };
            let line = string_from_chars(&cur, 0, end);
            proof {
                if n > 0 && cur@.last() == '\r' {
                    assert(cur@.subrange(0, end as int) =~= cur@.drop_last());
                } else {
                    assert(cur@.subrange(0, end as int) =~= cur@);
                }
            }
            let ghost before = done@;
            done.push(line);
            proof {
                assert(views(done@) =~= views(before).push(line@));
            }
            cur = Vec::new();
        } else {
            cur.push(c);
        }
    }
    proof {
        assert(s@.take(s@.len() as int) =~= s@);
    }
    if cur.len() > 0 {
        let len = cur.len();
        let line = string_from_chars(&cur, 0, len);
        proof {
            assert(cur@.subrange(0, len as int) =~= cur@);
        }
        let ghost before = done@;
        done.push(line);
        proof {
            assert(views(done@) =~= views(before).push(line@));
        }
    }
    done
}

/// Whether `a` and `b` hold the same characters.
pub fn str_eq(a: &str, b: &str) -> (r: bool)
    ensures
        r == (a@ == b@),
{
    let va = chars_of(a);
    let vb = chars_of(b);
    if va.len() != vb.len() {
        return false;
    }
    let mut i: usize = 0;
    while i < va.len()
        invariant
            va@ == a@,
            vb@ == b@,
            va.len() == vb.len(),
            i <= va.len(),
            forall|j: int| 0 <= j < i ==> va@[j] == vb@[j],
        decreases va.len() - i,
    {
        if va[i] != vb[i] {
            return false;
        }
        i += 1;
    }
    proof {
        assert(a@ =~= b@);
    }
    true
}


proof fn lemma_strip_no_esc(s: Seq<char>)
    ensures
        forall|i: int| 0 <= i < strip_state(s).0.len() ==> #[trigger] strip_state(s).0[i] != esc(),
    decreases s.len(),
{
    if s.len() > 0 {
        lemma_strip_no_esc(s.drop_last());
        let prev = strip_state(s.drop_last()).0;
        let out = strip_state(s).0;
        assert forall|i: int| 0 <= i < out.len() implies #[trigger] out[i] != esc() by {
            if i < prev.len() {
                assert(out[i] == prev[i]);
                assert(prev[i] != esc());
            }
        }
    }
}

pub(crate) proof fn lemma_strip_plain(t: Seq<char>)
    requires
        forall|i: int| 0 <= i < t.len() ==> #[trigger] t[i] != esc(),
    ensures
        strip_state(t) == (t, false),
    decreases t.len(),
{
    if t.len() > 0 {
        lemma_strip_plain(t.drop_last());
        assert(t.drop_last().push(t.last()) =~= t);
    }
}

/// Stripping escape sequences twice removes nothing more than stripping
/// once.
pub proof fn strip_ansi_idempotent(s: Seq<char>)
    ensures
        strip_ansi_seq(strip_ansi_seq(s)) == strip_ansi_seq(s),
{
    lemma_strip_no_esc(s);
    lemma_strip_plain(strip_ansi_seq(s));
}


/// Whether `a` is a subsequence of `b`: `a`'s characters occur in `b` in
/// order (matched from the end).
pub open spec fn is_subseq(a: Seq<char>, b: Seq<char>) -> bool
    decreases b.len(),
{
    if a.len() == 0 {
        true
    } else if b.len() == 0 {
        false
    } else if a.last() == b.last() {
        is_subseq(a.drop_last(), b.drop_last())
    } else {
        is_subseq(a, b.drop_last())
    }
}

proof fn lemma_subseq_drop(a: Seq<char>, b: Seq<char>)
    requires
        is_subseq(a, b),
        a.len() > 0,
    ensures
        is_subseq(a.drop_last(), b),
    decreases b.len(), 0int,
{
    if b.len() > 0 {
        if a.last() == b.last() {
            lemma_subseq_extend(a.drop_last(), b.drop_last(), b.last());
            assert(b.drop_last().push(b.last()) =~= b);
        } else {
            lemma_subseq_drop(a, b.drop_last());
            lemma_subseq_extend(a.drop_last(), b.drop_last(), b.last());
            assert(b.drop_last().push(b.last()) =~= b);
        }
    }
}

proof fn lemma_subseq_extend(a: Seq<char>, b: Seq<char>, x: char)
    requires
        is_subseq(a, b),
    ensures
        is_subseq(a, b.push(x)),
    decreases b.len(), 1int,
{
    assert(b.push(x).drop_last() =~= b);
    if a.len() > 0 && a.last() == x {
        lemma_subseq_drop(a, b);
    }
}

proof fn lemma_strip_subseq(s: Seq<char>)
    ensures
        is_subseq(strip_state(s).0, s),
    decreases s.len(),
{
    if s.len() > 0 {
        lemma_strip_subseq(s.drop_last());
        let (out, in_esc) = strip_state(s.drop_last());
        let c = s.last();
        assert(s.drop_last().push(c) =~= s);
        if !in_esc && c != esc() {
            assert(out.push(c).drop_last() =~= out);
        } else {
            lemma_subseq_extend(out, s.drop_last(), c);
        }
    }
}

/// Stripping escape sequences leaves no escape character, keeps the
/// remaining characters in order (a subsequence of the input), and changes
/// nothing in text that has no escape character.
pub proof fn strip_ansi_leaves_plain_text(s: Seq<char>)
    ensures
        !strip_ansi_seq(s).contains(esc()),
        is_subseq(strip_ansi_seq(s), s),
        !s.contains(esc()) ==> strip_ansi_seq(s) == s,
{
    lemma_strip_no_esc(s);
    lemma_strip_subseq(s);
    if !s.contains(esc()) {
        assert forall|i: int| 0 <= i < s.len() implies #[trigger] s[i] != esc() by {
            if s[i] == esc() {
                assert(s.contains(esc()));
            }
        }
        lemma_strip_plain(s);
    }
}

} // verus!

//! Regular-expression replacement through the `regex` crate.
use vstd::prelude::*;

verus! {

/// `regex::Regex`, carried through unopened.
#[verifier::external_type_specification]
#[verifier::external_body]
pub struct ExRegex(regex::Regex);

/// Whether `regex::Regex::new` accepts `pattern` (a valid pattern whose
/// compiled form stays under the default size limit).
pub uninterp spec fn regex_compiles(pattern: Seq<char>) -> bool;

/// What `regex::Regex::replace` returns: `haystack` with the leftmost-first
/// match of `pattern` replaced by the expansion of `rep`.
pub uninterp spec fn regex_replace_first(pattern: Seq<char>, haystack: Seq<char>, rep: Seq<char>) -> Seq<char>;

/// A compiled regular expression together with the pattern it came from.
pub struct Pattern {
    re: regex::Regex,
    source: Ghost<Seq<char>>,
}

impl Pattern {
    /// The pattern this expression was compiled from.
    pub closed spec fn source(&self) -> Seq<char> {
        self.source@
    }
}

/// `regex::Regex::new(pattern)`: compiles `pattern`, or `None` when the
/// crate refuses it.
#[verifier::external_body]
pub(crate) fn compile(pattern: &str) -> (r: Option<Pattern>)
    ensures
        r is Some <==> regex_compiles(pattern@),
        r matches Some(p) ==> p.source() == pattern@,
{
    match regex::Regex::new(pattern) {
        Ok(re) => Some(Pattern { re, source: Ghost(pattern@) }),
        Err(_) => None,
    }
}

/// `regex::Regex::replace(&p, haystack, rep)`, owned.
#[verifier::external_body]
pub(crate) fn replace_first(p: &Pattern, haystack: &str, rep: &str) -> (r: String)
    ensures
        r@ == regex_replace_first(p.source(), haystack@, rep@),
{
    p.re.replace(haystack, rep).into_owned()
}

} // verus!

//! Filename patterns: regular expressions compiled by the `regex` crate.
use vstd::prelude::*;

use crate::path::{basename_of, get_basename, FsPath, PathError};

verus! {

/// Whether the regular expression `pattern` compiles.
pub uninterp spec fn regex_compiles(pattern: Seq<char>) -> bool;

/// Whether the regular expression `pattern` matches somewhere in `haystack`.
pub uninterp spec fn regex_matches(pattern: Seq<char>, haystack: Seq<char>) -> bool;

#[verifier::external_type_specification]
#[verifier::external_body]
pub struct ExRegex(regex::Regex);

#[verifier::external_type_specification]
#[verifier::external_body]
pub struct ExRegexError(regex::Error);

/// `regex::Regex` derives `Clone`; a clone compiles the same pattern.
pub assume_specification[ <regex::Regex as core::clone::Clone>::clone ](r: &regex::Regex) -> regex::Regex;

/// Relies on `regex::Regex::new`: it succeeds exactly on the patterns that
/// compile, and fails on the others.
#[verifier::external_body]
fn compile_regex(pattern: &str) -> (r: Result<regex::Regex, regex::Error>)
    ensures
        r is Ok <==> regex_compiles(pattern@),
{
    regex::Regex::new(pattern)
}

/// A compiled filename pattern, together with its source text.
///
/// The only way to build one is `Pattern::new`, which compiles `source`
/// into `compiled`; neither field changes afterwards.
#[derive(Debug)]
pub struct Pattern {
    source: String,
    compiled: regex::Regex,
}

/// Relies on `regex::Regex::is_match`: whether the compiled pattern matches
/// anywhere in `haystack`. The pattern was compiled from `p.source`.
#[verifier::external_body]
fn compiled_is_match(p: &Pattern, haystack: &str) -> (r: bool)
    ensures
        r == regex_matches(p.source@, haystack@),
{
    p.compiled.is_match(haystack)
}

impl View for Pattern {
    type V = Seq<char>;

    closed spec fn view(&self) -> Seq<char> {
        self.source@
    }
}

/// Whether at least one of `patterns` matches `name`.
pub open spec fn matches_any(patterns: Seq<Seq<char>>, name: Seq<char>) -> bool {
    exists|i: int| 0 <= i < patterns.len() && regex_matches(#[trigger] patterns[i], name)
}

/// The sources of a sequence of patterns.
pub open spec fn sources_of(patterns: Seq<Pattern>) -> Seq<Seq<char>> {
    patterns.map_values(|p: Pattern| p@)
}

impl Pattern {
    /// Compiles `source`; `None` where it is no valid regular expression.
    pub fn new(source: &str) -> (r: Option<Pattern>)
        ensures
            r is Some <==> regex_compiles(source@),
            r is Some ==> r->Some_0@ == source@,
    {
        match compile_regex(source) {
            Ok(compiled) => Some(Pattern { source: source.to_owned(), compiled }),
            Err(_) => None,
        }
    }

    /// A second pattern with the same source.
    pub fn duplicate(&self) -> (r: Pattern)
        ensures
            r@ == self@,
    {
        Pattern { source: self.source.clone(), compiled: self.compiled.clone() }
    }

    /// The source text of the pattern.
    pub fn as_str(&self) -> (r: &str)
        ensures
            r@ == self@,
    {
        self.source.as_str()
    }

    /// Whether the pattern matches somewhere in `haystack`.
    pub fn is_match(&self, haystack: &str) -> (r: bool)
        ensures
            r == regex_matches(self@, haystack@),
    {
        compiled_is_match(self, haystack)
    }
}

/// Sources distribute over pushing one pattern.
pub proof fn lemma_sources_of_push(v: Seq<Pattern>, x: Pattern)
    ensures
        sources_of(v.push(x)) == sources_of(v).push(x@),
{
    let a = sources_of(v.push(x));
    let b = sources_of(v).push(x@);
    assert forall|k: int| 0 <= k < a.len() implies a[k] == b[k] by {
        if k < v.len() {
            assert(v.push(x)[k] == v[k]);
        }
    }
    assert(a =~= b);
}

/// Copies of all of `patterns`, in order.
pub fn duplicate_patterns(patterns: &Vec<Pattern>) -> (r: Vec<Pattern>)
    ensures
        sources_of(r@) == sources_of(patterns@),
{
    let mut out: Vec<Pattern> = Vec::new();
    let mut i: usize = 0;
    while i < patterns.len()
        invariant
            0 <= i <= patterns@.len(),
            sources_of(out@) =~= sources_of(patterns@).subrange(0, i as int),
        decreases patterns@.len() - i,
    {
        let ghost before = out@;
        let p = patterns[i].duplicate();
        out.push(p);
        assert(out@ =~= before.push(p));
        proof { lemma_sources_of_push(before, p); }
        assert(sources_of(out@) =~= sources_of(patterns@).subrange(0, i as int + 1));
        i += 1;
    }
    out
}

/// Whether any of `patterns` matches `name`.
pub fn any_matches(patterns: &[Pattern], name: &str) -> (r: bool)
    ensures
        r == matches_any(sources_of(patterns@), name@),
{
    let ghost srcs = sources_of(patterns@);
    let mut i: usize = 0;
    while i < patterns.len()
        invariant
            0 <= i <= patterns@.len(),
            srcs == sources_of(patterns@),
            forall|j: int| 0 <= j < i ==> !regex_matches(#[trigger] srcs[j], name@),
        decreases patterns@.len() - i,
    {
        if patterns[i].is_match(name) {
            assert(regex_matches(srcs[i as int], name@));
            return true;
        }
        i += 1;
    }
    false
}

/// Whether the file name of `path` matches any of `regexes`; an error where
/// `path` has no file name.
pub fn path_matches_any_regex(path: &FsPath, regexes: &[Pattern]) -> (r: Result<bool, PathError>)
    ensures
        match basename_of(path@) {
            Some(name) => r == Ok::<bool, PathError>(matches_any(sources_of(regexes@), name)),
            None => r == Err::<bool, PathError>(PathError::NoFileName),
        },
{
    let name = get_basename(path)?;
    Ok(any_matches(regexes, name))
}

} // verus!

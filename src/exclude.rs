use vstd::prelude::*;

verus! {

#[verifier::external_type_specification]
#[verifier::external_body]
pub struct ExRegexSet(regex::RegexSet);

#[verifier::external_type_specification]
#[verifier::external_body]
pub struct ExRegexError(regex::Error);

/// Whether every pattern is a regular expression that compiles.
pub uninterp spec fn patterns_compile(patterns: Seq<Seq<char>>) -> bool;

/// The patterns that a compiled set holds, in the order given.
pub uninterp spec fn set_patterns(set: regex::RegexSet) -> Seq<Seq<char>>;

/// Whether some pattern matches somewhere in `text`.
pub uninterp spec fn set_matches(patterns: Seq<Seq<char>>, text: Seq<char>) -> bool;

/// Relies on `regex::RegexSet::new`: compiles the patterns, failing when one
/// of them is not a valid regular expression; the set keeps the patterns as
/// given (`RegexSet::patterns`).
#[verifier::external_body]
fn compile_patterns(patterns: &Vec<String>) -> (r: Result<regex::RegexSet, regex::Error>)
    ensures
        r is Ok == patterns_compile(patterns.deep_view()),
        r matches Ok(set) ==> set_patterns(set) == patterns.deep_view(),
{
    regex::RegexSet::new(patterns)
}

/// Relies on `regex::RegexSet::is_match`: whether one of the set's patterns
/// matches the text; an empty set matches nothing.
#[verifier::external_body]
fn compiled_matches(set: &regex::RegexSet, text: &str) -> (r: bool)
    ensures
        r == set_matches(set_patterns(*set), text@),
        set_patterns(*set).len() == 0 ==> !r,
{
    set.is_match(text)
}

/// Why an exclusion list was refused.
#[derive(Debug, Clone, Copy, PartialEq, Eq)]
pub enum ExcludeError {
    /// A pattern is not a valid regular expression.
    InvalidPattern,
}

/// Compiled exclusion patterns: a path that any of them matches is left out.
pub struct ExcludeSet {
    compiled: regex::RegexSet,
}

impl ExcludeSet {
    /// The patterns that the set was compiled from.
    pub closed spec fn patterns(&self) -> Seq<Seq<char>> {
        set_patterns(self.compiled)
    }

    /// Compiles the exclusion patterns of a configuration.
    pub fn new(patterns: Vec<String>) -> (r: Result<ExcludeSet, ExcludeError>)
        ensures
            match r {
                Ok(set) => patterns_compile(patterns.deep_view()) && set.patterns() == patterns.deep_view(),
                Err(e) => !patterns_compile(patterns.deep_view()) && e == ExcludeError::InvalidPattern,
            },
    {
        match compile_patterns(&patterns) {
            Ok(compiled) => Ok(ExcludeSet { compiled }),
            Err(_) => Err(ExcludeError::InvalidPattern),
        }
    }

    /// Whether some pattern of the set matches somewhere in `text`.
    pub fn is_match(&self, text: &str) -> (r: bool)
        ensures
            r == set_matches(self.patterns(), text@),
            self.patterns().len() == 0 ==> !r,
    {
        compiled_matches(&self.compiled, text)
    }
}

/// Compiles the optional exclusion list of a configuration; no list excludes
/// nothing.
pub fn compile_exclude(exclude: Option<Vec<String>>) -> (r: Result<Option<ExcludeSet>, ExcludeError>)
    ensures
        match exclude {
            None => r matches Ok(None),
            Some(p) => match r {
                Ok(Some(set)) => patterns_compile(p.deep_view()) && set.patterns() == p.deep_view(),
                Ok(None) => false,
                Err(e) => !patterns_compile(p.deep_view()) && e == ExcludeError::InvalidPattern,
            },
        },
{
    match exclude {
        None => Ok(None),
        Some(p) => match ExcludeSet::new(p) {
            Ok(set) => Ok(Some(set)),
            Err(e) => Err(e),
        },
    }
}

} // verus!

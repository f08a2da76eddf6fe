//! The path filter: accepts or rejects a fully-qualified changed path
//! against an optional pattern.  Paths the pattern matches are dropped
//! before they reach the scheduler; with no pattern everything is accepted.
use vstd::prelude::*;

verus! {

/// Whether `regex::Regex::new` compiles the pattern.  Compilation is a
/// function of the pattern string alone.
pub uninterp spec fn regex_compiles(pattern: Seq<char>) -> bool;

/// Whether the regular expression compiled from `pattern` matches anywhere
/// in `text`.  The match outcome is a function of the pattern and the text
/// alone.
pub uninterp spec fn regex_match(pattern: Seq<char>, text: Seq<char>) -> bool;

/// Relies on regex::Regex::new: it returns Ok exactly when the pattern is a
/// valid regular expression (within the default size limit), which depends
/// on the pattern string alone.
#[verifier::external_body]
fn regex_compile_ok(pattern: &str) -> (r: bool)
    ensures
        r == regex_compiles(pattern@),
{
    regex::Regex::new(pattern).is_ok()
}

/// Relies on regex::Regex::new and regex::Regex::is_match: is_match returns
/// true if and only if the regex matches somewhere in the haystack, an
/// outcome that depends on the pattern and the haystack alone.
#[verifier::external_body]
fn regex_is_match(pattern: &str, text: &str) -> (r: bool)
    requires
        regex_compiles(pattern@),
    ensures
        r == regex_match(pattern@, text@),
{
    regex::Regex::new(pattern).unwrap().is_match(text)
}

/// An optional pattern that drops matching paths.  A held pattern always
/// compiles: building a filter from an invalid pattern fails, so pattern
/// errors are configuration-time errors, never per-event errors.
#[derive(Debug)]
pub struct PathFilter {
    pattern: Option<String>,
}

/// Whether a path passes the filter: with no pattern everything is
/// accepted; with one, exactly the paths the pattern matches are dropped.
pub open spec fn filter_accepts(pattern: Option<Seq<char>>, path: Seq<char>) -> bool {
    match pattern {
        None => true,
        Some(p) => !regex_match(p, path),
    }
}

impl PathFilter {
    #[verifier::type_invariant]
    spec fn inv(&self) -> bool {
        match self.pattern {
            Some(p) => regex_compiles(p@),
            None => true,
        }
    }

    /// The configured pattern, if any.
    pub closed spec fn spec_pattern(&self) -> Option<Seq<char>> {
        match self.pattern {
            Some(p) => Some(p@),
            None => None,
        }
    }

    /// Build a filter.  `None` is returned exactly when a pattern was given
    /// and it does not compile: an invalid pattern is a configuration-time
    /// fatal error.
    pub fn new(pattern: Option<String>) -> (r: Option<PathFilter>)
        ensures
            match r {
                Some(f) => f.spec_pattern() == (match pattern {
                    Some(p) => Some(p@),
                    None => None::<Seq<char>>,
                }) && (pattern is Some ==> regex_compiles(pattern.unwrap()@)),
                None => pattern is Some && !regex_compiles(pattern.unwrap()@),
            },
    {
        match pattern {
            None => Some(PathFilter { pattern: None }),
            Some(p) => {
                if regex_compile_ok(p.as_str()) {
                    Some(PathFilter { pattern: Some(p) })
                } else {
                    None
                }
            },
        }
    }

    /// Whether the filter accepts this fully-qualified path.
    pub fn accepts(&self, path: &str) -> (r: bool)
        ensures
            r == filter_accepts(self.spec_pattern(), path@),
    {
        proof {
            use_type_invariant(self);
        }
        match &self.pattern {
            None => true,
            Some(p) => !regex_is_match(p.as_str(), path),
        }
    }

    /// Whether a pattern is configured at all.
    pub fn has_pattern(&self) -> (r: bool)
        ensures
            r == (self.spec_pattern() is Some),
    {
        self.pattern.is_some()
    }
}

} // verus!

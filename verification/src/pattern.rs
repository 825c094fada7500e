//! Compiled search patterns: a mandatory name pattern and an optional
//! content pattern, both standard regular expressions.

use vstd::prelude::*;

verus! {

use regex::Regex;

#[verifier::external_type_specification]
#[verifier::external_body]
pub struct ExRegex(Regex);

/// Whether a pattern string is valid regular-expression syntax (within the
/// default compiled-size limit), so that compiling it succeeds.
pub uninterp spec fn regex_valid(pattern: Seq<char>) -> bool;

/// The pattern a compiled regular expression was built from.
pub uninterp spec fn regex_source(re: Regex) -> Seq<char>;

/// Whether the regular expression given by `pattern` matches anywhere in
/// `text`. The answer depends on the pattern and the text alone.
pub uninterp spec fn regex_accepts(pattern: Seq<char>, text: Seq<char>) -> bool;

/// Relies on regex::Regex::new: compiling succeeds exactly when the pattern
/// is valid syntax within the default size limit, and the compiled value
/// matches as its pattern prescribes.
#[verifier::external_body]
fn regex_compile(pattern: &str) -> (r: Option<Regex>)
    ensures
        r is Some <==> regex_valid(pattern@),
        r matches Some(re) ==> regex_source(re) == pattern@,
{
    Regex::new(pattern).ok()
}

/// Relies on regex::Regex::is_match: true exactly when the pattern matches
/// somewhere in the haystack.
#[verifier::external_body]
fn regex_is_match(re: &Regex, text: &str) -> (b: bool)
    ensures
        b == regex_accepts(regex_source(*re), text@),
{
    re.is_match(text)
}

/// Why constructing a matcher failed.
#[derive(Clone, Copy, PartialEq, Eq, Structural, Debug)]
pub enum PatternError {
    /// The name pattern is not a valid regular expression.
    InvalidNamePattern,
    /// The content pattern is not a valid regular expression.
    InvalidContentPattern,
}

/// The predicate deciding which files match: a file's base name must match
/// the name pattern, and, when a content pattern is configured, its text
/// content must be readable and match that pattern too.
pub struct Matcher {
    name: Regex,
    content: Option<Regex>,
}

impl Matcher {
    /// The pattern tested against base names.
    pub closed spec fn name_pat(self) -> Seq<char> {
        regex_source(self.name)
    }

    /// The pattern tested against file contents, when configured.
    pub closed spec fn content_pat(self) -> Option<Seq<char>> {
        match self.content {
            Some(re) => Some(regex_source(re)),
            None => None,
        }
    }

    /// Whether a file with the given base name and readable text content
    /// (`None` when the file could not be read as text) matches.
    pub open spec fn spec_matches(self, name: Seq<char>, content: Option<Seq<char>>) -> bool {
        regex_accepts(self.name_pat(), name) && match self.content_pat() {
            Some(p) => content matches Some(c) && regex_accepts(p, c),
            None => true,
        }
    }

    /// Compiles the two patterns. Fails exactly when one of them is not a
    /// valid regular expression, naming the offending one.
    pub fn new(name_pattern: &str, content_pattern: Option<&str>) -> (r: Result<Matcher, PatternError>)
        ensures
            r is Ok <==> (regex_valid(name_pattern@) && (content_pattern matches Some(c)
                ==> regex_valid(c@))),
            r matches Ok(m) ==> {
                &&& m.name_pat() == name_pattern@
                &&& match content_pattern {
                    Some(c) => m.content_pat() == Some(c@),
                    None => m.content_pat() is None,
                }
            },
            r == Err::<Matcher, PatternError>(PatternError::InvalidNamePattern) <==> !regex_valid(
                name_pattern@,
            ),
            r == Err::<Matcher, PatternError>(PatternError::InvalidContentPattern) <==> (
            regex_valid(name_pattern@) && (content_pattern matches Some(c) && !regex_valid(c@))),
    {
        let name = match regex_compile(name_pattern) {
            Some(re) => re,
            None => {
                return Err(PatternError::InvalidNamePattern);
            },
        };
        let content = match content_pattern {
            Some(c) => match regex_compile(c) {
                Some(re) => Some(re),
                None => {
                    return Err(PatternError::InvalidContentPattern);
                },
            },
            None => None,
        };
        Ok(Matcher { name, content })
    }

    /// Whether a content pattern is configured, so that a caller knows it
    /// must supply the file's text.
    pub fn needs_content(&self) -> (b: bool)
        ensures
            b == (self.content_pat() is Some),
    {
        self.content.is_some()
    }

    /// Whether the base name alone matches the name pattern.
    pub fn matches_name(&self, name: &str) -> (b: bool)
        ensures
            b == regex_accepts(self.name_pat(), name@),
    {
        regex_is_match(&self.name, name)
    }

    /// The full predicate over a base name and the file's text content
    /// (`None` when the file could not be read as text).
    pub fn matches(&self, name: &str, content: Option<&str>) -> (b: bool)
        ensures
            b == self.spec_matches(
                name@,
                match content {
                    Some(c) => Some(c@),
                    None => None,
                },
            ),
    {
        if !regex_is_match(&self.name, name) {
            return false;
        }
        match &self.content {
            None => true,
            Some(re) => match content {
                Some(c) => regex_is_match(re, c),
                None => false,
            },
        }
    }
}

} // verus!

//! Recognising email addresses with the `regex` crate.

use vstd::prelude::*;

verus! {

#[verifier::external_type_specification]
#[verifier::external_body]
pub struct ExRegex(regex::Regex);

#[verifier::external_type_specification]
#[verifier::external_body]
pub struct ExRegexError(regex::Error);

/// Whether `regex::Regex::new` accepts `pattern`.
pub uninterp spec fn regex_compiles(pattern: Seq<char>) -> bool;

/// The leftmost-first match of `pattern` in `text`, as `regex::Regex::find`
/// reports it, or `None` when there is none.
pub uninterp spec fn regex_first_match(pattern: Seq<char>, text: Seq<char>) -> Option<Seq<char>>;

/// A compiled regular expression together with the pattern it was compiled from.
pub struct MailPattern {
    re: regex::Regex,
    pattern: String,
}

impl View for MailPattern {
    type V = Seq<char>;

    /// The pattern the expression was compiled from.
    closed spec fn view(&self) -> Seq<char> {
        self.pattern@
    }
}

impl MailPattern {
    /// Compiles `pattern` with `regex::Regex::new`.
    ///
    /// Trusted: compilation succeeds exactly when the pattern is accepted, and
    /// the result remembers the pattern it was compiled from.
    #[verifier::external_body]
    pub(crate) fn compile(pattern: &str) -> (r: Result<MailPattern, regex::Error>)
        ensures
            r is Ok <==> regex_compiles(pattern@),
            r matches Ok(p) ==> p@ == pattern@,
    {
        match regex::Regex::new(pattern) {
            Ok(re) => Ok(MailPattern { re, pattern: pattern.to_string() }),
            Err(e) => Err(e),
        }
    }

    /// The text of the first match in `text`, found with `regex::Regex::find`.
    ///
    /// Trusted: the result is the leftmost-first match of the pattern this
    /// expression was compiled from, and a match is a piece of `text`.
    #[verifier::external_body]
    pub(crate) fn first_match(&self, text: &str) -> (r: Option<String>)
        ensures
            match r {
                Some(m) => regex_first_match(self@, text@) == Some(m@),
                None => regex_first_match(self@, text@) is None,
            },
            r matches Some(m) ==> exists|i: int, j: int|
                0 <= i <= j <= text@.len() && m@ == text@.subrange(i, j),
    {
        match self.re.find(text) {
            Some(m) => Some(m.as_str().to_string()),
            None => None,
        }
    }
}

} // verus!

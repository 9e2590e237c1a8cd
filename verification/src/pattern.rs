//! Regular expressions, as the `regex` crate compiles and matches them.
use vstd::prelude::*;

verus! {

/// The compiled form of a regular expression, `regex::Regex`. Its inside is
/// the `regex` crate's own.
#[verifier::external_type_specification]
#[verifier::external_body]
pub struct ExRegex(regex::Regex);

/// The reason why `regex` refused a pattern, `regex::Error`.
#[verifier::external_type_specification]
#[verifier::external_body]
pub struct ExRegexError(regex::Error);

/// Whether the regular expression written as `pattern` matches somewhere in
/// `text`, by the syntax and the semantics of the `regex` crate with its
/// default options. Nothing is proved of it: it names what
/// `regex::Regex::is_match` answers.
pub uninterp spec fn regex_matches(pattern: Seq<char>, text: Seq<char>) -> bool;

/// A regular expression: its source text, and what `regex` compiled from it.
/// The two fields belong together: a `Pattern` is only ever made by
/// [`Pattern::new`], from one source text.
pub struct Pattern {
    source: String,
    compiled: regex::Regex,
}

/// A pattern that `regex` did not accept: its syntax is wrong, or its
/// compiled form is too large.
#[derive(Debug, Clone, Copy, PartialEq, Eq, Structural)]
pub enum PatternError {
    Rejected,
}

impl View for Pattern {
    type V = Seq<char>;

    /// A pattern is known by its source text.
    closed spec fn view(&self) -> Seq<char> {
        self.source@
    }
}

/// Calls `regex::Regex::new` on `source` and keeps the source text beside the
/// compiled expression. Trusted: the pattern that comes back was compiled
/// from `source`. Nothing is claimed on which texts `regex` accepts.
#[verifier::external_body]
fn compile(source: &str) -> (r: Result<Pattern, regex::Error>)
    ensures
        r matches Ok(p) ==> p@ == source@,
{
    match regex::Regex::new(source) {
        Ok(compiled) => Ok(Pattern { source: source.to_owned(), compiled }),
        Err(e) => Err(e),
    }
}

/// Calls `regex::Regex::is_match` on the compiled expression. Trusted: the
/// answer depends on the pattern's source text and on `text` alone, and is
/// the one that [`regex_matches`] names.
#[verifier::external_body]
fn is_match(pattern: &Pattern, text: &str) -> (b: bool)
    ensures
        b == regex_matches(pattern@, text@),
{
    pattern.compiled.is_match(text)
}

impl Pattern {
    /// Compiles `source`. Whether a text is an acceptable pattern is for
    /// `regex` to say; an accepted one is known by that text from then on.
    pub fn new(source: &str) -> (r: Result<Pattern, PatternError>)
        ensures
            r matches Ok(p) ==> p@ == source@,
    {
        Pattern::accepted(compile(source))
    }

    /// What a compilation comes to: the pattern where `regex` accepted the
    /// text, and `Rejected` where it gave a reason against it.
    pub fn accepted(compiled: Result<Pattern, regex::Error>) -> (r: Result<Pattern, PatternError>)
        ensures
            match compiled {
                Ok(p) => r == Ok::<Pattern, PatternError>(p),
                Err(_) => r == Err::<Pattern, PatternError>(PatternError::Rejected),
            },
    {
        match compiled {
            Ok(p) => Ok(p),
            Err(_) => Err(PatternError::Rejected),
        }
    }

    /// The source text of the pattern.
    pub fn as_str(&self) -> (s: &str)
        ensures
            s@ == self@,
    {
        self.source.as_str()
    }

    /// Whether the pattern matches somewhere in `text`.
    pub fn matches(&self, text: &str) -> (b: bool)
        ensures
            b == regex_matches(self@, text@),
    {
        is_match(self, text)
    }
}

} // verus!

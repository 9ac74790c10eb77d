//! Regular-expression matching, provided by the `regex` crate.

use vstd::prelude::*;
use vstd::utf8::*;
use vstd::string::*;

verus! {

#[verifier::external_type_specification]
#[verifier::external_body]
pub struct ExRegex(regex::Regex);

#[verifier::external_type_specification]
#[verifier::external_body]
pub struct ExRegexError(regex::Error);

/// Whether `regex::Regex::new` accepts the pattern (it is well formed and
/// within the default size limit).
pub uninterp spec fn regex_compiles(pattern: Seq<char>) -> bool;

/// The byte ranges `(start, end)` of the successive non-overlapping matches
/// that `regex::Regex::find_iter` reports for the pattern in the haystack.
pub uninterp spec fn regex_match_spans(pattern: Seq<char>, haystack: Seq<char>) -> Seq<(usize, usize)>;

/// What the `regex` crate guarantees of every list of match spans in
/// `bytes`: each span lies inside the text, starts and ends on character
/// boundaries, and each one ends no later than the next one starts.
pub open spec fn spans_well_formed(bytes: Seq<u8>, spans: Seq<(usize, usize)>) -> bool {
    &&& forall|i: int|
        0 <= i < spans.len() ==> {
            &&& (#[trigger] spans[i]).0 <= spans[i].1
            &&& spans[i].1 <= bytes.len()
            &&& is_char_boundary(bytes, spans[i].0 as int)
            &&& is_char_boundary(bytes, spans[i].1 as int)
        }
    &&& forall|i: int, j: int| 0 <= i < j < spans.len() ==> (#[trigger] spans[i]).1 <= (#[trigger] spans[j]).0
}

/// The `Display` text of a `regex::Error`; nothing is claimed of it.
#[verifier::external_body]
pub(crate) fn regex_error_text(e: &regex::Error) -> (r: String) {
    e.to_string()
}

/// A compiled regular expression together with the pattern it was compiled
/// from. Values of this type are only made by `CompiledRegex::new`.
pub struct CompiledRegex {
    source: String,
    regex: regex::Regex,
}

impl CompiledRegex {
    /// The pattern this regular expression was compiled from.
    pub closed spec fn source(self) -> Seq<char> {
        self.source@
    }

    /// Compiles `pattern` with `regex::Regex::new`; the contract claims that
    /// compilation succeeds exactly when the pattern is accepted, and that
    /// the result remembers its pattern.
    #[verifier::external_body]
    pub(crate) fn new(pattern: &str) -> (r: Result<CompiledRegex, regex::Error>)
        ensures
            r is Ok == regex_compiles(pattern@),
            r matches Ok(c) ==> c.source() == pattern@,
    {
        match regex::Regex::new(pattern) {
            Ok(regex) => Ok(CompiledRegex { source: pattern.to_string(), regex }),
            Err(e) => Err(e),
        }
    }

    /// The byte ranges of the matches that `regex::Regex::find_iter` yields,
    /// in order; the contract claims they are the named spans for this
    /// pattern and meet the guarantees the `regex` documentation gives.
    #[verifier::external_body]
    pub(crate) fn find_spans(&self, haystack: &str) -> (v: Vec<(usize, usize)>)
        ensures
            v@ == regex_match_spans(self.source(), haystack@),
            spans_well_formed(haystack.spec_bytes(), v@),
    {
        self.regex.find_iter(haystack).map(|m| (m.start(), m.end())).collect()
    }

    /// `regex::Regex::is_match`: the contract claims it holds exactly when
    /// `find_iter` would report at least one match.
    #[verifier::external_body]
    pub(crate) fn is_match(&self, haystack: &str) -> (b: bool)
        ensures
            b == (regex_match_spans(self.source(), haystack@).len() > 0),
    {
        self.regex.is_match(haystack)
    }
}

} // verus!

use vstd::prelude::*;

verus! {

#[verifier::external_type_specification]
#[verifier::external_body]
pub struct ExRegex(regex::Regex);

#[verifier::external_type_specification]
#[verifier::external_body]
pub struct ExRegexError(regex::Error);

/// Source of the regular expression that recognises an inline external type:
/// a run of lowercase letters, digits and hyphens at the start, then one space.
pub const TYPE_PREFIX_PATTERN: &'static str = "^[a-z0-9-]+ ";

pub open spec fn is_tag_char(c: char) -> bool {
    ('a' as u32 <= c as u32 && c as u32 <= 'z' as u32) || ('0' as u32 <= c as u32 && c as u32 <= '9' as u32)
        || c == '-'
}

/// What `TYPE_PREFIX_PATTERN` matches: `s` starts with one or more tag
/// characters followed by a space.
pub open spec fn has_type_prefix(s: Seq<char>) -> bool {
    exists|k: int| 1 <= k < s.len() && s[k] == ' ' && forall|j: int| 0 <= j < k ==> is_tag_char(#[trigger] s[j])
}

/// Whether a regular expression with the given source text matches somewhere in
/// the haystack (the answer of `regex::Regex::is_match`).
pub uninterp spec fn regex_is_match(pattern: Seq<char>, haystack: Seq<char>) -> bool;

/// Whether `regex::Regex::new` accepts the given source text.
pub uninterp spec fn regex_compiles(pattern: Seq<char>) -> bool;

/// Relies on `regex::Regex::new`: compiles a pattern, or reports why it cannot.
/// It fails only on an invalid or over-size pattern, so never on the small,
/// valid type-prefix pattern.
#[verifier::external_body]
fn compile_regex(source: &str) -> (r: Result<regex::Regex, regex::Error>)
    ensures
        r is Ok <==> regex_compiles(source@),
        source@ == TYPE_PREFIX_PATTERN@ ==> r is Ok,
{
    regex::Regex::new(source)
}

/// A pattern that was rejected by the regular expression compiler.
#[derive(Debug, Clone, PartialEq, Eq)]
pub struct PatternError {
    pub source: String,
}

/// A compiled regular expression together with the text it was compiled from.
///
/// The fields are private: the only way to build one is `RequestPattern::new`,
/// so `compiled` is always the compilation of `source`.
pub struct RequestPattern {
    source: String,
    compiled: regex::Regex,
}

impl RequestPattern {
    pub closed spec fn source_view(&self) -> Seq<char> {
        self.source@
    }

    /// Compiles `source`; on failure the error carries the rejected text.
    pub fn new(source: &str) -> (r: Result<RequestPattern, PatternError>)
        ensures
            r is Ok <==> regex_compiles(source@),
            source@ == TYPE_PREFIX_PATTERN@ ==> r is Ok,
            r is Ok ==> r->Ok_0.source_view() == source@,
            r is Err ==> r->Err_0.source@ == source@,
    {
        match compile_regex(source) {
            Ok(compiled) => Ok(RequestPattern { source: source.to_owned(), compiled }),
            Err(_) => Err(PatternError { source: source.to_owned() }),
        }
    }

    /// The text the pattern was compiled from.
    pub fn as_str(&self) -> (r: &str)
        ensures
            r@ == self.source_view(),
    {
        self.source.as_str()
    }

    /// Whether the pattern matches somewhere in `haystack`.
    pub fn test(&self, haystack: &str) -> (r: bool)
        ensures
            r == regex_is_match(self.source_view(), haystack@),
            self.source_view() == TYPE_PREFIX_PATTERN@ ==> r == has_type_prefix(haystack@),
    {
        regex_test(self, haystack)
    }
}

/// Relies on `regex::Regex::is_match`: true when the regex compiled from
/// `p.source` matches anywhere in `haystack`. For the anchored type-prefix
/// pattern that means a non-empty run of `[a-z0-9-]` at the start, then a space.
#[verifier::external_body]
fn regex_test(p: &RequestPattern, haystack: &str) -> (r: bool)
    ensures
        r == regex_is_match(p.source@, haystack@),
        p.source@ == TYPE_PREFIX_PATTERN@ ==> r == has_type_prefix(haystack@),
{
    p.compiled.is_match(haystack)
}

} // verus!

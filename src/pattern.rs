//! Rewrites by regular expression, through the `regex` crate.
use vstd::prelude::*;

verus! {

#[verifier::external_type_specification]
#[verifier::external_body]
pub struct ExRegexError(regex::Error);

/// Whether `regex::Regex::new` accepts the pattern.
pub uninterp spec fn pattern_compiles(pattern: Seq<char>) -> bool;

/// What `regex::Regex::replace_all` makes of the haystack with the template.
pub uninterp spec fn regex_replaced(pattern: Seq<char>, haystack: Seq<char>, template: Seq<char>) -> Seq<char>;

/// Where, counted in characters, the matches of `regex::Regex::find_iter` start.
pub uninterp spec fn regex_match_starts(pattern: Seq<char>, haystack: Seq<char>) -> Seq<usize>;

/// A rewrite rule whose pattern does not compile.
#[derive(Debug)]
pub struct PatternError {
    pub pattern: String,
}

/// Relies on `regex::Regex::new`, which fails exactly on the patterns that do
/// not compile, and on `regex::Regex::replace_all`, which replaces every
/// non-overlapping match, expanding `$n` in the template.
#[verifier::external_body]
fn regex_replace_all(pattern: &str, haystack: &str, template: &str) -> (r: Result<
    String,
    regex::Error,
>)
    ensures
        r is Ok <==> pattern_compiles(pattern@),
        r matches Ok(s) ==> s@ == regex_replaced(pattern@, haystack@, template@),
{
    match regex::Regex::new(pattern) {
        Ok(re) => Ok(re.replace_all(haystack, template).into_owned()),
        Err(e) => Err(e),
    }
}

/// Relies on `regex::Regex::new`, as above, and on `regex::Regex::find_iter`,
/// which yields successive non-overlapping matches in order; each byte
/// offset `Match::start` is turned into a count of characters.
#[verifier::external_body]
fn regex_find_starts(pattern: &str, haystack: &str) -> (r: Result<Vec<usize>, regex::Error>)
    ensures
        r is Ok <==> pattern_compiles(pattern@),
        r matches Ok(v) ==> {
            &&& v@ == regex_match_starts(pattern@, haystack@)
            &&& forall|i: int| 0 <= i < v@.len() ==> v@[i] <= haystack@.len()
            &&& forall|i: int, j: int| 0 <= i <= j < v@.len() ==> v@[i] <= v@[j]
        },
{
    match regex::Regex::new(pattern) {
        Ok(re) => Ok(re.find_iter(haystack).map(|m| haystack[..m.start()].chars().count()).collect()),
        Err(e) => Err(e),
    }
}

/// `haystack` rewritten by the rule `pattern` -> `template`.
pub fn rewrite(pattern: &str, haystack: &str, template: &str) -> (r: Result<String, PatternError>)
    ensures
        r is Ok <==> pattern_compiles(pattern@),
        r matches Ok(s) ==> s@ == regex_replaced(pattern@, haystack@, template@),
        r matches Err(e) ==> e.pattern@ == pattern@,
{
    match regex_replace_all(pattern, haystack, template) {
        Ok(s) => Ok(s),
        Err(_) => Err(PatternError { pattern: String::from_str(pattern) }),
    }
}

/// Where the matches of `pattern` in `haystack` start, in characters.
pub fn match_starts(pattern: &str, haystack: &str) -> (r: Result<Vec<usize>, PatternError>)
    ensures
        r is Ok <==> pattern_compiles(pattern@),
        r matches Ok(v) ==> {
            &&& v@ == regex_match_starts(pattern@, haystack@)
            &&& forall|i: int| 0 <= i < v@.len() ==> v@[i] <= haystack@.len()
            &&& forall|i: int, j: int| 0 <= i <= j < v@.len() ==> v@[i] <= v@[j]
        },
        r matches Err(e) ==> e.pattern@ == pattern@,
{
    match regex_find_starts(pattern, haystack) {
        Ok(v) => Ok(v),
        Err(_) => Err(PatternError { pattern: String::from_str(pattern) }),
    }
}

/// Checks that `pattern` compiles.
pub fn check_pattern(pattern: &str) -> (r: Result<(), PatternError>)
    ensures
        r is Ok <==> pattern_compiles(pattern@),
        r matches Err(e) ==> e.pattern@ == pattern@,
{
    match rewrite(pattern, "", "") {
        Ok(_) => Ok(()),
        Err(e) => Err(e),
    }
}

} // verus!

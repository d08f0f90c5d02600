//! Regular expressions, as the `regex` crate compiles and runs them.
//!
//! Nothing in this module is proved. Each item states what the crate's
//! documentation says of the function that it stands for.

use regex::Regex;
use vstd::prelude::*;
use vstd::string::StringSliceAdditionalSpecFns;
use vstd::utf8::is_char_boundary;

verus! {

/// A compiled regular expression, `regex::Regex`.
#[verifier::external_type_specification]
#[verifier::external_body]
pub struct ExRegex(Regex);

/// What `Regex::new` makes of `pattern`: the compiled expression, or `None`
/// where the pattern is not valid or compiles to more than the crate's size
/// limit. To give this a name is to take compiling for a function of the
/// pattern's text: the same text gives the same expression.
pub uninterp spec fn compiled(pattern: Seq<char>) -> Option<Regex>;

/// What `Regex::find` finds of `regex` in `haystack`: the byte offsets at
/// which the leftmost match starts and ends in the UTF-8 encoding of
/// `haystack`, or `None` where nothing matches. To give this a name is to
/// take searching for a function of the expression and the haystack.
pub uninterp spec fn leftmost_match(regex: Regex, haystack: Seq<char>) -> Option<(usize, usize)>;

/// Calls `Regex::new` and drops the error.
#[verifier::external_body]
pub(crate) fn compile(pattern: &str) -> (regex: Option<Regex>)
    ensures
        regex == compiled(pattern@),
{
    Regex::new(pattern).ok()
}

/// Calls `Regex::find` and takes the offsets out of the match.
///
/// Beside naming the result, the contract holds what the documentation of
/// `Match::start` and `Match::end` guarantees: the start is not behind the
/// end, and the haystack can be sliced at both.
#[verifier::external_body]
pub(crate) fn find(regex: &Regex, haystack: &str) -> (found: Option<(usize, usize)>)
    ensures
        found == leftmost_match(*regex, haystack@),
        found matches Some((start, end)) ==> {
            &&& start <= end <= haystack.spec_bytes().len()
            &&& is_char_boundary(haystack.spec_bytes(), start as int)
            &&& is_char_boundary(haystack.spec_bytes(), end as int)
        },
{
    regex.find(haystack).map(|m| (m.start(), m.end()))
}

} // verus!

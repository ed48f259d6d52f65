//! The calls into the `regex` crate: compiling one pattern, compiling the
//! allow-list as a set, and matching a User-Agent against the set.
//!
//! What a pattern means is the crate's business, so its compile and match
//! results are named here rather than described; what the crate documents
//! plainly (the patterns a set keeps) is stated.

use vstd::prelude::*;

use regex::{Regex, RegexSet};

verus! {

#[verifier::external_type_specification]
#[verifier::external_body]
pub struct ExRegex(regex::Regex);

#[verifier::external_type_specification]
#[verifier::external_body]
pub struct ExRegexSet(regex::RegexSet);

#[verifier::external_type_specification]
#[verifier::external_body]
pub struct ExRegexError(regex::Error);

/// Whether `regex::RegexBuilder`, with its default syntax options, accepts
/// `pattern` with both its compiled size limit and its lazy DFA size limit
/// set to `size_limit` bytes.
pub uninterp spec fn regex_compiles(pattern: Seq<char>, size_limit: nat) -> bool;

/// Whether `regex::RegexSetBuilder`, with its default syntax options, accepts
/// `patterns` with both its compiled size limit and its lazy DFA size limit
/// set to `size_limit` bytes.
pub uninterp spec fn regex_set_compiles(patterns: Seq<Seq<char>>, size_limit: nat) -> bool;

/// The patterns that a compiled set holds, in the order they were given
/// (what `RegexSet::patterns` returns).
pub uninterp spec fn regex_set_patterns(set: RegexSet) -> Seq<Seq<char>>;

/// Whether a set was compiled with the regex crate's default syntax options
/// (only its size limits changed), as every `RegexSetBuilder` is until one
/// of its option setters is called. Matching depends on these options as
/// well as on the patterns, so a match is only stated of such sets.
pub uninterp spec fn regex_set_default_syntax(set: RegexSet) -> bool;

/// Whether one of `patterns`, compiled as a set by `RegexSetBuilder` with its
/// default syntax options, matches somewhere in `haystack` (what
/// `RegexSet::is_match` returns).
pub uninterp spec fn regex_set_is_match(patterns: Seq<Seq<char>>, haystack: Seq<char>) -> bool;

/// Calls `RegexBuilder::new(pattern).size_limit(l).dfa_size_limit(l).build()`.
/// Claimed: it succeeds exactly when `regex_compiles(pattern, l)` holds.
#[verifier::external_body]
pub(crate) fn compile_regex(pattern: &str, size_limit: usize) -> (compiled: Result<
    Regex,
    regex::Error,
>)
    ensures
        compiled is Ok == regex_compiles(pattern@, size_limit as nat),
{
    regex::RegexBuilder::new(pattern).size_limit(size_limit).dfa_size_limit(size_limit).build()
}

/// Calls `RegexSetBuilder::new(patterns).size_limit(l).dfa_size_limit(l).build()`.
/// Claimed: it succeeds exactly when `regex_set_compiles(patterns, l)` holds,
/// that the set it returns keeps the given patterns in their order, as the
/// crate's documentation of `RegexSet::patterns` says, and that it carries
/// the default syntax options, since no option setter is called.
#[verifier::external_body]
pub(crate) fn compile_regex_set(patterns: &Vec<String>, size_limit: usize) -> (compiled: Result<
    RegexSet,
    regex::Error,
>)
    ensures
        compiled is Ok == regex_set_compiles(
            patterns@.map_values(|p: String| p@),
            size_limit as nat,
        ),
        compiled matches Ok(set) ==> regex_set_patterns(set) == patterns@.map_values(
            |p: String| p@,
        ),
        compiled matches Ok(set) ==> regex_set_default_syntax(set),
{
    regex::RegexSetBuilder::new(patterns).size_limit(size_limit).dfa_size_limit(size_limit).build()
}

/// Calls `RegexSet::is_match` on a set compiled with the default syntax
/// options. Claimed: the answer is `regex_set_is_match` of the set's
/// patterns and the haystack. Nothing is claimed of a set built with other
/// options.
#[verifier::external_body]
pub(crate) fn set_is_match(set: &RegexSet, haystack: &str) -> (found: bool)
    requires
        regex_set_default_syntax(*set),
    ensures
        found == regex_set_is_match(regex_set_patterns(*set), haystack@),
{
    set.is_match(haystack)
}

} // verus!

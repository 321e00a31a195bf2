//! The multi-pattern matcher: trusted declarations over the `aho_corasick`
//! crate, which the scanner uses to locate candidate magic offsets.
//!
//! The automaton is opaque to the rest of the library; what it was built
//! from is named by [`ac_patterns`], and the match sequence it yields on a
//! haystack is named by [`ac_match_seq`].  Everything the scanner proves
//! rests on the two wrappers' contracts and on nothing else of the crate.

use vstd::prelude::*;

verus! {

/// The `aho_corasick` automaton type, declared so that it can stand in
/// signatures; the library carries it through without looking inside.
#[verifier::external_type_specification]
#[verifier::external_body]
pub struct ExAhoCorasick(aho_corasick::AhoCorasick);

/// One matcher hit: which pattern matched, and at which offset of the
/// haystack it starts.
#[derive(Clone, Copy, Debug, PartialEq, Eq, Structural)]
pub struct MatchPos {
    /// The pattern's index, equal to its corpus index.
    pub pattern: usize,
    /// The offset of the occurrence in the haystack.
    pub start: usize,
}

/// The patterns an automaton was built from, in order.
pub uninterp spec fn ac_patterns(ac: aho_corasick::AhoCorasick) -> Seq<Seq<u8>>;

/// The match sequence that an automaton built from `pats` with the crate's
/// default configuration yields on `hay`: a function of the two alone.
pub uninterp spec fn ac_match_seq(pats: Seq<Seq<u8>>, hay: Seq<u8>) -> Seq<MatchPos>;

/// Whether building an automaton from `pats` with the crate's default
/// configuration succeeds: a function of the patterns alone, as the
/// build's limits are on their number and total size.
pub uninterp spec fn ac_build_ok(pats: Seq<Seq<u8>>) -> bool;

/// A hit names a real occurrence: a pattern index within bounds, and that
/// pattern's bytes standing in the haystack at the reported offset.
pub open spec fn match_wf(pats: Seq<Seq<u8>>, hay: Seq<u8>, m: MatchPos) -> bool {
    &&& m.pattern < pats.len()
    &&& m.start + pats[m.pattern as int].len() <= hay.len()
    &&& hay.subrange(m.start as int, m.start + pats[m.pattern as int].len()) == pats[
        m.pattern as int
    ]
}

/// Relies on `aho_corasick::AhoCorasickBuilder::build`: the automaton,
/// built with the default configuration, holds exactly the given patterns
/// in their given order, and whether the build is refused — it fails only
/// on limits over the patterns themselves — is the function of the
/// patterns that [`ac_build_ok`] names.
#[verifier::external_body]
pub(crate) fn build_matcher(patterns: &Vec<Vec<u8>>) -> (r: Option<aho_corasick::AhoCorasick>)
    ensures
        r matches Some(ac) ==> ac_patterns(ac) == patterns@.map_values(|p: Vec<u8>| p@),
        r is Some <==> ac_build_ok(patterns@.map_values(|p: Vec<u8>| p@)),
{
    aho_corasick::AhoCorasickBuilder::new().build(patterns).ok()
}

/// Relies on `aho_corasick::AhoCorasick::find_iter`: it yields the
/// automaton's non-overlapping matches over the haystack in ascending
/// order, each one reporting a pattern identifier and the span where that
/// pattern occurs; one match's span ends before the next one starts.
#[verifier::external_body]
pub(crate) fn find_matches(ac: &aho_corasick::AhoCorasick, hay: &[u8]) -> (r: Vec<MatchPos>)
    ensures
        r@ == ac_match_seq(ac_patterns(*ac), hay@),
        forall|i: int| 0 <= i < r@.len() ==> match_wf(ac_patterns(*ac), hay@, r@[i]),
        forall|i: int|
            0 <= i && i + 1 < r@.len() ==> (#[trigger] r@[i]).start + ac_patterns(*ac)[r@[i].pattern as int].len()
                <= r@[i + 1].start,
{
    ac.find_iter(hay).map(
        |m: aho_corasick::Match| MatchPos { pattern: m.pattern().as_usize(), start: m.start() },
    ).collect()
}

} // verus!

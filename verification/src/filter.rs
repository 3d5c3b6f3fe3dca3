//! The family filter: a line of alternatives separated by `|`. A family
//! passes if its name holds one of the alternatives.

use crate::text::{contains, is_substring, occurs_at, split, split_on};
use vstd::prelude::*;

verus! {

/// The character that separates the alternatives of a filter.
pub const SEPARATOR: char = '|';

/// `family` passes the filter with these alternatives: there is no
/// alternative at all, or the name holds at least one of them.
pub open spec fn matches_filter(patterns: Seq<Seq<char>>, family: Seq<char>) -> bool {
    patterns.len() == 0 || exists|k: int|
        0 <= k < patterns.len() && is_substring(#[trigger] patterns[k], family)
}

/// The alternatives of the filter `raw`, in the order in which they stand.
pub fn compile_filter(raw: &str) -> (patterns: Vec<String>)
    ensures
        patterns.deep_view() == split_on(raw@, SEPARATOR),
{
    split(raw, SEPARATOR)
}

/// Whether `family` passes the filter with the alternatives `patterns`.
pub fn passes(patterns: &Vec<String>, family: &str) -> (r: bool)
    ensures
        r == matches_filter(patterns.deep_view(), family@),
{
    if patterns.len() == 0 {
        return true;
    }
    let mut k: usize = 0;
    while k < patterns.len()
        invariant
            k <= patterns.len(),
            forall|j: int|
                0 <= j < k ==> !is_substring(#[trigger] patterns.deep_view()[j], family@),
        decreases patterns.len() - k,
    {
        if contains(family, patterns[k].as_str()) {
            assert(is_substring(patterns.deep_view()[k as int], family@));
            return true;
        }
        k += 1;
    }
    false
}

/// The empty filter lets every family pass.
pub proof fn lemma_empty_filter_passes_all(family: Seq<char>)
    ensures
        matches_filter(split_on(Seq::empty(), SEPARATOR), family),
{
    let patterns = split_on(Seq::empty(), SEPARATOR);
    assert(family.subrange(0, 0) =~= patterns[0]);
    assert(occurs_at(patterns[0], family, 0));
    assert(is_substring(patterns[0], family));
}

} // verus!

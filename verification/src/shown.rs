//! The rows of the table: which families are shown, and in what order.

use crate::filter::{matches_filter, passes};
use crate::pinned::{ascending, PinnedSet};
use vstd::prelude::*;

verus! {

/// The family at position `index` of the registry is shown: the position is
/// one of the registry, the family passes the filter, and it is pinned where
/// only pinned families are shown.
pub open spec fn is_shown(
    families: Seq<Seq<char>>,
    patterns: Seq<Seq<char>>,
    pinned: Set<usize>,
    hide_unpinned: bool,
    index: usize,
) -> bool {
    &&& index < families.len()
    &&& matches_filter(patterns, families[index as int])
    &&& hide_unpinned ==> pinned.contains(index)
}

/// `is_shown` as a function of the position alone.
pub open spec fn shown_at(
    families: Seq<Seq<char>>,
    patterns: Seq<Seq<char>>,
    pinned: Set<usize>,
    hide_unpinned: bool,
) -> spec_fn(usize) -> bool {
    |index: usize| is_shown(families, patterns, pinned, hide_unpinned, index)
}

/// The first `n` positions, in ascending order.
pub open spec fn positions(n: nat) -> Seq<usize> {
    Seq::new(n, |i: int| i as usize)
}

/// The rows of the table: the positions of the families that are shown, in
/// ascending order.
pub open spec fn shown_rows(
    families: Seq<Seq<char>>,
    patterns: Seq<Seq<char>>,
    pinned: Set<usize>,
    hide_unpinned: bool,
) -> Seq<usize> {
    positions(families.len()).filter(shown_at(families, patterns, pinned, hide_unpinned))
}

/// The positions below `n` that `keep` lets through, in ascending order, are
/// exactly that: ascending, and a position is among them if and only if it
/// is below `n` and let through.
proof fn lemma_filtered_positions(n: nat, keep: spec_fn(usize) -> bool)
    requires
        n <= usize::MAX,
    ensures
        ascending(positions(n).filter(keep)),
        forall|index: usize| #[trigger]
            positions(n).filter(keep).contains(index) <==> index < n && keep(index),
    decreases n,
{
    let kept = positions(n).filter(keep);
    if n == 0 {
        reveal(Seq::filter);
    } else {
        let last = (n - 1) as usize;
        let before = positions((n - 1) as nat).filter(keep);
        lemma_filtered_positions((n - 1) as nat, keep);
        assert(positions(n) =~= positions((n - 1) as nat).push(last));
        positions((n - 1) as nat).lemma_filter_push(last, keep);
        if keep(last) {
            assert forall|i: int, j: int| 0 <= i < j < kept.len() implies kept[i] < kept[j] by {
                assert(before.contains(kept[i]));
                if j < before.len() {
                    assert(before[i] < before[j]);
                }
            }
            assert forall|index: usize| #[trigger]
                kept.contains(index) <==> index < n && keep(index) by {
                if kept.contains(index) {
                    let k = choose|k: int| 0 <= k < kept.len() && kept[k] == index;
                    if k < before.len() {
                        assert(before.contains(index));
                    }
                }
                if index < n && keep(index) {
                    if index == last {
                        assert(kept[kept.len() - 1] == index);
                    } else {
                        assert(before.contains(index));
                        let k = choose|k: int| 0 <= k < before.len() && before[k] == index;
                        assert(kept[k] == index);
                    }
                }
            }
        }
    }
}

/// The rows ascend, so no family is shown twice, and a position is a row if
/// and only if its family is shown. In particular every row is a position of
/// the registry, and where only pinned families are shown every row is
/// pinned and passes the filter.
pub proof fn lemma_shown_rows_exact(
    families: Seq<Seq<char>>,
    patterns: Seq<Seq<char>>,
    pinned: Set<usize>,
    hide_unpinned: bool,
)
    requires
        families.len() <= usize::MAX,
    ensures
        ascending(shown_rows(families, patterns, pinned, hide_unpinned)),
        forall|index: usize| #[trigger]
            shown_rows(families, patterns, pinned, hide_unpinned).contains(index) <==> is_shown(
                families,
                patterns,
                pinned,
                hide_unpinned,
                index,
            ),
{
    lemma_filtered_positions(families.len(), shown_at(families, patterns, pinned, hide_unpinned));
}

/// Where only pinned families are shown and none is pinned, the table is
/// empty, whatever the filter.
pub proof fn lemma_nothing_pinned_nothing_shown(families: Seq<Seq<char>>, patterns: Seq<Seq<char>>)
    ensures
        shown_rows(families, patterns, Set::empty(), true) == Seq::<usize>::empty(),
{
    let keep = shown_at(families, patterns, Set::empty(), true);
    let rows = positions(families.len()).filter(keep);
    if rows.len() > 0 {
        positions(families.len()).lemma_filter_pred(keep, 0);
        assert(keep(rows[0]));
    }
}

/// While every family may be shown, the pins have no say in the rows.
pub proof fn lemma_pins_idle_unless_hiding(
    families: Seq<Seq<char>>,
    patterns: Seq<Seq<char>>,
    pinned: Set<usize>,
    other: Set<usize>,
)
    ensures
        shown_rows(families, patterns, pinned, false) == shown_rows(
            families,
            patterns,
            other,
            false,
        ),
{
    assert(shown_at(families, patterns, pinned, false) =~= shown_at(
        families,
        patterns,
        other,
        false,
    ));
}

/// Works out the rows of the table from the registry, the alternatives of the
/// filter, the pinned families and the mode.
pub fn recompute_shown(
    families: &Vec<String>,
    patterns: &Vec<String>,
    pinned: &PinnedSet,
    hide_unpinned: bool,
) -> (shown: Vec<usize>)
    ensures
        shown@ == shown_rows(families.deep_view(), patterns.deep_view(), pinned@, hide_unpinned),
{
    let ghost keep = shown_at(families.deep_view(), patterns.deep_view(), pinned@, hide_unpinned);
    let mut shown: Vec<usize> = Vec::new();
    let mut i: usize = 0;
    assert(positions(0).filter(keep) =~= Seq::<usize>::empty()) by {
        reveal(Seq::filter);
    }
    while i < families.len()
        invariant
            i <= families.len(),
            keep == shown_at(families.deep_view(), patterns.deep_view(), pinned@, hide_unpinned),
            shown@ == positions(i as nat).filter(keep),
        decreases families.len() - i,
    {
        let show = passes(patterns, families[i].as_str()) && (!hide_unpinned || pinned.contains(i));
        proof {
            assert(positions((i + 1) as nat) =~= positions(i as nat).push(i));
            positions(i as nat).lemma_filter_push(i, keep);
            assert(show == keep(i));
        }
        if show {
            shown.push(i);
        }
        i += 1;
    }
    shown
}

} // verus!

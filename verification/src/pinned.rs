//! The set of pinned families, held as their positions in the registry.

use crate::seqs::{lemma_ascending_unique, lemma_insert_to_set, lemma_remove_to_set};
use vstd::prelude::*;

verus! {

/// Each element is smaller than every later one.
pub open spec fn ascending(s: Seq<usize>) -> bool {
    forall|i: int, j: int| 0 <= i < j < s.len() ==> s[i] < s[j]
}

/// `pinned` with the membership of `index` flipped.
pub open spec fn toggled(pinned: Set<usize>, index: usize) -> Set<usize> {
    if pinned.contains(index) {
        pinned.remove(index)
    } else {
        pinned.insert(index)
    }
}

/// A set of positions has one ascending order only.
pub proof fn lemma_ascending_order_unique(a: Seq<usize>, b: Seq<usize>)
    requires
        ascending(a),
        ascending(b),
        a.to_set() == b.to_set(),
    ensures
        a == b,
{
    lemma_ascending_unique(a, b, |x: usize, y: usize| x < y);
}

/// Flipping the same pin twice leaves the set as it was.
pub proof fn lemma_toggle_twice(pinned: Set<usize>, index: usize)
    ensures
        toggled(toggled(pinned, index), index) == pinned,
{
    assert(toggled(toggled(pinned, index), index) =~= pinned);
}

/// A set of registry positions. The positions are kept in ascending order
/// without repeats, so that equal sets are stored alike.
pub struct PinnedSet {
    indices: Vec<usize>,
}

impl View for PinnedSet {
    type V = Set<usize>;

    closed spec fn view(&self) -> Set<usize> {
        self.indices@.to_set()
    }
}

impl PinnedSet {
    #[verifier::type_invariant]
    spec fn canonical(&self) -> bool {
        ascending(self.indices@)
    }

    /// The set with nothing pinned.
    pub fn new() -> (set: Self)
        ensures
            set@ == Set::<usize>::empty(),
    {
        PinnedSet { indices: Vec::new() }
    }

    /// The place of `index` among the stored positions: the first place whose
    /// position is not below it.
    fn place_of(&self, index: usize) -> (place: usize)
        ensures
            place <= self.indices.len(),
            forall|k: int| 0 <= k < place ==> self.indices[k] < index,
            forall|k: int| place <= k < self.indices.len() ==> index <= self.indices[k],
    {
        proof {
            use_type_invariant(self);
        }
        let mut lo: usize = 0;
        let mut hi: usize = self.indices.len();
        while lo < hi
            invariant
                lo <= hi <= self.indices.len(),
                ascending(self.indices@),
                forall|k: int| 0 <= k < lo ==> self.indices[k] < index,
                forall|k: int| hi <= k < self.indices.len() ==> index <= self.indices[k],
            decreases hi - lo,
        {
            let mid = lo + (hi - lo) / 2;
            if self.indices[mid] < index {
                lo = mid + 1;
            } else {
                hi = mid;
            }
        }
        lo
    }

    /// Whether `index` is pinned.
    pub fn contains(&self, index: usize) -> (r: bool)
        ensures
            r == self@.contains(index),
    {
        let place = self.place_of(index);
        proof {
            use_type_invariant(self);
            if place < self.indices.len() && self.indices[place as int] == index {
                assert(self.indices@.contains(index));
            }
        }
        place < self.indices.len() && self.indices[place] == index
    }

    /// The pinned positions in ascending order, each once.
    pub fn indices(&self) -> (indices: &Vec<usize>)
        ensures
            ascending(indices@),
            indices@.to_set() == self@,
    {
        proof {
            use_type_invariant(self);
        }
        &self.indices
    }

    /// Pins `index` if it is not pinned, and unpins it if it is.
    pub fn toggle(&mut self, index: usize)
        ensures
            final(self)@ == toggled(old(self)@, index),
    {
        let place = self.place_of(index);
        proof {
            use_type_invariant(&*self);
        }
        let ghost before = self.indices@;
        let mut indices: Vec<usize> = Vec::new();
        std::mem::swap(&mut self.indices, &mut indices);
        if place < indices.len() && indices[place] == index {
            indices.remove(place);
            proof {
                lemma_remove_to_set(before, place as int);
            }
        } else {
            indices.insert(place, index);
            proof {
                lemma_insert_to_set(before, place as int, index);
            }
        }
        self.indices = indices;
    }
}

} // verus!

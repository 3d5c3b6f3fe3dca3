//! The registry of font families: every family name the font engine reports,
//! once each, in ascending order.

use crate::engine::loaded_faces;
use crate::seqs::{lemma_ascending_unique, lemma_insert_to_set};
use crate::text::{
    lemma_lex_lt_connected, lemma_lex_lt_irreflexive, lemma_lex_lt_transitive, lex_lt, precedes,
};
use vstd::prelude::*;

verus! {

/// Each name comes strictly before every later one, so none occurs twice.
pub open spec fn ascending_names(names: Seq<Seq<char>>) -> bool {
    forall|i: int, j: int| 0 <= i < j < names.len() ==> lex_lt(names[i], names[j])
}

/// The names that the faces report: the family names of those faces that
/// have one.
pub open spec fn names_in(faces: Seq<Option<Seq<char>>>) -> Set<Seq<char>> {
    Set::new(|name: Seq<char>| faces.contains(Some(name)))
}

/// The names that an answer of the font engine reports: those of its faces,
/// and none where the engine gave no answer.
pub open spec fn reported_names(answer: Option<Seq<Option<Seq<char>>>>) -> Set<Seq<char>> {
    match answer {
        Some(faces) => names_in(faces),
        None => Set::empty(),
    }
}

/// A set of names has one registry only: two ascending lists with the same
/// names are the same list.
pub proof fn lemma_registry_unique(a: Seq<Seq<char>>, b: Seq<Seq<char>>)
    requires
        ascending_names(a),
        ascending_names(b),
        a.to_set() == b.to_set(),
    ensures
        a == b,
{
    let lt = |x: Seq<char>, y: Seq<char>| lex_lt(x, y);
    assert forall|x: Seq<char>| !#[trigger] lt(x, x) by {
        lemma_lex_lt_irreflexive(x);
    }
    assert forall|x: Seq<char>, y: Seq<char>, z: Seq<char>| #[trigger]
        lt(x, y) && #[trigger] lt(y, z) implies lt(x, z) by {
        lemma_lex_lt_transitive(x, y, z);
    }
    lemma_ascending_unique(a, b, lt);
}

/// The first place in `list` whose name does not come before `name`.
fn place_of(list: &Vec<String>, name: &str) -> (place: usize)
    requires
        ascending_names(list.deep_view()),
    ensures
        place <= list.len(),
        forall|k: int| 0 <= k < place ==> lex_lt(#[trigger] list[k]@, name@),
        forall|k: int| place <= k < list.len() ==> !lex_lt(#[trigger] list[k]@, name@),
{
    let mut lo: usize = 0;
    let mut hi: usize = list.len();
    while lo < hi
        invariant
            lo <= hi <= list.len(),
            ascending_names(list.deep_view()),
            forall|k: int| 0 <= k < lo ==> lex_lt(#[trigger] list[k]@, name@),
            forall|k: int| hi <= k < list.len() ==> !lex_lt(#[trigger] list[k]@, name@),
        decreases hi - lo,
    {
        let mid = lo + (hi - lo) / 2;
        let ghost names = list.deep_view();
        if precedes(list[mid].as_str(), name) {
            assert forall|k: int| 0 <= k < mid + 1 implies lex_lt(#[trigger] list[k]@, name@) by {
                if k < mid {
                    assert(lex_lt(names[k], names[mid as int]));
                    lemma_lex_lt_transitive(list[k]@, list[mid as int]@, name@);
                }
            }
            lo = mid + 1;
        } else {
            assert forall|k: int| mid <= k < list.len() implies !lex_lt(
                #[trigger] list[k]@,
                name@,
            ) by {
                if k > mid && lex_lt(list[k]@, name@) {
                    assert(lex_lt(names[mid as int], names[k]));
                    lemma_lex_lt_transitive(list[mid as int]@, list[k]@, name@);
                }
            }
            hi = mid;
        }
    }
    lo
}

/// Puts `name` where it belongs in the ascending `list`, unless the list
/// holds it already.
fn insert_name(list: &mut Vec<String>, name: String)
    requires
        ascending_names(old(list).deep_view()),
    ensures
        ascending_names(final(list).deep_view()),
        final(list).deep_view().to_set() == old(list).deep_view().to_set().insert(name@),
{
    let place = place_of(list, name.as_str());
    let ghost before = list.deep_view();
    if place < list.len() && !precedes(name.as_str(), list[place].as_str()) {
        proof {
            lemma_lex_lt_connected(name@, list[place as int]@);
            assert(before[place as int] == name@);
        }
    } else {
        list.insert(place, name);
        proof {
            let after = list.deep_view();
            assert(after =~= before.insert(place as int, name@));
            lemma_insert_to_set(before, place as int, name@);
            assert forall|i: int, j: int| 0 <= i < j < after.len() implies lex_lt(
                after[i],
                after[j],
            ) by {
                if i == place {
                    assert(lex_lt(name@, old(list)[place as int]@));
                    if j > place + 1 {
                        assert(lex_lt(before[place as int], before[j - 1]));
                        lemma_lex_lt_transitive(name@, before[place as int], before[j - 1]);
                    }
                } else if j == place {
                    assert(lex_lt(old(list)[i]@, name@));
                } else if i < place {
                    if j < place {
                        assert(lex_lt(before[i], before[j]));
                    } else {
                        assert(lex_lt(before[i], before[j - 1]));
                    }
                } else {
                    assert(lex_lt(before[i - 1], before[j - 1]));
                }
            }
        }
    }
}

/// What the last face adds to the names that the faces before it report.
proof fn lemma_names_in_step(faces: Seq<Option<Seq<char>>>)
    requires
        faces.len() > 0,
    ensures
        names_in(faces) == match faces.last() {
            Some(name) => names_in(faces.drop_last()).insert(name),
            None => names_in(faces.drop_last()),
        },
{
    let front = faces.drop_last();
    let step = match faces.last() {
        Some(name) => names_in(front).insert(name),
        None => names_in(front),
    };
    assert forall|name: Seq<char>| names_in(faces).contains(name) <==> step.contains(name) by {
        if faces.contains(Some(name)) {
            let i = choose|i: int| 0 <= i < faces.len() && faces[i] == Some(name);
            if i < front.len() {
                assert(front[i] == Some(name));
            }
        }
        if front.contains(Some(name)) {
            let i = choose|i: int| 0 <= i < front.len() && front[i] == Some(name);
            assert(faces[i] == Some(name));
        }
        if faces.last() == Some(name) {
            assert(faces[faces.len() - 1] == Some(name));
        }
    }
}

/// The registry that an answer of the font engine gives: the names that the
/// answer reports, once each and in ascending order. Without an answer the
/// registry is empty.
pub fn families_of(answer: Option<Vec<Option<String>>>) -> (list: Vec<String>)
    ensures
        ascending_names(list.deep_view()),
        list.deep_view().to_set() == reported_names(answer.deep_view()),
        answer is None ==> list.len() == 0,
{
    let mut list: Vec<String> = Vec::new();
    match answer {
        None => {},
        Some(mut faces) => {
            let ghost all = faces.deep_view();
            loop
                invariant
                    ascending_names(list.deep_view()),
                    list.deep_view().to_set().union(names_in(faces.deep_view())) == names_in(all),
                ensures
                    list.deep_view().to_set() == names_in(all),
                decreases faces.len(),
            {
                let ghost held = list.deep_view().to_set();
                let ghost pending = faces.deep_view();
                match faces.pop() {
                    None => {
                        break;
                    },
                    Some(face) => {
                        proof {
                            assert(faces.deep_view() =~= pending.drop_last());
                            assert(pending.last() == face.deep_view());
                            lemma_names_in_step(pending);
                        }
                        match face {
                            None => {},
                            Some(name) => {
                                insert_name(&mut list, name);
                                assert(held.insert(name@).union(names_in(faces.deep_view()))
                                    =~= held.union(names_in(pending)));
                            },
                        }
                    },
                }
            }
        },
    }
    list
}

/// Asks the font engine for its faces and gives the registry of their
/// families. Whatever the engine answers, the registry is in ascending order
/// and holds no name twice.
pub fn font_list() -> (list: Vec<String>)
    ensures
        ascending_names(list.deep_view()),
{
    families_of(loaded_faces())
}

/// The cell that holds the registry of a process: empty until the registry is
/// first asked for, and never changed after that. The owner hands it to
/// whoever needs the registry.
pub struct FontRegistry {
    families: Option<Vec<String>>,
}

impl FontRegistry {
    #[verifier::type_invariant]
    spec fn canonical(&self) -> bool {
        self.families is Some ==> ascending_names(self.families->0.deep_view())
    }

    /// Whether the registry has been built.
    pub closed spec fn is_loaded(&self) -> bool {
        self.families is Some
    }

    /// The names in the registry, in its order; none while it is not built.
    pub closed spec fn names(&self) -> Seq<Seq<char>> {
        match self.families {
            Some(list) => list.deep_view(),
            None => Seq::empty(),
        }
    }

    /// A cell whose registry is not built yet.
    pub fn new() -> (registry: Self)
        ensures
            !registry.is_loaded(),
            registry.names() == Seq::<Seq<char>>::empty(),
    {
        FontRegistry { families: None }
    }

    /// The registry, if it has been built. Reading it changes nothing, so
    /// any number of readers may share the cell once it is built.
    pub fn get(&self) -> (list: Option<&Vec<String>>)
        ensures
            list is Some <==> self.is_loaded(),
            list is Some ==> list->0.deep_view() == self.names() && ascending_names(
                list->0.deep_view(),
            ),
    {
        proof {
            use_type_invariant(self);
        }
        self.families.as_ref()
    }
}

/// The registry held in `registry`. The first call builds it from what the
/// font engine reports; every later call gives the list built then and asks
/// the engine nothing.
pub fn get_global_font_list(registry: &mut FontRegistry) -> (list: &Vec<String>)
    ensures
        final(registry).is_loaded(),
        old(registry).is_loaded() ==> final(registry).names() == old(registry).names(),
        list.deep_view() == final(registry).names(),
        ascending_names(list.deep_view()),
{
    if registry.families.is_none() {
        registry.families = Some(font_list());
    }
    proof {
        use_type_invariant(&*registry);
    }
    registry.families.as_ref().unwrap()
}

} // verus!

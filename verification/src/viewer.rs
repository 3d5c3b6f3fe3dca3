//! The state of the viewer and the messages that change it.

use crate::filter::{
    compile_filter, lemma_empty_filter_passes_all, matches_filter, passes, SEPARATOR,
};
use crate::pinned::{ascending, lemma_toggle_twice, toggled, PinnedSet};
use crate::shown::{
    lemma_pins_idle_unless_hiding, lemma_shown_rows_exact, recompute_shown, shown_rows,
};
use crate::text::{lemma_split_on_rejoins, split_on};
use crate::weight::FVWeight;
use vstd::prelude::*;

verus! {

/// What can happen to a viewer. `S` is the type in which the size of the
/// sample text is measured; the viewer stores a size and never looks into it.
#[derive(Clone, Debug, PartialEq)]
pub enum Message<S> {
    /// The sample text was edited.
    TextChanged(String),
    /// Another level of boldness was chosen.
    WeightChanged(FVWeight),
    /// Another size was chosen.
    TextSizeChanged(S),
    /// The filter line was edited.
    FontFamilyFilterChanged(String),
    /// The pin of the family at this position of the registry was flipped.
    Pin(usize),
    /// Showing pinned families only was switched on or off.
    HideUnpin(bool),
    /// The rows of the table are due to be worked out again.
    UpdateShownFontFamily,
}

/// What a viewer holds, as plain mathematics.
pub struct ViewerState<S> {
    /// The sample text.
    pub text: Seq<char>,
    /// The boldness of the sample.
    pub weight: FVWeight,
    /// The size of the sample.
    pub text_size: S,
    /// The filter line as it was typed.
    pub filter: Seq<char>,
    /// The registry of families.
    pub families: Seq<Seq<char>>,
    /// The pinned families, by position in the registry.
    pub pinned: Set<usize>,
    /// The alternatives that the filter line was last split into.
    pub patterns: Seq<Seq<char>>,
    /// Whether only pinned families are shown.
    pub hide_unpinned: bool,
    /// The rows of the table, by position in the registry.
    pub shown: Seq<usize>,
}

/// The state in which a viewer starts: the sample reads `ABC123` in the
/// ordinary weight, the filter is empty, nothing is pinned, and the table has
/// no rows yet.
pub open spec fn initial_state<S>(families: Seq<Seq<char>>, text_size: S) -> ViewerState<S> {
    ViewerState {
        text: "ABC123"@,
        weight: FVWeight::Normal,
        text_size,
        filter: Seq::empty(),
        families,
        pinned: Set::empty(),
        patterns: Seq::empty(),
        hide_unpinned: false,
        shown: Seq::empty(),
    }
}

/// The state that a message leads to.
pub open spec fn step<S>(state: ViewerState<S>, message: Message<S>) -> ViewerState<S> {
    match message {
        Message::TextChanged(text) => ViewerState { text: text@, ..state },
        Message::WeightChanged(weight) => ViewerState { weight, ..state },
        Message::TextSizeChanged(text_size) => ViewerState { text_size, ..state },
        Message::FontFamilyFilterChanged(filter) => ViewerState {
            filter: filter@,
            patterns: split_on(filter@, SEPARATOR),
            ..state
        },
        Message::Pin(index) => ViewerState { pinned: toggled(state.pinned, index), ..state },
        Message::HideUnpin(hide_unpinned) => ViewerState { hide_unpinned, ..state },
        Message::UpdateShownFontFamily => ViewerState {
            shown: shown_rows(state.families, state.patterns, state.pinned, state.hide_unpinned),
            ..state
        },
    }
}

/// The message that is due after `message` has been taken in: whatever
/// changes the filter, the pins or the mode asks for the rows to be worked
/// out again.
pub open spec fn follow_up<S>(message: Message<S>) -> Option<Message<S>> {
    match message {
        Message::FontFamilyFilterChanged(_) | Message::Pin(_) | Message::HideUnpin(_) => Some(
            Message::UpdateShownFontFamily,
        ),
        _ => None,
    }
}

/// What holds of a viewer at all times. Every row is a position of the
/// registry and the rows ascend, so no family is shown twice. The alternatives
/// are those of the filter line, but for a viewer whose filter line is still
/// empty, which may have none. The registry is one that a machine can hold.
pub open spec fn coherent<S>(state: ViewerState<S>) -> bool {
    &&& state.families.len() <= usize::MAX
    &&& ascending(state.shown)
    &&& forall|k: int| 0 <= k < state.shown.len() ==> state.shown[k] < state.families.len()
    &&& state.patterns == split_on(state.filter, SEPARATOR) || (state.filter.len() == 0
        && state.patterns.len() == 0)
}

/// A viewer starts in a coherent state.
pub proof fn lemma_initial_state_coherent<S>(families: Seq<Seq<char>>, text_size: S)
    requires
        families.len() <= usize::MAX,
    ensures
        coherent(initial_state(families, text_size)),
{
}

/// Whatever message comes, the state stays coherent.
pub proof fn lemma_step_keeps_coherent<S>(state: ViewerState<S>, message: Message<S>)
    requires
        coherent(state),
    ensures
        coherent(step(state, message)),
{
    lemma_shown_rows_exact(state.families, state.patterns, state.pinned, state.hide_unpinned);
}

/// In a coherent state the filter line alone decides which families pass.
pub proof fn lemma_filter_line_decides<S>(state: ViewerState<S>, family: Seq<char>)
    requires
        coherent(state),
    ensures
        matches_filter(state.patterns, family) == matches_filter(
            split_on(state.filter, SEPARATOR),
            family,
        ),
{
    if state.patterns.len() == 0 {
        lemma_split_on_rejoins(state.filter, SEPARATOR);
        lemma_empty_filter_passes_all(family);
    }
}

/// Flipping the same pin twice brings the viewer back to the state it was
/// in. While every family may be shown, even one flip changes nothing in the
/// rows that are worked out next.
pub proof fn lemma_pin_twice<S>(state: ViewerState<S>, index: usize)
    ensures
        step(step(state, Message::Pin(index)), Message::Pin(index)) == state,
        !state.hide_unpinned ==> step(
            step(state, Message::Pin(index)),
            Message::UpdateShownFontFamily,
        ).shown == step(state, Message::UpdateShownFontFamily).shown,
{
    lemma_toggle_twice(state.pinned, index);
    lemma_pins_idle_unless_hiding(
        state.families,
        state.patterns,
        state.pinned,
        toggled(state.pinned, index),
    );
}

/// The filter line and the alternatives it was last split into. The two
/// change together, so they are kept together.
struct FilterLine {
    raw: String,
    patterns: Vec<String>,
}

/// The viewer: a sample text with its weight and size, the filter line, the
/// pinned families and the rows that follow from them.
pub struct FontViewer<'a, S> {
    text: String,
    weight: FVWeight,
    text_size: S,
    font_family_filter: FilterLine,
    font_families: &'a Vec<String>,
    pinned: PinnedSet,
    hide_unpin: bool,
    shown_family: Vec<usize>,
}

impl<'a, S> View for FontViewer<'a, S> {
    type V = ViewerState<S>;

    closed spec fn view(&self) -> ViewerState<S> {
        ViewerState {
            text: self.text@,
            weight: self.weight,
            text_size: self.text_size,
            filter: self.font_family_filter.raw@,
            families: self.font_families.deep_view(),
            pinned: self.pinned@,
            patterns: self.font_family_filter.patterns.deep_view(),
            hide_unpinned: self.hide_unpin,
            shown: self.shown_family@,
        }
    }
}

impl<'a, S> FontViewer<'a, S> {
    #[verifier::type_invariant]
    spec fn is_coherent(&self) -> bool {
        coherent(self@)
    }

    /// A viewer of the registry `font_families` in its first state, and the
    /// message that is due next: the rows are to be worked out.
    pub fn new(font_families: &'a Vec<String>, text_size: S) -> (start: (Self, Option<Message<S>>))
        ensures
            start.0@ == initial_state(font_families.deep_view(), text_size),
            start.1 == Some(Message::<S>::UpdateShownFontFamily),
    {
        let font_family_filter = FilterLine { raw: String::new(), patterns: Vec::new() };
        assert(font_family_filter.patterns.deep_view() =~= Seq::<Seq<char>>::empty());
        assert(font_families.deep_view().len() == font_families.len());
        let viewer = FontViewer {
            text: "ABC123".to_owned(),
            weight: FVWeight::default(),
            text_size,
            font_family_filter,
            font_families,
            pinned: PinnedSet::new(),
            hide_unpin: false,
            shown_family: Vec::new(),
        };
        (viewer, Some(Message::UpdateShownFontFamily))
    }

    /// The sample text.
    pub fn text(&self) -> (text: &String)
        ensures
            text@ == self@.text,
    {
        &self.text
    }

    /// The boldness of the sample.
    pub fn weight(&self) -> (weight: FVWeight)
        ensures
            weight == self@.weight,
    {
        self.weight
    }

    /// The size of the sample.
    pub fn text_size(&self) -> (text_size: &S)
        ensures
            *text_size == self@.text_size,
    {
        &self.text_size
    }

    /// The filter line as it was typed.
    pub fn font_family_filter(&self) -> (filter: &String)
        ensures
            filter@ == self@.filter,
    {
        &self.font_family_filter.raw
    }

    /// The registry of families.
    pub fn font_families(&self) -> (families: &'a Vec<String>)
        ensures
            families.deep_view() == self@.families,
    {
        self.font_families
    }

    /// The pinned families.
    pub fn pinned(&self) -> (pinned: &PinnedSet)
        ensures
            pinned@ == self@.pinned,
    {
        &self.pinned
    }

    /// The alternatives that the filter line was last split into.
    pub fn font_family_filter_pattern(&self) -> (patterns: &Vec<String>)
        ensures
            patterns.deep_view() == self@.patterns,
            coherent(self@),
    {
        proof {
            use_type_invariant(self);
        }
        &self.font_family_filter.patterns
    }

    /// Whether only pinned families are shown.
    pub fn hide_unpin(&self) -> (hide_unpinned: bool)
        ensures
            hide_unpinned == self@.hide_unpinned,
    {
        self.hide_unpin
    }

    /// The rows of the table as they were last worked out. Each is a position
    /// of the registry, and they ascend.
    pub fn shown_family(&self) -> (rows: &Vec<usize>)
        ensures
            rows@ == self@.shown,
            coherent(self@),
    {
        proof {
            use_type_invariant(self);
        }
        &self.shown_family
    }

    /// Splits the filter line into its alternatives anew.
    pub fn compile_font_family_filter(&mut self)
        ensures
            final(self)@ == (ViewerState {
                patterns: split_on(old(self)@.filter, SEPARATOR),
                ..old(self)@
            }),
    {
        proof {
            use_type_invariant(&*self);
        }
        let mut line = FilterLine { raw: String::new(), patterns: Vec::new() };
        std::mem::swap(&mut self.font_family_filter, &mut line);
        let patterns = compile_filter(line.raw.as_str());
        self.font_family_filter = FilterLine { raw: line.raw, patterns };
    }

    /// Whether `family` passes the filter: whether the alternatives let it
    /// pass, which is for the filter line alone to say.
    pub fn is_target_font_family(&self, family: &String) -> (r: bool)
        ensures
            r == matches_filter(self@.patterns, family@),
            r == matches_filter(split_on(self@.filter, SEPARATOR), family@),
    {
        proof {
            use_type_invariant(self);
            lemma_filter_line_decides(self@, family@);
        }
        passes(&self.font_family_filter.patterns, family.as_str())
    }

    /// Takes `message` in: changes the state as the message says and gives
    /// the message that is due next, if any.
    pub fn update(&mut self, message: Message<S>) -> (next: Option<Message<S>>)
        ensures
            final(self)@ == step(old(self)@, message),
            next == follow_up(message),
    {
        proof {
            use_type_invariant(&*self);
        }
        match message {
            Message::TextChanged(text) => {
                self.text = text;
            },
            Message::WeightChanged(weight) => {
                self.weight = weight;
            },
            Message::TextSizeChanged(text_size) => {
                self.text_size = text_size;
            },
            Message::FontFamilyFilterChanged(filter) => {
                let patterns = compile_filter(filter.as_str());
                self.font_family_filter = FilterLine { raw: filter, patterns };
                return Some(Message::UpdateShownFontFamily);
            },
            Message::Pin(index) => {
                let mut pinned = PinnedSet::new();
                std::mem::swap(&mut self.pinned, &mut pinned);
                pinned.toggle(index);
                self.pinned = pinned;
                return Some(Message::UpdateShownFontFamily);
            },
            Message::HideUnpin(hide_unpinned) => {
                self.hide_unpin = hide_unpinned;
                return Some(Message::UpdateShownFontFamily);
            },
            Message::UpdateShownFontFamily => {
                proof {
                    lemma_shown_rows_exact(
                        self@.families,
                        self@.patterns,
                        self@.pinned,
                        self@.hide_unpinned,
                    );
                }
                self.shown_family = recompute_shown(
                    self.font_families,
                    &self.font_family_filter.patterns,
                    &self.pinned,
                    self.hide_unpin,
                );
            },
        }
        None
    }
}

} // verus!

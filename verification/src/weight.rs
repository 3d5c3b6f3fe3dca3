//! The nine levels of boldness that a preview can be drawn in, and how they
//! correspond to the weights of the toolkit that draws it.

use vstd::prelude::*;

verus! {

/// The toolkit's weight of a font. Verus reads the variants of the enum
/// itself, so what is said of them below is checked against them.
#[verifier::external_type_specification]
pub struct ExWeight(iced::font::Weight);

/// `Default::default` of the toolkit's weight, which the enum marks as
/// `Normal`.
pub assume_specification[ <iced::font::Weight as Default>::default ]() -> (weight:
    iced::font::Weight)
    ensures
        weight == iced::font::Weight::Normal,
;

/// A level of boldness, from the thinnest to the heaviest.
#[derive(Clone, Copy, Debug, PartialEq, Eq, Structural)]
pub enum FVWeight {
    Thin,
    ExtraLight,
    Light,
    Normal,
    Medium,
    Semibold,
    Bold,
    ExtraBold,
    Black,
}

/// The name under which a level is offered for choice.
pub open spec fn weight_name(weight: FVWeight) -> Seq<char> {
    match weight {
        FVWeight::Thin => "Thin"@,
        FVWeight::ExtraLight => "ExtraLight"@,
        FVWeight::Light => "Light"@,
        FVWeight::Normal => "Normal"@,
        FVWeight::Medium => "Medium"@,
        FVWeight::Semibold => "Semibold"@,
        FVWeight::Bold => "Bold"@,
        FVWeight::ExtraBold => "ExtraBold"@,
        FVWeight::Black => "Black"@,
    }
}

/// The level that stands for a weight of the toolkit: the one of the same
/// name.
pub open spec fn level_of(weight: iced::font::Weight) -> FVWeight {
    match weight {
        iced::font::Weight::Thin => FVWeight::Thin,
        iced::font::Weight::ExtraLight => FVWeight::ExtraLight,
        iced::font::Weight::Light => FVWeight::Light,
        iced::font::Weight::Normal => FVWeight::Normal,
        iced::font::Weight::Medium => FVWeight::Medium,
        iced::font::Weight::Semibold => FVWeight::Semibold,
        iced::font::Weight::Bold => FVWeight::Bold,
        iced::font::Weight::ExtraBold => FVWeight::ExtraBold,
        iced::font::Weight::Black => FVWeight::Black,
    }
}

/// The weight of the toolkit that a level stands for: the one of the same
/// name.
pub open spec fn weight_of(level: FVWeight) -> iced::font::Weight {
    match level {
        FVWeight::Thin => iced::font::Weight::Thin,
        FVWeight::ExtraLight => iced::font::Weight::ExtraLight,
        FVWeight::Light => iced::font::Weight::Light,
        FVWeight::Normal => iced::font::Weight::Normal,
        FVWeight::Medium => iced::font::Weight::Medium,
        FVWeight::Semibold => iced::font::Weight::Semibold,
        FVWeight::Bold => iced::font::Weight::Bold,
        FVWeight::ExtraBold => iced::font::Weight::ExtraBold,
        FVWeight::Black => iced::font::Weight::Black,
    }
}

/// Levels and weights correspond one to one: going to the other side and
/// back gives what one started with.
pub proof fn lemma_weight_round_trip(level: FVWeight, weight: iced::font::Weight)
    ensures
        level_of(weight_of(level)) == level,
        weight_of(level_of(weight)) == weight,
{
}

impl Default for FVWeight {
    /// The level of the toolkit's default weight, which is the ordinary one.
    fn default() -> (level: Self)
        ensures
            level == FVWeight::Normal,
    {
        FVWeight::from(iced::font::Weight::default())
    }
}

impl From<iced::font::Weight> for FVWeight {
    fn from(value: iced::font::Weight) -> (level: FVWeight) {
        match value {
            iced::font::Weight::Thin => FVWeight::Thin,
            iced::font::Weight::ExtraLight => FVWeight::ExtraLight,
            iced::font::Weight::Light => FVWeight::Light,
            iced::font::Weight::Normal => FVWeight::Normal,
            iced::font::Weight::Medium => FVWeight::Medium,
            iced::font::Weight::Semibold => FVWeight::Semibold,
            iced::font::Weight::Bold => FVWeight::Bold,
            iced::font::Weight::ExtraBold => FVWeight::ExtraBold,
            iced::font::Weight::Black => FVWeight::Black,
        }
    }
}

impl vstd::std_specs::convert::FromSpecImpl<iced::font::Weight> for FVWeight {
    open spec fn obeys_from_spec() -> bool {
        true
    }

    open spec fn from_spec(value: iced::font::Weight) -> FVWeight {
        level_of(value)
    }
}

impl From<FVWeight> for iced::font::Weight {
    fn from(value: FVWeight) -> (weight: iced::font::Weight) {
        match value {
            FVWeight::Thin => iced::font::Weight::Thin,
            FVWeight::ExtraLight => iced::font::Weight::ExtraLight,
            FVWeight::Light => iced::font::Weight::Light,
            FVWeight::Normal => iced::font::Weight::Normal,
            FVWeight::Medium => iced::font::Weight::Medium,
            FVWeight::Semibold => iced::font::Weight::Semibold,
            FVWeight::Bold => iced::font::Weight::Bold,
            FVWeight::ExtraBold => iced::font::Weight::ExtraBold,
            FVWeight::Black => iced::font::Weight::Black,
        }
    }
}

impl vstd::std_specs::convert::FromSpecImpl<FVWeight> for iced::font::Weight {
    open spec fn obeys_from_spec() -> bool {
        true
    }

    open spec fn from_spec(value: FVWeight) -> iced::font::Weight {
        weight_of(value)
    }
}

impl FVWeight {
    /// The name under which this level is offered for choice.
    pub fn name(&self) -> (name: &'static str)
        ensures
            name@ == weight_name(*self),
    {
        match self {
            FVWeight::Thin => "Thin",
            FVWeight::ExtraLight => "ExtraLight",
            FVWeight::Light => "Light",
            FVWeight::Normal => "Normal",
            FVWeight::Medium => "Medium",
            FVWeight::Semibold => "Semibold",
            FVWeight::Bold => "Bold",
            FVWeight::ExtraBold => "ExtraBold",
            FVWeight::Black => "Black",
        }
    }
}

} // verus!

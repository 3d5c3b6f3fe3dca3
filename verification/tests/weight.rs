use font_viewer::weight::FVWeight;
use iced::font::Weight;

#[test]
fn default_weight_is_normal() {
    assert_eq!(FVWeight::default(), FVWeight::Normal);
}

#[test]
fn every_weight_has_its_name() {
    assert_eq!(FVWeight::Thin.name(), "Thin");
    assert_eq!(FVWeight::ExtraLight.name(), "ExtraLight");
    assert_eq!(FVWeight::Light.name(), "Light");
    assert_eq!(FVWeight::Normal.name(), "Normal");
    assert_eq!(FVWeight::Medium.name(), "Medium");
    assert_eq!(FVWeight::Semibold.name(), "Semibold");
    assert_eq!(FVWeight::Bold.name(), "Bold");
    assert_eq!(FVWeight::ExtraBold.name(), "ExtraBold");
    assert_eq!(FVWeight::Black.name(), "Black");
}

const PAIRS: [(FVWeight, Weight); 9] = [
    (FVWeight::Thin, Weight::Thin),
    (FVWeight::ExtraLight, Weight::ExtraLight),
    (FVWeight::Light, Weight::Light),
    (FVWeight::Normal, Weight::Normal),
    (FVWeight::Medium, Weight::Medium),
    (FVWeight::Semibold, Weight::Semibold),
    (FVWeight::Bold, Weight::Bold),
    (FVWeight::ExtraBold, Weight::ExtraBold),
    (FVWeight::Black, Weight::Black),
];

#[test]
fn default_weight_is_that_of_the_toolkit() {
    assert_eq!(FVWeight::default(), FVWeight::from(Weight::default()));
}

#[test]
fn every_weight_of_the_toolkit_has_its_level() {
    for (level, weight) in PAIRS {
        assert_eq!(FVWeight::from(weight), level);
    }
}

#[test]
fn every_level_has_its_weight_of_the_toolkit() {
    for (level, weight) in PAIRS {
        assert_eq!(Weight::from(level), weight);
    }
}

#[test]
fn levels_and_weights_go_there_and_back() {
    for (level, weight) in PAIRS {
        assert_eq!(FVWeight::from(Weight::from(level)), level);
        assert_eq!(Weight::from(FVWeight::from(weight)), weight);
    }
}

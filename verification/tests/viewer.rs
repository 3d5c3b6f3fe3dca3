use font_viewer::viewer::{FontViewer, Message};
use font_viewer::weight::FVWeight;

fn families(list: &[&str]) -> Vec<String> {
    list.iter().map(|name| name.to_string()).collect()
}

fn run(viewer: &mut FontViewer<'_, f32>, message: Message<f32>) {
    let mut due = Some(message);
    while let Some(message) = due {
        due = viewer.update(message);
    }
}

#[test]
fn new_viewer_starts_with_the_sample_and_no_rows() {
    let registry = families(&["Arial", "Calibri", "Courier"]);
    let (viewer, due) = FontViewer::new(&registry, 12f32);
    assert_eq!(due, Some(Message::UpdateShownFontFamily));
    assert_eq!(viewer.text(), "ABC123");
    assert_eq!(viewer.weight(), FVWeight::Normal);
    assert_eq!(*viewer.text_size(), 12f32);
    assert_eq!(viewer.font_family_filter(), "");
    assert_eq!(viewer.font_families(), &registry);
    assert!(viewer.pinned().indices().is_empty());
    assert!(viewer.font_family_filter_pattern().is_empty());
    assert!(!viewer.hide_unpin());
    assert!(viewer.shown_family().is_empty());
}

#[test]
fn first_update_shows_every_family() {
    let registry = families(&["Arial", "Calibri", "Courier"]);
    let (mut viewer, due) = FontViewer::new(&registry, 12f32);
    assert_eq!(viewer.update(due.unwrap()), None);
    assert_eq!(viewer.shown_family(), &vec![0, 1, 2]);
}

#[test]
fn text_weight_and_size_are_stored_without_follow_up() {
    let registry = families(&["Arial"]);
    let (mut viewer, _) = FontViewer::new(&registry, 12f32);
    assert_eq!(viewer.update(Message::TextChanged("Hamburgefonts".to_string())), None);
    assert_eq!(viewer.update(Message::WeightChanged(FVWeight::ExtraBold)), None);
    assert_eq!(viewer.update(Message::TextSizeChanged(37.5f32)), None);
    assert_eq!(viewer.text(), "Hamburgefonts");
    assert_eq!(viewer.weight(), FVWeight::ExtraBold);
    assert_eq!(*viewer.text_size(), 37.5f32);
    assert!(viewer.shown_family().is_empty());
}

#[test]
fn filter_change_compiles_the_filter_and_asks_for_the_rows() {
    let registry = families(&["Arial", "Courier", "Helvetica"]);
    let (mut viewer, _) = FontViewer::new(&registry, 12f32);
    let due = viewer.update(Message::FontFamilyFilterChanged("Aria|Cour".to_string()));
    assert_eq!(due, Some(Message::UpdateShownFontFamily));
    assert_eq!(viewer.font_family_filter(), "Aria|Cour");
    assert_eq!(viewer.font_family_filter_pattern(), &families(&["Aria", "Cour"]));
    assert!(viewer.shown_family().is_empty());
    assert_eq!(viewer.update(due.unwrap()), None);
    assert_eq!(viewer.shown_family(), &vec![0, 1]);
}

#[test]
fn pin_flips_membership_and_asks_for_the_rows() {
    let registry = families(&["Arial", "Courier", "Helvetica"]);
    let (mut viewer, _) = FontViewer::new(&registry, 12f32);
    assert_eq!(viewer.update(Message::Pin(2)), Some(Message::UpdateShownFontFamily));
    assert_eq!(viewer.update(Message::Pin(0)), Some(Message::UpdateShownFontFamily));
    assert_eq!(viewer.pinned().indices(), &vec![0, 2]);
    assert_eq!(viewer.update(Message::Pin(2)), Some(Message::UpdateShownFontFamily));
    assert_eq!(viewer.pinned().indices(), &vec![0]);
}

#[test]
fn hide_unpin_sets_the_mode_and_asks_for_the_rows() {
    let registry = families(&["Arial"]);
    let (mut viewer, _) = FontViewer::new(&registry, 12f32);
    assert_eq!(viewer.update(Message::HideUnpin(true)), Some(Message::UpdateShownFontFamily));
    assert!(viewer.hide_unpin());
    assert_eq!(viewer.update(Message::HideUnpin(false)), Some(Message::UpdateShownFontFamily));
    assert!(!viewer.hide_unpin());
}

#[test]
fn compile_font_family_filter_splits_the_current_filter() {
    let registry = families(&["Arial"]);
    let (mut viewer, _) = FontViewer::new(&registry, 12f32);
    viewer.compile_font_family_filter();
    assert_eq!(viewer.font_family_filter_pattern(), &families(&[""]));
    assert!(viewer.is_target_font_family(&"Arial".to_string()));
}

#[test]
fn is_target_font_family_goes_by_the_alternatives() {
    let registry = families(&["Arial", "Courier", "Helvetica"]);
    let (mut viewer, _) = FontViewer::new(&registry, 12f32);
    assert!(viewer.is_target_font_family(&"Helvetica".to_string()));
    run(&mut viewer, Message::FontFamilyFilterChanged("Aria|Cour".to_string()));
    assert!(viewer.is_target_font_family(&"Arial".to_string()));
    assert!(viewer.is_target_font_family(&"Courier".to_string()));
    assert!(!viewer.is_target_font_family(&"Helvetica".to_string()));
}

#[test]
fn filter_restricts_rows_regardless_of_pins() {
    let registry = families(&["Arial", "Calibri", "Courier"]);
    let (mut viewer, due) = FontViewer::new(&registry, 12f32);
    run(&mut viewer, due.unwrap());
    run(&mut viewer, Message::Pin(0));
    run(&mut viewer, Message::FontFamilyFilterChanged("Cal".to_string()));
    assert_eq!(viewer.shown_family(), &vec![1]);
}

#[test]
fn hiding_unpinned_shows_the_pinned_in_ascending_order() {
    let registry = families(&["Arial", "Calibri", "Courier"]);
    let (mut viewer, due) = FontViewer::new(&registry, 12f32);
    run(&mut viewer, due.unwrap());
    run(&mut viewer, Message::Pin(2));
    run(&mut viewer, Message::Pin(0));
    run(&mut viewer, Message::HideUnpin(true));
    assert_eq!(viewer.shown_family(), &vec![0, 2]);
}

#[test]
fn hiding_unpinned_with_nothing_pinned_shows_nothing() {
    let registry = families(&["Arial", "Calibri", "Courier"]);
    let (mut viewer, due) = FontViewer::new(&registry, 12f32);
    run(&mut viewer, due.unwrap());
    run(&mut viewer, Message::HideUnpin(true));
    assert!(viewer.shown_family().is_empty());
    run(&mut viewer, Message::FontFamilyFilterChanged("Cal".to_string()));
    assert!(viewer.shown_family().is_empty());
}

#[test]
fn pinning_twice_changes_neither_pins_nor_rows() {
    let registry = families(&["Arial", "Calibri", "Courier"]);
    let (mut viewer, due) = FontViewer::new(&registry, 12f32);
    run(&mut viewer, due.unwrap());
    run(&mut viewer, Message::FontFamilyFilterChanged("C".to_string()));
    run(&mut viewer, Message::Pin(1));
    let pins = viewer.pinned().indices().clone();
    let rows = viewer.shown_family().clone();
    run(&mut viewer, Message::Pin(2));
    assert_eq!(viewer.shown_family(), &rows);
    run(&mut viewer, Message::Pin(2));
    assert_eq!(viewer.pinned().indices(), &pins);
    assert_eq!(viewer.shown_family(), &rows);
}

#[test]
fn rows_wait_for_the_update_message() {
    let registry = families(&["Arial", "Calibri", "Courier"]);
    let (mut viewer, due) = FontViewer::new(&registry, 12f32);
    run(&mut viewer, due.unwrap());
    let due = viewer.update(Message::HideUnpin(true));
    assert_eq!(viewer.shown_family(), &vec![0, 1, 2]);
    assert_eq!(viewer.update(due.unwrap()), None);
    assert!(viewer.shown_family().is_empty());
}

#[test]
fn every_row_is_a_position_of_the_registry() {
    let registry = families(&["Arial", "Calibri", "Courier"]);
    let (mut viewer, due) = FontViewer::new(&registry, 12f32);
    run(&mut viewer, due.unwrap());
    run(&mut viewer, Message::Pin(7));
    run(&mut viewer, Message::Pin(1));
    run(&mut viewer, Message::HideUnpin(true));
    assert_eq!(viewer.shown_family(), &vec![1]);
    for row in viewer.shown_family() {
        assert!(viewer.font_families().get(*row).is_some());
    }
}

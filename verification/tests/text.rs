use font_viewer::text::{chars_of, contains, precedes, split};

const SAMPLES: [&str; 14] = [
    "",
    "A",
    "Arial",
    "Arial Black",
    "Ari",
    "arial",
    "Zapf",
    "Zapf Dingbats",
    "courier",
    "Courier New",
    "\u{e9}cole",
    "ecole",
    "\u{65e5}\u{672c}\u{8a9e}",
    "\u{1f600}",
];

#[test]
fn chars_of_gives_every_character() {
    assert_eq!(chars_of(""), Vec::<char>::new());
    assert_eq!(chars_of("Ab|"), vec!['A', 'b', '|']);
    assert_eq!(chars_of("\u{e9}\u{65e5}"), vec!['\u{e9}', '\u{65e5}']);
}

#[test]
fn precedes_is_the_order_of_strings() {
    for a in SAMPLES {
        for b in SAMPLES {
            assert_eq!(precedes(a, b), a < b, "{:?} before {:?}", a, b);
        }
    }
}

#[test]
fn precedes_puts_a_prefix_first() {
    assert!(precedes("Ari", "Arial"));
    assert!(!precedes("Arial", "Ari"));
    assert!(!precedes("Arial", "Arial"));
    assert!(precedes("", "A"));
    assert!(!precedes("", ""));
}

#[test]
fn precedes_puts_capitals_before_small_letters() {
    assert!(precedes("Zapf", "arial"));
    assert!(!precedes("arial", "Zapf"));
}

#[test]
fn contains_finds_what_std_finds() {
    for hay in SAMPLES {
        for needle in SAMPLES {
            assert_eq!(contains(hay, needle), hay.contains(needle), "{:?} in {:?}", needle, hay);
        }
    }
}

#[test]
fn contains_is_case_sensitive() {
    assert!(contains("Arial", "Aria"));
    assert!(contains("Arial", "rial"));
    assert!(contains("Arial", "Arial"));
    assert!(!contains("Arial", "aria"));
    assert!(!contains("Arial", "Arial "));
    assert!(!contains("Arial", "Aral"));
}

#[test]
fn contains_finds_the_empty_string_everywhere() {
    assert!(contains("", ""));
    assert!(contains("Arial", ""));
    assert!(!contains("", "A"));
}

#[test]
fn contains_finds_a_late_match_after_a_false_start() {
    assert!(contains("aaab", "aab"));
    assert!(contains("Courier New", " New"));
    assert!(!contains("aaab", "aba"));
}

fn std_split(raw: &str) -> Vec<String> {
    raw.split("|").map(|piece| piece.to_string()).collect()
}

#[test]
fn split_gives_what_std_gives() {
    let lines = [
        "", "|", "||", "a", "a|", "|a", "a|b", "a||b", "Aria|Cour", "a|b|c|", "\u{e9}|\u{65e5}",
    ];
    for raw in lines {
        assert_eq!(split(raw, '|'), std_split(raw), "{:?}", raw);
    }
}

#[test]
fn split_of_the_empty_string_is_one_empty_piece() {
    assert_eq!(split("", '|'), vec![String::new()]);
}

#[test]
fn split_keeps_empty_pieces() {
    assert_eq!(split("a||b", '|'), vec!["a".to_string(), String::new(), "b".to_string()]);
    assert_eq!(split("|", '|'), vec![String::new(), String::new()]);
    assert_eq!(split("Aria|", '|'), vec!["Aria".to_string(), String::new()]);
}

#[test]
fn split_without_a_separator_is_the_whole() {
    assert_eq!(split("Arial", '|'), vec!["Arial".to_string()]);
    assert_eq!(split("a|b", ','), vec!["a|b".to_string()]);
}

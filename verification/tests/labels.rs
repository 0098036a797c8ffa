use review_annotation::labels::{
    are_valid_types, configured_types, default_types, is_usable_type, normalized_types,
    offered_types, position_of, type_color, EditorSettings, StatusColors,
};

fn types() -> Vec<String> {
    default_types()
}

fn strings(labels: &[&str]) -> Vec<String> {
    labels.iter().map(|label| label.to_string()).collect()
}

#[test]
fn normalized_types_uppercases_and_drops_blanks() {
    let configured = vec![
        "blocker".to_string(),
        "  question ".to_string(),
        "".to_string(),
        "   ".to_string(),
    ];
    assert_eq!(
        normalized_types(&configured),
        vec!["BLOCKER".to_string(), "QUESTION".to_string()]
    );
}

#[test]
fn normalized_types_deduplicates() {
    let configured = vec![
        "issue".to_string(),
        "ISSUE ".to_string(),
        "note".to_string(),
    ];
    assert_eq!(
        normalized_types(&configured),
        vec!["ISSUE".to_string(), "NOTE".to_string()]
    );
}

#[test]
fn normalized_types_rejects_labels_that_break_the_marker() {
    let configured = vec![
        "two words".to_string(),
        "brack]et".to_string(),
        "good".to_string(),
    ];
    assert_eq!(normalized_types(&configured), vec!["GOOD".to_string()]);
}

#[test]
fn normalized_types_falls_back_to_defaults_when_empty() {
    assert_eq!(normalized_types(&[]), types());
    assert_eq!(normalized_types(&["  ".to_string()]).len(), 4);
}

#[test]
fn normalized_types_rejects_labels_that_collide_with_the_span_suffix() {
    let configured = vec!["a:+2".to_string(), "b+".to_string(), "good".to_string()];
    assert_eq!(normalized_types(&configured), vec!["GOOD".to_string()]);
}

#[test]
fn default_types_in_order() {
    assert_eq!(
        default_types(),
        strings(&["ISSUE", "SUGGESTION", "NOTE", "PRAISE"])
    );
}

#[test]
fn normalized_types_maps_letters_beyond_ascii() {
    // The sharp s has no single upper case letter; an accented letter is no label character.
    assert_eq!(normalized_types(&strings(&["stra\u{df}e"])), strings(&["STRASSE"]));
    assert_eq!(
        normalized_types(&strings(&["\u{e9}tude", "ok"])),
        strings(&["OK"])
    );
}

#[test]
fn normalizing_the_normalized_types_changes_nothing() {
    let once = normalized_types(&strings(&[" todo", "q-1", "TODO", "a b", "x_y"]));
    assert_eq!(once, strings(&["TODO", "Q-1", "X_Y"]));
    assert_eq!(normalized_types(&once), once);
}

#[test]
fn offered_types_takes_labels_as_they_are() {
    assert_eq!(
        offered_types(&strings(&["A", "b", "A", "", "C9"])),
        strings(&["A", "C9"])
    );
    assert_eq!(offered_types(&strings(&["a"])), default_types());
}

#[test]
fn configured_types_read_the_setting() {
    let settings = EditorSettings {
        review_annotation_types: strings(&["risk", "idea"]),
    };
    assert_eq!(configured_types(&settings), strings(&["RISK", "IDEA"]));
}

#[test]
fn usable_types_hold_label_characters_only() {
    assert!(is_usable_type("A-Z_09"));
    assert!(!is_usable_type(""));
    assert!(!is_usable_type("a"));
    assert!(!is_usable_type("A B"));
    assert!(!is_usable_type("A]"));
    assert!(!is_usable_type("A:"));
    assert!(!is_usable_type("A+"));
    assert!(!is_usable_type("\u{c9}"));
}

#[test]
fn a_valid_list_of_types_is_usable_and_distinct() {
    assert!(are_valid_types(&default_types()));
    assert!(are_valid_types(&strings(&["A"])));
    assert!(!are_valid_types(&[]));
    assert!(!are_valid_types(&strings(&["A", "b"])));
    assert!(!are_valid_types(&strings(&["A", "B", "A"])));
}

#[test]
fn position_of_finds_the_first() {
    let list = strings(&["A", "B", "A"]);
    assert_eq!(position_of(&list, "A"), Some(0));
    assert_eq!(position_of(&list, "B"), Some(1));
    assert_eq!(position_of(&list, "C"), None);
}

#[test]
fn each_type_has_its_color() {
    let status = StatusColors {
        hint: 1.0f32,
        info: 2.0f32,
        error: 3.0f32,
        success: 4.0f32,
    };
    assert_eq!(type_color("NOTE", &status), 1.0);
    assert_eq!(type_color("SUGGESTION", &status), 2.0);
    assert_eq!(type_color("ISSUE", &status), 3.0);
    assert_eq!(type_color("PRAISE", &status), 4.0);
    assert_eq!(type_color("OTHER", &status), 2.0);
    assert_eq!(type_color("note", &status), 2.0);
}

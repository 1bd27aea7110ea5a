use transcript_export::scroll::{periodic, scroll_distance};

fn rows(texts: &[&str]) -> Vec<String> {
    texts.iter().map(|text| text.to_string()).collect()
}

#[test]
fn a_single_overlap_is_the_distance() {
    let older = rows(&["a", "b", "c", "d"]);
    let newer = rows(&["c", "d", "e", "f"]);
    assert_eq!(scroll_distance(&older, &newer, 3), Some(2));
    assert_eq!(scroll_distance(&older, &newer, 2), Some(2));
    assert_eq!(scroll_distance(&older, &newer, 1), None);
    assert_eq!(scroll_distance(&newer, &older, 3), None);
}

#[test]
fn two_overlaps_are_no_distance() {
    let older = rows(&["a", "x", "x", "x"]);
    let newer = rows(&["x", "x", "x", "x"]);
    assert_eq!(scroll_distance(&older, &newer, 3), None);
    assert_eq!(scroll_distance(&older, &newer, 1), Some(1));
}

#[test]
fn the_same_view_has_no_distance() {
    let view = rows(&["a", "b", "c"]);
    assert_eq!(scroll_distance(&view, &view, 2), None);
    assert_eq!(scroll_distance(&view, &view, 0), None);
}

#[test]
fn views_of_other_heights_have_no_distance() {
    let older = rows(&["a", "b", "c"]);
    let newer = rows(&["b", "c"]);
    assert_eq!(scroll_distance(&older, &newer, 2), None);
    assert_eq!(scroll_distance(&[], &newer, 2), None);
}

#[test]
fn repeated_rows_are_periodic() {
    assert!(periodic(&rows(&["a", "a", "a"]), 1));
    assert!(!periodic(&rows(&["a", "b", "a", "b"]), 1));
    assert!(periodic(&rows(&["a", "b", "a", "b"]), 2));
    assert!(!periodic(&rows(&["a", "b", "c", "d"]), 3));
    assert!(periodic(&rows(&["a", "b", "c", "a"]), 3));
    assert!(!periodic(&rows(&["a"]), 5));
    assert!(!periodic(&[], 5));
    assert!(!periodic(&rows(&["a", "a"]), 0));
}

use photo_gallery::mode::{mode_index, mode_of};

fn column(values: &[Option<&str>]) -> Vec<Option<String>> {
    values.iter().map(|v| v.map(|s| s.to_string())).collect()
}

#[test]
fn the_most_frequent_value_is_the_mode() {
    let values = column(&[Some("A"), Some("A"), Some("B")]);
    assert_eq!(mode_of(&values), Some("A".to_string()));
    let values = column(&[Some("B"), Some("A"), Some("A")]);
    assert_eq!(mode_of(&values), Some("A".to_string()));
    assert_eq!(mode_index(&values), Some(1));
}

#[test]
fn a_column_without_values_has_no_mode() {
    assert_eq!(mode_of(&column(&[None, None, None])), None);
    assert_eq!(mode_of(&column(&[])), None);
    assert_eq!(mode_index(&column(&[None])), None);
}

#[test]
fn absent_values_do_not_count() {
    let values = column(&[None, None, None, Some("X"), None]);
    assert_eq!(mode_of(&values), Some("X".to_string()));
    assert_eq!(mode_index(&values), Some(3));
}

#[test]
fn among_equals_the_first_met_wins() {
    let values = column(&[Some("B"), Some("A"), Some("A"), Some("B")]);
    assert_eq!(mode_of(&values), Some("B".to_string()));
    let values = column(&[Some("C"), Some("A"), Some("B")]);
    assert_eq!(mode_of(&values), Some("C".to_string()));
    let values = column(&[Some("A"), Some("B"), Some("B"), Some("A"), Some("C"), Some("B")]);
    assert_eq!(mode_of(&values), Some("B".to_string()));
    assert_eq!(mode_index(&values), Some(1));
}

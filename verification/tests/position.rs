use wepu::position::Positions;

#[test]
fn a_new_store_has_no_positions() {
    let positions = Positions::new();
    assert_eq!(positions.get(0), None);
    assert_eq!(positions.get(2), None);
}

#[test]
fn a_block_past_the_top_is_recorded() {
    let mut positions = Positions::new();
    positions.record(2, 5);
    assert_eq!(positions.get(2), Some(5));
    positions.record(2, 1);
    assert_eq!(positions.get(2), Some(1));
    positions.record(3, 9);
    assert_eq!(positions.get(2), Some(1));
    assert_eq!(positions.get(3), Some(9));
}

#[test]
fn the_top_of_a_page_removes_its_entry() {
    let mut positions = Positions::new();
    assert_eq!(positions.on_first_visible_changed(2, 5, false), None);
    assert_eq!(positions.on_first_visible_changed(4, 1, false), None);
    assert_eq!(positions.get(2), Some(5));
    positions.on_first_visible_changed(2, 0, false);
    assert_eq!(positions.get(2), None);
    assert_eq!(positions.get(4), Some(1));
    positions.on_first_visible_changed(3, 0, false);
    assert_eq!(positions.get(3), None);
}

#[test]
fn a_changed_position_is_handed_out_for_keeping() {
    let mut positions = Positions::new();
    assert_eq!(positions.on_first_visible_changed(2, 5, true), Some("2:5".to_string()));
    assert_eq!(positions.get(2), Some(5));
    assert_eq!(positions.on_first_visible_changed(2, 0, true), Some("2:0".to_string()));
    assert_eq!(positions.get(2), None);
}

#[test]
fn nothing_is_handed_out_when_keeping_is_off() {
    let mut positions = Positions::new();
    assert_eq!(positions.on_first_visible_changed(2, 5, false), None);
    assert_eq!(positions.get(2), Some(5));
}

#[test]
fn a_kept_position_is_taken_up_when_the_document_is_opened_again() {
    let mut positions = Positions::new();
    let kept = positions.on_first_visible_changed(2, 5, true);
    assert_eq!(kept.as_deref(), Some("2:5"));

    let mut reopened = Positions::new();
    assert_eq!(reopened.on_document_opened(kept.as_deref(), 10, true), 2);
    assert_eq!(reopened.get(2), Some(5));
    for page in [0, 1, 3, 5] {
        assert_eq!(reopened.get(page), None);
    }
}

#[test]
fn opening_replaces_what_was_recorded_before() {
    let mut positions = Positions::new();
    positions.record(1, 4);
    assert_eq!(positions.on_document_opened(Some("3:8"), 5, true), 3);
    assert_eq!(positions.get(1), None);
    assert_eq!(positions.get(3), Some(8));
}

#[test]
fn missing_and_malformed_records_open_at_the_first_page() {
    for record in [None, Some(""), Some("2"), Some("2:"), Some(":5"), Some("x:y"), Some("2:5:7"), Some("99999999999999999999999:1")] {
        let mut positions = Positions::new();
        positions.record(1, 4);
        assert_eq!(positions.on_document_opened(record, 10, true), 0);
        assert_eq!(positions.get(1), None);
        assert_eq!(positions.get(2), None);
    }
}

#[test]
fn a_record_of_a_page_outside_the_document_is_ignored() {
    let mut positions = Positions::new();
    assert_eq!(positions.on_document_opened(Some("5:3"), 5, true), 0);
    assert_eq!(positions.get(5), None);
    assert_eq!(positions.on_document_opened(Some("4:3"), 5, true), 4);
    assert_eq!(positions.get(4), Some(3));
    assert_eq!(positions.on_document_opened(Some("0:3"), 0, true), 0);
    assert_eq!(positions.get(0), None);
}

#[test]
fn a_record_is_ignored_when_keeping_is_off() {
    let mut positions = Positions::new();
    assert_eq!(positions.on_document_opened(Some("2:5"), 10, false), 0);
    assert_eq!(positions.get(2), None);
}

#[test]
fn a_record_of_the_top_of_a_page_opens_the_page_without_an_entry() {
    let mut positions = Positions::new();
    assert_eq!(positions.on_document_opened(Some("2:0"), 10, true), 2);
    assert_eq!(positions.get(2), None);
}

#[test]
fn closing_the_document_forgets_every_position() {
    let mut positions = Positions::new();
    positions.record(1, 4);
    positions.record(2, 6);
    positions.on_document_closed();
    assert_eq!(positions.get(1), None);
    assert_eq!(positions.get(2), None);
}

use hackernews_tui::focus::{EventResult, FocusIndex};

#[test]
fn new_focus_starts_on_first_row() {
    let f = FocusIndex::new(4);
    assert_eq!(f.current(), 0);
    assert_eq!(f.length(), 4);
}

#[test]
fn focus_at_rejects_row_past_the_end() {
    assert_eq!(FocusIndex::at(2, 5), Some(FocusIndex { current: 2, length: 5 }));
    assert_eq!(FocusIndex::at(5, 5), None);
    assert_eq!(FocusIndex::at(0, 0), None);
}

#[test]
fn focus_up_moves_one_row() {
    let mut f = FocusIndex::at(3, 5).unwrap();
    assert_eq!(f.move_up(), EventResult::Consumed);
    assert_eq!(f, FocusIndex { current: 2, length: 5 });
}

#[test]
fn focus_up_on_first_row_is_ignored() {
    let mut f = FocusIndex::new(5);
    assert_eq!(f.move_up(), EventResult::Ignored);
    assert_eq!(f, FocusIndex { current: 0, length: 5 });
}

#[test]
fn focus_down_moves_one_row() {
    let mut f = FocusIndex::at(3, 5).unwrap();
    assert_eq!(f.move_down(), EventResult::Consumed);
    assert_eq!(f, FocusIndex { current: 4, length: 5 });
}

#[test]
fn focus_down_on_last_row_is_ignored() {
    let mut f = FocusIndex::at(4, 5).unwrap();
    assert_eq!(f.move_down(), EventResult::Ignored);
    assert_eq!(f, FocusIndex { current: 4, length: 5 });
}

#[test]
fn focus_up_repeated_length_times_lands_on_first_and_stays() {
    for start in 0..7 {
        let mut f = FocusIndex::at(start, 7).unwrap();
        for _ in 0..7 {
            f.move_up();
        }
        assert_eq!(f, FocusIndex { current: 0, length: 7 });
        assert_eq!(f.move_up(), EventResult::Ignored);
        assert_eq!(f, FocusIndex { current: 0, length: 7 });
    }
}

#[test]
fn focus_down_repeated_length_times_lands_on_last_and_stays() {
    for start in 0..7 {
        let mut f = FocusIndex::at(start, 7).unwrap();
        for _ in 0..7 {
            f.move_down();
        }
        assert_eq!(f, FocusIndex { current: 6, length: 7 });
        assert_eq!(f.move_down(), EventResult::Ignored);
        assert_eq!(f, FocusIndex { current: 6, length: 7 });
    }
}

#[test]
fn focus_on_empty_sequence_ignores_both_keys() {
    let mut f = FocusIndex::new(0);
    assert_eq!(f.move_up(), EventResult::Ignored);
    assert_eq!(f.move_down(), EventResult::Ignored);
    assert_eq!(f, FocusIndex { current: 0, length: 0 });
}

#[test]
fn focus_on_single_row_ignores_both_keys() {
    let mut f = FocusIndex::new(1);
    assert_eq!(f.move_up(), EventResult::Ignored);
    assert_eq!(f.move_down(), EventResult::Ignored);
    assert_eq!(f, FocusIndex { current: 0, length: 1 });
}

#[test]
fn resize_keeps_focus_that_still_has_a_row() {
    let mut f = FocusIndex::at(2, 5).unwrap();
    f.resize(3);
    assert_eq!(f, FocusIndex { current: 2, length: 3 });
    f.resize(9);
    assert_eq!(f, FocusIndex { current: 2, length: 9 });
}

#[test]
fn resize_pulls_focus_back_onto_last_row() {
    let mut f = FocusIndex::at(4, 5).unwrap();
    f.resize(2);
    assert_eq!(f, FocusIndex { current: 1, length: 2 });
}

#[test]
fn resize_to_empty_resets_focus() {
    let mut f = FocusIndex::at(4, 5).unwrap();
    f.resize(0);
    assert_eq!(f, FocusIndex { current: 0, length: 0 });
}

#[test]
fn focus_down_at_largest_length_does_not_overflow() {
    let mut f = FocusIndex::at(usize::MAX - 1, usize::MAX).unwrap();
    assert_eq!(f.move_down(), EventResult::Ignored);
    assert_eq!(f.current(), usize::MAX - 1);
}

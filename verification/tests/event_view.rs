use cursive::views::{Button, LinearLayout, TextView};
use hackernews_tui::focus::{EventResult, FocusIndex};
use hackernews_tui::view::event_view::{
    construct_event_view, focus_change_result, index_after, index_before, Event, ListEventView,
};

struct Plain {
    touched: bool,
}

impl ListEventView for Plain {}

fn three_buttons() -> LinearLayout {
    LinearLayout::vertical()
        .child(Button::new("one", |_| {}))
        .child(Button::new("two", |_| {}))
        .child(Button::new("three", |_| {}))
}

#[test]
fn provided_methods_do_not_handle_the_key() {
    let mut view = Plain { touched: false };
    assert_eq!(view.focus_up(), None);
    assert_eq!(view.focus_down(), None);
    assert!(!view.touched);
}

#[test]
fn event_view_passes_unhandled_keys_of_a_plain_view() {
    let mut view = construct_event_view(Plain { touched: false });
    assert_eq!(view.on_event(Event::Char('k')), None);
    assert_eq!(view.on_event(Event::Char('j')), None);
    assert_eq!(view.on_event(Event::Enter), None);
    assert!(!view.get_inner().touched);
}

#[test]
fn focus_index_as_list_view() {
    let mut f = FocusIndex::at(1, 3).unwrap();
    assert_eq!(ListEventView::focus_up(&mut f), Some(EventResult::Consumed));
    assert_eq!(f.current(), 0);
    assert_eq!(ListEventView::focus_up(&mut f), Some(EventResult::Ignored));
    assert_eq!(ListEventView::focus_down(&mut f), Some(EventResult::Consumed));
    assert_eq!(ListEventView::focus_down(&mut f), Some(EventResult::Consumed));
    assert_eq!(ListEventView::focus_down(&mut f), Some(EventResult::Ignored));
    assert_eq!(f.current(), 2);
}

#[test]
fn event_view_moves_focus_on_j_and_k() {
    let mut view = construct_event_view(FocusIndex::new(3));
    assert_eq!(view.on_event(Event::Char('j')), Some(EventResult::Consumed));
    assert_eq!(view.get_inner().current(), 1);
    assert_eq!(view.on_event(Event::Char('k')), Some(EventResult::Consumed));
    assert_eq!(view.get_inner().current(), 0);
    assert_eq!(view.on_event(Event::Char('k')), Some(EventResult::Ignored));
    assert_eq!(view.get_inner().current(), 0);
}

#[test]
fn event_view_leaves_other_keys_alone() {
    let mut view = construct_event_view(FocusIndex::at(1, 3).unwrap());
    assert_eq!(view.on_event(Event::Char('x')), None);
    assert_eq!(view.on_event(Event::Char('J')), None);
    assert_eq!(view.on_event(Event::Enter), None);
    assert_eq!(view.on_event(Event::Other), None);
    assert_eq!(view.into_inner(), FocusIndex { current: 1, length: 3 });
}

#[test]
fn focus_change_result_maps_acceptance() {
    assert_eq!(focus_change_result(true), Some(EventResult::Consumed));
    assert_eq!(focus_change_result(false), Some(EventResult::Ignored));
}

#[test]
fn layout_focus_moves_down_and_up() {
    let mut layout = three_buttons();
    assert_eq!(layout.get_focus_index(), 0);
    assert_eq!(layout.focus_down(), Some(EventResult::Consumed));
    assert_eq!(layout.get_focus_index(), 1);
    assert_eq!(layout.focus_down(), Some(EventResult::Consumed));
    assert_eq!(layout.get_focus_index(), 2);
    assert_eq!(layout.focus_up(), Some(EventResult::Consumed));
    assert_eq!(layout.get_focus_index(), 1);
    assert_eq!(layout.len(), 3);
}

#[test]
fn layout_focus_stops_at_both_ends() {
    let mut layout = three_buttons();
    assert_eq!(layout.focus_up(), Some(EventResult::Ignored));
    assert_eq!(layout.get_focus_index(), 0);
    layout.focus_down();
    layout.focus_down();
    assert_eq!(layout.focus_down(), Some(EventResult::Ignored));
    assert_eq!(layout.get_focus_index(), 2);
}

#[test]
fn layout_focus_repeated_lands_on_ends() {
    let mut layout = three_buttons();
    for _ in 0..3 {
        layout.focus_down();
    }
    assert_eq!(layout.get_focus_index(), 2);
    for _ in 0..3 {
        layout.focus_up();
    }
    assert_eq!(layout.get_focus_index(), 0);
}

#[test]
fn empty_layout_ignores_both_keys() {
    let mut layout = LinearLayout::vertical();
    assert_eq!(layout.focus_up(), Some(EventResult::Ignored));
    assert_eq!(layout.focus_down(), Some(EventResult::Ignored));
    assert_eq!(layout.get_focus_index(), 0);
}

#[test]
fn layout_ignores_key_when_child_refuses_focus() {
    let mut layout = LinearLayout::vertical()
        .child(Button::new("one", |_| {}))
        .child(TextView::new("plain text"));
    assert_eq!(layout.focus_down(), Some(EventResult::Ignored));
    assert_eq!(layout.get_focus_index(), 0);
}

#[test]
fn event_view_over_layout() {
    let mut view = construct_event_view(three_buttons());
    assert_eq!(view.on_event(Event::Char('j')), Some(EventResult::Consumed));
    assert_eq!(view.get_inner().get_focus_index(), 1);
    assert_eq!(view.on_event(Event::Char('k')), Some(EventResult::Consumed));
    assert_eq!(view.on_event(Event::Char('k')), Some(EventResult::Ignored));
    assert_eq!(view.get_inner().get_focus_index(), 0);
}

#[test]
fn step_up_asks_for_the_child_before() {
    assert_eq!(index_before(0), None);
    assert_eq!(index_before(1), Some(0));
    assert_eq!(index_before(7), Some(6));
    assert_eq!(index_before(usize::MAX), Some(usize::MAX - 1));
}

#[test]
fn step_down_asks_for_the_child_after() {
    assert_eq!(index_after(0, 0), None);
    assert_eq!(index_after(0, 1), None);
    assert_eq!(index_after(0, 2), Some(1));
    assert_eq!(index_after(1, 3), Some(2));
    assert_eq!(index_after(2, 3), None);
    assert_eq!(index_after(5, 3), None);
    assert_eq!(index_after(usize::MAX, usize::MAX), None);
    assert_eq!(index_after(usize::MAX - 1, usize::MAX), None);
    assert_eq!(index_after(usize::MAX - 2, usize::MAX), Some(usize::MAX - 1));
}

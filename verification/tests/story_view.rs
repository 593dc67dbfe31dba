use hackernews_tui::focus::{EventResult, FocusIndex};
use hackernews_tui::hn_client::Story;
use hackernews_tui::view::event_view::Event;
use hackernews_tui::view::story_view::{
    build_story_row, get_story_view, story_view_on_event, url_opened, StoryAction, StoryView,
    StyledSpan, TextStyle,
};

fn story(id: u64, title: &str, url: Option<&str>) -> Story {
    Story {
        id,
        title: Some(title.to_string()),
        url: url.map(|u| u.to_string()),
        author: Some("bob".to_string()),
        points: 10,
        time: 0,
        num_comments: 3,
        comment_ids: vec![id * 10, id * 10 + 1],
    }
}

fn span(text: &str, style: TextStyle) -> StyledSpan {
    StyledSpan { text: text.to_string(), style }
}

#[test]
fn story_row_with_link() {
    let row = build_story_row(0, &story(1, "Hello", Some("https://example.com")), 7200);
    assert_eq!(
        row,
        vec![
            span("1. Hello", TextStyle::Plain),
            span("\n(https://example.com)", TextStyle::Link),
            span("\n10 points | by bob | 2 hours ago | 3 comments", TextStyle::Description),
        ]
    );
}

#[test]
fn story_row_without_link() {
    let row = build_story_row(11, &story(1, "Ask: why?", None), 59);
    assert_eq!(
        row,
        vec![
            span("12. Ask: why?", TextStyle::Plain),
            span("\n10 points | by bob | 0 minutes ago | 3 comments", TextStyle::Description),
        ]
    );
}

#[test]
fn story_row_of_placeholder_shows_deleted() {
    let row = build_story_row(2, &Story::placeholder(3), 86400);
    assert_eq!(
        row,
        vec![
            span("3. [deleted]", TextStyle::Plain),
            span("\n0 points | by [deleted] | 1 days ago | 0 comments", TextStyle::Description),
        ]
    );
}

#[test]
fn story_row_cuts_long_link() {
    let url = "https://www.example.com/a/very/long/path/that/goes/on/and/on/index.html?query=1";
    let row = build_story_row(0, &story(1, "Long", Some(url)), 0);
    assert_eq!(
        row[1],
        span(
            "\n(https://www.example.com/a/very/long/path/that/goes...x.html?query=1)",
            TextStyle::Link
        )
    );
}

#[test]
fn story_view_has_one_row_for_each_story() {
    let view = StoryView::new_at(
        vec![story(1, "a", None), story(2, "b", Some("http://b")), story(3, "c", None)],
        3600,
    );
    assert_eq!(view.focus(), FocusIndex { current: 0, length: 3 });
    assert_eq!(view.stories().len(), 3);
    assert_eq!(view.rows().len(), 3);
    assert_eq!(view.rows()[0][0], span("1. a", TextStyle::Plain));
    assert_eq!(view.rows()[1][0], span("2. b", TextStyle::Plain));
    assert_eq!(view.rows()[1][1], span("\n(http://b)", TextStyle::Link));
    assert_eq!(view.rows()[2][0], span("3. c", TextStyle::Plain));
    assert_eq!(
        view.rows()[2][1],
        span("\n10 points | by bob | 1 hours ago | 3 comments", TextStyle::Description)
    );
    assert_eq!(view.focused().map(|s| s.id), Some(1));
}

#[test]
fn story_view_by_the_clock_keeps_stories_and_rows() {
    let view = StoryView::new(vec![story(1, "a", None), story(2, "b", None)]);
    assert_eq!(view.focus(), FocusIndex { current: 0, length: 2 });
    assert_eq!(view.stories()[1].id, 2);
    assert_eq!(view.rows().len(), 2);
    assert_eq!(view.rows()[1][0], span("2. b", TextStyle::Plain));
}

#[test]
fn empty_story_view_has_no_focused_story() {
    let view = StoryView::new_at(vec![], 0);
    assert_eq!(view.focus(), FocusIndex { current: 0, length: 0 });
    assert!(view.focused().is_none());
    assert!(view.rows().is_empty());
}

#[test]
fn enter_opens_comments_of_focused_story() {
    let mut view = get_story_view(vec![story(7, "a", Some("http://a")), story(8, "b", None)]);
    assert_eq!(
        story_view_on_event(&mut view, Event::Enter),
        StoryAction::OpenComments { story_id: 7, story_url: Some("http://a".to_string()) }
    );
    assert_eq!(story_view_on_event(&mut view, Event::Char('j')), StoryAction::Key(Some(EventResult::Consumed)));
    assert_eq!(
        story_view_on_event(&mut view, Event::Enter),
        StoryAction::OpenComments { story_id: 8, story_url: None }
    );
    assert_eq!(view.get_inner().focus(), FocusIndex { current: 1, length: 2 });
}

#[test]
fn capital_o_opens_link_of_focused_story() {
    let mut view = get_story_view(vec![story(7, "a", Some("http://a")), story(8, "b", None)]);
    assert_eq!(
        story_view_on_event(&mut view, Event::Char('O')),
        StoryAction::OpenUrl { url: "http://a".to_string() }
    );
    story_view_on_event(&mut view, Event::Char('j'));
    assert_eq!(
        story_view_on_event(&mut view, Event::Char('O')),
        StoryAction::Key(Some(EventResult::Consumed))
    );
}

#[test]
fn q_quits() {
    let mut view = get_story_view(vec![story(7, "a", None)]);
    assert_eq!(story_view_on_event(&mut view, Event::Char('q')), StoryAction::Quit);
}

#[test]
fn j_and_k_move_focus_of_story_view() {
    let mut view = get_story_view(vec![story(1, "a", None), story(2, "b", None)]);
    assert_eq!(
        story_view_on_event(&mut view, Event::Char('k')),
        StoryAction::Key(Some(EventResult::Ignored))
    );
    assert_eq!(
        story_view_on_event(&mut view, Event::Char('j')),
        StoryAction::Key(Some(EventResult::Consumed))
    );
    assert_eq!(
        story_view_on_event(&mut view, Event::Char('j')),
        StoryAction::Key(Some(EventResult::Ignored))
    );
    assert_eq!(view.get_inner().focused().map(|s| s.id), Some(2));
}

#[test]
fn other_keys_are_not_handled_by_story_view() {
    let mut view = get_story_view(vec![story(1, "a", None)]);
    assert_eq!(story_view_on_event(&mut view, Event::Char('x')), StoryAction::Key(None));
    assert_eq!(story_view_on_event(&mut view, Event::Other), StoryAction::Key(None));
}

#[test]
fn empty_story_view_does_not_handle_enter_or_o() {
    let mut view = get_story_view(vec![]);
    assert_eq!(story_view_on_event(&mut view, Event::Enter), StoryAction::Key(None));
    assert_eq!(story_view_on_event(&mut view, Event::Char('O')), StoryAction::Key(None));
    assert_eq!(story_view_on_event(&mut view, Event::Char('q')), StoryAction::Quit);
}

#[test]
fn url_opened_consumes_on_success_only() {
    assert_eq!(url_opened(true), Some(EventResult::Consumed));
    assert_eq!(url_opened(false), None);
}

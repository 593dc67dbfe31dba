use hackernews_tui::engine::{Engine, StoryListRequest, CACHE_ROUNDS, LIST_CORRELATION};
use hackernews_tui::focus::FocusIndex;
use hackernews_tui::hn_client::{CommentRecord, FetchError, FetchErrorKind, Story};
use hackernews_tui::orchestrator::{FetchOutcome, StoryAnswer};

fn story(id: u64) -> Story {
    Story {
        id,
        title: Some(format!("story {}", id)),
        url: None,
        author: Some("alice".to_string()),
        points: 1,
        time: 2,
        num_comments: 0,
        comment_ids: vec![],
    }
}

fn record(id: u64, kids: Vec<u64>) -> Result<CommentRecord, FetchError> {
    Ok(CommentRecord {
        id,
        author: Some("a".to_string()),
        text: Some(format!("comment {}", id)),
        time: 1,
        kids,
    })
}

fn network_failure() -> FetchError {
    FetchError::new(FetchErrorKind::Network, "timeout")
}

#[test]
fn front_page_request() {
    let mut engine = Engine::new();
    assert_eq!(
        engine.load_front_page(),
        StoryListRequest { tag: "front_page".to_string(), by_date: false, page: 0 }
    );
    assert_eq!(engine.orchestrator().current(), Some(LIST_CORRELATION));
    assert!(engine.orchestrator().is_pending(LIST_CORRELATION));
    assert_eq!(CACHE_ROUNDS, 64);
}

#[test]
fn category_request_for_known_and_unknown_tag() {
    let mut engine = Engine::new();
    assert_eq!(
        engine.load_category("ask_hn", true, 3),
        Some(StoryListRequest { tag: "ask_hn".to_string(), by_date: true, page: 3 })
    );
    assert_eq!(engine.orchestrator().in_flight_count(), 1);
    assert_eq!(engine.load_category("polls", true, 3), None);
    assert_eq!(engine.orchestrator().in_flight_count(), 1);
}

#[test]
fn front_page_with_two_stories_and_one_missing() {
    let mut engine = Engine::new();
    engine.load_category("front_page", false, 0);
    let answers = vec![
        StoryAnswer { id: 1, result: Ok(story(1)) },
        StoryAnswer { id: 2, result: Ok(story(2)) },
        StoryAnswer { id: 3, result: Err(FetchError::new(FetchErrorKind::NotFound, "no item")) },
    ];
    match engine.story_list_loaded(Ok(answers)) {
        Some(FetchOutcome::Ready(view)) => {
            let list = view.get_inner();
            assert_eq!(list.stories().len(), 3);
            assert_eq!(list.stories()[0], story(1));
            assert_eq!(list.stories()[1], story(2));
            assert_eq!(list.stories()[2], Story::placeholder(3));
            assert!(list.stories()[2].is_deleted());
            assert_eq!(list.rows()[2][0].text, "3. [deleted]");
            assert_eq!(list.focus(), FocusIndex { current: 0, length: 3 });
        }
        other => panic!("the list was not shown: {:?}", other.is_some()),
    }
    assert!(!engine.orchestrator().is_pending(LIST_CORRELATION));
}

#[test]
fn failed_listing_gives_the_failure_for_the_banner() {
    let mut engine = Engine::new();
    engine.load_front_page();
    match engine.story_list_loaded(Err(network_failure())) {
        Some(FetchOutcome::Failed(kind, message)) => {
            assert_eq!(kind, FetchErrorKind::Network);
            assert_eq!(message, "timeout");
        }
        _ => panic!("the failure was not handed on"),
    }
}

#[test]
fn failed_story_fails_the_list() {
    let mut engine = Engine::new();
    engine.load_front_page();
    let answers = vec![
        StoryAnswer { id: 1, result: Ok(story(1)) },
        StoryAnswer { id: 2, result: Err(FetchError::new(FetchErrorKind::Decode, "bad")) },
    ];
    assert!(matches!(
        engine.story_list_loaded(Ok(answers)),
        Some(FetchOutcome::Failed(FetchErrorKind::Decode, _))
    ));
}

#[test]
fn story_list_that_nobody_waits_for_is_dropped() {
    let mut engine = Engine::new();
    assert!(engine.story_list_loaded(Ok(vec![])).is_none());
    engine.load_front_page();
    engine.open_story(7, None, &vec![]);
    assert!(engine.story_list_loaded(Ok(vec![])).is_none());
    assert_eq!(engine.orchestrator().in_flight_count(), 0);
}

#[test]
fn opening_a_story_asks_for_its_comments() {
    let mut engine = Engine::new();
    let (view, requests) = engine.open_story(7, None, &vec![10, 11, 10]);
    assert_eq!(requests, vec![10, 11]);
    assert_eq!(view.story_id(), 7);
    assert_eq!(view.story_url(), &None);
    assert_eq!(view.focus(), FocusIndex { current: 0, length: 3 });
    assert_eq!(view.rows().iter().map(|r| r.id).collect::<Vec<u64>>(), vec![10, 11, 10]);
    assert_eq!(engine.orchestrator().current(), Some(7));
    assert_eq!(engine.orchestrator().in_flight_count(), 2);
}

#[test]
fn comment_tree_with_one_failed_subtree() {
    let mut engine = Engine::new();
    let (mut view, requests) = engine.open_story(7, None, &vec![10, 11]);
    assert_eq!(requests, vec![10, 11]);
    assert_eq!(engine.comment_loaded(&mut view, 7, 10, record(10, vec![100, 101])), vec![100, 101]);
    assert_eq!(
        engine.comment_loaded(&mut view, 7, 11, Err(network_failure())),
        Vec::<u64>::new()
    );
    let roots = view.tree().roots();
    assert_eq!(roots.len(), 2);
    assert_eq!(roots[0].children.iter().map(|c| c.id).collect::<Vec<u64>>(), vec![100, 101]);
    assert!(roots[1].children.is_empty());
    assert_eq!(view.rows()[3].text, "[failed to load replies]");
    assert_eq!(engine.orchestrator().in_flight_count(), 2);
}

#[test]
fn late_answer_for_superseded_story_changes_nothing() {
    let story_a = 100;
    let story_b = 200;
    let mut engine = Engine::new();
    let (mut view_a, requests_a) = engine.open_story(story_a, None, &vec![10]);
    assert_eq!(requests_a, vec![10]);
    let (mut view_b, requests_b) = engine.open_story(story_b, None, &vec![20]);
    assert_eq!(requests_b, vec![20]);

    assert_eq!(engine.comment_loaded(&mut view_b, story_b, 20, record(20, vec![])), Vec::<u64>::new());
    let rows_b = view_b.rows();
    let focus_b = view_b.focus();

    assert_eq!(engine.comment_loaded(&mut view_b, story_a, 10, record(10, vec![11])), Vec::<u64>::new());
    assert_eq!(view_b.rows(), rows_b);
    assert_eq!(view_b.focus(), focus_b);
    assert_eq!(view_b.story_id(), story_b);
    assert_eq!(engine.orchestrator().in_flight_count(), 0);

    assert_eq!(engine.comment_loaded(&mut view_a, story_a, 10, record(10, vec![11])), Vec::<u64>::new());
    assert_eq!(view_a.rows()[0].text, "[loading]");
    assert!(engine.cache().contains(10));
}

#[test]
fn reopened_story_is_served_from_the_cache() {
    let mut engine = Engine::new();
    let (mut view, _) = engine.open_story(7, None, &vec![10]);
    assert_eq!(engine.comment_loaded(&mut view, 7, 10, record(10, vec![100])), vec![100]);
    assert_eq!(engine.comment_loaded(&mut view, 7, 100, record(100, vec![])), Vec::<u64>::new());
    engine.close_view();
    assert_eq!(engine.orchestrator().current(), None);

    let (again, requests) = engine.open_story(7, None, &vec![10]);
    assert!(requests.is_empty());
    assert!(again.tree().is_complete());
    assert_eq!(again.rows().iter().map(|r| r.text.clone()).collect::<Vec<String>>(), vec![
        "comment 10".to_string(),
        "comment 100".to_string()
    ]);
}

#[test]
fn no_comment_is_asked_twice_for_one_view() {
    let mut engine = Engine::new();
    let (mut view, requests) = engine.open_story(7, None, &vec![10, 11]);
    assert_eq!(requests, vec![10, 11]);
    assert_eq!(engine.comment_loaded(&mut view, 7, 10, record(10, vec![11, 12])), vec![12]);
    assert_eq!(view.take_requests(engine.cache()), Vec::<u64>::new());
}

#[test]
fn answer_after_closing_the_view_is_dropped_but_cached() {
    let mut engine = Engine::new();
    let (mut view, _) = engine.open_story(7, None, &vec![10]);
    engine.close_view();
    assert_eq!(engine.comment_loaded(&mut view, 7, 10, record(10, vec![])), Vec::<u64>::new());
    assert_eq!(view.rows()[0].text, "[loading]");
    assert!(engine.cache().contains(10));
    assert!(!engine.orchestrator().is_pending(7));
}

#[test]
fn cancelled_comment_request_is_dropped() {
    let mut engine = Engine::new();
    let (mut view, _) = engine.open_story(7, None, &vec![10]);
    let cancelled = Err(FetchError::new(FetchErrorKind::Cancelled, ""));
    assert_eq!(engine.comment_loaded(&mut view, 7, 10, cancelled), Vec::<u64>::new());
    assert_eq!(view.tree().pending_ids(), vec![10]);
}

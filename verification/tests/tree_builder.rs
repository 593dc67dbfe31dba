use hackernews_tui::comment_tree::{CommentNode, NodeStatus};
use hackernews_tui::hn_client::{CommentRecord, FetchError, FetchErrorKind};
use hackernews_tui::tree_builder::{build_partial, make_resolved, BuildStatus, PartialTree};

fn record(id: u64, kids: Vec<u64>) -> Result<CommentRecord, FetchError> {
    Ok(CommentRecord {
        id,
        author: Some(format!("user{}", id)),
        text: Some(format!("text of {}", id)),
        time: 1000 + id,
        kids,
    })
}

fn failure(kind: FetchErrorKind) -> Result<CommentRecord, FetchError> {
    Err(FetchError::new(kind, "no luck"))
}

fn answer(id: u64) -> Result<CommentRecord, FetchError> {
    match id {
        10 => record(10, vec![100, 101, 102]),
        11 => record(11, vec![110]),
        100 => record(100, vec![]),
        101 => failure(FetchErrorKind::NotFound),
        102 => record(102, vec![1020]),
        110 => failure(FetchErrorKind::Network),
        1020 => record(1020, vec![]),
        _ => failure(FetchErrorKind::Decode),
    }
}

fn run(order: &[u64]) -> PartialTree {
    let mut tree = build_partial(&vec![10, 11]);
    for id in order {
        assert!(tree.deliver(*id, answer(*id)));
    }
    tree
}

fn child_ids(node: &CommentNode) -> Vec<u64> {
    node.children.iter().map(|c| c.id).collect()
}

#[test]
fn partial_tree_starts_with_waiting_roots() {
    let tree = build_partial(&vec![10, 11, 12]);
    assert_eq!(tree.roots().len(), 3);
    for (node, id) in tree.roots().iter().zip([10u64, 11, 12]) {
        assert_eq!(node.id, id);
        assert_eq!(node.depth, 0);
        assert_eq!(node.status, NodeStatus::Pending);
        assert!(node.children.is_empty());
        assert!(!node.collapsed);
    }
    assert_eq!(tree.pending_ids(), vec![10, 11, 12]);
    assert_eq!(tree.next_pending(), Some(10));
    assert_eq!(tree.status(), BuildStatus::Loading);
    assert!(!tree.is_complete());
}

#[test]
fn empty_tree_is_complete_at_once() {
    let tree = build_partial(&vec![]);
    assert!(tree.is_complete());
    assert_eq!(tree.next_pending(), None);
    assert_eq!(tree.status(), BuildStatus::Complete);
    assert!(tree.rows().is_empty());
}

#[test]
fn record_becomes_comment_with_waiting_replies() {
    let mut tree = build_partial(&vec![10, 11]);
    assert!(tree.deliver(10, record(10, vec![100, 101])));
    let node = &tree.roots()[0];
    assert_eq!(node.status, NodeStatus::Resolved);
    assert_eq!(node.author, Some("user10".to_string()));
    assert_eq!(node.text, Some("text of 10".to_string()));
    assert_eq!(node.time, 1010);
    assert_eq!(child_ids(node), vec![100, 101]);
    assert!(node.children.iter().all(|c| c.depth == 1 && c.status == NodeStatus::Pending));
    assert_eq!(tree.pending_ids(), vec![100, 101, 11]);
}

#[test]
fn subtree_failure_leaves_marker_and_build_is_partial_success() {
    let mut tree = build_partial(&vec![10, 11]);
    assert!(tree.deliver(10, record(10, vec![100, 101])));
    assert!(tree.deliver(11, failure(FetchErrorKind::Network)));
    assert_eq!(tree.roots().len(), 2);
    assert_eq!(child_ids(&tree.roots()[0]), vec![100, 101]);
    let marker = &tree.roots()[1];
    assert_eq!(marker.id, 11);
    assert_eq!(marker.status, NodeStatus::Failed(FetchErrorKind::Network));
    assert!(marker.children.is_empty());
    assert_eq!(tree.status(), BuildStatus::Loading);
    assert!(tree.deliver(100, record(100, vec![])));
    assert!(tree.deliver(101, record(101, vec![])));
    assert!(tree.is_complete());
    assert_eq!(tree.status(), BuildStatus::PartialSuccess);
    assert_eq!(tree.failed_ids(), vec![11]);
    let rows = tree.rows();
    assert_eq!(rows.iter().map(|r| r.id).collect::<Vec<u64>>(), vec![10, 100, 101, 11]);
    assert_eq!(rows[3].text, "[failed to load replies]");
}

#[test]
fn children_order_is_source_order_whatever_the_answer_order() {
    let orders: [[u64; 7]; 4] = [
        [10, 11, 100, 101, 102, 110, 1020],
        [11, 10, 110, 102, 1020, 101, 100],
        [10, 102, 1020, 101, 100, 11, 110],
        [11, 110, 10, 100, 102, 101, 1020],
    ];
    let expected = run(&orders[0]);
    assert!(expected.is_complete());
    assert_eq!(child_ids(&expected.roots()[0]), vec![100, 101, 102]);
    assert_eq!(child_ids(&expected.roots()[1]), vec![110]);
    assert_eq!(child_ids(&expected.roots()[0].children[2]), vec![1020]);
    for order in orders.iter() {
        let tree = run(order);
        assert!(tree.is_complete());
        assert_eq!(tree, expected);
    }
}

#[test]
fn not_found_leaves_placeholder_in_place() {
    let mut tree = build_partial(&vec![10]);
    tree.deliver(10, record(10, vec![100, 101, 102]));
    assert!(tree.deliver(101, failure(FetchErrorKind::NotFound)));
    let node = &tree.roots()[0];
    assert_eq!(child_ids(node), vec![100, 101, 102]);
    let placeholder = &node.children[1];
    assert_eq!(placeholder.status, NodeStatus::Resolved);
    assert_eq!(placeholder.author, None);
    assert_eq!(placeholder.text, None);
    assert_eq!(placeholder.depth, 1);
    assert!(placeholder.children.is_empty());
    assert_eq!(node.children[0].status, NodeStatus::Pending);
    assert_eq!(node.children[2].status, NodeStatus::Pending);
    assert_eq!(tree.rows()[2].text, "[deleted]");
    assert_eq!(tree.pending_ids(), vec![100, 102]);
}

#[test]
fn all_answers_make_a_complete_tree() {
    let mut tree = build_partial(&vec![10]);
    tree.deliver(10, record(10, vec![100]));
    tree.deliver(100, failure(FetchErrorKind::NotFound));
    assert_eq!(tree.status(), BuildStatus::Complete);
    assert!(tree.failed_ids().is_empty());
}

#[test]
fn each_failure_kind_leaves_its_marker() {
    for kind in [FetchErrorKind::Network, FetchErrorKind::Decode, FetchErrorKind::Cancelled] {
        let mut tree = build_partial(&vec![1]);
        assert!(tree.deliver(1, failure(kind)));
        assert_eq!(tree.roots()[0].status, NodeStatus::Failed(kind));
        assert_eq!(tree.status(), BuildStatus::PartialSuccess);
    }
}

#[test]
fn answer_nobody_waits_for_is_dropped() {
    let mut tree = build_partial(&vec![10, 11]);
    assert!(!tree.deliver(99, record(99, vec![1])));
    assert_eq!(tree, build_partial(&vec![10, 11]));
}

#[test]
fn second_answer_for_the_same_id_is_dropped() {
    let mut tree = build_partial(&vec![10]);
    assert!(tree.deliver(10, record(10, vec![])));
    let once = build_and_deliver_once();
    assert!(!tree.deliver(10, failure(FetchErrorKind::Network)));
    assert_eq!(tree, once);
}

fn build_and_deliver_once() -> PartialTree {
    let mut tree = build_partial(&vec![10]);
    tree.deliver(10, record(10, vec![]));
    tree
}

#[test]
fn repeated_id_is_answered_first_in_reading_order() {
    let mut tree = build_partial(&vec![10, 5]);
    tree.deliver(10, record(10, vec![5]));
    assert_eq!(tree.pending_ids(), vec![5, 5]);
    assert!(tree.deliver(5, record(5, vec![])));
    assert_eq!(tree.roots()[0].children[0].status, NodeStatus::Resolved);
    assert_eq!(tree.roots()[1].status, NodeStatus::Pending);
    assert!(tree.deliver(5, record(5, vec![])));
    assert!(tree.is_complete());
}

#[test]
fn node_keeps_the_id_it_waited_for() {
    let mut tree = build_partial(&vec![10]);
    tree.deliver(10, record(77, vec![]));
    assert_eq!(tree.roots()[0].id, 10);
}

#[test]
fn replies_at_the_deepest_level_count_as_unreadable() {
    let node = make_resolved(1, u32::MAX, &record(1, vec![2]));
    assert_eq!(node.status, NodeStatus::Failed(FetchErrorKind::Decode));
    assert!(node.children.is_empty());
    let leaf = make_resolved(1, u32::MAX, &record(1, vec![]));
    assert_eq!(leaf.status, NodeStatus::Resolved);
    assert_eq!(leaf.depth, u32::MAX);
}

#[test]
fn make_resolved_of_each_answer() {
    let node = make_resolved(3, 4, &record(3, vec![8, 9]));
    assert_eq!(node.depth, 4);
    assert_eq!(child_ids(&node), vec![8, 9]);
    assert!(node.children.iter().all(|c| c.depth == 5));
    let gone = make_resolved(3, 4, &failure(FetchErrorKind::NotFound));
    assert_eq!(gone.status, NodeStatus::Resolved);
    assert_eq!(gone.text, None);
    let failed = make_resolved(3, 4, &failure(FetchErrorKind::Decode));
    assert_eq!(failed.status, NodeStatus::Failed(FetchErrorKind::Decode));
}

#[test]
fn toggling_in_a_partial_tree() {
    let mut tree = run(&[10, 11, 100, 101, 102, 110, 1020]);
    assert_eq!(tree.rows().len(), 7);
    assert!(tree.toggle_collapse(10));
    assert_eq!(tree.rows().iter().map(|r| r.id).collect::<Vec<u64>>(), vec![10, 11, 110]);
    assert!(tree.toggle_collapse(10));
    assert_eq!(tree.rows().len(), 7);
    assert!(!tree.toggle_collapse(4242));
}

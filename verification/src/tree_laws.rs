//! What holds of every tree that the builder makes.
//!
//! An answer fills the slot that waited for it and moves no other node, so
//! that replies stand in the order in which their comment lists them; an id
//! without a record leaves a placeholder in its slot; and the order in which
//! the answers come does not show in the finished tree.

use crate::comment_tree::{lemma_push_parts, NodeModel, NodeStatus};
use crate::hn_client::{FetchErrorKind, FetchErrorModel};
use crate::tree_builder::{
    deliver_forest, deliver_node, forest_awaits, forest_pending, lemma_deliver_forest_at,
    node_select, pending_forest, pending_node, placeholder_node, resolved_node, Answer,
};
use vstd::prelude::*;

verus! {

/// Two lists of nodes have the same slots: they are equally long, and
/// node for node the ids and the depths agree.
pub open spec fn same_slots(a: Seq<NodeModel>, b: Seq<NodeModel>) -> bool {
    &&& a.len() == b.len()
    &&& forall|i: int|
        #![trigger a[i]]
        #![trigger b[i]]
        0 <= i < a.len() ==> a[i].id == b[i].id && a[i].depth == b[i].depth
}

/// The ids of a list of nodes, in its order.
pub open spec fn forest_ids(nodes: Seq<NodeModel>) -> Seq<u64> {
    Seq::new(nodes.len(), |i: int| nodes[i].id)
}

/// An answer changes no slot: the list is as long as before, and each node
/// keeps its id, its depth and its place.
pub proof fn lemma_deliver_keeps_slots(nodes: Seq<NodeModel>, id: u64, answer: Answer)
    ensures
        same_slots(deliver_forest(nodes, id, answer), nodes),
        forest_ids(deliver_forest(nodes, id, answer)) == forest_ids(nodes),
    decreases nodes.len(),
{
    let after = deliver_forest(nodes, id, answer);
    if nodes.len() > 0 {
        let prefix = nodes.drop_last();
        if forest_awaits(prefix, id) {
            lemma_deliver_keeps_slots(prefix, id, answer);
            let inner = deliver_forest(prefix, id, answer);
            assert forall|i: int| 0 <= i < after.len() implies after[i].id == nodes[i].id
                && after[i].depth == nodes[i].depth by {
                if i < prefix.len() {
                    assert(after[i] == inner[i]);
                    assert(prefix[i] == nodes[i]);
                }
            }
        } else {
            lemma_deliver_node_keeps_slot(nodes.last(), id, answer);
            assert forall|i: int| 0 <= i < after.len() implies after[i].id == nodes[i].id
                && after[i].depth == nodes[i].depth by {
                if i < prefix.len() {
                    assert(after[i] == prefix[i]);
                    assert(prefix[i] == nodes[i]);
                }
            }
        }
    }
    assert(forest_ids(after) =~= forest_ids(nodes));
}

/// An answer leaves a node its id and its depth.
pub proof fn lemma_deliver_node_keeps_slot(node: NodeModel, id: u64, answer: Answer)
    ensures
        deliver_node(node, id, answer).id == node.id,
        deliver_node(node, id, answer).depth == node.depth,
{
}

/// An id without a record leaves a placeholder in the place of the node
/// that waited for it: where node `i` of a list of replies is the first
/// that waits for the id, the list after the answer is the list before with
/// the placeholder at `i`. The list is as long as it was, and every other
/// reply is as it was.
pub proof fn law_not_found_fills_its_place(
    nodes: Seq<NodeModel>,
    id: u64,
    i: int,
    error: FetchErrorModel,
)
    requires
        0 <= i < nodes.len(),
        nodes[i].status == NodeStatus::Pending,
        nodes[i].id == id,
        !forest_awaits(nodes.take(i), id),
        error.kind == FetchErrorKind::NotFound,
    ensures
        deliver_forest(nodes, id, Err(error)) == nodes.update(
            i,
            placeholder_node(id, nodes[i].depth),
        ),
        deliver_forest(nodes, id, Err(error)).len() == nodes.len(),
{
    lemma_deliver_forest_at(nodes, id, Err(error), i);
}

/// The tree agrees with the answers of the service: a node that waits is a
/// bare waiting node, and any other node is what its answer makes of it,
/// open, with one reply for each id that the answer lists, in the order of
/// the answer, each reply again in agreement.
pub open spec fn node_matches(node: NodeModel, answers: spec_fn(u64) -> Answer) -> bool
    decreases node,
{
    if node.status == NodeStatus::Pending {
        node == pending_node(node.id, node.depth)
    } else {
        let made = resolved_node(node.id, node.depth, answers(node.id));
        &&& node.author == made.author
        &&& node.text == made.text
        &&& node.time == made.time
        &&& node.status == made.status
        &&& !node.collapsed
        &&& same_slots(node.children, made.children)
        &&& forest_matches(node.children, answers)
    }
}

/// Every tree of the forest agrees with the answers of the service.
pub open spec fn forest_matches(nodes: Seq<NodeModel>, answers: spec_fn(u64) -> Answer) -> bool
    decreases nodes,
{
    if nodes.len() == 0 {
        true
    } else {
        forest_matches(nodes.drop_last(), answers) && node_matches(nodes.last(), answers)
    }
}

/// The forest after the answers for the ids of `order` have come one after
/// the other, each id with the answer that the service gives for it.
pub open spec fn run_deliveries(
    nodes: Seq<NodeModel>,
    order: Seq<u64>,
    answers: spec_fn(u64) -> Answer,
) -> Seq<NodeModel>
    decreases order.len(),
{
    if order.len() == 0 {
        nodes
    } else {
        deliver_forest(
            run_deliveries(nodes, order.drop_last(), answers),
            order.last(),
            answers(order.last()),
        )
    }
}

/// A forest of waiting nodes agrees with any answers.
pub proof fn lemma_pending_forest_matches(
    ids: Seq<u64>,
    depth: u32,
    answers: spec_fn(u64) -> Answer,
)
    ensures
        forest_matches(pending_forest(ids, depth), answers),
    decreases ids.len(),
{
    if ids.len() > 0 {
        lemma_pending_forest_matches(ids.drop_last(), depth, answers);
        assert(pending_forest(ids, depth).drop_last() =~= pending_forest(ids.drop_last(), depth));
        let last = pending_forest(ids, depth).last();
        assert(last == pending_node(ids.last(), depth));
        assert(node_matches(last, answers));
    }
}

/// What a waiting node becomes by the answer of the service agrees with the
/// answers.
pub proof fn lemma_resolved_node_matches(id: u64, depth: u32, answers: spec_fn(u64) -> Answer)
    ensures
        node_matches(resolved_node(id, depth, answers(id)), answers),
{
    let made = resolved_node(id, depth, answers(id));
    match answers(id) {
        Ok(record) => {
            lemma_pending_forest_matches(record.kids, (depth + 1) as u32, answers);
        },
        Err(_) => {},
    }
    assert(made.children.len() == 0 ==> forest_matches(made.children, answers));
}

/// An answer of the service leaves a forest in agreement with the answers.
pub proof fn lemma_deliver_forest_matches(
    nodes: Seq<NodeModel>,
    id: u64,
    answers: spec_fn(u64) -> Answer,
)
    requires
        forest_matches(nodes, answers),
    ensures
        forest_matches(deliver_forest(nodes, id, answers(id)), answers),
    decreases nodes,
{
    if nodes.len() > 0 {
        let prefix = nodes.drop_last();
        if forest_awaits(prefix, id) {
            lemma_deliver_forest_matches(prefix, id, answers);
            lemma_push_parts(deliver_forest(prefix, id, answers(id)), nodes.last());
        } else {
            lemma_deliver_node_matches(nodes.last(), id, answers);
            lemma_push_parts(prefix, deliver_node(nodes.last(), id, answers(id)));
        }
    }
}

/// An answer of the service leaves a tree in agreement with the answers.
pub proof fn lemma_deliver_node_matches(
    node: NodeModel,
    id: u64,
    answers: spec_fn(u64) -> Answer,
)
    requires
        node_matches(node, answers),
    ensures
        node_matches(deliver_node(node, id, answers(id)), answers),
    decreases node,
{
    if node.status == NodeStatus::Pending {
        if node.id == id {
            lemma_resolved_node_matches(id, node.depth, answers);
        }
    } else {
        lemma_deliver_forest_matches(node.children, id, answers);
        lemma_deliver_keeps_slots(node.children, id, answers(id));
    }
}

/// Whatever answers have come, the tree agrees with the service and has the
/// slots that it started with.
pub proof fn lemma_run_matches(
    root_ids: Seq<u64>,
    order: Seq<u64>,
    answers: spec_fn(u64) -> Answer,
)
    ensures
        forest_matches(run_deliveries(pending_forest(root_ids, 0), order, answers), answers),
        same_slots(
            run_deliveries(pending_forest(root_ids, 0), order, answers),
            pending_forest(root_ids, 0),
        ),
    decreases order.len(),
{
    if order.len() == 0 {
        lemma_pending_forest_matches(root_ids, 0, answers);
    } else {
        let before = run_deliveries(pending_forest(root_ids, 0), order.drop_last(), answers);
        lemma_run_matches(root_ids, order.drop_last(), answers);
        lemma_deliver_forest_matches(before, order.last(), answers);
        lemma_deliver_keeps_slots(before, order.last(), answers(order.last()));
    }
}

/// Two forests with the same slots, both in agreement with the service and
/// both without a waiting node, are the same forest.
pub proof fn lemma_complete_forests_agree(
    a: Seq<NodeModel>,
    b: Seq<NodeModel>,
    answers: spec_fn(u64) -> Answer,
)
    requires
        forest_matches(a, answers),
        forest_matches(b, answers),
        same_slots(a, b),
        forest_pending(a).len() == 0,
        forest_pending(b).len() == 0,
    ensures
        a == b,
    decreases a,
{
    if a.len() == 0 {
        assert(a =~= b);
    } else {
        let pa = a.drop_last();
        let pb = b.drop_last();
        assert(same_slots(pa, pb)) by {
            assert forall|i: int| 0 <= i < pa.len() implies pa[i].id == pb[i].id && pa[i].depth
                == pb[i].depth by {
                assert(pa[i] == a[i]);
                assert(pb[i] == b[i]);
            }
        }
        lemma_complete_forests_agree(pa, pb, answers);
        let x = a.last();
        let y = b.last();
        assert(x == a[a.len() - 1]);
        assert(y == b[b.len() - 1]);
        lemma_complete_nodes_agree(x, y, answers);
        assert(a =~= pa.push(x));
        assert(b =~= pb.push(y));
    }
}

/// Two trees with the same id and depth, both in agreement with the service
/// and both without a waiting node, are the same tree.
pub proof fn lemma_complete_nodes_agree(
    x: NodeModel,
    y: NodeModel,
    answers: spec_fn(u64) -> Answer,
)
    requires
        node_matches(x, answers),
        node_matches(y, answers),
        x.id == y.id,
        x.depth == y.depth,
        node_select(x, false).len() == 0,
        node_select(y, false).len() == 0,
    ensures
        x == y,
    decreases x,
{
    let made = resolved_node(x.id, x.depth, answers(x.id));
    assert(same_slots(x.children, y.children)) by {
        assert forall|i: int| 0 <= i < x.children.len() implies x.children[i].id
            == y.children[i].id && x.children[i].depth == y.children[i].depth by {
            assert(x.children[i].id == made.children[i].id);
            assert(y.children[i].id == made.children[i].id);
        }
    }
    lemma_complete_forests_agree(x.children, y.children, answers);
}

/// A node in agreement with the service whose answer is a record lists its
/// replies in the order of the record, unless it stands at the deepest
/// level that a depth can count.
pub proof fn law_replies_stand_in_listed_order(node: NodeModel, answers: spec_fn(u64) -> Answer)
    requires
        node_matches(node, answers),
        node.status != NodeStatus::Pending,
        answers(node.id) is Ok,
        node.depth < u32::MAX,
    ensures
        forest_ids(node.children) == answers(node.id)->Ok_0.kids,
{
    let made = resolved_node(node.id, node.depth, answers(node.id));
    assert forall|i: int| 0 <= i < node.children.len() implies node.children[i].id
        == answers(node.id)->Ok_0.kids[i] by {
        assert(node.children[i].id == made.children[i].id);
    }
    assert(forest_ids(node.children) =~= answers(node.id)->Ok_0.kids);
}

/// The order in which the answers come does not show in the tree.
///
/// Take the comments on a story, and a service that gives each id one
/// answer. Let the answers come in one order until no node waits, and in
/// another order until no node waits. Both times the same tree stands: the
/// comments on the story in the order of their ids, and under each of them
/// its replies in the order in which its record lists them.
pub proof fn law_answer_order_is_irrelevant(
    root_ids: Seq<u64>,
    answers: spec_fn(u64) -> Answer,
    first: Seq<u64>,
    second: Seq<u64>,
)
    requires
        forest_pending(run_deliveries(pending_forest(root_ids, 0), first, answers)).len() == 0,
        forest_pending(run_deliveries(pending_forest(root_ids, 0), second, answers)).len() == 0,
    ensures
        run_deliveries(pending_forest(root_ids, 0), first, answers) == run_deliveries(
            pending_forest(root_ids, 0),
            second,
            answers,
        ),
        forest_ids(run_deliveries(pending_forest(root_ids, 0), first, answers)) == root_ids,
        forest_matches(run_deliveries(pending_forest(root_ids, 0), first, answers), answers),
{
    let start = pending_forest(root_ids, 0);
    let a = run_deliveries(start, first, answers);
    let b = run_deliveries(start, second, answers);
    lemma_run_matches(root_ids, first, answers);
    lemma_run_matches(root_ids, second, answers);
    assert(same_slots(a, b));
    lemma_complete_forests_agree(a, b, answers);
    assert(forest_ids(a) =~= root_ids);
}

} // verus!

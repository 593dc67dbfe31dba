//! Assembling the comment tree of a story from the answers of the remote
//! service, which may come in any order.
//!
//! The builder never fetches. It says which ids it waits for, takes each
//! answer as it comes, and puts it in the place of the node that waited for
//! it, so that replies stand in the order in which the service listed them
//! whatever the order of the answers.

use crate::comment_tree::{
    flatten, forest_contains_id, forest_model, forest_rows, forest_wf, lemma_push_parts,
    lemma_take_parts, lemma_toggle_forest_wf, node_wf, row_models, toggle_collapse,
    toggle_forest, CommentNode, NodeModel, NodeStatus, Row,
};
use crate::hn_client::{
    comment_result_model, CommentRecord, CommentRecordModel, FetchError, FetchErrorKind,
    FetchErrorModel,
};
use crate::text::clone_opt_string;
use vstd::prelude::*;

verus! {

/// The answer to a request for a comment, as the contracts see it.
pub type Answer = Result<CommentRecordModel, FetchErrorModel>;

/// A node that waits for its comment.
pub open spec fn pending_node(id: u64, depth: u32) -> NodeModel {
    NodeModel {
        id,
        author: None,
        text: None,
        time: 0,
        children: Seq::empty(),
        depth,
        collapsed: false,
        status: NodeStatus::Pending,
    }
}

/// The node that stands for an id without a record: a comment without
/// author, text or replies, which shows as deleted.
pub open spec fn placeholder_node(id: u64, depth: u32) -> NodeModel {
    NodeModel {
        id,
        author: None,
        text: None,
        time: 0,
        children: Seq::empty(),
        depth,
        collapsed: false,
        status: NodeStatus::Resolved,
    }
}

/// The leaf that marks replies that could not be loaded.
pub open spec fn failed_node(id: u64, depth: u32, kind: FetchErrorKind) -> NodeModel {
    NodeModel {
        id,
        author: None,
        text: None,
        time: 0,
        children: Seq::empty(),
        depth,
        collapsed: false,
        status: NodeStatus::Failed(kind),
    }
}

/// One waiting node for each id, in the order of the ids, all at `depth`.
pub open spec fn pending_forest(ids: Seq<u64>, depth: u32) -> Seq<NodeModel> {
    Seq::new(ids.len(), |i: int| pending_node(ids[i], depth))
}

/// What a waiting node becomes when its answer has come.
///
/// A record becomes the comment, with one waiting node for each of its
/// replies, in the order of the record. An id without a record becomes a
/// placeholder. Any other failure becomes a leaf that marks it. A record
/// with replies at the deepest level that a depth can count has no place
/// for them and counts as unreadable.
pub open spec fn resolved_node(id: u64, depth: u32, answer: Answer) -> NodeModel {
    match answer {
        Ok(record) => if record.kids.len() == 0 || depth < u32::MAX {
            NodeModel {
                id,
                author: record.author,
                text: record.text,
                time: record.time,
                children: pending_forest(record.kids, (depth + 1) as u32),
                depth,
                collapsed: false,
                status: NodeStatus::Resolved,
            }
        } else {
            failed_node(id, depth, FetchErrorKind::Decode)
        },
        Err(error) => if error.kind == FetchErrorKind::NotFound {
            placeholder_node(id, depth)
        } else {
            failed_node(id, depth, error.kind)
        },
    }
}

/// Whether a node of the forest waits for this id.
pub open spec fn forest_awaits(nodes: Seq<NodeModel>, id: u64) -> bool
    decreases nodes,
{
    if nodes.len() == 0 {
        false
    } else {
        forest_awaits(nodes.drop_last(), id) || node_awaits(nodes.last(), id)
    }
}

/// Whether the node or one below it waits for this id.
pub open spec fn node_awaits(node: NodeModel, id: u64) -> bool
    decreases node,
{
    if node.status == NodeStatus::Pending {
        node.id == id
    } else {
        forest_awaits(node.children, id)
    }
}

/// The forest after the answer for `id` has come: the first node that
/// waited for it, in the order in which the discussion reads, is resolved,
/// and every other node is as it was. Nothing changes where no node waits
/// for the id.
pub open spec fn deliver_forest(nodes: Seq<NodeModel>, id: u64, answer: Answer) -> Seq<NodeModel>
    decreases nodes,
{
    if nodes.len() == 0 {
        nodes
    } else if forest_awaits(nodes.drop_last(), id) {
        deliver_forest(nodes.drop_last(), id, answer).push(nodes.last())
    } else {
        nodes.drop_last().push(deliver_node(nodes.last(), id, answer))
    }
}

/// The tree after the answer for `id` has come.
pub open spec fn deliver_node(node: NodeModel, id: u64, answer: Answer) -> NodeModel
    decreases node,
{
    if node.status == NodeStatus::Pending {
        if node.id == id {
            resolved_node(id, node.depth, answer)
        } else {
            node
        }
    } else {
        NodeModel { children: deliver_forest(node.children, id, answer), ..node }
    }
}

/// The ids of the nodes of one kind, in the order in which the discussion
/// reads: of those that marked a failure if `failed`, else of those that
/// wait.
pub open spec fn forest_select(nodes: Seq<NodeModel>, failed: bool) -> Seq<u64>
    decreases nodes,
{
    if nodes.len() == 0 {
        Seq::empty()
    } else {
        forest_select(nodes.drop_last(), failed) + node_select(nodes.last(), failed)
    }
}

/// The ids of the nodes of one kind in a tree.
pub open spec fn node_select(node: NodeModel, failed: bool) -> Seq<u64>
    decreases node,
{
    (if (failed && node.status is Failed) || (!failed && node.status == NodeStatus::Pending) {
        seq![node.id]
    } else {
        Seq::empty()
    }) + forest_select(node.children, failed)
}

/// The ids that the forest waits for, in the order in which the discussion
/// reads.
pub open spec fn forest_pending(nodes: Seq<NodeModel>) -> Seq<u64> {
    forest_select(nodes, false)
}

/// The ids whose requests failed, in the order in which the discussion
/// reads.
pub open spec fn forest_failed(nodes: Seq<NodeModel>) -> Seq<u64> {
    forest_select(nodes, true)
}

/// How far a tree is built.
#[derive(Clone, Copy, Debug, PartialEq, Eq, Structural)]
pub enum BuildStatus {
    /// Some node still waits for its comment.
    Loading,
    /// Every node is there.
    Complete,
    /// No node waits any more, and some requests failed: the tree stands,
    /// with marks where replies are missing.
    PartialSuccess,
}

/// The status of a forest.
pub open spec fn forest_status(nodes: Seq<NodeModel>) -> BuildStatus {
    if forest_pending(nodes).len() > 0 {
        BuildStatus::Loading
    } else if forest_failed(nodes).len() > 0 {
        BuildStatus::PartialSuccess
    } else {
        BuildStatus::Complete
    }
}

/// A comment tree under construction.
#[derive(Debug, PartialEq, Eq)]
pub struct PartialTree {
    roots: Vec<CommentNode>,
}

impl View for PartialTree {
    type V = Seq<NodeModel>;

    closed spec fn view(&self) -> Seq<NodeModel> {
        forest_model(self.roots@)
    }
}

fn make_pending_forest(ids: &Vec<u64>, depth: u32) -> (r: Vec<CommentNode>)
    ensures
        forest_model(r@) == pending_forest(ids@, depth),
{
    let mut nodes: Vec<CommentNode> = Vec::new();
    let mut i: usize = 0;
    while i < ids.len()
        invariant
            i <= ids.len(),
            nodes@.len() == i,
            forall|j: int| 0 <= j < i ==> (#[trigger] nodes@[j])@ == pending_node(ids@[j], depth),
        decreases ids.len() - i,
    {
        let node = CommentNode {
            id: ids[i],
            author: None,
            text: None,
            time: 0,
            children: Vec::new(),
            depth,
            collapsed: false,
            status: NodeStatus::Pending,
        };
        assert(node@.children =~= Seq::empty());
        nodes.push(node);
        i = i + 1;
    }
    assert(forest_model(nodes@) =~= pending_forest(ids@, depth));
    nodes
}

fn make_leaf(id: u64, depth: u32, status: NodeStatus) -> (r: CommentNode)
    ensures
        r@ == (NodeModel {
            id,
            author: None,
            text: None,
            time: 0,
            children: Seq::empty(),
            depth,
            collapsed: false,
            status,
        }),
{
    let node = CommentNode {
        id,
        author: None,
        text: None,
        time: 0,
        children: Vec::new(),
        depth,
        collapsed: false,
        status,
    };
    assert(node@.children =~= Seq::empty());
    node
}

/// Makes the node that a waiting node becomes when its answer has come.
pub fn make_resolved(id: u64, depth: u32, result: &Result<CommentRecord, FetchError>) -> (r:
    CommentNode)
    ensures
        r@ == resolved_node(id, depth, comment_result_model(*result)),
{
    match result {
        Ok(record) => {
            if record.kids.len() == 0 || depth < u32::MAX {
                let children = if record.kids.len() == 0 {
                    Vec::new()
                } else {
                    make_pending_forest(&record.kids, depth + 1)
                };
                assert(forest_model(children@) =~= pending_forest(
                    record@.kids,
                    (depth + 1) as u32,
                ));
                CommentNode {
                    id,
                    author: clone_opt_string(&record.author),
                    text: clone_opt_string(&record.text),
                    time: record.time,
                    children,
                    depth,
                    collapsed: false,
                    status: NodeStatus::Resolved,
                }
            } else {
                make_leaf(id, depth, NodeStatus::Failed(FetchErrorKind::Decode))
            }
        },
        Err(error) => {
            match error.kind {
                FetchErrorKind::NotFound => make_leaf(id, depth, NodeStatus::Resolved),
                kind => make_leaf(id, depth, NodeStatus::Failed(kind)),
            }
        },
    }
}

/// A tree that waits for the id makes its forest wait for it.
pub proof fn lemma_forest_awaits_at(nodes: Seq<NodeModel>, id: u64, i: int)
    requires
        0 <= i < nodes.len(),
        node_awaits(nodes[i], id),
    ensures
        forest_awaits(nodes, id),
    decreases nodes.len(),
{
    if i < nodes.len() - 1 {
        lemma_forest_awaits_at(nodes.drop_last(), id, i);
    }
}

/// An answer that no node waits for changes nothing.
pub proof fn lemma_deliver_forest_absent(nodes: Seq<NodeModel>, id: u64, answer: Answer)
    requires
        !forest_awaits(nodes, id),
    ensures
        deliver_forest(nodes, id, answer) == nodes,
    decreases nodes,
{
    if nodes.len() > 0 {
        lemma_deliver_node_absent(nodes.last(), id, answer);
        assert(nodes.drop_last().push(nodes.last()) =~= nodes);
    }
}

/// An answer that no node of the tree waits for changes nothing.
pub proof fn lemma_deliver_node_absent(node: NodeModel, id: u64, answer: Answer)
    requires
        !node_awaits(node, id),
    ensures
        deliver_node(node, id, answer) == node,
    decreases node,
{
    if node.status != NodeStatus::Pending {
        lemma_deliver_forest_absent(node.children, id, answer);
    }
}

/// Where tree `i` is the first that waits for the id, the answer goes into
/// that tree and leaves the others.
pub proof fn lemma_deliver_forest_at(nodes: Seq<NodeModel>, id: u64, answer: Answer, i: int)
    requires
        0 <= i < nodes.len(),
        !forest_awaits(nodes.take(i), id),
        node_awaits(nodes[i], id),
    ensures
        deliver_forest(nodes, id, answer) == nodes.update(i, deliver_node(nodes[i], id, answer)),
    decreases nodes.len(),
{
    let prefix = nodes.drop_last();
    if i == nodes.len() - 1 {
        assert(nodes.take(i) =~= prefix);
        assert(prefix.push(deliver_node(nodes.last(), id, answer)) =~= nodes.update(
            i,
            deliver_node(nodes[i], id, answer),
        ));
    } else {
        lemma_forest_awaits_at(prefix, id, i);
        assert(prefix.take(i) =~= nodes.take(i));
        lemma_deliver_forest_at(prefix, id, answer, i);
        assert(prefix.update(i, deliver_node(nodes[i], id, answer)).push(nodes.last())
            =~= nodes.update(i, deliver_node(nodes[i], id, answer)));
    }
}

fn deliver_in_forest(
    nodes: &mut Vec<CommentNode>,
    id: u64,
    result: &Result<CommentRecord, FetchError>,
) -> (accepted: bool)
    ensures
        forest_model(final(nodes)@) == deliver_forest(
            forest_model(old(nodes)@),
            id,
            comment_result_model(*result),
        ),
        accepted == forest_awaits(forest_model(old(nodes)@), id),
    decreases forest_model(old(nodes)@),
{
    let ghost before = forest_model(nodes@);
    let ghost answer = comment_result_model(*result);
    let n = nodes.len();
    let mut i: usize = 0;
    while i < n
        invariant
            i <= n,
            n == nodes.len(),
            before == forest_model(old(nodes)@),
            answer == comment_result_model(*result),
            forest_model(nodes@) == before,
            !forest_awaits(before.take(i as int), id),
        decreases n - i,
    {
        proof {
            lemma_take_parts(before, i as int);
        }
        let accepted = deliver_in_node(&mut nodes[i], id, result);
        if accepted {
            proof {
                lemma_deliver_forest_at(before, id, answer, i as int);
                lemma_forest_awaits_at(before, id, i as int);
                assert(forest_model(nodes@) =~= before.update(
                    i as int,
                    deliver_node(before[i as int], id, answer),
                ));
            }
            return true;
        }
        proof {
            lemma_deliver_node_absent(before[i as int], id, answer);
            assert(forest_model(nodes@) =~= before);
        }
        i = i + 1;
    }
    proof {
        assert(before.take(n as int) =~= before);
        lemma_deliver_forest_absent(before, id, answer);
    }
    false
}

fn deliver_in_node(
    node: &mut CommentNode,
    id: u64,
    result: &Result<CommentRecord, FetchError>,
) -> (accepted: bool)
    ensures
        final(node)@ == deliver_node(old(node)@, id, comment_result_model(*result)),
        accepted == node_awaits(old(node)@, id),
    decreases old(node)@,
{
    match node.status {
        NodeStatus::Pending => {
            if node.id == id {
                let resolved = make_resolved(id, node.depth, result);
                *node = resolved;
                true
            } else {
                false
            }
        },
        _ => deliver_in_forest(&mut node.children, id, result),
    }
}

fn push_selected_node(node: &CommentNode, failed: bool, out: &mut Vec<u64>)
    ensures
        final(out)@ == old(out)@ + node_select(node@, failed),
    decreases node,
{
    let ghost before = out@;
    let hit = match node.status {
        NodeStatus::Pending => !failed,
        NodeStatus::Failed(_) => failed,
        NodeStatus::Resolved => false,
    };
    if hit {
        out.push(node.id);
    }
    push_selected_forest(&node.children, failed, out);
    assert(out@ =~= before + node_select(node@, failed));
}

fn push_selected_forest(nodes: &Vec<CommentNode>, failed: bool, out: &mut Vec<u64>)
    ensures
        final(out)@ == old(out)@ + forest_select(forest_model(nodes@), failed),
    decreases nodes,
{
    let ghost before = out@;
    let ghost models = forest_model(nodes@);
    let mut i: usize = 0;
    assert(out@ =~= before + forest_select(models.take(0), failed));
    while i < nodes.len()
        invariant
            i <= nodes.len(),
            models == forest_model(nodes@),
            out@ == before + forest_select(models.take(i as int), failed),
        decreases nodes.len() - i,
    {
        push_selected_node(&nodes[i], failed, out);
        proof {
            lemma_take_parts(models, i as int);
            assert(out@ =~= before + forest_select(models.take(i + 1), failed));
        }
        i = i + 1;
    }
    proof {
        assert(models.take(nodes.len() as int) =~= models);
    }
}

/// Starts the tree of a story: one waiting node for each comment on the
/// story, in the order of the ids.
pub fn build_partial(root_ids: &Vec<u64>) -> (r: PartialTree)
    ensures
        r@ == pending_forest(root_ids@, 0),
        r.wf(),
{
    proof {
        lemma_pending_forest_wf(root_ids@, 0);
    }
    PartialTree { roots: make_pending_forest(root_ids, 0) }
}

impl PartialTree {
    /// The comments on the story stand at depth 0 and every reply one level
    /// below the comment that it answers; a node that waits, and one that
    /// marks a failure, has no replies.
    pub open spec fn wf(&self) -> bool {
        forest_wf(self@, 0)
    }

    /// Takes the answer to the request for `id` and puts it in the place of
    /// the first node that waits for it. Returns whether a node waited for
    /// it; if none did, the answer is dropped and the tree stays as it is.
    pub fn deliver(&mut self, id: u64, result: Result<CommentRecord, FetchError>) -> (accepted:
        bool)
        ensures
            final(self)@ == deliver_forest(old(self)@, id, comment_result_model(result)),
            accepted == forest_awaits(old(self)@, id),
            old(self).wf() ==> final(self).wf(),
    {
        proof {
            if self.wf() {
                lemma_deliver_forest_wf(self@, id, comment_result_model(result), 0);
            }
        }
        deliver_in_forest(&mut self.roots, id, &result)
    }

    /// The ids that the tree waits for, in the order in which the
    /// discussion reads. An id that several nodes wait for is listed once
    /// for each.
    pub fn pending_ids(&self) -> (r: Vec<u64>)
        ensures
            r@ == forest_pending(self@),
    {
        let mut out: Vec<u64> = Vec::new();
        push_selected_forest(&self.roots, false, &mut out);
        assert(out@ =~= forest_pending(self@));
        out
    }

    /// The ids whose requests failed, in the order in which the discussion
    /// reads.
    pub fn failed_ids(&self) -> (r: Vec<u64>)
        ensures
            r@ == forest_failed(self@),
    {
        let mut out: Vec<u64> = Vec::new();
        push_selected_forest(&self.roots, true, &mut out);
        assert(out@ =~= forest_failed(self@));
        out
    }

    /// The first id that the tree waits for; none once every node is there.
    pub fn next_pending(&self) -> (r: Option<u64>)
        ensures
            r == if forest_pending(self@).len() > 0 {
                Some(forest_pending(self@)[0])
            } else {
                None::<u64>
            },
    {
        let ids = self.pending_ids();
        if ids.len() > 0 {
            Some(ids[0])
        } else {
            None
        }
    }

    /// Whether no node waits any more.
    pub fn is_complete(&self) -> (r: bool)
        ensures
            r == (forest_pending(self@).len() == 0),
    {
        self.pending_ids().len() == 0
    }

    /// How far the tree is built. A tree in which some requests failed is a
    /// partial success, not a failure.
    pub fn status(&self) -> (r: BuildStatus)
        ensures
            r == forest_status(self@),
    {
        if self.pending_ids().len() > 0 {
            BuildStatus::Loading
        } else if self.failed_ids().len() > 0 {
            BuildStatus::PartialSuccess
        } else {
            BuildStatus::Complete
        }
    }

    /// The comments on the story, each with its replies.
    pub fn roots(&self) -> (r: &Vec<CommentNode>)
        ensures
            forest_model(r@) == self@,
    {
        &self.roots
    }

    /// The rows of the tree as it stands.
    pub fn rows(&self) -> (r: Vec<Row>)
        ensures
            row_models(r@) == forest_rows(self@),
    {
        flatten(&self.roots)
    }

    /// Folds or opens the first node with this id. Returns whether there is
    /// such a node.
    pub fn toggle_collapse(&mut self, id: u64) -> (found: bool)
        ensures
            final(self)@ == toggle_forest(old(self)@, id),
            found == forest_contains_id(old(self)@, id),
            old(self).wf() ==> final(self).wf(),
    {
        proof {
            if self.wf() {
                lemma_toggle_forest_wf(self@, id, 0);
            }
        }
        toggle_collapse(&mut self.roots, id)
    }
}

/// A forest of waiting nodes is well formed.
pub proof fn lemma_pending_forest_wf(ids: Seq<u64>, depth: u32)
    ensures
        forest_wf(pending_forest(ids, depth), depth as int),
    decreases ids.len(),
{
    if ids.len() > 0 {
        lemma_pending_forest_wf(ids.drop_last(), depth);
        assert(pending_forest(ids, depth).drop_last() =~= pending_forest(ids.drop_last(), depth));
        let last = pending_forest(ids, depth).last();
        assert(last == pending_node(ids.last(), depth));
        assert(forest_wf(last.children, depth + 1));
        assert(node_wf(last, depth as int));
    }
}

/// What a waiting node becomes is well formed at its depth.
pub proof fn lemma_resolved_node_wf(id: u64, depth: u32, answer: Answer)
    ensures
        node_wf(resolved_node(id, depth, answer), depth as int),
{
    match answer {
        Ok(record) => {
            if record.kids.len() == 0 {
                assert(pending_forest(record.kids, (depth + 1) as u32) =~= Seq::empty());
            } else if depth < u32::MAX {
                lemma_pending_forest_wf(record.kids, (depth + 1) as u32);
            }
        },
        Err(_) => {},
    }
}

/// An answer leaves a well-formed forest well formed.
pub proof fn lemma_deliver_forest_wf(nodes: Seq<NodeModel>, id: u64, answer: Answer, depth: int)
    requires
        forest_wf(nodes, depth),
    ensures
        forest_wf(deliver_forest(nodes, id, answer), depth),
    decreases nodes,
{
    if nodes.len() > 0 {
        let prefix = nodes.drop_last();
        if forest_awaits(prefix, id) {
            lemma_deliver_forest_wf(prefix, id, answer, depth);
            lemma_push_parts(deliver_forest(prefix, id, answer), nodes.last());
        } else {
            lemma_deliver_node_wf(nodes.last(), id, answer, depth);
            lemma_push_parts(prefix, deliver_node(nodes.last(), id, answer));
        }
    }
}

/// An answer leaves a well-formed tree well formed.
pub proof fn lemma_deliver_node_wf(node: NodeModel, id: u64, answer: Answer, depth: int)
    requires
        node_wf(node, depth),
    ensures
        node_wf(deliver_node(node, id, answer), depth),
    decreases node,
{
    if node.status == NodeStatus::Pending {
        if node.id == id {
            lemma_resolved_node_wf(id, node.depth, answer);
        }
    } else {
        lemma_deliver_forest_wf(node.children, id, answer, depth + 1);
    }
}

} // verus!

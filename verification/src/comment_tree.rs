//! The tree of the comments of a story, its rows on the screen, and the
//! folding of its branches.
//!
//! A node owns its replies. Folding a node hides its replies from the rows
//! without removing them from the tree.

use crate::hn_client::FetchErrorKind;
use crate::text::{chars_or, opt_chars, string_or};
use vstd::prelude::*;

verus! {

/// How far a node is loaded.
#[derive(Clone, Copy, Debug, PartialEq, Eq, Structural)]
pub enum NodeStatus {
    /// The comment was asked for and has not come yet.
    Pending,
    /// The comment is there, or the service has none under this id and the
    /// node stands in for it.
    Resolved,
    /// The request failed; the node marks the place of the replies that
    /// could not be loaded.
    Failed(FetchErrorKind),
}

/// One comment of a discussion, with its replies.
#[derive(Debug, PartialEq, Eq)]
pub struct CommentNode {
    pub id: u64,
    pub author: Option<String>,
    /// The text of the comment; a comment without text shows as deleted.
    pub text: Option<String>,
    pub time: u64,
    pub children: Vec<CommentNode>,
    /// 0 for a comment on the story, one more for each level of reply.
    pub depth: u32,
    /// Whether the replies are folded away.
    pub collapsed: bool,
    pub status: NodeStatus,
}

pub ghost struct NodeModel {
    pub id: u64,
    pub author: Option<Seq<char>>,
    pub text: Option<Seq<char>>,
    pub time: u64,
    pub children: Seq<NodeModel>,
    pub depth: u32,
    pub collapsed: bool,
    pub status: NodeStatus,
}

/// The models of a list of nodes, one for one.
pub open spec fn forest_model(nodes: Seq<CommentNode>) -> Seq<NodeModel>
    decreases nodes,
{
    Seq::new(
        nodes.len(),
        |i: int|
            if 0 <= i < nodes.len() {
                nodes[i]@
            } else {
                arbitrary()
            },
    )
}

impl View for CommentNode {
    type V = NodeModel;

    open spec fn view(&self) -> NodeModel
        decreases self,
    {
        NodeModel {
            id: self.id,
            author: opt_chars(self.author),
            text: opt_chars(self.text),
            time: self.time,
            children: forest_model(self.children@),
            depth: self.depth,
            collapsed: self.collapsed,
            status: self.status,
        }
    }
}

/// Every node of the forest stands at `depth`, its replies one level
/// deeper, and a node that is not resolved is a bare leaf.
pub open spec fn forest_wf(nodes: Seq<NodeModel>, depth: int) -> bool
    decreases nodes,
{
    if nodes.len() == 0 {
        true
    } else {
        forest_wf(nodes.drop_last(), depth) && node_wf(nodes.last(), depth)
    }
}

/// The node stands at `depth`, its replies one level deeper, and if it is
/// not resolved it is a bare leaf.
pub open spec fn node_wf(node: NodeModel, depth: int) -> bool
    decreases node,
{
    &&& node.depth == depth
    &&& node.status != NodeStatus::Resolved ==> {
        &&& node.children.len() == 0
        &&& node.author is None
        &&& node.text is None
    }
    &&& forest_wf(node.children, depth + 1)
}

/// The number of nodes of a forest.
pub open spec fn forest_size(nodes: Seq<NodeModel>) -> nat
    decreases nodes,
{
    if nodes.len() == 0 {
        0
    } else {
        forest_size(nodes.drop_last()) + 1 + forest_size(nodes.last().children)
    }
}

/// Whether no node of the forest is folded.
pub open spec fn all_expanded(nodes: Seq<NodeModel>) -> bool
    decreases nodes,
{
    if nodes.len() == 0 {
        true
    } else {
        &&& all_expanded(nodes.drop_last())
        &&& !nodes.last().collapsed
        &&& all_expanded(nodes.last().children)
    }
}

/// A row of the screen: one visible node, ready to be drawn.
#[derive(Debug, PartialEq, Eq)]
pub struct Row {
    pub id: u64,
    pub depth: u32,
    pub text: String,
    pub collapsed: bool,
}

pub ghost struct RowModel {
    pub id: u64,
    pub depth: u32,
    pub text: Seq<char>,
    pub collapsed: bool,
}

impl View for Row {
    type V = RowModel;

    open spec fn view(&self) -> RowModel {
        RowModel { id: self.id, depth: self.depth, text: self.text@, collapsed: self.collapsed }
    }
}

/// The models of a list of rows, one for one.
pub open spec fn row_models(rows: Seq<Row>) -> Seq<RowModel> {
    Seq::new(rows.len(), |i: int| rows[i]@)
}

/// What a node shows: its text, or a note in its place where it has none,
/// has not come yet or could not be loaded.
pub open spec fn row_text(node: NodeModel) -> Seq<char> {
    match node.status {
        NodeStatus::Pending => "[loading]"@,
        NodeStatus::Failed(_) => "[failed to load replies]"@,
        NodeStatus::Resolved => chars_or(node.text, "[deleted]"@),
    }
}

/// The row of a node.
pub open spec fn row_of(node: NodeModel) -> RowModel {
    RowModel { id: node.id, depth: node.depth, text: row_text(node), collapsed: node.collapsed }
}

/// The rows of a forest: each tree in turn.
pub open spec fn forest_rows(nodes: Seq<NodeModel>) -> Seq<RowModel>
    decreases nodes,
{
    if nodes.len() == 0 {
        Seq::empty()
    } else {
        forest_rows(nodes.drop_last()) + node_rows(nodes.last())
    }
}

/// The rows of a tree: the node itself, then, unless it is folded, the rows
/// of its replies. This is the order in which a discussion reads.
pub open spec fn node_rows(node: NodeModel) -> Seq<RowModel>
    decreases node,
{
    seq![row_of(node)] + (if node.collapsed {
        Seq::empty()
    } else {
        forest_rows(node.children)
    })
}

/// Whether a node of the forest has this id.
pub open spec fn forest_contains_id(nodes: Seq<NodeModel>, id: u64) -> bool
    decreases nodes,
{
    if nodes.len() == 0 {
        false
    } else {
        forest_contains_id(nodes.drop_last(), id) || node_contains_id(nodes.last(), id)
    }
}

/// Whether the node or one below it has this id.
pub open spec fn node_contains_id(node: NodeModel, id: u64) -> bool
    decreases node,
{
    node.id == id || forest_contains_id(node.children, id)
}

/// The first node with this id, in the order in which the discussion reads.
pub open spec fn forest_find(nodes: Seq<NodeModel>, id: u64) -> Option<NodeModel>
    decreases nodes,
{
    if nodes.len() == 0 {
        None
    } else if forest_contains_id(nodes.drop_last(), id) {
        forest_find(nodes.drop_last(), id)
    } else {
        node_find(nodes.last(), id)
    }
}

/// The first node with this id in a tree.
pub open spec fn node_find(node: NodeModel, id: u64) -> Option<NodeModel>
    decreases node,
{
    if node.id == id {
        Some(node)
    } else {
        forest_find(node.children, id)
    }
}

/// Whether the first node with this id has a row: it exists and no node
/// above it is folded.
pub open spec fn forest_shows(nodes: Seq<NodeModel>, id: u64) -> bool
    decreases nodes,
{
    if nodes.len() == 0 {
        false
    } else if forest_contains_id(nodes.drop_last(), id) {
        forest_shows(nodes.drop_last(), id)
    } else {
        node_shows(nodes.last(), id)
    }
}

/// Whether the first node with this id in a tree has a row.
pub open spec fn node_shows(node: NodeModel, id: u64) -> bool
    decreases node,
{
    if node.id == id {
        true
    } else {
        !node.collapsed && forest_shows(node.children, id)
    }
}

/// The forest with the first node of this id folded if it was open, and
/// opened if it was folded. Nothing changes where no node has the id.
pub open spec fn toggle_forest(nodes: Seq<NodeModel>, id: u64) -> Seq<NodeModel>
    decreases nodes,
{
    if nodes.len() == 0 {
        nodes
    } else if forest_contains_id(nodes.drop_last(), id) {
        toggle_forest(nodes.drop_last(), id).push(nodes.last())
    } else {
        nodes.drop_last().push(toggle_node(nodes.last(), id))
    }
}

/// The tree with the first node of this id folded or opened.
pub open spec fn toggle_node(node: NodeModel, id: u64) -> NodeModel
    decreases node,
{
    if node.id == id {
        NodeModel { collapsed: !node.collapsed, ..node }
    } else {
        NodeModel { children: toggle_forest(node.children, id), ..node }
    }
}

/// A sequence that is pushed onto ends in what was pushed.
pub proof fn lemma_push_parts<T>(s: Seq<T>, x: T)
    ensures
        s.push(x).len() == s.len() + 1,
        s.push(x).drop_last() == s,
        s.push(x).last() == x,
{
    assert(s.push(x).drop_last() =~= s);
}

/// The first `i + 1` items are the first `i` and the one at `i`.
pub proof fn lemma_take_parts<T>(s: Seq<T>, i: int)
    requires
        0 <= i < s.len(),
    ensures
        s.take(i + 1).len() == i + 1,
        s.take(i + 1).drop_last() == s.take(i),
        s.take(i + 1).last() == s[i],
        s.take(s.len() as int) == s,
{
    assert(s.take(i + 1).drop_last() =~= s.take(i));
    assert(s.take(s.len() as int) =~= s);
}

/// The text that the row of a node shows.
pub fn row_label(node: &CommentNode) -> (r: String)
    ensures
        r@ == row_text(node@),
{
    match node.status {
        NodeStatus::Pending => "[loading]".to_owned(),
        NodeStatus::Failed(_) => "[failed to load replies]".to_owned(),
        NodeStatus::Resolved => string_or(&node.text, "[deleted]"),
    }
}

fn push_node_rows(node: &CommentNode, rows: &mut Vec<Row>)
    ensures
        row_models(final(rows)@) == row_models(old(rows)@) + node_rows(node@),
    decreases node,
{
    let ghost before = row_models(rows@);
    rows.push(
        Row { id: node.id, depth: node.depth, text: row_label(node), collapsed: node.collapsed },
    );
    assert(row_models(rows@) =~= before + seq![row_of(node@)]);
    if !node.collapsed {
        push_forest_rows(&node.children, rows);
    }
    assert(row_models(rows@) =~= before + node_rows(node@));
}

fn push_forest_rows(nodes: &Vec<CommentNode>, rows: &mut Vec<Row>)
    ensures
        row_models(final(rows)@) == row_models(old(rows)@) + forest_rows(forest_model(nodes@)),
    decreases nodes,
{
    let ghost before = row_models(rows@);
    let ghost models = forest_model(nodes@);
    let mut i: usize = 0;
    assert(row_models(rows@) =~= before + forest_rows(models.take(0)));
    while i < nodes.len()
        invariant
            i <= nodes.len(),
            models == forest_model(nodes@),
            row_models(rows@) == before + forest_rows(models.take(i as int)),
        decreases nodes.len() - i,
    {
        push_node_rows(&nodes[i], rows);
        proof {
            lemma_take_parts(models, i as int);
            assert(row_models(rows@) =~= before + forest_rows(models.take(i + 1)));
        }
        i = i + 1;
    }
    proof {
        assert(models.take(nodes.len() as int) =~= models);
    }
}

/// The rows of a forest, in the order in which the discussion reads, with
/// the replies of folded nodes left out.
pub fn flatten(nodes: &Vec<CommentNode>) -> (rows: Vec<Row>)
    ensures
        row_models(rows@) == forest_rows(forest_model(nodes@)),
{
    let mut rows: Vec<Row> = Vec::new();
    push_forest_rows(nodes, &mut rows);
    assert(row_models(rows@) =~= forest_rows(forest_model(nodes@)));
    rows
}

/// A tree that holds the id makes its forest hold it.
pub proof fn lemma_forest_contains_at(nodes: Seq<NodeModel>, id: u64, i: int)
    requires
        0 <= i < nodes.len(),
        node_contains_id(nodes[i], id),
    ensures
        forest_contains_id(nodes, id),
    decreases nodes.len(),
{
    if i < nodes.len() - 1 {
        lemma_forest_contains_at(nodes.drop_last(), id, i);
    }
}

/// Toggling an id that no node has changes nothing.
pub proof fn lemma_toggle_forest_absent(nodes: Seq<NodeModel>, id: u64)
    requires
        !forest_contains_id(nodes, id),
    ensures
        toggle_forest(nodes, id) == nodes,
    decreases nodes,
{
    if nodes.len() > 0 {
        lemma_toggle_node_absent(nodes.last(), id);
        assert(nodes.drop_last().push(nodes.last()) =~= nodes);
    }
}

/// Toggling an id that no node of the tree has changes nothing.
pub proof fn lemma_toggle_node_absent(node: NodeModel, id: u64)
    requires
        !node_contains_id(node, id),
    ensures
        toggle_node(node, id) == node,
    decreases node,
{
    lemma_toggle_forest_absent(node.children, id);
}

/// Where tree `i` is the first that holds the id, toggling the forest
/// toggles that tree and leaves the others.
pub proof fn lemma_toggle_forest_at(nodes: Seq<NodeModel>, id: u64, i: int)
    requires
        0 <= i < nodes.len(),
        !forest_contains_id(nodes.take(i), id),
        node_contains_id(nodes[i], id),
    ensures
        toggle_forest(nodes, id) == nodes.update(i, toggle_node(nodes[i], id)),
    decreases nodes.len(),
{
    let prefix = nodes.drop_last();
    if i == nodes.len() - 1 {
        assert(nodes.take(i) =~= prefix);
        assert(prefix.push(toggle_node(nodes.last(), id)) =~= nodes.update(
            i,
            toggle_node(nodes[i], id),
        ));
    } else {
        lemma_forest_contains_at(prefix, id, i);
        assert(prefix.take(i) =~= nodes.take(i));
        lemma_toggle_forest_at(prefix, id, i);
        assert(prefix.update(i, toggle_node(nodes[i], id)).push(nodes.last()) =~= nodes.update(
            i,
            toggle_node(nodes[i], id),
        ));
    }
}

/// Folds the first node with this id if it is open, and opens it if it is
/// folded; the first in the order in which the discussion reads. Returns
/// whether there is such a node; if not, the forest stays as it is.
pub fn toggle_collapse(nodes: &mut Vec<CommentNode>, id: u64) -> (found: bool)
    ensures
        forest_model(final(nodes)@) == toggle_forest(forest_model(old(nodes)@), id),
        found == forest_contains_id(forest_model(old(nodes)@), id),
    decreases forest_model(old(nodes)@),
{
    let ghost before = forest_model(nodes@);
    let n = nodes.len();
    let mut i: usize = 0;
    while i < n
        invariant
            i <= n,
            n == nodes.len(),
            before == forest_model(old(nodes)@),
            forest_model(nodes@) == before,
            !forest_contains_id(before.take(i as int), id),
        decreases n - i,
    {
        proof {
            lemma_take_parts(before, i as int);
        }
        let found = toggle_node_collapse(&mut nodes[i], id);
        if found {
            proof {
                lemma_toggle_forest_at(before, id, i as int);
                lemma_forest_contains_at(before, id, i as int);
                assert(forest_model(nodes@) =~= before.update(
                    i as int,
                    toggle_node(before[i as int], id),
                ));
            }
            return true;
        }
        proof {
            lemma_toggle_node_absent(before[i as int], id);
            assert(forest_model(nodes@) =~= before);
        }
        i = i + 1;
    }
    proof {
        assert(before.take(n as int) =~= before);
        lemma_toggle_forest_absent(before, id);
    }
    false
}

/// Folds or opens the first node with this id in a tree. Returns whether
/// there is such a node.
pub fn toggle_node_collapse(node: &mut CommentNode, id: u64) -> (found: bool)
    ensures
        final(node)@ == toggle_node(old(node)@, id),
        found == node_contains_id(old(node)@, id),
    decreases old(node)@,
{
    if node.id == id {
        node.collapsed = !node.collapsed;
        true
    } else {
        toggle_collapse(&mut node.children, id)
    }
}

/// Toggling changes no id: the forest holds the same ids after it.
pub proof fn lemma_toggle_forest_keeps_ids(nodes: Seq<NodeModel>, id: u64, other: u64)
    ensures
        forest_contains_id(toggle_forest(nodes, id), other) == forest_contains_id(nodes, other),
        toggle_forest(nodes, id).len() == nodes.len(),
    decreases nodes,
{
    if nodes.len() > 0 {
        let prefix = nodes.drop_last();
        if forest_contains_id(prefix, id) {
            lemma_toggle_forest_keeps_ids(prefix, id, other);
            lemma_push_parts(toggle_forest(prefix, id), nodes.last());
        } else {
            lemma_toggle_node_keeps_ids(nodes.last(), id, other);
            lemma_push_parts(prefix, toggle_node(nodes.last(), id));
        }
    }
}

/// Toggling changes no id: the tree holds the same ids after it.
pub proof fn lemma_toggle_node_keeps_ids(node: NodeModel, id: u64, other: u64)
    ensures
        node_contains_id(toggle_node(node, id), other) == node_contains_id(node, other),
        toggle_node(node, id).id == node.id,
    decreases node,
{
    if node.id != id {
        lemma_toggle_forest_keeps_ids(node.children, id, other);
    }
}

/// Toggling the same id twice gives the forest back as it was.
pub proof fn law_toggle_twice_restores(nodes: Seq<NodeModel>, id: u64)
    ensures
        toggle_forest(toggle_forest(nodes, id), id) == nodes,
    decreases nodes,
{
    if nodes.len() > 0 {
        let prefix = nodes.drop_last();
        if forest_contains_id(prefix, id) {
            law_toggle_twice_restores(prefix, id);
            lemma_toggle_forest_keeps_ids(prefix, id, id);
            lemma_push_parts(toggle_forest(prefix, id), nodes.last());
            assert(prefix.push(nodes.last()) =~= nodes);
        } else {
            law_toggle_node_twice_restores(nodes.last(), id);
            lemma_push_parts(prefix, toggle_node(nodes.last(), id));
            assert(prefix.push(nodes.last()) =~= nodes);
        }
    }
}

/// Toggling the same id twice gives the tree back as it was.
pub proof fn law_toggle_node_twice_restores(node: NodeModel, id: u64)
    ensures
        toggle_node(toggle_node(node, id), id) == node,
    decreases node,
{
    if node.id != id {
        law_toggle_twice_restores(node.children, id);
    }
}

/// By how many rows the screen grows when this node is toggled while it has
/// a row: by the rows of its replies if it was folded, and by as many fewer
/// if it was open.
pub open spec fn toggle_row_change(target: NodeModel) -> int {
    if target.collapsed {
        forest_rows(target.children).len() as int
    } else {
        -(forest_rows(target.children).len() as int)
    }
}

/// Toggling a node that has a row changes the number of rows by the rows of
/// its replies: so many go when it is folded, and so many come when it is
/// opened. Toggling a node that is hidden under a folded one changes none.
pub proof fn law_toggle_changes_rows(nodes: Seq<NodeModel>, id: u64)
    requires
        forest_contains_id(nodes, id),
    ensures
        forest_find(nodes, id) is Some,
        forest_find(nodes, id).unwrap().id == id,
        forest_rows(toggle_forest(nodes, id)).len() == forest_rows(nodes).len() + (if forest_shows(
            nodes,
            id,
        ) {
            toggle_row_change(forest_find(nodes, id).unwrap())
        } else {
            0
        }),
    decreases nodes,
{
    let prefix = nodes.drop_last();
    if forest_contains_id(prefix, id) {
        law_toggle_changes_rows(prefix, id);
        lemma_push_parts(toggle_forest(prefix, id), nodes.last());
    } else {
        lemma_toggle_node_rows(nodes.last(), id);
        lemma_push_parts(prefix, toggle_node(nodes.last(), id));
    }
}

/// Toggling in a tree changes the number of its rows as in a forest.
pub proof fn lemma_toggle_node_rows(node: NodeModel, id: u64)
    requires
        node_contains_id(node, id),
    ensures
        node_find(node, id) is Some,
        node_find(node, id).unwrap().id == id,
        node_rows(toggle_node(node, id)).len() == node_rows(node).len() + (if node_shows(node, id) {
            toggle_row_change(node_find(node, id).unwrap())
        } else {
            0
        }),
    decreases node,
{
    if node.id != id {
        law_toggle_changes_rows(node.children, id);
    }
}

/// A forest without a folded node has a row for every node.
pub proof fn lemma_expanded_rows(nodes: Seq<NodeModel>)
    requires
        all_expanded(nodes),
    ensures
        forest_rows(nodes).len() == forest_size(nodes),
    decreases nodes,
{
    if nodes.len() > 0 {
        lemma_expanded_rows(nodes.drop_last());
        lemma_expanded_rows(nodes.last().children);
        assert(node_rows(nodes.last()).len() == 1 + forest_rows(nodes.last().children).len());
    }
}

/// Folding a node that has a row, is open, and has all its descendants on
/// the screen takes exactly as many rows from the screen as the node has
/// descendants; toggling it once more gives back the same forest, and so
/// the same rows. All descendants are on the screen where none of them is
/// folded: see `lemma_expanded_rows`.
pub proof fn law_toggle_hides_descendants(nodes: Seq<NodeModel>, id: u64)
    requires
        forest_shows(nodes, id),
        !forest_find(nodes, id).unwrap().collapsed,
        forest_rows(forest_find(nodes, id).unwrap().children).len() == forest_size(
            forest_find(nodes, id).unwrap().children,
        ),
    ensures
        forest_rows(toggle_forest(nodes, id)).len() == forest_rows(nodes).len() - forest_size(
            forest_find(nodes, id).unwrap().children,
        ),
        toggle_forest(toggle_forest(nodes, id), id) == nodes,
        forest_rows(toggle_forest(toggle_forest(nodes, id), id)) == forest_rows(nodes),
{
    lemma_shown_is_held(nodes, id);
    law_toggle_changes_rows(nodes, id);
    law_toggle_twice_restores(nodes, id);
}

/// Folding a node that has a row, is open, and has no folded node below it
/// takes exactly as many rows from the screen as the node has descendants.
pub proof fn law_toggle_hides_open_subtree(nodes: Seq<NodeModel>, id: u64)
    requires
        forest_shows(nodes, id),
        !forest_find(nodes, id).unwrap().collapsed,
        all_expanded(forest_find(nodes, id).unwrap().children),
    ensures
        forest_rows(toggle_forest(nodes, id)).len() == forest_rows(nodes).len() - forest_size(
            forest_find(nodes, id).unwrap().children,
        ),
{
    lemma_expanded_rows(forest_find(nodes, id).unwrap().children);
    law_toggle_hides_descendants(nodes, id);
}

/// A node that has a row is in the forest.
pub proof fn lemma_shown_is_held(nodes: Seq<NodeModel>, id: u64)
    requires
        forest_shows(nodes, id),
    ensures
        forest_contains_id(nodes, id),
    decreases nodes,
{
    if !forest_contains_id(nodes.drop_last(), id) {
        lemma_shown_in_node_is_held(nodes.last(), id);
    }
}

/// A node that has a row is in the tree.
pub proof fn lemma_shown_in_node_is_held(node: NodeModel, id: u64)
    requires
        node_shows(node, id),
    ensures
        node_contains_id(node, id),
    decreases node,
{
    if node.id != id {
        lemma_shown_is_held(node.children, id);
    }
}

/// Toggling leaves a well-formed forest well formed: folding moves no
/// node to another depth.
pub proof fn lemma_toggle_forest_wf(nodes: Seq<NodeModel>, id: u64, depth: int)
    requires
        forest_wf(nodes, depth),
    ensures
        forest_wf(toggle_forest(nodes, id), depth),
    decreases nodes,
{
    if nodes.len() > 0 {
        let prefix = nodes.drop_last();
        if forest_contains_id(prefix, id) {
            lemma_toggle_forest_wf(prefix, id, depth);
            lemma_push_parts(toggle_forest(prefix, id), nodes.last());
        } else {
            lemma_toggle_node_wf(nodes.last(), id, depth);
            lemma_push_parts(prefix, toggle_node(nodes.last(), id));
        }
    }
}

/// Toggling leaves a well-formed tree well formed.
pub proof fn lemma_toggle_node_wf(node: NodeModel, id: u64, depth: int)
    requires
        node_wf(node, depth),
    ensures
        node_wf(toggle_node(node, id), depth),
    decreases node,
{
    if node.id != id {
        lemma_toggle_forest_wf(node.children, id, depth + 1);
        lemma_toggle_forest_keeps_ids(node.children, id, id);
    }
}

} // verus!

//! The discussion of one story on the screen: its comment tree, folded
//! where the reader folded it, and a focus that moves over its rows.

use crate::cache::{fill_rounds, ids_to_fetch, CommentCache};
use crate::comment_tree::{
    forest_contains_id, forest_rows, row_models, toggle_forest, NodeModel, Row, RowModel,
};
use crate::focus::{spec_focus_down, spec_focus_up, spec_resize, EventResult, FocusIndex};
use crate::hn_client::{comment_result_model, CommentRecord, FetchError};
use crate::tree_builder::{
    build_partial, deliver_forest, forest_awaits, forest_pending, pending_forest, PartialTree,
};
use crate::text::opt_chars;
use crate::view::event_view::{construct_event_view, key_handled, Event, EventView, ListEventView};
use vstd::prelude::*;

verus! {

/// A view that shows the comments of a story as rows with a focus. The rows
/// are those of the tree as it stands: replies of folded comments have
/// none.
#[derive(Debug)]
pub struct CommentView {
    story_id: u64,
    story_url: Option<String>,
    tree: PartialTree,
    focus: FocusIndex,
    requested: Vec<u64>,
}

pub ghost struct CommentViewModel {
    /// The story whose comments are shown. It is the correlation id of the
    /// requests that load them.
    pub story_id: u64,
    /// The link of the story, if it has one.
    pub story_url: Option<Seq<char>>,
    pub tree: Seq<NodeModel>,
    pub focus: FocusIndex,
    /// The ids of the comments that were asked of the service for this
    /// view, in the order in which they were asked.
    pub requested: Seq<u64>,
}

impl View for CommentView {
    type V = CommentViewModel;

    closed spec fn view(&self) -> CommentViewModel {
        CommentViewModel {
            story_id: self.story_id,
            story_url: opt_chars(self.story_url),
            tree: self.tree@,
            focus: self.focus,
            requested: self.requested@,
        }
    }
}

impl CommentViewModel {
    /// The rows on the screen.
    pub open spec fn rows(self) -> Seq<RowModel> {
        forest_rows(self.tree)
    }

    /// The focus is bound to the rows on the screen, and points at one
    /// whenever there is one.
    pub open spec fn wf(self) -> bool {
        &&& self.focus.length == self.rows().len()
        &&& self.focus.wf()
    }

    /// The row under the focus, if the focus points at one.
    pub open spec fn focused_row(self) -> Option<RowModel> {
        if self.focus.current < self.rows().len() {
            Some(self.rows()[self.focus.current as int])
        } else {
            None
        }
    }
}

impl CommentView {
    /// The view of the comments of the story `story_id`, with the focus on
    /// the first row.
    pub fn new(story_id: u64, story_url: Option<String>, tree: PartialTree) -> (r: CommentView)
        ensures
            r@.story_id == story_id,
            r@.story_url == opt_chars(story_url),
            r@.tree == tree@,
            r@.focus == (FocusIndex { current: 0, length: forest_rows(tree@).len() as usize }),
            r@.requested == Seq::<u64>::empty(),
            r@.wf(),
    {
        let rows = tree.rows();
        CommentView {
            story_id,
            story_url,
            tree,
            focus: FocusIndex::new(rows.len()),
            requested: Vec::new(),
        }
    }

    /// The view of the comments of the story `story_id`, of which the ids
    /// of the comments on the story are known. What the cache has of the
    /// discussion is there at once, in at most `rounds` rounds; the rest
    /// waits.
    pub fn open(
        story_id: u64,
        story_url: Option<String>,
        comment_ids: &Vec<u64>,
        cache: &CommentCache,
        rounds: usize,
    ) -> (r: CommentView)
        ensures
            r@.story_id == story_id,
            r@.story_url == opt_chars(story_url),
            r@.tree == fill_rounds(pending_forest(comment_ids@, 0), cache@, rounds as nat),
            r@.focus == (FocusIndex { current: 0, length: r@.rows().len() as usize }),
            r@.requested == Seq::<u64>::empty(),
            r@.wf(),
            r.tree_wf(),
    {
        let mut tree = build_partial(comment_ids);
        cache.fill_all(&mut tree, rounds);
        CommentView::new(story_id, story_url, tree)
    }

    pub fn story_id(&self) -> (r: u64)
        ensures
            r == self@.story_id,
    {
        self.story_id
    }

    pub fn story_url(&self) -> (r: &Option<String>)
        ensures
            opt_chars(*r) == self@.story_url,
    {
        &self.story_url
    }

    pub fn focus(&self) -> (r: FocusIndex)
        ensures
            r == self@.focus,
    {
        self.focus
    }

    pub fn tree(&self) -> (r: &PartialTree)
        ensures
            r@ == self@.tree,
            r.wf() == self.tree_wf(),
    {
        &self.tree
    }

    /// The tree is well formed: comments on the story at depth 0, every
    /// reply one level below the comment that it answers.
    pub closed spec fn tree_wf(&self) -> bool {
        self.tree.wf()
    }

    /// The ids that have to be asked of the service now: those that the
    /// tree waits for, that the cache has no record of, and that were not
    /// asked for this view before, each once. They count as asked from
    /// here on, so that no id is asked twice for one view.
    pub fn take_requests(&mut self, cache: &CommentCache) -> (r: Vec<u64>)
        ensures
            r@ == ids_to_fetch(
                forest_pending(old(self)@.tree),
                cache@.dom(),
                old(self)@.requested,
            ),
            final(self)@ == (CommentViewModel {
                requested: old(self)@.requested + r@,
                ..old(self)@
            }),
            final(self).tree_wf() == old(self).tree_wf(),
    {
        let ids = cache.requests_for(&self.tree, &self.requested);
        let mut i: usize = 0;
        assert(self.requested@ =~= old(self)@.requested + ids@.take(0));
        while i < ids.len()
            invariant
                i <= ids.len(),
                self.story_id == old(self).story_id,
                self.story_url == old(self).story_url,
                self.tree == old(self).tree,
                self.focus == old(self).focus,
                self.requested@ == old(self)@.requested + ids@.take(i as int),
            decreases ids.len() - i,
        {
            self.requested.push(ids[i]);
            i = i + 1;
            assert(self.requested@ =~= old(self)@.requested + ids@.take(i as int));
        }
        assert(ids@.take(ids.len() as int) =~= ids@);
        ids
    }

    /// The rows on the screen, in the order in which the discussion reads.
    pub fn rows(&self) -> (r: Vec<Row>)
        ensures
            row_models(r@) == self@.rows(),
    {
        self.tree.rows()
    }

    /// The id of the comment under the focus; none where there is no row.
    pub fn focused_id(&self) -> (r: Option<u64>)
        ensures
            r == match self@.focused_row() {
                Some(row) => Some(row.id),
                None => None::<u64>,
            },
    {
        let rows = self.tree.rows();
        if self.focus.current < rows.len() {
            Some(rows[self.focus.current].id)
        } else {
            None
        }
    }

    /// Folds the comment with this id if it is open, and opens it if it is
    /// folded. The rows are taken anew, and a focus that would point past
    /// the last row is pulled back onto it. Returns whether there is such a
    /// comment.
    pub fn toggle_collapse(&mut self, node_id: u64) -> (found: bool)
        ensures
            found == forest_contains_id(old(self)@.tree, node_id),
            final(self)@.story_id == old(self)@.story_id,
            final(self)@.story_url == old(self)@.story_url,
            final(self)@.requested == old(self)@.requested,
            final(self)@.tree == toggle_forest(old(self)@.tree, node_id),
            final(self)@.focus == spec_resize(
                old(self)@.focus,
                final(self)@.rows().len() as usize,
            ),
            final(self)@.wf(),
            old(self).tree_wf() ==> final(self).tree_wf(),
    {
        let found = self.tree.toggle_collapse(node_id);
        let rows = self.tree.rows();
        self.focus.resize(rows.len());
        found
    }

    /// Folds or opens the comment under the focus. Returns whether there
    /// is a row under the focus.
    pub fn toggle_focused(&mut self) -> (found: bool)
        ensures
            found == old(self)@.focused_row() is Some,
            final(self)@.story_id == old(self)@.story_id,
            final(self)@.story_url == old(self)@.story_url,
            final(self)@.requested == old(self)@.requested,
            old(self).tree_wf() ==> final(self).tree_wf(),
            final(self)@.tree == match old(self)@.focused_row() {
                Some(row) => toggle_forest(old(self)@.tree, row.id),
                None => old(self)@.tree,
            },
            final(self)@.focus == match old(self)@.focused_row() {
                Some(row) => spec_resize(old(self)@.focus, final(self)@.rows().len() as usize),
                None => old(self)@.focus,
            },
            old(self)@.wf() ==> final(self)@.wf(),
    {
        match self.focused_id() {
            Some(id) => {
                self.toggle_collapse(id);
                true
            },
            None => false,
        }
    }

    /// Folds the answer to the request for the comment `id` into the tree.
    /// The rows are taken anew and the focus stays on its row. Returns
    /// whether a node waited for the answer; if none did, the answer is
    /// dropped.
    pub fn deliver(&mut self, id: u64, result: Result<CommentRecord, FetchError>) -> (accepted:
        bool)
        ensures
            accepted == forest_awaits(old(self)@.tree, id),
            final(self)@.story_id == old(self)@.story_id,
            final(self)@.story_url == old(self)@.story_url,
            final(self)@.requested == old(self)@.requested,
            final(self)@.tree == deliver_forest(old(self)@.tree, id, comment_result_model(result)),
            final(self)@.focus == spec_resize(
                old(self)@.focus,
                final(self)@.rows().len() as usize,
            ),
            final(self)@.wf(),
            old(self).tree_wf() ==> final(self).tree_wf(),
    {
        let accepted = self.tree.deliver(id, result);
        let rows = self.tree.rows();
        self.focus.resize(rows.len());
        accepted
    }

    /// Folds the answer to the request for the comment `id` into the tree,
    /// and with it what the cache has of the replies that come to wait by
    /// it, in at most `rounds` rounds. The rows are taken anew and the
    /// focus stays on its row. Returns whether a node waited for the
    /// answer; if none did, the answer is dropped.
    pub fn deliver_filled(
        &mut self,
        id: u64,
        result: Result<CommentRecord, FetchError>,
        cache: &CommentCache,
        rounds: usize,
    ) -> (accepted: bool)
        ensures
            accepted == forest_awaits(old(self)@.tree, id),
            final(self)@.story_id == old(self)@.story_id,
            final(self)@.story_url == old(self)@.story_url,
            final(self)@.requested == old(self)@.requested,
            final(self)@.tree == fill_rounds(
                deliver_forest(old(self)@.tree, id, comment_result_model(result)),
                cache@,
                rounds as nat,
            ),
            final(self)@.focus == spec_resize(
                old(self)@.focus,
                final(self)@.rows().len() as usize,
            ),
            final(self)@.wf(),
            old(self).tree_wf() ==> final(self).tree_wf(),
    {
        let accepted = self.tree.deliver(id, result);
        cache.fill_all(&mut self.tree, rounds);
        let rows = self.tree.rows();
        self.focus.resize(rows.len());
        accepted
    }
}

impl ListEventView for CommentView {
    /// The focus moves as that of its index does; the tree stays.
    open spec fn focus_moved_up(pre: Self, post: Self, result: EventResult) -> bool {
        &&& (post@.focus, result) == spec_focus_up(pre@.focus)
        &&& post@.tree == pre@.tree
        &&& post@.story_id == pre@.story_id
        &&& post@.story_url == pre@.story_url
        &&& post@.requested == pre@.requested
    }

    open spec fn focus_moved_down(pre: Self, post: Self, result: EventResult) -> bool {
        &&& (post@.focus, result) == spec_focus_down(pre@.focus)
        &&& post@.tree == pre@.tree
        &&& post@.story_id == pre@.story_id
        &&& post@.story_url == pre@.story_url
        &&& post@.requested == pre@.requested
    }

    fn focus_up(&mut self) -> (r: Option<EventResult>)
        ensures
            r is Some,
    {
        Some(self.focus.move_up())
    }

    fn focus_down(&mut self) -> (r: Option<EventResult>)
        ensures
            r is Some,
    {
        Some(self.focus.move_down())
    }
}

/// The view of the comments of a story with its keys: `j` and `k` move the
/// focus over the rows, and `comment_view_on_event` says what the others
/// ask for.
pub fn get_comment_view(story_id: u64, story_url: Option<String>, tree: PartialTree) -> (r:
    EventView<CommentView>)
    ensures
        r.inner@.story_id == story_id,
        r.inner@.story_url == opt_chars(story_url),
        r.inner@.tree == tree@,
        r.inner@.focus == (FocusIndex { current: 0, length: forest_rows(tree@).len() as usize }),
        r.inner@.requested == Seq::<u64>::empty(),
        r.inner@.wf(),
{
    construct_event_view(CommentView::new(story_id, story_url, tree))
}

/// What a key asks the program to do with a discussion.
#[derive(Debug, PartialEq, Eq)]
pub enum CommentAction {
    /// Nothing beyond the view itself: the answer of the view to the key,
    /// `None` where it did not handle it.
    Key(Option<EventResult>),
    /// Open the link of the story in the browser.
    OpenUrl { url: String },
    /// Leave the program.
    Quit,
}

pub ghost enum CommentActionModel {
    Key(Option<EventResult>),
    OpenUrl { url: Seq<char> },
    Quit,
}

impl View for CommentAction {
    type V = CommentActionModel;

    open spec fn view(&self) -> CommentActionModel {
        match self {
            CommentAction::Key(r) => CommentActionModel::Key(*r),
            CommentAction::OpenUrl { url } => CommentActionModel::OpenUrl { url: url@ },
            CommentAction::Quit => CommentActionModel::Quit,
        }
    }
}

/// The view after the comment under the focus was folded or opened; the
/// view itself where there is no row under the focus.
pub open spec fn toggled_at_focus(view: CommentViewModel) -> CommentViewModel {
    match view.focused_row() {
        Some(row) => {
            let tree = toggle_forest(view.tree, row.id);
            CommentViewModel {
                tree,
                focus: spec_resize(view.focus, forest_rows(tree).len() as usize),
                ..view
            }
        },
        None => view,
    }
}

/// Hands a key to a discussion and says what is to be done. `j` and `k`
/// move the focus. `Enter` folds the comment under the focus, or opens it;
/// without a row under the focus it is not handled. `O` asks for the link
/// of the story to be opened, and is consumed with nothing to do where the
/// story has none. `q` leaves.
pub fn comment_view_on_event(view: &mut EventView<CommentView>, event: Event) -> (action:
    CommentAction)
    ensures
        event == Event::Enter ==> {
            &&& final(view).inner@ == toggled_at_focus(old(view).inner@)
            &&& action@ == CommentActionModel::Key(
                if old(view).inner@.focused_row() is Some {
                    Some(EventResult::Consumed)
                } else {
                    None
                },
            )
        },
        event == Event::Char('O') ==> {
            &&& final(view).inner@ == old(view).inner@
            &&& action@ == match old(view).inner@.story_url {
                Some(url) => CommentActionModel::OpenUrl { url },
                None => CommentActionModel::Key(Some(EventResult::Consumed)),
            }
        },
        event == Event::Char('q') ==> {
            &&& final(view).inner@ == old(view).inner@
            &&& action@ == CommentActionModel::Quit
        },
        event != Event::Enter && event != Event::Char('O') && event != Event::Char('q') ==> {
            &&& action matches CommentAction::Key(r)
            &&& key_handled(*old(view), *final(view), event, r)
        },
{
    match event {
        Event::Enter => {
            if view.inner.toggle_focused() {
                CommentAction::Key(Some(EventResult::Consumed))
            } else {
                CommentAction::Key(None)
            }
        },
        Event::Char(c) => {
            if c == 'O' {
                match &view.inner.story_url {
                    Some(url) => CommentAction::OpenUrl { url: url.clone() },
                    None => CommentAction::Key(Some(EventResult::Consumed)),
                }
            } else if c == 'q' {
                CommentAction::Quit
            } else {
                CommentAction::Key(view.on_event(event))
            }
        },
        Event::Other => CommentAction::Key(view.on_event(event)),
    }
}

} // verus!

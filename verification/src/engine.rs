//! The loading of stories and discussions as the interface drives it.
//!
//! The engine fetches nothing and draws nothing. The interface tells it what
//! the reader asked for and what the background requests brought; the engine
//! says what is to be fetched next and what is to be shown. In between it
//! keeps the requests apart, so that an answer that comes late for a view
//! that was left changes nothing, and it keeps what was fetched, so that no
//! comment is asked for twice.

use crate::cache::{fill_rounds, ids_to_fetch, CommentCache};
use crate::comment_tree::{forest_rows, NodeModel};
use crate::focus::{spec_resize, FocusIndex};
use crate::hn_client::{
    comment_result_model, story_models, CommentRecord, CommentRecordModel, FetchError,
    FetchErrorKind, FetchErrorModel, StoryModel,
};
use crate::orchestrator::{
    answer_models, assemble_story_list, reaches_view, story_list_model, story_list_of,
    without_first, FetchOutcome, Orchestrator, OrchestratorModel, StoryAnswer,
};
use crate::text::opt_chars;
use crate::tree_builder::{deliver_forest, forest_pending, pending_forest, Answer};
use crate::view::comment_view::{CommentView, CommentViewModel};
use crate::view::event_view::EventView;
use crate::view::story_view::{fresh_story_view, get_story_view, StoryView};
use crate::view::utils::{spec_tag_title, tag_title};
use vstd::prelude::*;

verus! {

/// The correlation id of the requests for a list of stories. The requests
/// for the comments of a story carry the id of the story.
pub const LIST_CORRELATION: u64 = 0;

/// For how many rounds in a row the cache is asked what it has of the
/// replies that came to wait by its own answers.
pub const CACHE_ROUNDS: usize = 64;

/// The requests under way, the view on screen, and the comments fetched in
/// this session.
#[derive(Debug)]
pub struct Engine {
    orchestrator: Orchestrator,
    cache: CommentCache,
}

pub ghost struct EngineModel {
    pub orchestrator: OrchestratorModel,
    pub cache: Map<u64, CommentRecordModel>,
}

impl View for Engine {
    type V = EngineModel;

    closed spec fn view(&self) -> EngineModel {
        EngineModel { orchestrator: self.orchestrator@, cache: self.cache@ }
    }
}

/// The request for one page of a category of stories.
#[derive(Debug, PartialEq, Eq)]
pub struct StoryListRequest {
    pub tag: String,
    pub by_date: bool,
    pub page: usize,
}

/// The requests after `count` more were registered for the view
/// `correlation`, which is on screen from then on.
pub open spec fn after_issue(state: OrchestratorModel, correlation: u64, count: nat)
    -> OrchestratorModel {
    OrchestratorModel {
        current: Some(correlation),
        in_flight: state.in_flight + Seq::new(count, |i: int| correlation),
    }
}

/// The requests after the answer of one for `correlation` has come.
pub open spec fn after_answer(state: OrchestratorModel, correlation: u64) -> OrchestratorModel {
    OrchestratorModel {
        current: state.current,
        in_flight: without_first(state.in_flight, correlation),
    }
}

/// What the answers to the requests for a list of stories make: the list,
/// or the failure of the request for its ids, or the first failure among
/// the requests for its stories that is more than a missing record.
pub open spec fn listed_stories(listing: Result<Vec<StoryAnswer>, FetchError>) -> Result<
    Seq<StoryModel>,
    FetchErrorModel,
> {
    match listing {
        Ok(answers) => story_list_of(answer_models(answers@)),
        Err(error) => Err(error@),
    }
}

/// The tree of a discussion as it is first shown: one node for each comment
/// on the story, with what the cache has of the discussion filled in.
pub open spec fn opened_tree(comment_ids: Seq<u64>, cached: Map<u64, CommentRecordModel>) -> Seq<
    NodeModel,
> {
    fill_rounds(pending_forest(comment_ids, 0), cached, CACHE_ROUNDS as nat)
}

/// The view of a discussion after the answer for the comment `id` was
/// folded in: the answer stands in the tree, with what the cache has of the
/// replies that came to wait; the focus stays on its row; and the ids that
/// now have to be asked count as asked.
pub open spec fn view_after_answer(
    view: CommentViewModel,
    id: u64,
    answer: Answer,
    cached: Map<u64, CommentRecordModel>,
) -> CommentViewModel {
    let tree = fill_rounds(deliver_forest(view.tree, id, answer), cached, CACHE_ROUNDS as nat);
    CommentViewModel {
        tree,
        focus: spec_resize(view.focus, forest_rows(tree).len() as usize),
        requested: view.requested + ids_to_fetch(forest_pending(tree), cached.dom(), view.requested),
        ..view
    }
}

/// The cache after the answer for the comment `id` has come: a record is
/// kept, a failure is not.
pub open spec fn cache_after_answer(
    cached: Map<u64, CommentRecordModel>,
    id: u64,
    answer: Answer,
) -> Map<u64, CommentRecordModel> {
    match answer {
        Ok(record) => cached.insert(id, record),
        Err(_) => cached,
    }
}

/// Whether the answer to a request for a comment of the story `story_id`
/// goes into `view`: the request is under way, the discussion of the story
/// is on screen, `view` shows it, and the request was not cancelled.
pub open spec fn answer_goes_to_view(
    state: OrchestratorModel,
    view: CommentViewModel,
    story_id: u64,
    answer: Answer,
) -> bool {
    &&& reaches_view(state, story_id)
    &&& view.story_id == story_id
    &&& !(answer matches Err(error) && error.kind == FetchErrorKind::Cancelled)
}

/// What the interface is handed when the answers to a request for a list
/// of stories have come, where `listed` is what the answers make: the view
/// of the list as some time of the clock makes it, or the failure for the
/// banner, if a list of stories is what the screen waits for; nothing if
/// not, and nothing for a request that was cancelled.
pub open spec fn story_list_shown(
    state: OrchestratorModel,
    listed: Result<Seq<StoryModel>, FetchErrorModel>,
    shown: Option<FetchOutcome<EventView<StoryView>>>,
) -> bool {
    if !reaches_view(state, LIST_CORRELATION) {
        shown is None
    } else {
        match listed {
            Ok(stories) => {
                &&& shown matches Some(FetchOutcome::Ready(view))
                &&& exists|now: u64| view.inner@ == #[trigger] fresh_story_view(stories, now)
            },
            Err(error) => if error.kind == FetchErrorKind::Cancelled {
                shown is None
            } else {
                &&& shown matches Some(FetchOutcome::Failed(kind, message))
                &&& kind == error.kind
                &&& message@ == error.message
            },
        }
    }
}

impl Engine {
    /// An engine with nothing under way, nothing on screen and nothing
    /// fetched.
    pub fn new() -> (r: Engine)
        ensures
            r@ == (EngineModel {
                orchestrator: OrchestratorModel { current: None, in_flight: Seq::empty() },
                cache: Map::empty(),
            }),
    {
        Engine { orchestrator: Orchestrator::new(), cache: CommentCache::new() }
    }

    /// The reader asked for one page of the stories under `tag`. Returns
    /// the request that a background thread is to run, and counts it as
    /// under way; for a tag that does not exist, nothing is asked and
    /// nothing changes.
    pub fn load_category(&mut self, tag: &str, by_date: bool, page: usize) -> (r: Option<
        StoryListRequest,
    >)
        ensures
            r is Some == spec_tag_title(tag@) is Some,
            r matches Some(request) ==> {
                &&& request.tag@ == tag@
                &&& request.by_date == by_date
                &&& request.page == page
                &&& final(self)@ == (EngineModel {
                    orchestrator: after_issue(old(self)@.orchestrator, LIST_CORRELATION, 1),
                    cache: old(self)@.cache,
                })
            },
            r is None ==> final(self)@ == old(self)@,
    {
        match tag_title(tag) {
            Some(_) => {
                self.orchestrator.issue_many(LIST_CORRELATION, 1);
                Some(StoryListRequest { tag: tag.to_owned(), by_date, page })
            },
            None => None,
        }
    }

    /// The reader asked for the front page: the first page of the most
    /// popular stories.
    pub fn load_front_page(&mut self) -> (request: StoryListRequest)
        ensures
            request.tag@ == "front_page"@,
            !request.by_date,
            request.page == 0,
            final(self)@ == (EngineModel {
                orchestrator: after_issue(old(self)@.orchestrator, LIST_CORRELATION, 1),
                cache: old(self)@.cache,
            }),
    {
        self.orchestrator.issue_many(LIST_CORRELATION, 1);
        StoryListRequest { tag: "front_page".to_owned(), by_date: false, page: 0 }
    }

    /// The answers to a request for a list of stories have come: the
    /// failure of the request for the ids, or one answer for each id, in
    /// the order of the ids. The request is no longer under way. If a list
    /// of stories is still what the screen waits for, the outcome is handed
    /// back: the view of the list, or the failure for the banner. Otherwise
    /// the answers are dropped.
    pub fn story_list_loaded(&mut self, listing: Result<Vec<StoryAnswer>, FetchError>) -> (r:
        Option<FetchOutcome<EventView<StoryView>>>)
        ensures
            final(self)@ == (EngineModel {
                orchestrator: after_answer(old(self)@.orchestrator, LIST_CORRELATION),
                cache: old(self)@.cache,
            }),
            story_list_shown(old(self)@.orchestrator, listed_stories(listing), r),
    {
        let result = match listing {
            Ok(answers) => assemble_story_list(&answers),
            Err(error) => Err(error),
        };
        let ghost listed = listed_stories(listing);
        let ghost state = self@.orchestrator;
        assert(story_list_model(result) == listed);
        match self.orchestrator.complete(LIST_CORRELATION, result) {
            Some(FetchOutcome::Ready(stories)) => {
                let view = get_story_view(stories);
                let shown = Some(FetchOutcome::Ready(view));
                proof {
                    let now = choose|now: u64|
                        view.inner@ == fresh_story_view(story_models(stories@), now);
                    assert(view.inner@ == fresh_story_view(listed->Ok_0, now));
                    assert(story_list_shown(state, listed, shown));
                }
                shown
            },
            Some(FetchOutcome::Failed(kind, message)) => {
                let shown = Some(FetchOutcome::Failed(kind, message));
                assert(story_list_shown(state, listed, shown));
                shown
            },
            Some(FetchOutcome::Pending) => None,
            None => None,
        }
    }

    /// The reader opened the discussion of a story, of which the ids of the
    /// comments on the story are known. Returns the view to put on screen,
    /// with what the cache has of the discussion, and the ids of the
    /// comments that background threads are to fetch, each of which counts
    /// as under way.
    pub fn open_story(
        &mut self,
        story_id: u64,
        story_url: Option<String>,
        comment_ids: &Vec<u64>,
    ) -> (r: (CommentView, Vec<u64>))
        ensures
            r.0@ == (CommentViewModel {
                story_id,
                story_url: opt_chars(story_url),
                tree: opened_tree(comment_ids@, old(self)@.cache),
                focus: FocusIndex {
                    current: 0,
                    length: forest_rows(opened_tree(comment_ids@, old(self)@.cache)).len() as usize,
                },
                requested: r.1@,
            }),
            r.0@.wf(),
            r.0.tree_wf(),
            r.1@ == ids_to_fetch(
                forest_pending(opened_tree(comment_ids@, old(self)@.cache)),
                old(self)@.cache.dom(),
                Seq::empty(),
            ),
            final(self)@ == (EngineModel {
                orchestrator: after_issue(old(self)@.orchestrator, story_id, r.1@.len()),
                cache: old(self)@.cache,
            }),
    {
        let mut view = CommentView::open(
            story_id,
            story_url,
            comment_ids,
            &self.cache,
            CACHE_ROUNDS,
        );
        let ids = view.take_requests(&self.cache);
        self.orchestrator.issue_many(story_id, ids.len());
        assert(Seq::<u64>::empty() + ids@ =~= ids@);
        (view, ids)
    }

    /// The answer to the request for the comment `id` of the story
    /// `story_id` has come, while `view` is the discussion on screen. A
    /// record is kept in the cache whatever is on screen. The request is no
    /// longer under way. If the discussion of the story is still on screen
    /// the answer is folded into `view`; otherwise it is dropped and `view`
    /// stays as it is. Returns the ids of the comments that background
    /// threads are to fetch next, each of which counts as under way.
    pub fn comment_loaded(
        &mut self,
        view: &mut CommentView,
        story_id: u64,
        id: u64,
        result: Result<CommentRecord, FetchError>,
    ) -> (r: Vec<u64>)
        ensures
            final(self)@.cache == cache_after_answer(
                old(self)@.cache,
                id,
                comment_result_model(result),
            ),
            if answer_goes_to_view(
                old(self)@.orchestrator,
                old(view)@,
                story_id,
                comment_result_model(result),
            ) {
                &&& final(view)@ == view_after_answer(
                    old(view)@,
                    id,
                    comment_result_model(result),
                    final(self)@.cache,
                )
                &&& final(view)@.requested == old(view)@.requested + r@
                &&& final(self)@.orchestrator == after_issue(
                    after_answer(old(self)@.orchestrator, story_id),
                    story_id,
                    r@.len(),
                )
            } else {
                &&& final(view)@ == old(view)@
                &&& r@.len() == 0
                &&& final(self)@.orchestrator == after_answer(old(self)@.orchestrator, story_id)
            },
            old(view)@.wf() ==> final(view)@.wf(),
            old(view).tree_wf() ==> final(view).tree_wf(),
    {
        let ghost answer = comment_result_model(result);
        match &result {
            Ok(record) => {
                self.cache.store(id, record.duplicate());
            },
            Err(_) => {},
        }
        let delivered: Result<CommentRecord, FetchError> = match self.orchestrator.complete(
            story_id,
            result,
        ) {
            Some(FetchOutcome::Ready(record)) => Ok(record),
            Some(FetchOutcome::Failed(kind, message)) => Err(FetchError { kind, message }),
            Some(FetchOutcome::Pending) => {
                return Vec::new();
            },
            None => {
                return Vec::new();
            },
        };
        assert(comment_result_model(delivered) == answer);
        if view.story_id() != story_id {
            return Vec::new();
        }
        view.deliver_filled(id, delivered, &self.cache, CACHE_ROUNDS);
        let ids = view.take_requests(&self.cache);
        self.orchestrator.issue_many(story_id, ids.len());
        ids
    }

    /// The reader left the view on screen. What is still under way for it
    /// will be dropped when it comes.
    pub fn close_view(&mut self)
        ensures
            final(self)@ == (EngineModel {
                orchestrator: OrchestratorModel {
                    current: None,
                    in_flight: old(self)@.orchestrator.in_flight,
                },
                cache: old(self)@.cache,
            }),
    {
        self.orchestrator.navigate_away();
    }

    pub fn orchestrator(&self) -> (r: &Orchestrator)
        ensures
            r@ == self@.orchestrator,
    {
        &self.orchestrator
    }

    pub fn cache(&self) -> (r: &CommentCache)
        ensures
            r@ == self@.cache,
    {
        &self.cache
    }
}

} // verus!

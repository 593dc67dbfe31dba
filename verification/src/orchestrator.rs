//! Keeping the answers of background requests apart.
//!
//! Every request runs off the interactive thread and is tagged with the
//! correlation id of the view that asked, such as the id of the story
//! whose comments are loaded. The orchestrator remembers which requests are
//! under way and which view is on screen. When an answer comes it is handed
//! on once, and only if the view that asked is still the one on screen:
//! answers of requests that were superseded are dropped.

use crate::hn_client::{
    placeholder_story, story_models, story_result_model, FetchError, FetchErrorKind,
    FetchErrorModel, Story, StoryModel,
};
use vstd::prelude::*;

verus! {

/// What a view learns of its request.
#[derive(Debug, PartialEq, Eq)]
pub enum FetchOutcome<T> {
    /// The value is there.
    Ready(T),
    /// The request failed, with the kind of failure and a message.
    Failed(FetchErrorKind, String),
    /// The answer has not come yet.
    Pending,
}

/// The outcome that the answer to a request stands for.
pub open spec fn outcome_of<T>(result: Result<T, FetchError>) -> FetchOutcome<T> {
    match result {
        Ok(value) => FetchOutcome::Ready(value),
        Err(error) => FetchOutcome::Failed(error.kind, error.message),
    }
}

/// How often a request that failed is tried again.
pub const MAX_RETRIES: u32 = 1;

/// Whether a request that failed with `kind`, after `retries` further tries,
/// is tried once more: only where the network failed, and only once. An
/// answer that could not be read, and an id without a record, would be the
/// same again.
pub fn should_retry(kind: FetchErrorKind, retries: u32) -> (r: bool)
    ensures
        r == (kind == FetchErrorKind::Network && retries < MAX_RETRIES),
{
    match kind {
        FetchErrorKind::Network => retries < MAX_RETRIES,
        _ => false,
    }
}

/// The index of the first `x` in `s`; the length of `s` if there is none.
pub open spec fn first_index_of(s: Seq<u64>, x: u64) -> int
    decreases s.len(),
{
    if s.len() == 0 {
        0
    } else if s[0] == x {
        0
    } else {
        1 + first_index_of(s.drop_first(), x)
    }
}

/// `s` without its first `x`; `s` itself if there is none.
pub open spec fn without_first(s: Seq<u64>, x: u64) -> Seq<u64> {
    if s.contains(x) {
        s.remove(first_index_of(s, x))
    } else {
        s
    }
}

/// The ticket for a request that is under way.
#[derive(Clone, Copy, Debug, PartialEq, Eq, Structural)]
pub struct PendingHandle {
    pub correlation: u64,
}

/// The requests that are under way, and the view that is on screen.
#[derive(Debug, PartialEq, Eq)]
pub struct Orchestrator {
    current: Option<u64>,
    in_flight: Vec<u64>,
}

pub ghost struct OrchestratorModel {
    /// The correlation id of the view on screen, if a view waits for or
    /// shows the answer of a request.
    pub current: Option<u64>,
    /// The correlation ids of the requests under way, oldest first.
    pub in_flight: Seq<u64>,
}

impl View for Orchestrator {
    type V = OrchestratorModel;

    closed spec fn view(&self) -> OrchestratorModel {
        OrchestratorModel { current: self.current, in_flight: self.in_flight@ }
    }
}

/// Whether an answer to the request `correlation` finds its view: the
/// request is under way, and its view is the one on screen.
pub open spec fn reaches_view(state: OrchestratorModel, correlation: u64) -> bool {
    &&& state.in_flight.contains(correlation)
    &&& state.current == Some(correlation)
}

/// Whether the answer to the request `correlation` is handed on: it finds
/// its view, and it was not cancelled.
pub open spec fn is_delivered<T>(
    state: OrchestratorModel,
    correlation: u64,
    result: Result<T, FetchError>,
) -> bool {
    &&& reaches_view(state, correlation)
    &&& !(result matches Err(error) && error.kind == FetchErrorKind::Cancelled)
}

/// Where `i` is the first place of `x` in `s`, it is its first index.
pub proof fn lemma_first_index_of(s: Seq<u64>, x: u64, i: int)
    requires
        0 <= i <= s.len(),
        forall|j: int| 0 <= j < i ==> s[j] != x,
        i < s.len() ==> s[i] == x,
    ensures
        first_index_of(s, x) == i,
        s.contains(x) == (i < s.len()),
    decreases s.len(),
{
    if s.len() > 0 && s[0] != x {
        let rest = s.drop_first();
        assert forall|j: int| 0 <= j < i - 1 implies rest[j] != x by {
            assert(rest[j] == s[j + 1]);
        }
        lemma_first_index_of(rest, x, i - 1);
        if rest.contains(x) {
            let k = choose|k: int| 0 <= k < rest.len() && rest[k] == x;
            assert(s[k + 1] == x);
        }
        if s.contains(x) {
            let k = choose|k: int| 0 <= k < s.len() && s[k] == x;
            assert(rest[k - 1] == x);
        }
    } else if s.len() > 0 {
        assert(s[0] == x);
    }
}

impl Orchestrator {
    /// An orchestrator with no request under way and no view on screen.
    pub fn new() -> (r: Orchestrator)
        ensures
            r@ == (OrchestratorModel { current: None, in_flight: Seq::empty() }),
    {
        Orchestrator { current: None, in_flight: Vec::new() }
    }

    /// Registers a request for the view with this correlation id, which
    /// becomes the view on screen. Returns at once; the request itself runs
    /// elsewhere.
    pub fn issue(&mut self, correlation: u64) -> (handle: PendingHandle)
        ensures
            handle.correlation == correlation,
            final(self)@ == (OrchestratorModel {
                current: Some(correlation),
                in_flight: old(self)@.in_flight.push(correlation),
            }),
    {
        self.current = Some(correlation);
        self.in_flight.push(correlation);
        PendingHandle { correlation }
    }

    /// Registers `count` requests for the view with this correlation id,
    /// which becomes the view on screen even where `count` is 0.
    pub fn issue_many(&mut self, correlation: u64, count: usize)
        ensures
            final(self)@ == (OrchestratorModel {
                current: Some(correlation),
                in_flight: old(self)@.in_flight + Seq::new(count as nat, |i: int| correlation),
            }),
    {
        self.current = Some(correlation);
        let mut i: usize = 0;
        assert(self.in_flight@ =~= old(self)@.in_flight + Seq::new(0nat, |i: int| correlation));
        while i < count
            invariant
                i <= count,
                self.current == Some(correlation),
                self.in_flight@ == old(self)@.in_flight + Seq::new(i as nat, |k: int| correlation),
            decreases count - i,
        {
            self.in_flight.push(correlation);
            i = i + 1;
            assert(self.in_flight@ =~= old(self)@.in_flight + Seq::new(
                i as nat,
                |k: int| correlation,
            ));
        }
    }

    /// Takes the answer of the request `correlation`. The request is no
    /// longer under way. The outcome is handed back if the view that asked
    /// is still on screen; otherwise the answer is dropped and `None` comes
    /// back, as it does for an answer that no request is waiting for, so
    /// that no request is answered twice.
    pub fn complete<T>(&mut self, correlation: u64, result: Result<T, FetchError>) -> (r: Option<
        FetchOutcome<T>,
    >)
        ensures
            final(self)@ == (OrchestratorModel {
                current: old(self)@.current,
                in_flight: without_first(old(self)@.in_flight, correlation),
            }),
            r == if is_delivered(old(self)@, correlation, result) {
                Some(outcome_of(result))
            } else {
                None::<FetchOutcome<T>>
            },
    {
        let ghost before = self.in_flight@;
        let n = self.in_flight.len();
        let mut i: usize = 0;
        while i < n && self.in_flight[i] != correlation
            invariant
                i <= n,
                n == self.in_flight.len(),
                self.in_flight@ == before,
                self.current == old(self).current,
                forall|j: int| 0 <= j < i ==> before[j] != correlation,
            decreases n - i,
        {
            i = i + 1;
        }
        proof {
            lemma_first_index_of(before, correlation, i as int);
        }
        if i == n {
            return None;
        }
        self.in_flight.remove(i);
        let on_screen = match self.current {
            Some(current) => current == correlation,
            None => false,
        };
        if !on_screen {
            return None;
        }
        match result {
            Ok(value) => Some(FetchOutcome::Ready(value)),
            Err(error) => match error.kind {
                FetchErrorKind::Cancelled => None,
                _ => Some(FetchOutcome::Failed(error.kind, error.message)),
            },
        }
    }

    /// The view on screen was left: whatever is still under way is no
    /// longer waited for, and its answers will be dropped.
    pub fn navigate_away(&mut self)
        ensures
            final(self)@ == (OrchestratorModel { current: None, in_flight: old(self)@.in_flight }),
    {
        self.current = None;
    }

    /// What a view with this correlation id knows of its request without
    /// waiting: that it is pending, if one is under way.
    pub fn is_pending(&self, correlation: u64) -> (r: bool)
        ensures
            r == self@.in_flight.contains(correlation),
    {
        let n = self.in_flight.len();
        let mut i: usize = 0;
        while i < n && self.in_flight[i] != correlation
            invariant
                i <= n,
                n == self.in_flight.len(),
                forall|j: int| 0 <= j < i ==> self.in_flight@[j] != correlation,
            decreases n - i,
        {
            i = i + 1;
        }
        proof {
            lemma_first_index_of(self.in_flight@, correlation, i as int);
        }
        i < n
    }

    /// The correlation id of the view on screen.
    pub fn current(&self) -> (r: Option<u64>)
        ensures
            r == self@.current,
    {
        self.current
    }

    /// The number of requests under way.
    pub fn in_flight_count(&self) -> (r: usize)
        ensures
            r == self@.in_flight.len(),
    {
        self.in_flight.len()
    }
}

/// The answer to the request for one story of a list.
#[derive(Debug, PartialEq, Eq)]
pub struct StoryAnswer {
    pub id: u64,
    pub result: Result<Story, FetchError>,
}

pub ghost struct StoryAnswerModel {
    pub id: u64,
    pub result: Result<StoryModel, FetchErrorModel>,
}

impl View for StoryAnswer {
    type V = StoryAnswerModel;

    open spec fn view(&self) -> StoryAnswerModel {
        StoryAnswerModel { id: self.id, result: story_result_model(self.result) }
    }
}

/// The models of a list of answers, one for one.
pub open spec fn answer_models(answers: Seq<StoryAnswer>) -> Seq<StoryAnswerModel> {
    Seq::new(answers.len(), |i: int| answers[i]@)
}

/// The list of stories that a list of answers makes, one story for each
/// answer and in the same order: the story of a record, and a placeholder
/// for an id without a record. If a request failed in any other way the
/// list as a whole has failed, with the first such failure.
pub open spec fn story_list_of(answers: Seq<StoryAnswerModel>) -> Result<
    Seq<StoryModel>,
    FetchErrorModel,
>
    decreases answers.len(),
{
    if answers.len() == 0 {
        Ok(Seq::empty())
    } else {
        match story_list_of(answers.drop_last()) {
            Err(error) => Err(error),
            Ok(stories) => match answers.last().result {
                Ok(story) => Ok(stories.push(story)),
                Err(error) => if error.kind == FetchErrorKind::NotFound {
                    Ok(stories.push(placeholder_story(answers.last().id)))
                } else {
                    Err(error)
                },
            },
        }
    }
}

/// The model of an assembled list of stories.
pub open spec fn story_list_model(result: Result<Vec<Story>, FetchError>) -> Result<
    Seq<StoryModel>,
    FetchErrorModel,
> {
    match result {
        Ok(stories) => Ok(story_models(stories@)),
        Err(error) => Err(error@),
    }
}

/// Makes the list of stories of a category from the answers to the
/// requests for its stories, given in the order of the ids of the category.
pub fn assemble_story_list(answers: &Vec<StoryAnswer>) -> (r: Result<Vec<Story>, FetchError>)
    ensures
        story_list_model(r) == story_list_of(answer_models(answers@)),
{
    let ghost models = answer_models(answers@);
    let mut stories: Vec<Story> = Vec::new();
    let mut i: usize = 0;
    assert(story_models(stories@) =~= Seq::empty());
    assert(models.take(0) =~= Seq::empty());
    while i < answers.len()
        invariant
            i <= answers.len(),
            models == answer_models(answers@),
            story_list_of(models.take(i as int)) == Ok::<Seq<StoryModel>, FetchErrorModel>(
                story_models(stories@),
            ),
        decreases answers.len() - i,
    {
        let ghost before = story_models(stories@);
        proof {
            assert(models.take(i + 1).drop_last() =~= models.take(i as int));
            assert(models.take(i + 1).last() == answers@[i as int]@);
        }
        let answer = &answers[i];
        match &answer.result {
            Ok(story) => {
                stories.push(story.duplicate());
                assert(story_models(stories@) =~= before.push(story@));
            },
            Err(error) => {
                match error.kind {
                    FetchErrorKind::NotFound => {
                        stories.push(Story::placeholder(answer.id));
                        assert(story_models(stories@) =~= before.push(
                            placeholder_story(answer.id),
                        ));
                    },
                    _ => {
                        proof {
                            lemma_story_list_fails_on(models, i as int);
                        }
                        return Err(error.duplicate());
                    },
                }
            },
        }
        i = i + 1;
    }
    proof {
        assert(models.take(answers.len() as int) =~= models);
    }
    Ok(stories)
}

/// A list whose first `i + 1` answers fail as a whole fails with the same
/// failure.
pub proof fn lemma_story_list_fails_on(answers: Seq<StoryAnswerModel>, i: int)
    requires
        0 <= i < answers.len(),
        story_list_of(answers.take(i + 1)) is Err,
    ensures
        story_list_of(answers) == story_list_of(answers.take(i + 1)),
    decreases answers.len(),
{
    if i + 1 == answers.len() {
        assert(answers.take(i + 1) =~= answers);
    } else {
        assert(answers.drop_last().take(i + 1) =~= answers.take(i + 1));
        lemma_story_list_fails_on(answers.drop_last(), i);
    }
}

} // verus!

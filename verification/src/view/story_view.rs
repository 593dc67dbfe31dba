//! The list of the stories of one category, the text of each of its rows,
//! and what its keys ask for.

use crate::focus::{spec_focus_down, spec_focus_up, EventResult, FocusIndex};
use crate::hn_client::{story_models, Story, StoryModel};
use crate::text::{chars_or, clone_opt_string, decimal, opt_chars, spec_decimal, string_or};
use crate::view::event_view::{
    construct_event_view, key_handled, Event, EventView, ListEventView,
};
use crate::view::utils::{
    elapsed_time_as_text, shorten_url, spec_elapsed_text, spec_shorten_url, unix_time_now,
};
use vstd::prelude::*;
use vstd::string::*;

verus! {

/// How a piece of text is drawn.
#[derive(Clone, Copy, Debug, PartialEq, Eq, Structural)]
pub enum TextStyle {
    Plain,
    Link,
    Description,
}

/// A piece of text in one style.
#[derive(Debug, PartialEq, Eq)]
pub struct StyledSpan {
    pub text: String,
    pub style: TextStyle,
}

pub ghost struct SpanModel {
    pub text: Seq<char>,
    pub style: TextStyle,
}

impl View for StyledSpan {
    type V = SpanModel;

    open spec fn view(&self) -> SpanModel {
        SpanModel { text: self.text@, style: self.style }
    }
}

/// The models of the spans of a row, one for one.
pub open spec fn span_models(spans: Seq<StyledSpan>) -> Seq<SpanModel> {
    Seq::new(spans.len(), |i: int| spans[i]@)
}

/// The models of the rows of a list, one for one.
pub open spec fn row_models(rows: Seq<Vec<StyledSpan>>) -> Seq<Seq<SpanModel>> {
    Seq::new(rows.len(), |i: int| span_models(rows[i]@))
}

/// The first line of a row: the story's number, counted from 1, and its
/// title.
pub open spec fn story_headline(index: nat, story: StoryModel) -> Seq<char> {
    spec_decimal(index + 1) + ". "@ + chars_or(story.title, "[deleted]"@)
}

/// The line of a row that shows the story's link, cut to size.
pub open spec fn story_link_line(url: Seq<char>) -> Seq<char> {
    "\n("@ + spec_shorten_url(url) + ")"@
}

/// The last line of a row: points, author, age at the time `now`, and the
/// number of comments.
pub open spec fn story_desc_line(story: StoryModel, now: u64) -> Seq<char> {
    "\n"@ + spec_decimal(story.points as nat) + " points | by "@ + chars_or(
        story.author,
        "[deleted]"@,
    ) + " | "@ + spec_elapsed_text(now, story.time) + " ago | "@ + spec_decimal(
        story.num_comments as nat,
    ) + " comments"@
}

/// The row of the story at `index`: the headline, the link where the story
/// has one, and the description.
pub open spec fn story_row(index: nat, story: StoryModel, now: u64) -> Seq<SpanModel> {
    seq![SpanModel { text: story_headline(index, story), style: TextStyle::Plain }] + (match story.url {
        Some(url) => seq![SpanModel { text: story_link_line(url), style: TextStyle::Link }],
        None => Seq::empty(),
    }) + seq![SpanModel { text: story_desc_line(story, now), style: TextStyle::Description }]
}

/// The rows of a list of stories, in the order of the list.
pub open spec fn story_rows(stories: Seq<StoryModel>, now: u64) -> Seq<Seq<SpanModel>> {
    Seq::new(stories.len(), |i: int| story_row(i as nat, stories[i], now))
}

/// Builds the row of the story at `index`.
pub fn build_story_row(index: usize, story: &Story, now: u64) -> (r: Vec<StyledSpan>)
    requires
        index < usize::MAX,
    ensures
        span_models(r@) == story_row(index as nat, story@, now),
{
    let mut spans: Vec<StyledSpan> = Vec::new();

    let mut headline = decimal((index + 1) as u64);
    headline.append(". ");
    let title = string_or(&story.title, "[deleted]");
    headline.append(title.as_str());
    spans.push(StyledSpan { text: headline, style: TextStyle::Plain });

    match &story.url {
        Some(url) => {
            let mut link = "\n(".to_owned();
            let short = shorten_url(url.as_str());
            link.append(short.as_str());
            link.append(")");
            spans.push(StyledSpan { text: link, style: TextStyle::Link });
        },
        None => {},
    }

    let mut desc = "\n".to_owned();
    let points = decimal(story.points as u64);
    desc.append(points.as_str());
    desc.append(" points | by ");
    let author = string_or(&story.author, "[deleted]");
    desc.append(author.as_str());
    desc.append(" | ");
    let elapsed = elapsed_time_as_text(now, story.time);
    desc.append(elapsed.as_str());
    desc.append(" ago | ");
    let comments = decimal(story.num_comments as u64);
    desc.append(comments.as_str());
    desc.append(" comments");
    spans.push(StyledSpan { text: desc, style: TextStyle::Description });

    assert(span_models(spans@) =~= story_row(index as nat, story@, now));
    spans
}

/// A view that shows the stories of one category (the front page, the
/// newest, the most popular and so on) as a list with a focus.
#[derive(Debug)]
pub struct StoryView {
    focus: FocusIndex,
    stories: Vec<Story>,
    rows: Vec<Vec<StyledSpan>>,
}

pub ghost struct StoryViewModel {
    pub focus: FocusIndex,
    pub stories: Seq<StoryModel>,
    pub rows: Seq<Seq<SpanModel>>,
}

impl View for StoryView {
    type V = StoryViewModel;

    closed spec fn view(&self) -> StoryViewModel {
        StoryViewModel {
            focus: self.focus,
            stories: story_models(self.stories@),
            rows: row_models(self.rows@),
        }
    }
}

/// The view of `stories` as it is made at the time `now`: the focus on the
/// first story, and one row for each story.
pub open spec fn fresh_story_view(stories: Seq<StoryModel>, now: u64) -> StoryViewModel {
    StoryViewModel {
        focus: FocusIndex { current: 0, length: stories.len() as usize },
        stories,
        rows: story_rows(stories, now),
    }
}

/// The story under the focus, if the focus points at one.
pub open spec fn focused_story(view: StoryViewModel) -> Option<StoryModel> {
    if view.focus.current < view.stories.len() {
        Some(view.stories[view.focus.current as int])
    } else {
        None
    }
}

impl StoryView {
    /// The view of `stories`, with the age of each story taken at the time
    /// `now`, in seconds since the epoch.
    pub fn new_at(stories: Vec<Story>, now: u64) -> (r: StoryView)
        ensures
            r@ == fresh_story_view(story_models(stories@), now),
    {
        let mut rows: Vec<Vec<StyledSpan>> = Vec::new();
        let mut i: usize = 0;
        while i < stories.len()
            invariant
                i <= stories.len(),
                rows@.len() == i,
                forall|j: int|
                    0 <= j < i ==> span_models(#[trigger] rows@[j]@) == story_row(
                        j as nat,
                        stories@[j]@,
                        now,
                    ),
            decreases stories.len() - i,
        {
            let row = build_story_row(i, &stories[i], now);
            rows.push(row);
            i = i + 1;
        }
        let focus = FocusIndex::new(stories.len());
        let view = StoryView { focus, stories, rows };
        assert(view@.rows =~= story_rows(story_models(view.stories@), now));
        view
    }

    /// The view of `stories`, with the age of each story taken by the system
    /// clock. The clock is read once; whatever it says, the view is the one
    /// that `new_at` makes for it.
    pub fn new(stories: Vec<Story>) -> (r: StoryView)
        ensures
            exists|now: u64| r@ == fresh_story_view(story_models(stories@), now),
    {
        let now = unix_time_now();
        StoryView::new_at(stories, now)
    }

    pub fn focus(&self) -> (r: FocusIndex)
        ensures
            r == self@.focus,
    {
        self.focus
    }

    pub fn stories(&self) -> (r: &Vec<Story>)
        ensures
            story_models(r@) == self@.stories,
    {
        &self.stories
    }

    pub fn rows(&self) -> (r: &Vec<Vec<StyledSpan>>)
        ensures
            row_models(r@) == self@.rows,
    {
        &self.rows
    }

    /// The story under the focus; none in an empty list.
    pub fn focused(&self) -> (r: Option<&Story>)
        ensures
            r is Some == focused_story(self@) is Some,
            r matches Some(story) ==> focused_story(self@) == Some(story@),
    {
        if self.focus.current < self.stories.len() {
            Some(&self.stories[self.focus.current])
        } else {
            None
        }
    }
}

impl ListEventView for StoryView {
    /// The focus moves as that of its index does; stories and rows stay.
    open spec fn focus_moved_up(pre: Self, post: Self, result: EventResult) -> bool {
        &&& (post@.focus, result) == spec_focus_up(pre@.focus)
        &&& post@.stories == pre@.stories
        &&& post@.rows == pre@.rows
    }

    open spec fn focus_moved_down(pre: Self, post: Self, result: EventResult) -> bool {
        &&& (post@.focus, result) == spec_focus_down(pre@.focus)
        &&& post@.stories == pre@.stories
        &&& post@.rows == pre@.rows
    }

    fn focus_up(&mut self) -> (r: Option<EventResult>)
        ensures
            r is Some,
    {
        Some(self.focus.move_up())
    }

    fn focus_down(&mut self) -> (r: Option<EventResult>)
        ensures
            r is Some,
    {
        Some(self.focus.move_down())
    }
}

/// What a key asks the program to do with a list of stories.
#[derive(Debug, PartialEq, Eq)]
pub enum StoryAction {
    /// Nothing beyond the view itself: the answer of the view to the key,
    /// `None` where it did not handle it.
    Key(Option<EventResult>),
    /// Load the comments of this story and show them in place of the list.
    OpenComments { story_id: u64, story_url: Option<String> },
    /// Open this link in the browser.
    OpenUrl { url: String },
    /// Leave the program.
    Quit,
}

pub ghost enum StoryActionModel {
    Key(Option<EventResult>),
    OpenComments { story_id: u64, story_url: Option<Seq<char>> },
    OpenUrl { url: Seq<char> },
    Quit,
}

impl View for StoryAction {
    type V = StoryActionModel;

    open spec fn view(&self) -> StoryActionModel {
        match self {
            StoryAction::Key(r) => StoryActionModel::Key(*r),
            StoryAction::OpenComments { story_id, story_url } => StoryActionModel::OpenComments {
                story_id: *story_id,
                story_url: opt_chars(*story_url),
            },
            StoryAction::OpenUrl { url } => StoryActionModel::OpenUrl { url: url@ },
            StoryAction::Quit => StoryActionModel::Quit,
        }
    }
}

/// What the key `event` asks for on a list that shows `view`, as far as the
/// list itself stays as it is: `Enter` opens the comments of the story under
/// the focus, `O` opens its link, `q` leaves. In an empty list `Enter` and
/// `O` are not handled, and `O` on a story without a link is consumed with
/// nothing to do. `None` stands for the keys that are left to the wrapped
/// view.
pub open spec fn story_key_action(view: StoryViewModel, event: Event) -> Option<StoryActionModel> {
    if event == Event::Enter {
        Some(
            match focused_story(view) {
                Some(story) => StoryActionModel::OpenComments {
                    story_id: story.id,
                    story_url: story.url,
                },
                None => StoryActionModel::Key(None),
            },
        )
    } else if event == Event::Char('O') {
        Some(
            match focused_story(view) {
                Some(story) => match story.url {
                    Some(url) => StoryActionModel::OpenUrl { url },
                    None => StoryActionModel::Key(Some(EventResult::Consumed)),
                },
                None => StoryActionModel::Key(None),
            },
        )
    } else if event == Event::Char('q') {
        Some(StoryActionModel::Quit)
    } else {
        None
    }
}

/// The view of a list of stories with its keys: `j` and `k` move the focus,
/// and `story_view_on_event` says what the others ask for.
pub fn get_story_view(stories: Vec<Story>) -> (r: EventView<StoryView>)
    ensures
        exists|now: u64| r.inner@ == fresh_story_view(story_models(stories@), now),
{
    construct_event_view(StoryView::new(stories))
}

/// Hands a key to a list of stories and says what is to be done. `j` and
/// `k` move the focus; the keys that ask for something leave the view as it
/// is.
pub fn story_view_on_event(view: &mut EventView<StoryView>, event: Event) -> (action: StoryAction)
    ensures
        match story_key_action(old(view).inner@, event) {
            Some(asked) => action@ == asked && final(view).inner@ == old(view).inner@,
            None => action matches StoryAction::Key(r) && key_handled(
                *old(view),
                *final(view),
                event,
                r,
            ),
        },
{
    match event {
        Event::Enter => {
            match view.inner.focused() {
                Some(story) => StoryAction::OpenComments {
                    story_id: story.id,
                    story_url: clone_opt_string(&story.url),
                },
                None => StoryAction::Key(None),
            }
        },
        Event::Char(c) => {
            if c == 'O' {
                match view.inner.focused() {
                    Some(story) => match &story.url {
                        Some(url) => StoryAction::OpenUrl { url: url.clone() },
                        None => StoryAction::Key(Some(EventResult::Consumed)),
                    },
                    None => StoryAction::Key(None),
                }
            } else if c == 'q' {
                StoryAction::Quit
            } else {
                StoryAction::Key(view.on_event(event))
            }
        },
        Event::Other => StoryAction::Key(view.on_event(event)),
    }
}

/// The answer to `O` once the browser was asked to open the link: the key
/// is consumed if it did, and not handled if it failed.
pub fn url_opened(opened: bool) -> (r: Option<EventResult>)
    ensures
        r == if opened { Some(EventResult::Consumed) } else { None::<EventResult> },
{
    if opened {
        Some(EventResult::Consumed)
    } else {
        None
    }
}

} // verus!

//! The records that the remote service hands out, and the ways in which a
//! request for one can fail.

use crate::text::{clone_ids, clone_opt_string, opt_chars};
use vstd::prelude::*;

verus! {

/// Why a request brought no record.
#[derive(Clone, Copy, Debug, PartialEq, Eq, Structural)]
pub enum FetchErrorKind {
    /// The id has no record. This is data, not a failure: the item shows as
    /// deleted.
    NotFound,
    /// The service could not be reached, or took too long.
    Network,
    /// The answer could not be read.
    Decode,
    /// The view that asked was replaced before the answer came.
    Cancelled,
}

/// A failed request.
#[derive(Debug, PartialEq, Eq)]
pub struct FetchError {
    pub kind: FetchErrorKind,
    pub message: String,
}

pub ghost struct FetchErrorModel {
    pub kind: FetchErrorKind,
    pub message: Seq<char>,
}

impl View for FetchError {
    type V = FetchErrorModel;

    open spec fn view(&self) -> FetchErrorModel {
        FetchErrorModel { kind: self.kind, message: self.message@ }
    }
}

impl FetchError {
    pub fn new(kind: FetchErrorKind, message: &str) -> (r: FetchError)
        ensures
            r@ == (FetchErrorModel { kind, message: message@ }),
    {
        FetchError { kind, message: message.to_owned() }
    }

    /// A copy of the error.
    pub fn duplicate(&self) -> (r: FetchError)
        ensures
            r@ == self@,
    {
        FetchError { kind: self.kind, message: self.message.clone() }
    }
}

/// A submitted item, as fetched. It is not changed after it was made.
#[derive(Debug, PartialEq, Eq)]
pub struct Story {
    pub id: u64,
    pub title: Option<String>,
    pub url: Option<String>,
    pub author: Option<String>,
    pub points: u32,
    pub time: u64,
    pub num_comments: u32,
    pub comment_ids: Vec<u64>,
}

pub ghost struct StoryModel {
    pub id: u64,
    pub title: Option<Seq<char>>,
    pub url: Option<Seq<char>>,
    pub author: Option<Seq<char>>,
    pub points: u32,
    pub time: u64,
    pub num_comments: u32,
    pub comment_ids: Seq<u64>,
}

impl View for Story {
    type V = StoryModel;

    open spec fn view(&self) -> StoryModel {
        StoryModel {
            id: self.id,
            title: opt_chars(self.title),
            url: opt_chars(self.url),
            author: opt_chars(self.author),
            points: self.points,
            time: self.time,
            num_comments: self.num_comments,
            comment_ids: self.comment_ids@,
        }
    }
}

/// The story that stands for an id without a record: no title, no link, no
/// author, no comments.
pub open spec fn placeholder_story(id: u64) -> StoryModel {
    StoryModel {
        id,
        title: None,
        url: None,
        author: None,
        points: 0,
        time: 0,
        num_comments: 0,
        comment_ids: Seq::empty(),
    }
}

/// The models of a list of stories, one for one.
pub open spec fn story_models(stories: Seq<Story>) -> Seq<StoryModel> {
    Seq::new(stories.len(), |i: int| stories[i]@)
}

impl Story {
    /// The story that stands for an id without a record.
    pub fn placeholder(id: u64) -> (r: Story)
        ensures
            r@ == placeholder_story(id),
    {
        Story {
            id,
            title: None,
            url: None,
            author: None,
            points: 0,
            time: 0,
            num_comments: 0,
            comment_ids: Vec::new(),
        }
    }

    /// A copy of the story.
    pub fn duplicate(&self) -> (r: Story)
        ensures
            r@ == self@,
    {
        Story {
            id: self.id,
            title: clone_opt_string(&self.title),
            url: clone_opt_string(&self.url),
            author: clone_opt_string(&self.author),
            points: self.points,
            time: self.time,
            num_comments: self.num_comments,
            comment_ids: clone_ids(&self.comment_ids),
        }
    }

    /// Whether the story shows as deleted: it has neither title nor author.
    pub fn is_deleted(&self) -> (r: bool)
        ensures
            r == (self@.title is None && self@.author is None),
    {
        self.title.is_none() && self.author.is_none()
    }
}

/// One comment, as fetched: its own fields and the ids of its replies, in
/// the order in which they are to be shown.
#[derive(Debug, PartialEq, Eq)]
pub struct CommentRecord {
    pub id: u64,
    pub author: Option<String>,
    pub text: Option<String>,
    pub time: u64,
    pub kids: Vec<u64>,
}

pub ghost struct CommentRecordModel {
    pub id: u64,
    pub author: Option<Seq<char>>,
    pub text: Option<Seq<char>>,
    pub time: u64,
    pub kids: Seq<u64>,
}

impl View for CommentRecord {
    type V = CommentRecordModel;

    open spec fn view(&self) -> CommentRecordModel {
        CommentRecordModel {
            id: self.id,
            author: opt_chars(self.author),
            text: opt_chars(self.text),
            time: self.time,
            kids: self.kids@,
        }
    }
}

impl CommentRecord {
    /// A copy of the record.
    pub fn duplicate(&self) -> (r: CommentRecord)
        ensures
            r@ == self@,
    {
        CommentRecord {
            id: self.id,
            author: clone_opt_string(&self.author),
            text: clone_opt_string(&self.text),
            time: self.time,
            kids: clone_ids(&self.kids),
        }
    }
}

/// The model of the answer to a request for a comment.
pub open spec fn comment_result_model(
    result: Result<CommentRecord, FetchError>,
) -> Result<CommentRecordModel, FetchErrorModel> {
    match result {
        Ok(record) => Ok(record@),
        Err(error) => Err(error@),
    }
}

/// The model of the answer to a request for a story.
pub open spec fn story_result_model(result: Result<Story, FetchError>) -> Result<
    StoryModel,
    FetchErrorModel,
> {
    match result {
        Ok(story) => Ok(story@),
        Err(error) => Err(error@),
    }
}

} // verus!

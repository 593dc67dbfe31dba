//! What the screen shows: lists of stories, comment trees, and the keys that
//! move through them.

pub mod comment_view;
pub mod event_view;
pub mod story_view;
pub mod utils;

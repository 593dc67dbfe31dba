//! Content-loading and comment-tree engine of a terminal client for a
//! story-and-discussion site.
//!
//! The crate holds the state that the interface renders and the keys mutate:
//! the records that come from the remote service, the comment tree that is
//! assembled from them while answers arrive in any order, the bookkeeping
//! that hands each answer to the view that asked for it, and the focus index
//! that moves over a list of stories or over the visible rows of a tree.
//! It fetches nothing and draws nothing: the program around it does both,
//! and tells the engine what the reader asked for and what the requests
//! brought.
//!
//! Every executable function carries a contract that Verus proves. What is
//! taken on trust of code outside the crate is said where it is used: the
//! focus of a toolkit layout and the system clock in `view`, and the cutting
//! of strings by character there too.

pub mod cache;
pub mod comment_tree;
pub mod engine;
pub mod focus;
pub mod hn_client;
pub mod orchestrator;
pub mod text;
pub mod tree_builder;
pub mod tree_laws;
pub mod view;

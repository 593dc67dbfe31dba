//! Keys that move the focus of a list, and the views that answer them.

use crate::focus::{spec_focus_down, spec_focus_up, EventResult, FocusIndex};
use cursive::views::LinearLayout;
use vstd::prelude::*;

verus! {

/// A key, as far as the views of this crate tell keys apart.
#[derive(Clone, Copy, Debug, PartialEq, Eq, Structural)]
pub enum Event {
    Char(char),
    Enter,
    Other,
}

/// A view over a list whose focus can be moved up and down.
///
/// A method that returns `None` did not handle the key and left the view as
/// it was; that is what the provided methods do. One that returns a result
/// moved the view as its relation says.
pub trait ListEventView: Sized {
    /// How `focus_up` may change the view when it returns `result`.
    open spec fn focus_moved_up(pre: Self, post: Self, result: EventResult) -> bool {
        false
    }

    /// How `focus_down` may change the view when it returns `result`.
    open spec fn focus_moved_down(pre: Self, post: Self, result: EventResult) -> bool {
        false
    }

    fn focus_up(&mut self) -> (r: Option<EventResult>)
        ensures
            r is None ==> *final(self) == *old(self),
            r matches Some(e) ==> Self::focus_moved_up(*old(self), *final(self), e),
    {
        None
    }

    fn focus_down(&mut self) -> (r: Option<EventResult>)
        ensures
            r is None ==> *final(self) == *old(self),
            r matches Some(e) ==> Self::focus_moved_down(*old(self), *final(self), e),
    {
        None
    }
}

impl ListEventView for FocusIndex {
    open spec fn focus_moved_up(pre: Self, post: Self, result: EventResult) -> bool {
        (post, result) == spec_focus_up(pre)
    }

    open spec fn focus_moved_down(pre: Self, post: Self, result: EventResult) -> bool {
        (post, result) == spec_focus_down(pre)
    }

    fn focus_up(&mut self) -> (r: Option<EventResult>)
        ensures
            r is Some,
    {
        Some(self.move_up())
    }

    fn focus_down(&mut self) -> (r: Option<EventResult>)
        ensures
            r is Some,
    {
        Some(self.move_down())
    }
}

/// A view with the keys that move its focus: `k` for up, `j` for down.
#[derive(Debug)]
pub struct EventView<T> {
    pub inner: T,
}

/// How `event` may change an event view when the answer is `r`: `k` and `j`
/// go to the inner view, and every other key passes through unhandled.
pub open spec fn key_handled<T: ListEventView>(
    pre: EventView<T>,
    post: EventView<T>,
    event: Event,
    r: Option<EventResult>,
) -> bool {
    if event == Event::Char('k') {
        &&& r is None ==> post == pre
        &&& r matches Some(e) ==> T::focus_moved_up(pre.inner, post.inner, e)
    } else if event == Event::Char('j') {
        &&& r is None ==> post == pre
        &&& r matches Some(e) ==> T::focus_moved_down(pre.inner, post.inner, e)
    } else {
        r is None && post == pre
    }
}

/// Wraps a list view so that `k` moves its focus up and `j` moves it down.
pub fn construct_event_view<T: ListEventView>(view: T) -> (r: EventView<T>)
    ensures
        r.inner == view,
{
    EventView { inner: view }
}

impl<T: ListEventView> EventView<T> {
    /// Hands a key to the view. `None` says that the key was not handled.
    pub fn on_event(&mut self, event: Event) -> (r: Option<EventResult>)
        ensures
            key_handled(*old(self), *final(self), event, r),
    {
        match event {
            Event::Char(c) => {
                if c == 'k' {
                    self.inner.focus_up()
                } else if c == 'j' {
                    self.inner.focus_down()
                } else {
                    None
                }
            },
            _ => None,
        }
    }

    pub fn get_inner(&self) -> (r: &T)
        ensures
            *r == self.inner,
    {
        &self.inner
    }

    pub fn get_inner_mut(&mut self) -> (r: &mut T)
        ensures
            *r == old(self).inner,
            final(self).inner == *final(r),
    {
        &mut self.inner
    }

    pub fn into_inner(self) -> (r: T)
        ensures
            r == self.inner,
    {
        self.inner
    }
}

/// `cursive::views::LinearLayout`, a row or column of child views of which
/// one has the focus. The contracts see of it only how many children it has
/// and which of them it holds as its focus.
#[verifier::external_type_specification]
#[verifier::external_body]
pub struct ExLinearLayout(LinearLayout);

/// The number of children of a layout.
pub uninterp spec fn layout_len(layout: LinearLayout) -> nat;

/// The index that a layout holds as its focus.
pub uninterp spec fn layout_focus(layout: LinearLayout) -> nat;

/// `LinearLayout::get_focus_index`: the index that the layout holds as its
/// focus.
#[verifier::external_body]
fn layout_get_focus_index(layout: &LinearLayout) -> (r: usize)
    ensures
        r == layout_focus(*layout),
{
    layout.get_focus_index()
}

/// `LinearLayout::len`: the number of children.
#[verifier::external_body]
fn layout_child_count(layout: &LinearLayout) -> (r: usize)
    ensures
        r == layout_len(*layout),
{
    layout.len()
}

/// `LinearLayout::set_focus_index`, with its answer reduced to whether it
/// was `Ok`. The layout refuses an index that has no child, and one whose
/// child does not take the focus; then its focus stays where it was. Where
/// it accepts, the index is its new focus. The children stay as many as they
/// were. Whether a child takes the focus is that child's own affair, so
/// nothing says here when the answer is `Ok`.
#[verifier::external_body]
fn layout_set_focus_index(layout: &mut LinearLayout, index: usize) -> (accepted: bool)
    ensures
        layout_len(*final(layout)) == layout_len(*old(layout)),
        accepted ==> index < layout_len(*old(layout)) && layout_focus(*final(layout)) == index,
        !accepted ==> layout_focus(*final(layout)) == layout_focus(*old(layout)),
{
    layout.set_focus_index(index).is_ok()
}

/// The answer to a key after the layout was asked to move its focus.
pub fn focus_change_result(accepted: bool) -> (r: Option<EventResult>)
    ensures
        r == Some(if accepted { EventResult::Consumed } else { EventResult::Ignored }),
{
    if accepted {
        Some(EventResult::Consumed)
    } else {
        Some(EventResult::Ignored)
    }
}

impl ListEventView for LinearLayout {
    /// On the first child nothing is asked and nothing moves. Elsewhere the
    /// layout is asked to focus the child before; the key is consumed if it
    /// did so, and ignored, with the focus where it was, if it refused.
    open spec fn focus_moved_up(pre: Self, post: Self, result: EventResult) -> bool {
        &&& layout_len(post) == layout_len(pre)
        &&& layout_focus(pre) == 0 ==> result == EventResult::Ignored && post == pre
        &&& result == EventResult::Consumed ==> {
            &&& layout_focus(pre) > 0
            &&& layout_focus(post) == layout_focus(pre) - 1
        }
        &&& result == EventResult::Ignored ==> layout_focus(post) == layout_focus(pre)
    }

    /// On the last child, and in a layout without children, nothing is asked
    /// and nothing moves. Elsewhere the layout is asked to focus the child
    /// after; the key is consumed if it did so, and ignored, with the focus
    /// where it was, if it refused.
    open spec fn focus_moved_down(pre: Self, post: Self, result: EventResult) -> bool {
        &&& layout_len(post) == layout_len(pre)
        &&& layout_focus(pre) + 1 >= layout_len(pre) ==> result == EventResult::Ignored && post
            == pre
        &&& result == EventResult::Consumed ==> {
            &&& layout_focus(post) == layout_focus(pre) + 1
            &&& layout_focus(post) < layout_len(pre)
        }
        &&& result == EventResult::Ignored ==> layout_focus(post) == layout_focus(pre)
    }

    fn focus_up(&mut self) -> (r: Option<EventResult>)
        ensures
            r is Some,
    {
        let id = layout_get_focus_index(self);
        match index_before(id) {
            Some(target) => {
                focus_change_result(layout_set_focus_index(self, target))
            },
            None => Some(EventResult::Ignored),
        }
    }

    fn focus_down(&mut self) -> (r: Option<EventResult>)
        ensures
            r is Some,
    {
        let id = layout_get_focus_index(self);
        let len = layout_child_count(self);
        match index_after(id, len) {
            Some(target) => {
                focus_change_result(layout_set_focus_index(self, target))
            },
            None => Some(EventResult::Ignored),
        }
    }
}

/// The child that a layout is asked to focus for a step up from the child
/// `focus`: the one before it; none from the first child, where no step is
/// asked for.
pub fn index_before(focus: usize) -> (r: Option<usize>)
    ensures
        r == if focus > 0 {
            Some((focus - 1) as usize)
        } else {
            None::<usize>
        },
{
    if focus > 0 {
        Some(focus - 1)
    } else {
        None
    }
}

/// The child that a layout of `len` children is asked to focus for a step
/// down from the child `focus`: the one after it; none from the last child
/// and in a layout without children, where no step is asked for.
pub fn index_after(focus: usize, len: usize) -> (r: Option<usize>)
    ensures
        r == if focus + 1 < len {
            Some((focus + 1) as usize)
        } else {
            None::<usize>
        },
{
    if len > 0 && focus < len - 1 {
        Some(focus + 1)
    } else {
        None
    }
}

} // verus!

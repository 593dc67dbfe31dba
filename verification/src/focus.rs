//! The focus index of a navigable sequence.

use vstd::prelude::*;

verus! {

/// What became of a key: it moved the focus, or there was nothing to do.
#[derive(Clone, Copy, Debug, PartialEq, Eq, Structural)]
pub enum EventResult {
    Consumed,
    Ignored,
}

/// The position of the focus in a sequence of `length` rows.
#[derive(Clone, Copy, Debug, PartialEq, Eq, Structural)]
pub struct FocusIndex {
    pub current: usize,
    pub length: usize,
}

/// The index after one step up, and whether the step was taken.
pub open spec fn spec_focus_up(f: FocusIndex) -> (FocusIndex, EventResult) {
    if f.length > 0 && f.current > 0 {
        (FocusIndex { current: (f.current - 1) as usize, length: f.length }, EventResult::Consumed)
    } else {
        (f, EventResult::Ignored)
    }
}

/// The index after one step down, and whether the step was taken.
pub open spec fn spec_focus_down(f: FocusIndex) -> (FocusIndex, EventResult) {
    if f.length > 0 && f.current < f.length - 1 {
        (FocusIndex { current: (f.current + 1) as usize, length: f.length }, EventResult::Consumed)
    } else {
        (f, EventResult::Ignored)
    }
}

/// The index over a sequence whose length has become `length`: the focus
/// stays where it was if that row still exists, else it falls back to the
/// last row.
pub open spec fn spec_resize(f: FocusIndex, length: usize) -> FocusIndex {
    FocusIndex {
        current: if length == 0 {
            0
        } else if f.current >= length {
            (length - 1) as usize
        } else {
            f.current
        },
        length,
    }
}

/// `n` steps up in a row.
pub open spec fn repeat_up(f: FocusIndex, n: nat) -> FocusIndex
    decreases n,
{
    if n == 0 {
        f
    } else {
        repeat_up(spec_focus_up(f).0, (n - 1) as nat)
    }
}

/// `n` steps down in a row.
pub open spec fn repeat_down(f: FocusIndex, n: nat) -> FocusIndex
    decreases n,
{
    if n == 0 {
        f
    } else {
        repeat_down(spec_focus_down(f).0, (n - 1) as nat)
    }
}

impl FocusIndex {
    /// The focus points at a row whenever there is one.
    pub open spec fn wf(self) -> bool {
        self.length > 0 ==> self.current < self.length
    }

    /// The focus on the first of `length` rows.
    pub fn new(length: usize) -> (r: FocusIndex)
        ensures
            r == (FocusIndex { current: 0, length }),
            r.wf(),
    {
        FocusIndex { current: 0, length }
    }

    /// The focus on row `current` of `length`, if there is such a row.
    pub fn at(current: usize, length: usize) -> (r: Option<FocusIndex>)
        ensures
            r == if current < length {
                Some(FocusIndex { current, length })
            } else {
                None::<FocusIndex>
            },
            r matches Some(f) ==> f.wf(),
    {
        if current < length {
            Some(FocusIndex { current, length })
        } else {
            None
        }
    }

    pub fn current(&self) -> (r: usize)
        ensures
            r == self.current,
    {
        self.current
    }

    pub fn length(&self) -> (r: usize)
        ensures
            r == self.length,
    {
        self.length
    }

    /// Moves the focus one row up. On the first row nothing moves: there is
    /// no wrap-around.
    pub fn move_up(&mut self) -> (r: EventResult)
        ensures
            (*final(self), r) == spec_focus_up(*old(self)),
            old(self).wf() ==> final(self).wf(),
    {
        if self.length > 0 && self.current > 0 {
            self.current = self.current - 1;
            EventResult::Consumed
        } else {
            EventResult::Ignored
        }
    }

    /// Moves the focus one row down. On the last row nothing moves.
    pub fn move_down(&mut self) -> (r: EventResult)
        ensures
            (*final(self), r) == spec_focus_down(*old(self)),
            old(self).wf() ==> final(self).wf(),
    {
        if self.length > 0 && self.current < self.length - 1 {
            self.current = self.current + 1;
            EventResult::Consumed
        } else {
            EventResult::Ignored
        }
    }

    /// Binds the index to a sequence that now has `length` rows, pulling the
    /// focus back onto the last row where it would point past the end.
    pub fn resize(&mut self, length: usize)
        ensures
            *final(self) == spec_resize(*old(self), length),
            final(self).wf(),
    {
        if length == 0 {
            self.current = 0;
        } else if self.current >= length {
            self.current = length - 1;
        }
        self.length = length;
    }
}

/// Where `n` steps up lead: as far up as there are rows, and no further.
pub proof fn lemma_repeat_up(f: FocusIndex, n: nat)
    requires
        f.wf(),
        f.length > 0,
    ensures
        repeat_up(f, n) == (FocusIndex {
            current: if n >= f.current { 0 } else { (f.current - n) as usize },
            length: f.length,
        }),
    decreases n,
{
    if n > 0 {
        lemma_repeat_up(spec_focus_up(f).0, (n - 1) as nat);
    }
}

/// Where `n` steps down lead: as far down as there are rows, and no further.
pub proof fn lemma_repeat_down(f: FocusIndex, n: nat)
    requires
        f.wf(),
        f.length > 0,
    ensures
        repeat_down(f, n) == (FocusIndex {
            current: if f.current + n >= f.length {
                (f.length - 1) as usize
            } else {
                (f.current + n) as usize
            },
            length: f.length,
        }),
    decreases n,
{
    if n > 0 {
        lemma_repeat_down(spec_focus_down(f).0, (n - 1) as nat);
    }
}

/// On a sequence that is not empty, as many steps up as it has rows, or
/// more, end on the first row, wherever the focus started; a further step
/// is ignored and moves nothing.
pub proof fn law_focus_up_lands_on_first(f: FocusIndex, n: nat)
    requires
        f.wf(),
        f.length > 0,
        n >= f.length,
    ensures
        repeat_up(f, n) == (FocusIndex { current: 0, length: f.length }),
        spec_focus_up(repeat_up(f, n)) == (repeat_up(f, n), EventResult::Ignored),
{
    lemma_repeat_up(f, n);
}

/// On a sequence that is not empty, as many steps down as it has rows, or
/// more, end on the last row, wherever the focus started; a further step
/// is ignored and moves nothing.
pub proof fn law_focus_down_lands_on_last(f: FocusIndex, n: nat)
    requires
        f.wf(),
        f.length > 0,
        n >= f.length,
    ensures
        repeat_down(f, n) == (FocusIndex { current: (f.length - 1) as usize, length: f.length }),
        spec_focus_down(repeat_down(f, n)) == (repeat_down(f, n), EventResult::Ignored),
{
    lemma_repeat_down(f, n);
}

} // verus!

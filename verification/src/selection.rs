//! Selections on the display and the column that vertical motions aim for.

use crate::display::DisplayPoint;
use vstd::prelude::*;

verus! {

/// The horizontal place that a vertical motion tries to keep, so that moving
/// up and down over short lines comes back to the column it started from.
/// Horizontal places are counted in columns.
#[derive(Clone, Copy, Debug, PartialEq, Eq, Structural)]
pub enum SelectionGoal {
    /// No place is kept; the next vertical motion takes the cursor's.
    Unset,
    /// A column.
    HorizontalPosition(usize),
    /// A column in the given display row of a wrapped line, its first row
    /// being row 0.
    WrappedHorizontalPosition(usize, usize),
    /// A span of columns; vertical motions aim for its end.
    HorizontalRange { start: usize, end: usize },
}

/// `a` comes before `b` on the display.
pub open spec fn display_before(a: DisplayPoint, b: DisplayPoint) -> bool {
    a.row < b.row || (a.row == b.row && a.column < b.column)
}

/// Decides whether `a` comes before `b` on the display.
pub fn precedes(a: DisplayPoint, b: DisplayPoint) -> (before: bool)
    ensures
        before == display_before(a, b),
{
    a.row < b.row || (a.row == b.row && a.column < b.column)
}

/// A stretch of the display between `start` and `end`, with the cursor (the
/// head) at one of them and the anchor (the tail) at the other.
#[derive(Clone, Copy, Debug, PartialEq, Eq, Structural)]
pub struct Selection {
    pub start: DisplayPoint,
    pub end: DisplayPoint,
    pub reversed: bool,
    pub goal: SelectionGoal,
}

impl Selection {
    /// The end at which the cursor stands.
    pub open spec fn spec_head(self) -> DisplayPoint {
        if self.reversed {
            self.start
        } else {
            self.end
        }
    }

    /// The end at which the anchor stands.
    pub open spec fn spec_tail(self) -> DisplayPoint {
        if self.reversed {
            self.end
        } else {
            self.start
        }
    }

    /// The selection with its cursor moved to `head`: the anchor stays, and
    /// the selection is reversed exactly if the cursor comes to stand before
    /// the anchor.
    pub open spec fn with_head(self, head: DisplayPoint, goal: SelectionGoal) -> Selection {
        if display_before(head, self.spec_tail()) {
            Selection { start: head, end: self.spec_tail(), reversed: true, goal }
        } else {
            Selection { start: self.spec_tail(), end: head, reversed: false, goal }
        }
    }

    /// An empty selection at `point`.
    pub fn cursor(point: DisplayPoint) -> (selection: Selection)
        ensures
            selection == (Selection {
                start: point,
                end: point,
                reversed: false,
                goal: SelectionGoal::Unset,
            }),
    {
        Selection { start: point, end: point, reversed: false, goal: SelectionGoal::Unset }
    }

    /// The end at which the cursor stands.
    #[verifier::when_used_as_spec(spec_head)]
    pub fn head(self) -> (head: DisplayPoint)
        ensures
            head == self.spec_head(),
    {
        if self.reversed {
            self.start
        } else {
            self.end
        }
    }

    /// The end at which the anchor stands.
    #[verifier::when_used_as_spec(spec_tail)]
    pub fn tail(self) -> (tail: DisplayPoint)
        ensures
            tail == self.spec_tail(),
    {
        if self.reversed {
            self.end
        } else {
            self.start
        }
    }

    /// Moves the cursor to `head` and keeps the anchor.
    pub fn set_head(&mut self, head: DisplayPoint, goal: SelectionGoal)
        ensures
            *final(self) == old(self).with_head(head, goal),
    {
        let tail = self.tail();
        if precedes(head, tail) {
            self.start = head;
            self.end = tail;
            self.reversed = true;
        } else {
            self.start = tail;
            self.end = head;
            self.reversed = false;
        }
        self.goal = goal;
    }
}

} // verus!

//! Motions along a line: by columns, repeated a number of times.

use crate::buffer::Bias;
use crate::display::{DisplayPoint, DisplaySnapshot};
use crate::movement::{
    left_of, saturating_left, saturating_left_of, saturating_right, saturating_right_of,
};
use crate::repeat::{repeat_until, repeat_while_moving};
use crate::selection::{display_before, precedes};
use vstd::prelude::*;

verus! {

/// The step of `left`: one column to the left, inside the buffer line.
pub open spec fn left_step(map: &DisplaySnapshot) -> spec_fn(DisplayPoint) -> DisplayPoint {
    |q: DisplayPoint| saturating_left_of(map, q)
}

/// A point in the first column.
pub open spec fn at_first_column() -> spec_fn(DisplayPoint) -> bool {
    |q: DisplayPoint| q.column == 0
}

/// `times` columns to the left, no further than the first column.
pub open spec fn left_by(map: &DisplaySnapshot, p: DisplayPoint, times: nat) -> DisplayPoint {
    repeat_until(left_step(map), at_first_column(), p, times)
}

/// The step of `backspace`: one character back, over line starts.
pub open spec fn backspace_step(map: &DisplaySnapshot) -> spec_fn(DisplayPoint) -> DisplayPoint {
    |q: DisplayPoint| left_of(map, q)
}

/// The start of the display.
pub open spec fn at_origin() -> spec_fn(DisplayPoint) -> bool {
    |q: DisplayPoint| q.row == 0 && q.column == 0
}

/// `times` characters back, over line starts, no further than the start of
/// the display.
pub open spec fn backspace_by(map: &DisplaySnapshot, p: DisplayPoint, times: nat) -> DisplayPoint {
    repeat_until(backspace_step(map), at_origin(), p, times)
}

/// One character on: to the next column, or from the last character of a
/// row to the start of the row below.
pub open spec fn wrapping_right_of(map: &DisplaySnapshot, p: DisplayPoint) -> DisplayPoint {
    let last_column = if map.row_len(p.row as int) > 0 {
        map.row_len(p.row as int) - 1
    } else {
        0
    };
    if p.column < last_column {
        DisplayPoint { row: p.row, column: (p.column + 1) as usize }
    } else if p.row < map.max_display_row() {
        DisplayPoint { row: (p.row + 1) as usize, column: 0 }
    } else {
        p
    }
}

/// The step of `space`: one character on, over line ends.
pub open spec fn space_step(map: &DisplaySnapshot) -> spec_fn(DisplayPoint) -> DisplayPoint {
    |q: DisplayPoint| wrapping_right_of(map, q)
}

/// The end of the display.
pub open spec fn at_display_end(map: &DisplaySnapshot) -> spec_fn(DisplayPoint) -> bool {
    |q: DisplayPoint| q == map.max_display_point()
}

/// `times` characters on, over line ends, no further than the end of the
/// display.
pub open spec fn space_by(map: &DisplaySnapshot, p: DisplayPoint, times: nat) -> DisplayPoint {
    repeat_until(space_step(map), at_display_end(map), p, times)
}

/// The step of `right`: one column to the right, inside the buffer line.
pub open spec fn right_step(map: &DisplaySnapshot) -> spec_fn(DisplayPoint) -> DisplayPoint {
    |q: DisplayPoint| saturating_right_of(map, q)
}

/// `times` columns to the right, no further than the line allows.
pub open spec fn right_by(map: &DisplaySnapshot, p: DisplayPoint, times: nat) -> DisplayPoint {
    repeat_while_moving(right_step(map), p, times)
}

/// The place of the next character. Without `allow_cross_newline` the last
/// character of a row is as far as this goes; with it, the end of the row
/// is a place too, and from there the next is the start of the row below.
pub open spec fn next_char_of(
    map: &DisplaySnapshot,
    p: DisplayPoint,
    allow_cross_newline: bool,
) -> DisplayPoint {
    let len = map.row_len(p.row as int);
    let max_column = if allow_cross_newline || len == 0 {
        len
    } else {
        len - 1
    };
    let q = if p.column < max_column {
        DisplayPoint { row: p.row, column: (p.column + 1) as usize }
    } else if display_before(p, map.max_display_point()) && allow_cross_newline {
        DisplayPoint { row: (p.row + 1) as usize, column: 0 }
    } else {
        p
    };
    map.display_clipped(q, Bias::Right)
}

/// Moves `times` columns to the left and stops at the first column.
pub fn left(map: &DisplaySnapshot, from: DisplayPoint, times: usize) -> (q: DisplayPoint)
    requires
        map.wf(),
    ensures
        q == left_by(map, from, times as nat),
{
    let ghost step = left_step(map);
    let ghost done = at_first_column();
    let ghost goal = left_by(map, from, times as nat);
    let mut point = from;
    let mut left = times;
    while left > 0
        invariant
            map.wf(),
            goal == left_by(map, from, times as nat),
            step == left_step(map),
            done == at_first_column(),
            repeat_until(step, done, point, left as nat) == goal,
        decreases left,
    {
        point = saturating_left(map, point);
        if point.column == 0 {
            return point;
        }
        left -= 1;
    }
    point
}

/// Moves `times` characters back, onto earlier rows where a row starts,
/// and stops at the start of the display.
pub fn backspace(map: &DisplaySnapshot, from: DisplayPoint, times: usize) -> (q: DisplayPoint)
    requires
        map.wf(),
    ensures
        q == backspace_by(map, from, times as nat),
{
    let ghost step = backspace_step(map);
    let ghost done = at_origin();
    let ghost goal = backspace_by(map, from, times as nat);
    let mut point = from;
    let mut left = times;
    while left > 0
        invariant
            map.wf(),
            goal == backspace_by(map, from, times as nat),
            step == backspace_step(map),
            done == at_origin(),
            repeat_until(step, done, point, left as nat) == goal,
        decreases left,
    {
        point = crate::movement::left(map, point);
        if point.row == 0 && point.column == 0 {
            return point;
        }
        left -= 1;
    }
    point
}

/// Moves one character on, onto the row below from the last character of a
/// row.
pub fn wrapping_right(map: &DisplaySnapshot, point: DisplayPoint) -> (q: DisplayPoint)
    requires
        map.wf(),
    ensures
        q == wrapping_right_of(map, point),
{
    let len = map.line_len(point.row);
    let last_column = if len > 0 {
        len - 1
    } else {
        0
    };
    if point.column < last_column {
        DisplayPoint { row: point.row, column: point.column + 1 }
    } else if point.row < map.max_row() {
        DisplayPoint { row: point.row + 1, column: 0 }
    } else {
        point
    }
}

/// Moves `times` characters on, onto later rows where a row ends, and stops
/// at the end of the display.
pub fn space(map: &DisplaySnapshot, from: DisplayPoint, times: usize) -> (q: DisplayPoint)
    requires
        map.wf(),
    ensures
        q == space_by(map, from, times as nat),
{
    let ghost step = space_step(map);
    let ghost done = at_display_end(map);
    let ghost goal = space_by(map, from, times as nat);
    let end = map.max_point();
    let mut point = from;
    let mut left = times;
    while left > 0
        invariant
            map.wf(),
            goal == space_by(map, from, times as nat),
            end == map.max_display_point(),
            step == space_step(map),
            done == at_display_end(map),
            repeat_until(step, done, point, left as nat) == goal,
        decreases left,
    {
        point = wrapping_right(map, point);
        if point == end {
            return point;
        }
        left -= 1;
    }
    point
}

/// Moves `times` columns to the right and stops where the line ends.
pub fn right(map: &DisplaySnapshot, from: DisplayPoint, times: usize) -> (q: DisplayPoint)
    requires
        map.wf(),
    ensures
        q == right_by(map, from, times as nat),
{
    let ghost step = right_step(map);
    let ghost goal = right_by(map, from, times as nat);
    let mut point = from;
    let mut left = times;
    while left > 0
        invariant
            map.wf(),
            goal == right_by(map, from, times as nat),
            step == right_step(map),
            repeat_while_moving(step, point, left as nat) == goal,
        decreases left,
    {
        let new_point = saturating_right(map, point);
        if point == new_point {
            return point;
        }
        point = new_point;
        left -= 1;
    }
    point
}

/// Moves to the place of the next character.
pub fn next_char(map: &DisplaySnapshot, point: DisplayPoint, allow_cross_newline: bool) -> (q:
    DisplayPoint)
    requires
        map.wf(),
    ensures
        q == next_char_of(map, point, allow_cross_newline),
        map.valid_display(q),
{
    let len = map.line_len(point.row);
    let max_column = if allow_cross_newline || len == 0 {
        len
    } else {
        len - 1
    };
    let end = map.max_point();
    let target = if point.column < max_column {
        DisplayPoint { row: point.row, column: point.column + 1 }
    } else if precedes(point, end) && allow_cross_newline {
        DisplayPoint { row: point.row + 1, column: 0 }
    } else {
        point
    };
    map.clip_ignoring_line_ends(target, Bias::Right)
}

} // verus!

//! Motions across lines: by buffer lines and by display rows, keeping the
//! column that the cursor aims for.

use crate::buffer::{Bias, Buffer, Point};
use crate::display::{DisplayPoint, DisplaySnapshot};
use crate::movement::{column_for_x, display_column_for_x, down, down_of, up, up_of};
use crate::selection::SelectionGoal;
use vstd::prelude::*;

verus! {

/// The line `times` lines below `row` (above, for a negative `times`), but
/// no line before the first or behind the last.
pub open spec fn target_row(buffer: &Buffer, row: int, times: int) -> int {
    if row + times < 0 {
        0
    } else if row + times > buffer.max_row() {
        buffer.max_row()
    } else {
        row + times
    }
}

/// The cursor position at the start of the buffer line `times` lines from
/// that of `p`.
pub open spec fn relative_row_start(map: &DisplaySnapshot, p: DisplayPoint, times: int) -> DisplayPoint {
    let start = map.to_point(p, Bias::Left);
    let row = target_row(map.text(), start.row as int, times);
    map.cursor_clipped(map.to_display(Point { row: row as usize, column: 0 }), Bias::Right)
}

/// The difference `a - b`, or 0 where `b` is the larger.
pub open spec fn minus_or_zero(a: int, b: int) -> int {
    if a >= b {
        a - b
    } else {
        0
    }
}

/// The display row of buffer line `line` that lies `wanted` rows below the
/// line's first row, counted from `row`, which already lies `reached` rows
/// below it; or the line's last row, where the line has fewer rows. The
/// answer holds the row and how many rows below the first it lies.
pub open spec fn wrapped_row(
    map: &DisplaySnapshot,
    line: int,
    bias: Bias,
    row: int,
    reached: int,
    wanted: int,
) -> (int, int)
    decreases wanted - reached,
{
    if reached < wanted && row < map.max_display_row() && map.to_point(
        DisplayPoint { row: (row + 1) as usize, column: 0 },
        bias,
    ).row == line {
        wrapped_row(map, line, bias, row + 1, reached + 1, wanted)
    } else {
        (row, reached)
    }
}

/// The display row, below the first row of its line, and the column that a
/// vertical motion aims for: those that the goal names, or else the
/// cursor's own.
pub open spec fn wrapped_goal(goal: SelectionGoal, own_row: int, p: DisplayPoint) -> (int, usize) {
    match goal {
        SelectionGoal::WrappedHorizontalPosition(row, x) => (row as int, x),
        SelectionGoal::HorizontalRange { end, .. } => (own_row, end),
        SelectionGoal::HorizontalPosition(x) => (own_row, x),
        SelectionGoal::Unset => (own_row, p.column),
    }
}

/// The goal that a motion by buffer lines leaves behind: the one it was
/// given or, where it was given none, the cursor's place in its wrapped
/// line.
pub open spec fn kept_goal(goal: SelectionGoal, own_row: int, p: DisplayPoint) -> SelectionGoal {
    match goal {
        SelectionGoal::Unset => SelectionGoal::WrappedHorizontalPosition(own_row as usize, p.column),
        _ => goal,
    }
}

/// Where a motion by `times` buffer lines from `p` ends. It lands in the row
/// of the target line that the goal names, at the goal's column; where the
/// target line has fewer rows, at the end of its last row.
pub open spec fn buffer_rows_moved(
    map: &DisplaySnapshot,
    p: DisplayPoint,
    goal: SelectionGoal,
    times: int,
) -> (DisplayPoint, SelectionGoal) {
    let bias = if times < 0 {
        Bias::Left
    } else {
        Bias::Right
    };
    let start = map.to_point(p, Bias::Left);
    let first = map.to_display(Point { row: start.row, column: 0 });
    let own_row = minus_or_zero(p.row as int, first.row as int);
    let (goal_wrap, goal_x) = wrapped_goal(goal, own_row, p);
    let line = target_row(map.text(), start.row as int, times);
    let begin = map.to_display(Point { row: line as usize, column: 0 });
    let (row, reached) = wrapped_row(map, line, bias, begin.row as int, 0, goal_wrap);
    let column = if reached == goal_wrap {
        column_for_x(map, row, goal_x)
    } else {
        map.row_len(row) as usize
    };
    (
        map.cursor_clipped(DisplayPoint { row: row as usize, column }, bias),
        kept_goal(goal, own_row, p),
    )
}

/// `times` display rows down.
pub open spec fn down_by(
    map: &DisplaySnapshot,
    p: DisplayPoint,
    goal: SelectionGoal,
    times: nat,
) -> (DisplayPoint, SelectionGoal)
    decreases times,
{
    if times == 0 {
        (p, goal)
    } else {
        let (q, g) = down_of(map, p, goal);
        down_by(map, q, g, (times - 1) as nat)
    }
}

/// `times` display rows up.
pub open spec fn up_by(
    map: &DisplaySnapshot,
    p: DisplayPoint,
    goal: SelectionGoal,
    times: nat,
) -> (DisplayPoint, SelectionGoal)
    decreases times,
{
    if times == 0 {
        (p, goal)
    } else {
        let (q, g) = up_of(map, p, goal);
        up_by(map, q, g, (times - 1) as nat)
    }
}

/// The line `rows` lines below `row`, or the last line.
pub fn row_below(buffer: &Buffer, row: usize, rows: usize) -> (target: usize)
    requires
        buffer.wf(),
        row <= buffer.max_row(),
    ensures
        target == target_row(buffer, row as int, rows as int),
        target <= buffer.max_row(),
{
    let last = buffer.last_row();
    if rows >= last - row {
        last
    } else {
        row + rows
    }
}

/// The line `rows` lines above `row`, or the first line.
pub fn row_above(buffer: &Buffer, row: usize, rows: usize) -> (target: usize)
    requires
        buffer.wf(),
        row <= buffer.max_row(),
    ensures
        target == target_row(buffer, row as int, -(rows as int)),
        target <= buffer.max_row(),
{
    if rows >= row {
        0
    } else {
        row - rows
    }
}

/// The line `times` lines from `row`, kept inside the text.
pub fn relative_row(buffer: &Buffer, row: usize, times: isize) -> (target: usize)
    requires
        buffer.wf(),
        row <= buffer.max_row(),
    ensures
        target == target_row(buffer, row as int, times as int),
        target <= buffer.max_row(),
{
    if times >= 0 {
        row_below(buffer, row, times as usize)
    } else {
        let back = (-(times + 1)) as usize;
        row_above(buffer, row, back + 1)
    }
}

/// Moves to the start of the buffer line `times` lines below that of the
/// cursor, or above it for a negative `times`.
pub fn start_of_relative_buffer_row(map: &DisplaySnapshot, point: DisplayPoint, times: isize) -> (q:
    DisplayPoint)
    requires
        map.wf(),
    ensures
        q == relative_row_start(map, point, times as int),
        map.valid_display(q),
{
    let start = map.display_point_to_point(point, Bias::Left);
    let row = relative_row(map.buffer(), start.row, times);
    map.clip_point(map.point_to_display_point(Point { row, column: 0 }), Bias::Right)
}

/// Moves to the start of the buffer line `rows` lines below that of the
/// cursor.
pub fn start_of_row_below(map: &DisplaySnapshot, point: DisplayPoint, rows: usize) -> (q:
    DisplayPoint)
    requires
        map.wf(),
    ensures
        q == relative_row_start(map, point, rows as int),
        map.valid_display(q),
{
    let start = map.display_point_to_point(point, Bias::Left);
    let row = row_below(map.buffer(), start.row, rows);
    map.clip_point(map.point_to_display_point(Point { row, column: 0 }), Bias::Right)
}

/// Moves to the start of the buffer line `rows` lines above that of the
/// cursor.
pub fn start_of_row_above(map: &DisplaySnapshot, point: DisplayPoint, rows: usize) -> (q:
    DisplayPoint)
    requires
        map.wf(),
    ensures
        q == relative_row_start(map, point, -(rows as int)),
        map.valid_display(q),
{
    let start = map.display_point_to_point(point, Bias::Left);
    let row = row_above(map.buffer(), start.row, rows);
    map.clip_point(map.point_to_display_point(Point { row, column: 0 }), Bias::Right)
}

/// Whether the display row below `row` shows buffer line `line`.
fn next_row_shows(map: &DisplaySnapshot, row: usize, line: usize, bias: Bias) -> (shows: bool)
    requires
        map.wf(),
        row < map.max_display_row(),
    ensures
        shows == (map.to_point(DisplayPoint { row: (row + 1) as usize, column: 0 }, bias).row
            == line),
{
    map.display_point_to_point(DisplayPoint { row: row + 1, column: 0 }, bias).row == line
}

/// Moves by `times` buffer lines, down for a positive `times` and up for a
/// negative one, and keeps the column that the goal names.
pub fn up_down_buffer_rows(
    map: &DisplaySnapshot,
    point: DisplayPoint,
    goal: SelectionGoal,
    times: isize,
) -> (moved: (DisplayPoint, SelectionGoal))
    requires
        map.wf(),
    ensures
        moved == buffer_rows_moved(map, point, goal, times as int),
{
    let bias = if times < 0 {
        Bias::Left
    } else {
        Bias::Right
    };
    let start = map.display_point_to_point(point, Bias::Left);
    let first = map.point_to_display_point(Point { row: start.row, column: 0 });
    let own_row = if point.row >= first.row {
        point.row - first.row
    } else {
        0
    };
    let (goal_wrap, goal_x, kept) = match goal {
        SelectionGoal::WrappedHorizontalPosition(row, x) => (row, x, goal),
        SelectionGoal::HorizontalRange { end, .. } => (own_row, end, goal),
        SelectionGoal::HorizontalPosition(x) => (own_row, x, goal),
        SelectionGoal::Unset => (
            own_row,
            point.column,
            SelectionGoal::WrappedHorizontalPosition(own_row, point.column),
        ),
    };
    let line = relative_row(map.buffer(), start.row, times);
    let begin = map.point_to_display_point(Point { row: line, column: 0 });
    let last_row = map.max_row();
    let mut row = begin.row;
    let mut reached: usize = 0;
    while reached < goal_wrap && row < last_row && next_row_shows(map, row, line, bias)
        invariant
            map.wf(),
            last_row == map.max_display_row(),
            row <= last_row,
            reached <= goal_wrap,
            wrapped_row(map, line as int, bias, row as int, reached as int, goal_wrap as int)
                == wrapped_row(map, line as int, bias, begin.row as int, 0, goal_wrap as int),
        decreases goal_wrap - reached,
    {
        reached += 1;
        row += 1;
    }
    let column = if reached == goal_wrap {
        display_column_for_x(map, row, goal_x)
    } else {
        map.line_len(row)
    };
    (map.clip_point(DisplayPoint { row, column }, bias), kept)
}

/// Moves `times` display rows down.
pub fn down_display(map: &DisplaySnapshot, point: DisplayPoint, goal: SelectionGoal, times: usize) -> (moved: (
    DisplayPoint,
    SelectionGoal,
))
    requires
        map.wf(),
    ensures
        moved == down_by(map, point, goal, times as nat),
{
    let mut at = point;
    let mut aim = goal;
    let mut left = times;
    while left > 0
        invariant
            map.wf(),
            down_by(map, at, aim, left as nat) == down_by(map, point, goal, times as nat),
        decreases left,
    {
        let moved = down(map, at, aim);
        at = moved.0;
        aim = moved.1;
        left -= 1;
    }
    (at, aim)
}

/// Moves `times` display rows up.
pub fn up_display(map: &DisplaySnapshot, point: DisplayPoint, goal: SelectionGoal, times: usize) -> (moved: (
    DisplayPoint,
    SelectionGoal,
))
    requires
        map.wf(),
    ensures
        moved == up_by(map, point, goal, times as nat),
{
    let mut at = point;
    let mut aim = goal;
    let mut left = times;
    while left > 0
        invariant
            map.wf(),
            up_by(map, at, aim, left as nat) == up_by(map, point, goal, times as nat),
        decreases left,
    {
        let moved = up(map, at, aim);
        at = moved.0;
        aim = moved.1;
        left -= 1;
    }
    (at, aim)
}

} // verus!

//! Single steps on the display: one column or one row at a time, to the next
//! boundary that a rule names, and to the edge of a paragraph.

use crate::buffer::{Bias, Buffer, Point};
use crate::chars::unicode_whitespace;
use crate::display::{DisplayPoint, DisplaySnapshot};
use crate::scan::{
    backward_stop, forward_stop, found_backward, found_forward, scan_backward, scan_forward,
    Boundary, FindRange, Stop,
};
use crate::selection::SelectionGoal;
use vstd::prelude::*;

verus! {

/// One column to the left, or to the end of the row above from the start of
/// a row; clipped to the left.
pub open spec fn left_of(map: &DisplaySnapshot, p: DisplayPoint) -> DisplayPoint {
    let q = if p.column > 0 {
        DisplayPoint { row: p.row, column: (p.column - 1) as usize }
    } else if p.row > 0 {
        DisplayPoint { row: (p.row - 1) as usize, column: map.row_len(p.row - 1) as usize }
    } else {
        p
    };
    map.cursor_clipped(q, Bias::Left)
}

/// One column to the left without leaving the buffer line. At the start of
/// a row that continues a wrapped line this goes on to the row above.
pub open spec fn saturating_left_of(map: &DisplaySnapshot, p: DisplayPoint) -> DisplayPoint {
    if p.column > 0 {
        map.cursor_clipped(
            DisplayPoint { row: p.row, column: (p.column - 1) as usize },
            Bias::Left,
        )
    } else if map.to_point(p, Bias::Left).column > 0 {
        left_of(map, p)
    } else {
        map.cursor_clipped(p, Bias::Left)
    }
}

/// One column to the right, or to the start of the row below from the end
/// of a row; clipped to the right.
pub open spec fn right_of(map: &DisplaySnapshot, p: DisplayPoint) -> DisplayPoint {
    let q = if p.column < map.row_len(p.row as int) {
        DisplayPoint { row: p.row, column: (p.column + 1) as usize }
    } else if p.row < map.max_display_row() {
        DisplayPoint { row: (p.row + 1) as usize, column: 0 }
    } else {
        p
    };
    map.cursor_clipped(q, Bias::Right)
}

/// One column to the right without leaving the buffer line.
pub open spec fn saturating_right_of(map: &DisplaySnapshot, p: DisplayPoint) -> DisplayPoint {
    let column = if p.column < usize::MAX {
        p.column + 1
    } else {
        p.column as int
    };
    map.cursor_clipped(DisplayPoint { row: p.row, column: column as usize }, Bias::Right)
}

/// The column that a goal asks for, the cursor's own where it asks for none.
pub open spec fn goal_column(goal: SelectionGoal, p: DisplayPoint) -> usize {
    match goal {
        SelectionGoal::HorizontalPosition(x) => x,
        SelectionGoal::WrappedHorizontalPosition(_, x) => x,
        SelectionGoal::HorizontalRange { end, .. } => end,
        SelectionGoal::Unset => p.column,
    }
}

/// The column of row `row` nearest to the horizontal place `x`.
pub open spec fn column_for_x(map: &DisplaySnapshot, row: int, x: usize) -> usize {
    if x <= map.row_len(row) {
        x
    } else {
        map.row_len(row) as usize
    }
}

/// A point clipped to the right, but to the left where clipping to the
/// right would leave its row.
pub open spec fn clipped_in_row_right(map: &DisplaySnapshot, p: DisplayPoint) -> DisplayPoint {
    let c = map.cursor_clipped(p, Bias::Right);
    if c.row > p.row {
        map.cursor_clipped(p, Bias::Left)
    } else {
        c
    }
}

/// A point clipped to the left, but to the right where clipping to the left
/// would leave its row.
pub open spec fn clipped_in_row_left(map: &DisplaySnapshot, p: DisplayPoint) -> DisplayPoint {
    let c = map.cursor_clipped(p, Bias::Left);
    if c.row < p.row {
        map.cursor_clipped(p, Bias::Right)
    } else {
        c
    }
}

/// One display row down, at the column the goal asks for. On the last row
/// nothing moves and the goal stays as it was.
pub open spec fn down_of(map: &DisplaySnapshot, p: DisplayPoint, goal: SelectionGoal) -> (
    DisplayPoint,
    SelectionGoal,
) {
    let x = goal_column(goal, p);
    let below = if p.row < usize::MAX {
        p.row + 1
    } else {
        p.row as int
    };
    let top = map.cursor_clipped(DisplayPoint { row: below as usize, column: 0 }, Bias::Right);
    if top.row > p.row {
        (
            clipped_in_row_right(
                map,
                DisplayPoint { row: top.row, column: column_for_x(map, top.row as int, x) },
            ),
            SelectionGoal::HorizontalPosition(x),
        )
    } else {
        (p, goal)
    }
}

/// One display row up, at the column the goal asks for. On the first row
/// nothing moves and the goal stays as it was.
pub open spec fn up_of(map: &DisplaySnapshot, p: DisplayPoint, goal: SelectionGoal) -> (
    DisplayPoint,
    SelectionGoal,
) {
    let x = goal_column(goal, p);
    let above = if p.row > 0 {
        p.row - 1
    } else {
        0
    };
    let end = map.cursor_clipped(
        DisplayPoint { row: above as usize, column: map.row_len(above) as usize },
        Bias::Left,
    );
    if end.row < p.row {
        (
            clipped_in_row_left(
                map,
                DisplayPoint { row: end.row, column: column_for_x(map, end.row as int, x) },
            ),
            SelectionGoal::HorizontalPosition(x),
        )
    } else {
        (p, goal)
    }
}

/// Where a forward scan from the display point `from` ends, as an offset.
pub open spec fn boundary_offset(
    map: &DisplaySnapshot,
    from: DisplayPoint,
    range: FindRange,
    rule: Boundary,
) -> int {
    let start = map.to_offset(from, Bias::Right);
    forward_stop(map.text().chars(), rule, range, start, start)
}

/// Whether a forward scan from the display point `from` finds what its rule
/// asks for.
pub open spec fn boundary_found(
    map: &DisplaySnapshot,
    from: DisplayPoint,
    range: FindRange,
    rule: Boundary,
) -> bool {
    let start = map.to_offset(from, Bias::Right);
    found_forward(map.text().chars(), rule, range, start, boundary_offset(map, from, range, rule))
}

/// The cursor position at the next boundary behind `from`.
pub open spec fn boundary_after(
    map: &DisplaySnapshot,
    from: DisplayPoint,
    range: FindRange,
    rule: Boundary,
) -> DisplayPoint {
    map.cursor_clipped(
        map.offset_to_display(boundary_offset(map, from, range, rule)),
        Bias::Right,
    )
}

/// The cursor position one character in front of the next boundary behind
/// `from`, or at the place where the scan gave up.
pub open spec fn boundary_after_exclusive(
    map: &DisplaySnapshot,
    from: DisplayPoint,
    range: FindRange,
    rule: Boundary,
) -> DisplayPoint {
    let stop = boundary_offset(map, from, range, rule);
    let offset = if boundary_found(map, from, range, rule) {
        stop - 1
    } else {
        stop
    };
    map.cursor_clipped(map.offset_to_display(offset), Bias::Right)
}

/// Where a backward scan from the buffer point `from` ends, as an offset.
pub open spec fn preceding_offset(
    buffer: &Buffer,
    from: Point,
    range: FindRange,
    rule: Boundary,
) -> int {
    let start = buffer.offset_of(from);
    backward_stop(buffer.chars(), rule, range, start, start)
}

/// Whether a backward scan from the buffer point `from` finds what its rule
/// asks for.
pub open spec fn preceding_found(
    buffer: &Buffer,
    from: Point,
    range: FindRange,
    rule: Boundary,
) -> bool {
    let start = buffer.offset_of(from);
    found_backward(buffer.chars(), rule, range, start, preceding_offset(buffer, from, range, rule))
}

/// The buffer point at the nearest boundary in front of `from`.
pub open spec fn boundary_before_point(
    buffer: &Buffer,
    from: Point,
    range: FindRange,
    rule: Boundary,
) -> Point {
    buffer.point_of(preceding_offset(buffer, from, range, rule))
}

/// The cursor position at the nearest boundary in front of `from`.
pub open spec fn boundary_before(
    map: &DisplaySnapshot,
    from: DisplayPoint,
    range: FindRange,
    rule: Boundary,
) -> DisplayPoint {
    map.cursor_clipped(
        map.to_display(
            boundary_before_point(map.text(), map.to_point(from, Bias::Left), range, rule),
        ),
        Bias::Left,
    )
}

/// Line `row` holds nothing but whitespace.
pub open spec fn line_blank(buffer: &Buffer, row: int) -> bool {
    forall|o: int|
        buffer.line_start(row) <= o < buffer.line_end(row) ==> unicode_whitespace(
            #[trigger] buffer.chars()[o],
        )
}

/// The start of the `count`-th paragraph edge at or above line `row`: a
/// blank line met after a line that is not blank. `seen` says that a line
/// that is not blank has been passed since the last edge. With no such edge
/// the answer is the start of the display.
pub open spec fn paragraph_start_from(
    map: &DisplaySnapshot,
    row: int,
    seen: bool,
    count: int,
) -> DisplayPoint
    decreases row + 1,
{
    if row < 0 {
        DisplayPoint { row: 0, column: 0 }
    } else {
        let blank = line_blank(map.text(), row);
        if seen && blank {
            if count <= 1 {
                map.to_display(Point { row: row as usize, column: 0 })
            } else {
                paragraph_start_from(map, row - 1, false, count - 1)
            }
        } else {
            paragraph_start_from(map, row - 1, seen || !blank, count)
        }
    }
}

/// The start of the `count`-th paragraph above `p`.
pub open spec fn paragraph_start(map: &DisplaySnapshot, p: DisplayPoint, count: int) -> DisplayPoint {
    let row = map.to_point(p, Bias::Left).row;
    if row == 0 {
        DisplayPoint { row: 0, column: 0 }
    } else {
        paragraph_start_from(map, row as int, false, count)
    }
}

/// The start of the `count`-th paragraph edge at or below line `row`; the
/// end of the display if there is none.
pub open spec fn paragraph_end_from(
    map: &DisplaySnapshot,
    row: int,
    seen: bool,
    count: int,
) -> DisplayPoint
    decreases map.text().line_count() - row,
{
    if row >= map.text().line_count() {
        map.max_display_point()
    } else {
        let blank = line_blank(map.text(), row);
        if seen && blank {
            if count <= 1 {
                map.to_display(Point { row: row as usize, column: 0 })
            } else {
                paragraph_end_from(map, row + 1, false, count - 1)
            }
        } else {
            paragraph_end_from(map, row + 1, seen || !blank, count)
        }
    }
}

/// The end of the `count`-th paragraph below `p`.
pub open spec fn paragraph_end(map: &DisplaySnapshot, p: DisplayPoint, count: int) -> DisplayPoint {
    let row = map.to_point(p, Bias::Left).row;
    if row == map.text().max_row() {
        map.max_display_point()
    } else {
        paragraph_end_from(map, row as int, false, count)
    }
}

/// Steps one column to the left, onto the row above from the start of a
/// row.
pub fn left(map: &DisplaySnapshot, p: DisplayPoint) -> (q: DisplayPoint)
    requires
        map.wf(),
    ensures
        q == left_of(map, p),
        map.valid_display(q),
{
    let target = if p.column > 0 {
        DisplayPoint { row: p.row, column: p.column - 1 }
    } else if p.row > 0 {
        DisplayPoint { row: p.row - 1, column: map.line_len(p.row - 1) }
    } else {
        p
    };
    map.clip_point(target, Bias::Left)
}

/// Steps one column to the left and stays in the buffer line.
pub fn saturating_left(map: &DisplaySnapshot, p: DisplayPoint) -> (q: DisplayPoint)
    requires
        map.wf(),
    ensures
        q == saturating_left_of(map, p),
        map.valid_display(q),
{
    if p.column > 0 {
        map.clip_point(DisplayPoint { row: p.row, column: p.column - 1 }, Bias::Left)
    } else if map.display_point_to_point(p, Bias::Left).column > 0 {
        left(map, p)
    } else {
        map.clip_point(p, Bias::Left)
    }
}

/// Steps one column to the right, onto the row below from the end of a
/// row.
pub fn right(map: &DisplaySnapshot, p: DisplayPoint) -> (q: DisplayPoint)
    requires
        map.wf(),
    ensures
        q == right_of(map, p),
        map.valid_display(q),
{
    let target = if p.column < map.line_len(p.row) {
        DisplayPoint { row: p.row, column: p.column + 1 }
    } else if p.row < map.max_row() {
        DisplayPoint { row: p.row + 1, column: 0 }
    } else {
        p
    };
    map.clip_point(target, Bias::Right)
}

/// Steps one column to the right and stays in the buffer line.
pub fn saturating_right(map: &DisplaySnapshot, p: DisplayPoint) -> (q: DisplayPoint)
    requires
        map.wf(),
    ensures
        q == saturating_right_of(map, p),
        map.valid_display(q),
{
    let column = if p.column < usize::MAX {
        p.column + 1
    } else {
        p.column
    };
    map.clip_point(DisplayPoint { row: p.row, column }, Bias::Right)
}

/// The column that a goal asks for.
pub fn goal_x(goal: SelectionGoal, p: DisplayPoint) -> (x: usize)
    ensures
        x == goal_column(goal, p),
{
    match goal {
        SelectionGoal::HorizontalPosition(x) => x,
        SelectionGoal::WrappedHorizontalPosition(_, x) => x,
        SelectionGoal::HorizontalRange { end, .. } => end,
        SelectionGoal::Unset => p.column,
    }
}

/// The column of a row nearest to a horizontal place.
pub fn display_column_for_x(map: &DisplaySnapshot, row: usize, x: usize) -> (column: usize)
    requires
        map.wf(),
    ensures
        column == column_for_x(map, row as int, x),
{
    let len = map.line_len(row);
    if x <= len {
        x
    } else {
        len
    }
}

/// Moves one display row down.
pub fn down(map: &DisplaySnapshot, p: DisplayPoint, goal: SelectionGoal) -> (moved: (
    DisplayPoint,
    SelectionGoal,
))
    requires
        map.wf(),
    ensures
        moved == down_of(map, p, goal),
{
    let x = goal_x(goal, p);
    let below = if p.row < usize::MAX {
        p.row + 1
    } else {
        p.row
    };
    let top = map.clip_point(DisplayPoint { row: below, column: 0 }, Bias::Right);
    if top.row > p.row {
        let point = DisplayPoint { row: top.row, column: display_column_for_x(map, top.row, x) };
        let mut clipped = map.clip_point(point, Bias::Right);
        if clipped.row > point.row {
            clipped = map.clip_point(point, Bias::Left);
        }
        (clipped, SelectionGoal::HorizontalPosition(x))
    } else {
        (p, goal)
    }
}

/// Moves one display row up.
pub fn up(map: &DisplaySnapshot, p: DisplayPoint, goal: SelectionGoal) -> (moved: (
    DisplayPoint,
    SelectionGoal,
))
    requires
        map.wf(),
    ensures
        moved == up_of(map, p, goal),
{
    let x = goal_x(goal, p);
    let above = if p.row > 0 {
        p.row - 1
    } else {
        0
    };
    let end = map.clip_point(
        DisplayPoint { row: above, column: map.line_len(above) },
        Bias::Left,
    );
    if end.row < p.row {
        let point = DisplayPoint { row: end.row, column: display_column_for_x(map, end.row, x) };
        let mut clipped = map.clip_point(point, Bias::Left);
        if clipped.row < point.row {
            clipped = map.clip_point(point, Bias::Right);
        }
        (clipped, SelectionGoal::HorizontalPosition(x))
    } else {
        (p, goal)
    }
}

/// Scans forward from `from` to the next boundary that `rule` names. The
/// answer holds the cursor position there and where and how the scan
/// stopped.
pub fn find_boundary(map: &DisplaySnapshot, from: DisplayPoint, range: FindRange, rule: Boundary) -> (found: (
    DisplayPoint,
    Stop,
))
    requires
        map.wf(),
    ensures
        found.0 == boundary_after(map, from, range, rule),
        found.1.fired == boundary_found(map, from, range, rule),
        found.1.offset == boundary_offset(map, from, range, rule),
        found.1.offset <= map.text().chars().len(),
        map.valid_display(found.0),
{
    let start = map.display_point_to_offset(from, Bias::Right);
    let stop = scan_forward(map.buffer(), start, range, rule);
    (map.clip_point(map.offset_to_display_point(stop.offset), Bias::Right), stop)
}

/// Scans forward as `find_boundary` does, but ends one character in front of
/// the boundary.
pub fn find_boundary_exclusive(
    map: &DisplaySnapshot,
    from: DisplayPoint,
    range: FindRange,
    rule: Boundary,
) -> (found: (DisplayPoint, Stop))
    requires
        map.wf(),
    ensures
        found.0 == boundary_after_exclusive(map, from, range, rule),
        found.1.fired == boundary_found(map, from, range, rule),
        found.1.offset == boundary_offset(map, from, range, rule),
        found.1.offset <= map.text().chars().len(),
        map.valid_display(found.0),
{
    let start = map.display_point_to_offset(from, Bias::Right);
    let stop = scan_forward(map.buffer(), start, range, rule);
    let offset = if stop.fired {
        stop.offset - 1
    } else {
        stop.offset
    };
    (map.clip_point(map.offset_to_display_point(offset), Bias::Right), stop)
}

/// Scans backward from the buffer point `from` to the nearest boundary that
/// `rule` names.
pub fn find_preceding_boundary_point(
    buffer: &Buffer,
    from: Point,
    range: FindRange,
    rule: Boundary,
) -> (found: (Point, bool))
    requires
        buffer.wf(),
    ensures
        found.0 == boundary_before_point(buffer, from, range, rule),
        found.1 == preceding_found(buffer, from, range, rule),
        buffer.valid_point(found.0),
{
    let start = buffer.point_to_offset(from);
    let stop = scan_backward(buffer, start, range, rule);
    (buffer.offset_to_point(stop.offset), stop.fired)
}

/// Scans backward from the display point `from` to the nearest boundary
/// that `rule` names.
pub fn find_preceding_boundary_display_point(
    map: &DisplaySnapshot,
    from: DisplayPoint,
    range: FindRange,
    rule: Boundary,
) -> (found: (DisplayPoint, bool))
    requires
        map.wf(),
    ensures
        found.0 == boundary_before(map, from, range, rule),
        found.1 == preceding_found(map.text(), map.to_point(from, Bias::Left), range, rule),
        map.valid_display(found.0),
{
    let point = map.display_point_to_point(from, Bias::Left);
    let found = find_preceding_boundary_point(map.buffer(), point, range, rule);
    (map.clip_point(map.point_to_display_point(found.0), Bias::Left), found.1)
}

/// Whether a line holds nothing but whitespace.
pub fn is_line_blank(buffer: &Buffer, row: usize) -> (blank: bool)
    requires
        buffer.wf(),
        row <= buffer.max_row(),
    ensures
        blank == line_blank(buffer, row as int),
{
    let start = buffer.point_to_offset(Point { row, column: 0 });
    let len = buffer.line_length(row);
    proof {
        buffer.lemma_lines(row as int);
    }
    let mut i: usize = 0;
    while i < len
        invariant
            buffer.wf(),
            row <= buffer.max_row(),
            start == buffer.line_start(row as int),
            len == buffer.line_len(row as int),
            start + len == buffer.line_end(row as int),
            start + len <= buffer.chars().len(),
            0 <= i <= len,
            forall|o: int| start <= o < start + i ==> unicode_whitespace(#[trigger] buffer.chars()[o]),
        decreases len - i,
    {
        let c = match buffer.char_at_offset(start + i) {
            Some(c) => c,
            None => ' ',
        };
        if !c.is_whitespace() {
            assert(!unicode_whitespace(buffer.chars()[start + i]));
            return false;
        }
        i += 1;
    }
    true
}

/// Moves to the start of the paragraph above: the nearest blank line that
/// has a line with text between it and `p`, counted `count` times.
pub fn start_of_paragraph(map: &DisplaySnapshot, p: DisplayPoint, count: usize) -> (q: DisplayPoint)
    requires
        map.wf(),
    ensures
        q == paragraph_start(map, p, count as int),
{
    let point = map.display_point_to_point(p, Bias::Left);
    if point.row == 0 {
        return DisplayPoint { row: 0, column: 0 };
    }
    let mut seen = false;
    let mut left = count;
    let mut row = point.row;
    loop
        invariant
            map.wf(),
            row <= map.text().max_row(),
            paragraph_start_from(map, row as int, seen, left as int) == paragraph_start(
                map,
                p,
                count as int,
            ),
        decreases row,
    {
        let blank = is_line_blank(map.buffer(), row);
        if seen && blank {
            if left <= 1 {
                return map.point_to_display_point(Point { row, column: 0 });
            }
            left -= 1;
            seen = false;
        } else {
            seen = seen || !blank;
        }
        if row == 0 {
            assert(paragraph_start_from(map, -1, seen, left as int) == DisplayPoint {
                row: 0,
                column: 0,
            });
            return DisplayPoint { row: 0, column: 0 };
        }
        row -= 1;
    }
}

/// Moves to the end of the paragraph below: the nearest blank line that has
/// a line with text between `p` and it, counted `count` times.
pub fn end_of_paragraph(map: &DisplaySnapshot, p: DisplayPoint, count: usize) -> (q: DisplayPoint)
    requires
        map.wf(),
    ensures
        q == paragraph_end(map, p, count as int),
{
    let point = map.display_point_to_point(p, Bias::Left);
    let lines = map.buffer().line_total();
    if point.row + 1 == lines {
        return map.max_point();
    }
    let mut seen = false;
    let mut left = count;
    let mut row = point.row;
    while row < lines
        invariant
            map.wf(),
            lines == map.text().line_count(),
            row <= lines,
            paragraph_end_from(map, row as int, seen, left as int) == paragraph_end(
                map,
                p,
                count as int,
            ),
        decreases lines - row,
    {
        let blank = is_line_blank(map.buffer(), row);
        if seen && blank {
            if left <= 1 {
                return map.point_to_display_point(Point { row, column: 0 });
            }
            left -= 1;
            seen = false;
        } else {
            seen = seen || !blank;
        }
        row += 1;
    }
    map.max_point()
}

} // verus!

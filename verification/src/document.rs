//! Motions to the start and the end of the text, and to a line by its
//! number.

use crate::buffer::{Bias, Buffer, Point};
use crate::display::{DisplayPoint, DisplaySnapshot};
use crate::syntax::Excerpt;
use vstd::prelude::*;

verus! {

/// The excerpt that stands for a text which names none: all of its lines,
/// showing a source from its first line on.
pub open spec fn whole_text(buffer: &Buffer) -> Excerpt {
    Excerpt { start_row: 0, end_row: buffer.max_row() as usize, source_row: 0 }
}

/// The excerpts of a text; a text that names none is one excerpt.
pub open spec fn parts(buffer: &Buffer) -> Seq<Excerpt> {
    if buffer.excerpt_list().len() == 0 {
        seq![whole_text(buffer)]
    } else {
        buffer.excerpt_list()
    }
}

/// The number of the first excerpt from `i` on that holds line `row`.
pub open spec fn holder_from(list: Seq<Excerpt>, row: int, i: int) -> Option<int>
    decreases list.len() - i,
{
    if i < 0 || i >= list.len() {
        None
    } else if list[i].holds_row(row) {
        Some(i)
    } else {
        holder_from(list, row, i + 1)
    }
}

/// The number of the excerpt that holds line `row`.
pub open spec fn holder(buffer: &Buffer, row: int) -> Option<int> {
    holder_from(parts(buffer), row, 0)
}

/// The line of the composed text at which excerpt `e` shows line `line` of
/// its source.
pub open spec fn row_in(e: Excerpt, line: int) -> usize {
    (e.start_row + (line - e.source_row)) as usize
}

/// The search through the excerpts from number `i` on for source line
/// `line`. The first excerpt that shows the line gives the place, at the
/// column asked for. An excerpt that begins behind the line gives its own
/// start. If neither is met, the end of the last excerpt is as near as the
/// text comes, and the cursor goes to its last line.
pub open spec fn line_walk(
    map: &DisplaySnapshot,
    i: int,
    last: Option<Excerpt>,
    line: int,
    column: usize,
    from: DisplayPoint,
) -> DisplayPoint
    decreases parts(map.text()).len() - i,
{
    let list = parts(map.text());
    if i < 0 || i >= list.len() {
        match last {
            Some(e) => map.cursor_clipped(
                map.to_display(Point { row: e.end_row, column }),
                Bias::Left,
            ),
            None => from,
        }
    } else {
        let e = list[i];
        if e.shows_line(line) {
            map.to_display(Point { row: row_in(e, line), column })
        } else if line < e.source_row {
            map.to_display(Point { row: e.start_row, column: 0 })
        } else {
            line_walk(map, i + 1, Some(e), line, column, from)
        }
    }
}

/// The place of line number `line`, counted from 1, of the source that the
/// cursor's excerpt shows, at the cursor's column. Where the cursor's own
/// excerpt does not show the line, the other excerpts are searched.
pub open spec fn go_to_line_at(map: &DisplaySnapshot, p: DisplayPoint, line: nat) -> DisplayPoint {
    let point = map.to_point(p, Bias::Left);
    let target = if line > 0 {
        line - 1
    } else {
        0
    };
    match holder(map.text(), point.row as int) {
        None => p,
        Some(k) => {
            let e = parts(map.text())[k];
            if e.shows_line(target) {
                map.cursor_clipped(
                    map.to_display(Point { row: row_in(e, target), column: point.column }),
                    Bias::Left,
                )
            } else {
                line_walk(map, 0, None, target, point.column, p)
            }
        },
    }
}

/// The place in line `row` at the cursor's column, or at the end of the
/// line where it is shorter.
pub open spec fn same_column_in(map: &DisplaySnapshot, p: DisplayPoint, row: int) -> DisplayPoint {
    let point = map.to_point(p, Bias::Left);
    map.cursor_clipped(
        map.to_display(Point { row: row as usize, column: point.column }),
        Bias::Left,
    )
}

/// The first line at the cursor's column, or with a count the line of that
/// number.
pub open spec fn start_of_document_at(map: &DisplaySnapshot, p: DisplayPoint, times: Option<usize>) -> DisplayPoint {
    match times {
        Some(n) => go_to_line_at(map, p, n as nat),
        None => same_column_in(map, p, 0),
    }
}

/// The last line at the cursor's column, or with a count the line of that
/// number.
pub open spec fn end_of_document_at(map: &DisplaySnapshot, p: DisplayPoint, times: Option<usize>) -> DisplayPoint {
    match times {
        Some(n) => go_to_line_at(map, p, n as nat),
        None => same_column_in(map, p, map.text().max_row()),
    }
}

/// The number of excerpts of a text, 1 for a text that names none.
pub fn part_count(buffer: &Buffer) -> (n: usize)
    ensures
        n == parts(buffer).len(),
{
    let n = buffer.excerpts().len();
    if n == 0 {
        1
    } else {
        n
    }
}

/// Excerpt number `i` of a text.
pub fn part(buffer: &Buffer, i: usize) -> (e: Excerpt)
    requires
        buffer.wf(),
        i < parts(buffer).len(),
    ensures
        e == parts(buffer)[i as int],
{
    let list = buffer.excerpts();
    if list.len() == 0 {
        Excerpt { start_row: 0, end_row: buffer.last_row(), source_row: 0 }
    } else {
        list[i]
    }
}

/// Whether an excerpt holds a line of the composed text.
pub fn holds_row(e: &Excerpt, row: usize) -> (holds: bool)
    ensures
        holds == e.holds_row(row as int),
{
    e.start_row <= row && row <= e.end_row
}

/// Whether an excerpt shows a line of its source.
pub fn shows_line(e: &Excerpt, line: usize) -> (shows: bool)
    ensures
        shows == e.shows_line(line as int),
        shows ==> e.start_row + (line - e.source_row) <= e.end_row,
{
    e.source_row <= line && e.start_row <= e.end_row && line - e.source_row <= e.end_row
        - e.start_row
}

/// Finds the excerpt that holds a line of the composed text.
pub fn excerpt_containing(buffer: &Buffer, row: usize) -> (found: Option<usize>)
    requires
        buffer.wf(),
    ensures
        found is Some == holder(buffer, row as int) is Some,
        found is Some ==> found->0 == holder(buffer, row as int)->0 && found->0 < parts(
            buffer,
        ).len(),
{
    let count = part_count(buffer);
    let mut i: usize = 0;
    while i < count
        invariant
            buffer.wf(),
            count == parts(buffer).len(),
            0 <= i <= count,
            holder_from(parts(buffer), row as int, i as int) == holder(buffer, row as int),
        decreases count - i,
    {
        let e = part(buffer, i);
        if holds_row(&e, row) {
            return Some(i);
        }
        i += 1;
    }
    None
}

/// Moves to the line with number `line`, counted from 1; a number of 0
/// counts as 1.
pub fn go_to_line(map: &DisplaySnapshot, display_point: DisplayPoint, line: usize) -> (q:
    DisplayPoint)
    requires
        map.wf(),
    ensures
        q == go_to_line_at(map, display_point, line as nat),
{
    let buffer = map.buffer();
    let point = map.display_point_to_point(display_point, Bias::Left);
    let target = if line > 0 {
        line - 1
    } else {
        0
    };
    let own = match excerpt_containing(buffer, point.row) {
        Some(k) => part(buffer, k),
        None => {
            return display_point;
        },
    };
    if shows_line(&own, target) {
        let row = own.start_row + (target - own.source_row);
        return map.clip_point(
            map.point_to_display_point(Point { row, column: point.column }),
            Bias::Left,
        );
    }
    let count = part_count(buffer);
    let mut last: Option<Excerpt> = None;
    let mut i: usize = 0;
    while i < count
        invariant
            map.wf(),
            buffer == map.text(),
            count == parts(buffer).len(),
            0 <= i <= count,
            line_walk(map, i as int, last, target as int, point.column, display_point)
                == go_to_line_at(map, display_point, line as nat),
        decreases count - i,
    {
        let e = part(buffer, i);
        if shows_line(&e, target) {
            let row = e.start_row + (target - e.source_row);
            return map.point_to_display_point(Point { row, column: point.column });
        } else if target < e.source_row {
            return map.point_to_display_point(Point { row: e.start_row, column: 0 });
        }
        last = Some(e);
        i += 1;
    }
    match last {
        Some(e) => map.clip_point(
            map.point_to_display_point(Point { row: e.end_row, column: point.column }),
            Bias::Left,
        ),
        None => display_point,
    }
}

/// Moves to the first line and keeps the column, or with a count to the
/// line of that number.
pub fn start_of_document(map: &DisplaySnapshot, display_point: DisplayPoint, maybe_times: Option<usize>) -> (q:
    DisplayPoint)
    requires
        map.wf(),
    ensures
        q == start_of_document_at(map, display_point, maybe_times),
{
    match maybe_times {
        Some(times) => go_to_line(map, display_point, times),
        None => {
            let point = map.display_point_to_point(display_point, Bias::Left);
            map.clip_point(
                map.point_to_display_point(Point { row: 0, column: point.column }),
                Bias::Left,
            )
        },
    }
}

/// Moves to the last line and keeps the column, or with a count to the line
/// of that number.
pub fn end_of_document(map: &DisplaySnapshot, display_point: DisplayPoint, maybe_times: Option<usize>) -> (q:
    DisplayPoint)
    requires
        map.wf(),
    ensures
        q == end_of_document_at(map, display_point, maybe_times),
{
    match maybe_times {
        Some(times) => go_to_line(map, display_point, times),
        None => {
            let point = map.display_point_to_point(display_point, Bias::Left);
            map.clip_point(
                map.point_to_display_point(
                    Point { row: map.buffer().last_row(), column: point.column },
                ),
                Bias::Left,
            )
        },
    }
}

} // verus!

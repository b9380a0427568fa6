//! What holds of the motions whatever the text and wherever the cursor.

use crate::buffer::{Bias, Point};
use crate::display::{DisplayPoint, DisplaySnapshot};
use crate::document::{go_to_line_at, holder_from, line_walk, parts, same_column_in};
use crate::motion::{alike, count_of, line_of, repeated_find, Motion};
use crate::range::{taking_in, DisplayRange};
use crate::selection::{display_before, Selection, SelectionGoal};
use crate::structure::is_singleton;
use crate::vertical::buffer_rows_moved;
use crate::window::TextLayoutDetails;
use vstd::prelude::*;

verus! {

/// A count of 0 is a count of 1: every motion lands where it lands when
/// it is made once. Without a count a motion is made once too, but for the
/// motions to the start and to the end of the text, which take a count for
/// a line number and go to the first or last line without one.
pub proof fn law_count_is_at_least_one(
    motion: Motion,
    map: &DisplaySnapshot,
    point: DisplayPoint,
    goal: SelectionGoal,
    layout: &TextLayoutDetails,
)
    ensures
        motion.moved(map, point, goal, Some(0), layout) == motion.moved(
            map,
            point,
            goal,
            Some(1),
            layout,
        ),
        !(motion is StartOfDocument) && !(motion is EndOfDocument) ==> motion.moved(
            map,
            point,
            goal,
            None,
            layout,
        ) == motion.moved(map, point, goal, Some(1), layout),
{
    assert(count_of(Some(0)) == count_of(Some(1)));
    assert(count_of(None) == count_of(Some(1)));
    assert(line_of(Some(0)) == line_of(Some(1)));
}

/// A count of 0 is a count of 1 for the text that an operator acts on as
/// well.
pub proof fn law_count_is_at_least_one_for_ranges(
    motion: Motion,
    map: &DisplaySnapshot,
    selection: Selection,
    expand_to_surrounding_newline: bool,
    layout: &TextLayoutDetails,
)
    ensures
        motion.range_at(map, selection, Some(0), expand_to_surrounding_newline, layout)
            == motion.range_at(map, selection, Some(1), expand_to_surrounding_newline, layout),
{
    law_count_is_at_least_one(motion, map, selection.spec_head(), selection.goal, layout);
}

/// The start of a buffer line is shown in the first column of a display
/// row.
pub proof fn lemma_line_start_column(map: &DisplaySnapshot, p: Point)
    requires
        map.wf(),
    ensures
        map.line_start_of(p).1.column == 0,
        map.valid_display(map.line_start_of(p).1),
{
    let q = Point { row: map.text().clipped(p).row, column: 0 };
    map.text().lemma_clipped(p);
    map.text().lemma_lines(q.row as int);
    map.text().lemma_clipped(q);
    map.lemma_to_display(q);
    assert(map.row_shows(map.to_display(q).row as int, q));
}

/// The row that shows the start of a buffer line is the first of the rows
/// that show the line: no row from which a place of the display is read
/// lies above the start of that place's line.
pub proof fn lemma_line_start_row(map: &DisplaySnapshot, p: DisplayPoint)
    requires
        map.wf(),
    ensures
        map.line_start_of(map.to_point(p, Bias::Left)).1.row <= map.display_clipped(
            p,
            Bias::Left,
        ).row,
        map.display_clipped(p, Bias::Left).row <= p.row,
{
    let c = map.display_clipped(p, Bias::Left);
    map.lemma_display_clipped(p, Bias::Left);
    let point = map.to_point(p, Bias::Left);
    let q = Point { row: point.row, column: 0 };
    map.text().lemma_clipped(point);
    map.text().lemma_lines(point.row as int);
    let first = lemma_first_row_of_line(map, c.row as int);
    lemma_row_search_is_first(map, q, 0, first);
}

/// Going up from row `r`, the first row of its buffer line: it shows the
/// start of the line.
pub proof fn lemma_first_row_of_line(map: &DisplaySnapshot, r: int) -> (first: int)
    requires
        map.wf(),
        0 <= r < map.row_count(),
    ensures
        0 <= first <= r,
        map.spans()[first].line == map.spans()[r].line,
        map.row_shows(first, Point { row: map.spans()[r].line, column: 0 }),
    decreases r,
{
    map.lemma_row(r);
    if map.spans()[r].start == 0 {
        if r + 1 < map.row_count() {
            map.lemma_row(r + 1);
        }
        r
    } else {
        assert(crate::display::row_follows(map.text(), map.spans(), r));
        lemma_first_row_of_line(map, r - 1)
    }
}

/// The search for the row of a point ends no later than at any row that
/// shows the point.
pub proof fn lemma_row_search_is_first(map: &DisplaySnapshot, q: Point, from: int, r: int)
    requires
        map.wf(),
        0 <= from <= r < map.row_count(),
        map.row_shows(r, q),
    ensures
        from <= map.row_search(q, from) <= r,
    decreases r - from,
{
    if from + 1 < map.row_count() && !map.row_shows(from, q) {
        lemma_row_search_is_first(map, q, from + 1, r);
    }
}

/// After a motion that goes by lines the text acted on starts in the first
/// column, at the start of a buffer line. The one exception is a range that
/// takes in the line break in front of the last row, which starts where
/// the row before ends.
pub proof fn law_linewise_range_starts_a_line(
    motion: Motion,
    map: &DisplaySnapshot,
    selection: Selection,
    times: Option<usize>,
    expand_to_surrounding_newline: bool,
    layout: &TextLayoutDetails,
)
    requires
        map.wf(),
        motion.is_linewise(),
        motion.selection_moved(map, selection, times, layout) is Some,
        !expand_to_surrounding_newline || motion.selection_moved(
            map,
            selection,
            times,
            layout,
        )->0.end.row < map.max_display_row(),
    ensures
        motion.range_at(map, selection, times, expand_to_surrounding_newline, layout) is Some,
        motion.range_at(
            map,
            selection,
            times,
            expand_to_surrounding_newline,
            layout,
        )->0.start.column == 0,
{
    let moved = motion.selection_moved(map, selection, times, layout)->0;
    lemma_line_start_column(map, map.to_point(moved.start, Bias::Left));
}

/// After a motion that goes by lines, a range that takes in the line break
/// behind it ends in the first column of the row below the selection:
/// the text acted on is whole lines, from the first column of one to the
/// first column of a later one. This holds wherever there is a row below.
pub proof fn law_linewise_range_ends_a_line(
    motion: Motion,
    map: &DisplaySnapshot,
    selection: Selection,
    times: Option<usize>,
    layout: &TextLayoutDetails,
)
    requires
        map.wf(),
        motion.is_linewise(),
        motion.selection_moved(map, selection, times, layout) is Some,
        motion.selection_moved(map, selection, times, layout)->0.end.row
            < map.max_display_row(),
    ensures
        motion.range_at(map, selection, times, true, layout) is Some,
        motion.range_at(map, selection, times, true, layout)->0.start.column == 0,
        motion.range_at(map, selection, times, true, layout)->0.end.column == 0,
        motion.range_at(map, selection, times, true, layout)->0.end.row
            == motion.selection_moved(map, selection, times, layout)->0.end.row + 1,
        motion.range_at(map, selection, times, true, layout)->0.start.row <= motion.range_at(
            map,
            selection,
            times,
            true,
            layout,
        )->0.end.row,
{
    let moved = motion.selection_moved(map, selection, times, layout)->0;
    lemma_line_start_column(map, map.to_point(moved.start, Bias::Left));
    lemma_line_start_row(map, moved.start);
    let below = DisplayPoint { row: (moved.end.row + 1) as usize, column: 0 };
    map.lemma_row(below.row as int);
    map.lemma_display_clipped(below, Bias::Right);
    map.lemma_display_clipped(below, Bias::Left);
}

/// After a motion that takes in the character it lands on, and that moved
/// the cursor to the end of the selection, the text acted on reaches from
/// the anchor to just behind the place where the motion landed, or to that
/// place itself where it is the end of a row.
pub proof fn law_inclusive_range_takes_in_the_end(
    motion: Motion,
    map: &DisplaySnapshot,
    selection: Selection,
    times: Option<usize>,
    expand_to_surrounding_newline: bool,
    layout: &TextLayoutDetails,
)
    requires
        map.wf(),
        motion.is_inclusive(),
        !motion.is_linewise(),
        motion.head_moved(map, selection, times, layout) is Some,
        !display_before(motion.head_moved(map, selection, times, layout)->0, selection.spec_tail()),
    ensures
        motion.range_at(map, selection, times, expand_to_surrounding_newline, layout) == Some(
            DisplayRange {
                start: selection.spec_tail(),
                end: taking_in(map, motion.head_moved(map, selection, times, layout)->0),
            },
        ),
{
}

/// Taking in the character under a place of the display moves on by one
/// character: where clipping lets the cursor stand behind the last
/// character of a line, the end of the range is one offset behind the
/// place, and the place itself only at the end of a row.
pub proof fn law_taking_in_is_one_past(map: &DisplaySnapshot, head: DisplayPoint)
    requires
        map.wf(),
        map.valid_display(head),
        !map.clips_line_ends(),
    ensures
        map.valid_display(taking_in(map, head)),
        map.to_offset(taking_in(map, head), Bias::Left) == if head.column < map.row_len(
            head.row as int,
        ) {
            map.to_offset(head, Bias::Left) + 1
        } else {
            map.to_offset(head, Bias::Left)
        },
{
    map.lemma_row(head.row as int);
    map.lemma_display_clipped(head, Bias::Left);
    if head.column < map.row_len(head.row as int) {
        let next = DisplayPoint { row: head.row, column: (head.column + 1) as usize };
        map.lemma_display_clipped(next, Bias::Right);
        let landed = map.display_clipped(next, Bias::Right);
        map.lemma_display_clipped(landed, Bias::Left);
        map.lemma_row(landed.row as int);
        let span = map.spans()[head.row as int];
        map.text().lemma_lines(span.line as int);
        let here = map.to_point(head, Bias::Left);
        let there = map.to_point(landed, Bias::Left);
        assert(there.row == here.row);
        assert(there.column == here.column + 1);
        map.text().lemma_clipped(here);
        map.text().lemma_clipped(there);
    }
}

/// In a text that is not composed of excerpts, going to a line by its
/// number lands in that line at the cursor's column, and in the last line
/// where the text has no line of that number.
pub proof fn law_go_to_line_in_one_text(map: &DisplaySnapshot, p: DisplayPoint, line: nat)
    requires
        map.wf(),
        is_singleton(map.text()),
        line >= 1,
    ensures
        go_to_line_at(map, p, line) == same_column_in(
            map,
            p,
            if line - 1 <= map.text().max_row() {
                line - 1
            } else {
                map.text().max_row()
            },
        ),
{
    let buffer = map.text();
    let point = map.to_point(p, Bias::Left);
    map.lemma_display_clipped(p, Bias::Left);
    buffer.lemma_lines(0);
    buffer.lemma_line_starts_ordered(0, buffer.max_row());
    let list = parts(buffer);
    assert(list.len() == 1);
    assert(list[0].holds_row(point.row as int));
    assert(holder_from(list, point.row as int, 0) == Some(0int));
    let target = line - 1;
    if !list[0].shows_line(target) {
        assert(line_walk(map, 0, None, target, point.column, p) == line_walk(
            map,
            1,
            Some(list[0]),
            target,
            point.column,
            p,
        ));
    }
}

/// Rows that show the same buffer line show it piece by piece: a later row
/// starts where an earlier one ends or behind that.
pub proof fn lemma_rows_of_a_line(map: &DisplaySnapshot, r: int, s: int)
    requires
        map.wf(),
        0 <= r < s < map.row_count(),
        map.spans()[r].line == map.spans()[s].line,
    ensures
        !map.ends_line(r),
        map.spans()[r].end <= map.spans()[s].start,
    decreases s - r,
{
    lemma_rows_in_order(map, r, s);
    map.lemma_row(r);
    map.lemma_row(s);
    map.lemma_row(s - 1);
    if r < s - 1 {
        lemma_rows_in_order(map, r, s - 1);
        lemma_rows_in_order(map, s - 1, s);
        lemma_rows_of_a_line(map, r, s - 1);
    }
}

/// Later rows show later lines, or the same line.
pub proof fn lemma_rows_in_order(map: &DisplaySnapshot, r: int, s: int)
    requires
        map.wf(),
        0 <= r <= s < map.row_count(),
    ensures
        map.spans()[r].line <= map.spans()[s].line,
    decreases s - r,
{
    if r < s {
        lemma_rows_in_order(map, r, s - 1);
        map.lemma_row(s - 1);
    }
}

/// The two spaces name the same places: a buffer point, shown on the
/// display and read back, is the point itself, and a place of the display,
/// read as a buffer point and shown again, is the place itself.
pub proof fn law_points_round_trip(map: &DisplaySnapshot, p: Point, d: DisplayPoint, bias: Bias)
    requires
        map.wf(),
    ensures
        map.text().valid_point(p) ==> map.to_point(map.to_display(p), bias) == p,
        map.valid_display(d) ==> map.to_display(map.to_point(d, bias)) == d,
{
    map.lemma_to_display(p);
    map.text().lemma_clipped(p);
    if map.valid_display(d) {
        map.lemma_display_clipped(d, bias);
        map.lemma_row(d.row as int);
        let q = map.to_point(d, bias);
        map.text().lemma_clipped(q);
        map.lemma_to_display(q);
        assert(map.row_shows(d.row as int, q));
        lemma_row_search_is_first(map, q, 0, d.row as int);
        let r = map.row_search(q, 0);
        map.lemma_row(r);
        if r < d.row {
            lemma_rows_of_a_line(map, r, d.row as int);
        }
    }
}

/// A vertical motion keeps the goal it is given, and where it is given
/// none it remembers the column it began in, so that the next one aims
/// for the same column however short the lines between are.
pub proof fn law_vertical_motion_keeps_goal(
    map: &DisplaySnapshot,
    p: DisplayPoint,
    goal: SelectionGoal,
    times: int,
)
    ensures
        goal != SelectionGoal::Unset ==> buffer_rows_moved(map, p, goal, times).1 == goal,
        goal == SelectionGoal::Unset ==> buffer_rows_moved(map, p, goal, times).1
            is WrappedHorizontalPosition && buffer_rows_moved(
            map,
            p,
            goal,
            times,
        ).1->WrappedHorizontalPosition_1 == p.column,
{
}

/// The same motions are alike in what operators need to know of them.
pub proof fn law_copy_is_classified_alike(a: Motion, b: Motion)
    requires
        alike(a, b),
    ensures
        a.is_linewise() == b.is_linewise(),
        a.is_infallible() == b.is_infallible(),
        a.is_inclusive() == b.is_inclusive(),
    decreases a,
{
    match a {
        Motion::RepeatFind { last_find } => {
            law_copy_is_classified_alike(*last_find, *b->RepeatFind_last_find);
        },
        Motion::RepeatFindReversed { last_find } => {
            law_copy_is_classified_alike(*last_find, *b->RepeatFindReversed_last_find);
        },
        _ => {},
    }
}

/// The same motions take a cursor to the same place, and give an operator
/// the same text to act on: a copy of a motion stands for the motion.
pub proof fn law_copy_moves_alike(
    a: Motion,
    b: Motion,
    map: &DisplaySnapshot,
    selection: Selection,
    times: Option<usize>,
    expand_to_surrounding_newline: bool,
    layout: &TextLayoutDetails,
)
    requires
        alike(a, b),
    ensures
        a.moved(map, selection.spec_head(), selection.goal, times, layout) == b.moved(
            map,
            selection.spec_head(),
            selection.goal,
            times,
            layout,
        ),
        a.range_at(map, selection, times, expand_to_surrounding_newline, layout) == b.range_at(
            map,
            selection,
            times,
            expand_to_surrounding_newline,
            layout,
        ),
{
    law_copy_is_classified_alike(a, b);
    let point = selection.spec_head();
    let count = count_of(times);
    match a {
        Motion::RepeatFind { last_find } => {
            lemma_repeated_alike(*last_find, *b->RepeatFind_last_find, map, point, count, false);
        },
        Motion::RepeatFindReversed { last_find } => {
            lemma_repeated_alike(
                *last_find,
                *b->RepeatFindReversed_last_find,
                map,
                point,
                count,
                true,
            );
        },
        _ => {},
    }
}

/// The same searches, made again, land in the same place.
proof fn lemma_repeated_alike(
    a: Motion,
    b: Motion,
    map: &DisplaySnapshot,
    p: DisplayPoint,
    times: nat,
    reversed: bool,
)
    requires
        alike(a, b),
    ensures
        repeated_find(map, p, a, times, reversed) == repeated_find(map, p, b, times, reversed),
{
}

/// A motion that may fail never succeeds in place: where its outcome is a
/// place, that place is not the cursor's. Only the motions that cannot
/// fail (to the start and the end of the text, and to the end of the
/// current line) succeed where they leave the cursor.
pub proof fn law_fallible_motion_moves(
    motion: Motion,
    map: &DisplaySnapshot,
    point: DisplayPoint,
    goal: SelectionGoal,
    maybe_times: Option<usize>,
    layout: &TextLayoutDetails,
)
    requires
        !motion.is_infallible(),
    ensures
        motion.landing(map, point, goal, maybe_times, layout) != Some(point),
{
}

/// A motion that cannot fail always has an outcome.
pub proof fn law_infallible_motion_lands(
    motion: Motion,
    map: &DisplaySnapshot,
    point: DisplayPoint,
    goal: SelectionGoal,
    maybe_times: Option<usize>,
    layout: &TextLayoutDetails,
)
    requires
        motion.is_infallible(),
    ensures
        motion.moved(map, point, goal, maybe_times, layout) is Some,
{
}

/// A later offset is a later point of the text.
pub proof fn lemma_point_order(map: &DisplaySnapshot, a: int, b: int)
    requires
        map.wf(),
        0 <= a < b <= map.text().chars().len(),
    ensures
        map.text().point_of(a).row < map.text().point_of(b).row || (map.text().point_of(a).row
            == map.text().point_of(b).row && map.text().point_of(a).column
            < map.text().point_of(b).column),
{
    let buffer = map.text();
    buffer.lemma_row_of(a);
    buffer.lemma_row_of(b);
    let ra = buffer.row_of(a);
    let rb = buffer.row_of(b);
    buffer.lemma_lines(ra);
    buffer.lemma_lines(rb);
    if ra > rb {
        buffer.lemma_line_starts_ordered(rb + 1, ra);
    }
}

/// The display keeps the order of the text: of two offsets, the later one
/// is shown at the later place.
pub proof fn law_display_keeps_order(map: &DisplaySnapshot, a: int, b: int)
    requires
        map.wf(),
        0 <= a < b <= map.text().chars().len(),
    ensures
        display_before(map.offset_to_display(a), map.offset_to_display(b)),
        map.to_offset(map.offset_to_display(a), Bias::Left) == a,
        map.to_offset(map.offset_to_display(b), Bias::Left) == b,
{
    let buffer = map.text();
    let pa = buffer.point_of(a);
    let pb = buffer.point_of(b);
    lemma_point_order(map, a, b);
    buffer.lemma_row_of(a);
    buffer.lemma_row_of(b);
    buffer.lemma_point_offset_round_trip(pa, a);
    buffer.lemma_point_offset_round_trip(pb, b);
    buffer.lemma_clipped(pa);
    buffer.lemma_clipped(pb);
    map.lemma_to_display(pa);
    map.lemma_to_display(pb);
    let da = map.to_display(pa);
    let db = map.to_display(pb);
    map.lemma_row(da.row as int);
    map.lemma_row(db.row as int);
    assert(map.to_point(da, Bias::Left) == pa);
    assert(map.to_point(db, Bias::Left) == pb);
    if db.row < da.row {
        lemma_rows_in_order(map, db.row as int, da.row as int);
        lemma_rows_of_a_line(map, db.row as int, da.row as int);
    }
}

/// A place of the display is the place at which its own offset is shown.
pub proof fn lemma_place_of_own_offset(map: &DisplaySnapshot, p: DisplayPoint)
    requires
        map.wf(),
        map.valid_display(p),
    ensures
        map.offset_to_display(map.to_offset(p, Bias::Left)) == p,
        0 <= map.to_offset(p, Bias::Left) <= map.text().chars().len(),
{
    let pt = map.to_point(p, Bias::Left);
    map.lemma_display_clipped(p, Bias::Left);
    map.text().lemma_clipped(pt);
    map.text().lemma_point_offset_round_trip(pt, 0);
    law_points_round_trip(map, pt, p, Bias::Left);
}

} // verus!

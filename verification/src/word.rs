//! Motions by words and by the parts of words that `camelCase` and
//! `snake_case` set apart.

use crate::buffer::{Bias, Point};
use crate::display::{DisplayPoint, DisplaySnapshot};
use crate::horizontal::{next_char, next_char_of};
use crate::movement::{
    boundary_after, boundary_after_exclusive, boundary_before, boundary_before_point,
    boundary_found, boundary_offset, find_boundary, find_boundary_exclusive,
    find_preceding_boundary_display_point, find_preceding_boundary_point, saturating_left,
    saturating_left_of,
};
use crate::repeat::repeat_while_moving;
use crate::scan::{Boundary, FindRange};
use vstd::prelude::*;

verus! {

/// The step that scans forward to the next boundary of `rule`.
pub open spec fn forward_step(map: &DisplaySnapshot, rule: Boundary) -> spec_fn(DisplayPoint) -> DisplayPoint {
    |q: DisplayPoint| boundary_after(map, q, FindRange::MultiLine, rule)
}

/// The step that scans backward to the nearest boundary of `rule`.
pub open spec fn backward_step(map: &DisplaySnapshot, rule: Boundary) -> spec_fn(DisplayPoint) -> DisplayPoint {
    |q: DisplayPoint| boundary_before(map, q, FindRange::MultiLine, rule)
}

/// The step that scans backward, in buffer points, to the nearest boundary
/// of `rule`.
pub open spec fn backward_point_step(map: &DisplaySnapshot, rule: Boundary) -> spec_fn(Point) -> Point {
    |q: Point| boundary_before_point(map.text(), q, FindRange::MultiLine, rule)
}

/// The start of the `times`-th word behind `p`. An empty line counts as a
/// word.
pub open spec fn next_word_start_at(
    map: &DisplaySnapshot,
    p: DisplayPoint,
    ignore_punctuation: bool,
    times: nat,
) -> DisplayPoint {
    repeat_while_moving(forward_step(map, Boundary::WordStart { ignore_punctuation }), p, times)
}

/// The end of the word that ends next behind `p`: the scan starts one
/// character on and ends on the last character in front of a change of
/// class. Where line breaks may not be crossed, the scan stops in front of
/// one and the cursor goes one place further.
pub open spec fn word_end_after(
    map: &DisplaySnapshot,
    p: DisplayPoint,
    ignore_punctuation: bool,
    allow_cross_newline: bool,
) -> DisplayPoint {
    let rule = Boundary::WordEnd { ignore_punctuation, stop_at_newline: !allow_cross_newline };
    let from = next_char_of(map, p, allow_cross_newline);
    let stop = boundary_offset(map, from, FindRange::MultiLine, rule);
    let landed = boundary_after_exclusive(map, from, FindRange::MultiLine, rule);
    let at_break = boundary_found(map, from, FindRange::MultiLine, rule) && !allow_cross_newline
        && map.text().chars()[stop] == '\n';
    let moved = if at_break {
        next_char_of(map, landed, true)
    } else {
        landed
    };
    map.cursor_clipped(moved, Bias::Left)
}

/// The step of `next_word_end`.
pub open spec fn word_end_step(
    map: &DisplaySnapshot,
    ignore_punctuation: bool,
    allow_cross_newline: bool,
) -> spec_fn(DisplayPoint) -> DisplayPoint {
    |q: DisplayPoint| word_end_after(map, q, ignore_punctuation, allow_cross_newline)
}

/// The end of the `times`-th word that ends behind `p`.
pub open spec fn next_word_end_at(
    map: &DisplaySnapshot,
    p: DisplayPoint,
    ignore_punctuation: bool,
    times: nat,
    allow_cross_newline: bool,
) -> DisplayPoint {
    repeat_while_moving(word_end_step(map, ignore_punctuation, allow_cross_newline), p, times)
}

/// The start of the `times`-th word in front of `p`.
pub open spec fn previous_word_start_at(
    map: &DisplaySnapshot,
    p: DisplayPoint,
    ignore_punctuation: bool,
    times: nat,
) -> DisplayPoint {
    repeat_while_moving(
        backward_step(map, Boundary::WordStartBackward { ignore_punctuation }),
        p,
        times,
    )
}

/// The buffer point just behind the character under the cursor; the
/// cursor's own point at the end of a line.
pub open spec fn point_behind(map: &DisplaySnapshot, p: DisplayPoint) -> Point {
    let at = map.to_point(p, Bias::Left);
    if at.column < map.text().line_len(at.row as int) {
        Point { row: at.row, column: (at.column + 1) as usize }
    } else {
        at
    }
}

/// The end of the `times`-th word that ends in front of `p`, found by
/// `rule`: the character in front of the boundary reached.
pub open spec fn previous_end_at(map: &DisplaySnapshot, p: DisplayPoint, rule: Boundary, times: nat) -> DisplayPoint {
    let reached = repeat_while_moving(backward_point_step(map, rule), point_behind(map, p), times);
    saturating_left_of(map, map.to_display(reached))
}

/// The end of the `times`-th word that ends in front of `p`.
pub open spec fn previous_word_end_at(
    map: &DisplaySnapshot,
    p: DisplayPoint,
    ignore_punctuation: bool,
    times: nat,
) -> DisplayPoint {
    previous_end_at(map, p, Boundary::WordEndBackward { ignore_punctuation }, times)
}

/// The start of the `times`-th word or part of a word behind `p`.
pub open spec fn next_subword_start_at(
    map: &DisplaySnapshot,
    p: DisplayPoint,
    ignore_punctuation: bool,
    times: nat,
) -> DisplayPoint {
    repeat_while_moving(forward_step(map, Boundary::SubwordStart { ignore_punctuation }), p, times)
}

/// The end of the word or part of a word that ends next behind `p`: the
/// scan starts one character on, and the cursor steps back onto the
/// character in front of the boundary. Where the scan stopped in front of a
/// line break that it may not cross, or found nothing, nothing is stepped
/// back.
pub open spec fn subword_end_after(
    map: &DisplaySnapshot,
    p: DisplayPoint,
    ignore_punctuation: bool,
    allow_cross_newline: bool,
) -> DisplayPoint {
    let rule = Boundary::SubwordEnd { ignore_punctuation, stop_at_newline: !allow_cross_newline };
    let from = next_char_of(map, p, allow_cross_newline);
    let stop = boundary_offset(map, from, FindRange::MultiLine, rule);
    let landed = map.cursor_clipped(
        boundary_after(map, from, FindRange::MultiLine, rule),
        Bias::Left,
    );
    let at_end = boundary_found(map, from, FindRange::MultiLine, rule) && !(!allow_cross_newline
        && map.text().chars()[stop] == '\n');
    let moved = if at_end && landed.column > 0 {
        DisplayPoint { row: landed.row, column: (landed.column - 1) as usize }
    } else {
        landed
    };
    map.cursor_clipped(moved, Bias::Left)
}

/// The step of `next_subword_end`.
pub open spec fn subword_end_step(
    map: &DisplaySnapshot,
    ignore_punctuation: bool,
    allow_cross_newline: bool,
) -> spec_fn(DisplayPoint) -> DisplayPoint {
    |q: DisplayPoint| subword_end_after(map, q, ignore_punctuation, allow_cross_newline)
}

/// The end of the `times`-th word or part of a word that ends behind `p`.
pub open spec fn next_subword_end_at(
    map: &DisplaySnapshot,
    p: DisplayPoint,
    ignore_punctuation: bool,
    times: nat,
    allow_cross_newline: bool,
) -> DisplayPoint {
    repeat_while_moving(subword_end_step(map, ignore_punctuation, allow_cross_newline), p, times)
}

/// The start of the `times`-th word or part of a word in front of `p`.
pub open spec fn previous_subword_start_at(
    map: &DisplaySnapshot,
    p: DisplayPoint,
    ignore_punctuation: bool,
    times: nat,
) -> DisplayPoint {
    repeat_while_moving(backward_step(map, Boundary::SubwordStart { ignore_punctuation }), p, times)
}

/// The end of the `times`-th word or part of a word that ends in front of
/// `p`.
pub open spec fn previous_subword_end_at(
    map: &DisplaySnapshot,
    p: DisplayPoint,
    ignore_punctuation: bool,
    times: nat,
) -> DisplayPoint {
    previous_end_at(map, p, Boundary::SubwordEndBackward { ignore_punctuation }, times)
}

/// Scans forward `times` times to a boundary of `rule` and stops early
/// where a scan does not move the cursor.
fn forward_by(map: &DisplaySnapshot, from: DisplayPoint, rule: Boundary, times: usize) -> (q:
    DisplayPoint)
    requires
        map.wf(),
    ensures
        q == repeat_while_moving(forward_step(map, rule), from, times as nat),
{
    let ghost step = forward_step(map, rule);
    let ghost goal = repeat_while_moving(step, from, times as nat);
    let mut point = from;
    let mut left = times;
    while left > 0
        invariant
            map.wf(),
            step == forward_step(map, rule),
            goal == repeat_while_moving(step, from, times as nat),
            repeat_while_moving(step, point, left as nat) == goal,
        decreases left,
    {
        let new_point = find_boundary(map, point, FindRange::MultiLine, rule).0;
        if point == new_point {
            return point;
        }
        point = new_point;
        left -= 1;
    }
    point
}

/// Scans backward `times` times to a boundary of `rule` and stops early
/// where a scan does not move the cursor.
fn backward_by(map: &DisplaySnapshot, from: DisplayPoint, rule: Boundary, times: usize) -> (q:
    DisplayPoint)
    requires
        map.wf(),
    ensures
        q == repeat_while_moving(backward_step(map, rule), from, times as nat),
{
    let ghost step = backward_step(map, rule);
    let ghost goal = repeat_while_moving(step, from, times as nat);
    let mut point = from;
    let mut left = times;
    while left > 0
        invariant
            map.wf(),
            step == backward_step(map, rule),
            goal == repeat_while_moving(step, from, times as nat),
            repeat_while_moving(step, point, left as nat) == goal,
        decreases left,
    {
        let new_point = find_preceding_boundary_display_point(
            map,
            point,
            FindRange::MultiLine,
            rule,
        ).0;
        if point == new_point {
            return point;
        }
        point = new_point;
        left -= 1;
    }
    point
}

/// Scans backward from behind the cursor `times` times to a word end of
/// `rule`, and lands on the character in front of the boundary reached.
fn previous_end(map: &DisplaySnapshot, from: DisplayPoint, rule: Boundary, times: usize) -> (q:
    DisplayPoint)
    requires
        map.wf(),
    ensures
        q == previous_end_at(map, from, rule, times as nat),
{
    let ghost step = backward_point_step(map, rule);
    let ghost goal = repeat_while_moving(step, point_behind(map, from), times as nat);
    let start = map.display_point_to_point(from, Bias::Left);
    let mut point = if start.column < map.buffer().line_length(start.row) {
        Point { row: start.row, column: start.column + 1 }
    } else {
        start
    };
    let mut left = times;
    while left > 0
        invariant
            map.wf(),
            step == backward_point_step(map, rule),
            goal == repeat_while_moving(step, point_behind(map, from), times as nat),
            repeat_while_moving(step, point, left as nat) == goal,
        decreases left,
    {
        let new_point = find_preceding_boundary_point(
            map.buffer(),
            point,
            FindRange::MultiLine,
            rule,
        ).0;
        if new_point == point {
            return saturating_left(map, map.point_to_display_point(point));
        }
        point = new_point;
        left -= 1;
    }
    saturating_left(map, map.point_to_display_point(point))
}

/// Moves to the start of the `times`-th word behind the cursor.
pub fn next_word_start(
    map: &DisplaySnapshot,
    point: DisplayPoint,
    ignore_punctuation: bool,
    times: usize,
) -> (q: DisplayPoint)
    requires
        map.wf(),
    ensures
        q == next_word_start_at(map, point, ignore_punctuation, times as nat),
{
    forward_by(map, point, Boundary::WordStart { ignore_punctuation }, times)
}

/// Moves to the end of the `times`-th word that ends behind the cursor.
pub fn next_word_end(
    map: &DisplaySnapshot,
    point: DisplayPoint,
    ignore_punctuation: bool,
    times: usize,
    allow_cross_newline: bool,
) -> (q: DisplayPoint)
    requires
        map.wf(),
    ensures
        q == next_word_end_at(map, point, ignore_punctuation, times as nat, allow_cross_newline),
{
    let ghost step = word_end_step(map, ignore_punctuation, allow_cross_newline);
    let ghost goal = repeat_while_moving(step, point, times as nat);
    let rule = Boundary::WordEnd { ignore_punctuation, stop_at_newline: !allow_cross_newline };
    let mut at = point;
    let mut left = times;
    while left > 0
        invariant
            map.wf(),
            step == word_end_step(map, ignore_punctuation, allow_cross_newline),
            goal == repeat_while_moving(step, point, times as nat),
            rule == (Boundary::WordEnd { ignore_punctuation, stop_at_newline: !allow_cross_newline }),
            repeat_while_moving(step, at, left as nat) == goal,
        decreases left,
    {
        let from = next_char(map, at, allow_cross_newline);
        let found = find_boundary_exclusive(map, from, FindRange::MultiLine, rule);
        let at_break = found.1.fired && !allow_cross_newline && map.buffer().char_at_offset(
            found.1.offset,
        ) == Some('\n');
        let moved = if at_break {
            next_char(map, found.0, true)
        } else {
            found.0
        };
        let new_point = map.clip_point(moved, Bias::Left);
        if at == new_point {
            return at;
        }
        at = new_point;
        left -= 1;
    }
    at
}

/// Moves to the start of the `times`-th word in front of the cursor.
pub fn previous_word_start(
    map: &DisplaySnapshot,
    point: DisplayPoint,
    ignore_punctuation: bool,
    times: usize,
) -> (q: DisplayPoint)
    requires
        map.wf(),
    ensures
        q == previous_word_start_at(map, point, ignore_punctuation, times as nat),
{
    backward_by(map, point, Boundary::WordStartBackward { ignore_punctuation }, times)
}

/// Moves to the end of the `times`-th word that ends in front of the
/// cursor.
pub fn previous_word_end(
    map: &DisplaySnapshot,
    point: DisplayPoint,
    ignore_punctuation: bool,
    times: usize,
) -> (q: DisplayPoint)
    requires
        map.wf(),
    ensures
        q == previous_word_end_at(map, point, ignore_punctuation, times as nat),
{
    previous_end(map, point, Boundary::WordEndBackward { ignore_punctuation }, times)
}

/// Moves to the start of the `times`-th word or part of a word behind the
/// cursor.
pub fn next_subword_start(
    map: &DisplaySnapshot,
    point: DisplayPoint,
    ignore_punctuation: bool,
    times: usize,
) -> (q: DisplayPoint)
    requires
        map.wf(),
    ensures
        q == next_subword_start_at(map, point, ignore_punctuation, times as nat),
{
    forward_by(map, point, Boundary::SubwordStart { ignore_punctuation }, times)
}

/// Moves to the end of the `times`-th word or part of a word that ends
/// behind the cursor.
pub fn next_subword_end(
    map: &DisplaySnapshot,
    point: DisplayPoint,
    ignore_punctuation: bool,
    times: usize,
    allow_cross_newline: bool,
) -> (q: DisplayPoint)
    requires
        map.wf(),
    ensures
        q == next_subword_end_at(map, point, ignore_punctuation, times as nat, allow_cross_newline),
{
    let ghost step = subword_end_step(map, ignore_punctuation, allow_cross_newline);
    let ghost goal = repeat_while_moving(step, point, times as nat);
    let rule = Boundary::SubwordEnd { ignore_punctuation, stop_at_newline: !allow_cross_newline };
    let mut at = point;
    let mut left = times;
    while left > 0
        invariant
            map.wf(),
            step == subword_end_step(map, ignore_punctuation, allow_cross_newline),
            goal == repeat_while_moving(step, point, times as nat),
            rule == (Boundary::SubwordEnd {
                ignore_punctuation,
                stop_at_newline: !allow_cross_newline,
            }),
            repeat_while_moving(step, at, left as nat) == goal,
        decreases left,
    {
        let from = next_char(map, at, allow_cross_newline);
        let found = find_boundary(map, from, FindRange::MultiLine, rule);
        let at_end = found.1.fired && !(!allow_cross_newline && map.buffer().char_at_offset(
            found.1.offset,
        ) == Some('\n'));
        let landed = map.clip_point(found.0, Bias::Left);
        let moved = if at_end && landed.column > 0 {
            DisplayPoint { row: landed.row, column: landed.column - 1 }
        } else {
            landed
        };
        let new_point = map.clip_point(moved, Bias::Left);
        if at == new_point {
            return at;
        }
        at = new_point;
        left -= 1;
    }
    at
}

/// Moves to the start of the `times`-th word or part of a word in front of
/// the cursor.
pub fn previous_subword_start(
    map: &DisplaySnapshot,
    point: DisplayPoint,
    ignore_punctuation: bool,
    times: usize,
) -> (q: DisplayPoint)
    requires
        map.wf(),
    ensures
        q == previous_subword_start_at(map, point, ignore_punctuation, times as nat),
{
    backward_by(map, point, Boundary::SubwordStart { ignore_punctuation }, times)
}

/// Moves to the end of the `times`-th word or part of a word that ends in
/// front of the cursor.
pub fn previous_subword_end(
    map: &DisplaySnapshot,
    point: DisplayPoint,
    ignore_punctuation: bool,
    times: usize,
) -> (q: DisplayPoint)
    requires
        map.wf(),
    ensures
        q == previous_subword_end_at(map, point, ignore_punctuation, times as nat),
{
    previous_end(map, point, Boundary::SubwordEndBackward { ignore_punctuation }, times)
}

} // verus!

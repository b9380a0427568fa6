//! Motions to the structural objects of the text: sections, methods and
//! comments.

use crate::buffer::{Bias, Buffer, Point};
use crate::display::{DisplayPoint, DisplaySnapshot};
use crate::document::{excerpt_containing, holder, part, parts};
use crate::repeat::repeat_while_moving;
use crate::selection::{display_before, precedes};
use crate::syntax::{Excerpt, ObjectRange, TextObject};
use vstd::prelude::*;

verus! {

/// The way a structural motion goes.
#[derive(Clone, Copy, Debug, PartialEq, Eq, Structural)]
pub enum Direction {
    Prev,
    Next,
}

/// How deep in the syntax tree a section may begin.
pub const SECTION_DEPTH: usize = 3;

/// How deep in the syntax tree a method may begin.
pub const METHOD_DEPTH: usize = 4;

/// How deep in the syntax tree a comment may begin.
pub const COMMENT_DEPTH: usize = 6;

/// Whether the text is one text of its own, not composed of excerpts.
pub open spec fn is_singleton(buffer: &Buffer) -> bool {
    buffer.excerpt_list().len() == 0
}

/// The edge of an object that a motion looks at.
pub open spec fn edge_of(object: ObjectRange, is_start: bool) -> int {
    if is_start {
        object.start as int
    } else {
        object.end as int
    }
}

/// Whether an edge lies on the side of the cursor at `o` that the motion
/// goes to: in front of it, or more than one character behind it.
pub open spec fn edge_counts(edge: int, o: int, direction: Direction) -> bool {
    match direction {
        Direction::Prev => edge < o,
        Direction::Next => edge > o + 1,
    }
}

/// Whether an edge is nearer to the cursor than the best one before it.
pub open spec fn edge_nearer(edge: int, best: Option<int>, direction: Direction) -> bool {
    match best {
        None => true,
        Some(b) => match direction {
            Direction::Prev => edge > b,
            Direction::Next => edge < b,
        },
    }
}

/// The part of the text that a motion from offset `o` searches.
pub open spec fn search_span(buffer: &Buffer, o: int, direction: Direction) -> (int, int) {
    match direction {
        Direction::Prev => (0, o),
        Direction::Next => (o, buffer.chars().len() as int),
    }
}

/// The nearest edge, on the side the motion goes to, of the objects of
/// `kind` from number `i` on that begin no deeper than `depth` and touch
/// the part searched, given the best before.
pub open spec fn nearest_edge(
    buffer: &Buffer,
    o: int,
    direction: Direction,
    is_start: bool,
    kind: TextObject,
    depth: int,
    i: int,
    best: Option<int>,
) -> Option<int>
    decreases buffer.object_ranges().len() - i,
{
    let objects = buffer.object_ranges();
    if i < 0 || i >= objects.len() {
        best
    } else {
        let object = objects[i];
        let (low, high) = search_span(buffer, o, direction);
        let edge = edge_of(object, is_start);
        let better = object.kind == kind && object.within(low, high, depth) && edge_counts(
            edge,
            o,
            direction,
        ) && edge_nearer(edge, best, direction);
        nearest_edge(
            buffer,
            o,
            direction,
            is_start,
            kind,
            depth,
            i + 1,
            if better {
                Some(edge)
            } else {
                best
            },
        )
    }
}

/// One step of a motion by objects of one kind: to the nearest edge, or
/// nowhere if there is none.
pub open spec fn object_edge_after(
    map: &DisplaySnapshot,
    p: DisplayPoint,
    direction: Direction,
    is_start: bool,
    kind: TextObject,
    depth: int,
) -> DisplayPoint {
    let o = map.to_offset(p, Bias::Left);
    let dest = match nearest_edge(map.text(), o, direction, is_start, kind, depth, 0, None) {
        Some(edge) => edge,
        None => o,
    };
    map.cursor_clipped(map.offset_to_display(dest), Bias::Left)
}

/// The step of `method_motion`.
pub open spec fn method_step(map: &DisplaySnapshot, direction: Direction, is_start: bool) -> spec_fn(
    DisplayPoint,
) -> DisplayPoint {
    |q: DisplayPoint|
        object_edge_after(
            map,
            q,
            direction,
            is_start,
            TextObject::AroundFunction,
            METHOD_DEPTH as int,
        )
}

/// The start or the end of the `times`-th method on the side the motion
/// goes to. A text composed of excerpts has no methods to go to.
pub open spec fn method_motion_at(
    map: &DisplaySnapshot,
    p: DisplayPoint,
    times: nat,
    direction: Direction,
    is_start: bool,
) -> DisplayPoint {
    if is_singleton(map.text()) {
        repeat_while_moving(method_step(map, direction, is_start), p, times)
    } else {
        p
    }
}

/// The step of `comment_motion`: backward to the start of a comment,
/// forward to its end.
pub open spec fn comment_step(map: &DisplaySnapshot, direction: Direction) -> spec_fn(
    DisplayPoint,
) -> DisplayPoint {
    |q: DisplayPoint|
        object_edge_after(
            map,
            q,
            direction,
            direction == Direction::Prev,
            TextObject::AroundComment,
            COMMENT_DEPTH as int,
        )
}

/// The `times`-th comment on the side the motion goes to. A text composed
/// of excerpts has no comments to go to.
pub open spec fn comment_motion_at(
    map: &DisplaySnapshot,
    p: DisplayPoint,
    times: nat,
    direction: Direction,
) -> DisplayPoint {
    if is_singleton(map.text()) {
        repeat_while_moving(comment_step(map, direction), p, times)
    } else {
        p
    }
}

/// Whether an object can be a section: a class or a function.
pub open spec fn is_section_kind(kind: TextObject) -> bool {
    kind == TextObject::AroundClass || kind == TextObject::AroundFunction
}

/// The nearest edge of a section, as `nearest_edge` finds it for one kind.
/// The objects are taken in the order in which they start, and a function
/// that starts inside the section taken before it is passed over; `open_to`
/// is where that section ends.
pub open spec fn nearest_section_edge(
    buffer: &Buffer,
    o: int,
    direction: Direction,
    is_start: bool,
    i: int,
    open_to: Option<int>,
    best: Option<int>,
) -> Option<int>
    decreases buffer.object_ranges().len() - i,
{
    let objects = buffer.object_ranges();
    if i < 0 || i >= objects.len() {
        best
    } else {
        let object = objects[i];
        let (low, high) = search_span(buffer, o, direction);
        if !(is_section_kind(object.kind) && object.within(low, high, SECTION_DEPTH as int)) {
            nearest_section_edge(buffer, o, direction, is_start, i + 1, open_to, best)
        } else if object.kind == TextObject::AroundFunction && open_to is Some && open_to->0
            > object.start {
            nearest_section_edge(buffer, o, direction, is_start, i + 1, open_to, best)
        } else {
            let edge = edge_of(object, is_start);
            let better = edge_counts(edge, o, direction) && edge_nearer(edge, best, direction);
            nearest_section_edge(
                buffer,
                o,
                direction,
                is_start,
                i + 1,
                Some(object.end as int),
                if better {
                    Some(edge)
                } else {
                    best
                },
            )
        }
    }
}

/// One step of a motion by sections in a text of its own: to the nearest
/// edge of a section, or nowhere if there is none on the side the motion
/// goes to.
pub open spec fn section_edge_after(
    map: &DisplaySnapshot,
    p: DisplayPoint,
    direction: Direction,
    is_start: bool,
) -> DisplayPoint {
    let o = map.to_offset(p, Bias::Left);
    let dest = match nearest_section_edge(map.text(), o, direction, is_start, 0, None, None) {
        Some(edge) => edge,
        None => o,
    };
    map.cursor_clipped(map.offset_to_display(dest), Bias::Left)
}

/// The display point at which an excerpt starts.
pub open spec fn excerpt_start(map: &DisplaySnapshot, e: Excerpt) -> DisplayPoint {
    map.to_display(Point { row: e.start_row, column: 0 })
}

/// The display point at which an excerpt ends.
pub open spec fn excerpt_end(map: &DisplaySnapshot, e: Excerpt) -> DisplayPoint {
    let row = map.text().clipped(Point { row: e.end_row, column: 0 }).row;
    map.to_display(Point { row, column: map.text().line_len(row as int) as usize })
}

/// A display point moved to the row below, in the first column.
pub open spec fn row_below_start(p: DisplayPoint) -> DisplayPoint {
    DisplayPoint {
        row: if p.row < usize::MAX {
            (p.row + 1) as usize
        } else {
            p.row
        },
        column: 0,
    }
}

/// One step of a motion by sections in a text composed of excerpts, where
/// the excerpts stand for the sections. `None` where the excerpt asked for
/// does not exist, which ends the whole motion where it stands.
pub open spec fn excerpt_edge_after(
    map: &DisplaySnapshot,
    p: DisplayPoint,
    direction: Direction,
    is_start: bool,
) -> Option<DisplayPoint> {
    let list = parts(map.text());
    let point = map.to_point(p, Bias::Left);
    match holder(map.text(), point.row as int) {
        None => None,
        Some(k) => {
            let e = list[k];
            let start = excerpt_start(map, e);
            let end = excerpt_end(map, e);
            match (direction, is_start) {
                (Direction::Prev, true) => {
                    if !display_before(start, p) && start.row > 0 {
                        if k > 0 {
                            Some(excerpt_start(map, list[k - 1]))
                        } else {
                            None
                        }
                    } else {
                        Some(start)
                    }
                },
                (Direction::Prev, false) => Some(
                    map.cursor_clipped(
                        DisplayPoint {
                            row: if start.row > 0 {
                                (start.row - 1) as usize
                            } else {
                                0
                            },
                            column: start.column,
                        },
                        Bias::Left,
                    ),
                ),
                (Direction::Next, true) => Some(
                    map.cursor_clipped(
                        DisplayPoint { row: row_below_start(end).row, column: end.column },
                        Bias::Right,
                    ),
                ),
                (Direction::Next, false) => {
                    let here = DisplayPoint { row: end.row, column: 0 };
                    if !display_before(p, here) {
                        let below = row_below_start(here);
                        match holder(map.text(), map.to_point(below, Bias::Right).row as int) {
                            None => None,
                            Some(n) => Some(
                                DisplayPoint { row: excerpt_end(map, list[n]).row, column: 0 },
                            ),
                        }
                    } else {
                        Some(here)
                    }
                },
            }
        },
    }
}

/// A motion by excerpts, `times` steps long. It ends early where a step
/// changes nothing or cannot be taken.
pub open spec fn excerpt_motion(
    map: &DisplaySnapshot,
    p: DisplayPoint,
    times: nat,
    direction: Direction,
    is_start: bool,
) -> DisplayPoint
    decreases times,
{
    if times == 0 {
        p
    } else {
        match excerpt_edge_after(map, p, direction, is_start) {
            None => p,
            Some(q) => if q == p {
                p
            } else {
                excerpt_motion(map, q, (times - 1) as nat, direction, is_start)
            },
        }
    }
}

/// The step of `section_motion` in a text of its own.
pub open spec fn section_step(map: &DisplaySnapshot, direction: Direction, is_start: bool) -> spec_fn(
    DisplayPoint,
) -> DisplayPoint {
    |q: DisplayPoint| section_edge_after(map, q, direction, is_start)
}

/// The start or the end of the `times`-th section on the side the motion
/// goes to. In a text composed of excerpts each excerpt is a section.
pub open spec fn section_motion_at(
    map: &DisplaySnapshot,
    p: DisplayPoint,
    times: nat,
    direction: Direction,
    is_start: bool,
) -> DisplayPoint {
    if is_singleton(map.text()) {
        repeat_while_moving(section_step(map, direction, is_start), p, times)
    } else {
        excerpt_motion(map, p, times, direction, is_start)
    }
}

/// Whether an edge lies on the side of the cursor that the motion goes to.
fn counts(edge: usize, o: usize, direction: Direction) -> (yes: bool)
    ensures
        yes == edge_counts(edge as int, o as int, direction),
{
    match direction {
        Direction::Prev => edge < o,
        Direction::Next => edge > o && edge - o > 1,
    }
}

/// Whether an edge is nearer to the cursor than the best one before it.
fn nearer(edge: usize, best: Option<usize>, direction: Direction) -> (yes: bool)
    ensures
        yes == edge_nearer(
            edge as int,
            match best {
                Some(b) => Some(b as int),
                None => None,
            },
            direction,
        ),
{
    match best {
        None => true,
        Some(b) => match direction {
            Direction::Prev => edge > b,
            Direction::Next => edge < b,
        },
    }
}

/// Finds the nearest edge of the objects of one kind.
fn find_edge(
    buffer: &Buffer,
    o: usize,
    direction: Direction,
    is_start: bool,
    kind: TextObject,
    depth: usize,
) -> (found: Option<usize>)
    requires
        o <= buffer.chars().len(),
    ensures
        found is Some == nearest_edge(buffer, o as int, direction, is_start, kind, depth as int, 0, None) is Some,
        found is Some ==> found->0 == nearest_edge(
            buffer,
            o as int,
            direction,
            is_start,
            kind,
            depth as int,
            0,
            None,
        )->0,
{
    let objects = buffer.objects();
    let (low, high) = match direction {
        Direction::Prev => (0, o),
        Direction::Next => (o, buffer.len()),
    };
    let mut best: Option<usize> = None;
    let mut i: usize = 0;
    while i < objects.len()
        invariant
            objects@ == buffer.object_ranges(),
            (low as int, high as int) == search_span(buffer, o as int, direction),
            0 <= i <= objects@.len(),
            nearest_edge(
                buffer,
                o as int,
                direction,
                is_start,
                kind,
                depth as int,
                i as int,
                match best {
                    Some(b) => Some(b as int),
                    None => None,
                },
            ) == nearest_edge(buffer, o as int, direction, is_start, kind, depth as int, 0, None),
        decreases objects@.len() - i,
    {
        let object = objects[i];
        let edge = if is_start {
            object.start
        } else {
            object.end
        };
        if object.kind == kind && object.is_within(low, high, depth) && counts(edge, o, direction)
            && nearer(edge, best, direction) {
            best = Some(edge);
        }
        i += 1;
    }
    best
}

/// Finds the nearest edge of a section.
fn find_section_edge(buffer: &Buffer, o: usize, direction: Direction, is_start: bool) -> (found:
    Option<usize>)
    requires
        o <= buffer.chars().len(),
    ensures
        found is Some == nearest_section_edge(buffer, o as int, direction, is_start, 0, None, None) is Some,
        found is Some ==> found->0 == nearest_section_edge(
            buffer,
            o as int,
            direction,
            is_start,
            0,
            None,
            None,
        )->0,
{
    let objects = buffer.objects();
    let (low, high) = match direction {
        Direction::Prev => (0, o),
        Direction::Next => (o, buffer.len()),
    };
    let mut best: Option<usize> = None;
    let mut open_to: Option<usize> = None;
    let mut i: usize = 0;
    while i < objects.len()
        invariant
            objects@ == buffer.object_ranges(),
            (low as int, high as int) == search_span(buffer, o as int, direction),
            0 <= i <= objects@.len(),
            nearest_section_edge(
                buffer,
                o as int,
                direction,
                is_start,
                i as int,
                match open_to {
                    Some(b) => Some(b as int),
                    None => None,
                },
                match best {
                    Some(b) => Some(b as int),
                    None => None,
                },
            ) == nearest_section_edge(buffer, o as int, direction, is_start, 0, None, None),
        decreases objects@.len() - i,
    {
        let object = objects[i];
        i += 1;
        let is_section = object.kind == TextObject::AroundClass || object.kind
            == TextObject::AroundFunction;
        if !(is_section && object.is_within(low, high, SECTION_DEPTH)) {
            continue ;
        }
        let inside = match open_to {
            Some(end) => end > object.start,
            None => false,
        };
        if object.kind == TextObject::AroundFunction && inside {
            continue ;
        }
        open_to = Some(object.end);
        let edge = if is_start {
            object.start
        } else {
            object.end
        };
        if counts(edge, o, direction) && nearer(edge, best, direction) {
            best = Some(edge);
        }
    }
    best
}

/// Takes one step to the nearest edge of an object of one kind.
fn object_step(
    map: &DisplaySnapshot,
    at: DisplayPoint,
    direction: Direction,
    is_start: bool,
    kind: TextObject,
    depth: usize,
) -> (q: DisplayPoint)
    requires
        map.wf(),
    ensures
        q == object_edge_after(map, at, direction, is_start, kind, depth as int),
{
    let o = map.display_point_to_offset(at, Bias::Left);
    let dest = match find_edge(map.buffer(), o, direction, is_start, kind, depth) {
        Some(edge) => edge,
        None => o,
    };
    map.clip_point(map.offset_to_display_point(dest), Bias::Left)
}

/// Moves to the start or the end of the `times`-th method in front of or
/// behind the cursor.
pub fn method_motion(
    map: &DisplaySnapshot,
    display_point: DisplayPoint,
    times: usize,
    direction: Direction,
    is_start: bool,
) -> (q: DisplayPoint)
    requires
        map.wf(),
    ensures
        q == method_motion_at(map, display_point, times as nat, direction, is_start),
{
    if map.buffer().excerpts().len() != 0 {
        return display_point;
    }
    let ghost step = method_step(map, direction, is_start);
    let ghost goal = repeat_while_moving(step, display_point, times as nat);
    let mut at = display_point;
    let mut rest = times;
    while rest > 0
        invariant
            map.wf(),
            step == method_step(map, direction, is_start),
            goal == repeat_while_moving(step, display_point, times as nat),
            goal == method_motion_at(map, display_point, times as nat, direction, is_start),
            repeat_while_moving(step, at, rest as nat) == goal,
        decreases rest,
    {
        let new_point = object_step(
            map,
            at,
            direction,
            is_start,
            TextObject::AroundFunction,
            METHOD_DEPTH,
        );
        if new_point == at {
            return at;
        }
        at = new_point;
        rest -= 1;
    }
    at
}

/// Moves to the `times`-th comment in front of or behind the cursor.
pub fn comment_motion(
    map: &DisplaySnapshot,
    display_point: DisplayPoint,
    times: usize,
    direction: Direction,
) -> (q: DisplayPoint)
    requires
        map.wf(),
    ensures
        q == comment_motion_at(map, display_point, times as nat, direction),
{
    if map.buffer().excerpts().len() != 0 {
        return display_point;
    }
    let ghost step = comment_step(map, direction);
    let ghost goal = repeat_while_moving(step, display_point, times as nat);
    let mut at = display_point;
    let mut rest = times;
    while rest > 0
        invariant
            map.wf(),
            step == comment_step(map, direction),
            goal == repeat_while_moving(step, display_point, times as nat),
            goal == comment_motion_at(map, display_point, times as nat, direction),
            repeat_while_moving(step, at, rest as nat) == goal,
        decreases rest,
    {
        let new_point = object_step(
            map,
            at,
            direction,
            direction == Direction::Prev,
            TextObject::AroundComment,
            COMMENT_DEPTH,
        );
        if new_point == at {
            return at;
        }
        at = new_point;
        rest -= 1;
    }
    at
}

/// The display point at which an excerpt starts.
fn start_of_excerpt(map: &DisplaySnapshot, e: &Excerpt) -> (p: DisplayPoint)
    requires
        map.wf(),
    ensures
        p == excerpt_start(map, *e),
{
    map.point_to_display_point(Point { row: e.start_row, column: 0 })
}

/// The display point at which an excerpt ends.
fn end_of_excerpt(map: &DisplaySnapshot, e: &Excerpt) -> (p: DisplayPoint)
    requires
        map.wf(),
    ensures
        p == excerpt_end(map, *e),
{
    let row = map.buffer().clip_point(Point { row: e.end_row, column: 0 }).row;
    map.point_to_display_point(Point { row, column: map.buffer().line_length(row) })
}

/// Takes one step to the edge of an excerpt.
fn excerpt_step(map: &DisplaySnapshot, at: DisplayPoint, direction: Direction, is_start: bool) -> (q:
    Option<DisplayPoint>)
    requires
        map.wf(),
    ensures
        q == excerpt_edge_after(map, at, direction, is_start),
{
    let buffer = map.buffer();
    let point = map.display_point_to_point(at, Bias::Left);
    let k = match excerpt_containing(buffer, point.row) {
        Some(k) => k,
        None => {
            return None;
        },
    };
    let e = part(buffer, k);
    let start = start_of_excerpt(map, &e);
    let end = end_of_excerpt(map, &e);
    match (direction, is_start) {
        (Direction::Prev, true) => {
            if !precedes(start, at) && start.row > 0 {
                if k > 0 {
                    let before = part(buffer, k - 1);
                    Some(start_of_excerpt(map, &before))
                } else {
                    None
                }
            } else {
                Some(start)
            }
        },
        (Direction::Prev, false) => {
            let row = if start.row > 0 {
                start.row - 1
            } else {
                0
            };
            Some(map.clip_point(DisplayPoint { row, column: start.column }, Bias::Left))
        },
        (Direction::Next, true) => {
            let row = if end.row < usize::MAX {
                end.row + 1
            } else {
                end.row
            };
            Some(map.clip_point(DisplayPoint { row, column: end.column }, Bias::Right))
        },
        (Direction::Next, false) => {
            let here = DisplayPoint { row: end.row, column: 0 };
            if !precedes(at, here) {
                let below = DisplayPoint {
                    row: if here.row < usize::MAX {
                        here.row + 1
                    } else {
                        here.row
                    },
                    column: 0,
                };
                let point_end = map.display_point_to_point(below, Bias::Right);
                match excerpt_containing(buffer, point_end.row) {
                    None => None,
                    Some(n) => {
                        let next = part(buffer, n);
                        Some(DisplayPoint { row: end_of_excerpt(map, &next).row, column: 0 })
                    },
                }
            } else {
                Some(here)
            }
        },
    }
}

/// Moves to the start or the end of the `times`-th section in front of or
/// behind the cursor.
pub fn section_motion(
    map: &DisplaySnapshot,
    display_point: DisplayPoint,
    times: usize,
    direction: Direction,
    is_start: bool,
) -> (q: DisplayPoint)
    requires
        map.wf(),
    ensures
        q == section_motion_at(map, display_point, times as nat, direction, is_start),
{
    let mut at = display_point;
    let mut rest = times;
    if map.buffer().excerpts().len() == 0 {
        let ghost step = section_step(map, direction, is_start);
        let ghost goal = repeat_while_moving(step, display_point, times as nat);
        while rest > 0
            invariant
                map.wf(),
                step == section_step(map, direction, is_start),
                goal == repeat_while_moving(step, display_point, times as nat),
                goal == section_motion_at(map, display_point, times as nat, direction, is_start),
                repeat_while_moving(step, at, rest as nat) == goal,
            decreases rest,
        {
            let o = map.display_point_to_offset(at, Bias::Left);
            let dest = match find_section_edge(map.buffer(), o, direction, is_start) {
                Some(edge) => edge,
                None => o,
            };
            let new_point = map.clip_point(map.offset_to_display_point(dest), Bias::Left);
            if new_point == at {
                return at;
            }
            at = new_point;
            rest -= 1;
        }
        return at;
    }
    while rest > 0
        invariant
            map.wf(),
            !is_singleton(map.text()),
            excerpt_motion(map, at, rest as nat, direction, is_start) == section_motion_at(
                map,
                display_point,
                times as nat,
                direction,
                is_start,
            ),
        decreases rest,
    {
        let next_point = match excerpt_step(map, at, direction, is_start) {
            Some(p) => p,
            None => {
                return at;
            },
        };
        if next_point == at {
            return at;
        }
        at = next_point;
        rest -= 1;
    }
    at
}

} // verus!

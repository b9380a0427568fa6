//! What holds of the motions to structural objects.

use crate::buffer::{Bias, Buffer};
use crate::display::{DisplayPoint, DisplaySnapshot};
use crate::find_laws::lemma_clipped_offset;
use crate::laws::lemma_place_of_own_offset;
use crate::repeat::{law_repeat_keeps, lemma_stuck};
use crate::structure::{
    comment_motion_at, comment_step, edge_counts, is_singleton, method_motion_at, method_step,
    nearest_edge, nearest_section_edge, object_edge_after, section_edge_after,
    section_motion_at, section_step, Direction,
};
use crate::syntax::TextObject;
use vstd::prelude::*;

verus! {

/// A cursor position: a place of the display that clipping leaves alone.
pub open spec fn is_cursor(map: &DisplaySnapshot, q: DisplayPoint) -> bool {
    map.valid_display(q) && map.cursor_clipped(q, Bias::Left) == q
}

/// A cursor position that lies on the side of `from` that a motion goes
/// to, or at `from`.
pub open spec fn on_the_side(map: &DisplaySnapshot, from: DisplayPoint, direction: Direction) -> spec_fn(
    DisplayPoint,
) -> bool {
    |q: DisplayPoint|
        is_cursor(map, q) && match direction {
            Direction::Prev => map.to_offset(q, Bias::Left) <= map.to_offset(from, Bias::Left),
            Direction::Next => map.to_offset(q, Bias::Left) >= map.to_offset(from, Bias::Left),
        }
}

/// The edge that the search for an object ends with lies on the side asked
/// for, if the best edge before it did.
pub proof fn lemma_nearest_edge_counts(
    buffer: &Buffer,
    o: int,
    direction: Direction,
    is_start: bool,
    kind: TextObject,
    depth: int,
    i: int,
    best: Option<int>,
)
    requires
        best is Some ==> edge_counts(best->0, o, direction) && best->0 >= 0,
    ensures
        nearest_edge(buffer, o, direction, is_start, kind, depth, i, best) is Some ==> edge_counts(
            nearest_edge(buffer, o, direction, is_start, kind, depth, i, best)->0,
            o,
            direction,
        ) && nearest_edge(buffer, o, direction, is_start, kind, depth, i, best)->0 >= 0,
    decreases buffer.object_ranges().len() - i,
{
    let objects = buffer.object_ranges();
    if 0 <= i < objects.len() {
        let object = objects[i];
        let (low, high) = crate::structure::search_span(buffer, o, direction);
        let edge = crate::structure::edge_of(object, is_start);
        let better = object.kind == kind && object.within(low, high, depth) && edge_counts(
            edge,
            o,
            direction,
        ) && crate::structure::edge_nearer(edge, best, direction);
        lemma_nearest_edge_counts(
            buffer,
            o,
            direction,
            is_start,
            kind,
            depth,
            i + 1,
            if better {
                Some(edge)
            } else {
                best
            },
        );
    }
}

/// The edge that the search for a section ends with lies on the side asked
/// for, if the best edge before it did.
pub proof fn lemma_nearest_section_edge_counts(
    buffer: &Buffer,
    o: int,
    direction: Direction,
    is_start: bool,
    i: int,
    open_to: Option<int>,
    best: Option<int>,
)
    requires
        best is Some ==> edge_counts(best->0, o, direction) && best->0 >= 0,
    ensures
        nearest_section_edge(buffer, o, direction, is_start, i, open_to, best) is Some
            ==> edge_counts(
            nearest_section_edge(buffer, o, direction, is_start, i, open_to, best)->0,
            o,
            direction,
        ) && nearest_section_edge(buffer, o, direction, is_start, i, open_to, best)->0 >= 0,
    decreases buffer.object_ranges().len() - i,
{
    let objects = buffer.object_ranges();
    if 0 <= i < objects.len() {
        let object = objects[i];
        let (low, high) = crate::structure::search_span(buffer, o, direction);
        if !(crate::structure::is_section_kind(object.kind) && object.within(
            low,
            high,
            crate::structure::SECTION_DEPTH as int,
        )) {
            lemma_nearest_section_edge_counts(buffer, o, direction, is_start, i + 1, open_to, best);
        } else if object.kind == TextObject::AroundFunction && open_to is Some && open_to->0
            > object.start {
            lemma_nearest_section_edge_counts(buffer, o, direction, is_start, i + 1, open_to, best);
        } else {
            let edge = crate::structure::edge_of(object, is_start);
            let better = edge_counts(edge, o, direction) && crate::structure::edge_nearer(
                edge,
                best,
                direction,
            );
            lemma_nearest_section_edge_counts(
                buffer,
                o,
                direction,
                is_start,
                i + 1,
                Some(object.end as int),
                if better {
                    Some(edge)
                } else {
                    best
                },
            );
        }
    }
}

/// From a cursor position, the cursor position for an offset on the side
/// asked for lies on that side, and where the offset is the cursor's own,
/// it is the cursor's place.
pub proof fn lemma_landing_side(
    map: &DisplaySnapshot,
    q: DisplayPoint,
    dest: int,
    direction: Direction,
)
    requires
        map.wf(),
        is_cursor(map, q),
        0 <= dest,
        dest == map.to_offset(q, Bias::Left) || edge_counts(
            dest,
            map.to_offset(q, Bias::Left),
            direction,
        ),
    ensures
        is_cursor(map, map.cursor_clipped(map.offset_to_display(dest), Bias::Left)),
        on_the_side(map, q, direction)(
            map.cursor_clipped(map.offset_to_display(dest), Bias::Left),
        ),
        dest == map.to_offset(q, Bias::Left) ==> map.cursor_clipped(
            map.offset_to_display(dest),
            Bias::Left,
        ) == q,
{
    let buffer = map.text();
    let len = buffer.chars().len() as int;
    let o = map.to_offset(q, Bias::Left);
    lemma_place_of_own_offset(map, q);
    let shown = if dest <= len {
        dest
    } else {
        len
    };
    assert(map.offset_to_display(dest) == map.offset_to_display(shown));
    lemma_clipped_offset(map, shown);
    let d = map.offset_to_display(shown);
    buffer.lemma_row_of(shown);
    buffer.lemma_point_offset_round_trip(buffer.point_of(shown), shown);
    map.lemma_to_display(buffer.point_of(shown));
    assert(map.display_clipped(d, Bias::Left) == d);
    assert(map.display_clipped(d, Bias::Right) == d);
    let r = map.cursor_clipped(d, Bias::Left);
    assert(r == map.cursor_clipped(d, Bias::Right));
    map.lemma_row(d.row as int);
    map.lemma_display_clipped(r, Bias::Left);
    map.lemma_display_clipped(r, Bias::Right);
    if map.clips_line_ends() && d.column == map.row_len(d.row as int) && d.column > 0 {
        let back = DisplayPoint { row: d.row, column: (d.column - 1) as usize };
        assert(map.display_clipped(back, Bias::Left) == back);
        assert(r == back);
        assert(map.cursor_clipped(r, Bias::Left) == r);
    } else {
        assert(r == d);
        assert(map.cursor_clipped(r, Bias::Left) == r);
    }
    if shown == o {
        assert(d == q);
    }
}

/// A motion by sections in a text of its own goes the way it is asked:
/// from a cursor position it never lands on the other side of the cursor,
/// whatever the count.
pub proof fn law_section_motion_keeps_its_direction(
    map: &DisplaySnapshot,
    p: DisplayPoint,
    times: nat,
    direction: Direction,
    is_start: bool,
)
    requires
        map.wf(),
        is_cursor(map, p),
        is_singleton(map.text()),
    ensures
        on_the_side(map, p, direction)(section_motion_at(map, p, times, direction, is_start)),
{
    let step = section_step(map, direction, is_start);
    let kept = on_the_side(map, p, direction);
    assert forall|q: DisplayPoint| kept(q) implies kept(#[trigger] step(q)) by {
        let o = map.to_offset(q, Bias::Left);
        lemma_place_of_own_offset(map, q);
        lemma_nearest_section_edge_counts(map.text(), o, direction, is_start, 0, None, None);
        let found = nearest_section_edge(map.text(), o, direction, is_start, 0, None, None);
        let dest = if found is Some {
            found->0
        } else {
            o
        };
        lemma_landing_side(map, q, dest, direction);
        assert(step(q) == section_edge_after(map, q, direction, is_start));
    }
    law_repeat_keeps(step, kept, p, times);
}

/// A motion by methods goes the way it is asked.
pub proof fn law_method_motion_keeps_its_direction(
    map: &DisplaySnapshot,
    p: DisplayPoint,
    times: nat,
    direction: Direction,
    is_start: bool,
)
    requires
        map.wf(),
        is_cursor(map, p),
    ensures
        on_the_side(map, p, direction)(method_motion_at(map, p, times, direction, is_start)),
{
    let step = method_step(map, direction, is_start);
    let kept = on_the_side(map, p, direction);
    assert forall|q: DisplayPoint| kept(q) implies kept(#[trigger] step(q)) by {
        lemma_object_step_side(
            map,
            q,
            direction,
            is_start,
            TextObject::AroundFunction,
            crate::structure::METHOD_DEPTH as int,
        );
        assert(step(q) == object_edge_after(
            map,
            q,
            direction,
            is_start,
            TextObject::AroundFunction,
            crate::structure::METHOD_DEPTH as int,
        ));
    }
    law_repeat_keeps(step, kept, p, times);
}

/// A motion by comments goes the way it is asked.
pub proof fn law_comment_motion_keeps_its_direction(
    map: &DisplaySnapshot,
    p: DisplayPoint,
    times: nat,
    direction: Direction,
)
    requires
        map.wf(),
        is_cursor(map, p),
    ensures
        on_the_side(map, p, direction)(comment_motion_at(map, p, times, direction)),
{
    let step = comment_step(map, direction);
    let kept = on_the_side(map, p, direction);
    assert forall|q: DisplayPoint| kept(q) implies kept(#[trigger] step(q)) by {
        lemma_object_step_side(
            map,
            q,
            direction,
            direction == Direction::Prev,
            TextObject::AroundComment,
            crate::structure::COMMENT_DEPTH as int,
        );
        assert(step(q) == object_edge_after(
            map,
            q,
            direction,
            direction == Direction::Prev,
            TextObject::AroundComment,
            crate::structure::COMMENT_DEPTH as int,
        ));
    }
    law_repeat_keeps(step, kept, p, times);
}

/// One step to the edge of an object lands on the side asked for.
proof fn lemma_object_step_side(
    map: &DisplaySnapshot,
    q: DisplayPoint,
    direction: Direction,
    is_start: bool,
    kind: TextObject,
    depth: int,
)
    requires
        map.wf(),
        is_cursor(map, q),
    ensures
        on_the_side(map, q, direction)(object_edge_after(map, q, direction, is_start, kind, depth)),
        is_cursor(map, object_edge_after(map, q, direction, is_start, kind, depth)),
{
    let o = map.to_offset(q, Bias::Left);
    lemma_place_of_own_offset(map, q);
    lemma_nearest_edge_counts(map.text(), o, direction, is_start, kind, depth, 0, None);
    let found = nearest_edge(map.text(), o, direction, is_start, kind, depth, 0, None);
    let dest = if found is Some {
        found->0
    } else {
        o
    };
    lemma_landing_side(map, q, dest, direction);
}

/// No section has an edge on the side of offset `o` that the motion goes
/// to.
pub open spec fn no_section_edge(
    buffer: &Buffer,
    o: int,
    direction: Direction,
    is_start: bool,
) -> bool {
    forall|i: int|
        0 <= i < buffer.object_ranges().len() ==> !(crate::structure::is_section_kind(
            (#[trigger] buffer.object_ranges()[i]).kind,
        ) && buffer.object_ranges()[i].within(
            crate::structure::search_span(buffer, o, direction).0,
            crate::structure::search_span(buffer, o, direction).1,
            crate::structure::SECTION_DEPTH as int,
        ) && edge_counts(
            crate::structure::edge_of(buffer.object_ranges()[i], is_start),
            o,
            direction,
        ))
}

/// Where no section has an edge on the side asked for, the search for one
/// finds none.
pub proof fn lemma_no_section_edge(
    buffer: &Buffer,
    o: int,
    direction: Direction,
    is_start: bool,
    i: int,
    open_to: Option<int>,
)
    requires
        no_section_edge(buffer, o, direction, is_start),
    ensures
        nearest_section_edge(buffer, o, direction, is_start, i, open_to, None) is None,
    decreases buffer.object_ranges().len() - i,
{
    let objects = buffer.object_ranges();
    if 0 <= i < objects.len() {
        let object = objects[i];
        lemma_no_section_edge(buffer, o, direction, is_start, i + 1, open_to);
        lemma_no_section_edge(buffer, o, direction, is_start, i + 1, Some(object.end as int));
    }
}

/// A motion by sections with no section to go to is made in vain: in a
/// text of its own, where no section has an edge on the side asked for,
/// the cursor stays where it is, whatever the count.
pub proof fn law_section_motion_stays_without_section(
    map: &DisplaySnapshot,
    p: DisplayPoint,
    times: nat,
    direction: Direction,
    is_start: bool,
)
    requires
        map.wf(),
        is_cursor(map, p),
        is_singleton(map.text()),
        no_section_edge(map.text(), map.to_offset(p, Bias::Left), direction, is_start),
    ensures
        section_motion_at(map, p, times, direction, is_start) == p,
{
    let step = section_step(map, direction, is_start);
    let o = map.to_offset(p, Bias::Left);
    lemma_place_of_own_offset(map, p);
    lemma_no_section_edge(map.text(), o, direction, is_start, 0, None);
    lemma_landing_side(map, p, o, direction);
    assert(step(p) == section_edge_after(map, p, direction, is_start));
    lemma_stuck(step, p, times);
}

} // verus!

//! The text that an operator acts on never ends in front of its start.

use crate::buffer::{Bias, Point};
use crate::display::{DisplayPoint, DisplaySnapshot};
use crate::find_laws::{lemma_clipped_offset, on_char};
use crate::landing_laws::{law_motion_lands_on_display, lemma_places};
use crate::laws::{
    law_display_keeps_order, lemma_line_start_row, lemma_place_of_own_offset, lemma_rows_in_order,
};
use crate::motion::Motion;
use crate::movement::right_of;
use crate::range::{
    charwise_range, end_of_line_before, ends_at_line_start, linewise_range, taking_in,
    word_end_kept_in_line,
};
use crate::selection::{display_before, Selection};
use crate::sneak_laws::lemma_right_of_char;
use crate::structure_laws::is_cursor;
use crate::window::TextLayoutDetails;
use vstd::prelude::*;

verus! {

/// Places of the display lie in the order of their offsets.
pub proof fn lemma_order_of_places(map: &DisplaySnapshot, a: DisplayPoint, b: DisplayPoint)
    requires
        map.wf(),
        map.valid_display(a),
        map.valid_display(b),
    ensures
        display_before(a, b) <==> map.to_offset(a, Bias::Left) < map.to_offset(b, Bias::Left),
        a == b <==> map.to_offset(a, Bias::Left) == map.to_offset(b, Bias::Left),
{
    lemma_place_of_own_offset(map, a);
    lemma_place_of_own_offset(map, b);
    let oa = map.to_offset(a, Bias::Left);
    let ob = map.to_offset(b, Bias::Left);
    if oa < ob {
        law_display_keeps_order(map, oa, ob);
    } else if ob < oa {
        law_display_keeps_order(map, ob, oa);
    }
}

/// A point of the text is shown at a place of the display that leads back
/// to the point's offset.
pub proof fn lemma_shown_point(map: &DisplaySnapshot, pt: Point)
    requires
        map.wf(),
        map.text().valid_point(pt),
    ensures
        map.valid_display(map.to_display(pt)),
        map.to_offset(map.to_display(pt), Bias::Left) == map.text().offset_of(pt),
{
    map.lemma_to_display(pt);
    map.text().lemma_clipped(pt);
}

/// Taking in the character under a place of the display never goes back.
pub proof fn lemma_taking_in_not_back(map: &DisplaySnapshot, x: DisplayPoint)
    requires
        map.wf(),
        map.valid_display(x),
    ensures
        map.valid_display(taking_in(map, x)),
        map.to_offset(taking_in(map, x), Bias::Left) >= map.to_offset(x, Bias::Left),
{
    lemma_places(map);
    if x.column < map.row_len(x.row as int) {
        assert(on_char(map, x));
        lemma_right_of_char(map, x);
        map.lemma_row(x.row as int);
        assert(right_of(map, x) == taking_in(map, x));
        map.lemma_display_clipped(x, Bias::Left);
        map.lemma_display_clipped(x, Bias::Right);
        let r = taking_in(map, x);
        map.lemma_display_clipped(r, Bias::Left);
        map.lemma_display_clipped(r, Bias::Right);
    }
}

/// The ends of a selection are places of the display, the start in front
/// of the end or at it.
pub open spec fn sound_selection(map: &DisplaySnapshot, selection: Selection) -> bool {
    &&& map.valid_display(selection.start)
    &&& map.valid_display(selection.end)
    &&& !display_before(selection.end, selection.start)
}

/// The lines that a selection touches never end in front of their start.
pub proof fn lemma_linewise_ordered(map: &DisplaySnapshot, selection: Selection, expand: bool)
    requires
        map.wf(),
        sound_selection(map, selection),
    ensures
        !display_before(
            linewise_range(map, selection, expand).end,
            linewise_range(map, selection, expand).start,
        ),
{
    let buffer = map.text();
    lemma_places(map);
    lemma_order_of_places(map, selection.start, selection.end);
    map.lemma_display_clipped(selection.start, Bias::Left);
    map.lemma_display_clipped(selection.end, Bias::Left);
    let s = map.to_point(selection.start, Bias::Left);
    let e = map.to_point(selection.end, Bias::Left);
    lemma_rows_in_order(map, selection.start.row as int, selection.end.row as int);
    buffer.lemma_clipped(s);
    buffer.lemma_clipped(e);
    buffer.lemma_lines(s.row as int);
    buffer.lemma_lines(e.row as int);
    buffer.lemma_line_starts_ordered(s.row as int, e.row as int);
    let first = Point { row: s.row, column: 0 };
    let last = Point { row: e.row, column: buffer.line_len(e.row as int) as usize };
    buffer.lemma_clipped(first);
    buffer.lemma_clipped(last);
    lemma_shown_point(map, first);
    lemma_shown_point(map, last);
    let start = map.to_display(first);
    let end = map.to_display(last);
    assert(map.line_start_of(s).1 == start);
    assert(map.line_end_of(e).1 == end);
    lemma_order_of_places(map, start, end);
    lemma_line_start_row(map, selection.start);
    if expand && selection.end.row < map.max_display_row() {
        let below = DisplayPoint { row: (selection.end.row + 1) as usize, column: 0 };
        map.lemma_row(below.row as int);
        map.lemma_display_clipped(below, Bias::Right);
        map.lemma_display_clipped(below, Bias::Left);
    } else if expand && start.row > 0 {
        let above = DisplayPoint {
            row: (start.row - 1) as usize,
            column: map.row_len(start.row - 1) as usize,
        };
        map.lemma_row(start.row - 1);
        map.lemma_display_clipped(above, Bias::Left);
        let c = map.display_clipped(above, Bias::Left);
        let back = DisplayPoint {
            row: c.row,
            column: if c.column > 0 {
                (c.column - 1) as usize
            } else {
                0
            },
        };
        map.lemma_display_clipped(back, Bias::Left);
    }
}

/// The characters that a selection covers never end in front of their
/// start, if the selection starts at a cursor position.
pub proof fn lemma_charwise_ordered(map: &DisplaySnapshot, motion: &Motion, selection: Selection)
    requires
        map.wf(),
        sound_selection(map, selection),
        is_cursor(map, selection.start),
    ensures
        !display_before(
            charwise_range(map, motion, selection).end,
            charwise_range(map, motion, selection).start,
        ),
{
    let buffer = map.text();
    lemma_places(map);
    lemma_order_of_places(map, selection.start, selection.end);
    map.lemma_display_clipped(selection.start, Bias::Left);
    map.lemma_display_clipped(selection.end, Bias::Left);
    let s = map.to_point(selection.start, Bias::Left);
    buffer.lemma_clipped(s);
    buffer.lemma_lines(s.row as int);
    let line_end = Point { row: s.row, column: buffer.line_len(s.row as int) as usize };
    buffer.lemma_clipped(line_end);
    lemma_shown_point(map, line_end);
    let end = if motion is NextWordStart {
        word_end_kept_in_line(map, selection)
    } else {
        selection.end
    };
    assert(map.valid_display(end));
    lemma_order_of_places(map, selection.start, end);
    assert(map.to_offset(selection.start, Bias::Left) <= map.to_offset(end, Bias::Left));
    if ends_at_line_start(map, motion, selection.start, end) {
        map.lemma_display_clipped(end, Bias::Left);
        let e = map.to_point(end, Bias::Left);
        buffer.lemma_clipped(e);
        let before = Point { row: (e.row - 1) as usize, column: 0 };
        buffer.lemma_clipped(before);
        buffer.lemma_lines(e.row - 1);
        buffer.lemma_line_starts_ordered(s.row as int, e.row - 1);
        let last = Point {
            row: (e.row - 1) as usize,
            column: buffer.line_len(e.row - 1) as usize,
        };
        buffer.lemma_clipped(last);
        lemma_shown_point(map, last);
        let shown = map.to_display(last);
        assert(map.line_end_of(before).1 == shown);
        let c = buffer.offset_of(last);
        lemma_place_of_own_offset(map, shown);
        lemma_clipped_offset(map, c);
        let reached = end_of_line_before(map, end);
        assert(map.display_clipped(shown, Bias::Left) == shown);
        assert(map.display_clipped(shown, Bias::Right) == shown);
        assert(reached == map.cursor_clipped(shown, Bias::Right));
        map.lemma_display_clipped(reached, Bias::Left);
        map.lemma_display_clipped(reached, Bias::Right);
        lemma_order_of_places(map, selection.start, shown);
        lemma_taking_in_not_back(map, reached);
        lemma_order_of_places(map, selection.start, taking_in(map, reached));
    } else {
        lemma_taking_in_not_back(map, end);
        lemma_order_of_places(map, selection.start, taking_in(map, end));
    }
}

/// The text that an operator acts on is in order: after any motion, made
/// on a selection whose ends are places of the display, the range found
/// does not end in front of its start. For a range of characters this
/// holds where the selection, once its cursor is moved, starts at a cursor
/// position.
pub proof fn law_range_is_ordered(
    motion: Motion,
    map: &DisplaySnapshot,
    selection: Selection,
    times: Option<usize>,
    expand_to_surrounding_newline: bool,
    layout: &TextLayoutDetails,
)
    requires
        map.wf(),
        sound_selection(map, selection),
        !motion.is_linewise() && motion.selection_moved(map, selection, times, layout) is Some
            ==> is_cursor(map, motion.selection_moved(map, selection, times, layout)->0.start),
    ensures
        motion.range_at(map, selection, times, expand_to_surrounding_newline, layout) is Some
            ==> !display_before(
            motion.range_at(map, selection, times, expand_to_surrounding_newline, layout)->0.end,
            motion.range_at(map, selection, times, expand_to_surrounding_newline, layout)->0.start,
        ),
{
    if !(motion is ZedSearchResult) {
        law_motion_lands_on_display(
            motion,
            map,
            selection.spec_head(),
            selection.goal,
            times,
            layout,
        );
        let moved = motion.selection_moved(map, selection, times, layout);
        if moved is Some {
            assert(sound_selection(map, moved->0));
            if motion.is_linewise() {
                lemma_linewise_ordered(map, moved->0, expand_to_surrounding_newline);
            } else {
                lemma_charwise_ordered(map, &motion, moved->0);
            }
        }
    }
}

} // verus!

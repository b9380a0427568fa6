//! What holds of repeated searches for a character.

use crate::buffer::Bias;
use crate::chars::{ascii_lowercase, character_matches};
use crate::display::{DisplayPoint, DisplaySnapshot};
use crate::laws::{law_display_keeps_order, lemma_place_of_own_offset};
use crate::selection::display_before;
use crate::find::{
    backward_search_step, find_backward_at, find_forward_at, forward_search, search_walk,
};
use crate::movement::boundary_before;
use crate::repeat::{law_repeat_keeps, repeat_while_moving};
use crate::scan::{backward_stop, lemma_backward_stop, stops_backward};
use crate::motion::{find_forward_again, one_more};
use crate::movement::{boundary_after, boundary_found, boundary_offset};
use crate::scan::{
    forward_stop, lemma_forward_stop, stops_forward, Boundary, FindRange,
};
use vstd::prelude::*;

verus! {

/// A place strictly inside a row of the display: a character stands
/// there.
pub open spec fn on_char(map: &DisplaySnapshot, p: DisplayPoint) -> bool {
    map.valid_display(p) && p.column < map.row_len(p.row as int)
}

/// A search for anything but a line break accepts no line break.
pub proof fn lemma_match_is_no_break(target: char, other: char, smartcase: bool)
    requires
        target != '\n',
        character_matches(target, other, smartcase),
    ensures
        other != '\n',
{
    if other == '\n' {
        assert(ascii_lowercase('\n') == '\n');
    }
}

/// An offset that holds a character other than a line break is shown
/// strictly inside a row, clipping leaves that place alone, and the place
/// leads back to the offset.
pub proof fn lemma_char_is_shown_in_row(map: &DisplaySnapshot, o: int)
    requires
        map.wf(),
        0 <= o < map.text().chars().len(),
        map.text().chars()[o] != '\n',
    ensures
        on_char(map, map.offset_to_display(o)),
        forall|bias: Bias| #[trigger]
            map.cursor_clipped(map.offset_to_display(o), bias) == map.offset_to_display(o),
        forall|bias: Bias| #[trigger] map.to_offset(map.offset_to_display(o), bias) == o,
{
    let buffer = map.text();
    let pt = buffer.point_of(o);
    buffer.lemma_row_of(o);
    buffer.lemma_point_offset_round_trip(pt, o);
    buffer.lemma_lines(pt.row as int);
    buffer.lemma_clipped(pt);
    assert(pt.column < buffer.line_len(pt.row as int));
    map.lemma_to_display(pt);
    let d = map.to_display(pt);
    map.lemma_row(d.row as int);
    assert(d.column < map.row_len(d.row as int));
    assert forall|bias: Bias| #[trigger] map.cursor_clipped(d, bias) == d by {
        assert(map.display_clipped(d, bias) == d);
    }
    assert forall|bias: Bias| #[trigger] map.to_offset(d, bias) == o by {
        assert(map.to_point(d, bias) == buffer.clipped(pt));
    }
}

/// The cursor position for an offset is shown at that offset or, where
/// clipping keeps the cursor off the end of a line, one character in front
/// of it.
pub proof fn lemma_clipped_offset(map: &DisplaySnapshot, o: int)
    requires
        map.wf(),
        0 <= o <= map.text().chars().len(),
    ensures
        map.to_offset(map.cursor_clipped(map.offset_to_display(o), Bias::Right), Bias::Right) == o
            || map.to_offset(
            map.cursor_clipped(map.offset_to_display(o), Bias::Right),
            Bias::Right,
        ) == o - 1,
        map.to_offset(map.cursor_clipped(map.offset_to_display(o), Bias::Right), Bias::Right) >= 0,
{
    let buffer = map.text();
    let pt = buffer.point_of(o);
    buffer.lemma_row_of(o);
    buffer.lemma_point_offset_round_trip(pt, o);
    buffer.lemma_lines(pt.row as int);
    buffer.lemma_clipped(pt);
    map.lemma_to_display(pt);
    let d = map.to_display(pt);
    map.lemma_row(d.row as int);
    assert(map.display_clipped(d, Bias::Right) == d);
    assert(map.to_point(d, Bias::Right) == pt);
    if map.clips_line_ends() && d.column == map.row_len(d.row as int) && d.column > 0 {
        let back = DisplayPoint { row: d.row, column: (d.column - 1) as usize };
        assert(map.display_clipped(back, Bias::Left) == back);
        assert(map.display_clipped(back, Bias::Right) == back);
        let there = map.to_point(back, Bias::Right);
        assert(there.row == pt.row && there.column == pt.column - 1);
        buffer.lemma_clipped(there);
    }
}

/// The offset from which a search from `p` starts.
pub open spec fn search_start(map: &DisplaySnapshot, p: DisplayPoint) -> int {
    map.to_offset(p, Bias::Right)
}

/// The rule of a search for `target`.
pub open spec fn search_rule(target: char, smartcase: bool) -> Boundary {
    Boundary::Character { target, smartcase }
}

/// A search from any place starts inside the text.
pub proof fn lemma_search_start(map: &DisplaySnapshot, p: DisplayPoint)
    requires
        map.wf(),
    ensures
        0 <= search_start(map, p) <= map.text().chars().len(),
{
    map.lemma_display_clipped(p, Bias::Right);
    map.text().lemma_clipped(map.to_point(p, Bias::Right));
}

/// A search that finds its target lands on it: strictly inside a row,
/// where clipping changes nothing, and behind the place it started from.
pub proof fn lemma_found_step(
    map: &DisplaySnapshot,
    p: DisplayPoint,
    range: FindRange,
    target: char,
    smartcase: bool,
)
    requires
        map.wf(),
        target != '\n',
        boundary_found(map, p, range, search_rule(target, smartcase)),
    ensures
        on_char(map, boundary_after(map, p, range, search_rule(target, smartcase))),
        boundary_after(map, p, range, search_rule(target, smartcase)) == map.offset_to_display(
            boundary_offset(map, p, range, search_rule(target, smartcase)),
        ),
        forall|bias: Bias| #[trigger]
            map.to_offset(boundary_after(map, p, range, search_rule(target, smartcase)), bias)
                == boundary_offset(map, p, range, search_rule(target, smartcase)),
        search_start(map, p) < boundary_offset(map, p, range, search_rule(target, smartcase))
            < map.text().chars().len(),
        character_matches(
            target,
            map.text().chars()[boundary_offset(map, p, range, search_rule(target, smartcase))],
            smartcase,
        ),
{
    let rule = search_rule(target, smartcase);
    let text = map.text().chars();
    let start = search_start(map, p);
    lemma_search_start(map, p);
    lemma_forward_stop(text, rule, range, start, start);
    let stop = boundary_offset(map, p, range, rule);
    assert(character_matches(target, text[stop], smartcase));
    lemma_match_is_no_break(target, text[stop], smartcase);
    lemma_char_is_shown_in_row(map, stop);
    assert(map.cursor_clipped(map.offset_to_display(stop), Bias::Right) == map.offset_to_display(
        stop,
    ));
}

/// A scan goes no further where the text ends or, for a scan that stays in
/// its line, where the line ends.
pub open spec fn hard_stop(map: &DisplaySnapshot, range: FindRange, o: int) -> bool {
    o >= map.text().chars().len() || (range == FindRange::SingleLine && map.text().chars()[o]
        == '\n')
}

/// A search from `p` has nothing left to find: it starts where a scan goes
/// no further, or one character in front of such a place.
pub open spec fn spent(map: &DisplaySnapshot, range: FindRange, p: DisplayPoint) -> bool {
    hard_stop(map, range, search_start(map, p)) || hard_stop(map, range, search_start(map, p) + 1)
}

/// A search that finds nothing leaves the cursor where nothing is left to
/// find.
pub proof fn lemma_unfound_step_is_spent(
    map: &DisplaySnapshot,
    p: DisplayPoint,
    range: FindRange,
    rule: Boundary,
)
    requires
        map.wf(),
        !boundary_found(map, p, range, rule),
    ensures
        spent(map, range, boundary_after(map, p, range, rule)),
{
    let text = map.text().chars();
    let start = search_start(map, p);
    lemma_search_start(map, p);
    lemma_forward_stop(text, rule, range, start, start);
    let stop = boundary_offset(map, p, range, rule);
    assert(stops_forward(text, rule, range, start, stop));
    assert(hard_stop(map, range, stop));
    lemma_clipped_offset(map, stop);
}

/// Where nothing is left to find, a search finds nothing.
pub proof fn lemma_spent_step(map: &DisplaySnapshot, p: DisplayPoint, range: FindRange, rule: Boundary)
    requires
        map.wf(),
        spent(map, range, p),
    ensures
        !boundary_found(map, p, range, rule),
{
    let text = map.text().chars();
    let start = search_start(map, p);
    lemma_search_start(map, p);
    if hard_stop(map, range, start) {
        assert(forward_stop(text, rule, range, start, start) == start);
    } else {
        assert(!stops_forward(text, rule, range, start, start));
        assert(forward_stop(text, rule, range, start, start) == forward_stop(
            text,
            rule,
            range,
            start,
            start + 1,
        ));
        assert(forward_stop(text, rule, range, start, start + 1) == start + 1);
    }
}

/// Where nothing is left to find, no number of searches finds anything.
pub proof fn lemma_spent_walk(
    map: &DisplaySnapshot,
    p: DisplayPoint,
    range: FindRange,
    rule: Boundary,
    times: nat,
)
    requires
        map.wf(),
        spent(map, range, p),
    ensures
        !search_walk(forward_search(map, range, rule), p, false, times).1,
    decreases times,
{
    if times > 0 {
        lemma_spent_step(map, p, range, rule);
        let next = boundary_after(map, p, range, rule);
        lemma_unfound_step_is_spent(map, p, range, rule);
        if next != p {
            lemma_spent_walk(map, next, range, rule, (times - 1) as nat);
        }
    }
}

/// The place that repeated searches reach.
pub open spec fn walked(
    map: &DisplaySnapshot,
    from: DisplayPoint,
    range: FindRange,
    target: char,
    smartcase: bool,
    times: nat,
) -> (DisplayPoint, bool) {
    search_walk(forward_search(map, range, search_rule(target, smartcase)), from, false, times)
}

/// Repeated searches of which the last found its target all found it: the
/// place reached holds the target, clipping leaves it alone, and it lies
/// behind the place where the searches began.
pub proof fn lemma_found_walk(
    map: &DisplaySnapshot,
    from: DisplayPoint,
    range: FindRange,
    target: char,
    smartcase: bool,
    times: nat,
)
    requires
        map.wf(),
        target != '\n',
        walked(map, from, range, target, smartcase, times).1,
    ensures
        times > 0,
        on_char(map, walked(map, from, range, target, smartcase, times).0),
        forall|bias: Bias| #[trigger]
            map.to_offset(walked(map, from, range, target, smartcase, times).0, bias)
                == search_start(map, walked(map, from, range, target, smartcase, times).0),
        search_start(map, from) < search_start(
            map,
            walked(map, from, range, target, smartcase, times).0,
        ),
    decreases times,
{
    let rule = search_rule(target, smartcase);
    let step = forward_search(map, range, rule);
    if times > 0 {
        let next = boundary_after(map, from, range, rule);
        let hit = boundary_found(map, from, range, rule);
        assert(step(from) == (next, hit));
        if hit {
            lemma_found_step(map, from, range, target, smartcase);
            assert(map.to_offset(next, Bias::Right) == boundary_offset(map, from, range, rule));
            assert(next != from);
        } else {
            lemma_unfound_step_is_spent(map, from, range, rule);
        }
        if next != from {
            assert(search_walk(step, from, false, times) == search_walk(
                step,
                next,
                hit,
                (times - 1) as nat,
            ));
            if times - 1 > 0 {
                lemma_walk_keeps_first(map, next, range, rule, hit, (times - 1) as nat);
                if !hit {
                    lemma_spent_walk(map, next, range, rule, (times - 1) as nat);
                    assert(false);
                }
                lemma_found_walk(map, next, range, target, smartcase, (times - 1) as nat);
            } else {
                assert(search_walk(step, next, hit, 0) == (next, hit));
            }
        } else {
            assert(search_walk(step, from, false, times) == (from, hit));
            assert(false);
        }
    } else {
        assert(search_walk(step, from, false, 0) == (from, false));
    }
}

/// With at least one search made, what was known before the first search
/// does not matter.
pub proof fn lemma_walk_keeps_first(
    map: &DisplaySnapshot,
    from: DisplayPoint,
    range: FindRange,
    rule: Boundary,
    found: bool,
    times: nat,
)
    requires
        times > 0,
    ensures
        search_walk(forward_search(map, range, rule), from, found, times) == search_walk(
            forward_search(map, range, rule),
            from,
            false,
            times,
        ),
{
}

/// One search more goes on from where the searches before it ended, if
/// the last of them found its target.
pub proof fn lemma_walk_goes_on(
    map: &DisplaySnapshot,
    from: DisplayPoint,
    range: FindRange,
    target: char,
    smartcase: bool,
    times: nat,
)
    requires
        map.wf(),
        target != '\n',
        walked(map, from, range, target, smartcase, times).1,
    ensures
        walked(map, from, range, target, smartcase, times + 1) == walked(
            map,
            walked(map, from, range, target, smartcase, times).0,
            range,
            target,
            smartcase,
            1,
        ),
    decreases times,
{
    let rule = search_rule(target, smartcase);
    let step = forward_search(map, range, rule);
    lemma_found_walk(map, from, range, target, smartcase, times);
    let next = boundary_after(map, from, range, rule);
    let hit = boundary_found(map, from, range, rule);
    assert(step(from) == (next, hit));
    if hit {
        lemma_found_step(map, from, range, target, smartcase);
        assert(map.to_offset(next, Bias::Right) == boundary_offset(map, from, range, rule));
        assert(next != from);
    } else {
        lemma_unfound_step_is_spent(map, from, range, rule);
    }
    if next != from {
        assert(search_walk(step, from, false, times) == search_walk(
            step,
            next,
            hit,
            (times - 1) as nat,
        ));
        assert(search_walk(step, from, false, times + 1) == search_walk(step, next, hit, times));
        if times - 1 > 0 {
            lemma_walk_keeps_first(map, next, range, rule, hit, (times - 1) as nat);
            lemma_walk_keeps_first(map, next, range, rule, hit, times);
            if !hit {
                lemma_spent_walk(map, next, range, rule, (times - 1) as nat);
                assert(false);
            }
            lemma_walk_goes_on(map, next, range, target, smartcase, (times - 1) as nat);
        } else {
            assert(search_walk(step, next, hit, 0) == (next, hit));
            lemma_walk_keeps_first(map, next, range, rule, hit, 1);
        }
    } else {
        assert(search_walk(step, from, false, times) == (from, hit));
        assert(false);
    }
}

/// The place one column in front of a character that does not start its
/// row is a place of its own, one offset earlier.
pub proof fn lemma_column_before(map: &DisplaySnapshot, a: DisplayPoint)
    requires
        map.wf(),
        on_char(map, a),
        a.column > 0,
    ensures
        map.cursor_clipped(
            DisplayPoint { row: a.row, column: (a.column - 1) as usize },
            Bias::Left,
        ) == (DisplayPoint { row: a.row, column: (a.column - 1) as usize }),
        map.to_offset(
            DisplayPoint { row: a.row, column: (a.column - 1) as usize },
            Bias::Right,
        ) == map.to_offset(a, Bias::Right) - 1,
{
    let back = DisplayPoint { row: a.row, column: (a.column - 1) as usize };
    map.lemma_row(a.row as int);
    assert(map.display_clipped(back, Bias::Left) == back);
    assert(map.display_clipped(back, Bias::Right) == back);
    assert(map.display_clipped(a, Bias::Right) == a);
    let here = map.to_point(a, Bias::Right);
    let there = map.to_point(back, Bias::Right);
    map.text().lemma_lines(here.row as int);
    map.text().lemma_clipped(here);
    map.text().lemma_clipped(there);
}

/// A search forward that is made again where it would leave the cursor in
/// its place does not leave it there: it lands on a later match or fails.
pub proof fn law_find_forward_again_moves(
    map: &DisplaySnapshot,
    p: DisplayPoint,
    before: bool,
    target: char,
    times: nat,
    mode: FindRange,
    smartcase: bool,
)
    requires
        map.wf(),
        target != '\n',
        times < usize::MAX,
    ensures
        find_forward_again(map, p, before, target, times, mode, smartcase) != Some(p),
{
    let first = find_forward_at(map, p, before, target, times, mode, smartcase);
    if first == Some(p) {
        let a = walked(map, p, mode, target, smartcase, times).0;
        lemma_found_walk(map, p, mode, target, smartcase, times);
        assert(before && a.column > 0);
        lemma_column_before(map, a);
        lemma_walk_goes_on(map, p, mode, target, smartcase, times);
        let second = walked(map, p, mode, target, smartcase, times + 1);
        assert(one_more(times) == times + 1);
        if second.1 {
            let b = second.0;
            lemma_found_walk(map, a, mode, target, smartcase, 1);
            if b.column > 0 {
                lemma_column_before(map, b);
            }
        }
    }
}

/// A search forward lands on the nearest match behind the cursor: the
/// place it gives holds the target, no character between the cursor and
/// that place does, and a search that stays in its line crossed no line
/// break on the way.
pub proof fn law_find_forward_lands_on_nearest_match(
    map: &DisplaySnapshot,
    p: DisplayPoint,
    target: char,
    mode: FindRange,
    smartcase: bool,
)
    requires
        map.wf(),
        target != '\n',
        find_forward_at(map, p, false, target, 1, mode, smartcase) is Some,
    ensures
        find_forward_at(map, p, false, target, 1, mode, smartcase)->0 == map.offset_to_display(
            map.to_offset(
                find_forward_at(map, p, false, target, 1, mode, smartcase)->0,
                Bias::Left,
            ),
        ),
        search_start(map, p) < map.to_offset(
            find_forward_at(map, p, false, target, 1, mode, smartcase)->0,
            Bias::Left,
        ) < map.text().chars().len(),
        character_matches(
            target,
            map.text().chars()[map.to_offset(
                find_forward_at(map, p, false, target, 1, mode, smartcase)->0,
                Bias::Left,
            )],
            smartcase,
        ),
        forall|j: int|
            search_start(map, p) < j < map.to_offset(
                find_forward_at(map, p, false, target, 1, mode, smartcase)->0,
                Bias::Left,
            ) ==> !character_matches(target, #[trigger] map.text().chars()[j], smartcase) && (mode
                == FindRange::SingleLine ==> map.text().chars()[j] != '\n'),
{
    let rule = search_rule(target, smartcase);
    let step = forward_search(map, mode, rule);
    let text = map.text().chars();
    let start = search_start(map, p);
    let next = boundary_after(map, p, mode, rule);
    let hit = boundary_found(map, p, mode, rule);
    assert(step(p) == (next, hit));
    assert(search_walk(step, p, false, 1) == if next == p {
        (p, hit)
    } else {
        search_walk(step, next, hit, 0)
    });
    assert(hit);
    lemma_found_step(map, p, mode, target, smartcase);
    lemma_search_start(map, p);
    lemma_forward_stop(text, rule, mode, start, start);
    let stop = boundary_offset(map, p, mode, rule);
    assert(map.to_offset(next, Bias::Left) == stop);
    assert forall|j: int| start < j < stop implies !character_matches(
        target,
        #[trigger] text[j],
        smartcase,
    ) && (mode == FindRange::SingleLine ==> text[j] != '\n') by {
        assert(!stops_forward(text, rule, mode, start, j));
    }
}

/// A search forward fails only where no match can be reached: every match
/// behind the cursor then lies behind a line break that the search may not
/// cross.
pub proof fn law_find_forward_fails_without_match(
    map: &DisplaySnapshot,
    p: DisplayPoint,
    target: char,
    mode: FindRange,
    smartcase: bool,
)
    requires
        map.wf(),
        target != '\n',
        find_forward_at(map, p, false, target, 1, mode, smartcase) is None,
    ensures
        forall|j: int|
            search_start(map, p) < j < map.text().chars().len() && character_matches(
                target,
                #[trigger] map.text().chars()[j],
                smartcase,
            ) ==> mode == FindRange::SingleLine && exists|k: int|
                search_start(map, p) <= k < j && #[trigger] map.text().chars()[k] == '\n',
{
    let rule = search_rule(target, smartcase);
    let step = forward_search(map, mode, rule);
    let text = map.text().chars();
    let start = search_start(map, p);
    let next = boundary_after(map, p, mode, rule);
    let hit = boundary_found(map, p, mode, rule);
    assert(step(p) == (next, hit));
    assert(search_walk(step, p, false, 1) == if next == p {
        (p, hit)
    } else {
        search_walk(step, next, hit, 0)
    });
    assert(!hit);
    lemma_search_start(map, p);
    lemma_forward_stop(text, rule, mode, start, start);
    let stop = boundary_offset(map, p, mode, rule);
    assert forall|j: int|
        start < j < text.len() && character_matches(
            target,
            #[trigger] text[j],
            smartcase,
        ) implies mode == FindRange::SingleLine && exists|k: int|
        start <= k < j && #[trigger] text[k] == '\n' by {
        lemma_match_is_no_break(target, text[j], smartcase);
        if j < stop {
            assert(!stops_forward(text, rule, mode, start, j));
        } else {
            assert(start <= stop < j && text[stop] == '\n');
        }
    }
}

/// The number of offsets strictly between `low` and `high` that hold a
/// match of `target`.
pub open spec fn matches_between(
    text: Seq<char>,
    target: char,
    smartcase: bool,
    low: int,
    high: int,
) -> nat
    decreases high - low,
{
    if high <= low + 1 {
        0
    } else {
        matches_between(text, target, smartcase, low, high - 1) + if character_matches(
            target,
            text[high - 1],
            smartcase,
        ) {
            1nat
        } else {
            0nat
        }
    }
}

/// Where nothing between two offsets matches, the number of matches
/// between them is 0.
pub proof fn lemma_no_match_between(
    text: Seq<char>,
    target: char,
    smartcase: bool,
    low: int,
    high: int,
)
    requires
        forall|j: int| low < j < high ==> !character_matches(target, #[trigger] text[j], smartcase),
    ensures
        matches_between(text, target, smartcase, low, high) == 0,
    decreases high - low,
{
    if high > low + 1 {
        lemma_no_match_between(text, target, smartcase, low, high - 1);
    }
}

/// The matches between two offsets are those in front of an offset between
/// them, that offset's own, and those behind it.
pub proof fn lemma_matches_add_up(
    text: Seq<char>,
    target: char,
    smartcase: bool,
    low: int,
    mid: int,
    high: int,
)
    requires
        low < mid < high,
    ensures
        matches_between(text, target, smartcase, low, high) == matches_between(
            text,
            target,
            smartcase,
            low,
            mid,
        ) + matches_between(text, target, smartcase, mid, high) + if character_matches(
            target,
            text[mid],
            smartcase,
        ) {
            1nat
        } else {
            0nat
        },
    decreases high - mid,
{
    if high > mid + 1 {
        lemma_matches_add_up(text, target, smartcase, low, mid, high - 1);
    } else {
        assert(matches_between(text, target, smartcase, mid, mid + 1) == 0);
    }
}

/// Repeated searches of which the last found its target land on a match
/// and pass over one match fewer than searches were made.
pub proof fn lemma_walk_counts(
    map: &DisplaySnapshot,
    from: DisplayPoint,
    range: FindRange,
    target: char,
    smartcase: bool,
    times: nat,
)
    requires
        map.wf(),
        target != '\n',
        walked(map, from, range, target, smartcase, times).1,
    ensures
        times > 0,
        walked(map, from, range, target, smartcase, times).0 == map.offset_to_display(
            search_start(map, walked(map, from, range, target, smartcase, times).0),
        ),
        search_start(map, from) < search_start(
            map,
            walked(map, from, range, target, smartcase, times).0,
        ) < map.text().chars().len(),
        character_matches(
            target,
            map.text().chars()[search_start(
                map,
                walked(map, from, range, target, smartcase, times).0,
            )],
            smartcase,
        ),
        matches_between(
            map.text().chars(),
            target,
            smartcase,
            search_start(map, from),
            search_start(map, walked(map, from, range, target, smartcase, times).0),
        ) == times - 1,
    decreases times,
{
    let rule = search_rule(target, smartcase);
    let step = forward_search(map, range, rule);
    let text = map.text().chars();
    lemma_found_walk(map, from, range, target, smartcase, times);
    let next = boundary_after(map, from, range, rule);
    let hit = boundary_found(map, from, range, rule);
    assert(step(from) == (next, hit));
    let start = search_start(map, from);
    if !hit {
        lemma_unfound_step_is_spent(map, from, range, rule);
        if next != from {
            assert(search_walk(step, from, false, times) == search_walk(
                step,
                next,
                hit,
                (times - 1) as nat,
            ));
            if times - 1 > 0 {
                lemma_spent_walk(map, next, range, rule, (times - 1) as nat);
            } else {
                assert(search_walk(step, next, hit, 0) == (next, hit));
            }
        } else {
            assert(search_walk(step, from, false, times) == (from, hit));
        }
        assert(false);
    }
    lemma_found_step(map, from, range, target, smartcase);
    lemma_search_start(map, from);
    lemma_forward_stop(text, rule, range, start, start);
    let stop = boundary_offset(map, from, range, rule);
    assert(search_start(map, next) == stop);
    assert(next != from);
    assert forall|j: int| start < j < stop implies !character_matches(
        target,
        #[trigger] text[j],
        smartcase,
    ) by {
        assert(!stops_forward(text, rule, range, start, j));
    }
    lemma_no_match_between(text, target, smartcase, start, stop);
    assert(search_walk(step, from, false, times) == search_walk(
        step,
        next,
        hit,
        (times - 1) as nat,
    ));
    if times - 1 > 0 {
        lemma_walk_keeps_first(map, next, range, rule, hit, (times - 1) as nat);
        lemma_walk_counts(map, next, range, target, smartcase, (times - 1) as nat);
        let end = search_start(map, walked(map, next, range, target, smartcase, (times - 1) as nat).0);
        lemma_matches_add_up(text, target, smartcase, start, stop, end);
    } else {
        assert(search_walk(step, next, hit, 0) == (next, hit));
    }
}

/// A search forward with a count lands on the match of that number: the
/// place it gives lies behind the cursor and holds the target, and between
/// the cursor and that place lie as many matches as the count is above 1.
pub proof fn law_find_forward_lands_on_match_by_count(
    map: &DisplaySnapshot,
    from: DisplayPoint,
    target: char,
    times: nat,
    mode: FindRange,
    smartcase: bool,
)
    requires
        map.wf(),
        map.valid_display(from),
        target != '\n',
        find_forward_at(map, from, false, target, times, mode, smartcase) is Some,
    ensures
        times >= 1,
        display_before(from, find_forward_at(map, from, false, target, times, mode, smartcase)->0),
        map.to_offset(
            find_forward_at(map, from, false, target, times, mode, smartcase)->0,
            Bias::Left,
        ) < map.text().chars().len(),
        character_matches(
            target,
            map.text().chars()[map.to_offset(
                find_forward_at(map, from, false, target, times, mode, smartcase)->0,
                Bias::Left,
            )],
            smartcase,
        ),
        matches_between(
            map.text().chars(),
            target,
            smartcase,
            map.to_offset(from, Bias::Left),
            map.to_offset(
                find_forward_at(map, from, false, target, times, mode, smartcase)->0,
                Bias::Left,
            ),
        ) == times - 1,
{
    lemma_walk_counts(map, from, mode, target, smartcase, times);
    lemma_found_walk(map, from, mode, target, smartcase, times);
    lemma_place_of_own_offset(map, from);
    map.lemma_display_clipped(from, Bias::Left);
    map.lemma_display_clipped(from, Bias::Right);
    let a = walked(map, from, mode, target, smartcase, times).0;
    law_display_keeps_order(map, search_start(map, from), search_start(map, a));
}

/// A search backward from offset `start` can reach offset `j`: it lies in
/// front of `start`, with no line break between that the search may not
/// cross.
pub open spec fn reached_backward(text: Seq<char>, mode: FindRange, j: int, start: int) -> bool {
    0 <= j < start && (mode == FindRange::SingleLine ==> forall|k: int|
        j <= k < start ==> #[trigger] text[k] != '\n')
}

/// No character that a search backward from `from` can reach holds the
/// target.
pub open spec fn no_match_backward(
    map: &DisplaySnapshot,
    from: DisplayPoint,
    target: char,
    mode: FindRange,
    smartcase: bool,
) -> bool {
    forall|j: int| #[trigger]
        reached_backward(map.text().chars(), mode, j, map.to_offset(from, Bias::Left))
            ==> !character_matches(target, map.text().chars()[j], smartcase)
}

/// A place that a search backward from `from` may stand at on its way: the
/// place `from` itself, or a place in front of it that the search can
/// reach.
pub open spec fn on_the_way_back(map: &DisplaySnapshot, from: DisplayPoint, mode: FindRange) -> spec_fn(
    DisplayPoint,
) -> bool {
    |q: DisplayPoint|
        q == from || (map.valid_display(q) && reached_backward(
            map.text().chars(),
            mode,
            map.to_offset(q, Bias::Left),
            map.to_offset(from, Bias::Left),
        ))
}

/// Where no character in reach holds the target, a search backward stays
/// on its way.
pub proof fn lemma_step_back_without_match(
    map: &DisplaySnapshot,
    from: DisplayPoint,
    q: DisplayPoint,
    target: char,
    mode: FindRange,
    smartcase: bool,
)
    requires
        map.wf(),
        map.valid_display(from),
        no_match_backward(map, from, target, mode, smartcase),
        on_the_way_back(map, from, mode)(q),
    ensures
        on_the_way_back(map, from, mode)(
            boundary_before(map, q, mode, search_rule(target, smartcase)),
        ),
{
    let rule = search_rule(target, smartcase);
    let buffer = map.text();
    let text = buffer.chars();
    let start = map.to_offset(q, Bias::Left);
    let origin = map.to_offset(from, Bias::Left);
    map.lemma_display_clipped(q, Bias::Left);
    buffer.lemma_clipped(map.to_point(q, Bias::Left));
    lemma_place_of_own_offset(map, from);
    lemma_backward_stop(text, rule, mode, start, start);
    let stop = backward_stop(text, rule, mode, start, start);
    assert(mode == FindRange::SingleLine ==> forall|k: int|
        stop <= k < start ==> #[trigger] text[k] != '\n') by {
        if mode == FindRange::SingleLine {
            assert forall|k: int| stop <= k < start implies #[trigger] text[k] != '\n' by {
                assert(!stops_backward(text, rule, mode, start, k + 1));
            }
        }
    }
    if 0 < stop < start {
        assert(reached_backward(text, mode, stop, origin));
    }
    assert(stops_backward(text, rule, mode, start, stop));
    assert(stop <= 0 || (mode == FindRange::SingleLine && text[stop - 1] == '\n'));
    // the scan stopped at the start of a line: that place is shown in a first column
    let pt = buffer.point_of(stop);
    buffer.lemma_row_of(stop);
    buffer.lemma_point_offset_round_trip(pt, stop);
    buffer.lemma_lines(pt.row as int);
    if pt.row > 0 {
        buffer.lemma_lines(pt.row - 1);
    }
    assert(pt.column == 0) by {
        if pt.column > 0 {
            assert(buffer.line_start(pt.row as int) <= stop - 1 < buffer.line_end(pt.row as int));
        }
    }
    buffer.lemma_clipped(pt);
    map.lemma_to_display(pt);
    let d = map.to_display(pt);
    map.lemma_row(d.row as int);
    assert(d.column == 0);
    assert(map.display_clipped(d, Bias::Left) == d);
    assert(map.cursor_clipped(d, Bias::Left) == d);
    assert(map.to_offset(d, Bias::Left) == stop);
    if stop == origin {
        assert(d == from);
    } else {
        assert(reached_backward(text, mode, stop, origin));
    }
}

/// A search backward that no character in reach satisfies leaves the
/// cursor in its place, whatever the count: from a place of the display,
/// where no character in front of the cursor that the search can reach
/// holds the target, the outcome is the place it began at.
pub proof fn law_find_backward_stays_without_match(
    map: &DisplaySnapshot,
    from: DisplayPoint,
    after: bool,
    target: char,
    times: nat,
    mode: FindRange,
    smartcase: bool,
)
    requires
        map.wf(),
        map.valid_display(from),
        no_match_backward(map, from, target, mode, smartcase),
    ensures
        find_backward_at(map, from, after, target, times, mode, smartcase) == from,
{
    let rule = search_rule(target, smartcase);
    let step = backward_search_step(map, mode, rule);
    let kept = on_the_way_back(map, from, mode);
    assert forall|q: DisplayPoint| kept(q) implies kept(#[trigger] step(q)) by {
        lemma_step_back_without_match(map, from, q, target, mode, smartcase);
    }
    law_repeat_keeps(step, kept, from, times);
    let to = repeat_while_moving(step, from, times);
    if to != from {
        assert(reached_backward(
            map.text().chars(),
            mode,
            map.to_offset(to, Bias::Left),
            map.to_offset(from, Bias::Left),
        ));
    }
}

} // verus!

//! What holds of repeated searches for a pair of characters.

use crate::buffer::Bias;
use crate::chars::character_matches;
use crate::display::{DisplayPoint, DisplaySnapshot};
use crate::find::{
    backward_pair_search, forward_pair_search, search_walk, sneak_at, sneak_backward_at,
};
use crate::find_laws::{
    lemma_char_is_shown_in_row, lemma_column_before, lemma_match_is_no_break,
    lemma_search_start, on_char, search_start,
};
use crate::motion::{one_more, sneak_again, sneak_backward_again};
use crate::movement::{
    boundary_after, boundary_before, boundary_found, boundary_offset, left_of, preceding_found,
    preceding_offset, right_of,
};
use crate::scan::{
    backward_stop, forward_stop, lemma_backward_stop, lemma_forward_stop, stops_backward,
    stops_forward, Boundary, FindRange,
};
use vstd::prelude::*;

verus! {

/// The rule of a search for the pair `first`, `second`.
pub open spec fn pair_rule(first: char, second: char, smartcase: bool) -> Boundary {
    Boundary::CharacterPair { first, second, smartcase }
}

/// A search for a pair that finds it lands on the second character of the
/// pair, strictly inside a row, behind the place it started from.
pub proof fn lemma_pair_found(
    map: &DisplaySnapshot,
    s: DisplayPoint,
    first: char,
    second: char,
    smartcase: bool,
)
    requires
        map.wf(),
        first != '\n',
        second != '\n',
        boundary_found(map, s, FindRange::MultiLine, pair_rule(first, second, smartcase)),
    ensures
        on_char(
            map,
            boundary_after(map, s, FindRange::MultiLine, pair_rule(first, second, smartcase)),
        ),
        boundary_after(map, s, FindRange::MultiLine, pair_rule(first, second, smartcase))
            == map.offset_to_display(
            boundary_offset(map, s, FindRange::MultiLine, pair_rule(first, second, smartcase)),
        ),
        search_start(map, s) < boundary_offset(
            map,
            s,
            FindRange::MultiLine,
            pair_rule(first, second, smartcase),
        ) < map.text().chars().len(),
        map.text().chars()[boundary_offset(
            map,
            s,
            FindRange::MultiLine,
            pair_rule(first, second, smartcase),
        ) - 1] != '\n',
        map.text().chars()[boundary_offset(
            map,
            s,
            FindRange::MultiLine,
            pair_rule(first, second, smartcase),
        )] != '\n',
{
    let rule = pair_rule(first, second, smartcase);
    let text = map.text().chars();
    let start = search_start(map, s);
    lemma_search_start(map, s);
    lemma_forward_stop(text, rule, FindRange::MultiLine, start, start);
    let stop = boundary_offset(map, s, FindRange::MultiLine, rule);
    assert(character_matches(first, text[stop - 1], smartcase));
    assert(character_matches(second, text[stop], smartcase));
    lemma_match_is_no_break(first, text[stop - 1], smartcase);
    lemma_match_is_no_break(second, text[stop], smartcase);
    lemma_char_is_shown_in_row(map, stop);
    assert(map.cursor_clipped(map.offset_to_display(stop), Bias::Right) == map.offset_to_display(
        stop,
    ));
}

/// One place to the left of a character that no line break stands in front
/// of is the place of the character in front of it.
pub proof fn lemma_left_of_char(map: &DisplaySnapshot, o: int)
    requires
        map.wf(),
        1 <= o < map.text().chars().len(),
        map.text().chars()[o] != '\n',
        map.text().chars()[o - 1] != '\n',
    ensures
        left_of(map, map.offset_to_display(o)) == map.offset_to_display(o - 1),
{
    let buffer = map.text();
    let a = map.offset_to_display(o);
    lemma_char_is_shown_in_row(map, o);
    lemma_char_is_shown_in_row(map, o - 1);
    let before = map.offset_to_display(o - 1);
    let pt = buffer.point_of(o);
    let pb = buffer.point_of(o - 1);
    buffer.lemma_row_of(o);
    buffer.lemma_row_of(o - 1);
    buffer.lemma_point_offset_round_trip(pt, o);
    buffer.lemma_point_offset_round_trip(pb, o - 1);
    buffer.lemma_lines(pt.row as int);
    buffer.lemma_lines(pb.row as int);
    if pt.row > 0 {
        buffer.lemma_lines(pt.row - 1);
    }
    buffer.lemma_row_from(o - 1, 0, pt.row as int);
    assert(pb.row == pt.row && pb.column + 1 == pt.column);
    map.lemma_to_display(pt);
    map.lemma_to_display(pb);
    map.lemma_row(a.row as int);
    map.lemma_row(before.row as int);
    if a.column > 0 {
        lemma_column_before(map, a);
        let back = DisplayPoint { row: a.row, column: (a.column - 1) as usize };
        assert(map.row_shows(a.row as int, pb));
        crate::laws::lemma_row_search_is_first(map, pb, 0, a.row as int);
        if before.row < a.row {
            crate::laws::lemma_rows_of_a_line(map, before.row as int, a.row as int);
        }
        assert(before == back);
    } else {
        assert(map.spans()[a.row as int].start == pt.column);
        assert(a.row > 0) by {
            if a.row == 0 {
                assert(crate::display::row_follows(map.text(), map.spans(), 0));
            }
        }
        let up = a.row - 1;
        map.lemma_row(up);
        assert(crate::display::row_follows(map.text(), map.spans(), a.row as int));
        assert(!map.ends_line(up));
        let q = DisplayPoint { row: up as usize, column: map.row_len(up) as usize };
        let last = DisplayPoint { row: up as usize, column: (map.row_len(up) - 1) as usize };
        assert(map.display_clipped(q, Bias::Left) == last);
        assert(map.row_shows(up, pb));
        crate::laws::lemma_row_search_is_first(map, pb, 0, up);
        if before.row < up {
            crate::laws::lemma_rows_of_a_line(map, before.row as int, up);
        }
        assert(before == last);
    }
}

/// One place to the right of a character is at most one character on, and
/// no place back. It is the character's own place only where clipping
/// keeps the cursor off the end of the line that the character ends.
pub proof fn lemma_right_of_char(map: &DisplaySnapshot, q: DisplayPoint)
    requires
        map.wf(),
        on_char(map, q),
    ensures
        search_start(map, q) <= search_start(map, right_of(map, q)) <= search_start(map, q) + 1,
        search_start(map, right_of(map, q)) == search_start(map, q) ==> search_start(map, q) + 1
            >= map.text().chars().len() || map.text().chars()[search_start(map, q) + 1] == '\n',
{
    let buffer = map.text();
    map.lemma_row(q.row as int);
    map.lemma_display_clipped(q, Bias::Right);
    let here = map.to_point(q, Bias::Right);
    buffer.lemma_clipped(here);
    buffer.lemma_lines(here.row as int);
    let next = DisplayPoint { row: q.row, column: (q.column + 1) as usize };
    map.lemma_display_clipped(next, Bias::Right);
    let landed = map.display_clipped(next, Bias::Right);
    map.lemma_row(landed.row as int);
    map.lemma_display_clipped(landed, Bias::Right);
    let there = map.to_point(landed, Bias::Right);
    buffer.lemma_clipped(there);
    assert(there.row == here.row && there.column == here.column + 1);
    if map.clips_line_ends() && landed.column == map.row_len(landed.row as int) {
        if landed.column > 0 {
            let back = DisplayPoint { row: landed.row, column: (landed.column - 1) as usize };
            map.lemma_display_clipped(back, Bias::Left);
            map.lemma_display_clipped(back, Bias::Right);
        } else {
            map.lemma_display_clipped(landed, Bias::Left);
        }
    }
}

/// A search for a pair from `q` has nothing left to find: it starts at the
/// last character of the text or behind it.
pub open spec fn pair_spent(map: &DisplaySnapshot, q: DisplayPoint) -> bool {
    search_start(map, right_of(map, q)) >= map.text().chars().len() - 1
}

/// From the cursor position at the end of the text nothing is left to
/// find.
pub proof fn lemma_end_is_spent(map: &DisplaySnapshot)
    requires
        map.wf(),
    ensures
        pair_spent(
            map,
            map.cursor_clipped(
                map.offset_to_display(map.text().chars().len() as int),
                Bias::Right,
            ),
        ),
{
    let buffer = map.text();
    let len = buffer.chars().len() as int;
    let pt = buffer.point_of(len);
    buffer.lemma_row_of(len);
    buffer.lemma_point_offset_round_trip(pt, len);
    buffer.lemma_lines(buffer.max_row());
    buffer.lemma_row_from(len, 0, buffer.max_row());
    assert(pt.row == buffer.max_row());
    assert(pt.column == buffer.line_len(buffer.max_row()));
    buffer.lemma_clipped(pt);
    map.lemma_to_display(pt);
    let d = map.to_display(pt);
    map.lemma_row(d.row as int);
    map.lemma_row(map.max_display_row());
    assert(map.row_shows(map.max_display_row(), pt));
    crate::laws::lemma_row_search_is_first(map, pt, 0, map.max_display_row());
    if d.row < map.max_display_row() {
        crate::laws::lemma_rows_of_a_line(map, d.row as int, map.max_display_row());
    }
    assert(d == map.max_display_point());
    assert(map.display_clipped(d, Bias::Right) == d);
    assert(map.display_clipped(d, Bias::Left) == d);
    let n = map.cursor_clipped(d, Bias::Right);
    if map.clips_line_ends() && d.column > 0 {
        let back = DisplayPoint { row: d.row, column: (d.column - 1) as usize };
        assert(map.display_clipped(back, Bias::Left) == back);
        assert(map.display_clipped(back, Bias::Right) == back);
        assert(n == back);
        assert(right_of(map, n) == n);
        let there = map.to_point(back, Bias::Right);
        buffer.lemma_clipped(there);
    } else {
        assert(n == d);
        assert(right_of(map, n) == n);
    }
}

/// A search for a pair that finds nothing leaves the cursor where nothing
/// is left to find.
pub proof fn lemma_pair_unfound(map: &DisplaySnapshot, s: DisplayPoint, rule: Boundary)
    requires
        map.wf(),
        !boundary_found(map, s, FindRange::MultiLine, rule),
    ensures
        pair_spent(map, boundary_after(map, s, FindRange::MultiLine, rule)),
{
    let text = map.text().chars();
    let start = search_start(map, s);
    lemma_search_start(map, s);
    lemma_forward_stop(text, rule, FindRange::MultiLine, start, start);
    let stop = boundary_offset(map, s, FindRange::MultiLine, rule);
    assert(stops_forward(text, rule, FindRange::MultiLine, start, stop));
    assert(stop == text.len());
    lemma_end_is_spent(map);
}

/// Where nothing is left to find, a search for a pair finds nothing.
pub proof fn lemma_pair_spent_step(map: &DisplaySnapshot, q: DisplayPoint, rule: Boundary)
    requires
        map.wf(),
        pair_spent(map, q),
    ensures
        !boundary_found(map, right_of(map, q), FindRange::MultiLine, rule),
{
    let text = map.text().chars();
    let s = right_of(map, q);
    let start = search_start(map, s);
    lemma_search_start(map, s);
    if start >= text.len() {
        assert(forward_stop(text, rule, FindRange::MultiLine, start, start) == start);
    } else {
        assert(!stops_forward(text, rule, FindRange::MultiLine, start, start));
        assert(forward_stop(text, rule, FindRange::MultiLine, start, start) == forward_stop(
            text,
            rule,
            FindRange::MultiLine,
            start,
            start + 1,
        ));
        assert(forward_stop(text, rule, FindRange::MultiLine, start, start + 1) == start + 1);
    }
}

/// Where nothing is left to find, no number of searches for a pair finds
/// anything.
pub proof fn lemma_pair_spent_walk(map: &DisplaySnapshot, q: DisplayPoint, rule: Boundary, times: nat)
    requires
        map.wf(),
        pair_spent(map, q),
    ensures
        !search_walk(forward_pair_search(map, rule), q, false, times).1,
    decreases times,
{
    if times > 0 {
        let step = forward_pair_search(map, rule);
        let s = right_of(map, q);
        let next = boundary_after(map, s, FindRange::MultiLine, rule);
        let hit = boundary_found(map, s, FindRange::MultiLine, rule);
        assert(step(q) == (next, hit));
        lemma_pair_spent_step(map, q, rule);
        lemma_pair_unfound(map, s, rule);
        if next != q {
            lemma_pair_spent_walk(map, next, rule, (times - 1) as nat);
        }
    }
}

/// The place that repeated searches for a pair reach.
pub open spec fn pair_walked(
    map: &DisplaySnapshot,
    from: DisplayPoint,
    first: char,
    second: char,
    smartcase: bool,
    times: nat,
) -> (DisplayPoint, bool) {
    search_walk(
        forward_pair_search(map, pair_rule(first, second, smartcase)),
        from,
        false,
        times,
    )
}

/// The place at offset `o` holds the second character of a pair of which
/// neither is a line break.
pub open spec fn on_pair(map: &DisplaySnapshot, a: DisplayPoint, o: int) -> bool {
    &&& 1 <= o < map.text().chars().len()
    &&& a == map.offset_to_display(o)
    &&& map.text().chars()[o - 1] != '\n'
    &&& map.text().chars()[o] != '\n'
}

/// Repeated searches for a pair of which the last found the pair end on
/// the second character of a pair.
pub proof fn lemma_pair_walk_lands(
    map: &DisplaySnapshot,
    from: DisplayPoint,
    first: char,
    second: char,
    smartcase: bool,
    times: nat,
)
    requires
        map.wf(),
        first != '\n',
        second != '\n',
        pair_walked(map, from, first, second, smartcase, times).1,
    ensures
        times > 0,
        on_pair(
            map,
            pair_walked(map, from, first, second, smartcase, times).0,
            search_start(map, pair_walked(map, from, first, second, smartcase, times).0),
        ),
    decreases times,
{
    let rule = pair_rule(first, second, smartcase);
    let step = forward_pair_search(map, rule);
    if times > 0 {
        let s = right_of(map, from);
        let next = boundary_after(map, s, FindRange::MultiLine, rule);
        let hit = boundary_found(map, s, FindRange::MultiLine, rule);
        assert(step(from) == (next, hit));
        if hit {
            lemma_pair_found(map, s, first, second, smartcase);
            lemma_char_is_shown_in_row(map, boundary_offset(map, s, FindRange::MultiLine, rule));
        }
        if next != from {
            assert(search_walk(step, from, false, times) == search_walk(
                step,
                next,
                hit,
                (times - 1) as nat,
            ));
            if times - 1 > 0 {
                lemma_pair_walk_lands(map, next, first, second, smartcase, (times - 1) as nat);
            } else {
                assert(search_walk(step, next, hit, 0) == (next, hit));
            }
        } else {
            assert(search_walk(step, from, false, times) == (from, hit));
        }
    } else {
        assert(search_walk(step, from, false, 0) == (from, false));
    }
}

/// Repeated searches for a pair, begun on a character, of which the last
/// found the pair end at least two characters behind the place where they
/// began.
pub proof fn lemma_pair_walk_advances(
    map: &DisplaySnapshot,
    from: DisplayPoint,
    first: char,
    second: char,
    smartcase: bool,
    times: nat,
)
    requires
        map.wf(),
        first != '\n',
        second != '\n',
        on_char(map, from),
        pair_walked(map, from, first, second, smartcase, times).1,
    ensures
        search_start(map, pair_walked(map, from, first, second, smartcase, times).0)
            >= search_start(map, from) + 2,
    decreases times,
{
    let rule = pair_rule(first, second, smartcase);
    let step = forward_pair_search(map, rule);
    lemma_pair_walk_lands(map, from, first, second, smartcase, times);
    let s = right_of(map, from);
    let next = boundary_after(map, s, FindRange::MultiLine, rule);
    let hit = boundary_found(map, s, FindRange::MultiLine, rule);
    assert(step(from) == (next, hit));
    lemma_right_of_char(map, from);
    if hit {
        lemma_pair_found(map, s, first, second, smartcase);
        let stop = boundary_offset(map, s, FindRange::MultiLine, rule);
        lemma_char_is_shown_in_row(map, stop);
        assert(search_start(map, next) == stop);
        assert(stop >= search_start(map, from) + 2);
        assert(next != from);
        assert(search_walk(step, from, false, times) == search_walk(
            step,
            next,
            hit,
            (times - 1) as nat,
        ));
        if times - 1 > 0 {
            lemma_pair_walk_advances(map, next, first, second, smartcase, (times - 1) as nat);
        } else {
            assert(search_walk(step, next, hit, 0) == (next, hit));
        }
    } else {
        lemma_pair_unfound(map, s, rule);
        if next != from {
            assert(search_walk(step, from, false, times) == search_walk(
                step,
                next,
                hit,
                (times - 1) as nat,
            ));
            if times - 1 > 0 {
                lemma_pair_spent_walk(map, next, rule, (times - 1) as nat);
            } else {
                assert(search_walk(step, next, hit, 0) == (next, hit));
            }
        } else {
            assert(search_walk(step, from, false, times) == (from, hit));
        }
        assert(false);
    }
}

/// A search forward for a pair of characters never lands where it began:
/// it lands on a pair behind the cursor or fails. Made again, it therefore
/// never leaves the cursor in its place.
pub proof fn law_sneak_moves(
    map: &DisplaySnapshot,
    p: DisplayPoint,
    first: char,
    second: char,
    times: nat,
    smartcase: bool,
)
    requires
        map.wf(),
        first != '\n',
        second != '\n',
    ensures
        sneak_at(map, p, first, second, times, smartcase) != Some(p),
        sneak_again(map, p, first, second, times, smartcase) != Some(p),
{
    sneak_never_returns(map, p, first, second, times, smartcase);
    sneak_never_returns(map, p, first, second, one_more(times), smartcase);
}

proof fn sneak_never_returns(
    map: &DisplaySnapshot,
    p: DisplayPoint,
    first: char,
    second: char,
    times: nat,
    smartcase: bool,
)
    requires
        map.wf(),
        first != '\n',
        second != '\n',
    ensures
        sneak_at(map, p, first, second, times, smartcase) != Some(p),
{
    let walk = pair_walked(map, p, first, second, smartcase, times);
    if walk.1 && left_of(map, walk.0) == p {
        lemma_pair_walk_lands(map, p, first, second, smartcase, times);
        let o = search_start(map, walk.0);
        lemma_left_of_char(map, o);
        lemma_char_is_shown_in_row(map, o - 1);
        assert(search_start(map, p) == o - 1);
        lemma_pair_walk_advances(map, p, first, second, smartcase, times);
        assert(false);
    }
}

/// The offset from which a search backward from `p` starts.
pub open spec fn search_end(map: &DisplaySnapshot, p: DisplayPoint) -> int {
    map.to_offset(p, Bias::Left)
}

/// A search backward from any place starts inside the text.
pub proof fn lemma_search_end(map: &DisplaySnapshot, p: DisplayPoint)
    requires
        map.wf(),
    ensures
        0 <= search_end(map, p) <= map.text().chars().len(),
{
    map.lemma_display_clipped(p, Bias::Left);
    map.text().lemma_clipped(map.to_point(p, Bias::Left));
}

/// Whether a search backward for a pair from `q` finds it.
pub open spec fn pair_found_before(map: &DisplaySnapshot, q: DisplayPoint, rule: Boundary) -> bool {
    preceding_found(map.text(), map.to_point(q, Bias::Left), FindRange::MultiLine, rule)
}

/// A search backward for a pair that finds it lands on the second
/// character of the pair, in front of the place it started from.
pub proof fn lemma_pair_found_before(
    map: &DisplaySnapshot,
    q: DisplayPoint,
    first: char,
    second: char,
    smartcase: bool,
)
    requires
        map.wf(),
        first != '\n',
        second != '\n',
        pair_found_before(map, q, pair_rule(first, second, smartcase)),
    ensures
        on_pair(
            map,
            boundary_before(map, q, FindRange::MultiLine, pair_rule(first, second, smartcase)),
            search_end(
                map,
                boundary_before(map, q, FindRange::MultiLine, pair_rule(first, second, smartcase)),
            ),
        ),
        search_end(
            map,
            boundary_before(map, q, FindRange::MultiLine, pair_rule(first, second, smartcase)),
        ) < search_end(map, q),
{
    let rule = pair_rule(first, second, smartcase);
    let buffer = map.text();
    let text = buffer.chars();
    let from = map.to_point(q, Bias::Left);
    let start = search_end(map, q);
    lemma_search_end(map, q);
    lemma_backward_stop(text, rule, FindRange::MultiLine, start, start);
    let at = preceding_offset(buffer, from, FindRange::MultiLine, rule);
    assert(character_matches(first, text[at - 1], smartcase));
    assert(character_matches(second, text[at], smartcase));
    lemma_match_is_no_break(first, text[at - 1], smartcase);
    lemma_match_is_no_break(second, text[at], smartcase);
    lemma_char_is_shown_in_row(map, at);
    assert(map.cursor_clipped(map.offset_to_display(at), Bias::Left) == map.offset_to_display(at));
    buffer.lemma_row_of(at);
    buffer.lemma_point_offset_round_trip(buffer.point_of(at), at);
    buffer.lemma_clipped(buffer.point_of(at));
}

/// A search backward for a pair that finds nothing ends at the start of
/// the text.
pub proof fn lemma_pair_unfound_before(map: &DisplaySnapshot, q: DisplayPoint, rule: Boundary)
    requires
        map.wf(),
        !pair_found_before(map, q, rule),
    ensures
        search_end(map, boundary_before(map, q, FindRange::MultiLine, rule)) == 0,
{
    let buffer = map.text();
    let text = buffer.chars();
    let from = map.to_point(q, Bias::Left);
    let start = search_end(map, q);
    lemma_search_end(map, q);
    lemma_backward_stop(text, rule, FindRange::MultiLine, start, start);
    let at = preceding_offset(buffer, from, FindRange::MultiLine, rule);
    assert(stops_backward(text, rule, FindRange::MultiLine, start, at));
    assert(at == 0);
    lemma_origin(map);
}

/// The cursor position for the start of the text is the start of the
/// display.
pub proof fn lemma_origin(map: &DisplaySnapshot)
    requires
        map.wf(),
    ensures
        map.cursor_clipped(map.offset_to_display(0), Bias::Left) == (DisplayPoint {
            row: 0,
            column: 0,
        }),
        search_end(map, DisplayPoint { row: 0, column: 0 }) == 0,
{
    let buffer = map.text();
    let pt = buffer.point_of(0);
    buffer.lemma_lines(0);
    buffer.lemma_row_from(0, 0, 0);
    buffer.lemma_row_of(0);
    buffer.lemma_point_offset_round_trip(pt, 0);
    buffer.lemma_clipped(pt);
    map.lemma_to_display(pt);
    map.lemma_row(0);
    assert(crate::display::row_follows(map.text(), map.spans(), 0));
    assert(map.row_shows(0, pt));
    crate::laws::lemma_row_search_is_first(map, pt, 0, 0);
    let origin = DisplayPoint { row: 0, column: 0 };
    assert(map.to_display(pt) == origin);
    assert(map.display_clipped(origin, Bias::Left) == origin);
    assert(map.to_point(origin, Bias::Left) == pt);
}

/// From the start of the text a search backward finds nothing.
pub proof fn lemma_pair_spent_before(map: &DisplaySnapshot, q: DisplayPoint, rule: Boundary)
    requires
        map.wf(),
        search_end(map, q) == 0,
    ensures
        !pair_found_before(map, q, rule),
{
    let text = map.text().chars();
    assert(backward_stop(text, rule, FindRange::MultiLine, 0, 0) == 0);
}

/// From the start of the text no number of searches backward finds
/// anything.
pub proof fn lemma_pair_spent_walk_before(
    map: &DisplaySnapshot,
    q: DisplayPoint,
    rule: Boundary,
    times: nat,
)
    requires
        map.wf(),
        search_end(map, q) == 0,
    ensures
        !search_walk(backward_pair_search(map, rule), q, false, times).1,
    decreases times,
{
    if times > 0 {
        let step = backward_pair_search(map, rule);
        let next = boundary_before(map, q, FindRange::MultiLine, rule);
        let hit = pair_found_before(map, q, rule);
        assert(step(q) == (next, hit));
        lemma_pair_spent_before(map, q, rule);
        lemma_pair_unfound_before(map, q, rule);
        if next != q {
            lemma_pair_spent_walk_before(map, next, rule, (times - 1) as nat);
        }
    }
}

/// The place that repeated searches backward for a pair reach.
pub open spec fn pair_walked_back(
    map: &DisplaySnapshot,
    from: DisplayPoint,
    first: char,
    second: char,
    smartcase: bool,
    times: nat,
) -> (DisplayPoint, bool) {
    search_walk(
        backward_pair_search(map, pair_rule(first, second, smartcase)),
        from,
        false,
        times,
    )
}

/// Repeated searches backward for a pair of which the last found the pair
/// end on the second character of a pair, in front of the place where they
/// began.
pub proof fn lemma_pair_walk_back(
    map: &DisplaySnapshot,
    from: DisplayPoint,
    first: char,
    second: char,
    smartcase: bool,
    times: nat,
)
    requires
        map.wf(),
        first != '\n',
        second != '\n',
        pair_walked_back(map, from, first, second, smartcase, times).1,
    ensures
        times > 0,
        on_pair(
            map,
            pair_walked_back(map, from, first, second, smartcase, times).0,
            search_end(map, pair_walked_back(map, from, first, second, smartcase, times).0),
        ),
        search_end(map, pair_walked_back(map, from, first, second, smartcase, times).0)
            < search_end(map, from),
    decreases times,
{
    let rule = pair_rule(first, second, smartcase);
    let step = backward_pair_search(map, rule);
    if times > 0 {
        let next = boundary_before(map, from, FindRange::MultiLine, rule);
        let hit = pair_found_before(map, from, rule);
        assert(step(from) == (next, hit));
        if hit {
            lemma_pair_found_before(map, from, first, second, smartcase);
        } else {
            lemma_pair_unfound_before(map, from, rule);
        }
        if next != from {
            assert(search_walk(step, from, false, times) == search_walk(
                step,
                next,
                hit,
                (times - 1) as nat,
            ));
            if times - 1 > 0 {
                if !hit {
                    lemma_pair_spent_walk_before(map, next, rule, (times - 1) as nat);
                    assert(false);
                }
                lemma_pair_walk_back(map, next, first, second, smartcase, (times - 1) as nat);
            } else {
                assert(search_walk(step, next, hit, 0) == (next, hit));
            }
        } else {
            assert(search_walk(step, from, false, times) == (from, hit));
        }
    } else {
        assert(search_walk(step, from, false, 0) == (from, false));
    }
}

/// A search backward for a pair of characters never lands where it began:
/// it lands on a pair in front of the cursor or fails. Made again, it
/// therefore never leaves the cursor in its place.
pub proof fn law_sneak_backward_moves(
    map: &DisplaySnapshot,
    p: DisplayPoint,
    first: char,
    second: char,
    times: nat,
    smartcase: bool,
)
    requires
        map.wf(),
        first != '\n',
        second != '\n',
    ensures
        sneak_backward_at(map, p, first, second, times, smartcase) != Some(p),
        sneak_backward_again(map, p, first, second, times, smartcase) != Some(p),
{
    sneak_backward_never_returns(map, p, first, second, times, smartcase);
    sneak_backward_never_returns(map, p, first, second, one_more(times), smartcase);
}

proof fn sneak_backward_never_returns(
    map: &DisplaySnapshot,
    p: DisplayPoint,
    first: char,
    second: char,
    times: nat,
    smartcase: bool,
)
    requires
        map.wf(),
        first != '\n',
        second != '\n',
    ensures
        sneak_backward_at(map, p, first, second, times, smartcase) != Some(p),
{
    let walk = pair_walked_back(map, p, first, second, smartcase, times);
    if walk.1 && left_of(map, walk.0) == p {
        lemma_pair_walk_back(map, p, first, second, smartcase, times);
        let o = search_end(map, walk.0);
        lemma_left_of_char(map, o);
        lemma_char_is_shown_in_row(map, o - 1);
        assert(search_end(map, p) == o - 1);
        assert(false);
    }
}

} // verus!

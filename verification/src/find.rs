//! Searches for a character, or for a pair of characters, from the cursor.

use crate::buffer::Bias;
use crate::chars::{character_matches, is_character_match};
use crate::display::{DisplayPoint, DisplaySnapshot};
use crate::movement::{
    boundary_after, boundary_before, boundary_found, find_boundary,
    find_preceding_boundary_display_point, left, left_of, preceding_found, right, right_of,
};
use crate::repeat::repeat_while_moving;
use crate::scan::{Boundary, FindRange};
use vstd::prelude::*;

verus! {

/// A search repeated up to `times` times. Each search gives a place and
/// says whether it found its target; the walk ends early where a search
/// does not move the cursor. The answer holds the place reached and what the
/// last search said; with no search made, `found` as it was given.
pub open spec fn search_walk(
    step: spec_fn(DisplayPoint) -> (DisplayPoint, bool),
    to: DisplayPoint,
    found: bool,
    times: nat,
) -> (DisplayPoint, bool)
    decreases times,
{
    if times == 0 {
        (to, found)
    } else {
        let (next, hit) = step(to);
        if next == to {
            (to, hit)
        } else {
            search_walk(step, next, hit, (times - 1) as nat)
        }
    }
}

/// One search forward for a character.
pub open spec fn forward_search(map: &DisplaySnapshot, range: FindRange, rule: Boundary) -> spec_fn(
    DisplayPoint,
) -> (DisplayPoint, bool) {
    |q: DisplayPoint| (boundary_after(map, q, range, rule), boundary_found(map, q, range, rule))
}

/// One search backward for a character, as a step.
pub open spec fn backward_search_step(
    map: &DisplaySnapshot,
    range: FindRange,
    rule: Boundary,
) -> spec_fn(DisplayPoint) -> DisplayPoint {
    |q: DisplayPoint| boundary_before(map, q, range, rule)
}

/// One search forward for a pair of characters: it starts one character on.
pub open spec fn forward_pair_search(map: &DisplaySnapshot, rule: Boundary) -> spec_fn(
    DisplayPoint,
) -> (DisplayPoint, bool) {
    |q: DisplayPoint|
        (
            boundary_after(map, right_of(map, q), FindRange::MultiLine, rule),
            boundary_found(map, right_of(map, q), FindRange::MultiLine, rule),
        )
}

/// One search backward for a pair of characters.
pub open spec fn backward_pair_search(map: &DisplaySnapshot, rule: Boundary) -> spec_fn(
    DisplayPoint,
) -> (DisplayPoint, bool) {
    |q: DisplayPoint|
        (
            boundary_before(map, q, FindRange::MultiLine, rule),
            preceding_found(map.text(), map.to_point(q, Bias::Left), FindRange::MultiLine, rule),
        )
}

/// The `times`-th place behind `from` that holds `target`, or with `before`
/// the place in front of it; nothing where the last search found none.
pub open spec fn find_forward_at(
    map: &DisplaySnapshot,
    from: DisplayPoint,
    before: bool,
    target: char,
    times: nat,
    mode: FindRange,
    smartcase: bool,
) -> Option<DisplayPoint> {
    let rule = Boundary::Character { target, smartcase };
    let (to, found) = search_walk(forward_search(map, mode, rule), from, false, times);
    if !found {
        None
    } else if before && to.column > 0 {
        Some(
            map.cursor_clipped(
                DisplayPoint { row: to.row, column: (to.column - 1) as usize },
                Bias::Left,
            ),
        )
    } else {
        Some(to)
    }
}

/// The `times`-th place in front of `from` that holds `target`, or with
/// `after` the place behind it; `from` itself where the search did not move
/// or the place it reached does not hold the target.
pub open spec fn find_backward_at(
    map: &DisplaySnapshot,
    from: DisplayPoint,
    after: bool,
    target: char,
    times: nat,
    mode: FindRange,
    smartcase: bool,
) -> DisplayPoint {
    let rule = Boundary::Character { target, smartcase };
    let to = repeat_while_moving(backward_search_step(map, mode, rule), from, times);
    let under = map.text().char_at(map.to_offset(to, Bias::Left));
    if to != from && under is Some && character_matches(target, under->0, smartcase) {
        if after {
            map.cursor_clipped(
                DisplayPoint {
                    row: to.row,
                    column: if to.column < usize::MAX {
                        (to.column + 1) as usize
                    } else {
                        to.column
                    },
                },
                Bias::Right,
            )
        } else {
            to
        }
    } else {
        from
    }
}

/// The `times`-th place behind `from` where the pair of characters stands:
/// the place of its first character. Nothing where the last search found
/// none.
pub open spec fn sneak_at(
    map: &DisplaySnapshot,
    from: DisplayPoint,
    first: char,
    second: char,
    times: nat,
    smartcase: bool,
) -> Option<DisplayPoint> {
    let rule = Boundary::CharacterPair { first, second, smartcase };
    let (to, found) = search_walk(forward_pair_search(map, rule), from, false, times);
    if found {
        Some(left_of(map, to))
    } else {
        None
    }
}

/// The `times`-th place in front of `from` where the pair of characters
/// stands: the place of its first character. Nothing where the last search
/// found none.
pub open spec fn sneak_backward_at(
    map: &DisplaySnapshot,
    from: DisplayPoint,
    first: char,
    second: char,
    times: nat,
    smartcase: bool,
) -> Option<DisplayPoint> {
    let rule = Boundary::CharacterPair { first, second, smartcase };
    let (to, found) = search_walk(backward_pair_search(map, rule), from, false, times);
    if found {
        Some(left_of(map, to))
    } else {
        None
    }
}

/// Searches forward for `target`, `times` times.
pub fn find_forward(
    map: &DisplaySnapshot,
    from: DisplayPoint,
    before: bool,
    target: char,
    times: usize,
    mode: FindRange,
    smartcase: bool,
) -> (landed: Option<DisplayPoint>)
    requires
        map.wf(),
    ensures
        landed == find_forward_at(map, from, before, target, times as nat, mode, smartcase),
{
    let rule = Boundary::Character { target, smartcase };
    let ghost step = forward_search(map, mode, rule);
    let ghost goal = search_walk(step, from, false, times as nat);
    let mut to = from;
    let mut found = false;
    let mut rest = times;
    while rest > 0
        invariant
            map.wf(),
            rule == (Boundary::Character { target, smartcase }),
            step == forward_search(map, mode, rule),
            search_walk(step, to, found, rest as nat) == goal,
        decreases rest,
    {
        let next = find_boundary(map, to, mode, rule);
        found = next.1.fired;
        if to == next.0 {
            rest = 0;
        } else {
            to = next.0;
            rest -= 1;
        }
    }
    if found {
        if before && to.column > 0 {
            Some(map.clip_point(DisplayPoint { row: to.row, column: to.column - 1 }, Bias::Left))
        } else {
            Some(to)
        }
    } else {
        None
    }
}

/// Searches backward for `target`, `times` times.
pub fn find_backward(
    map: &DisplaySnapshot,
    from: DisplayPoint,
    after: bool,
    target: char,
    times: usize,
    mode: FindRange,
    smartcase: bool,
) -> (landed: DisplayPoint)
    requires
        map.wf(),
    ensures
        landed == find_backward_at(map, from, after, target, times as nat, mode, smartcase),
{
    let rule = Boundary::Character { target, smartcase };
    let ghost step = backward_search_step(map, mode, rule);
    let ghost goal = repeat_while_moving(step, from, times as nat);
    let mut to = from;
    let mut rest = times;
    while rest > 0
        invariant
            map.wf(),
            rule == (Boundary::Character { target, smartcase }),
            step == backward_search_step(map, mode, rule),
            repeat_while_moving(step, to, rest as nat) == goal,
        decreases rest,
    {
        let next = find_preceding_boundary_display_point(map, to, mode, rule).0;
        if to == next {
            rest = 0;
        } else {
            to = next;
            rest -= 1;
        }
    }
    let matched = to != from && match map.buffer().char_at_offset(
        map.display_point_to_offset(to, Bias::Left),
    ) {
        Some(c) => is_character_match(target, c, smartcase),
        None => false,
    };
    if matched {
        if after {
            let column = if to.column < usize::MAX {
                to.column + 1
            } else {
                to.column
            };
            map.clip_point(DisplayPoint { row: to.row, column }, Bias::Right)
        } else {
            to
        }
    } else {
        from
    }
}

/// Searches forward for the pair `first_target`, `second_target`, `times`
/// times.
pub fn sneak(
    map: &DisplaySnapshot,
    from: DisplayPoint,
    first_target: char,
    second_target: char,
    times: usize,
    smartcase: bool,
) -> (landed: Option<DisplayPoint>)
    requires
        map.wf(),
    ensures
        landed == sneak_at(map, from, first_target, second_target, times as nat, smartcase),
{
    let rule = Boundary::CharacterPair { first: first_target, second: second_target, smartcase };
    let ghost step = forward_pair_search(map, rule);
    let ghost goal = search_walk(step, from, false, times as nat);
    let mut to = from;
    let mut found = false;
    let mut rest = times;
    while rest > 0
        invariant
            map.wf(),
            step == forward_pair_search(map, rule),
            search_walk(step, to, found, rest as nat) == goal,
        decreases rest,
    {
        let next = find_boundary(map, right(map, to), FindRange::MultiLine, rule);
        found = next.1.fired;
        if to == next.0 {
            rest = 0;
        } else {
            to = next.0;
            rest -= 1;
        }
    }
    if found {
        Some(left(map, to))
    } else {
        None
    }
}

/// Searches backward for the pair `first_target`, `second_target`, `times`
/// times.
pub fn sneak_backward(
    map: &DisplaySnapshot,
    from: DisplayPoint,
    first_target: char,
    second_target: char,
    times: usize,
    smartcase: bool,
) -> (landed: Option<DisplayPoint>)
    requires
        map.wf(),
    ensures
        landed == sneak_backward_at(map, from, first_target, second_target, times as nat, smartcase),
{
    let rule = Boundary::CharacterPair { first: first_target, second: second_target, smartcase };
    let ghost step = backward_pair_search(map, rule);
    let ghost goal = search_walk(step, from, false, times as nat);
    let mut to = from;
    let mut found = false;
    let mut rest = times;
    while rest > 0
        invariant
            map.wf(),
            step == backward_pair_search(map, rule),
            search_walk(step, to, found, rest as nat) == goal,
        decreases rest,
    {
        let next = find_preceding_boundary_display_point(map, to, FindRange::MultiLine, rule);
        found = next.1;
        if to == next.0 {
            rest = 0;
        } else {
            to = next.0;
            rest -= 1;
        }
    }
    if found {
        Some(left(map, to))
    } else {
        None
    }
}

} // verus!

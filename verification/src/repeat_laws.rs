//! What holds of the motions that make the last search again.

use crate::display::{DisplayPoint, DisplaySnapshot};
use crate::find_laws::law_find_forward_again_moves;
use crate::laws::law_fallible_motion_moves;
use crate::memory::FindMemory;
use crate::motion::{count_of, repeated_find, Motion};
use crate::selection::SelectionGoal;
use crate::sneak_laws::{law_sneak_backward_moves, law_sneak_moves};
use crate::window::TextLayoutDetails;
use vstd::prelude::*;

verus! {

/// The motion is a search for a character, or for a pair of characters,
/// and looks for no line break.
pub open spec fn is_search(last: Motion) -> bool {
    match last {
        Motion::FindForward { char, .. } => char != '\n',
        Motion::FindBackward { char, .. } => char != '\n',
        Motion::Sneak { first_char, second_char, .. } => first_char != '\n' && second_char
            != '\n',
        Motion::SneakBackward { first_char, second_char, .. } => first_char != '\n'
            && second_char != '\n',
        _ => false,
    }
}

/// Repeating a search never leaves the cursor in its place: where the
/// nearest match is the one the cursor stands next to, the search goes on
/// to the match behind it, and where there is no further match the motion
/// fails.
pub proof fn law_repeated_find_moves(
    map: &DisplaySnapshot,
    p: DisplayPoint,
    last: Motion,
    times: nat,
    reversed: bool,
)
    requires
        map.wf(),
        is_search(last),
        times < usize::MAX,
    ensures
        repeated_find(map, p, last, times, reversed) != Some(p),
{
    match last {
        Motion::FindForward { before, char, mode, smartcase } => {
            law_find_forward_again_moves(map, p, before, char, times, mode, smartcase);
        },
        Motion::FindBackward { after, char, mode, smartcase } => {
            law_find_forward_again_moves(map, p, after, char, times, mode, smartcase);
        },
        Motion::Sneak { first_char, second_char, smartcase } => {
            law_sneak_moves(map, p, first_char, second_char, times, smartcase);
            law_sneak_backward_moves(map, p, first_char, second_char, times, smartcase);
        },
        Motion::SneakBackward { first_char, second_char, smartcase } => {
            law_sneak_moves(map, p, first_char, second_char, times, smartcase);
            law_sneak_backward_moves(map, p, first_char, second_char, times, smartcase);
        },
        _ => {},
    }
}

/// The motions that repeat a search either fail or move the cursor, the
/// same way round or the other, whatever the search and whatever the
/// count.
pub proof fn law_repeat_find_never_stays(
    motion: Motion,
    map: &DisplaySnapshot,
    point: DisplayPoint,
    goal: SelectionGoal,
    maybe_times: Option<usize>,
    layout: &TextLayoutDetails,
)
    requires
        motion is RepeatFind || motion is RepeatFindReversed,
    ensures
        motion.landing(map, point, goal, maybe_times, layout) != Some(point),
{
    law_fallible_motion_moves(motion, map, point, goal, maybe_times, layout);
}

/// Where the search repeated looks for no line break, the motions that
/// repeat it have the outcome of the search made again, none of it lost:
/// the search made again never comes back to the cursor.
pub proof fn law_repeat_find_is_the_search_again(
    motion: Motion,
    map: &DisplaySnapshot,
    point: DisplayPoint,
    goal: SelectionGoal,
    maybe_times: Option<usize>,
    layout: &TextLayoutDetails,
)
    requires
        map.wf(),
        maybe_times != Some(usize::MAX),
        (motion is RepeatFind && is_search(*motion->RepeatFind_last_find)) || (
        motion is RepeatFindReversed && is_search(*motion->RepeatFindReversed_last_find)),
    ensures
        motion.landing(map, point, goal, maybe_times, layout) == repeated_find(
            map,
            point,
            if motion is RepeatFind {
                *motion->RepeatFind_last_find
            } else {
                *motion->RepeatFindReversed_last_find
            },
            count_of(maybe_times),
            motion is RepeatFindReversed,
        ),
{
    let times = count_of(maybe_times);
    match motion {
        Motion::RepeatFind { last_find } => {
            law_repeated_find_moves(map, point, *last_find, times, false);
        },
        Motion::RepeatFindReversed { last_find } => {
            law_repeated_find_moves(map, point, *last_find, times, true);
        },
        _ => {},
    }
}

/// What a session remembers of a search, made again, never leaves the
/// cursor in its place.
pub proof fn law_remembered_find_never_stays(
    memory: FindMemory,
    reversed: bool,
    map: &DisplaySnapshot,
    point: DisplayPoint,
    goal: SelectionGoal,
    maybe_times: Option<usize>,
    layout: &TextLayoutDetails,
)
    requires
        memory.last_find is Some,
    ensures
        memory.repeated(reversed) is Some,
        memory.repeated(reversed)->0.landing(map, point, goal, maybe_times, layout) != Some(point),
{
    law_repeat_find_never_stays(
        memory.repeated(reversed)->0,
        map,
        point,
        goal,
        maybe_times,
        layout,
    );
}

} // verus!

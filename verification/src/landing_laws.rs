//! Every motion lands on a place of the display.

use crate::bracket::{
    closer_step, match_walk, matching_at, opener_step, unmatched_backward_at,
    unmatched_forward_at,
};
use crate::buffer::{Bias, Point};
use crate::display::{DisplayPoint, DisplaySnapshot};
use crate::document::{end_of_document_at, line_walk, parts, start_of_document_at};
use crate::find::{
    backward_pair_search, backward_search_step, find_backward_at, find_forward_at,
    forward_pair_search, forward_search, search_walk, sneak_at, sneak_backward_at,
};
use crate::horizontal::{
    at_display_end, at_first_column, at_origin, backspace_by, backspace_step, left_by, left_step,
    right_by, right_step, space_by, space_step,
};
use crate::line::{
    column_at, first_non_whitespace_at, last_non_whitespace_at, line_end_at, line_start_at,
    next_line_end_at, next_line_start_at, previous_line_start_at,
};
use crate::motion::{count_of, jumped, line_of, repeated_find, signed, Motion};
use crate::movement::{paragraph_end, paragraph_end_from, paragraph_start, paragraph_start_from};
use crate::repeat::{law_repeat_keeps, repeat_until};
use crate::scan::{Boundary, FindRange};
use crate::selection::SelectionGoal;
use crate::sentence::{
    sentence_backward_at, sentence_backward_from, sentence_forward_at, sentence_forward_from,
};
use crate::structure::{
    comment_motion_at, comment_step, excerpt_motion, method_motion_at, method_step,
    section_motion_at, section_step, Direction,
};
use crate::vertical::{buffer_rows_moved, down_by, up_by};
use crate::window::{window_bottom_at, window_middle_at, window_top_at, TextLayoutDetails};
use crate::word::{
    backward_step, forward_step, next_subword_end_at, next_word_end_at, previous_end_at,
    subword_end_step, word_end_step,
};
use vstd::prelude::*;

verus! {

/// The places of the display, as a property to be kept.
pub open spec fn places(map: &DisplaySnapshot) -> spec_fn(DisplayPoint) -> bool {
    |q: DisplayPoint| map.valid_display(q)
}

/// Clipping gives a place of the display, every point of the text is shown
/// at one, and the start and the end of the display are places.
pub proof fn lemma_places(map: &DisplaySnapshot)
    requires
        map.wf(),
    ensures
        forall|q: DisplayPoint, bias: Bias| map.valid_display(#[trigger] map.cursor_clipped(q, bias)),
        forall|q: DisplayPoint, bias: Bias|
            map.valid_display(#[trigger] map.display_clipped(q, bias)),
        forall|q: DisplayPoint|
            map.valid_display(q) ==> map.valid_display(#[trigger] map.line_end_clipped(q)),
        forall|pt: Point| map.valid_display(#[trigger] map.to_display(pt)),
        map.valid_display(map.max_display_point()),
        map.valid_display(DisplayPoint { row: 0, column: 0 }),
{
    assert forall|q: DisplayPoint, bias: Bias| map.valid_display(
        #[trigger] map.display_clipped(q, bias),
    ) by {
        map.lemma_display_clipped(q, bias);
    }
    assert forall|q: DisplayPoint| map.valid_display(q) implies map.valid_display(
        #[trigger] map.line_end_clipped(q),
    ) by {
        let back = DisplayPoint {
            row: q.row,
            column: if q.column > 0 {
                (q.column - 1) as usize
            } else {
                0
            },
        };
        map.lemma_display_clipped(back, Bias::Left);
    }
    assert forall|q: DisplayPoint, bias: Bias| map.valid_display(
        #[trigger] map.cursor_clipped(q, bias),
    ) by {
        map.lemma_display_clipped(q, bias);
        assert(map.valid_display(map.line_end_clipped(map.display_clipped(q, bias))));
    }
    assert forall|pt: Point| map.valid_display(#[trigger] map.to_display(pt)) by {
        map.lemma_to_display(pt);
    }
    map.lemma_row(map.max_display_row());
    map.lemma_row(0);
}

/// What holds at the start and is kept by every step holds where the
/// repetitions end, also where they end early.
pub proof fn lemma_repeat_until_keeps<T>(
    step: spec_fn(T) -> T,
    done: spec_fn(T) -> bool,
    kept: spec_fn(T) -> bool,
    p: T,
    n: nat,
)
    requires
        kept(p),
        forall|q: T| kept(q) ==> kept(#[trigger] step(q)),
    ensures
        kept(repeat_until(step, done, p, n)),
    decreases n,
{
    if n > 0 && !done(step(p)) {
        lemma_repeat_until_keeps(step, done, kept, step(p), (n - 1) as nat);
    }
}

/// The motions along a line land on places of the display.
pub proof fn lemma_horizontal_lands(map: &DisplaySnapshot, p: DisplayPoint, times: nat)
    requires
        map.wf(),
        map.valid_display(p),
    ensures
        map.valid_display(left_by(map, p, times)),
        map.valid_display(backspace_by(map, p, times)),
        map.valid_display(space_by(map, p, times)),
        map.valid_display(right_by(map, p, times)),
{
    lemma_places(map);
    let kept = places(map);
    assert forall|q: DisplayPoint| kept(q) implies kept(#[trigger] left_step(map)(q)) by {}
    lemma_repeat_until_keeps(left_step(map), at_first_column(), kept, p, times);
    assert forall|q: DisplayPoint| kept(q) implies kept(#[trigger] backspace_step(map)(q)) by {}
    lemma_repeat_until_keeps(backspace_step(map), at_origin(), kept, p, times);
    assert forall|q: DisplayPoint| kept(q) implies kept(#[trigger] space_step(map)(q)) by {
        map.lemma_row(q.row as int);
        if q.row < map.max_display_row() {
            map.lemma_row(q.row + 1);
        }
    }
    lemma_repeat_until_keeps(space_step(map), at_display_end(map), kept, p, times);
    assert forall|q: DisplayPoint| kept(q) implies kept(#[trigger] right_step(map)(q)) by {}
    law_repeat_keeps(right_step(map), kept, p, times);
}

/// The motions by display rows land on places of the display.
pub proof fn lemma_rows_land(map: &DisplaySnapshot, p: DisplayPoint, goal: SelectionGoal, times: nat)
    requires
        map.wf(),
        map.valid_display(p),
    ensures
        map.valid_display(down_by(map, p, goal, times).0),
        map.valid_display(up_by(map, p, goal, times).0),
    decreases times,
{
    lemma_places(map);
    if times > 0 {
        let below = crate::movement::down_of(map, p, goal);
        let above = crate::movement::up_of(map, p, goal);
        lemma_rows_land_down(map, below.0, below.1, (times - 1) as nat);
        lemma_rows_land_up(map, above.0, above.1, (times - 1) as nat);
    }
}

proof fn lemma_rows_land_down(map: &DisplaySnapshot, p: DisplayPoint, goal: SelectionGoal, times: nat)
    requires
        map.wf(),
        map.valid_display(p),
    ensures
        map.valid_display(down_by(map, p, goal, times).0),
    decreases times,
{
    lemma_places(map);
    if times > 0 {
        let below = crate::movement::down_of(map, p, goal);
        lemma_rows_land_down(map, below.0, below.1, (times - 1) as nat);
    }
}

proof fn lemma_rows_land_up(map: &DisplaySnapshot, p: DisplayPoint, goal: SelectionGoal, times: nat)
    requires
        map.wf(),
        map.valid_display(p),
    ensures
        map.valid_display(up_by(map, p, goal, times).0),
    decreases times,
{
    lemma_places(map);
    if times > 0 {
        let above = crate::movement::up_of(map, p, goal);
        lemma_rows_land_up(map, above.0, above.1, (times - 1) as nat);
    }
}

/// Clipping a cursor gives a place of the display.
pub proof fn lemma_clip_places(map: &DisplaySnapshot)
    requires
        map.wf(),
    ensures
        forall|q: DisplayPoint, bias: Bias| map.valid_display(#[trigger] map.cursor_clipped(q, bias)),
{
    lemma_places(map);
}

/// The motions to the end of a word land on places of the display.
pub proof fn lemma_word_ends_land(
    map: &DisplaySnapshot,
    p: DisplayPoint,
    ignore_punctuation: bool,
    times: nat,
)
    requires
        map.wf(),
        map.valid_display(p),
    ensures
        map.valid_display(next_word_end_at(map, p, ignore_punctuation, times, true)),
{
    lemma_clip_places(map);
    let kept = places(map);
    let end = word_end_step(map, ignore_punctuation, true);
    assert forall|q: DisplayPoint| kept(q) implies kept(#[trigger] end(q)) by {
        assert(end(q) == crate::word::word_end_after(map, q, ignore_punctuation, true));
    }
    law_repeat_keeps(end, kept, p, times);
}

/// The motions to the end of a part of a word land on places of the
/// display.
pub proof fn lemma_subword_ends_land(
    map: &DisplaySnapshot,
    p: DisplayPoint,
    ignore_punctuation: bool,
    times: nat,
)
    requires
        map.wf(),
        map.valid_display(p),
    ensures
        map.valid_display(next_subword_end_at(map, p, ignore_punctuation, times, true)),
{
    lemma_clip_places(map);
    let kept = places(map);
    let end = subword_end_step(map, ignore_punctuation, true);
    assert forall|q: DisplayPoint| kept(q) implies kept(#[trigger] end(q)) by {
        assert(end(q) == crate::word::subword_end_after(map, q, ignore_punctuation, true));
    }
    law_repeat_keeps(end, kept, p, times);
}

/// The motions to the end of the word before land on places of the
/// display.
pub proof fn lemma_previous_ends_land(map: &DisplaySnapshot, p: DisplayPoint, rule: Boundary, times: nat)
    requires
        map.wf(),
    ensures
        map.valid_display(previous_end_at(map, p, rule, times)),
{
    lemma_clip_places(map);
}

/// Repeated scans to a boundary land on places of the display.
pub proof fn lemma_scans_land(map: &DisplaySnapshot, p: DisplayPoint, rule: Boundary, times: nat)
    requires
        map.wf(),
        map.valid_display(p),
    ensures
        map.valid_display(crate::repeat::repeat_while_moving(forward_step(map, rule), p, times)),
        map.valid_display(crate::repeat::repeat_while_moving(backward_step(map, rule), p, times)),
{
    lemma_clip_places(map);
    let kept = places(map);
    let forward = forward_step(map, rule);
    assert forall|q: DisplayPoint| kept(q) implies kept(#[trigger] forward(q)) by {}
    law_repeat_keeps(forward, kept, p, times);
    let backward = backward_step(map, rule);
    assert forall|q: DisplayPoint| kept(q) implies kept(#[trigger] backward(q)) by {}
    law_repeat_keeps(backward, kept, p, times);
}

/// The motions to places of a line land on places of the display.
pub proof fn lemma_lines_land(
    map: &DisplaySnapshot,
    p: DisplayPoint,
    display_lines: bool,
    times: nat,
)
    requires
        map.wf(),
        map.valid_display(p),
    ensures
        map.valid_display(line_start_at(map, display_lines, p)),
        map.valid_display(line_end_at(map, display_lines, p, times)),
        map.valid_display(first_non_whitespace_at(map, display_lines, p)),
        map.valid_display(last_non_whitespace_at(map, p, times)),
        map.valid_display(next_line_start_at(map, p, times)),
        map.valid_display(previous_line_start_at(map, p, times)),
        map.valid_display(next_line_end_at(map, p, times)),
        map.valid_display(column_at(map, p, times)),
{
    lemma_places(map);
    let base = crate::vertical::relative_row_start(map, p, 0);
    let steps = if times > 0 {
        (times - 1) as nat
    } else {
        0
    };
    lemma_horizontal_lands(map, base, steps);
}

/// The walk backward by sentences ends on a place of the display.
pub proof fn lemma_sentence_backward_lands(
    map: &DisplaySnapshot,
    at: int,
    start: int,
    was_newline: bool,
    times: int,
)
    requires
        map.wf(),
    ensures
        map.valid_display(sentence_backward_from(map, at, start, was_newline, times)),
    decreases at,
{
    lemma_places(map);
    let text = map.text().chars();
    if !(at <= 0 || at > text.len()) {
        let offset = at - 1;
        let seen = crate::sentence::start_seen_backward(text, offset, was_newline);
        let left = if seen is Some && seen->0 < start {
            crate::sentence::one_less(times)
        } else {
            times
        };
        lemma_sentence_backward_lands(
            map,
            offset,
            if was_newline {
                offset
            } else {
                start
            },
            text[offset] == '\n',
            left,
        );
    }
}

/// The walk forward by sentences ends on a place of the display.
pub proof fn lemma_sentence_forward_lands(
    map: &DisplaySnapshot,
    at: int,
    was_newline: bool,
    times: int,
)
    requires
        map.wf(),
    ensures
        map.valid_display(sentence_forward_from(map, at, was_newline, times)),
    decreases map.text().chars().len() - at,
{
    lemma_places(map);
    let text = map.text().chars();
    if !(at < 0 || at >= text.len()) {
        if was_newline && text[at] == '\n' {
            lemma_sentence_forward_lands(map, at + 1, was_newline, times);
        } else {
            let seen = crate::sentence::start_seen_forward(text, at, was_newline);
            let left = if seen is Some {
                crate::sentence::one_less(times)
            } else {
                times
            };
            lemma_sentence_forward_lands(
                map,
                at + 1,
                text[at] == '\n' && crate::sentence::break_at(text, at + 1),
                left,
            );
        }
    }
}

/// The walk up the lines ends on a place of the display.
pub proof fn lemma_paragraph_start_lands(map: &DisplaySnapshot, row: int, seen: bool, count: int)
    requires
        map.wf(),
    ensures
        map.valid_display(paragraph_start_from(map, row, seen, count)),
    decreases row + 1,
{
    lemma_places(map);
    if row >= 0 {
        let blank = crate::movement::line_blank(map.text(), row);
        if seen && blank {
            if count > 1 {
                lemma_paragraph_start_lands(map, row - 1, false, count - 1);
            }
        } else {
            lemma_paragraph_start_lands(map, row - 1, seen || !blank, count);
        }
    }
}

/// The walk down the lines ends on a place of the display.
pub proof fn lemma_paragraph_end_lands(map: &DisplaySnapshot, row: int, seen: bool, count: int)
    requires
        map.wf(),
    ensures
        map.valid_display(paragraph_end_from(map, row, seen, count)),
    decreases map.text().line_count() - row,
{
    lemma_places(map);
    if row < map.text().line_count() {
        let blank = crate::movement::line_blank(map.text(), row);
        if seen && blank {
            if count > 1 {
                lemma_paragraph_end_lands(map, row + 1, false, count - 1);
            }
        } else {
            lemma_paragraph_end_lands(map, row + 1, seen || !blank, count);
        }
    }
}

/// The motions by sentences and by paragraphs land on places of the
/// display.
pub proof fn lemma_prose_lands(map: &DisplaySnapshot, p: DisplayPoint, times: nat)
    requires
        map.wf(),
    ensures
        map.valid_display(sentence_backward_at(map, p, times)),
        map.valid_display(sentence_forward_at(map, p, times)),
        map.valid_display(paragraph_start(map, p, times as int)),
        map.valid_display(map.line_end_clipped(paragraph_end(map, p, times as int))),
{
    lemma_places(map);
    let start = map.to_offset(p, Bias::Left);
    let text = map.text().chars();
    lemma_sentence_backward_lands(
        map,
        start,
        start,
        crate::sentence::break_at(text, start),
        times as int,
    );
    lemma_sentence_forward_lands(
        map,
        start,
        crate::sentence::break_at(text, start - 1) && crate::sentence::break_at(text, start),
        times as int,
    );
    let row = map.to_point(p, Bias::Left).row;
    lemma_paragraph_start_lands(map, row as int, false, times as int);
    lemma_paragraph_end_lands(map, row as int, false, times as int);
}

/// The search for a line through the excerpts ends on a place of the
/// display.
pub proof fn lemma_line_walk_lands(
    map: &DisplaySnapshot,
    i: int,
    last: Option<crate::syntax::Excerpt>,
    line: int,
    column: usize,
    from: DisplayPoint,
)
    requires
        map.wf(),
        map.valid_display(from),
    ensures
        map.valid_display(line_walk(map, i, last, line, column, from)),
    decreases parts(map.text()).len() - i,
{
    lemma_places(map);
    let list = parts(map.text());
    if 0 <= i < list.len() {
        lemma_line_walk_lands(map, i + 1, Some(list[i]), line, column, from);
    }
}

/// The motions to the start and the end of the text, and to a line, land
/// on places of the display.
pub proof fn lemma_document_lands(map: &DisplaySnapshot, p: DisplayPoint, times: Option<usize>)
    requires
        map.wf(),
        map.valid_display(p),
    ensures
        map.valid_display(start_of_document_at(map, p, times)),
        map.valid_display(end_of_document_at(map, p, times)),
{
    lemma_places(map);
    if times is Some {
        let line = times->0 as nat;
        let target = if line > 0 {
            line - 1
        } else {
            0
        };
        let point = map.to_point(p, Bias::Left);
        lemma_line_walk_lands(map, 0, None, target, point.column, p);
    }
}

/// The walk of `matching` over the bracket pairs ends on a place of the
/// display.
pub proof fn lemma_match_walk_lands(
    map: &DisplaySnapshot,
    head: DisplayPoint,
    i: int,
    dest: Option<int>,
    closest: int,
)
    requires
        map.wf(),
        map.valid_display(head),
    ensures
        map.valid_display(match_walk(map, head, i, dest, closest)),
    decreases map.text().bracket_pairs().len() - i,
{
    lemma_places(map);
    let pairs = map.text().bracket_pairs();
    if 0 <= i < pairs.len() {
        let pair = pairs[i];
        let o = map.to_offset(head, Bias::Left);
        lemma_match_walk_lands(map, head, i + 1, dest, closest);
        lemma_match_walk_lands(
            map,
            head,
            i + 1,
            Some(pair.close_start as int),
            crate::bracket::distance(pair.open_start as int, o),
        );
        lemma_match_walk_lands(
            map,
            head,
            i + 1,
            Some(pair.open_start as int),
            crate::bracket::distance(pair.close_start as int, o),
        );
    }
}

/// The motions between brackets land on places of the display.
pub proof fn lemma_brackets_land(map: &DisplaySnapshot, p: DisplayPoint, c: char, times: nat)
    requires
        map.wf(),
        map.valid_display(p),
    ensures
        map.valid_display(matching_at(map, p)),
        map.valid_display(unmatched_forward_at(map, p, c, times)),
        map.valid_display(unmatched_backward_at(map, p, c, times)),
{
    lemma_places(map);
    lemma_match_walk_lands(map, map.line_end_clipped(p), 0, None, usize::MAX as int);
    let kept = places(map);
    let closer = closer_step(map, c);
    assert forall|q: DisplayPoint| kept(q) implies kept(#[trigger] closer(q)) by {}
    law_repeat_keeps(closer, kept, p, times);
    let opener = opener_step(map, c);
    assert forall|q: DisplayPoint| kept(q) implies kept(#[trigger] opener(q)) by {}
    law_repeat_keeps(opener, kept, p, times);
}

/// Repeated searches end on a place of the display, if every search gives
/// one.
pub proof fn lemma_search_walk_lands(
    map: &DisplaySnapshot,
    step: spec_fn(DisplayPoint) -> (DisplayPoint, bool),
    to: DisplayPoint,
    found: bool,
    times: nat,
)
    requires
        map.valid_display(to),
        forall|q: DisplayPoint| map.valid_display((#[trigger] step(q)).0),
    ensures
        map.valid_display(search_walk(step, to, found, times).0),
    decreases times,
{
    if times > 0 {
        let next = step(to);
        if next.0 != to {
            lemma_search_walk_lands(map, step, next.0, next.1, (times - 1) as nat);
        }
    }
}

/// The searches for a character and for a pair land on places of the
/// display.
pub proof fn lemma_searches_land(
    map: &DisplaySnapshot,
    p: DisplayPoint,
    flag: bool,
    first: char,
    second: char,
    times: nat,
    mode: FindRange,
    smartcase: bool,
)
    requires
        map.wf(),
        map.valid_display(p),
    ensures
        find_forward_at(map, p, flag, first, times, mode, smartcase) is Some ==> map.valid_display(
            find_forward_at(map, p, flag, first, times, mode, smartcase)->0,
        ),
        map.valid_display(find_backward_at(map, p, flag, first, times, mode, smartcase)),
        sneak_at(map, p, first, second, times, smartcase) is Some ==> map.valid_display(
            sneak_at(map, p, first, second, times, smartcase)->0,
        ),
        sneak_backward_at(map, p, first, second, times, smartcase) is Some ==> map.valid_display(
            sneak_backward_at(map, p, first, second, times, smartcase)->0,
        ),
{
    lemma_clip_places(map);
    let kept = places(map);
    let one = Boundary::Character { target: first, smartcase };
    let two = Boundary::CharacterPair { first, second, smartcase };
    let forward = forward_search(map, mode, one);
    assert forall|q: DisplayPoint| map.valid_display((#[trigger] forward(q)).0) by {}
    lemma_search_walk_lands(map, forward, p, false, times);
    let backward = backward_search_step(map, mode, one);
    assert forall|q: DisplayPoint| kept(q) implies kept(#[trigger] backward(q)) by {}
    law_repeat_keeps(backward, kept, p, times);
    let pair = forward_pair_search(map, two);
    assert forall|q: DisplayPoint| map.valid_display((#[trigger] pair(q)).0) by {}
    lemma_search_walk_lands(map, pair, p, false, times);
    let pair_back = backward_pair_search(map, two);
    assert forall|q: DisplayPoint| map.valid_display((#[trigger] pair_back(q)).0) by {}
    lemma_search_walk_lands(map, pair_back, p, false, times);
}

/// The motions that repeat a search land on places of the display.
pub proof fn lemma_repeats_land(
    map: &DisplaySnapshot,
    p: DisplayPoint,
    last: Motion,
    times: nat,
    reversed: bool,
)
    requires
        map.wf(),
        map.valid_display(p),
    ensures
        repeated_find(map, p, last, times, reversed) is Some ==> map.valid_display(
            repeated_find(map, p, last, times, reversed)->0,
        ),
{
    let more = crate::motion::one_more(times);
    match last {
        Motion::FindForward { before, char, mode, smartcase } => {
            lemma_searches_land(map, p, before, char, char, times, mode, smartcase);
            lemma_searches_land(map, p, before, char, char, more, mode, smartcase);
        },
        Motion::FindBackward { after, char, mode, smartcase } => {
            lemma_searches_land(map, p, after, char, char, times, mode, smartcase);
            lemma_searches_land(map, p, after, char, char, more, mode, smartcase);
        },
        Motion::Sneak { first_char, second_char, smartcase } => {
            lemma_searches_land(
                map,
                p,
                false,
                first_char,
                second_char,
                times,
                FindRange::MultiLine,
                smartcase,
            );
            lemma_searches_land(
                map,
                p,
                false,
                first_char,
                second_char,
                more,
                FindRange::MultiLine,
                smartcase,
            );
        },
        Motion::SneakBackward { first_char, second_char, smartcase } => {
            lemma_searches_land(
                map,
                p,
                false,
                first_char,
                second_char,
                times,
                FindRange::MultiLine,
                smartcase,
            );
            lemma_searches_land(
                map,
                p,
                false,
                first_char,
                second_char,
                more,
                FindRange::MultiLine,
                smartcase,
            );
        },
        _ => {},
    }
}

/// A motion by excerpts lands on a place of the display.
pub proof fn lemma_excerpts_land(
    map: &DisplaySnapshot,
    p: DisplayPoint,
    times: nat,
    direction: Direction,
    is_start: bool,
)
    requires
        map.wf(),
        map.valid_display(p),
    ensures
        map.valid_display(excerpt_motion(map, p, times, direction, is_start)),
    decreases times,
{
    if times > 0 {
        let next = crate::structure::excerpt_edge_after(map, p, direction, is_start);
        if next is Some && next->0 != p {
            lemma_places(map);
            assert forall|e: crate::syntax::Excerpt| map.valid_display(
                DisplayPoint { row: (#[trigger] crate::structure::excerpt_end(map, e)).row, column: 0 },
            ) by {
                map.lemma_row(crate::structure::excerpt_end(map, e).row as int);
            }
            lemma_excerpts_land(map, next->0, (times - 1) as nat, direction, is_start);
        }
    }
}

/// The motions to structural objects land on places of the display.
pub proof fn lemma_structure_lands(
    map: &DisplaySnapshot,
    p: DisplayPoint,
    times: nat,
    direction: Direction,
    is_start: bool,
)
    requires
        map.wf(),
        map.valid_display(p),
    ensures
        map.valid_display(section_motion_at(map, p, times, direction, is_start)),
        map.valid_display(method_motion_at(map, p, times, direction, is_start)),
        map.valid_display(comment_motion_at(map, p, times, direction)),
{
    lemma_clip_places(map);
    let kept = places(map);
    let section = section_step(map, direction, is_start);
    assert forall|q: DisplayPoint| kept(q) implies kept(#[trigger] section(q)) by {}
    law_repeat_keeps(section, kept, p, times);
    lemma_excerpts_land(map, p, times, direction, is_start);
    let method = method_step(map, direction, is_start);
    assert forall|q: DisplayPoint| kept(q) implies kept(#[trigger] method(q)) by {}
    law_repeat_keeps(method, kept, p, times);
    let comment = comment_step(map, direction);
    assert forall|q: DisplayPoint| kept(q) implies kept(#[trigger] comment(q)) by {}
    law_repeat_keeps(comment, kept, p, times);
}

/// The motions by buffer lines and to rows of the window land on places of
/// the display.
pub proof fn lemma_window_lands(
    map: &DisplaySnapshot,
    p: DisplayPoint,
    goal: SelectionGoal,
    layout: &TextLayoutDetails,
    times: nat,
    lines: int,
)
    requires
        map.wf(),
        map.valid_display(p),
    ensures
        map.valid_display(buffer_rows_moved(map, p, goal, lines).0),
        map.valid_display(window_top_at(map, p, layout, times).0),
        map.valid_display(window_middle_at(map, p, layout).0),
        map.valid_display(window_bottom_at(map, p, layout, times).0),
        forall|anchor: Point, line: bool| map.valid_display(#[trigger] jumped(map, anchor, line)),
{
    lemma_places(map);
    assert forall|anchor: Point, line: bool| map.valid_display(
        #[trigger] jumped(map, anchor, line),
    ) by {
        lemma_lines_land(map, map.to_display(anchor), false, 1);
    }
}

/// Every motion lands on a place of the display: where a motion made from
/// a place of the display has an outcome, the outcome is a place of the
/// display, whatever the motion, the count and the window.
pub proof fn law_motion_lands_on_display(
    motion: Motion,
    map: &DisplaySnapshot,
    point: DisplayPoint,
    goal: SelectionGoal,
    maybe_times: Option<usize>,
    layout: &TextLayoutDetails,
)
    requires
        map.wf(),
        map.valid_display(point),
    ensures
        motion.landing(map, point, goal, maybe_times, layout) is Some ==> map.valid_display(
            motion.landing(map, point, goal, maybe_times, layout)->0,
        ),
{
    let times = count_of(maybe_times);
    match motion {
        Motion::Left | Motion::Backspace | Motion::Right | Motion::Space => {
            lemma_horizontal_lands(map, point, times);
        },
        Motion::Down { .. } => {
            lemma_rows_land(map, point, goal, times);
            lemma_window_lands(map, point, goal, layout, times, signed(times));
        },
        Motion::Up { .. } => {
            lemma_rows_land(map, point, goal, times);
            lemma_window_lands(map, point, goal, layout, times, -signed(times));
        },
        Motion::NextWordStart { ignore_punctuation } => {
            lemma_scans_land(map, point, Boundary::WordStart { ignore_punctuation }, times);
        },
        Motion::NextWordEnd { ignore_punctuation } => {
            lemma_word_ends_land(map, point, ignore_punctuation, times);
        },
        Motion::PreviousWordStart { ignore_punctuation } => {
            lemma_scans_land(map, point, Boundary::WordStartBackward { ignore_punctuation }, times);
        },
        Motion::PreviousWordEnd { ignore_punctuation } => {
            lemma_previous_ends_land(
                map,
                point,
                Boundary::WordEndBackward { ignore_punctuation },
                times,
            );
        },
        Motion::NextSubwordStart { ignore_punctuation } => {
            lemma_scans_land(map, point, Boundary::SubwordStart { ignore_punctuation }, times);
        },
        Motion::NextSubwordEnd { ignore_punctuation } => {
            lemma_subword_ends_land(map, point, ignore_punctuation, times);
        },
        Motion::PreviousSubwordStart { ignore_punctuation } => {
            lemma_scans_land(map, point, Boundary::SubwordStart { ignore_punctuation }, times);
        },
        Motion::PreviousSubwordEnd { ignore_punctuation } => {
            lemma_previous_ends_land(
                map,
                point,
                Boundary::SubwordEndBackward { ignore_punctuation },
                times,
            );
        },
        Motion::FirstNonWhitespace { display_lines } => {
            lemma_lines_land(map, point, display_lines, times);
        },
        Motion::StartOfLine { display_lines } => {
            lemma_lines_land(map, point, display_lines, times);
        },
        Motion::EndOfLine { display_lines } => {
            lemma_lines_land(map, point, display_lines, times);
        },
        Motion::CurrentLine | Motion::NextLineStart | Motion::PreviousLineStart
        | Motion::EndOfLineDownward | Motion::GoToColumn => {
            lemma_lines_land(map, point, false, times);
        },
        Motion::StartOfLineDownward => {
            lemma_lines_land(map, point, false, (times - 1) as nat);
        },
        Motion::SentenceBackward | Motion::SentenceForward | Motion::StartOfParagraph
        | Motion::EndOfParagraph => {
            lemma_prose_lands(map, point, times);
        },
        Motion::StartOfDocument | Motion::EndOfDocument => {
            lemma_document_lands(map, point, line_of(maybe_times));
        },
        Motion::Matching => {
            lemma_brackets_land(map, point, ' ', times);
        },
        Motion::UnmatchedForward { char } => {
            lemma_brackets_land(map, point, char, times);
        },
        Motion::UnmatchedBackward { char } => {
            lemma_brackets_land(map, point, char, times);
        },
        Motion::FindForward { before, char, mode, smartcase } => {
            lemma_searches_land(map, point, before, char, char, times, mode, smartcase);
        },
        Motion::FindBackward { after, char, mode, smartcase } => {
            lemma_searches_land(map, point, after, char, char, times, mode, smartcase);
        },
        Motion::Sneak { first_char, second_char, smartcase } => {
            lemma_searches_land(
                map,
                point,
                false,
                first_char,
                second_char,
                times,
                FindRange::MultiLine,
                smartcase,
            );
        },
        Motion::SneakBackward { first_char, second_char, smartcase } => {
            lemma_searches_land(
                map,
                point,
                false,
                first_char,
                second_char,
                times,
                FindRange::MultiLine,
                smartcase,
            );
        },
        Motion::RepeatFind { last_find } => {
            lemma_repeats_land(map, point, *last_find, times, false);
        },
        Motion::RepeatFindReversed { last_find } => {
            lemma_repeats_land(map, point, *last_find, times, true);
        },
        Motion::WindowTop | Motion::WindowBottom => {
            lemma_window_lands(map, point, goal, layout, (times - 1) as nat, 0);
        },
        Motion::WindowMiddle => {
            lemma_window_lands(map, point, goal, layout, times, 0);
        },
        Motion::Jump { .. } => {
            lemma_window_lands(map, point, goal, layout, times, 0);
        },
        Motion::ZedSearchResult { .. } => {
            lemma_places(map);
        },
        Motion::NextSectionStart | Motion::NextMethodStart => {
            lemma_structure_lands(map, point, times, Direction::Next, true);
        },
        Motion::NextSectionEnd | Motion::NextMethodEnd => {
            lemma_structure_lands(map, point, times, Direction::Next, false);
        },
        Motion::PreviousSectionStart | Motion::PreviousMethodStart => {
            lemma_structure_lands(map, point, times, Direction::Prev, true);
        },
        Motion::PreviousSectionEnd | Motion::PreviousMethodEnd => {
            lemma_structure_lands(map, point, times, Direction::Prev, false);
        },
        Motion::NextComment => {
            lemma_structure_lands(map, point, times, Direction::Next, false);
        },
        Motion::PreviousComment => {
            lemma_structure_lands(map, point, times, Direction::Prev, true);
        },
    }
}

} // verus!

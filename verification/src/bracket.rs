//! Motions between brackets and between the tags of markup elements.

use crate::buffer::{Bias, Buffer, Point};
use crate::display::{DisplayPoint, DisplaySnapshot};
use crate::repeat::repeat_while_moving;
use crate::selection::{display_before, precedes};
use crate::syntax::BracketPair;
use vstd::prelude::*;

verus! {

/// The innermost of the elements `tags[from..]` that surround offset `o`,
/// if `best` is the innermost of those before: the one that opens last.
pub open spec fn innermost_from(
    tags: Seq<BracketPair>,
    o: int,
    from: int,
    best: Option<BracketPair>,
) -> Option<BracketPair>
    decreases tags.len() - from,
{
    if from < 0 || from >= tags.len() {
        best
    } else {
        let tag = tags[from];
        let better = tag.encloses(o) && (best is None || best->0.open_start < tag.open_start);
        innermost_from(
            tags,
            o,
            from + 1,
            if better {
                Some(tag)
            } else {
                best
            },
        )
    }
}

/// The innermost markup element that surrounds offset `o`.
pub open spec fn innermost_tag(buffer: &Buffer, o: int) -> Option<BracketPair> {
    innermost_from(buffer.tag_pairs(), o, 0, None)
}

/// The first offset from `at` on that holds `/`, `>` or a line break.
pub open spec fn closing_mark_from(text: Seq<char>, at: int) -> Option<int>
    decreases text.len() - at,
{
    if at < 0 || at >= text.len() {
        None
    } else if text[at] == '/' || text[at] == '\n' || text[at] == '>' {
        Some(at)
    } else {
        closing_mark_from(text, at + 1)
    }
}

/// The offset behind the first `<` or line break from `at` on.
pub open spec fn opening_mark_from(text: Seq<char>, at: int) -> Option<int>
    decreases text.len() - at,
{
    if at < 0 || at >= text.len() {
        None
    } else if text[at] == '<' || text[at] == '\n' {
        Some(at + 1)
    } else {
        opening_mark_from(text, at + 1)
    }
}

/// A display point for an offset, where there is one.
pub open spec fn shown(map: &DisplaySnapshot, o: Option<int>) -> Option<DisplayPoint> {
    match o {
        Some(o) => Some(map.offset_to_display(o)),
        None => None,
    }
}

/// The tag that matches the one around `head`. From inside the opening tag
/// of the innermost element around `head` this is the `/` of its closing
/// tag; from anywhere else in the element, the name in its opening tag.
pub open spec fn matching_tag_at(map: &DisplaySnapshot, head: DisplayPoint) -> Option<DisplayPoint> {
    let o = map.to_offset(head, Bias::Left);
    match innermost_tag(map.text(), o) {
        None => None,
        Some(tag) => {
            let text = map.text().chars();
            let outer_start = map.offset_to_display(tag.open_start as int);
            let inner_start = map.offset_to_display(tag.open_end as int);
            if display_before(outer_start, head) && display_before(head, inner_start) {
                shown(map, closing_mark_from(text, tag.close_start as int))
            } else {
                shown(map, opening_mark_from(text, tag.open_start as int))
            }
        },
    }
}

/// The stretch of the text in which `matching` looks for brackets: the
/// buffer line of the cursor, or everything from the start of that line to
/// the end of the text where the cursor stands at the end of its line. The
/// answer holds the stretch as offsets, and the last place in it that is
/// looked at.
pub open spec fn match_stretch(map: &DisplaySnapshot, head: DisplayPoint) -> (int, int, int) {
    let point = map.to_point(head, Bias::Left);
    let line_end = map.line_end_of(point).0;
    let end = if line_end == point {
        map.to_point(map.max_display_point(), Bias::Left)
    } else {
        line_end
    };
    let start = map.line_start_of(point).0;
    let visible_end = Point {
        row: end.row,
        column: if end.column > 0 {
            (end.column - 1) as usize
        } else {
            0
        },
    };
    (
        map.text().offset_of(start),
        map.text().offset_of(end),
        map.text().offset_of(visible_end),
    )
}

/// `a - b`, or 0 where `b` is the larger.
pub open spec fn distance(a: int, b: int) -> int {
    if a >= b {
        a - b
    } else {
        0
    }
}

/// Where a pair that opens with `<` sends the cursor at offset `o` at once:
/// from inside a self-closing tag nowhere, from inside an element to its
/// matching tag, from the closing delimiter to the opening one, and from
/// the opening delimiter to the end of the closing one. `None` where the
/// pair decides nothing.
pub open spec fn tag_jump(
    map: &DisplaySnapshot,
    pair: BracketPair,
    o: int,
    head: DisplayPoint,
) -> Option<DisplayPoint> {
    let buffer = map.text();
    if buffer.char_at(pair.open_start as int) != Some('<') {
        None
    } else if pair.open_start < o < pair.close_start {
        if buffer.char_at(pair.close_start as int) == Some('/') && buffer.char_at(
            pair.close_start + 1,
        ) == Some('>') {
            Some(head)
        } else {
            matching_tag_at(map, head)
        }
    } else if pair.in_close(o) {
        Some(map.offset_to_display(pair.open_start as int))
    } else if pair.in_open(o) {
        Some(map.offset_to_display(distance(pair.close_end as int, 1)))
    } else {
        None
    }
}

/// The opening delimiter of `pair` is under the cursor at `o` or behind it,
/// in the stretch from `low` up to `high`.
pub open spec fn opens_ahead(pair: BracketPair, o: int, low: int, high: int) -> bool {
    (pair.in_open(o) || pair.open_start >= o) && low <= pair.open_start < high
}

/// The closing delimiter of `pair` is under the cursor at `o` or behind it,
/// in the stretch from `low` up to `high`.
pub open spec fn closes_ahead(pair: BracketPair, o: int, low: int, high: int) -> bool {
    (pair.in_close(o) || pair.close_start >= o) && low <= pair.close_start < high
}

/// The walk of `matching` over the bracket pairs from number `i` on, with
/// `dest` the best destination so far and `closest` its distance from the
/// cursor. A pair that opens with `<` may send the cursor off at once.
/// Otherwise a delimiter under or behind the cursor that is nearer than
/// any before it makes its partner the destination.
pub open spec fn match_walk(
    map: &DisplaySnapshot,
    head: DisplayPoint,
    i: int,
    dest: Option<int>,
    closest: int,
) -> DisplayPoint
    decreases map.text().bracket_pairs().len() - i,
{
    let pairs = map.text().bracket_pairs();
    let o = map.to_offset(head, Bias::Left);
    let (low, high, last) = match_stretch(map, head);
    if i < 0 || i >= pairs.len() {
        match dest {
            Some(d) => map.offset_to_display(d),
            None => head,
        }
    } else {
        let pair = pairs[i];
        let asked_high = if last + 1 < map.text().chars().len() {
            last + 1
        } else {
            map.text().chars().len() as int
        };
        if !pair.near(distance(low, 1), asked_high) {
            match_walk(map, head, i + 1, dest, closest)
        } else if tag_jump(map, pair, o, head) is Some {
            tag_jump(map, pair, o, head)->0
        } else if opens_ahead(pair, o, low, high) && distance(pair.open_start as int, o) < closest {
            match_walk(
                map,
                head,
                i + 1,
                Some(pair.close_start as int),
                distance(pair.open_start as int, o),
            )
        } else if closes_ahead(pair, o, low, high) && distance(pair.close_start as int, o)
            < closest {
            match_walk(
                map,
                head,
                i + 1,
                Some(pair.open_start as int),
                distance(pair.close_start as int, o),
            )
        } else {
            match_walk(map, head, i + 1, dest, closest)
        }
    }
}

/// Where `%` goes from `p`: to the partner of the bracket under the cursor,
/// or of the nearest bracket behind it on the line; nowhere if there is
/// none.
pub open spec fn matching_at(map: &DisplaySnapshot, p: DisplayPoint) -> DisplayPoint {
    match_walk(map, map.line_end_clipped(p), 0, None, usize::MAX as int)
}

/// The nearest closing delimiter behind offset `o` that holds `c`, among
/// the pairs from number `i` on that surround `o`, given the best before.
pub open spec fn nearest_closer(
    buffer: &Buffer,
    o: int,
    c: char,
    i: int,
    best: Option<int>,
) -> Option<int>
    decreases buffer.bracket_pairs().len() - i,
{
    let pairs = buffer.bracket_pairs();
    if i < 0 || i >= pairs.len() {
        best
    } else {
        let pair = pairs[i];
        let better = pair.encloses(o) && pair.close_start > o && buffer.char_at(
            pair.close_start as int,
        ) == Some(c) && (best is None || pair.close_start < best->0);
        nearest_closer(
            buffer,
            o,
            c,
            i + 1,
            if better {
                Some(pair.close_start as int)
            } else {
                best
            },
        )
    }
}

/// The nearest opening delimiter in front of offset `o` that holds `c`,
/// among the pairs from number `i` on that surround `o`, given the best
/// before.
pub open spec fn nearest_opener(
    buffer: &Buffer,
    o: int,
    c: char,
    i: int,
    best: Option<int>,
) -> Option<int>
    decreases buffer.bracket_pairs().len() - i,
{
    let pairs = buffer.bracket_pairs();
    if i < 0 || i >= pairs.len() {
        best
    } else {
        let pair = pairs[i];
        let better = pair.encloses(o) && pair.open_start < o && buffer.char_at(
            pair.open_start as int,
        ) == Some(c) && (best is None || pair.open_start > best->0);
        nearest_opener(
            buffer,
            o,
            c,
            i + 1,
            if better {
                Some(pair.open_start as int)
            } else {
                best
            },
        )
    }
}

/// One step out of the surrounding brackets: to the nearest closing `c`
/// behind `p`, or to `p` itself if nothing around it closes with `c`.
pub open spec fn closer_after(map: &DisplaySnapshot, p: DisplayPoint, c: char) -> DisplayPoint {
    match nearest_closer(map.text(), map.to_offset(p, Bias::Left), c, 0, None) {
        Some(o) => map.offset_to_display(o),
        None => p,
    }
}

/// One step out of the surrounding brackets: to the nearest opening `c` in
/// front of `p`, or to `p` itself if nothing around it opens with `c`.
pub open spec fn opener_before(map: &DisplaySnapshot, p: DisplayPoint, c: char) -> DisplayPoint {
    match nearest_opener(map.text(), map.to_offset(p, Bias::Left), c, 0, None) {
        Some(o) => map.offset_to_display(o),
        None => p,
    }
}

/// The step of `unmatched_forward`.
pub open spec fn closer_step(map: &DisplaySnapshot, c: char) -> spec_fn(DisplayPoint) -> DisplayPoint {
    |q: DisplayPoint| closer_after(map, q, c)
}

/// The step of `unmatched_backward`.
pub open spec fn opener_step(map: &DisplaySnapshot, c: char) -> spec_fn(DisplayPoint) -> DisplayPoint {
    |q: DisplayPoint| opener_before(map, q, c)
}

/// The closing `c` of the `times`-th pair around `p`, counted outward.
pub open spec fn unmatched_forward_at(map: &DisplaySnapshot, p: DisplayPoint, c: char, times: nat) -> DisplayPoint {
    repeat_while_moving(closer_step(map, c), p, times)
}

/// The opening `c` of the `times`-th pair around `p`, counted outward.
pub open spec fn unmatched_backward_at(map: &DisplaySnapshot, p: DisplayPoint, c: char, times: nat) -> DisplayPoint {
    repeat_while_moving(opener_step(map, c), p, times)
}

/// Finds the innermost markup element around an offset.
pub fn surrounding_tag(buffer: &Buffer, o: usize) -> (found: Option<BracketPair>)
    ensures
        found == innermost_tag(buffer, o as int),
{
    let tags = buffer.tags();
    let mut best: Option<BracketPair> = None;
    let mut i: usize = 0;
    while i < tags.len()
        invariant
            tags@ == buffer.tag_pairs(),
            0 <= i <= tags@.len(),
            innermost_from(tags@, o as int, i as int, best) == innermost_tag(buffer, o as int),
        decreases tags@.len() - i,
    {
        let tag = tags[i];
        let better = tag.is_enclosing(o) && match best {
            None => true,
            Some(b) => b.open_start < tag.open_start,
        };
        if better {
            best = Some(tag);
        }
        i += 1;
    }
    best
}

/// Finds the first `/`, `>` or line break from an offset on.
fn find_closing_mark(buffer: &Buffer, from: usize) -> (found: Option<usize>)
    ensures
        found is Some == closing_mark_from(buffer.chars(), from as int) is Some,
        found is Some ==> found->0 == closing_mark_from(buffer.chars(), from as int)->0,
{
    let len = buffer.len();
    let mut at = from;
    while at < len
        invariant
            len == buffer.chars().len(),
            closing_mark_from(buffer.chars(), at as int) == closing_mark_from(
                buffer.chars(),
                from as int,
            ),
        decreases len - at,
    {
        let c = match buffer.char_at_offset(at) {
            Some(c) => c,
            None => ' ',
        };
        if c == '/' || c == '\n' || c == '>' {
            return Some(at);
        }
        at += 1;
    }
    None
}

/// Finds the offset behind the first `<` or line break from an offset on.
fn find_opening_mark(buffer: &Buffer, from: usize) -> (found: Option<usize>)
    ensures
        found is Some == opening_mark_from(buffer.chars(), from as int) is Some,
        found is Some ==> found->0 == opening_mark_from(buffer.chars(), from as int)->0,
{
    let len = buffer.len();
    let mut at = from;
    while at < len
        invariant
            len == buffer.chars().len(),
            opening_mark_from(buffer.chars(), at as int) == opening_mark_from(
                buffer.chars(),
                from as int,
            ),
        decreases len - at,
    {
        let c = match buffer.char_at_offset(at) {
            Some(c) => c,
            None => ' ',
        };
        if c == '<' || c == '\n' {
            return Some(at + 1);
        }
        at += 1;
    }
    None
}

/// Finds the tag that matches the one around the cursor.
pub fn matching_tag(map: &DisplaySnapshot, head: DisplayPoint) -> (found: Option<DisplayPoint>)
    requires
        map.wf(),
    ensures
        found == matching_tag_at(map, head),
{
    let buffer = map.buffer();
    let o = map.display_point_to_offset(head, Bias::Left);
    match surrounding_tag(buffer, o) {
        None => None,
        Some(tag) => {
            let outer_start = map.offset_to_display_point(tag.open_start);
            let inner_start = map.offset_to_display_point(tag.open_end);
            let mark = if precedes(outer_start, head) && precedes(head, inner_start) {
                find_closing_mark(buffer, tag.close_start)
            } else {
                find_opening_mark(buffer, tag.open_start)
            };
            match mark {
                Some(at) => Some(map.offset_to_display_point(at)),
                None => None,
            }
        },
    }
}

/// Decides where a pair that opens with `<` sends the cursor at once.
fn jump_by_tag(map: &DisplaySnapshot, pair: &BracketPair, o: usize, head: DisplayPoint) -> (found:
    Option<DisplayPoint>)
    requires
        map.wf(),
    ensures
        found == tag_jump(map, *pair, o as int, head),
{
    let buffer = map.buffer();
    if buffer.char_at_offset(pair.open_start) != Some('<') {
        None
    } else if pair.open_start < o && o < pair.close_start {
        if buffer.char_at_offset(pair.close_start) == Some('/') && buffer.char_at_offset(
            pair.close_start + 1,
        ) == Some('>') {
            Some(head)
        } else {
            matching_tag(map, head)
        }
    } else if pair.close_contains(o) {
        Some(map.offset_to_display_point(pair.open_start))
    } else if pair.open_contains(o) {
        let last = if pair.close_end >= 1 {
            pair.close_end - 1
        } else {
            0
        };
        Some(map.offset_to_display_point(last))
    } else {
        None
    }
}

/// Moves to the bracket that matches the one under the cursor or, with none
/// under it, the nearest one behind it on the line.
pub fn matching(map: &DisplaySnapshot, display_point: DisplayPoint) -> (q: DisplayPoint)
    requires
        map.wf(),
    ensures
        q == matching_at(map, display_point),
{
    let head = map.clip_at_line_end(display_point);
    let buffer = map.buffer();
    let point = map.display_point_to_point(head, Bias::Left);
    let o = buffer.point_to_offset(point);
    let mut line_end = map.next_line_boundary(point).0;
    if line_end == point {
        line_end = map.display_point_to_point(map.max_point(), Bias::Left);
    }
    let line_start = map.prev_line_boundary(point).0;
    let visible_end = Point {
        row: line_end.row,
        column: if line_end.column > 0 {
            line_end.column - 1
        } else {
            0
        },
    };
    let low = buffer.point_to_offset(line_start);
    let high = buffer.point_to_offset(line_end);
    let last = buffer.point_to_offset(visible_end);
    let asked_low = if low >= 1 {
        low - 1
    } else {
        0
    };
    let asked_high = if last < buffer.len() {
        last + 1
    } else {
        buffer.len()
    };
    let pairs = buffer.brackets();
    let mut dest: Option<usize> = None;
    let mut closest: usize = usize::MAX;
    let mut i: usize = 0;
    while i < pairs.len()
        invariant
            map.wf(),
            buffer == map.text(),
            pairs@ == buffer.bracket_pairs(),
            head == map.line_end_clipped(display_point),
            o == map.to_offset(head, Bias::Left),
            (low as int, high as int, last as int) == match_stretch(map, head),
            asked_low == distance(low as int, 1),
            asked_high == (if last + 1 < buffer.chars().len() {
                last + 1
            } else {
                buffer.chars().len() as int
            }),
            0 <= i <= pairs@.len(),
            match_walk(
                map,
                head,
                i as int,
                match dest {
                    Some(d) => Some(d as int),
                    None => None,
                },
                closest as int,
            ) == matching_at(map, display_point),
        decreases pairs@.len() - i,
    {
        let pair = pairs[i];
        i += 1;
        if !pair.is_near(asked_low, asked_high) {
            continue ;
        }
        match jump_by_tag(map, &pair, o, head) {
            Some(found) => {
                return found;
            },
            None => {},
        }
        if (pair.open_contains(o) || pair.open_start >= o) && low <= pair.open_start
            && pair.open_start < high {
            let d = if pair.open_start >= o {
                pair.open_start - o
            } else {
                0
            };
            if d < closest {
                dest = Some(pair.close_start);
                closest = d;
                continue ;
            }
        }
        if (pair.close_contains(o) || pair.close_start >= o) && low <= pair.close_start
            && pair.close_start < high {
            let d = if pair.close_start >= o {
                pair.close_start - o
            } else {
                0
            };
            if d < closest {
                dest = Some(pair.open_start);
                closest = d;
                continue ;
            }
        }
    }
    match dest {
        Some(d) => map.offset_to_display_point(d),
        None => head,
    }
}

/// Finds the nearest closing `c` behind an offset among the pairs around
/// it.
fn find_closer(buffer: &Buffer, o: usize, c: char) -> (found: Option<usize>)
    ensures
        found is Some == nearest_closer(buffer, o as int, c, 0, None) is Some,
        found is Some ==> found->0 == nearest_closer(buffer, o as int, c, 0, None)->0,
{
    let pairs = buffer.brackets();
    let mut best: Option<usize> = None;
    let mut i: usize = 0;
    while i < pairs.len()
        invariant
            pairs@ == buffer.bracket_pairs(),
            0 <= i <= pairs@.len(),
            nearest_closer(
                buffer,
                o as int,
                c,
                i as int,
                match best {
                    Some(b) => Some(b as int),
                    None => None,
                },
            ) == nearest_closer(buffer, o as int, c, 0, None),
        decreases pairs@.len() - i,
    {
        let pair = pairs[i];
        let better = pair.is_enclosing(o) && pair.close_start > o && buffer.char_at_offset(
            pair.close_start,
        ) == Some(c) && match best {
            None => true,
            Some(b) => pair.close_start < b,
        };
        if better {
            best = Some(pair.close_start);
        }
        i += 1;
    }
    best
}

/// Finds the nearest opening `c` in front of an offset among the pairs
/// around it.
fn find_opener(buffer: &Buffer, o: usize, c: char) -> (found: Option<usize>)
    ensures
        found is Some == nearest_opener(buffer, o as int, c, 0, None) is Some,
        found is Some ==> found->0 == nearest_opener(buffer, o as int, c, 0, None)->0,
{
    let pairs = buffer.brackets();
    let mut best: Option<usize> = None;
    let mut i: usize = 0;
    while i < pairs.len()
        invariant
            pairs@ == buffer.bracket_pairs(),
            0 <= i <= pairs@.len(),
            nearest_opener(
                buffer,
                o as int,
                c,
                i as int,
                match best {
                    Some(b) => Some(b as int),
                    None => None,
                },
            ) == nearest_opener(buffer, o as int, c, 0, None),
        decreases pairs@.len() - i,
    {
        let pair = pairs[i];
        let better = pair.is_enclosing(o) && pair.open_start < o && buffer.char_at_offset(
            pair.open_start,
        ) == Some(c) && match best {
            None => true,
            Some(b) => pair.open_start > b,
        };
        if better {
            best = Some(pair.open_start);
        }
        i += 1;
    }
    best
}

/// Moves out of the brackets around the cursor to the nearest closing
/// `char` behind it, `times` times.
pub fn unmatched_forward(map: &DisplaySnapshot, display_point: DisplayPoint, char: char, times: usize) -> (q:
    DisplayPoint)
    requires
        map.wf(),
    ensures
        q == unmatched_forward_at(map, display_point, char, times as nat),
{
    let ghost step = closer_step(map, char);
    let ghost goal = repeat_while_moving(step, display_point, times as nat);
    let mut at = display_point;
    let mut rest = times;
    while rest > 0
        invariant
            map.wf(),
            step == closer_step(map, char),
            goal == repeat_while_moving(step, display_point, times as nat),
            repeat_while_moving(step, at, rest as nat) == goal,
        decreases rest,
    {
        let o = map.display_point_to_offset(at, Bias::Left);
        let new_point = match find_closer(map.buffer(), o, char) {
            Some(d) => map.offset_to_display_point(d),
            None => at,
        };
        if new_point == at {
            return at;
        }
        at = new_point;
        rest -= 1;
    }
    at
}

/// Moves out of the brackets around the cursor to the nearest opening
/// `char` in front of it, `times` times.
pub fn unmatched_backward(map: &DisplaySnapshot, display_point: DisplayPoint, char: char, times: usize) -> (q:
    DisplayPoint)
    requires
        map.wf(),
    ensures
        q == unmatched_backward_at(map, display_point, char, times as nat),
{
    let ghost step = opener_step(map, char);
    let ghost goal = repeat_while_moving(step, display_point, times as nat);
    let mut at = display_point;
    let mut rest = times;
    while rest > 0
        invariant
            map.wf(),
            step == opener_step(map, char),
            goal == repeat_while_moving(step, display_point, times as nat),
            repeat_while_moving(step, at, rest as nat) == goal,
        decreases rest,
    {
        let o = map.display_point_to_offset(at, Bias::Left);
        let new_point = match find_opener(map.buffer(), o, char) {
            Some(d) => map.offset_to_display_point(d),
            None => at,
        };
        if new_point == at {
            return at;
        }
        at = new_point;
        rest -= 1;
    }
    at
}

} // verus!

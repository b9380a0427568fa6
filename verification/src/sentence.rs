//! Motions by sentences. A sentence ends behind `.`, `!` or `?` (and the
//! closing brackets and quotes that follow) where whitespace or the end of
//! the text comes next; a run of empty lines ends one too.

use crate::buffer::{Bias, Buffer};
use crate::chars::unicode_whitespace;
use crate::display::{DisplayPoint, DisplaySnapshot};
use vstd::prelude::*;

verus! {

/// One of the characters that end a sentence.
pub open spec fn ends_sentence(c: char) -> bool {
    c == '.' || c == '?' || c == '!'
}

/// One of the characters that may stand between the end of a sentence and
/// the whitespace behind it.
pub open spec fn closes_sentence(c: char) -> bool {
    c == ')' || c == ']' || c == '"' || c == '\''
}

/// The first offset from `at` on that holds a line break or a character
/// that is not whitespace; the length of the text if there is none.
pub open spec fn next_non_blank_at(text: Seq<char>, at: int) -> int
    decreases text.len() - at,
{
    if at >= text.len() {
        text.len() as int
    } else if text[at] == '\n' || !unicode_whitespace(text[at]) {
        at
    } else {
        next_non_blank_at(text, at + 1)
    }
}

/// Given that a sentence may have ended just before `at`: where the next
/// one starts, if it did end. `seen_space` says that whitespace has been
/// passed. The sentence has ended if, behind closing brackets and quotes,
/// whitespace or the end of the text follows; the next one starts at the
/// first character behind the whitespace, or at a line break in it.
pub open spec fn sentence_start_from(text: Seq<char>, at: int, seen_space: bool) -> Option<int>
    decreases text.len() - at,
{
    if at >= text.len() {
        Some(text.len() as int)
    } else if !seen_space && closes_sentence(text[at]) {
        sentence_start_from(text, at + 1, seen_space)
    } else if text[at] == '\n' && seen_space {
        Some(at)
    } else if unicode_whitespace(text[at]) {
        sentence_start_from(text, at + 1, true)
    } else if seen_space {
        Some(at)
    } else {
        None
    }
}

/// Whether offset `o` holds a line break.
pub open spec fn break_at(text: Seq<char>, o: int) -> bool {
    0 <= o < text.len() && text[o] == '\n'
}

/// The sentence start that the character at `offset` announces in a walk
/// backward, if it announces one.
pub open spec fn start_seen_backward(text: Seq<char>, offset: int, was_newline: bool) -> Option<int> {
    let c = text[offset];
    if was_newline && c == '\n' {
        Some(offset + 1)
    } else if c == '\n' && break_at(text, offset - 1) {
        Some(next_non_blank_at(text, offset + 1))
    } else if ends_sentence(c) {
        sentence_start_from(text, offset + 1, false)
    } else {
        None
    }
}

/// `times` less one, but not below 0.
pub open spec fn one_less(times: int) -> int {
    if times > 0 {
        times - 1
    } else {
        0
    }
}

/// The walk backward over the characters in front of `at`. `start` is the
/// offset that a sentence start must lie in front of to count, `was_newline`
/// says that the character last passed was a line break, and `times` is the
/// number of starts still to be counted.
pub open spec fn sentence_backward_from(
    map: &DisplaySnapshot,
    at: int,
    start: int,
    was_newline: bool,
    times: int,
) -> DisplayPoint
    decreases at,
{
    let text = map.text().chars();
    if at <= 0 || at > text.len() {
        DisplayPoint { row: 0, column: 0 }
    } else {
        let offset = at - 1;
        let seen = start_seen_backward(text, offset, was_newline);
        let left = if seen is Some && seen->0 < start {
            one_less(times)
        } else {
            times
        };
        if seen is Some && (left == 0 || offset == 0) {
            map.cursor_clipped(map.offset_to_display(seen->0), Bias::Left)
        } else {
            sentence_backward_from(
                map,
                offset,
                if was_newline {
                    offset
                } else {
                    start
                },
                text[offset] == '\n',
                left,
            )
        }
    }
}

/// The start of the `times`-th sentence in front of `p`; the start of the
/// display if there are not that many.
pub open spec fn sentence_backward_at(map: &DisplaySnapshot, p: DisplayPoint, times: nat) -> DisplayPoint {
    let start = map.to_offset(p, Bias::Left);
    sentence_backward_from(
        map,
        start,
        start,
        break_at(map.text().chars(), start),
        times as int,
    )
}

/// The sentence start that the character at `offset` announces in a walk
/// forward, if it announces one.
pub open spec fn start_seen_forward(text: Seq<char>, offset: int, was_newline: bool) -> Option<int> {
    let c = text[offset];
    if was_newline {
        Some(next_non_blank_at(text, offset))
    } else if c == '\n' && break_at(text, offset + 1) {
        Some(next_non_blank_at(text, offset + 1))
    } else if ends_sentence(c) {
        sentence_start_from(text, offset + 1, false)
    } else {
        None
    }
}

/// The walk forward over the characters from `at` on. `was_newline` says
/// that the walk stands in a run of empty lines, and `times` is the number
/// of starts still to be counted.
pub open spec fn sentence_forward_from(
    map: &DisplaySnapshot,
    at: int,
    was_newline: bool,
    times: int,
) -> DisplayPoint
    decreases map.text().chars().len() - at,
{
    let text = map.text().chars();
    if at < 0 || at >= text.len() {
        map.max_display_point()
    } else if was_newline && text[at] == '\n' {
        sentence_forward_from(map, at + 1, was_newline, times)
    } else {
        let seen = start_seen_forward(text, at, was_newline);
        let left = if seen is Some {
            one_less(times)
        } else {
            times
        };
        if seen is Some && left == 0 {
            map.cursor_clipped(map.offset_to_display(seen->0), Bias::Right)
        } else {
            sentence_forward_from(
                map,
                at + 1,
                text[at] == '\n' && break_at(text, at + 1),
                left,
            )
        }
    }
}

/// The start of the `times`-th sentence behind `p`; the end of the display
/// if there are not that many.
pub open spec fn sentence_forward_at(map: &DisplaySnapshot, p: DisplayPoint, times: nat) -> DisplayPoint {
    let start = map.to_offset(p, Bias::Left);
    let text = map.text().chars();
    sentence_forward_from(
        map,
        start,
        break_at(text, start - 1) && break_at(text, start),
        times as int,
    )
}

/// Whether the text holds a line break at an offset.
fn is_break(buffer: &Buffer, o: usize) -> (found: bool)
    ensures
        found == break_at(buffer.chars(), o as int),
{
    buffer.char_at_offset(o) == Some('\n')
}

/// The first offset from `start` on that holds a line break or a character
/// that is not whitespace.
pub fn next_non_blank(map: &DisplaySnapshot, start: usize) -> (o: usize)
    ensures
        o == next_non_blank_at(map.text().chars(), start as int),
        o <= map.text().chars().len(),
{
    let buffer = map.buffer();
    let len = buffer.len();
    let mut at = start;
    while at < len
        invariant
            buffer == map.text(),
            len == buffer.chars().len(),
            next_non_blank_at(buffer.chars(), at as int) == next_non_blank_at(
                buffer.chars(),
                start as int,
            ),
        decreases len - at,
    {
        let c = match buffer.char_at_offset(at) {
            Some(c) => c,
            None => '\n',
        };
        if c == '\n' || !c.is_whitespace() {
            return at;
        }
        at += 1;
    }
    len
}

/// Given the offset behind a `.`, `!` or `?`: the start of the next
/// sentence, or nothing where no sentence ends there.
pub fn start_of_next_sentence(map: &DisplaySnapshot, end_of_sentence: usize) -> (start: Option<
    usize,
>)
    ensures
        start is Some == sentence_start_from(
            map.text().chars(),
            end_of_sentence as int,
            false,
        ) is Some,
        start is Some ==> start->0 == sentence_start_from(
            map.text().chars(),
            end_of_sentence as int,
            false,
        )->0 && start->0 <= map.text().chars().len(),
{
    let buffer = map.buffer();
    let len = buffer.len();
    let mut at = end_of_sentence;
    let mut seen_space = false;
    while at < len
        invariant
            buffer == map.text(),
            len == buffer.chars().len(),
            sentence_start_from(buffer.chars(), at as int, seen_space) == sentence_start_from(
                buffer.chars(),
                end_of_sentence as int,
                false,
            ),
        decreases len - at,
    {
        let c = match buffer.char_at_offset(at) {
            Some(c) => c,
            None => '\n',
        };
        if !seen_space && (c == ')' || c == ']' || c == '"' || c == '\'') {
        } else if c == '\n' && seen_space {
            return Some(at);
        } else if c.is_whitespace() {
            seen_space = true;
        } else if seen_space {
            return Some(at);
        } else {
            return None;
        }
        at += 1;
    }
    Some(len)
}

/// Moves to the start of the `times`-th sentence in front of the cursor.
pub fn sentence_backwards(map: &DisplaySnapshot, point: DisplayPoint, times: usize) -> (q:
    DisplayPoint)
    requires
        map.wf(),
    ensures
        q == sentence_backward_at(map, point, times as nat),
{
    let buffer = map.buffer();
    let origin = map.display_point_to_offset(point, Bias::Left);
    let mut start = origin;
    let mut was_newline = is_break(buffer, origin);
    let mut left = times;
    let mut at = origin;
    while at > 0
        invariant
            map.wf(),
            buffer == map.text(),
            at <= buffer.chars().len(),
            origin == map.to_offset(point, Bias::Left),
            sentence_backward_from(map, at as int, start as int, was_newline, left as int)
                == sentence_backward_at(map, point, times as nat),
        decreases at,
    {
        let offset = at - 1;
        let c = match buffer.char_at_offset(offset) {
            Some(c) => c,
            None => ' ',
        };
        let seen = if was_newline && c == '\n' {
            Some(offset + 1)
        } else if c == '\n' && offset > 0 && is_break(buffer, offset - 1) {
            Some(next_non_blank(map, offset + 1))
        } else if c == '.' || c == '?' || c == '!' {
            start_of_next_sentence(map, offset + 1)
        } else {
            None
        };
        match seen {
            Some(s) => {
                if s < start && left > 0 {
                    left -= 1;
                }
                if left == 0 || offset == 0 {
                    return map.clip_point(map.offset_to_display_point(s), Bias::Left);
                }
            },
            None => {},
        }
        if was_newline {
            start = offset;
        }
        was_newline = c == '\n';
        at = offset;
    }
    DisplayPoint { row: 0, column: 0 }
}

/// Moves to the start of the `times`-th sentence behind the cursor.
pub fn sentence_forwards(map: &DisplaySnapshot, point: DisplayPoint, times: usize) -> (q:
    DisplayPoint)
    requires
        map.wf(),
    ensures
        q == sentence_forward_at(map, point, times as nat),
{
    let buffer = map.buffer();
    let len = buffer.len();
    let origin = map.display_point_to_offset(point, Bias::Left);
    let mut was_newline = origin > 0 && is_break(buffer, origin - 1) && is_break(buffer, origin);
    let mut left = times;
    let mut at = origin;
    while at < len
        invariant
            map.wf(),
            buffer == map.text(),
            len == buffer.chars().len(),
            at <= len,
            sentence_forward_from(map, at as int, was_newline, left as int) == sentence_forward_at(
                map,
                point,
                times as nat,
            ),
        decreases len - at,
    {
        let c = match buffer.char_at_offset(at) {
            Some(c) => c,
            None => ' ',
        };
        if was_newline && c == '\n' {
            at += 1;
            continue ;
        }
        let seen = if was_newline {
            Some(next_non_blank(map, at))
        } else if c == '\n' && is_break(buffer, at + 1) {
            Some(next_non_blank(map, at + 1))
        } else if c == '.' || c == '?' || c == '!' {
            start_of_next_sentence(map, at + 1)
        } else {
            None
        };
        match seen {
            Some(s) => {
                if left > 0 {
                    left -= 1;
                }
                if left == 0 {
                    return map.clip_point(map.offset_to_display_point(s), Bias::Right);
                }
            },
            None => {},
        }
        was_newline = c == '\n' && is_break(buffer, at + 1);
        at += 1;
    }
    map.max_point()
}

} // verus!

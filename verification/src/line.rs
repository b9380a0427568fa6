//! Motions to places of a line: its start and end, its first and last
//! character that is not whitespace, and a column of it.

use crate::buffer::Bias;
use crate::chars::{char_kind, CharClassifier, CharKind};
use crate::display::{DisplayPoint, DisplaySnapshot};
use crate::horizontal::{right, right_by};
use crate::vertical::{relative_row_start, start_of_row_above, start_of_row_below};
use vstd::prelude::*;

verus! {

/// The start of the display row of `p`, or of its whole buffer line.
pub open spec fn line_start_at(map: &DisplaySnapshot, display_lines: bool, p: DisplayPoint) -> DisplayPoint {
    if display_lines {
        map.cursor_clipped(DisplayPoint { row: p.row, column: 0 }, Bias::Right)
    } else {
        map.line_start_of(map.to_point(p, Bias::Left)).1
    }
}

/// The last cursor position of the display row, or of the whole buffer
/// line, that lies `times - 1` buffer lines below `p`.
pub open spec fn line_end_at(
    map: &DisplaySnapshot,
    display_lines: bool,
    p: DisplayPoint,
    times: nat,
) -> DisplayPoint {
    let q = if times > 1 {
        relative_row_start(map, p, times - 1)
    } else {
        p
    };
    if display_lines {
        map.cursor_clipped(
            DisplayPoint { row: q.row, column: map.row_len(q.row as int) as usize },
            Bias::Left,
        )
    } else {
        map.cursor_clipped(map.line_end_of(map.to_point(q, Bias::Left)).1, Bias::Left)
    }
}

/// A character that is not whitespace.
pub open spec fn is_ink(c: char) -> bool {
    char_kind(c, false) != CharKind::Whitespace
}

/// Looking from offset `at` on, in a scan that began at `start`: the offset
/// of the first character that is not whitespace, if one comes before the
/// line break. Where the text ends first, the offset of its last character.
/// Where a line break comes first, nothing.
pub open spec fn first_ink_from(text: Seq<char>, at: int, start: int) -> Option<int>
    decreases text.len() - at,
{
    if at >= text.len() {
        Some(
            if at > start {
                at - 1
            } else {
                start
            },
        )
    } else if text[at] == '\n' {
        None
    } else if is_ink(text[at]) {
        Some(at)
    } else {
        first_ink_from(text, at + 1, start)
    }
}

/// The first character of the line (or display row) of `from` that is not
/// whitespace; `from` itself where the line holds none.
pub open spec fn first_non_whitespace_at(
    map: &DisplaySnapshot,
    display_lines: bool,
    from: DisplayPoint,
) -> DisplayPoint {
    let start = map.to_offset(line_start_at(map, display_lines, from), Bias::Left);
    match first_ink_from(map.text().chars(), start, start) {
        Some(o) => map.offset_to_display(o),
        None => from,
    }
}

/// Looking back from offset `at`: the offset of the nearest character that
/// is not whitespace, or the start of the line where there is none.
pub open spec fn last_ink_from(text: Seq<char>, at: int) -> int
    decreases at,
{
    if at <= 0 || at > text.len() {
        at
    } else if text[at - 1] == '\n' {
        at
    } else if is_ink(text[at - 1]) {
        at - 1
    } else {
        last_ink_from(text, at - 1)
    }
}

/// The last character that is not whitespace of the buffer line `count - 1`
/// lines below `from`.
pub open spec fn last_non_whitespace_at(map: &DisplaySnapshot, from: DisplayPoint, count: nat) -> DisplayPoint {
    let end = map.to_offset(line_end_at(map, false, from, count), Bias::Left);
    let text = map.text().chars();
    if 0 <= end < text.len() && is_ink(text[end]) {
        map.offset_to_display(end)
    } else {
        map.offset_to_display(last_ink_from(text, end))
    }
}

/// The first character that is not whitespace of the buffer line `times`
/// lines below `p`.
pub open spec fn next_line_start_at(map: &DisplaySnapshot, p: DisplayPoint, times: nat) -> DisplayPoint {
    first_non_whitespace_at(map, false, relative_row_start(map, p, times as int))
}

/// The first character that is not whitespace of the buffer line `times`
/// lines above `p`.
pub open spec fn previous_line_start_at(map: &DisplaySnapshot, p: DisplayPoint, times: nat) -> DisplayPoint {
    first_non_whitespace_at(map, false, relative_row_start(map, p, -(times as int)))
}

/// Column `times` of the buffer line of `p`, counted from 1, or as far as
/// the line goes.
pub open spec fn column_at(map: &DisplaySnapshot, p: DisplayPoint, times: nat) -> DisplayPoint {
    let steps = if times > 0 {
        (times - 1) as nat
    } else {
        0
    };
    right_by(map, relative_row_start(map, p, 0), steps)
}

/// The end of the buffer line `times - 1` lines below `p`.
pub open spec fn next_line_end_at(map: &DisplaySnapshot, p: DisplayPoint, times: nat) -> DisplayPoint {
    let q = if times > 1 {
        relative_row_start(map, p, times - 1)
    } else {
        p
    };
    line_end_at(map, false, q, 1)
}

/// Moves to the start of the line: of the display row, or of the buffer
/// line.
pub fn start_of_line(map: &DisplaySnapshot, display_lines: bool, point: DisplayPoint) -> (q:
    DisplayPoint)
    requires
        map.wf(),
    ensures
        q == line_start_at(map, display_lines, point),
{
    if display_lines {
        map.clip_point(DisplayPoint { row: point.row, column: 0 }, Bias::Right)
    } else {
        map.prev_line_boundary(map.display_point_to_point(point, Bias::Left)).1
    }
}

/// Moves to the end of the line `times - 1` lines below: of the display
/// row, or of the buffer line.
pub fn end_of_line(map: &DisplaySnapshot, display_lines: bool, point: DisplayPoint, times: usize) -> (q:
    DisplayPoint)
    requires
        map.wf(),
    ensures
        q == line_end_at(map, display_lines, point, times as nat),
        map.valid_display(q),
{
    let at = if times > 1 {
        start_of_row_below(map, point, times - 1)
    } else {
        point
    };
    if display_lines {
        map.clip_point(DisplayPoint { row: at.row, column: map.line_len(at.row) }, Bias::Left)
    } else {
        map.clip_point(
            map.next_line_boundary(map.display_point_to_point(at, Bias::Left)).1,
            Bias::Left,
        )
    }
}

/// Moves to the first character of the line that is not whitespace, and
/// stays where the line has none.
pub fn first_non_whitespace(map: &DisplaySnapshot, display_lines: bool, from: DisplayPoint) -> (q:
    DisplayPoint)
    requires
        map.wf(),
    ensures
        q == first_non_whitespace_at(map, display_lines, from),
{
    let start = map.display_point_to_offset(start_of_line(map, display_lines, from), Bias::Left);
    let classifier = CharClassifier::new();
    let buffer = map.buffer();
    let len = buffer.len();
    let mut at = start;
    while at < len
        invariant
            map.wf(),
            buffer == map.text(),
            len == buffer.chars().len(),
            start <= at <= len,
            start == map.to_offset(line_start_at(map, display_lines, from), Bias::Left),
            !classifier.ignore_punctuation,
            first_ink_from(buffer.chars(), at as int, start as int) == first_ink_from(
                buffer.chars(),
                start as int,
                start as int,
            ),
        decreases len - at,
    {
        let c = match buffer.char_at_offset(at) {
            Some(c) => c,
            None => '\n',
        };
        if c == '\n' {
            return from;
        }
        if classifier.kind(c) != CharKind::Whitespace {
            return map.offset_to_display_point(at);
        }
        at += 1;
    }
    let found = if at > start {
        at - 1
    } else {
        start
    };
    map.offset_to_display_point(found)
}

/// Moves to the last character that is not whitespace of the line `count -
/// 1` lines below.
pub fn last_non_whitespace(map: &DisplaySnapshot, from: DisplayPoint, count: usize) -> (q:
    DisplayPoint)
    requires
        map.wf(),
    ensures
        q == last_non_whitespace_at(map, from, count as nat),
{
    let end = map.display_point_to_offset(end_of_line(map, false, from, count), Bias::Left);
    let classifier = CharClassifier::new();
    let buffer = map.buffer();
    match buffer.char_at_offset(end) {
        Some(c) => {
            if classifier.kind(c) != CharKind::Whitespace {
                return map.offset_to_display_point(end);
            }
        },
        None => {},
    }
    let mut at = end;
    while at > 0
        invariant
            map.wf(),
            buffer == map.text(),
            at <= end <= buffer.chars().len(),
            end == map.to_offset(line_end_at(map, false, from, count as nat), Bias::Left),
            !(end < buffer.chars().len() && is_ink(buffer.chars()[end as int])),
            !classifier.ignore_punctuation,
            last_ink_from(buffer.chars(), at as int) == last_ink_from(buffer.chars(), end as int),
        decreases at,
    {
        let c = match buffer.char_at_offset(at - 1) {
            Some(c) => c,
            None => '\n',
        };
        if c == '\n' {
            return map.offset_to_display_point(at);
        }
        if classifier.kind(c) != CharKind::Whitespace {
            return map.offset_to_display_point(at - 1);
        }
        at -= 1;
    }
    map.offset_to_display_point(at)
}

/// Moves to the first character that is not whitespace of the line `times`
/// lines below.
pub fn next_line_start(map: &DisplaySnapshot, point: DisplayPoint, times: usize) -> (q:
    DisplayPoint)
    requires
        map.wf(),
    ensures
        q == next_line_start_at(map, point, times as nat),
{
    let correct_line = start_of_row_below(map, point, times);
    first_non_whitespace(map, false, correct_line)
}

/// Moves to the first character that is not whitespace of the line `times`
/// lines above.
pub fn previous_line_start(map: &DisplaySnapshot, point: DisplayPoint, times: usize) -> (q:
    DisplayPoint)
    requires
        map.wf(),
    ensures
        q == previous_line_start_at(map, point, times as nat),
{
    let correct_line = start_of_row_above(map, point, times);
    first_non_whitespace(map, false, correct_line)
}

/// Moves to column `times` of the line, counted from 1.
pub fn go_to_column(map: &DisplaySnapshot, point: DisplayPoint, times: usize) -> (q: DisplayPoint)
    requires
        map.wf(),
    ensures
        q == column_at(map, point, times as nat),
{
    let correct_line = start_of_row_below(map, point, 0);
    let steps = if times > 0 {
        times - 1
    } else {
        0
    };
    right(map, correct_line, steps)
}

/// Moves to the end of the line `times - 1` lines below.
pub fn next_line_end(map: &DisplaySnapshot, point: DisplayPoint, times: usize) -> (q: DisplayPoint)
    requires
        map.wf(),
    ensures
        q == next_line_end_at(map, point, times as nat),
        map.valid_display(q),
{
    let at = if times > 1 {
        start_of_row_below(map, point, times - 1)
    } else {
        point
    };
    end_of_line(map, false, at, 1)
}

} // verus!

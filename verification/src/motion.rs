//! The motions, what operators need to know of each, and the one function
//! that applies any of them.

use crate::bracket::{
    matching, matching_at, unmatched_backward, unmatched_backward_at, unmatched_forward,
    unmatched_forward_at,
};
use crate::buffer::Point;
use crate::display::{DisplayPoint, DisplaySnapshot};
use crate::document::{
    end_of_document, end_of_document_at, start_of_document, start_of_document_at,
};
use crate::find::{
    find_backward, find_backward_at, find_forward, find_forward_at, sneak, sneak_at,
    sneak_backward, sneak_backward_at,
};
use crate::horizontal::{
    backspace, backspace_by, left, left_by, right, right_by, space, space_by,
};
use crate::line::{
    column_at, end_of_line, first_non_whitespace, first_non_whitespace_at, go_to_column,
    last_non_whitespace, last_non_whitespace_at, line_end_at, line_start_at, next_line_end,
    next_line_end_at, next_line_start, next_line_start_at, previous_line_start,
    previous_line_start_at, start_of_line,
};
use crate::movement::{end_of_paragraph, paragraph_end, paragraph_start, start_of_paragraph};
use crate::scan::FindRange;
use crate::selection::SelectionGoal;
use crate::sentence::{
    sentence_backward_at, sentence_backwards, sentence_forward_at, sentence_forwards,
};
use crate::structure::{
    comment_motion, comment_motion_at, method_motion, method_motion_at, section_motion,
    section_motion_at, Direction,
};
use crate::vertical::{
    buffer_rows_moved, down_by, down_display, up_by, up_display, up_down_buffer_rows,
};
use crate::window::{
    window_bottom, window_bottom_at, window_middle, window_middle_at, window_top, window_top_at,
    TextLayoutDetails,
};
use crate::word::{
    next_subword_end, next_subword_end_at, next_subword_start, next_subword_start_at,
    next_word_end, next_word_end_at, next_word_start, next_word_start_at, previous_subword_end,
    previous_subword_end_at, previous_subword_start, previous_subword_start_at,
    previous_word_end, previous_word_end_at, previous_word_start, previous_word_start_at,
};
use vstd::prelude::*;

verus! {

/// A stretch of the buffer between two points.
#[derive(Clone, Copy, Debug, PartialEq, Eq, Structural)]
pub struct PointRange {
    pub start: Point,
    pub end: Point,
}

/// A way to move the cursor.
#[derive(Debug, PartialEq, Eq)]
pub enum Motion {
    Left,
    Backspace,
    Down { display_lines: bool },
    Up { display_lines: bool },
    Right,
    Space,
    NextWordStart { ignore_punctuation: bool },
    NextWordEnd { ignore_punctuation: bool },
    PreviousWordStart { ignore_punctuation: bool },
    PreviousWordEnd { ignore_punctuation: bool },
    NextSubwordStart { ignore_punctuation: bool },
    NextSubwordEnd { ignore_punctuation: bool },
    PreviousSubwordStart { ignore_punctuation: bool },
    PreviousSubwordEnd { ignore_punctuation: bool },
    FirstNonWhitespace { display_lines: bool },
    CurrentLine,
    StartOfLine { display_lines: bool },
    EndOfLine { display_lines: bool },
    SentenceBackward,
    SentenceForward,
    StartOfParagraph,
    EndOfParagraph,
    StartOfDocument,
    EndOfDocument,
    Matching,
    UnmatchedForward { char: char },
    UnmatchedBackward { char: char },
    FindForward { before: bool, char: char, mode: FindRange, smartcase: bool },
    FindBackward { after: bool, char: char, mode: FindRange, smartcase: bool },
    Sneak { first_char: char, second_char: char, smartcase: bool },
    SneakBackward { first_char: char, second_char: char, smartcase: bool },
    /// The last search for a character or a pair, once more.
    RepeatFind { last_find: Box<Motion> },
    /// The last search for a character or a pair, the other way round.
    RepeatFindReversed { last_find: Box<Motion> },
    NextLineStart,
    PreviousLineStart,
    StartOfLineDownward,
    EndOfLineDownward,
    GoToColumn,
    WindowTop,
    WindowMiddle,
    WindowBottom,
    NextSectionStart,
    NextSectionEnd,
    PreviousSectionStart,
    PreviousSectionEnd,
    NextMethodStart,
    NextMethodEnd,
    PreviousMethodStart,
    PreviousMethodEnd,
    NextComment,
    PreviousComment,
    /// The outcome of a search that was run elsewhere: what was selected
    /// before it and what it selected.
    ZedSearchResult { prior_selections: Vec<PointRange>, new_selections: Vec<PointRange> },
    /// A jump to a place that was remembered, or with `line` to the first
    /// character of its line that is not whitespace.
    Jump { anchor: Point, line: bool },
}

/// A copy of a list of ranges.
fn copy_ranges(ranges: &Vec<PointRange>) -> (copy: Vec<PointRange>)
    ensures
        copy@ == ranges@,
{
    let mut copy: Vec<PointRange> = Vec::new();
    let mut i: usize = 0;
    while i < ranges.len()
        invariant
            0 <= i <= ranges@.len(),
            copy@ == ranges@.subrange(0, i as int),
        decreases ranges@.len() - i,
    {
        copy.push(ranges[i]);
        assert(ranges@.subrange(0, i + 1) == ranges@.subrange(0, i as int).push(ranges@[i as int]));
        i += 1;
    }
    assert(ranges@.subrange(0, ranges@.len() as int) == ranges@);
    copy
}

/// Two motions are the same motion: equal, but that lists of ranges are
/// held to be the same where they hold the same ranges.
pub open spec fn alike(a: Motion, b: Motion) -> bool
    decreases a,
{
    match a {
        Motion::ZedSearchResult { prior_selections, new_selections } => b is ZedSearchResult
            && b->prior_selections@ == prior_selections@ && b->new_selections@
            == new_selections@,
        Motion::RepeatFind { last_find } => b is RepeatFind && alike(
            *last_find,
            *b->RepeatFind_last_find,
        ),
        Motion::RepeatFindReversed { last_find } => b is RepeatFindReversed && alike(
            *last_find,
            *b->RepeatFindReversed_last_find,
        ),
        _ => a == b,
    }
}

impl Clone for Motion {
    fn clone(&self) -> (copy: Motion)
        ensures
            alike(*self, copy),
        decreases self,
    {
        match self {
            Motion::Left => Motion::Left,
            Motion::Backspace => Motion::Backspace,
            Motion::Down { display_lines } => Motion::Down { display_lines: *display_lines },
            Motion::Up { display_lines } => Motion::Up { display_lines: *display_lines },
            Motion::Right => Motion::Right,
            Motion::Space => Motion::Space,
            Motion::NextWordStart { ignore_punctuation } => Motion::NextWordStart {
                ignore_punctuation: *ignore_punctuation,
            },
            Motion::NextWordEnd { ignore_punctuation } => Motion::NextWordEnd {
                ignore_punctuation: *ignore_punctuation,
            },
            Motion::PreviousWordStart { ignore_punctuation } => Motion::PreviousWordStart {
                ignore_punctuation: *ignore_punctuation,
            },
            Motion::PreviousWordEnd { ignore_punctuation } => Motion::PreviousWordEnd {
                ignore_punctuation: *ignore_punctuation,
            },
            Motion::NextSubwordStart { ignore_punctuation } => Motion::NextSubwordStart {
                ignore_punctuation: *ignore_punctuation,
            },
            Motion::NextSubwordEnd { ignore_punctuation } => Motion::NextSubwordEnd {
                ignore_punctuation: *ignore_punctuation,
            },
            Motion::PreviousSubwordStart { ignore_punctuation } => Motion::PreviousSubwordStart {
                ignore_punctuation: *ignore_punctuation,
            },
            Motion::PreviousSubwordEnd { ignore_punctuation } => Motion::PreviousSubwordEnd {
                ignore_punctuation: *ignore_punctuation,
            },
            Motion::FirstNonWhitespace { display_lines } => Motion::FirstNonWhitespace {
                display_lines: *display_lines,
            },
            Motion::CurrentLine => Motion::CurrentLine,
            Motion::StartOfLine { display_lines } => Motion::StartOfLine {
                display_lines: *display_lines,
            },
            Motion::EndOfLine { display_lines } => Motion::EndOfLine {
                display_lines: *display_lines,
            },
            Motion::SentenceBackward => Motion::SentenceBackward,
            Motion::SentenceForward => Motion::SentenceForward,
            Motion::StartOfParagraph => Motion::StartOfParagraph,
            Motion::EndOfParagraph => Motion::EndOfParagraph,
            Motion::StartOfDocument => Motion::StartOfDocument,
            Motion::EndOfDocument => Motion::EndOfDocument,
            Motion::Matching => Motion::Matching,
            Motion::UnmatchedForward { char } => Motion::UnmatchedForward { char: *char },
            Motion::UnmatchedBackward { char } => Motion::UnmatchedBackward { char: *char },
            Motion::FindForward { before, char, mode, smartcase } => Motion::FindForward {
                before: *before,
                char: *char,
                mode: *mode,
                smartcase: *smartcase,
            },
            Motion::FindBackward { after, char, mode, smartcase } => Motion::FindBackward {
                after: *after,
                char: *char,
                mode: *mode,
                smartcase: *smartcase,
            },
            Motion::Sneak { first_char, second_char, smartcase } => Motion::Sneak {
                first_char: *first_char,
                second_char: *second_char,
                smartcase: *smartcase,
            },
            Motion::SneakBackward { first_char, second_char, smartcase } => Motion::SneakBackward {
                first_char: *first_char,
                second_char: *second_char,
                smartcase: *smartcase,
            },
            Motion::RepeatFind { last_find } => Motion::RepeatFind {
                last_find: Box::new(Motion::clone(last_find)),
            },
            Motion::RepeatFindReversed { last_find } => Motion::RepeatFindReversed {
                last_find: Box::new(Motion::clone(last_find)),
            },
            Motion::NextLineStart => Motion::NextLineStart,
            Motion::PreviousLineStart => Motion::PreviousLineStart,
            Motion::StartOfLineDownward => Motion::StartOfLineDownward,
            Motion::EndOfLineDownward => Motion::EndOfLineDownward,
            Motion::GoToColumn => Motion::GoToColumn,
            Motion::WindowTop => Motion::WindowTop,
            Motion::WindowMiddle => Motion::WindowMiddle,
            Motion::WindowBottom => Motion::WindowBottom,
            Motion::NextSectionStart => Motion::NextSectionStart,
            Motion::NextSectionEnd => Motion::NextSectionEnd,
            Motion::PreviousSectionStart => Motion::PreviousSectionStart,
            Motion::PreviousSectionEnd => Motion::PreviousSectionEnd,
            Motion::NextMethodStart => Motion::NextMethodStart,
            Motion::NextMethodEnd => Motion::NextMethodEnd,
            Motion::PreviousMethodStart => Motion::PreviousMethodStart,
            Motion::PreviousMethodEnd => Motion::PreviousMethodEnd,
            Motion::NextComment => Motion::NextComment,
            Motion::PreviousComment => Motion::PreviousComment,
            Motion::ZedSearchResult { prior_selections, new_selections } => {
                Motion::ZedSearchResult {
                    prior_selections: copy_ranges(prior_selections),
                    new_selections: copy_ranges(new_selections),
                }
            },
            Motion::Jump { anchor, line } => Motion::Jump { anchor: *anchor, line: *line },
        }
    }
}

/// The count that a motion is repeated with: the one given, and 1 where
/// none or 0 was given.
pub open spec fn count_of(maybe_times: Option<usize>) -> nat {
    match maybe_times {
        Some(n) => if n == 0 {
            1
        } else {
            n as nat
        },
        None => 1,
    }
}

/// The line number that a motion to a line is given: the count, with 0
/// read as 1, or none.
pub open spec fn line_of(maybe_times: Option<usize>) -> Option<usize> {
    match maybe_times {
        Some(n) => Some(
            if n == 0 {
                1
            } else {
                n
            },
        ),
        None => None,
    }
}

/// A count as a signed number of lines, capped at the largest there is.
pub open spec fn signed(times: nat) -> int {
    if times > isize::MAX {
        isize::MAX as int
    } else {
        times as int
    }
}

/// One more than `times`, where the machine has such a number.
pub open spec fn one_more(times: nat) -> nat {
    if times < usize::MAX {
        times + 1
    } else {
        times
    }
}

/// A place together with no goal.
pub open spec fn plain(p: DisplayPoint) -> (DisplayPoint, SelectionGoal) {
    (p, SelectionGoal::Unset)
}

/// A search forward for a character that is made again, one match further,
/// where it would leave the cursor in its place.
pub open spec fn find_forward_again(
    map: &DisplaySnapshot,
    p: DisplayPoint,
    before: bool,
    c: char,
    times: nat,
    mode: FindRange,
    smartcase: bool,
) -> Option<DisplayPoint> {
    let first = find_forward_at(map, p, before, c, times, mode, smartcase);
    if first == Some(p) {
        find_forward_at(map, p, before, c, one_more(times), mode, smartcase)
    } else {
        first
    }
}

/// A search backward for a character that is made again, one match
/// further, where it would leave the cursor in its place. Nothing where the
/// cursor still does not move.
pub open spec fn find_backward_again(
    map: &DisplaySnapshot,
    p: DisplayPoint,
    after: bool,
    c: char,
    times: nat,
    mode: FindRange,
    smartcase: bool,
) -> Option<DisplayPoint> {
    let first = find_backward_at(map, p, after, c, times, mode, smartcase);
    let landed = if first == p {
        find_backward_at(map, p, after, c, one_more(times), mode, smartcase)
    } else {
        first
    };
    if landed != p {
        Some(landed)
    } else {
        None
    }
}

/// A search forward for a pair that is made again, one match further, where
/// it would leave the cursor in its place.
pub open spec fn sneak_again(
    map: &DisplaySnapshot,
    p: DisplayPoint,
    first_char: char,
    second_char: char,
    times: nat,
    smartcase: bool,
) -> Option<DisplayPoint> {
    let first = sneak_at(map, p, first_char, second_char, times, smartcase);
    if first == Some(p) {
        sneak_at(map, p, first_char, second_char, one_more(times), smartcase)
    } else {
        first
    }
}

/// A search backward for a pair that is made again, one match further,
/// where it would leave the cursor in its place.
pub open spec fn sneak_backward_again(
    map: &DisplaySnapshot,
    p: DisplayPoint,
    first_char: char,
    second_char: char,
    times: nat,
    smartcase: bool,
) -> Option<DisplayPoint> {
    let first = sneak_backward_at(map, p, first_char, second_char, times, smartcase);
    if first == Some(p) {
        sneak_backward_at(map, p, first_char, second_char, one_more(times), smartcase)
    } else {
        first
    }
}

/// Where repeating the search `last` lands: the same way, or with
/// `reversed` the other way round. Nothing where `last` is no search, where
/// the target is not found, or where the cursor would not move.
pub open spec fn repeated_find(
    map: &DisplaySnapshot,
    p: DisplayPoint,
    last: Motion,
    times: nat,
    reversed: bool,
) -> Option<DisplayPoint> {
    match last {
        Motion::FindForward { before, char, mode, smartcase } => if reversed {
            find_backward_again(map, p, before, char, times, mode, smartcase)
        } else {
            find_forward_again(map, p, before, char, times, mode, smartcase)
        },
        Motion::FindBackward { after, char, mode, smartcase } => if reversed {
            find_forward_again(map, p, after, char, times, mode, smartcase)
        } else {
            find_backward_again(map, p, after, char, times, mode, smartcase)
        },
        Motion::Sneak { first_char, second_char, smartcase } => if reversed {
            sneak_backward_again(map, p, first_char, second_char, times, smartcase)
        } else {
            sneak_again(map, p, first_char, second_char, times, smartcase)
        },
        Motion::SneakBackward { first_char, second_char, smartcase } => if reversed {
            sneak_again(map, p, first_char, second_char, times, smartcase)
        } else {
            sneak_backward_again(map, p, first_char, second_char, times, smartcase)
        },
        _ => None,
    }
}

/// A jump to a remembered place.
pub open spec fn jumped(map: &DisplaySnapshot, anchor: Point, line: bool) -> DisplayPoint {
    let p = map.to_display(anchor);
    if line {
        first_non_whitespace_at(map, false, p)
    } else {
        p
    }
}

/// With an outcome that is final whatever the cursor did, that outcome;
/// otherwise the place reached, or nothing for a motion that may fail and
/// did not move the cursor.
pub open spec fn settled(
    reached: (DisplayPoint, SelectionGoal),
    from: DisplayPoint,
    infallible: bool,
) -> Option<(DisplayPoint, SelectionGoal)> {
    if reached.0 != from || infallible {
        Some(reached)
    } else {
        None
    }
}

/// The outcome of a search that may fail: the place found, with no goal,
/// or nothing where the search found no place or only the cursor's own.
pub open spec fn found_elsewhere(p: Option<DisplayPoint>, from: DisplayPoint) -> Option<
    (DisplayPoint, SelectionGoal),
> {
    match p {
        Some(q) => if q != from {
            Some(plain(q))
        } else {
            None
        },
        None => None,
    }
}

impl Motion {
    /// Whether an operator acts on whole lines after this motion.
    pub open spec fn is_linewise(&self) -> bool {
        match self {
            Motion::Down { .. }
            | Motion::Up { .. }
            | Motion::StartOfDocument
            | Motion::EndOfDocument
            | Motion::CurrentLine
            | Motion::NextLineStart
            | Motion::PreviousLineStart
            | Motion::StartOfLineDownward
            | Motion::StartOfParagraph
            | Motion::EndOfParagraph
            | Motion::WindowTop
            | Motion::WindowMiddle
            | Motion::WindowBottom
            | Motion::NextSectionStart
            | Motion::NextSectionEnd
            | Motion::PreviousSectionStart
            | Motion::PreviousSectionEnd
            | Motion::NextMethodStart
            | Motion::NextMethodEnd
            | Motion::PreviousMethodStart
            | Motion::PreviousMethodEnd
            | Motion::NextComment
            | Motion::PreviousComment => true,
            Motion::Jump { line, .. } => *line,
            _ => false,
        }
    }

    /// Whether this motion succeeds even where it does not move the cursor.
    pub open spec fn is_infallible(&self) -> bool {
        match self {
            Motion::StartOfDocument | Motion::EndOfDocument | Motion::CurrentLine => true,
            _ => false,
        }
    }

    /// Whether an operator acts on the character that this motion lands
    /// on. A repeated search is as the search it repeats.
    pub open spec fn is_inclusive(&self) -> bool
        decreases self,
    {
        match self {
            Motion::Down { .. }
            | Motion::Up { .. }
            | Motion::StartOfDocument
            | Motion::EndOfDocument
            | Motion::CurrentLine
            | Motion::EndOfLine { .. }
            | Motion::EndOfLineDownward
            | Motion::Matching
            | Motion::UnmatchedForward { .. }
            | Motion::UnmatchedBackward { .. }
            | Motion::FindForward { .. }
            | Motion::WindowTop
            | Motion::WindowMiddle
            | Motion::WindowBottom
            | Motion::NextWordEnd { .. }
            | Motion::PreviousWordEnd { .. }
            | Motion::NextSubwordEnd { .. }
            | Motion::PreviousSubwordEnd { .. }
            | Motion::NextLineStart
            | Motion::PreviousLineStart => true,
            Motion::RepeatFind { last_find } => last_find.is_inclusive(),
            Motion::RepeatFindReversed { last_find } => last_find.is_inclusive(),
            _ => false,
        }
    }

    /// Where this motion takes the cursor from `point`, and the goal it
    /// leaves; nothing where it fails.
    pub open spec fn moved(
        &self,
        map: &DisplaySnapshot,
        point: DisplayPoint,
        goal: SelectionGoal,
        maybe_times: Option<usize>,
        layout: &TextLayoutDetails,
    ) -> Option<(DisplayPoint, SelectionGoal)> {
        let times = count_of(maybe_times);
        let unfailing = self.is_infallible();
        match self {
            Motion::Left => settled(plain(left_by(map, point, times)), point, unfailing),
            Motion::Backspace => settled(plain(backspace_by(map, point, times)), point, unfailing),
            Motion::Down { display_lines } => settled(
                if *display_lines {
                    down_by(map, point, goal, times)
                } else {
                    buffer_rows_moved(map, point, goal, signed(times))
                },
                point,
                unfailing,
            ),
            Motion::Up { display_lines } => settled(
                if *display_lines {
                    up_by(map, point, goal, times)
                } else {
                    buffer_rows_moved(map, point, goal, -signed(times))
                },
                point,
                unfailing,
            ),
            Motion::Right => settled(plain(right_by(map, point, times)), point, unfailing),
            Motion::Space => settled(plain(space_by(map, point, times)), point, unfailing),
            Motion::NextWordStart { ignore_punctuation } => settled(
                plain(next_word_start_at(map, point, *ignore_punctuation, times)),
                point,
                unfailing,
            ),
            Motion::NextWordEnd { ignore_punctuation } => settled(
                plain(next_word_end_at(map, point, *ignore_punctuation, times, true)),
                point,
                unfailing,
            ),
            Motion::PreviousWordStart { ignore_punctuation } => settled(
                plain(previous_word_start_at(map, point, *ignore_punctuation, times)),
                point,
                unfailing,
            ),
            Motion::PreviousWordEnd { ignore_punctuation } => settled(
                plain(previous_word_end_at(map, point, *ignore_punctuation, times)),
                point,
                unfailing,
            ),
            Motion::NextSubwordStart { ignore_punctuation } => settled(
                plain(next_subword_start_at(map, point, *ignore_punctuation, times)),
                point,
                unfailing,
            ),
            Motion::NextSubwordEnd { ignore_punctuation } => settled(
                plain(next_subword_end_at(map, point, *ignore_punctuation, times, true)),
                point,
                unfailing,
            ),
            Motion::PreviousSubwordStart { ignore_punctuation } => settled(
                plain(previous_subword_start_at(map, point, *ignore_punctuation, times)),
                point,
                unfailing,
            ),
            Motion::PreviousSubwordEnd { ignore_punctuation } => settled(
                plain(previous_subword_end_at(map, point, *ignore_punctuation, times)),
                point,
                unfailing,
            ),
            Motion::FirstNonWhitespace { display_lines } => settled(
                plain(first_non_whitespace_at(map, *display_lines, point)),
                point,
                unfailing,
            ),
            Motion::StartOfLine { display_lines } => settled(
                plain(line_start_at(map, *display_lines, point)),
                point,
                unfailing,
            ),
            Motion::EndOfLine { display_lines } => settled(
                plain(line_end_at(map, *display_lines, point, times)),
                point,
                unfailing,
            ),
            Motion::SentenceBackward => settled(
                plain(sentence_backward_at(map, point, times)),
                point,
                unfailing,
            ),
            Motion::SentenceForward => settled(
                plain(sentence_forward_at(map, point, times)),
                point,
                unfailing,
            ),
            Motion::StartOfParagraph => settled(
                plain(paragraph_start(map, point, times as int)),
                point,
                unfailing,
            ),
            Motion::EndOfParagraph => settled(
                plain(map.line_end_clipped(paragraph_end(map, point, times as int))),
                point,
                unfailing,
            ),
            Motion::CurrentLine => settled(
                plain(next_line_end_at(map, point, times)),
                point,
                unfailing,
            ),
            Motion::StartOfDocument => settled(
                plain(start_of_document_at(map, point, line_of(maybe_times))),
                point,
                unfailing,
            ),
            Motion::EndOfDocument => settled(
                plain(end_of_document_at(map, point, line_of(maybe_times))),
                point,
                unfailing,
            ),
            Motion::Matching => settled(plain(matching_at(map, point)), point, unfailing),
            Motion::UnmatchedForward { char } => settled(
                plain(unmatched_forward_at(map, point, *char, times)),
                point,
                unfailing,
            ),
            Motion::UnmatchedBackward { char } => settled(
                plain(unmatched_backward_at(map, point, *char, times)),
                point,
                unfailing,
            ),
            Motion::FindForward { before, char, mode, smartcase } => found_elsewhere(
                find_forward_at(map, point, *before, *char, times, *mode, *smartcase),
                point,
            ),
            Motion::FindBackward { after, char, mode, smartcase } => settled(
                plain(find_backward_at(map, point, *after, *char, times, *mode, *smartcase)),
                point,
                unfailing,
            ),
            Motion::Sneak { first_char, second_char, smartcase } => found_elsewhere(
                sneak_at(map, point, *first_char, *second_char, times, *smartcase),
                point,
            ),
            Motion::SneakBackward { first_char, second_char, smartcase } => found_elsewhere(
                sneak_backward_at(map, point, *first_char, *second_char, times, *smartcase),
                point,
            ),
            Motion::RepeatFind { last_find } => found_elsewhere(
                repeated_find(map, point, **last_find, times, false),
                point,
            ),
            Motion::RepeatFindReversed { last_find } => found_elsewhere(
                repeated_find(map, point, **last_find, times, true),
                point,
            ),
            Motion::NextLineStart => settled(
                plain(next_line_start_at(map, point, times)),
                point,
                unfailing,
            ),
            Motion::PreviousLineStart => settled(
                plain(previous_line_start_at(map, point, times)),
                point,
                unfailing,
            ),
            Motion::StartOfLineDownward => settled(
                plain(next_line_start_at(map, point, (times - 1) as nat)),
                point,
                unfailing,
            ),
            Motion::EndOfLineDownward => settled(
                plain(last_non_whitespace_at(map, point, times)),
                point,
                unfailing,
            ),
            Motion::GoToColumn => settled(plain(column_at(map, point, times)), point, unfailing),
            Motion::WindowTop => settled(
                window_top_at(map, point, layout, (times - 1) as nat),
                point,
                unfailing,
            ),
            Motion::WindowMiddle => settled(
                window_middle_at(map, point, layout),
                point,
                unfailing,
            ),
            Motion::WindowBottom => settled(
                window_bottom_at(map, point, layout, (times - 1) as nat),
                point,
                unfailing,
            ),
            Motion::Jump { anchor, line } => settled(
                plain(jumped(map, *anchor, *line)),
                point,
                unfailing,
            ),
            Motion::ZedSearchResult { new_selections, .. } => if new_selections@.len()
                > 0 {
                settled(plain(map.to_display(new_selections@[0].start)), point, unfailing)
            } else {
                None
            },
            Motion::NextSectionStart => settled(
                plain(section_motion_at(map, point, times, Direction::Next, true)),
                point,
                unfailing,
            ),
            Motion::NextSectionEnd => settled(
                plain(section_motion_at(map, point, times, Direction::Next, false)),
                point,
                unfailing,
            ),
            Motion::PreviousSectionStart => settled(
                plain(section_motion_at(map, point, times, Direction::Prev, true)),
                point,
                unfailing,
            ),
            Motion::PreviousSectionEnd => settled(
                plain(section_motion_at(map, point, times, Direction::Prev, false)),
                point,
                unfailing,
            ),
            Motion::NextMethodStart => settled(
                plain(method_motion_at(map, point, times, Direction::Next, true)),
                point,
                unfailing,
            ),
            Motion::NextMethodEnd => settled(
                plain(method_motion_at(map, point, times, Direction::Next, false)),
                point,
                unfailing,
            ),
            Motion::PreviousMethodStart => settled(
                plain(method_motion_at(map, point, times, Direction::Prev, true)),
                point,
                unfailing,
            ),
            Motion::PreviousMethodEnd => settled(
                plain(method_motion_at(map, point, times, Direction::Prev, false)),
                point,
                unfailing,
            ),
            Motion::NextComment => settled(
                plain(comment_motion_at(map, point, times, Direction::Next)),
                point,
                unfailing,
            ),
            Motion::PreviousComment => settled(
                plain(comment_motion_at(map, point, times, Direction::Prev)),
                point,
                unfailing,
            ),
        }
    }

    /// The place where this motion takes the cursor from `point`; nothing
    /// where it fails.
    pub open spec fn landing(
        &self,
        map: &DisplaySnapshot,
        point: DisplayPoint,
        goal: SelectionGoal,
        maybe_times: Option<usize>,
        layout: &TextLayoutDetails,
    ) -> Option<DisplayPoint> {
        match self.moved(map, point, goal, maybe_times, layout) {
            Some(reached) => Some(reached.0),
            None => None,
        }
    }

    /// Whether an operator acts on whole lines after this motion.
    pub fn linewise(&self) -> (yes: bool)
        ensures
            yes == self.is_linewise(),
    {
        match self {
            Motion::Down { .. }
            | Motion::Up { .. }
            | Motion::StartOfDocument
            | Motion::EndOfDocument
            | Motion::CurrentLine
            | Motion::NextLineStart
            | Motion::PreviousLineStart
            | Motion::StartOfLineDownward
            | Motion::StartOfParagraph
            | Motion::EndOfParagraph
            | Motion::WindowTop
            | Motion::WindowMiddle
            | Motion::WindowBottom
            | Motion::NextSectionStart
            | Motion::NextSectionEnd
            | Motion::PreviousSectionStart
            | Motion::PreviousSectionEnd
            | Motion::NextMethodStart
            | Motion::NextMethodEnd
            | Motion::PreviousMethodStart
            | Motion::PreviousMethodEnd
            | Motion::NextComment
            | Motion::PreviousComment => true,
            Motion::Jump { line, .. } => *line,
            Motion::EndOfLine { .. }
            | Motion::Matching
            | Motion::UnmatchedForward { .. }
            | Motion::UnmatchedBackward { .. }
            | Motion::FindForward { .. }
            | Motion::Left
            | Motion::Backspace
            | Motion::Right
            | Motion::SentenceBackward
            | Motion::SentenceForward
            | Motion::Space
            | Motion::StartOfLine { .. }
            | Motion::EndOfLineDownward
            | Motion::GoToColumn
            | Motion::NextWordStart { .. }
            | Motion::NextWordEnd { .. }
            | Motion::PreviousWordStart { .. }
            | Motion::PreviousWordEnd { .. }
            | Motion::NextSubwordStart { .. }
            | Motion::NextSubwordEnd { .. }
            | Motion::PreviousSubwordStart { .. }
            | Motion::PreviousSubwordEnd { .. }
            | Motion::FirstNonWhitespace { .. }
            | Motion::FindBackward { .. }
            | Motion::Sneak { .. }
            | Motion::SneakBackward { .. }
            | Motion::RepeatFind { .. }
            | Motion::RepeatFindReversed { .. }
            | Motion::ZedSearchResult { .. } => false,
        }
    }

    /// Whether this motion succeeds even where it does not move the cursor.
    pub fn infallible(&self) -> (yes: bool)
        ensures
            yes == self.is_infallible(),
    {
        match self {
            Motion::StartOfDocument | Motion::EndOfDocument | Motion::CurrentLine => true,
            Motion::Down { .. }
            | Motion::Up { .. }
            | Motion::EndOfLine { .. }
            | Motion::Matching
            | Motion::UnmatchedForward { .. }
            | Motion::UnmatchedBackward { .. }
            | Motion::FindForward { .. }
            | Motion::RepeatFind { .. }
            | Motion::Left
            | Motion::Backspace
            | Motion::Right
            | Motion::Space
            | Motion::StartOfLine { .. }
            | Motion::StartOfParagraph
            | Motion::EndOfParagraph
            | Motion::SentenceBackward
            | Motion::SentenceForward
            | Motion::StartOfLineDownward
            | Motion::EndOfLineDownward
            | Motion::GoToColumn
            | Motion::NextWordStart { .. }
            | Motion::NextWordEnd { .. }
            | Motion::PreviousWordStart { .. }
            | Motion::PreviousWordEnd { .. }
            | Motion::NextSubwordStart { .. }
            | Motion::NextSubwordEnd { .. }
            | Motion::PreviousSubwordStart { .. }
            | Motion::PreviousSubwordEnd { .. }
            | Motion::FirstNonWhitespace { .. }
            | Motion::FindBackward { .. }
            | Motion::Sneak { .. }
            | Motion::SneakBackward { .. }
            | Motion::RepeatFindReversed { .. }
            | Motion::WindowTop
            | Motion::WindowMiddle
            | Motion::WindowBottom
            | Motion::NextLineStart
            | Motion::PreviousLineStart
            | Motion::ZedSearchResult { .. }
            | Motion::NextSectionStart
            | Motion::NextSectionEnd
            | Motion::PreviousSectionStart
            | Motion::PreviousSectionEnd
            | Motion::NextMethodStart
            | Motion::NextMethodEnd
            | Motion::PreviousMethodStart
            | Motion::PreviousMethodEnd
            | Motion::NextComment
            | Motion::PreviousComment
            | Motion::Jump { .. } => false,
        }
    }

    /// Whether an operator acts on the character that this motion lands
    /// on.
    pub fn inclusive(&self) -> (yes: bool)
        ensures
            yes == self.is_inclusive(),
        decreases self,
    {
        match self {
            Motion::Down { .. }
            | Motion::Up { .. }
            | Motion::StartOfDocument
            | Motion::EndOfDocument
            | Motion::CurrentLine
            | Motion::EndOfLine { .. }
            | Motion::EndOfLineDownward
            | Motion::Matching
            | Motion::UnmatchedForward { .. }
            | Motion::UnmatchedBackward { .. }
            | Motion::FindForward { .. }
            | Motion::WindowTop
            | Motion::WindowMiddle
            | Motion::WindowBottom
            | Motion::NextWordEnd { .. }
            | Motion::PreviousWordEnd { .. }
            | Motion::NextSubwordEnd { .. }
            | Motion::PreviousSubwordEnd { .. }
            | Motion::NextLineStart
            | Motion::PreviousLineStart => true,
            Motion::Left
            | Motion::Backspace
            | Motion::Right
            | Motion::Space
            | Motion::StartOfLine { .. }
            | Motion::StartOfLineDownward
            | Motion::StartOfParagraph
            | Motion::EndOfParagraph
            | Motion::SentenceBackward
            | Motion::SentenceForward
            | Motion::GoToColumn
            | Motion::NextWordStart { .. }
            | Motion::PreviousWordStart { .. }
            | Motion::NextSubwordStart { .. }
            | Motion::PreviousSubwordStart { .. }
            | Motion::FirstNonWhitespace { .. }
            | Motion::FindBackward { .. }
            | Motion::Sneak { .. }
            | Motion::SneakBackward { .. }
            | Motion::Jump { .. }
            | Motion::NextSectionStart
            | Motion::NextSectionEnd
            | Motion::PreviousSectionStart
            | Motion::PreviousSectionEnd
            | Motion::NextMethodStart
            | Motion::NextMethodEnd
            | Motion::PreviousMethodStart
            | Motion::PreviousMethodEnd
            | Motion::NextComment
            | Motion::PreviousComment
            | Motion::ZedSearchResult { .. } => false,
            Motion::RepeatFind { last_find } => last_find.inclusive(),
            Motion::RepeatFindReversed { last_find } => last_find.inclusive(),
        }
    }

    /// Applies the motion to the cursor at `point`, `maybe_times` times; a
    /// count of 0 is read as 1. The answer is the place reached and the
    /// goal left for the next vertical motion, or nothing where the motion
    /// fails: where its target is not found, or where a motion that may
    /// fail leaves the cursor in its place.
    pub fn move_point(
        &self,
        map: &DisplaySnapshot,
        point: DisplayPoint,
        goal: SelectionGoal,
        maybe_times: Option<usize>,
        text_layout_details: &TextLayoutDetails,
    ) -> (landed: Option<(DisplayPoint, SelectionGoal)>)
        requires
            map.wf(),
        ensures
            landed == self.moved(map, point, goal, maybe_times, text_layout_details),
    {
        let times = normal_count(maybe_times);
        let infallible = self.infallible();
        let reached = match self {
            Motion::Left => (left(map, point, times), SelectionGoal::Unset),
            Motion::Backspace => (backspace(map, point, times), SelectionGoal::Unset),
            Motion::Down { display_lines } => if *display_lines {
                down_display(map, point, goal, times)
            } else {
                up_down_buffer_rows(map, point, goal, signed_count(times))
            },
            Motion::Up { display_lines } => if *display_lines {
                up_display(map, point, goal, times)
            } else {
                up_down_buffer_rows(map, point, goal, -signed_count(times))
            },
            Motion::Right => (right(map, point, times), SelectionGoal::Unset),
            Motion::Space => (space(map, point, times), SelectionGoal::Unset),
            Motion::NextWordStart { ignore_punctuation } => (
                next_word_start(map, point, *ignore_punctuation, times),
                SelectionGoal::Unset,
            ),
            Motion::NextWordEnd { ignore_punctuation } => (
                next_word_end(map, point, *ignore_punctuation, times, true),
                SelectionGoal::Unset,
            ),
            Motion::PreviousWordStart { ignore_punctuation } => (
                previous_word_start(map, point, *ignore_punctuation, times),
                SelectionGoal::Unset,
            ),
            Motion::PreviousWordEnd { ignore_punctuation } => (
                previous_word_end(map, point, *ignore_punctuation, times),
                SelectionGoal::Unset,
            ),
            Motion::NextSubwordStart { ignore_punctuation } => (
                next_subword_start(map, point, *ignore_punctuation, times),
                SelectionGoal::Unset,
            ),
            Motion::NextSubwordEnd { ignore_punctuation } => (
                next_subword_end(map, point, *ignore_punctuation, times, true),
                SelectionGoal::Unset,
            ),
            Motion::PreviousSubwordStart { ignore_punctuation } => (
                previous_subword_start(map, point, *ignore_punctuation, times),
                SelectionGoal::Unset,
            ),
            Motion::PreviousSubwordEnd { ignore_punctuation } => (
                previous_subword_end(map, point, *ignore_punctuation, times),
                SelectionGoal::Unset,
            ),
            Motion::FirstNonWhitespace { display_lines } => (
                first_non_whitespace(map, *display_lines, point),
                SelectionGoal::Unset,
            ),
            Motion::StartOfLine { display_lines } => (
                start_of_line(map, *display_lines, point),
                SelectionGoal::Unset,
            ),
            Motion::EndOfLine { display_lines } => (
                end_of_line(map, *display_lines, point, times),
                SelectionGoal::Unset,
            ),
            Motion::SentenceBackward => (
                sentence_backwards(map, point, times),
                SelectionGoal::Unset,
            ),
            Motion::SentenceForward => (sentence_forwards(map, point, times), SelectionGoal::Unset),
            Motion::StartOfParagraph => (
                start_of_paragraph(map, point, times),
                SelectionGoal::Unset,
            ),
            Motion::EndOfParagraph => (
                map.clip_at_line_end(end_of_paragraph(map, point, times)),
                SelectionGoal::Unset,
            ),
            Motion::CurrentLine => (next_line_end(map, point, times), SelectionGoal::Unset),
            Motion::StartOfDocument => (
                start_of_document(map, point, normal_line(maybe_times)),
                SelectionGoal::Unset,
            ),
            Motion::EndOfDocument => (
                end_of_document(map, point, normal_line(maybe_times)),
                SelectionGoal::Unset,
            ),
            Motion::Matching => (matching(map, point), SelectionGoal::Unset),
            Motion::UnmatchedForward { char } => (
                unmatched_forward(map, point, *char, times),
                SelectionGoal::Unset,
            ),
            Motion::UnmatchedBackward { char } => (
                unmatched_backward(map, point, *char, times),
                SelectionGoal::Unset,
            ),
            Motion::FindForward { before, char, mode, smartcase } => {
                return elsewhere(
                    find_forward(map, point, *before, *char, times, *mode, *smartcase),
                    point,
                );
            },
            Motion::FindBackward { after, char, mode, smartcase } => (
                find_backward(map, point, *after, *char, times, *mode, *smartcase),
                SelectionGoal::Unset,
            ),
            Motion::Sneak { first_char, second_char, smartcase } => {
                return elsewhere(
                    sneak(map, point, *first_char, *second_char, times, *smartcase),
                    point,
                );
            },
            Motion::SneakBackward { first_char, second_char, smartcase } => {
                return elsewhere(
                    sneak_backward(map, point, *first_char, *second_char, times, *smartcase),
                    point,
                );
            },
            Motion::RepeatFind { last_find } => {
                return elsewhere(repeat_find(map, point, last_find, times, false), point);
            },
            Motion::RepeatFindReversed { last_find } => {
                return elsewhere(repeat_find(map, point, last_find, times, true), point);
            },
            Motion::NextLineStart => (next_line_start(map, point, times), SelectionGoal::Unset),
            Motion::PreviousLineStart => (
                previous_line_start(map, point, times),
                SelectionGoal::Unset,
            ),
            Motion::StartOfLineDownward => (
                next_line_start(map, point, times - 1),
                SelectionGoal::Unset,
            ),
            Motion::EndOfLineDownward => (
                last_non_whitespace(map, point, times),
                SelectionGoal::Unset,
            ),
            Motion::GoToColumn => (go_to_column(map, point, times), SelectionGoal::Unset),
            Motion::WindowTop => window_top(map, point, text_layout_details, times - 1),
            Motion::WindowMiddle => window_middle(map, point, text_layout_details),
            Motion::WindowBottom => window_bottom(map, point, text_layout_details, times - 1),
            Motion::Jump { anchor, line } => (jump_motion(map, *anchor, *line), SelectionGoal::Unset),
            Motion::ZedSearchResult { new_selections, .. } => {
                if new_selections.len() > 0 {
                    (map.point_to_display_point(new_selections[0].start), SelectionGoal::Unset)
                } else {
                    return None;
                }
            },
            Motion::NextSectionStart => (
                section_motion(map, point, times, Direction::Next, true),
                SelectionGoal::Unset,
            ),
            Motion::NextSectionEnd => (
                section_motion(map, point, times, Direction::Next, false),
                SelectionGoal::Unset,
            ),
            Motion::PreviousSectionStart => (
                section_motion(map, point, times, Direction::Prev, true),
                SelectionGoal::Unset,
            ),
            Motion::PreviousSectionEnd => (
                section_motion(map, point, times, Direction::Prev, false),
                SelectionGoal::Unset,
            ),
            Motion::NextMethodStart => (
                method_motion(map, point, times, Direction::Next, true),
                SelectionGoal::Unset,
            ),
            Motion::NextMethodEnd => (
                method_motion(map, point, times, Direction::Next, false),
                SelectionGoal::Unset,
            ),
            Motion::PreviousMethodStart => (
                method_motion(map, point, times, Direction::Prev, true),
                SelectionGoal::Unset,
            ),
            Motion::PreviousMethodEnd => (
                method_motion(map, point, times, Direction::Prev, false),
                SelectionGoal::Unset,
            ),
            Motion::NextComment => (
                comment_motion(map, point, times, Direction::Next),
                SelectionGoal::Unset,
            ),
            Motion::PreviousComment => (
                comment_motion(map, point, times, Direction::Prev),
                SelectionGoal::Unset,
            ),
        };
        if reached.0 != point || infallible {
            Some(reached)
        } else {
            None
        }
    }
}

/// The count that a motion is repeated with.
pub fn normal_count(maybe_times: Option<usize>) -> (times: usize)
    ensures
        times == count_of(maybe_times),
        times >= 1,
{
    match maybe_times {
        Some(n) => if n == 0 {
            1
        } else {
            n
        },
        None => 1,
    }
}

/// The line number that a motion to a line is given.
pub fn normal_line(maybe_times: Option<usize>) -> (line: Option<usize>)
    ensures
        line == line_of(maybe_times),
{
    match maybe_times {
        Some(n) => Some(
            if n == 0 {
                1
            } else {
                n
            },
        ),
        None => None,
    }
}

/// A count as a signed number of lines.
fn signed_count(times: usize) -> (lines: isize)
    ensures
        lines == signed(times as nat),
        lines >= 0,
{
    if times > isize::MAX as usize {
        isize::MAX
    } else {
        times as isize
    }
}

/// One more than a count, where the machine has such a number.
fn next_count(times: usize) -> (more: usize)
    ensures
        more == one_more(times as nat),
{
    if times < usize::MAX {
        times + 1
    } else {
        times
    }
}

/// The outcome of a search that may fail: nothing where it found no place
/// or only the cursor's own.
fn elsewhere(p: Option<DisplayPoint>, from: DisplayPoint) -> (landed: Option<
    (DisplayPoint, SelectionGoal),
>)
    ensures
        landed == found_elsewhere(p, from),
{
    match p {
        Some(q) => if q != from {
            Some((q, SelectionGoal::Unset))
        } else {
            None
        },
        None => None,
    }
}

/// Jumps to a remembered place, or with `line` to the first character of
/// its line that is not whitespace.
pub fn jump_motion(map: &DisplaySnapshot, anchor: Point, line: bool) -> (q: DisplayPoint)
    requires
        map.wf(),
    ensures
        q == jumped(map, anchor, line),
{
    let p = map.point_to_display_point(anchor);
    if line {
        first_non_whitespace(map, false, p)
    } else {
        p
    }
}

/// Searches forward for a character, and once more for the next match
/// where the first search leaves the cursor in its place.
fn find_forward_twice(
    map: &DisplaySnapshot,
    point: DisplayPoint,
    before: bool,
    c: char,
    times: usize,
    mode: FindRange,
    smartcase: bool,
) -> (landed: Option<DisplayPoint>)
    requires
        map.wf(),
    ensures
        landed == find_forward_again(map, point, before, c, times as nat, mode, smartcase),
{
    let first = find_forward(map, point, before, c, times, mode, smartcase);
    if first == Some(point) {
        find_forward(map, point, before, c, next_count(times), mode, smartcase)
    } else {
        first
    }
}

/// Searches backward for a character, and once more for the next match
/// where the first search leaves the cursor in its place.
fn find_backward_twice(
    map: &DisplaySnapshot,
    point: DisplayPoint,
    after: bool,
    c: char,
    times: usize,
    mode: FindRange,
    smartcase: bool,
) -> (landed: Option<DisplayPoint>)
    requires
        map.wf(),
    ensures
        landed == find_backward_again(map, point, after, c, times as nat, mode, smartcase),
{
    let mut new_point = find_backward(map, point, after, c, times, mode, smartcase);
    if new_point == point {
        new_point = find_backward(map, point, after, c, next_count(times), mode, smartcase);
    }
    if new_point != point {
        Some(new_point)
    } else {
        None
    }
}

/// Searches forward for a pair, and once more for the next match where the
/// first search leaves the cursor in its place.
fn sneak_twice(
    map: &DisplaySnapshot,
    point: DisplayPoint,
    first_char: char,
    second_char: char,
    times: usize,
    smartcase: bool,
) -> (landed: Option<DisplayPoint>)
    requires
        map.wf(),
    ensures
        landed == sneak_again(map, point, first_char, second_char, times as nat, smartcase),
{
    let first = sneak(map, point, first_char, second_char, times, smartcase);
    if first == Some(point) {
        sneak(map, point, first_char, second_char, next_count(times), smartcase)
    } else {
        first
    }
}

/// Searches backward for a pair, and once more for the next match where
/// the first search leaves the cursor in its place.
fn sneak_backward_twice(
    map: &DisplaySnapshot,
    point: DisplayPoint,
    first_char: char,
    second_char: char,
    times: usize,
    smartcase: bool,
) -> (landed: Option<DisplayPoint>)
    requires
        map.wf(),
    ensures
        landed == sneak_backward_again(map, point, first_char, second_char, times as nat, smartcase),
{
    let first = sneak_backward(map, point, first_char, second_char, times, smartcase);
    if first == Some(point) {
        sneak_backward(map, point, first_char, second_char, next_count(times), smartcase)
    } else {
        first
    }
}

/// Repeats the search `last_find`, the same way or with `reversed` the
/// other way round.
pub fn repeat_find(
    map: &DisplaySnapshot,
    point: DisplayPoint,
    last_find: &Motion,
    times: usize,
    reversed: bool,
) -> (landed: Option<DisplayPoint>)
    requires
        map.wf(),
    ensures
        landed == repeated_find(map, point, *last_find, times as nat, reversed),
{
    match last_find {
        Motion::FindForward { before, char, mode, smartcase } => if reversed {
            find_backward_twice(map, point, *before, *char, times, *mode, *smartcase)
        } else {
            find_forward_twice(map, point, *before, *char, times, *mode, *smartcase)
        },
        Motion::FindBackward { after, char, mode, smartcase } => if reversed {
            find_forward_twice(map, point, *after, *char, times, *mode, *smartcase)
        } else {
            find_backward_twice(map, point, *after, *char, times, *mode, *smartcase)
        },
        Motion::Sneak { first_char, second_char, smartcase } => if reversed {
            sneak_backward_twice(map, point, *first_char, *second_char, times, *smartcase)
        } else {
            sneak_twice(map, point, *first_char, *second_char, times, *smartcase)
        },
        Motion::SneakBackward { first_char, second_char, smartcase } => if reversed {
            sneak_twice(map, point, *first_char, *second_char, times, *smartcase)
        } else {
            sneak_backward_twice(map, point, *first_char, *second_char, times, *smartcase)
        },
        _ => None,
    }
}

} // verus!

//! The text that an operator acts on after a motion.

use crate::buffer::{Bias, Point};
use crate::display::{DisplayPoint, DisplaySnapshot};
use crate::motion::Motion;
use crate::movement::{saturating_right, saturating_right_of};
use crate::selection::{display_before, precedes, Selection};
use crate::window::TextLayoutDetails;
use vstd::prelude::*;

verus! {

/// A stretch of the display from `start` up to, not including, `end`.
#[derive(Clone, Copy, Debug, PartialEq, Eq, Structural)]
pub struct DisplayRange {
    pub start: DisplayPoint,
    pub end: DisplayPoint,
}

/// The earlier of two display points.
pub open spec fn earlier(a: DisplayPoint, b: DisplayPoint) -> DisplayPoint {
    if display_before(b, a) {
        b
    } else {
        a
    }
}

/// The later of two display points.
pub open spec fn later(a: DisplayPoint, b: DisplayPoint) -> DisplayPoint {
    if display_before(a, b) {
        b
    } else {
        a
    }
}

/// The stretch between two display points, the earlier one first.
pub open spec fn ordered(a: DisplayPoint, b: DisplayPoint) -> DisplayRange {
    if display_before(a, b) {
        DisplayRange { start: a, end: b }
    } else {
        DisplayRange { start: b, end: a }
    }
}

/// The lines that a selection touches, from the start of its first line to
/// the end of its last. With `expand` one line break is taken in as well:
/// the stretch ends at the start of the following row or, on the last row,
/// starts at the end of the row before.
pub open spec fn linewise_range(map: &DisplaySnapshot, selection: Selection, expand: bool) -> DisplayRange {
    let start = map.line_start_of(map.to_point(selection.start, Bias::Left)).1;
    let end = map.line_end_of(map.to_point(selection.end, Bias::Left)).1;
    if expand && selection.end.row < map.max_display_row() {
        DisplayRange {
            start,
            end: map.cursor_clipped(
                DisplayPoint { row: (selection.end.row + 1) as usize, column: 0 },
                Bias::Right,
            ),
        }
    } else if expand && start.row > 0 {
        DisplayRange {
            start: map.cursor_clipped(
                DisplayPoint {
                    row: (start.row - 1) as usize,
                    column: map.row_len(start.row - 1) as usize,
                },
                Bias::Left,
            ),
            end,
        }
    } else {
        DisplayRange { start, end }
    }
}

/// Where the text moved over ends for a motion to the next word start: at
/// the end of the line on which it began, where the motion went on to a
/// later line.
pub open spec fn word_end_kept_in_line(map: &DisplaySnapshot, selection: Selection) -> DisplayPoint {
    let start_row = map.to_point(selection.start, Bias::Left).row;
    if map.to_point(selection.end, Bias::Left).row > start_row {
        map.to_display(
            Point { row: start_row, column: map.text().line_len(start_row as int) as usize },
        )
    } else {
        selection.end
    }
}

/// Whether a motion that leaves its last character out is turned into one
/// that takes it in and ends a line earlier: it went over a line break and
/// ended in the first column.
pub open spec fn ends_at_line_start(
    map: &DisplaySnapshot,
    motion: &Motion,
    start: DisplayPoint,
    end: DisplayPoint,
) -> bool {
    let start_point = map.to_point(start, Bias::Left);
    let end_point = map.to_point(end, Bias::Left);
    !motion.is_inclusive() && !(motion is Backspace) && end_point.row > start_point.row
        && end_point.column == 0
}

/// The end of the line before that of `end`, as a cursor position.
pub open spec fn end_of_line_before(map: &DisplaySnapshot, end: DisplayPoint) -> DisplayPoint {
    let end_point = map.to_point(end, Bias::Left);
    map.cursor_clipped(
        map.line_end_of(Point { row: (end_point.row - 1) as usize, column: 0 }).1,
        Bias::Left,
    )
}

/// A stretch's end moved behind the character it stands on, unless it
/// stands at the end of its row.
pub open spec fn taking_in(map: &DisplaySnapshot, end: DisplayPoint) -> DisplayPoint {
    if end.column < map.row_len(end.row as int) {
        saturating_right_of(map, end)
    } else {
        end
    }
}

/// The characters that a selection covers after a motion that does not go
/// by lines.
pub open spec fn charwise_range(map: &DisplaySnapshot, motion: &Motion, selection: Selection) -> DisplayRange {
    let end = if motion is NextWordStart {
        word_end_kept_in_line(map, selection)
    } else {
        selection.end
    };
    if ends_at_line_start(map, motion, selection.start, end) {
        DisplayRange { start: selection.start, end: taking_in(map, end_of_line_before(map, end)) }
    } else if motion.is_inclusive() {
        DisplayRange { start: selection.start, end: taking_in(map, end) }
    } else {
        DisplayRange { start: selection.start, end }
    }
}

impl Motion {
    /// Where this motion takes the cursor of `selection`; nothing where it
    /// fails.
    pub open spec fn head_moved(
        &self,
        map: &DisplaySnapshot,
        selection: Selection,
        times: Option<usize>,
        layout: &TextLayoutDetails,
    ) -> Option<DisplayPoint> {
        match self.moved(map, selection.spec_head(), selection.goal, times, layout) {
            Some(reached) => Some(reached.0),
            None => None,
        }
    }

    /// The selection with its cursor moved by this motion; nothing where
    /// the motion fails.
    pub open spec fn selection_moved(
        &self,
        map: &DisplaySnapshot,
        selection: Selection,
        times: Option<usize>,
        layout: &TextLayoutDetails,
    ) -> Option<Selection> {
        match self.moved(map, selection.spec_head(), selection.goal, times, layout) {
            Some((head, goal)) => Some(selection.with_head(head, goal)),
            None => None,
        }
    }

    /// The text that an operator acts on when this motion is applied to the
    /// cursor of `selection`; nothing where the motion fails.
    pub open spec fn range_at(
        &self,
        map: &DisplaySnapshot,
        selection: Selection,
        times: Option<usize>,
        expand_to_surrounding_newline: bool,
        layout: &TextLayoutDetails,
    ) -> Option<DisplayRange> {
        match self {
            Motion::ZedSearchResult { prior_selections, new_selections } => {
                if prior_selections@.len() > 0 && new_selections@.len() > 0 {
                    let prior = prior_selections@[0];
                    let new = new_selections@[0];
                    Some(
                        ordered(
                            earlier(map.to_display(prior.start), map.to_display(new.start)),
                            later(map.to_display(new.end), map.to_display(prior.end)),
                        ),
                    )
                } else {
                    None
                }
            },
            _ => match self.moved(map, selection.spec_head(), selection.goal, times, layout) {
                None => None,
                Some((head, goal)) => {
                    let moved = selection.with_head(head, goal);
                    if self.is_linewise() {
                        Some(linewise_range(map, moved, expand_to_surrounding_newline))
                    } else {
                        Some(charwise_range(map, self, moved))
                    }
                },
            },
        }
    }

    /// Computes the text that an operator acts on when this motion is
    /// applied to the cursor of `selection`.
    pub fn range(
        &self,
        map: &DisplaySnapshot,
        selection: Selection,
        times: Option<usize>,
        expand_to_surrounding_newline: bool,
        text_layout_details: &TextLayoutDetails,
    ) -> (found: Option<DisplayRange>)
        requires
            map.wf(),
        ensures
            found == self.range_at(
                map,
                selection,
                times,
                expand_to_surrounding_newline,
                text_layout_details,
            ),
    {
        match self {
            Motion::ZedSearchResult { prior_selections, new_selections } => {
                if prior_selections.len() > 0 && new_selections.len() > 0 {
                    let prior = prior_selections[0];
                    let new = new_selections[0];
                    let prior_start = map.point_to_display_point(prior.start);
                    let new_start = map.point_to_display_point(new.start);
                    let prior_end = map.point_to_display_point(prior.end);
                    let new_end = map.point_to_display_point(new.end);
                    let start = if precedes(new_start, prior_start) {
                        new_start
                    } else {
                        prior_start
                    };
                    let end = if precedes(new_end, prior_end) {
                        prior_end
                    } else {
                        new_end
                    };
                    if precedes(start, end) {
                        return Some(DisplayRange { start, end });
                    } else {
                        return Some(DisplayRange { start: end, end: start });
                    }
                } else {
                    return None;
                }
            },
            _ => {},
        }
        let (new_head, goal) = match self.move_point(
            map,
            selection.head(),
            selection.goal,
            times,
            text_layout_details,
        ) {
            Some(landed) => landed,
            None => {
                return None;
            },
        };
        let mut selection = selection;
        selection.set_head(new_head, goal);
        if self.linewise() {
            let mut start = map.prev_line_boundary(
                map.display_point_to_point(selection.start, Bias::Left),
            ).1;
            if expand_to_surrounding_newline {
                if selection.end.row < map.max_row() {
                    let end = map.clip_point(
                        DisplayPoint { row: selection.end.row + 1, column: 0 },
                        Bias::Right,
                    );
                    return Some(DisplayRange { start, end });
                } else if start.row > 0 {
                    start = map.clip_point(
                        DisplayPoint { row: start.row - 1, column: map.line_len(start.row - 1) },
                        Bias::Left,
                    );
                }
            }
            let end = map.next_line_boundary(
                map.display_point_to_point(selection.end, Bias::Left),
            ).1;
            Some(DisplayRange { start, end })
        } else {
            let mut end = selection.end;
            match self {
                Motion::NextWordStart { .. } => {
                    let start_row = map.display_point_to_point(selection.start, Bias::Left).row;
                    if map.display_point_to_point(end, Bias::Left).row > start_row {
                        end = map.point_to_display_point(
                            Point { row: start_row, column: map.buffer().line_length(start_row) },
                        );
                    }
                },
                _ => {},
            }
            let mut inclusive = self.inclusive();
            let start_point = map.display_point_to_point(selection.start, Bias::Left);
            let end_point = map.display_point_to_point(end, Bias::Left);
            let is_backspace = match self {
                Motion::Backspace => true,
                _ => false,
            };
            if !inclusive && !is_backspace && end_point.row > start_point.row && end_point.column
                == 0 {
                inclusive = true;
                end = map.clip_point(
                    map.next_line_boundary(Point { row: end_point.row - 1, column: 0 }).1,
                    Bias::Left,
                );
            }
            if inclusive && end.column < map.line_len(end.row) {
                end = saturating_right(map, end);
            }
            Some(DisplayRange { start: selection.start, end })
        }
    }

    /// Widens `selection` to the text that an operator acts on after this
    /// motion, and says whether the motion succeeded. A selection whose
    /// motion fails stays as it is.
    pub fn expand_selection(
        &self,
        map: &DisplaySnapshot,
        selection: &mut Selection,
        times: Option<usize>,
        expand_to_surrounding_newline: bool,
        text_layout_details: &TextLayoutDetails,
    ) -> (moved: bool)
        requires
            map.wf(),
        ensures
            moved == self.range_at(
                map,
                *old(selection),
                times,
                expand_to_surrounding_newline,
                text_layout_details,
            ) is Some,
            moved ==> *final(selection) == (Selection {
                start: self.range_at(
                    map,
                    *old(selection),
                    times,
                    expand_to_surrounding_newline,
                    text_layout_details,
                )->0.start,
                end: self.range_at(
                    map,
                    *old(selection),
                    times,
                    expand_to_surrounding_newline,
                    text_layout_details,
                )->0.end,
                ..*old(selection)
            }),
            !moved ==> *final(selection) == *old(selection),
    {
        match self.range(
            map,
            *selection,
            times,
            expand_to_surrounding_newline,
            text_layout_details,
        ) {
            Some(range) => {
                selection.start = range.start;
                selection.end = range.end;
                true
            },
            None => false,
        }
    }
}

} // verus!

//! Motions to the top, the middle and the bottom of what the window shows.

use crate::buffer::{Bias, Point};
use crate::display::{DisplayPoint, DisplaySnapshot};
use crate::selection::SelectionGoal;
use vstd::prelude::*;

verus! {

/// What the window shows of the display: the buffer point whose row is the
/// first one visible, the number of rows that are visible if that is known,
/// and the number of rows that the cursor keeps away from the window's
/// edges. All of them count whole rows.
#[derive(Clone, Copy, Debug, PartialEq, Eq, Structural)]
pub struct TextLayoutDetails {
    pub scroll_anchor: Point,
    pub visible_rows: Option<usize>,
    pub vertical_scroll_margin: usize,
}

/// The smaller of two numbers.
pub open spec fn least(a: int, b: int) -> int {
    if a <= b {
        a
    } else {
        b
    }
}

/// The first display row that the window shows.
pub open spec fn first_visible_row(map: &DisplaySnapshot, layout: &TextLayoutDetails) -> int {
    map.to_display(layout.scroll_anchor).row as int
}

/// A cursor in display row `row`, at column `column` or at the length of
/// the row where that is less.
pub open spec fn placed(map: &DisplaySnapshot, row: int, column: usize) -> (
    DisplayPoint,
    SelectionGoal,
) {
    (
        map.cursor_clipped(
            DisplayPoint {
                row: row as usize,
                column: least(column as int, map.row_len(row)) as usize,
            },
            Bias::Left,
        ),
        SelectionGoal::Unset,
    )
}

/// The row `times` rows below the top of the window, where `times` is at
/// least the scroll margin unless the window starts at the first row; no
/// row below the window or the display.
pub open spec fn window_top_at(
    map: &DisplaySnapshot,
    p: DisplayPoint,
    layout: &TextLayoutDetails,
    times: nat,
) -> (DisplayPoint, SelectionGoal) {
    let first = first_visible_row(map, layout);
    let down = if first != 0 && layout.vertical_scroll_margin > times {
        layout.vertical_scroll_margin as int
    } else {
        times as int
    };
    let row = match layout.visible_rows {
        Some(visible) => least(least(first + down, first + visible), map.max_display_row()),
        None => least(first + down, map.max_display_row()),
    };
    placed(map, row, p.column)
}

/// The row in the middle of what the window shows of the display. A window
/// that does not know how many rows it shows moves nothing.
pub open spec fn window_middle_at(
    map: &DisplaySnapshot,
    p: DisplayPoint,
    layout: &TextLayoutDetails,
) -> (DisplayPoint, SelectionGoal) {
    match layout.visible_rows {
        Some(visible) => {
            let first = first_visible_row(map, layout);
            let shown = least(visible as int, map.max_display_row() - first);
            let row = least(first + shown / 2, map.max_display_row());
            placed(map, row, p.column)
        },
        None => (p, SelectionGoal::Unset),
    }
}

/// `a - b`, or 0 where `b` is the larger.
pub open spec fn less(a: int, b: int) -> int {
    if a >= b {
        a - b
    } else {
        0
    }
}

/// The row `times` rows above the bottom of the window, where `times` is at
/// least the scroll margin unless the window reaches the end of the
/// display; no row above the window. A window that does not know how many
/// rows it shows moves nothing.
pub open spec fn window_bottom_at(
    map: &DisplaySnapshot,
    p: DisplayPoint,
    layout: &TextLayoutDetails,
    times: nat,
) -> (DisplayPoint, SelectionGoal) {
    match layout.visible_rows {
        Some(visible) => {
            let first = first_visible_row(map, layout);
            let bottom = first + less(visible as int, 1);
            let up = if bottom < map.max_display_row() && layout.vertical_scroll_margin > times {
                layout.vertical_scroll_margin as int
            } else {
                times as int
            };
            let capped = least(bottom, map.max_display_row());
            let row = if less(capped, up) < first {
                first
            } else {
                less(capped, up)
            };
            placed(map, row, p.column)
        },
        None => (p, SelectionGoal::Unset),
    }
}

/// Row `first + down`, but no row behind `limit`.
fn row_down(first: usize, down: usize, limit: usize) -> (row: usize)
    requires
        first <= limit,
    ensures
        row == least(first + down, limit as int),
{
    if down >= limit - first {
        limit
    } else {
        first + down
    }
}

/// Puts the cursor in a row, at its column or at the end of the row where
/// that is shorter.
fn place(map: &DisplaySnapshot, row: usize, column: usize) -> (moved: (DisplayPoint, SelectionGoal))
    requires
        map.wf(),
    ensures
        moved == placed(map, row as int, column),
{
    let len = map.line_len(row);
    let new_col = if column <= len {
        column
    } else {
        len
    };
    (map.clip_point(DisplayPoint { row, column: new_col }, Bias::Left), SelectionGoal::Unset)
}

/// Moves to the row `times` rows below the top of the window.
pub fn window_top(
    map: &DisplaySnapshot,
    point: DisplayPoint,
    text_layout_details: &TextLayoutDetails,
    times: usize,
) -> (moved: (DisplayPoint, SelectionGoal))
    requires
        map.wf(),
    ensures
        moved == window_top_at(map, point, text_layout_details, times as nat),
{
    let first = map.point_to_display_point(text_layout_details.scroll_anchor).row;
    let last = map.max_row();
    let down = if first != 0 && text_layout_details.vertical_scroll_margin > times {
        text_layout_details.vertical_scroll_margin
    } else {
        times
    };
    let row = match text_layout_details.visible_rows {
        Some(visible) => {
            let lower = row_down(first, down, last);
            let bottom = row_down(first, visible, last);
            if lower <= bottom {
                lower
            } else {
                bottom
            }
        },
        None => row_down(first, down, last),
    };
    place(map, row, point.column)
}

/// Moves to the row in the middle of the window.
pub fn window_middle(
    map: &DisplaySnapshot,
    point: DisplayPoint,
    text_layout_details: &TextLayoutDetails,
) -> (moved: (DisplayPoint, SelectionGoal))
    requires
        map.wf(),
    ensures
        moved == window_middle_at(map, point, text_layout_details),
{
    match text_layout_details.visible_rows {
        Some(visible) => {
            let first = map.point_to_display_point(text_layout_details.scroll_anchor).row;
            let last = map.max_row();
            let shown = if visible <= last - first {
                visible
            } else {
                last - first
            };
            let row = row_down(first, shown / 2, last);
            place(map, row, point.column)
        },
        None => (point, SelectionGoal::Unset),
    }
}

/// Moves to the row `times` rows above the bottom of the window.
pub fn window_bottom(
    map: &DisplaySnapshot,
    point: DisplayPoint,
    text_layout_details: &TextLayoutDetails,
    times: usize,
) -> (moved: (DisplayPoint, SelectionGoal))
    requires
        map.wf(),
    ensures
        moved == window_bottom_at(map, point, text_layout_details, times as nat),
{
    match text_layout_details.visible_rows {
        Some(visible) => {
            let first = map.point_to_display_point(text_layout_details.scroll_anchor).row;
            let last = map.max_row();
            let span = if visible >= 1 {
                visible - 1
            } else {
                0
            };
            let capped = row_down(first, span, last);
            let reaches_end = span >= last - first;
            let up = if !reaches_end && text_layout_details.vertical_scroll_margin > times {
                text_layout_details.vertical_scroll_margin
            } else {
                times
            };
            let above = if capped >= up {
                capped - up
            } else {
                0
            };
            let row = if above < first {
                first
            } else {
                above
            };
            place(map, row, point.column)
        },
        None => (point, SelectionGoal::Unset),
    }
}

} // verus!

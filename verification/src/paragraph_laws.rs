//! What holds of the motion to the end of a paragraph.

use crate::buffer::{Bias, Point};
use crate::display::{DisplayPoint, DisplaySnapshot};
use crate::movement::{line_blank, paragraph_end, paragraph_end_from};
use vstd::prelude::*;

verus! {

/// A line with text lies among the lines from `from` up to, not including,
/// `row`.
pub open spec fn text_between(map: &DisplaySnapshot, from: int, row: int) -> bool {
    exists|j: int| from <= j < row && !#[trigger] line_blank(map.text(), j)
}

/// Line `row` ends a paragraph for a cursor in line `from`: it is blank,
/// and a line with text lies between the cursor and it.
pub open spec fn ends_paragraph(map: &DisplaySnapshot, from: int, row: int) -> bool {
    line_blank(map.text(), row) && text_between(map, from, row)
}

/// Line `row` is the first below line `from` that ends a paragraph.
pub open spec fn first_paragraph_end(map: &DisplaySnapshot, from: int, row: int) -> bool {
    &&& from <= row < map.text().line_count()
    &&& ends_paragraph(map, from, row)
    &&& forall|m: int| from <= m < row ==> !#[trigger] ends_paragraph(map, from, m)
}

/// No line from `from` on ends a paragraph.
pub open spec fn no_paragraph_end(map: &DisplaySnapshot, from: int) -> bool {
    forall|m: int| from <= m < map.text().line_count() ==> !#[trigger] ends_paragraph(map, from, m)
}

/// The walk down the lines finds the first line that ends a paragraph.
pub proof fn lemma_paragraph_end_from(map: &DisplaySnapshot, from: int, row: int, seen: bool)
    requires
        0 <= from <= row <= map.text().line_count(),
        seen == text_between(map, from, row),
        forall|m: int| from <= m < row ==> !#[trigger] ends_paragraph(map, from, m),
    ensures
        no_paragraph_end(map, from) ==> paragraph_end_from(map, row, seen, 1)
            == map.max_display_point(),
        forall|k: int| #[trigger]
            first_paragraph_end(map, from, k) ==> paragraph_end_from(map, row, seen, 1)
                == map.to_display(Point { row: k as usize, column: 0 }),
    decreases map.text().line_count() - row,
{
    if row < map.text().line_count() {
        let blank = line_blank(map.text(), row);
        if seen && blank {
            assert(ends_paragraph(map, from, row));
            assert forall|k: int| #[trigger] first_paragraph_end(map, from, k) implies k == row by {
                if k < row {
                    assert(!ends_paragraph(map, from, k));
                } else if k > row {
                    assert(!ends_paragraph(map, from, row));
                }
            }
        } else {
            let next = seen || !blank;
            assert(next == text_between(map, from, row + 1)) by {
                if text_between(map, from, row + 1) {
                    let j = choose|j: int| from <= j < row + 1 && !#[trigger] line_blank(map.text(), j);
                    if j < row {
                        assert(text_between(map, from, row));
                    }
                }
                if seen {
                    let j = choose|j: int| from <= j < row && !#[trigger] line_blank(map.text(), j);
                    assert(from <= j < row + 1 && !line_blank(map.text(), j));
                }
                if !blank {
                    assert(from <= row < row + 1 && !line_blank(map.text(), row));
                }
            }
            assert(!ends_paragraph(map, from, row));
            lemma_paragraph_end_from(map, from, row + 1, next);
        }
    } else {
        assert forall|k: int| #[trigger] first_paragraph_end(map, from, k) implies false by {
            assert(!ends_paragraph(map, from, k));
        }
    }
}

/// The motion to the end of the paragraph lands on the first blank line
/// below the cursor that has a line with text between the cursor and it,
/// in its first column. Blank lines that follow one another without text
/// between them are passed as one. Where there is no such line, or the
/// cursor stands in the last line, the motion lands at the end of the
/// text.
pub proof fn law_paragraph_end_is_first_blank_after_text(map: &DisplaySnapshot, p: DisplayPoint)
    requires
        map.wf(),
    ensures
        map.to_point(p, Bias::Left).row < map.text().max_row() && no_paragraph_end(
            map,
            map.to_point(p, Bias::Left).row as int,
        ) ==> paragraph_end(map, p, 1) == map.max_display_point(),
        map.to_point(p, Bias::Left).row == map.text().max_row() ==> paragraph_end(map, p, 1)
            == map.max_display_point(),
        forall|k: int|
            map.to_point(p, Bias::Left).row < map.text().max_row() && #[trigger] first_paragraph_end(
                map,
                map.to_point(p, Bias::Left).row as int,
                k,
            ) ==> paragraph_end(map, p, 1) == map.to_display(Point { row: k as usize, column: 0 }),
{
    let row = map.to_point(p, Bias::Left).row as int;
    map.lemma_display_clipped(p, Bias::Left);
    if row < map.text().max_row() {
        assert(!text_between(map, row, row));
        lemma_paragraph_end_from(map, row, row, false);
    }
}

} // verus!

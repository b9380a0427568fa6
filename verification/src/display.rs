//! Display space: the rows that a text is shown in once long lines are
//! wrapped, and the conversion between display points and buffer points.

use crate::buffer::{brackets_sound, starts_ordered, Bias, Buffer, Point};
use crate::syntax::{BracketPair, Excerpt, ObjectRange};
use vstd::prelude::*;

verus! {

/// A position on the display: a display row and a count of characters into
/// it.
#[derive(Clone, Copy, Debug, PartialEq, Eq, Structural)]
pub struct DisplayPoint {
    pub row: usize,
    pub column: usize,
}

/// The part of a buffer line that one display row shows: columns `start`
/// up to, not including, `end` of line `line`.
#[derive(Clone, Copy, Debug)]
pub struct RowSpan {
    pub line: usize,
    pub start: usize,
    pub end: usize,
}

/// Row `r` of `rows` lies inside its line and continues where the row before
/// it stopped: in the same line, behind a row that shows something, or at the
/// start of the next line, behind a row that reaches the end of its line.
pub open spec fn row_follows(buffer: &Buffer, rows: Seq<RowSpan>, r: int) -> bool {
    let b = rows[r];
    &&& b.line < buffer.line_count()
    &&& b.start <= b.end <= buffer.line_len(b.line as int)
    &&& if r == 0 {
        b.line == 0 && b.start == 0
    } else {
        let a = rows[r - 1];
        ||| (a.line == b.line && a.end == b.start && a.start < a.end)
        ||| (b.line == a.line + 1 && a.end == buffer.line_len(a.line as int) && b.start == 0)
    }
}

/// Row `r` of `rows` is cut as wrapping at `width` characters cuts it: it
/// shows at most `width` characters, and where it continues a line, the row
/// before it is full and this one shows something. With a width of 0 no row
/// continues a line.
pub open spec fn row_fits(rows: Seq<RowSpan>, r: int, width: int) -> bool {
    let b = rows[r];
    if width <= 0 {
        b.start == 0
    } else {
        &&& b.end - b.start <= width
        &&& r > 0 && b.start > 0 ==> rows[r - 1].end - rows[r - 1].start == width && b.start < b.end
    }
}

/// The row that comes next, starting at column `start` of line `line`, would
/// continue `rows`.
pub open spec fn next_row_follows(buffer: &Buffer, rows: Seq<RowSpan>, line: int, start: int) -> bool {
    if rows.len() == 0 {
        line == 0 && start == 0
    } else {
        let a = rows[rows.len() - 1];
        ||| (a.line == line && a.end == start && a.start < a.end)
        ||| (line == a.line + 1 && a.end == buffer.line_len(a.line as int) && start == 0)
    }
}

/// The rows show the whole text, line after line, each line in one row or
/// more: every row continues the one before it, and the last row ends the
/// last line.
pub open spec fn rows_cover(buffer: &Buffer, rows: Seq<RowSpan>) -> bool {
    &&& 1 <= rows.len()
    &&& forall|r: int| 0 <= r < rows.len() ==> #[trigger] row_follows(buffer, rows, r)
    &&& rows[rows.len() - 1].line == buffer.max_row()
    &&& rows[rows.len() - 1].end == buffer.line_len(buffer.max_row())
}

/// Decides whether a row continues the rows before it.
fn does_row_follow(buffer: &Buffer, rows: &Vec<RowSpan>, r: usize) -> (follows: bool)
    requires
        buffer.wf(),
        r < rows@.len(),
    ensures
        follows == row_follows(buffer, rows@, r as int),
{
    let b = rows[r];
    if b.line >= buffer.line_total() || b.start > b.end || b.end > buffer.line_length(b.line) {
        return false;
    }
    if r == 0 {
        b.line == 0 && b.start == 0
    } else {
        let a = rows[r - 1];
        (a.line == b.line && a.end == b.start && a.start < a.end) || (a.line < b.line && b.line
            - a.line == 1 && a.end == buffer.line_length(a.line) && b.start == 0)
    }
}

/// The width that a wrapping choice stands for: 0 where lines are not
/// wrapped.
pub open spec fn wrap_width_of(wrap_width: Option<usize>) -> int {
    match wrap_width {
        Some(w) => w as int,
        None => 0,
    }
}

/// Rows that fit a text fit any buffer with the same text.
proof fn lemma_rows_carry_over(old: &DisplaySnapshot, new: &DisplaySnapshot)
    requires
        old.wf(),
        new.text().wf(),
        new.text().same_text(old.text()),
        new.spans() == old.spans(),
    ensures
        new.wf(),
{
    assert forall|r: int| 0 <= r < new.row_count() implies #[trigger] row_follows(
        new.text(),
        new.spans(),
        r,
    ) by {
        assert(row_follows(old.text(), old.spans(), r));
    }
}

/// A text together with the display rows it is shown in.
///
/// With `clip_at_line_ends` set, a clipped position never rests behind the
/// last character of a line that has characters, as in a mode where the
/// cursor sits on a character.
pub struct DisplaySnapshot {
    pub(crate) buffer: Buffer,
    pub(crate) rows: Vec<RowSpan>,
    pub(crate) clip_at_line_ends: bool,
}

impl DisplaySnapshot {
    /// The text that is displayed.
    pub open(crate) spec fn text(&self) -> &Buffer {
        &self.buffer
    }

    /// The display rows, top to bottom.
    pub open(crate) spec fn spans(&self) -> Seq<RowSpan> {
        self.rows@
    }

    /// Whether clipping keeps positions off the end of a line.
    pub open(crate) spec fn clips_line_ends(&self) -> bool {
        self.clip_at_line_ends
    }

    /// The number of display rows.
    pub open spec fn row_count(&self) -> int {
        self.spans().len() as int
    }

    /// The number of the last display row.
    pub open spec fn max_display_row(&self) -> int {
        self.row_count() - 1
    }

    /// The number of characters in display row `r`; 0 for a row that the
    /// display does not have.
    pub open spec fn row_len(&self, r: int) -> int {
        if 0 <= r < self.row_count() {
            self.spans()[r].end - self.spans()[r].start
        } else {
            0
        }
    }

    /// Whether row `r` is the last row of its buffer line.
    pub open spec fn ends_line(&self, r: int) -> bool {
        r + 1 >= self.row_count() || self.spans()[r + 1].start == 0
    }

    /// The rows show the whole text, line after line, each line in one row
    /// or more.
    pub open spec fn wf(&self) -> bool {
        &&& self.text().wf()
        &&& 1 <= self.row_count() <= usize::MAX
        &&& forall|r: int| 0 <= r < self.row_count() ==> #[trigger] row_follows(self.text(), self.spans(), r)
        &&& self.spans()[self.max_display_row()].line == self.text().max_row()
        &&& self.spans()[self.max_display_row()].end == self.text().line_len(self.text().max_row())
    }

    /// The rows are those that wrapping each line at `width` characters
    /// gives; a width of 0 stands for no wrapping.
    pub open spec fn wrapped_at(&self, width: int) -> bool {
        forall|r: int| 0 <= r < self.row_count() ==> #[trigger] row_fits(self.spans(), r, width)
    }

    /// Whether `p` is a place where a cursor can stand on the display: inside
    /// a row, or behind the last character of a line.
    pub open spec fn valid_display(&self, p: DisplayPoint) -> bool {
        &&& p.row <= self.max_display_row()
        &&& p.column < self.row_len(p.row as int) || (p.column == self.row_len(p.row as int)
            && self.ends_line(p.row as int))
    }

    /// The nearest place on the display. The row is capped at the last row.
    /// A column behind the end of a line is capped at the line's end. A
    /// column at or behind the end of a wrapped row moves, by the bias, to
    /// the row's last character or to the start of the next row.
    pub open spec fn display_clipped(&self, p: DisplayPoint, bias: Bias) -> DisplayPoint {
        let row = if p.row <= self.max_display_row() {
            p.row as int
        } else {
            self.max_display_row()
        };
        if p.column < self.row_len(row) {
            DisplayPoint { row: row as usize, column: p.column }
        } else if self.ends_line(row) {
            DisplayPoint { row: row as usize, column: self.row_len(row) as usize }
        } else if bias == Bias::Right {
            DisplayPoint { row: (row + 1) as usize, column: 0 }
        } else {
            DisplayPoint { row: row as usize, column: (self.row_len(row) - 1) as usize }
        }
    }

    /// A point that stands exactly at the end of its row steps back by one
    /// column, where there is one; any other point stays as it is.
    pub open spec fn line_end_clipped(&self, p: DisplayPoint) -> DisplayPoint {
        if p.column == self.row_len(p.row as int) {
            let column = if p.column > 0 {
                p.column - 1
            } else {
                0
            };
            self.display_clipped(DisplayPoint { row: p.row, column: column as usize }, Bias::Left)
        } else {
            p
        }
    }

    /// The place a cursor is clipped to: the nearest place on the display,
    /// kept off the end of the line where the snapshot asks for that.
    pub open spec fn cursor_clipped(&self, p: DisplayPoint, bias: Bias) -> DisplayPoint {
        let c = self.display_clipped(p, bias);
        if self.clips_line_ends() {
            self.line_end_clipped(c)
        } else {
            c
        }
    }

    /// The last place on the display: the end of the last row.
    pub open spec fn max_display_point(&self) -> DisplayPoint {
        DisplayPoint {
            row: self.max_display_row() as usize,
            column: self.row_len(self.max_display_row()) as usize,
        }
    }

    /// The buffer point shown at a display point, after clipping.
    pub open spec fn to_point(&self, p: DisplayPoint, bias: Bias) -> Point {
        let c = self.display_clipped(p, bias);
        let span = self.spans()[c.row as int];
        Point { row: span.line, column: (span.start + c.column) as usize }
    }

    /// The buffer offset shown at a display point, after clipping.
    pub open spec fn to_offset(&self, p: DisplayPoint, bias: Bias) -> int {
        self.text().offset_of(self.to_point(p, bias))
    }

    /// Whether display row `r` shows the valid buffer point `q`.
    pub open spec fn row_shows(&self, r: int, q: Point) -> bool {
        let span = self.spans()[r];
        &&& span.line == q.row
        &&& span.start <= q.column
        &&& q.column < span.end || self.ends_line(r)
    }

    /// The first row from `r` on that shows `q`; the last row if none does.
    pub open spec fn row_search(&self, q: Point, r: int) -> int
        decreases self.row_count() - r,
    {
        if r + 1 < self.row_count() && !self.row_shows(r, q) {
            self.row_search(q, r + 1)
        } else {
            r
        }
    }

    /// The display point that shows a buffer point, after clipping. A point
    /// at which a line is wrapped is shown at the start of the later row.
    pub open spec fn to_display(&self, p: Point) -> DisplayPoint {
        let q = self.text().clipped(p);
        let r = self.row_search(q, 0);
        DisplayPoint { row: r as usize, column: (q.column - self.spans()[r].start) as usize }
    }

    /// The display point that shows a buffer offset.
    pub open spec fn offset_to_display(&self, o: int) -> DisplayPoint {
        self.to_display(self.text().point_of(o))
    }

    /// The start of the buffer line of `p`, in both spaces.
    pub open spec fn line_start_of(&self, p: Point) -> (Point, DisplayPoint) {
        let q = Point { row: self.text().clipped(p).row, column: 0 };
        (q, self.to_display(q))
    }

    /// The end of the buffer line of `p`, in both spaces.
    pub open spec fn line_end_of(&self, p: Point) -> (Point, DisplayPoint) {
        let row = self.text().clipped(p).row;
        let q = Point { row, column: self.text().line_len(row as int) as usize };
        (q, self.to_display(q))
    }

    /// Whether `q` stands at or behind the start of row `r`.
    pub open spec fn reaches_row(&self, r: int, q: Point) -> bool {
        let span = self.spans()[r];
        span.line < q.row || (span.line == q.row && span.start <= q.column)
    }

    /// A row's span lies inside its buffer line.
    pub proof fn lemma_row(&self, r: int)
        requires
            self.wf(),
            0 <= r < self.row_count(),
        ensures
            0 <= self.spans()[r].line < self.text().line_count(),
            self.spans()[r].start <= self.spans()[r].end <= self.text().line_len(
                self.spans()[r].line as int,
            ),
            self.row_len(r) >= 0,
            self.ends_line(r) ==> self.spans()[r].end == self.text().line_len(
                self.spans()[r].line as int,
            ),
            !self.ends_line(r) ==> self.row_len(r) > 0 && self.spans()[r + 1].line
                == self.spans()[r].line && self.spans()[r + 1].start == self.spans()[r].end,
            r + 1 < self.row_count() && self.ends_line(r) ==> self.spans()[r + 1].line
                == self.spans()[r].line + 1,
    {
        assert(row_follows(self.text(), self.spans(), r));
        if r + 1 < self.row_count() {
            assert(row_follows(self.text(), self.spans(), r + 1));
        }
    }

    /// The search for the row of a valid point ends at a row that shows it.
    pub proof fn lemma_row_search(&self, q: Point, r: int)
        requires
            self.wf(),
            self.text().valid_point(q),
            0 <= r < self.row_count(),
            self.reaches_row(r, q),
        ensures
            r <= self.row_search(q, r) < self.row_count(),
            self.row_shows(self.row_search(q, r), q),
        decreases self.row_count() - r,
    {
        self.lemma_row(r);
        if r + 1 < self.row_count() && !self.row_shows(r, q) {
            self.lemma_row(r + 1);
            self.lemma_row_search(q, r + 1);
        }
    }

    /// Every buffer point is shown at a place of the display, and that place
    /// leads back to the point.
    pub proof fn lemma_to_display(&self, p: Point)
        requires
            self.wf(),
        ensures
            self.valid_display(self.to_display(p)),
            self.row_shows(self.to_display(p).row as int, self.text().clipped(p)),
            self.to_display(p).row == self.row_search(self.text().clipped(p), 0),
            self.to_display(p).column + self.spans()[self.to_display(p).row as int].start
                == self.text().clipped(p).column,
            forall|bias: Bias|
                self.display_clipped(self.to_display(p), bias) == self.to_display(p),
            forall|bias: Bias| #[trigger]
                self.to_point(self.to_display(p), bias) == self.text().clipped(p),
    {
        let q = self.text().clipped(p);
        self.text().lemma_clipped(p);
        assert(row_follows(self.text(), self.spans(), 0));
        self.lemma_row_search(q, 0);
        let r = self.row_search(q, 0);
        self.lemma_row(r);
    }

    /// Clipping gives a place of the display and leaves such a place alone.
    pub proof fn lemma_display_clipped(&self, p: DisplayPoint, bias: Bias)
        requires
            self.wf(),
        ensures
            self.valid_display(self.display_clipped(p, bias)),
            self.valid_display(p) ==> self.display_clipped(p, bias) == p,
            self.text().valid_point(self.to_point(p, bias)),
    {
        let row = if p.row <= self.max_display_row() {
            p.row as int
        } else {
            self.max_display_row()
        };
        self.lemma_row(row);
        if row + 1 < self.row_count() {
            self.lemma_row(row + 1);
        }
        let c = self.display_clipped(p, bias);
        self.lemma_row(c.row as int);
    }

    /// Lays a text out in display rows. With `wrap_width` of `Some(w)` and
    /// `w` above 0 a line longer than `w` characters is shown in rows of `w`
    /// characters, the last of them holding the rest; otherwise each line is
    /// one row.
    pub fn new(text: Vec<char>, wrap_width: Option<usize>, clip_at_line_ends: bool) -> (map:
        DisplaySnapshot)
        ensures
            map.wf(),
            map.text().chars() == text@,
            map.clips_line_ends() == clip_at_line_ends,
            map.wrapped_at(wrap_width_of(wrap_width)),
            map.text().bracket_pairs().len() == 0,
            map.text().tag_pairs().len() == 0,
            map.text().object_ranges().len() == 0,
            map.text().excerpt_list().len() == 0,
    {
        let buffer = Buffer::new(text);
        let width = match wrap_width {
            Some(w) => w,
            None => 0,
        };
        let lines = buffer.line_total();
        let mut rows: Vec<RowSpan> = Vec::new();
        let mut line: usize = 0;
        while line < lines
            invariant
                buffer.wf(),
                lines == buffer.line_count(),
                0 <= line <= lines,
                forall|r: int|
                    0 <= r < rows@.len() ==> #[trigger] row_follows(&buffer, rows@, r) && row_fits(
                        rows@,
                        r,
                        width as int,
                    ),
                next_row_follows(&buffer, rows@, line as int, 0),
                line > 0 ==> rows@.len() > 0 && rows@[rows@.len() - 1].line == line - 1
                    && rows@[rows@.len() - 1].end == buffer.line_len(line - 1),
            decreases lines - line,
        {
            let len = buffer.line_length(line);
            let mut start: usize = 0;
            let ghost outer = rows@;
            if width > 0 {
                assert forall|r: int| 0 <= r < rows@.len() implies #[trigger] row_follows(
                    &buffer,
                    rows@,
                    r,
                ) && row_fits(rows@, r, width as int) by {
                    assert(row_follows(&buffer, outer, r));
                }
                while len - start > width
                    invariant
                        buffer.wf(),
                        width > 0,
                        0 <= line < buffer.line_count(),
                        len == buffer.line_len(line as int),
                        0 <= start <= len,
                        forall|r: int|
                            0 <= r < rows@.len() ==> #[trigger] row_follows(&buffer, rows@, r)
                                && row_fits(rows@, r, width as int),
                        next_row_follows(&buffer, rows@, line as int, start as int),
                        start > 0 ==> rows@.len() > 0 && rows@[rows@.len() - 1].end
                            - rows@[rows@.len() - 1].start == width && start < len,
                    decreases len - start,
                {
                    let ghost before = rows@;
                    rows.push(RowSpan { line, start, end: start + width });
                    proof {
                        assert forall|r: int| 0 <= r < rows@.len() implies #[trigger] row_follows(
                            &buffer,
                            rows@,
                            r,
                        ) && row_fits(rows@, r, width as int) by {
                            if r < before.len() {
                                assert(row_follows(&buffer, before, r));
                            }
                        }
                    }
                    start += width;
                }
            }
            let ghost before = rows@;
            rows.push(RowSpan { line, start, end: len });
            proof {
                assert forall|r: int| 0 <= r < rows@.len() implies #[trigger] row_follows(
                    &buffer,
                    rows@,
                    r,
                ) && row_fits(rows@, r, width as int) by {
                    if r < before.len() {
                        assert(row_follows(&buffer, before, r));
                    }
                }
            }
            line += 1;
        }
        let row_total = rows.len();
        proof {
            assert(1 <= row_total <= usize::MAX);
            assert forall|r: int| 0 <= r < rows@.len() implies #[trigger] row_fits(
                rows@,
                r,
                width as int,
            ) by {
                assert(row_follows(&buffer, rows@, r));
            }
        }
        DisplaySnapshot { buffer, rows, clip_at_line_ends }
    }

    /// Whether `other` shows the same text in the same rows, clipped alike.
    pub open spec fn same_layout(&self, other: &DisplaySnapshot) -> bool {
        &&& self.text().chars() == other.text().chars()
        &&& self.spans() == other.spans()
        &&& self.clips_line_ends() == other.clips_line_ends()
    }

    /// Names the bracket pairs of the text, in the order in which the
    /// motions are to try them. Each pair must lie in the text, its opening
    /// bracket in front of its closing one, neither starting with a line
    /// break, and no two pairs may share a bracket; a list that is not so is
    /// refused, and the snapshot comes back as it was.
    pub fn with_brackets(self, pairs: Vec<BracketPair>) -> (map: DisplaySnapshot)
        requires
            self.wf(),
        ensures
            map.wf(),
            map.same_layout(&self),
            map.text().bracket_pairs() == if brackets_sound(self.text().chars(), pairs@) {
                pairs@
            } else {
                self.text().bracket_pairs()
            },
            map.text().tag_pairs() == self.text().tag_pairs(),
            map.text().object_ranges() == self.text().object_ranges(),
            map.text().excerpt_list() == self.text().excerpt_list(),
    {
        let ghost before = self;
        let map = DisplaySnapshot {
            buffer: self.buffer.with_brackets(pairs),
            rows: self.rows,
            clip_at_line_ends: self.clip_at_line_ends,
        };
        proof {
            lemma_rows_carry_over(&before, &map);
        }
        map
    }

    /// Names the markup elements of the text, each by its opening and its
    /// closing tag.
    pub fn with_tags(self, pairs: Vec<BracketPair>) -> (map: DisplaySnapshot)
        requires
            self.wf(),
        ensures
            map.wf(),
            map.same_layout(&self),
            map.text().tag_pairs() == pairs@,
            map.text().bracket_pairs() == self.text().bracket_pairs(),
            map.text().object_ranges() == self.text().object_ranges(),
            map.text().excerpt_list() == self.text().excerpt_list(),
    {
        let ghost before = self;
        let map = DisplaySnapshot {
            buffer: self.buffer.with_tags(pairs),
            rows: self.rows,
            clip_at_line_ends: self.clip_at_line_ends,
        };
        proof {
            lemma_rows_carry_over(&before, &map);
        }
        map
    }

    /// Names the structural objects of the text. They must be listed by
    /// where they start; a list that is not is refused, and the snapshot
    /// comes back as it was.
    pub fn with_objects(self, objects: Vec<ObjectRange>) -> (map: DisplaySnapshot)
        requires
            self.wf(),
        ensures
            map.wf(),
            map.same_layout(&self),
            map.text().bracket_pairs() == self.text().bracket_pairs(),
            map.text().tag_pairs() == self.text().tag_pairs(),
            map.text().excerpt_list() == self.text().excerpt_list(),
            map.text().object_ranges() == if starts_ordered(objects@) {
                objects@
            } else {
                self.text().object_ranges()
            },
    {
        let ghost before = self;
        let map = DisplaySnapshot {
            buffer: self.buffer.with_objects(objects),
            rows: self.rows,
            clip_at_line_ends: self.clip_at_line_ends,
        };
        proof {
            lemma_rows_carry_over(&before, &map);
        }
        map
    }

    /// Names the excerpts that the text is composed of, first to last.
    pub fn with_excerpts(self, excerpts: Vec<Excerpt>) -> (map: DisplaySnapshot)
        requires
            self.wf(),
        ensures
            map.wf(),
            map.same_layout(&self),
            map.text().excerpt_list() == excerpts@,
            map.text().bracket_pairs() == self.text().bracket_pairs(),
            map.text().tag_pairs() == self.text().tag_pairs(),
            map.text().object_ranges() == self.text().object_ranges(),
    {
        let ghost before = self;
        let map = DisplaySnapshot {
            buffer: self.buffer.with_excerpts(excerpts),
            rows: self.rows,
            clip_at_line_ends: self.clip_at_line_ends,
        };
        proof {
            lemma_rows_carry_over(&before, &map);
        }
        map
    }

    /// Shows a text in the rows given, as a display lays them out that
    /// wraps lines where it sees fit. Rows that do not show the whole text,
    /// line after line, are refused.
    pub fn from_rows(buffer: Buffer, rows: Vec<RowSpan>, clip_at_line_ends: bool) -> (map: Option<
        DisplaySnapshot,
    >)
        requires
            buffer.wf(),
        ensures
            map is Some == rows_cover(&buffer, rows@),
            map is Some ==> map->0.wf() && *map->0.text() == buffer && map->0.spans() == rows@
                && map->0.clips_line_ends() == clip_at_line_ends,
    {
        let count = rows.len();
        if count == 0 {
            return None;
        }
        let mut r: usize = 0;
        while r < count
            invariant
                buffer.wf(),
                count == rows@.len(),
                0 <= r <= count,
                forall|k: int| 0 <= k < r ==> #[trigger] row_follows(&buffer, rows@, k),
            decreases count - r,
        {
            if !does_row_follow(&buffer, &rows, r) {
                return None;
            }
            r += 1;
        }
        let last = rows[count - 1];
        assert(row_follows(&buffer, rows@, count - 1));
        if last.line != buffer.last_row() || last.end != buffer.line_length(last.line) {
            return None;
        }
        Some(DisplaySnapshot { buffer, rows, clip_at_line_ends })
    }

    /// The text that is displayed.
    pub fn buffer(&self) -> (buffer: &Buffer)
        ensures
            buffer == self.text(),
    {
        &self.buffer
    }

    /// Whether clipping keeps positions off the end of a line.
    pub fn clip_at_line_ends(&self) -> (on: bool)
        ensures
            on == self.clips_line_ends(),
    {
        self.clip_at_line_ends
    }

    /// The number of the last display row.
    pub fn max_row(&self) -> (row: usize)
        requires
            self.wf(),
        ensures
            row == self.max_display_row(),
    {
        self.rows.len() - 1
    }

    /// The number of characters in a display row, 0 for a row past the last.
    pub fn line_len(&self, row: usize) -> (n: usize)
        requires
            self.wf(),
        ensures
            n == self.row_len(row as int),
    {
        if row < self.rows.len() {
            proof {
                self.lemma_row(row as int);
            }
            self.rows[row].end - self.rows[row].start
        } else {
            0
        }
    }

    /// Whether a display row is the last row of its buffer line.
    pub fn row_ends_line(&self, row: usize) -> (last: bool)
        requires
            self.wf(),
            row <= self.max_display_row(),
        ensures
            last == self.ends_line(row as int),
    {
        row + 1 >= self.rows.len() || self.rows[row + 1].start == 0
    }

    /// The last place on the display.
    pub fn max_point(&self) -> (p: DisplayPoint)
        requires
            self.wf(),
        ensures
            p == self.max_display_point(),
            self.valid_display(p),
    {
        let row = self.max_row();
        DisplayPoint { row, column: self.line_len(row) }
    }

    /// Moves a point to the nearest place on the display, whatever the
    /// snapshot says of line ends.
    pub fn clip_ignoring_line_ends(&self, p: DisplayPoint, bias: Bias) -> (q: DisplayPoint)
        requires
            self.wf(),
        ensures
            q == self.display_clipped(p, bias),
            self.valid_display(q),
    {
        let row = if p.row <= self.max_row() {
            p.row
        } else {
            self.max_row()
        };
        let len = self.line_len(row);
        proof {
            self.lemma_display_clipped(p, bias);
            self.lemma_row(row as int);
        }
        if p.column < len {
            DisplayPoint { row, column: p.column }
        } else if self.row_ends_line(row) {
            DisplayPoint { row, column: len }
        } else {
            match bias {
                Bias::Right => DisplayPoint { row: row + 1, column: 0 },
                Bias::Left => DisplayPoint { row, column: len - 1 },
            }
        }
    }

    /// Steps back from the end of a row.
    pub fn clip_at_line_end(&self, p: DisplayPoint) -> (q: DisplayPoint)
        requires
            self.wf(),
        ensures
            q == self.line_end_clipped(p),
    {
        if p.column == self.line_len(p.row) {
            let column = if p.column > 0 {
                p.column - 1
            } else {
                0
            };
            self.clip_ignoring_line_ends(DisplayPoint { row: p.row, column }, Bias::Left)
        } else {
            p
        }
    }

    /// Clips a cursor position.
    pub fn clip_point(&self, p: DisplayPoint, bias: Bias) -> (q: DisplayPoint)
        requires
            self.wf(),
        ensures
            q == self.cursor_clipped(p, bias),
            self.valid_display(q),
    {
        let c = self.clip_ignoring_line_ends(p, bias);
        if self.clip_at_line_ends {
            proof {
                self.lemma_row(c.row as int);
                let back = DisplayPoint {
                    row: c.row,
                    column: if c.column > 0 {
                        (c.column - 1) as usize
                    } else {
                        0
                    },
                };
                self.lemma_display_clipped(back, Bias::Left);
            }
            self.clip_at_line_end(c)
        } else {
            c
        }
    }

    /// The buffer point shown at a display point, after clipping.
    pub fn display_point_to_point(&self, p: DisplayPoint, bias: Bias) -> (q: Point)
        requires
            self.wf(),
        ensures
            q == self.to_point(p, bias),
            self.text().valid_point(q),
    {
        let c = self.clip_ignoring_line_ends(p, bias);
        proof {
            self.lemma_display_clipped(p, bias);
            self.lemma_row(c.row as int);
            self.text().lemma_lines(self.spans()[c.row as int].line as int);
        }
        let span = &self.rows[c.row];
        Point { row: span.line, column: span.start + c.column }
    }

    /// The buffer offset shown at a display point, after clipping.
    pub fn display_point_to_offset(&self, p: DisplayPoint, bias: Bias) -> (o: usize)
        requires
            self.wf(),
        ensures
            o == self.to_offset(p, bias),
            o <= self.text().chars().len(),
    {
        let q = self.display_point_to_point(p, bias);
        self.buffer.point_to_offset(q)
    }

    /// The display point that shows a buffer point, after clipping.
    pub fn point_to_display_point(&self, p: Point) -> (d: DisplayPoint)
        requires
            self.wf(),
        ensures
            d == self.to_display(p),
            self.valid_display(d),
    {
        let q = self.buffer.clip_point(p);
        let count = self.rows.len();
        let mut r: usize = 0;
        proof {
            self.lemma_to_display(p);
            self.lemma_row(0);
        }
        while r + 1 < count && !(self.rows[r].line == q.row && self.rows[r].start <= q.column && (
            q.column < self.rows[r].end || self.rows[r + 1].start == 0))
            invariant
                self.wf(),
                count == self.row_count(),
                0 <= r < count,
                self.row_search(q, r as int) == self.row_search(q, 0),
            decreases count - r,
        {
            r += 1;
        }
        DisplayPoint { row: r, column: q.column - self.rows[r].start }
    }

    /// The display point that shows a buffer offset.
    pub fn offset_to_display_point(&self, o: usize) -> (d: DisplayPoint)
        requires
            self.wf(),
        ensures
            d == self.offset_to_display(o as int),
            self.valid_display(d),
    {
        let p = self.buffer.offset_to_point(o);
        self.point_to_display_point(p)
    }

    /// The start of the buffer line of `p`, as a buffer point and as a
    /// display point.
    pub fn prev_line_boundary(&self, p: Point) -> (ends: (Point, DisplayPoint))
        requires
            self.wf(),
        ensures
            ends == self.line_start_of(p),
    {
        let q = Point { row: self.buffer.clip_point(p).row, column: 0 };
        (q, self.point_to_display_point(q))
    }

    /// The end of the buffer line of `p`, as a buffer point and as a display
    /// point.
    pub fn next_line_boundary(&self, p: Point) -> (ends: (Point, DisplayPoint))
        requires
            self.wf(),
        ensures
            ends == self.line_end_of(p),
    {
        let row = self.buffer.clip_point(p).row;
        let q = Point { row, column: self.buffer.line_length(row) };
        (q, self.point_to_display_point(q))
    }
}

} // verus!

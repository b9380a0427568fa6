//! The text of a buffer, cut into lines, with positions as offsets and as
//! points.

use crate::syntax::{BracketPair, Excerpt, ObjectRange};
use vstd::prelude::*;

verus! {

/// A position in the buffer: a line and a count of characters into it.
#[derive(Clone, Copy, Debug, PartialEq, Eq, Structural)]
pub struct Point {
    pub row: usize,
    pub column: usize,
}

/// Which neighbour to take when a position cannot be represented.
#[derive(Clone, Copy, Debug, PartialEq, Eq, Structural)]
pub enum Bias {
    Left,
    Right,
}

/// Object `i` of the list starts no earlier than the one before it.
pub open spec fn starts_in_turn(objects: Seq<ObjectRange>, i: int) -> bool {
    objects[i - 1].start <= objects[i].start
}

/// Each object of the list starts no earlier than the one before it.
pub open spec fn starts_ordered(objects: Seq<ObjectRange>) -> bool {
    forall|i: int| 0 < i < objects.len() ==> #[trigger] starts_in_turn(objects, i)
}

/// In a list ordered step by step, any later object starts no earlier than
/// any earlier one.
pub proof fn law_objects_start_in_order(objects: Seq<ObjectRange>, i: int, j: int)
    requires
        starts_ordered(objects),
        0 <= i <= j < objects.len(),
    ensures
        objects[i].start <= objects[j].start,
    decreases j - i,
{
    if i < j {
        law_objects_start_in_order(objects, i, j - 1);
        assert(starts_in_turn(objects, j));
    }
}

/// Whether each object of the list starts no earlier than the one before
/// it.
pub fn are_starts_ordered(objects: &Vec<ObjectRange>) -> (ordered: bool)
    ensures
        ordered == starts_ordered(objects@),
{
    let mut i: usize = 1;
    while i < objects.len()
        invariant
            1 <= i,
            forall|k: int| 0 < k < i && k < objects@.len() ==> #[trigger] starts_in_turn(objects@, k),
        decreases objects@.len() - i,
    {
        if objects[i - 1].start > objects[i].start {
            assert(!starts_in_turn(objects@, i as int));
            return false;
        }
        i += 1;
    }
    true
}

/// Pair `pair` is a pair of brackets of `text`: its delimiters lie in the
/// text one behind the other, and neither starts with a line break.
pub open spec fn bracket_of(text: Seq<char>, pair: BracketPair) -> bool {
    &&& pair.in_order()
    &&& pair.close_end <= text.len()
    &&& text[pair.open_start as int] != '\n'
    &&& text[pair.close_start as int] != '\n'
}

/// The pairs are brackets of `text`, and no two of them share a bracket.
pub open spec fn brackets_sound(text: Seq<char>, pairs: Seq<BracketPair>) -> bool {
    &&& forall|i: int| 0 <= i < pairs.len() ==> bracket_of(text, #[trigger] pairs[i])
    &&& forall|i: int, j: int|
        0 <= i < j < pairs.len() ==> (#[trigger] pairs[i]).apart_from(#[trigger] pairs[j])
}

/// Whether a pair is a pair of brackets of a text.
fn is_bracket_of(text: &Vec<char>, pair: &BracketPair) -> (sound: bool)
    ensures
        sound == bracket_of(text@, *pair),
{
    pair.is_in_order() && pair.close_end <= text.len() && text[pair.open_start] != '\n'
        && text[pair.close_start] != '\n'
}

/// Whether the pairs are brackets of a text of which no two share a
/// bracket.
pub fn are_brackets_sound(text: &Vec<char>, pairs: &Vec<BracketPair>) -> (sound: bool)
    ensures
        sound == brackets_sound(text@, pairs@),
{
    let count = pairs.len();
    let mut i: usize = 0;
    while i < count
        invariant
            count == pairs@.len(),
            0 <= i <= count,
            forall|a: int| 0 <= a < i ==> bracket_of(text@, #[trigger] pairs@[a]),
            forall|a: int, b: int|
                0 <= a < i && a < b < count ==> (#[trigger] pairs@[a]).apart_from(
                    #[trigger] pairs@[b],
                ),
        decreases count - i,
    {
        if !is_bracket_of(text, &pairs[i]) {
            return false;
        }
        let mut j: usize = i + 1;
        while j < count
            invariant
                count == pairs@.len(),
                0 <= i < j <= count,
                forall|b: int| i < b < j ==> pairs@[i as int].apart_from(#[trigger] pairs@[b]),
            decreases count - j,
        {
            if !pairs[i].is_apart_from(&pairs[j]) {
                return false;
            }
            j += 1;
        }
        i += 1;
    }
    true
}

/// An immutable text. Lines are separated by `'\n'`; a text always has at
/// least one line, and `line_starts` holds the offset at which each begins.
///
/// Beside the text the buffer carries what its syntax is known to hold:
/// bracket pairs and markup elements, in the order in which they are to be
/// tried, and structural objects. A text may be composed of excerpts; with
/// no excerpt named, it is one text of its own.
pub struct Buffer {
    pub(crate) text: Vec<char>,
    pub(crate) line_starts: Vec<usize>,
    pub(crate) brackets: Vec<BracketPair>,
    pub(crate) tags: Vec<BracketPair>,
    pub(crate) objects: Vec<ObjectRange>,
    pub(crate) excerpts: Vec<Excerpt>,
}

impl Buffer {
    /// The characters of the text.
    pub open(crate) spec fn chars(&self) -> Seq<char> {
        self.text@
    }

    /// The bracket pairs of the text.
    pub open(crate) spec fn bracket_pairs(&self) -> Seq<BracketPair> {
        self.brackets@
    }

    /// The markup elements of the text, each as its opening and its closing
    /// tag.
    pub open(crate) spec fn tag_pairs(&self) -> Seq<BracketPair> {
        self.tags@
    }

    /// The structural objects of the text.
    pub open(crate) spec fn object_ranges(&self) -> Seq<ObjectRange> {
        self.objects@
    }

    /// The excerpts that the text is composed of.
    pub open(crate) spec fn excerpt_list(&self) -> Seq<Excerpt> {
        self.excerpts@
    }

    /// The number of lines, one more than the number of line breaks.
    pub open(crate) spec fn line_count(&self) -> int {
        self.line_starts@.len() as int
    }

    /// The offset of the first character of line `row`.
    pub open(crate) spec fn line_start(&self, row: int) -> int {
        self.line_starts@[row] as int
    }

    /// The offset just behind the last character of line `row`: that of its
    /// line break, or the length of the text for the last line.
    pub open spec fn line_end(&self, row: int) -> int {
        if row + 1 < self.line_count() {
            self.line_start(row + 1) - 1
        } else {
            self.chars().len() as int
        }
    }

    /// The number of characters of line `row`, its line break left out; 0 for
    /// a row that the text does not have.
    pub open spec fn line_len(&self, row: int) -> int {
        if 0 <= row < self.line_count() {
            self.line_end(row) - self.line_start(row)
        } else {
            0
        }
    }

    /// The number of the last line.
    pub open spec fn max_row(&self) -> int {
        self.line_count() - 1
    }

    /// Line `row` holds no line break.
    pub open(crate) spec fn line_unbroken(&self, row: int) -> bool {
        forall|o: int| self.line_start(row) <= o < self.line_end(row) ==> self.text@[o] != '\n'
    }

    /// Line `row` starts in the text, behind a line break if it is not the
    /// first.
    pub open(crate) spec fn line_begins(&self, row: int) -> bool {
        if row == 0 {
            self.line_starts@[0] == 0
        } else {
            &&& self.line_starts@[row - 1] < self.line_starts@[row] <= self.text@.len()
            &&& self.text@[self.line_starts@[row] - 1] == '\n'
        }
    }

    /// The structural objects are listed by where they start.
    pub open spec fn objects_ordered(&self) -> bool {
        starts_ordered(self.object_ranges())
    }

    /// The bracket pairs are brackets of the text, and no two of them share
    /// a bracket.
    pub open spec fn brackets_apart(&self) -> bool {
        brackets_sound(self.chars(), self.bracket_pairs())
    }

    /// Whether `other` holds the same text, cut into the same lines.
    pub open(crate) spec fn same_text(&self, other: &Buffer) -> bool {
        self.text@ == other.text@ && self.line_starts@ == other.line_starts@
    }

    /// What holds of the lines of one buffer holds of those of another with
    /// the same text.
    pub proof fn lemma_same_text(&self, other: &Buffer)
        requires
            other.wf(),
            self.same_text(other),
            self.objects_ordered(),
            self.brackets_apart(),
        ensures
            self.wf(),
    {
        assert forall|i: int| 0 <= i < self.line_starts@.len() implies #[trigger] self.line_begins(
            i,
        ) && self.line_unbroken(i) by {
            assert(0 <= i < other.line_starts@.len());
            assert(other.line_begins(i));
            assert(other.line_unbroken(i));
            assert(self.line_end(i) == other.line_end(i));
        }
    }

    /// The line table agrees with the text: a line starts at offset 0 and
    /// behind every line break, and nowhere else. The structural objects
    /// are listed by where they start, and no two bracket pairs share a
    /// bracket.
    pub open(crate) spec fn wf(&self) -> bool {
        &&& self.line_starts@.len() >= 1
        &&& self.text@.len() <= usize::MAX
        &&& self.objects_ordered()
        &&& self.brackets_apart()
        &&& forall|i: int|
            0 <= i < self.line_starts@.len() ==> #[trigger] self.line_begins(i)
                && self.line_unbroken(i)
    }

    /// Whether `p` names a position of the text.
    pub open spec fn valid_point(&self, p: Point) -> bool {
        p.row <= self.max_row() && p.column <= self.line_len(p.row as int)
    }

    /// The nearest position of the text: the row is capped at the last line,
    /// then the column at that line's length.
    pub open spec fn clipped(&self, p: Point) -> Point {
        let row = if p.row <= self.max_row() {
            p.row as int
        } else {
            self.max_row()
        };
        let column = if p.column <= self.line_len(row) {
            p.column as int
        } else {
            self.line_len(row)
        };
        Point { row: row as usize, column: column as usize }
    }

    /// The offset of a point, after clipping.
    pub open spec fn offset_of(&self, p: Point) -> int {
        let q = self.clipped(p);
        self.line_start(q.row as int) + q.column
    }

    /// The line that holds offset `o`, found from line `from` on: the last
    /// line that starts at or before `o`.
    pub open spec fn row_from(&self, o: int, from: int) -> int
        decreases self.line_count() - from,
    {
        if from + 1 < self.line_count() && self.line_start(from + 1) <= o {
            self.row_from(o, from + 1)
        } else {
            from
        }
    }

    /// The line that holds offset `o`.
    pub open spec fn row_of(&self, o: int) -> int {
        self.row_from(o, 0)
    }

    /// The point of an offset; an offset past the end counts as the end.
    pub open spec fn point_of(&self, o: int) -> Point {
        let o = if o <= self.chars().len() {
            o
        } else {
            self.chars().len() as int
        };
        let row = self.row_of(o);
        Point { row: row as usize, column: (o - self.line_start(row)) as usize }
    }

    /// The character at offset `o`, if the text reaches that far.
    pub open spec fn char_at(&self, o: int) -> Option<char> {
        if 0 <= o < self.chars().len() {
            Some(self.chars()[o])
        } else {
            None
        }
    }

    /// Every line lies inside the text, and lines follow one another.
    pub proof fn lemma_lines(&self, row: int)
        requires
            self.wf(),
            0 <= row < self.line_count(),
        ensures
            0 <= self.line_start(row) <= self.line_end(row) <= self.chars().len(),
            self.line_len(row) >= 0,
            row == 0 ==> self.line_start(row) == 0,
            row + 1 < self.line_count() ==> self.line_start(row + 1) == self.line_end(row) + 1
                && self.chars()[self.line_end(row)] == '\n',
            row == self.max_row() ==> self.line_end(row) == self.chars().len(),
            forall|o: int|
                self.line_start(row) <= o < self.line_end(row) ==> self.chars()[o] != '\n',
    {
        assert(self.line_begins(row) && self.line_unbroken(row));
        if row + 1 < self.line_count() {
            assert(self.line_begins(row + 1));
        }
    }

    /// Later lines start later.
    pub proof fn lemma_line_starts_ordered(&self, i: int, j: int)
        requires
            self.wf(),
            0 <= i <= j < self.line_count(),
        ensures
            self.line_start(i) + (j - i) <= self.line_start(j),
        decreases j - i,
    {
        if i < j {
            self.lemma_line_starts_ordered(i, j - 1);
            assert(self.line_begins(j));
        }
    }

    /// `row_from` answers with the line whose span holds the offset.
    pub proof fn lemma_row_from(&self, o: int, from: int, row: int)
        requires
            self.wf(),
            0 <= from <= row < self.line_count(),
            self.line_start(row) <= o <= self.line_end(row),
        ensures
            self.row_from(o, from) == row,
        decreases row - from,
    {
        if from < row {
            self.lemma_line_starts_ordered(from + 1, row);
            self.lemma_row_from(o, from + 1, row);
        } else {
            self.lemma_lines(row);
        }
    }

    proof fn lemma_row_from_bounds(&self, o: int, from: int)
        requires
            self.wf(),
            0 <= from < self.line_count(),
            self.line_start(from) <= o <= self.chars().len(),
        ensures
            from <= self.row_from(o, from) < self.line_count(),
            self.line_start(self.row_from(o, from)) <= o <= self.line_end(self.row_from(o, from)),
        decreases self.line_count() - from,
    {
        if from + 1 < self.line_count() && self.line_start(from + 1) <= o {
            self.lemma_row_from_bounds(o, from + 1);
        } else {
            self.lemma_lines(from);
        }
    }

    /// The line of an offset is the one whose span holds it.
    pub proof fn lemma_row_of(&self, o: int)
        requires
            self.wf(),
            0 <= o <= self.chars().len(),
        ensures
            0 <= self.row_of(o) < self.line_count(),
            self.row_of(o) <= o,
            self.line_start(self.row_of(o)) <= o <= self.line_end(self.row_of(o)),
    {
        self.lemma_lines(0);
        self.lemma_row_from_bounds(o, 0);
        self.lemma_line_starts_ordered(0, self.row_of(o));
    }

    /// A clipped point is a position of the text.
    pub proof fn lemma_clipped(&self, p: Point)
        requires
            self.wf(),
        ensures
            self.valid_point(self.clipped(p)),
            self.valid_point(p) ==> self.clipped(p) == p,
            0 <= self.offset_of(p) <= self.chars().len(),
            self.line_start(self.clipped(p).row as int) <= self.offset_of(p) <= self.line_end(
                self.clipped(p).row as int,
            ),
    {
        let row = if p.row <= self.max_row() {
            p.row as int
        } else {
            self.max_row()
        };
        self.lemma_lines(row);
    }

    /// Offsets and points name the same positions: going from one to the
    /// other and back changes nothing.
    pub proof fn lemma_point_offset_round_trip(&self, p: Point, o: int)
        requires
            self.wf(),
        ensures
            self.point_of(self.offset_of(p)) == self.clipped(p),
            0 <= o <= self.chars().len() ==> self.offset_of(self.point_of(o)) == o
                && self.valid_point(self.point_of(o)),
    {
        self.lemma_clipped(p);
        let q = self.clipped(p);
        self.lemma_row_from(self.offset_of(p), 0, q.row as int);
        if 0 <= o <= self.chars().len() {
            self.lemma_row_of(o);
            self.lemma_lines(self.row_of(o));
        }
    }

    /// Cuts a text into lines.
    pub fn new(text: Vec<char>) -> (buffer: Buffer)
        ensures
            buffer.wf(),
            buffer.chars() == text@,
            buffer.bracket_pairs().len() == 0,
            buffer.tag_pairs().len() == 0,
            buffer.object_ranges().len() == 0,
            buffer.excerpt_list().len() == 0,
    {
        let mut line_starts: Vec<usize> = Vec::new();
        line_starts.push(0);
        let mut o: usize = 0;
        while o < text.len()
            invariant
                0 <= o <= text@.len(),
                line_starts@.len() >= 1,
                line_starts@[0] == 0,
                forall|i: int|
                    0 < i < line_starts@.len() ==> line_starts@[i - 1] < #[trigger] line_starts@[i]
                        <= o && text@[line_starts@[i] - 1] == '\n',
                line_starts@[line_starts@.len() - 1] <= o,
                forall|i: int, k: int|
                    0 <= i < line_starts@.len() - 1 && line_starts@[i] <= k < #[trigger] line_starts@[i
                        + 1] - 1 ==> #[trigger] text@[k] != '\n',
                forall|k: int|
                    line_starts@[line_starts@.len() - 1] <= k < o ==> #[trigger] text@[k] != '\n',
            decreases text@.len() - o,
        {
            if text[o] == '\n' {
                line_starts.push(o + 1);
            }
            o += 1;
        }
        let buffer = Buffer {
            text,
            line_starts,
            brackets: Vec::new(),
            tags: Vec::new(),
            objects: Vec::new(),
            excerpts: Vec::new(),
        };
        assert forall|i: int| 0 <= i < buffer.line_starts@.len() implies #[trigger]
            buffer.line_begins(i) && buffer.line_unbroken(i) by {
            if i + 1 < buffer.line_starts@.len() {
                assert(buffer.line_starts@[i + 1] == buffer.line_start(i + 1));
            }
        }
        buffer
    }

    /// The same text with its bracket pairs named, if they are brackets of
    /// the text of which no two share a bracket; otherwise the buffer as it
    /// was.
    pub fn with_brackets(self, pairs: Vec<BracketPair>) -> (buffer: Buffer)
        requires
            self.wf(),
        ensures
            buffer.wf(),
            buffer.same_text(&self),
            buffer.chars() == self.chars(),
            buffer.bracket_pairs() == if brackets_sound(self.chars(), pairs@) {
                pairs@
            } else {
                self.bracket_pairs()
            },
            buffer.tag_pairs() == self.tag_pairs(),
            buffer.object_ranges() == self.object_ranges(),
            buffer.excerpt_list() == self.excerpt_list(),
    {
        if !are_brackets_sound(&self.text, &pairs) {
            return self;
        }
        let ghost before = self;
        let buffer = Buffer {
            text: self.text,
            line_starts: self.line_starts,
            brackets: pairs,
            tags: self.tags,
            objects: self.objects,
            excerpts: self.excerpts,
        };
        proof {
            buffer.lemma_same_text(&before);
        }
        buffer
    }

    /// The same text with its markup elements named.
    pub fn with_tags(self, pairs: Vec<BracketPair>) -> (buffer: Buffer)
        requires
            self.wf(),
        ensures
            buffer.wf(),
            buffer.same_text(&self),
            buffer.chars() == self.chars(),
            buffer.tag_pairs() == pairs@,
            buffer.bracket_pairs() == self.bracket_pairs(),
            buffer.object_ranges() == self.object_ranges(),
            buffer.excerpt_list() == self.excerpt_list(),
    {
        let ghost before = self;
        let buffer = Buffer {
            text: self.text,
            line_starts: self.line_starts,
            brackets: self.brackets,
            tags: pairs,
            objects: self.objects,
            excerpts: self.excerpts,
        };
        proof {
            buffer.lemma_same_text(&before);
        }
        buffer
    }

    /// The same text with its structural objects named, if they are listed
    /// by where they start; otherwise the buffer as it was.
    pub fn with_objects(self, objects: Vec<ObjectRange>) -> (buffer: Buffer)
        requires
            self.wf(),
        ensures
            buffer.wf(),
            buffer.same_text(&self),
            buffer.chars() == self.chars(),
            buffer.bracket_pairs() == self.bracket_pairs(),
            buffer.tag_pairs() == self.tag_pairs(),
            buffer.excerpt_list() == self.excerpt_list(),
            buffer.object_ranges() == if starts_ordered(objects@) {
                objects@
            } else {
                self.object_ranges()
            },
    {
        if !are_starts_ordered(&objects) {
            return self;
        }
        let ghost before = self;
        let buffer = Buffer {
            text: self.text,
            line_starts: self.line_starts,
            brackets: self.brackets,
            tags: self.tags,
            objects,
            excerpts: self.excerpts,
        };
        proof {
            buffer.lemma_same_text(&before);
        }
        buffer
    }

    /// The same text with the excerpts named that it is composed of.
    pub fn with_excerpts(self, excerpts: Vec<Excerpt>) -> (buffer: Buffer)
        requires
            self.wf(),
        ensures
            buffer.wf(),
            buffer.same_text(&self),
            buffer.chars() == self.chars(),
            buffer.excerpt_list() == excerpts@,
            buffer.bracket_pairs() == self.bracket_pairs(),
            buffer.tag_pairs() == self.tag_pairs(),
            buffer.object_ranges() == self.object_ranges(),
    {
        let ghost before = self;
        let buffer = Buffer {
            text: self.text,
            line_starts: self.line_starts,
            brackets: self.brackets,
            tags: self.tags,
            objects: self.objects,
            excerpts,
        };
        proof {
            buffer.lemma_same_text(&before);
        }
        buffer
    }

    /// The bracket pairs of the text.
    pub fn brackets(&self) -> (pairs: &Vec<BracketPair>)
        ensures
            pairs@ == self.bracket_pairs(),
    {
        &self.brackets
    }

    /// The markup elements of the text.
    pub fn tags(&self) -> (pairs: &Vec<BracketPair>)
        ensures
            pairs@ == self.tag_pairs(),
    {
        &self.tags
    }

    /// The structural objects of the text.
    pub fn objects(&self) -> (ranges: &Vec<ObjectRange>)
        ensures
            ranges@ == self.object_ranges(),
    {
        &self.objects
    }

    /// The excerpts that the text is composed of.
    pub fn excerpts(&self) -> (list: &Vec<Excerpt>)
        ensures
            list@ == self.excerpt_list(),
    {
        &self.excerpts
    }

    /// The number of characters in the text.
    pub fn len(&self) -> (n: usize)
        ensures
            n == self.chars().len(),
    {
        self.text.len()
    }

    /// The number of lines.
    pub fn line_total(&self) -> (n: usize)
        requires
            self.wf(),
        ensures
            n == self.line_count(),
            n >= 1,
    {
        self.line_starts.len()
    }

    /// The number of the last line.
    pub fn last_row(&self) -> (row: usize)
        requires
            self.wf(),
        ensures
            row == self.max_row(),
    {
        self.line_starts.len() - 1
    }

    /// The length of a line, 0 for a row past the last.
    pub fn line_length(&self, row: usize) -> (n: usize)
        requires
            self.wf(),
        ensures
            n == self.line_len(row as int),
    {
        if row >= self.line_starts.len() {
            return 0;
        }
        proof {
            self.lemma_lines(row as int);
        }
        if row + 1 < self.line_starts.len() {
            self.line_starts[row + 1] - 1 - self.line_starts[row]
        } else {
            self.text.len() - self.line_starts[row]
        }
    }

    /// Moves a point to the nearest position of the text.
    pub fn clip_point(&self, p: Point) -> (q: Point)
        requires
            self.wf(),
        ensures
            q == self.clipped(p),
            self.valid_point(q),
    {
        let row = if p.row <= self.last_row() {
            p.row
        } else {
            self.last_row()
        };
        let len = self.line_length(row);
        let column = if p.column <= len {
            p.column
        } else {
            len
        };
        Point { row, column }
    }

    /// The offset of a point, after clipping.
    pub fn point_to_offset(&self, p: Point) -> (o: usize)
        requires
            self.wf(),
        ensures
            o == self.offset_of(p),
            o <= self.chars().len(),
    {
        let q = self.clip_point(p);
        proof {
            self.lemma_clipped(p);
        }
        self.line_starts[q.row] + q.column
    }

    /// The point of an offset; an offset past the end counts as the end.
    pub fn offset_to_point(&self, offset: usize) -> (p: Point)
        requires
            self.wf(),
        ensures
            p == self.point_of(offset as int),
            self.valid_point(p),
    {
        let o = if offset <= self.text.len() {
            offset
        } else {
            self.text.len()
        };
        let mut row: usize = 0;
        let lines = self.line_starts.len();
        proof {
            self.lemma_lines(0);
        }
        while row + 1 < lines && self.line_starts[row + 1] <= o
            invariant
                self.wf(),
                lines == self.line_starts@.len(),
                0 <= row < self.line_starts@.len(),
                self.line_starts@[row as int] <= o <= self.text@.len(),
                self.row_from(o as int, row as int) == self.row_of(o as int),
            decreases self.line_starts@.len() - row,
        {
            row += 1;
        }
        proof {
            self.lemma_row_of(o as int);
            self.lemma_lines(row as int);
        }
        Point { row, column: o - self.line_starts[row] }
    }

    /// The character at an offset, if the text reaches that far.
    pub fn char_at_offset(&self, o: usize) -> (c: Option<char>)
        ensures
            c == self.char_at(o as int),
    {
        if o < self.text.len() {
            Some(self.text[o])
        } else {
            None
        }
    }
}

} // verus!

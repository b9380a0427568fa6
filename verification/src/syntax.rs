//! What the syntax of a text contributes to motions: bracket pairs, markup
//! elements, structural objects, and the excerpts that a text is composed
//! of. All of them are given as offsets into the text.

use vstd::prelude::*;

verus! {

/// A pair of delimiters: the opening one fills the offsets from `open_start`
/// up to, not including, `open_end`, the closing one those from
/// `close_start` up to `close_end`. A markup element is described in the
/// same way by its opening and its closing tag.
#[derive(Clone, Copy, Debug, PartialEq, Eq, Structural)]
pub struct BracketPair {
    pub open_start: usize,
    pub open_end: usize,
    pub close_start: usize,
    pub close_end: usize,
}

impl BracketPair {
    /// Offset `o` lies in the opening delimiter.
    pub open spec fn in_open(self, o: int) -> bool {
        self.open_start <= o < self.open_end
    }

    /// Offset `o` lies in the closing delimiter.
    pub open spec fn in_close(self, o: int) -> bool {
        self.close_start <= o < self.close_end
    }

    /// The pair touches the offsets from `low` up to, not including,
    /// `high`.
    pub open spec fn near(self, low: int, high: int) -> bool {
        self.open_start < high && low < self.close_end
    }

    /// The pair surrounds offset `o`.
    pub open spec fn encloses(self, o: int) -> bool {
        self.open_start <= o <= self.close_end
    }

    /// The delimiters lie one behind the other, each with something in it.
    pub open spec fn in_order(self) -> bool {
        self.open_start < self.open_end <= self.close_start < self.close_end
    }

    /// No delimiter of this pair shares an offset with one of `other`.
    pub open spec fn apart_from(self, other: BracketPair) -> bool {
        &&& self.open_end <= other.open_start || other.open_end <= self.open_start
        &&& self.open_end <= other.close_start || other.close_end <= self.open_start
        &&& self.close_end <= other.open_start || other.open_end <= self.close_start
        &&& self.close_end <= other.close_start || other.close_end <= self.close_start
    }

    /// Whether the delimiters lie one behind the other.
    pub fn is_in_order(&self) -> (ordered: bool)
        ensures
            ordered == self.in_order(),
    {
        self.open_start < self.open_end && self.open_end <= self.close_start && self.close_start
            < self.close_end
    }

    /// Whether no delimiter of this pair shares an offset with one of
    /// another.
    pub fn is_apart_from(&self, other: &BracketPair) -> (apart: bool)
        ensures
            apart == self.apart_from(*other),
    {
        (self.open_end <= other.open_start || other.open_end <= self.open_start) && (self.open_end
            <= other.close_start || other.close_end <= self.open_start) && (self.close_end
            <= other.open_start || other.open_end <= self.close_start) && (self.close_end
            <= other.close_start || other.close_end <= self.close_start)
    }

    /// Whether an offset lies in the opening delimiter.
    pub fn open_contains(&self, o: usize) -> (inside: bool)
        ensures
            inside == self.in_open(o as int),
    {
        self.open_start <= o && o < self.open_end
    }

    /// Whether an offset lies in the closing delimiter.
    pub fn close_contains(&self, o: usize) -> (inside: bool)
        ensures
            inside == self.in_close(o as int),
    {
        self.close_start <= o && o < self.close_end
    }

    /// Whether the pair touches a span of offsets.
    pub fn is_near(&self, low: usize, high: usize) -> (touches: bool)
        ensures
            touches == self.near(low as int, high as int),
    {
        self.open_start < high && low < self.close_end
    }

    /// Whether the pair surrounds an offset.
    pub fn is_enclosing(&self, o: usize) -> (around: bool)
        ensures
            around == self.encloses(o as int),
    {
        self.open_start <= o && o <= self.close_end
    }
}

/// The kinds of structural object that motions look for.
#[derive(Clone, Copy, Debug, PartialEq, Eq, Structural)]
pub enum TextObject {
    /// A function with everything that belongs to it.
    AroundFunction,
    /// A class, or what a language has in its place.
    AroundClass,
    /// A comment.
    AroundComment,
    /// Any other object.
    Other,
}

/// A structural object: the offsets it fills, from `start` up to, not
/// including, `end`, its kind, and how deep in the syntax tree it begins.
#[derive(Clone, Copy, Debug, PartialEq, Eq, Structural)]
pub struct ObjectRange {
    pub start: usize,
    pub end: usize,
    pub kind: TextObject,
    pub depth: usize,
}

impl ObjectRange {
    /// The object begins no deeper than `max_depth` and touches the offsets
    /// from `low` up to `high`.
    pub open spec fn within(self, low: int, high: int, max_depth: int) -> bool {
        self.depth <= max_depth && self.start <= high && low <= self.end
    }

    /// Whether the object begins no deeper than `max_depth` and touches a
    /// span of offsets.
    pub fn is_within(&self, low: usize, high: usize, max_depth: usize) -> (inside: bool)
        ensures
            inside == self.within(low as int, high as int, max_depth as int),
    {
        self.depth <= max_depth && self.start <= high && low <= self.end
    }
}

/// A part of a composed text: the lines from `start_row` to `end_row`, both
/// included, show the lines of a source text from its line `source_row` on.
#[derive(Clone, Copy, Debug, PartialEq, Eq, Structural)]
pub struct Excerpt {
    pub start_row: usize,
    pub end_row: usize,
    pub source_row: usize,
}

impl Excerpt {
    /// The excerpt holds line `row` of the composed text.
    pub open spec fn holds_row(self, row: int) -> bool {
        self.start_row <= row <= self.end_row
    }

    /// The excerpt shows line `line` of its source text.
    pub open spec fn shows_line(self, line: int) -> bool {
        self.source_row <= line <= self.source_row + (self.end_row - self.start_row)
    }
}

} // verus!

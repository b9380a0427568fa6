//! The boundary scanner: a walk over the text, one character at a time,
//! that stops where a rule over two neighbouring characters holds.

use crate::buffer::Buffer;
use crate::chars::{
    char_kind, character_matches, is_character_match, unicode_alphanumeric, unicode_lowercase,
    unicode_uppercase, unicode_whitespace, CharClassifier, CharKind,
};
use vstd::prelude::*;

verus! {

/// How far a scan may go.
#[derive(Clone, Copy, Debug, PartialEq, Eq, Structural)]
pub enum FindRange {
    /// The scan stops in front of a line break.
    SingleLine,
    /// The scan crosses line breaks.
    MultiLine,
}

/// A rule over a pair of neighbouring characters. Some rules also ask
/// whether the scan has already met a line break.
#[derive(Clone, Copy, Debug)]
pub enum Boundary {
    /// The right character starts a word, or stands for an empty line.
    WordStart { ignore_punctuation: bool },
    /// The left character ends a word. With `stop_at_newline` the scan also
    /// stops in front of a line break.
    WordEnd { ignore_punctuation: bool, stop_at_newline: bool },
    /// The right character starts a word, seen from behind.
    WordStartBackward { ignore_punctuation: bool },
    /// The left character ends a word, seen from behind.
    WordEndBackward { ignore_punctuation: bool },
    /// The right character starts a word or a part of one, as in
    /// `camelCase` and `snake_case`.
    SubwordStart { ignore_punctuation: bool },
    /// The left character ends a word or a part of one.
    SubwordEnd { ignore_punctuation: bool, stop_at_newline: bool },
    /// The left character ends a word or a part of one, seen from behind.
    SubwordEndBackward { ignore_punctuation: bool },
    /// The right character is the one searched for.
    Character { target: char, smartcase: bool },
    /// The two characters are the pair searched for.
    CharacterPair { first: char, second: char, smartcase: bool },
}

/// A part of a word starts at `right`: behind an underscore, or where a
/// capital follows a small letter.
pub open spec fn subword_starts(left: char, right: char) -> bool {
    (left == '_' && right != '_') || (unicode_lowercase(left) && unicode_uppercase(right))
}

/// A part of a word ends at `left`: in front of an underscore, or where a
/// capital follows a small letter.
pub open spec fn subword_ends(left: char, right: char) -> bool {
    (left != '_' && right == '_') || (unicode_lowercase(left) && unicode_uppercase(right))
}

/// A word ends between a word or punctuation character and a character of
/// another class, and between two line breaks.
pub open spec fn word_ends_backward(left: char, right: char, ignore_punctuation: bool) -> bool {
    let l = char_kind(left, ignore_punctuation);
    let r = char_kind(right, ignore_punctuation);
    if l == CharKind::Whitespace {
        r == CharKind::Whitespace && left == '\n' && right == '\n'
    } else {
        l != r
    }
}

/// As `word_ends_backward`, but punctuation ends nothing.
pub open spec fn subword_ends_backward(left: char, right: char, ignore_punctuation: bool) -> bool {
    let l = char_kind(left, ignore_punctuation);
    let r = char_kind(right, ignore_punctuation);
    if subword_ends(left, right) {
        true
    } else if l == CharKind::Word {
        r != CharKind::Word
    } else if l == CharKind::Whitespace {
        r == CharKind::Whitespace && left == '\n' && right == '\n'
    } else {
        false
    }
}

impl Boundary {
    /// Whether the rule holds between `left` and `right`, where `crossed`
    /// says that the scan has met a line break before this pair.
    pub open spec fn fires(self, left: char, right: char, crossed: bool) -> bool {
        match self {
            Boundary::WordStart { ignore_punctuation } => {
                let l = char_kind(left, ignore_punctuation);
                let r = char_kind(right, ignore_punctuation);
                (l != r && r != CharKind::Whitespace) || (right == '\n' && crossed) || (right
                    == '\n' && left == '\n')
            },
            Boundary::WordEnd { ignore_punctuation, stop_at_newline } => {
                let l = char_kind(left, ignore_punctuation);
                let r = char_kind(right, ignore_punctuation);
                (stop_at_newline && right == '\n') || (l != r && l != CharKind::Whitespace)
            },
            Boundary::WordStartBackward { ignore_punctuation } => {
                let l = char_kind(left, ignore_punctuation);
                let r = char_kind(right, ignore_punctuation);
                (l != r && !unicode_whitespace(right)) || left == '\n'
            },
            Boundary::WordEndBackward { ignore_punctuation } => word_ends_backward(
                left,
                right,
                ignore_punctuation,
            ),
            Boundary::SubwordStart { ignore_punctuation } => {
                let l = char_kind(left, ignore_punctuation);
                let r = char_kind(right, ignore_punctuation);
                let word_starts = l != r && !unicode_alphanumeric(left);
                (!unicode_whitespace(right) && (word_starts || subword_starts(left, right)))
                    || (right == '\n' && crossed) || (right == '\n' && left == '\n')
            },
            Boundary::SubwordEnd { ignore_punctuation, stop_at_newline } => {
                let l = char_kind(left, ignore_punctuation);
                let r = char_kind(right, ignore_punctuation);
                let word_ends = l != r && !unicode_alphanumeric(right);
                (stop_at_newline && right == '\n') || (!unicode_whitespace(left) && right != '\n'
                    && (word_ends || subword_ends(left, right)))
            },
            Boundary::SubwordEndBackward { ignore_punctuation } => subword_ends_backward(
                left,
                right,
                ignore_punctuation,
            ),
            Boundary::Character { target, smartcase } => character_matches(
                target,
                right,
                smartcase,
            ),
            Boundary::CharacterPair { first, second, smartcase } => character_matches(
                first,
                left,
                smartcase,
            ) && character_matches(second, right, smartcase),
        }
    }

    /// Decides whether the rule holds between `left` and `right`.
    pub fn holds(&self, left: char, right: char, crossed: bool) -> (fired: bool)
        ensures
            fired == self.fires(left, right, crossed),
    {
        match *self {
            Boundary::WordStart { ignore_punctuation } => {
                let classifier = CharClassifier { ignore_punctuation };
                let l = classifier.kind(left);
                let r = classifier.kind(right);
                (l != r && r != CharKind::Whitespace) || (right == '\n' && crossed) || (right
                    == '\n' && left == '\n')
            },
            Boundary::WordEnd { ignore_punctuation, stop_at_newline } => {
                let classifier = CharClassifier { ignore_punctuation };
                let l = classifier.kind(left);
                let r = classifier.kind(right);
                (stop_at_newline && right == '\n') || (l != r && l != CharKind::Whitespace)
            },
            Boundary::WordStartBackward { ignore_punctuation } => {
                let classifier = CharClassifier { ignore_punctuation };
                let l = classifier.kind(left);
                let r = classifier.kind(right);
                (l != r && !right.is_whitespace()) || left == '\n'
            },
            Boundary::WordEndBackward { ignore_punctuation } => is_word_end_backward(
                left,
                right,
                ignore_punctuation,
            ),
            Boundary::SubwordStart { ignore_punctuation } => is_subword_start(
                left,
                right,
                ignore_punctuation,
                crossed,
            ),
            Boundary::SubwordEnd { ignore_punctuation, stop_at_newline } => is_subword_end(
                left,
                right,
                ignore_punctuation,
                stop_at_newline,
            ),
            Boundary::SubwordEndBackward { ignore_punctuation } => is_subword_end_backward(
                left,
                right,
                ignore_punctuation,
            ),
            Boundary::Character { target, smartcase } => is_character_match(
                target,
                right,
                smartcase,
            ),
            Boundary::CharacterPair { first, second, smartcase } => is_character_match(
                first,
                left,
                smartcase,
            ) && is_character_match(second, right, smartcase),
        }
    }
}

fn is_word_end_backward(left: char, right: char, ignore_punctuation: bool) -> (fired: bool)
    ensures
        fired == word_ends_backward(left, right, ignore_punctuation),
{
    let classifier = CharClassifier { ignore_punctuation };
    let l = classifier.kind(left);
    let r = classifier.kind(right);
    if l == CharKind::Whitespace {
        r == CharKind::Whitespace && left == '\n' && right == '\n'
    } else {
        l != r
    }
}

fn is_subword_boundary(left: char, right: char, starts: bool) -> (fired: bool)
    ensures
        fired == if starts {
            subword_starts(left, right)
        } else {
            subword_ends(left, right)
        },
{
    let underscore = if starts {
        left == '_' && right != '_'
    } else {
        left != '_' && right == '_'
    };
    underscore || (left.is_lowercase() && right.is_uppercase())
}

fn is_subword_start(left: char, right: char, ignore_punctuation: bool, crossed: bool) -> (fired:
    bool)
    ensures
        fired == (Boundary::SubwordStart { ignore_punctuation }).fires(left, right, crossed),
{
    let classifier = CharClassifier { ignore_punctuation };
    let l = classifier.kind(left);
    let r = classifier.kind(right);
    let word_starts = l != r && !left.is_alphanumeric();
    let part_starts = is_subword_boundary(left, right, true);
    (!right.is_whitespace() && (word_starts || part_starts)) || (right == '\n' && crossed) || (
    right == '\n' && left == '\n')
}

fn is_subword_end(left: char, right: char, ignore_punctuation: bool, stop_at_newline: bool) -> (fired:
    bool)
    ensures
        fired == (Boundary::SubwordEnd { ignore_punctuation, stop_at_newline }).fires(
            left,
            right,
            false,
        ),
{
    let classifier = CharClassifier { ignore_punctuation };
    let l = classifier.kind(left);
    let r = classifier.kind(right);
    let word_ends = l != r && !right.is_alphanumeric();
    let part_ends = is_subword_boundary(left, right, false);
    (stop_at_newline && right == '\n') || (!left.is_whitespace() && right != '\n' && (word_ends
        || part_ends))
}

fn is_subword_end_backward(left: char, right: char, ignore_punctuation: bool) -> (fired: bool)
    ensures
        fired == subword_ends_backward(left, right, ignore_punctuation),
{
    let classifier = CharClassifier { ignore_punctuation };
    let l = classifier.kind(left);
    let r = classifier.kind(right);
    if is_subword_boundary(left, right, false) {
        true
    } else if l == CharKind::Word {
        r != CharKind::Word
    } else if l == CharKind::Whitespace {
        r == CharKind::Whitespace && left == '\n' && right == '\n'
    } else {
        false
    }
}

/// Where a scan stopped, and whether its rule held there. A scan that ran
/// into the end of the text, or into a line break it may not cross, stopped
/// without its rule holding.
#[derive(Clone, Copy, Debug, PartialEq, Eq, Structural)]
pub struct Stop {
    pub offset: usize,
    pub fired: bool,
}

/// A line break lies strictly between `low` and `high`.
pub open spec fn break_between(text: Seq<char>, low: int, high: int) -> bool {
    exists|k: int| low < k < high && #[trigger] text[k] == '\n'
}

/// The rule holds between the characters on either side of `at`, for a
/// forward scan that began at `start`.
pub open spec fn fires_forward(text: Seq<char>, rule: Boundary, start: int, at: int) -> bool {
    start < at < text.len() && rule.fires(text[at - 1], text[at], break_between(text, start, at))
}

/// A forward scan from `start` finds what it looks for at `at`: its rule holds
/// there, and no line break that it may not cross stands in the way.
pub open spec fn found_forward(
    text: Seq<char>,
    rule: Boundary,
    range: FindRange,
    start: int,
    at: int,
) -> bool {
    fires_forward(text, rule, start, at) && !(range == FindRange::SingleLine && text[at] == '\n')
}

/// A forward scan from `start` goes no further than `at`.
pub open spec fn stops_forward(
    text: Seq<char>,
    rule: Boundary,
    range: FindRange,
    start: int,
    at: int,
) -> bool {
    ||| at >= text.len()
    ||| (range == FindRange::SingleLine && text[at] == '\n')
    ||| fires_forward(text, rule, start, at)
}

/// The first offset from `at` on where a forward scan from `start` stops.
pub open spec fn forward_stop(
    text: Seq<char>,
    rule: Boundary,
    range: FindRange,
    start: int,
    at: int,
) -> int
    decreases text.len() - at,
{
    if at >= text.len() || stops_forward(text, rule, range, start, at) {
        at
    } else {
        forward_stop(text, rule, range, start, at + 1)
    }
}

/// The rule holds between the characters on either side of `at`, for a
/// backward scan that began at `start`.
pub open spec fn fires_backward(text: Seq<char>, rule: Boundary, start: int, at: int) -> bool {
    0 < at < start && at < text.len() && rule.fires(
        text[at - 1],
        text[at],
        break_between(text, at, start),
    )
}

/// A backward scan from `start` finds what it looks for at `at`: its rule
/// holds there, and no line break that it may not cross stands in the way.
pub open spec fn found_backward(
    text: Seq<char>,
    rule: Boundary,
    range: FindRange,
    start: int,
    at: int,
) -> bool {
    fires_backward(text, rule, start, at) && !(range == FindRange::SingleLine && text[at - 1]
        == '\n')
}

/// A backward scan from `start` goes no further than `at`.
pub open spec fn stops_backward(
    text: Seq<char>,
    rule: Boundary,
    range: FindRange,
    start: int,
    at: int,
) -> bool {
    ||| at <= 0
    ||| (range == FindRange::SingleLine && text[at - 1] == '\n')
    ||| fires_backward(text, rule, start, at)
}

/// The first offset from `at` down where a backward scan from `start` stops.
pub open spec fn backward_stop(
    text: Seq<char>,
    rule: Boundary,
    range: FindRange,
    start: int,
    at: int,
) -> int
    decreases at,
{
    if at <= 0 || stops_backward(text, rule, range, start, at) {
        at
    } else {
        backward_stop(text, rule, range, start, at - 1)
    }
}

/// A forward scan stops at the first offset where it may stop, and nowhere
/// before.
pub proof fn lemma_forward_stop(
    text: Seq<char>,
    rule: Boundary,
    range: FindRange,
    start: int,
    at: int,
)
    requires
        0 <= at <= text.len(),
    ensures
        at <= forward_stop(text, rule, range, start, at) <= text.len(),
        stops_forward(text, rule, range, start, forward_stop(text, rule, range, start, at)),
        forall|j: int|
            at <= j < forward_stop(text, rule, range, start, at) ==> !stops_forward(
                text,
                rule,
                range,
                start,
                j,
            ),
    decreases text.len() - at,
{
    if at >= text.len() || stops_forward(text, rule, range, start, at) {
    } else {
        lemma_forward_stop(text, rule, range, start, at + 1);
    }
}

/// A backward scan stops at the first offset, going down, where it may stop,
/// and nowhere before.
pub proof fn lemma_backward_stop(
    text: Seq<char>,
    rule: Boundary,
    range: FindRange,
    start: int,
    at: int,
)
    requires
        0 <= at <= text.len(),
    ensures
        0 <= backward_stop(text, rule, range, start, at) <= at,
        stops_backward(text, rule, range, start, backward_stop(text, rule, range, start, at)),
        forall|j: int|
            backward_stop(text, rule, range, start, at) < j <= at ==> !stops_backward(
                text,
                rule,
                range,
                start,
                j,
            ),
    decreases at,
{
    if at <= 0 || stops_backward(text, rule, range, start, at) {
    } else {
        lemma_backward_stop(text, rule, range, start, at - 1);
    }
}

/// Moving the upper end of a span up by one adds the character that it
/// passes to what lies between.
pub proof fn lemma_break_between_up(text: Seq<char>, low: int, high: int)
    requires
        0 <= low < high < text.len(),
    ensures
        break_between(text, low, high + 1) == (break_between(text, low, high) || text[high]
            == '\n'),
        !break_between(text, low, low + 1),
{
    if break_between(text, low, high + 1) {
        let k = choose|k: int| low < k < high + 1 && #[trigger] text[k] == '\n';
        if k < high {
            assert(break_between(text, low, high));
        }
    }
    if break_between(text, low, high) {
        let k = choose|k: int| low < k < high && #[trigger] text[k] == '\n';
        assert(low < k < high + 1 && text[k] == '\n');
    }
    if text[high] == '\n' {
        assert(low < high < high + 1 && text[high] == '\n');
    }
}

/// Moving the lower end of a span down by one adds the character that it
/// passes to what lies between.
pub proof fn lemma_break_between_down(text: Seq<char>, low: int, high: int)
    requires
        0 <= low < high <= text.len(),
    ensures
        break_between(text, low - 1, high) == (break_between(text, low, high) || text[low]
            == '\n'),
        !break_between(text, high - 1, high),
{
    if break_between(text, low - 1, high) {
        let k = choose|k: int| low - 1 < k < high && #[trigger] text[k] == '\n';
        if k > low {
            assert(break_between(text, low, high));
        }
    }
    if break_between(text, low, high) {
        let k = choose|k: int| low < k < high && #[trigger] text[k] == '\n';
        assert(low - 1 < k < high && text[k] == '\n');
    }
    if text[low] == '\n' {
        assert(low - 1 < low < high && text[low] == '\n');
    }
}

/// Scans forward from `start` and stops at the first offset behind it where
/// `rule` holds between the characters on either side, at a line break if
/// `range` does not let it cross one, or at the end of the text.
pub fn scan_forward(buffer: &Buffer, start: usize, range: FindRange, rule: Boundary) -> (stop: Stop)
    requires
        start <= buffer.chars().len(),
    ensures
        stop.offset == forward_stop(buffer.chars(), rule, range, start as int, start as int),
        stop.fired == found_forward(
            buffer.chars(),
            rule,
            range,
            start as int,
            stop.offset as int,
        ),
        start <= stop.offset <= buffer.chars().len(),
        stops_forward(buffer.chars(), rule, range, start as int, stop.offset as int),
        forall|j: int|
            start <= j < stop.offset ==> !stops_forward(buffer.chars(), rule, range, start as int, j),
{
    let len = buffer.len();
    let mut at = start;
    let mut crossed = false;
    let mut left: Option<char> = None;
    let ghost text = buffer.chars();
    proof {
        lemma_forward_stop(text, rule, range, start as int, start as int);
    }
    while at < len
        invariant
            text == buffer.chars(),
            len == text.len(),
            start <= at <= len,
            crossed == break_between(text, start as int, at as int),
            left == (if at > start {
                Some(text[at - 1])
            } else {
                None::<char>
            }),
            forward_stop(text, rule, range, start as int, at as int) == forward_stop(
                text,
                rule,
                range,
                start as int,
                start as int,
            ),
            stops_forward(
                text,
                rule,
                range,
                start as int,
                forward_stop(text, rule, range, start as int, start as int),
            ),
            forall|j: int|
                start <= j < forward_stop(text, rule, range, start as int, start as int)
                    ==> !stops_forward(text, rule, range, start as int, j),
        decreases len - at,
    {
        let right = match buffer.char_at_offset(at) {
            Some(c) => c,
            None => '\n',
        };
        if range == FindRange::SingleLine && right == '\n' {
            return Stop { offset: at, fired: false };
        }
        match left {
            Some(l) => {
                if rule.holds(l, right, crossed) {
                    return Stop { offset: at, fired: true };
                }
                proof {
                    lemma_break_between_up(text, start as int, at as int);
                }
                crossed = crossed || right == '\n';
            },
            None => {
                assert(!break_between(text, start as int, at + 1));
            },
        }
        left = Some(right);
        at += 1;
    }
    Stop { offset: at, fired: false }
}

/// Scans backward from `start` and stops at the first offset in front of it
/// where `rule` holds between the characters on either side, behind a line
/// break if `range` does not let it cross one, or at the start of the text.
pub fn scan_backward(buffer: &Buffer, start: usize, range: FindRange, rule: Boundary) -> (stop:
    Stop)
    requires
        start <= buffer.chars().len(),
    ensures
        stop.offset == backward_stop(buffer.chars(), rule, range, start as int, start as int),
        stop.fired == found_backward(
            buffer.chars(),
            rule,
            range,
            start as int,
            stop.offset as int,
        ),
        stop.offset <= start,
        stops_backward(buffer.chars(), rule, range, start as int, stop.offset as int),
        forall|j: int|
            stop.offset < j <= start ==> !stops_backward(buffer.chars(), rule, range, start as int, j),
{
    let mut at = start;
    let mut crossed = false;
    let mut right: Option<char> = None;
    let ghost text = buffer.chars();
    proof {
        lemma_backward_stop(text, rule, range, start as int, start as int);
    }
    while at > 0
        invariant
            text == buffer.chars(),
            0 <= at <= start <= text.len(),
            crossed == break_between(text, at as int, start as int),
            right == (if at < start {
                Some(text[at as int])
            } else {
                None::<char>
            }),
            backward_stop(text, rule, range, start as int, at as int) == backward_stop(
                text,
                rule,
                range,
                start as int,
                start as int,
            ),
            stops_backward(
                text,
                rule,
                range,
                start as int,
                backward_stop(text, rule, range, start as int, start as int),
            ),
            forall|j: int|
                backward_stop(text, rule, range, start as int, start as int) < j <= start
                    ==> !stops_backward(text, rule, range, start as int, j),
        decreases at,
    {
        let left = match buffer.char_at_offset(at - 1) {
            Some(c) => c,
            None => '\n',
        };
        if range == FindRange::SingleLine && left == '\n' {
            return Stop { offset: at, fired: false };
        }
        match right {
            Some(r) => {
                if rule.holds(left, r, crossed) {
                    return Stop { offset: at, fired: true };
                }
                proof {
                    lemma_break_between_down(text, at as int, start as int);
                }
                crossed = crossed || r == '\n';
            },
            None => {
                assert(!break_between(text, at - 1, start as int));
            },
        }
        right = Some(left);
        at -= 1;
    }
    Stop { offset: at, fired: false }
}

} // verus!

//! Character classes and the character comparisons used by searches.

use vstd::prelude::*;

verus! {

/// Whether `c` has the Unicode `White_Space` property, as `char::is_whitespace` reports it.
pub uninterp spec fn unicode_whitespace(c: char) -> bool;

/// Whether `c` is alphabetic or numeric in Unicode, as `char::is_alphanumeric` reports it.
pub uninterp spec fn unicode_alphanumeric(c: char) -> bool;

/// Whether `c` has the Unicode `Lowercase` property, as `char::is_lowercase` reports it.
pub uninterp spec fn unicode_lowercase(c: char) -> bool;

/// Whether `c` has the Unicode `Uppercase` property, as `char::is_uppercase` reports it.
pub uninterp spec fn unicode_uppercase(c: char) -> bool;

/// `char::is_whitespace` is taken on trust: its answer is the `White_Space`
/// property of its argument and of nothing else.
pub assume_specification[ char::is_whitespace ](c: char) -> (r: bool)
    ensures
        r == unicode_whitespace(c),
;

/// `char::is_alphanumeric` is taken on trust: its answer depends on its
/// argument alone.
pub assume_specification[ char::is_alphanumeric ](c: char) -> (r: bool)
    ensures
        r == unicode_alphanumeric(c),
;

/// `char::is_lowercase` is taken on trust: its answer depends on its argument
/// alone.
pub assume_specification[ char::is_lowercase ](c: char) -> (r: bool)
    ensures
        r == unicode_lowercase(c),
;

/// `char::is_uppercase` is taken on trust: its answer depends on its argument
/// alone.
pub assume_specification[ char::is_uppercase ](c: char) -> (r: bool)
    ensures
        r == unicode_uppercase(c),
;

/// The ASCII lower-case form of `c`: `'A'..='Z'` move to `'a'..='z'`, every
/// other character stays.
pub open spec fn ascii_lowercase(c: char) -> char {
    if 'A' <= c && c <= 'Z' {
        ((c as u32) + 32) as char
    } else {
        c
    }
}

/// `char::to_ascii_lowercase` is taken on trust to map the ASCII capitals to
/// their small letters and to leave every other character unchanged.
pub assume_specification[ char::to_ascii_lowercase ](c: &char) -> (r: char)
    ensures
        r == ascii_lowercase(*c),
;

/// What a search for `target` accepts at a character `other`.
///
/// Without smartcase only the target itself. With smartcase an upper-case
/// target still asks for itself, while any other target also accepts the
/// ASCII capital whose small letter it is.
pub open spec fn character_matches(target: char, other: char, smartcase: bool) -> bool {
    if smartcase && !unicode_uppercase(target) {
        target == ascii_lowercase(other)
    } else {
        target == other
    }
}

/// Decides whether `other` satisfies a search for `target`.
pub fn is_character_match(target: char, other: char, smartcase: bool) -> (matched: bool)
    ensures
        matched == character_matches(target, other, smartcase),
{
    if smartcase {
        if target.is_uppercase() {
            target == other
        } else {
            target == other.to_ascii_lowercase()
        }
    } else {
        target == other
    }
}

/// The class of a character, as word motions see it.
#[derive(Clone, Copy, Debug, PartialEq, Eq, Structural)]
pub enum CharKind {
    Whitespace,
    Punctuation,
    Word,
}

/// The class of `c`. A line break is whitespace. Letters, digits and the
/// underscore make words. What is neither is punctuation, which counts as
/// part of a word when `ignore_punctuation` is set.
pub open spec fn char_kind(c: char, ignore_punctuation: bool) -> CharKind {
    if c == '\n' {
        CharKind::Whitespace
    } else if unicode_alphanumeric(c) || c == '_' {
        CharKind::Word
    } else if unicode_whitespace(c) {
        CharKind::Whitespace
    } else if ignore_punctuation {
        CharKind::Word
    } else {
        CharKind::Punctuation
    }
}

/// Sorts characters into classes.
#[derive(Clone, Copy, Debug, PartialEq, Eq, Structural)]
pub struct CharClassifier {
    pub ignore_punctuation: bool,
}

impl CharClassifier {
    /// A classifier that keeps punctuation apart from words.
    pub fn new() -> (classifier: CharClassifier)
        ensures
            !classifier.ignore_punctuation,
    {
        CharClassifier { ignore_punctuation: false }
    }

    /// The same classifier with the treatment of punctuation chosen.
    pub fn ignore_punctuation(self, ignore_punctuation: bool) -> (classifier: CharClassifier)
        ensures
            classifier.ignore_punctuation == ignore_punctuation,
    {
        CharClassifier { ignore_punctuation }
    }

    /// The class of `c`.
    pub fn kind(&self, c: char) -> (kind: CharKind)
        ensures
            kind == char_kind(c, self.ignore_punctuation),
    {
        if c == '\n' {
            CharKind::Whitespace
        } else if c.is_alphanumeric() || c == '_' {
            CharKind::Word
        } else if c.is_whitespace() {
            CharKind::Whitespace
        } else if self.ignore_punctuation {
            CharKind::Word
        } else {
            CharKind::Punctuation
        }
    }
}

} // verus!

//! The commands that carry a setting of their own, and the motion that each
//! of them asks for.

use crate::memory::FindMemory;
use crate::motion::Motion;
use vstd::prelude::*;

verus! {

/// The command to move to the start of the line.
#[derive(Clone, Copy, Debug, PartialEq, Eq, Structural)]
pub struct StartOfLine {
    pub display_lines: bool,
}

/// The command to move to the end of the line.
#[derive(Clone, Copy, Debug, PartialEq, Eq, Structural)]
pub struct EndOfLine {
    pub display_lines: bool,
}

/// The command to move to the first character of the line that is not
/// whitespace.
#[derive(Clone, Copy, Debug, PartialEq, Eq, Structural)]
pub struct FirstNonWhitespace {
    pub display_lines: bool,
}

/// The command to move up.
#[derive(Clone, Copy, Debug, PartialEq, Eq, Structural)]
pub struct Up {
    pub display_lines: bool,
}

/// The command to move down.
#[derive(Clone, Copy, Debug, PartialEq, Eq, Structural)]
pub struct Down {
    pub display_lines: bool,
}

/// The command to move to the start of the next word.
#[derive(Clone, Copy, Debug, PartialEq, Eq, Structural)]
pub struct NextWordStart {
    pub ignore_punctuation: bool,
}

/// The command to move to the end of the next word.
#[derive(Clone, Copy, Debug, PartialEq, Eq, Structural)]
pub struct NextWordEnd {
    pub ignore_punctuation: bool,
}

/// The command to move to the start of the word before.
#[derive(Clone, Copy, Debug, PartialEq, Eq, Structural)]
pub struct PreviousWordStart {
    pub ignore_punctuation: bool,
}

/// The command to move to the end of the word before.
#[derive(Clone, Copy, Debug, PartialEq, Eq, Structural)]
pub struct PreviousWordEnd {
    pub ignore_punctuation: bool,
}

/// The command to move to the start of the next part of a word.
#[derive(Clone, Copy, Debug, PartialEq, Eq, Structural)]
pub struct NextSubwordStart {
    pub ignore_punctuation: bool,
}

/// The command to move to the end of the next part of a word.
#[derive(Clone, Copy, Debug, PartialEq, Eq, Structural)]
pub struct NextSubwordEnd {
    pub ignore_punctuation: bool,
}

/// The command to move to the start of the part of a word before.
#[derive(Clone, Copy, Debug, PartialEq, Eq, Structural)]
pub struct PreviousSubwordStart {
    pub ignore_punctuation: bool,
}

/// The command to move to the end of the part of a word before.
#[derive(Clone, Copy, Debug, PartialEq, Eq, Structural)]
pub struct PreviousSubwordEnd {
    pub ignore_punctuation: bool,
}

/// The command to move out of the surrounding brackets, forward.
#[derive(Clone, Copy, Debug, PartialEq, Eq, Structural)]
pub struct UnmatchedForward {
    pub char: char,
}

/// The command to move out of the surrounding brackets, backward.
#[derive(Clone, Copy, Debug, PartialEq, Eq, Structural)]
pub struct UnmatchedBackward {
    pub char: char,
}

impl StartOfLine {
    /// The motion that the command asks for.
    pub fn motion(&self) -> (motion: Motion)
        ensures
            motion == (Motion::StartOfLine { display_lines: self.display_lines }),
    {
        Motion::StartOfLine { display_lines: self.display_lines }
    }
}

impl EndOfLine {
    /// The motion that the command asks for.
    pub fn motion(&self) -> (motion: Motion)
        ensures
            motion == (Motion::EndOfLine { display_lines: self.display_lines }),
    {
        Motion::EndOfLine { display_lines: self.display_lines }
    }
}

impl FirstNonWhitespace {
    /// The motion that the command asks for.
    pub fn motion(&self) -> (motion: Motion)
        ensures
            motion == (Motion::FirstNonWhitespace { display_lines: self.display_lines }),
    {
        Motion::FirstNonWhitespace { display_lines: self.display_lines }
    }
}

impl Up {
    /// The motion that the command asks for.
    pub fn motion(&self) -> (motion: Motion)
        ensures
            motion == (Motion::Up { display_lines: self.display_lines }),
    {
        Motion::Up { display_lines: self.display_lines }
    }
}

impl Down {
    /// The motion that the command asks for.
    pub fn motion(&self) -> (motion: Motion)
        ensures
            motion == (Motion::Down { display_lines: self.display_lines }),
    {
        Motion::Down { display_lines: self.display_lines }
    }
}

impl NextWordStart {
    /// The motion that the command asks for.
    pub fn motion(&self) -> (motion: Motion)
        ensures
            motion == (Motion::NextWordStart { ignore_punctuation: self.ignore_punctuation }),
    {
        Motion::NextWordStart { ignore_punctuation: self.ignore_punctuation }
    }
}

impl NextWordEnd {
    /// The motion that the command asks for.
    pub fn motion(&self) -> (motion: Motion)
        ensures
            motion == (Motion::NextWordEnd { ignore_punctuation: self.ignore_punctuation }),
    {
        Motion::NextWordEnd { ignore_punctuation: self.ignore_punctuation }
    }
}

impl PreviousWordStart {
    /// The motion that the command asks for.
    pub fn motion(&self) -> (motion: Motion)
        ensures
            motion == (Motion::PreviousWordStart { ignore_punctuation: self.ignore_punctuation }),
    {
        Motion::PreviousWordStart { ignore_punctuation: self.ignore_punctuation }
    }
}

impl PreviousWordEnd {
    /// The motion that the command asks for.
    pub fn motion(&self) -> (motion: Motion)
        ensures
            motion == (Motion::PreviousWordEnd { ignore_punctuation: self.ignore_punctuation }),
    {
        Motion::PreviousWordEnd { ignore_punctuation: self.ignore_punctuation }
    }
}

impl NextSubwordStart {
    /// The motion that the command asks for.
    pub fn motion(&self) -> (motion: Motion)
        ensures
            motion == (Motion::NextSubwordStart { ignore_punctuation: self.ignore_punctuation }),
    {
        Motion::NextSubwordStart { ignore_punctuation: self.ignore_punctuation }
    }
}

impl NextSubwordEnd {
    /// The motion that the command asks for.
    pub fn motion(&self) -> (motion: Motion)
        ensures
            motion == (Motion::NextSubwordEnd { ignore_punctuation: self.ignore_punctuation }),
    {
        Motion::NextSubwordEnd { ignore_punctuation: self.ignore_punctuation }
    }
}

impl PreviousSubwordStart {
    /// The motion that the command asks for.
    pub fn motion(&self) -> (motion: Motion)
        ensures
            motion == (Motion::PreviousSubwordStart {
                ignore_punctuation: self.ignore_punctuation,
            }),
    {
        Motion::PreviousSubwordStart { ignore_punctuation: self.ignore_punctuation }
    }
}

impl PreviousSubwordEnd {
    /// The motion that the command asks for.
    pub fn motion(&self) -> (motion: Motion)
        ensures
            motion == (Motion::PreviousSubwordEnd { ignore_punctuation: self.ignore_punctuation }),
    {
        Motion::PreviousSubwordEnd { ignore_punctuation: self.ignore_punctuation }
    }
}

impl UnmatchedForward {
    /// The motion that the command asks for.
    pub fn motion(&self) -> (motion: Motion)
        ensures
            motion == (Motion::UnmatchedForward { char: self.char }),
    {
        Motion::UnmatchedForward { char: self.char }
    }
}

impl UnmatchedBackward {
    /// The motion that the command asks for.
    pub fn motion(&self) -> (motion: Motion)
        ensures
            motion == (Motion::UnmatchedBackward { char: self.char }),
    {
        Motion::UnmatchedBackward { char: self.char }
    }
}

/// A command that asks for a motion.
#[derive(Clone, Copy, Debug, PartialEq, Eq, Structural)]
pub enum Command {
    Left,
    Backspace,
    Right,
    Space,
    CurrentLine,
    StartOfParagraph,
    EndOfParagraph,
    SentenceForward,
    SentenceBackward,
    StartOfDocument,
    EndOfDocument,
    Matching,
    NextLineStart,
    PreviousLineStart,
    StartOfLineDownward,
    EndOfLineDownward,
    GoToColumn,
    WindowTop,
    WindowMiddle,
    WindowBottom,
    NextSectionStart,
    NextSectionEnd,
    PreviousSectionStart,
    PreviousSectionEnd,
    NextMethodStart,
    NextMethodEnd,
    PreviousMethodStart,
    PreviousMethodEnd,
    NextComment,
    PreviousComment,
    Down(Down),
    Up(Up),
    FirstNonWhitespace(FirstNonWhitespace),
    StartOfLine(StartOfLine),
    EndOfLine(EndOfLine),
    UnmatchedForward(UnmatchedForward),
    UnmatchedBackward(UnmatchedBackward),
    NextWordStart(NextWordStart),
    NextWordEnd(NextWordEnd),
    PreviousWordStart(PreviousWordStart),
    PreviousWordEnd(PreviousWordEnd),
    NextSubwordStart(NextSubwordStart),
    NextSubwordEnd(NextSubwordEnd),
    PreviousSubwordStart(PreviousSubwordStart),
    PreviousSubwordEnd(PreviousSubwordEnd),
    /// The last search, once more.
    RepeatFind,
    /// The last search, the other way round.
    RepeatFindReversed,
}

/// The motion that a command asks for. The commands that repeat a search
/// ask for nothing while no search is remembered.
pub open spec fn requested(command: Command, memory: FindMemory) -> Option<Motion> {
    match command {
        Command::Left => Some(Motion::Left),
        Command::Backspace => Some(Motion::Backspace),
        Command::Right => Some(Motion::Right),
        Command::Space => Some(Motion::Space),
        Command::CurrentLine => Some(Motion::CurrentLine),
        Command::StartOfParagraph => Some(Motion::StartOfParagraph),
        Command::EndOfParagraph => Some(Motion::EndOfParagraph),
        Command::SentenceForward => Some(Motion::SentenceForward),
        Command::SentenceBackward => Some(Motion::SentenceBackward),
        Command::StartOfDocument => Some(Motion::StartOfDocument),
        Command::EndOfDocument => Some(Motion::EndOfDocument),
        Command::Matching => Some(Motion::Matching),
        Command::NextLineStart => Some(Motion::NextLineStart),
        Command::PreviousLineStart => Some(Motion::PreviousLineStart),
        Command::StartOfLineDownward => Some(Motion::StartOfLineDownward),
        Command::EndOfLineDownward => Some(Motion::EndOfLineDownward),
        Command::GoToColumn => Some(Motion::GoToColumn),
        Command::WindowTop => Some(Motion::WindowTop),
        Command::WindowMiddle => Some(Motion::WindowMiddle),
        Command::WindowBottom => Some(Motion::WindowBottom),
        Command::NextSectionStart => Some(Motion::NextSectionStart),
        Command::NextSectionEnd => Some(Motion::NextSectionEnd),
        Command::PreviousSectionStart => Some(Motion::PreviousSectionStart),
        Command::PreviousSectionEnd => Some(Motion::PreviousSectionEnd),
        Command::NextMethodStart => Some(Motion::NextMethodStart),
        Command::NextMethodEnd => Some(Motion::NextMethodEnd),
        Command::PreviousMethodStart => Some(Motion::PreviousMethodStart),
        Command::PreviousMethodEnd => Some(Motion::PreviousMethodEnd),
        Command::NextComment => Some(Motion::NextComment),
        Command::PreviousComment => Some(Motion::PreviousComment),
        Command::Down(action) => Some(Motion::Down { display_lines: action.display_lines }),
        Command::Up(action) => Some(Motion::Up { display_lines: action.display_lines }),
        Command::FirstNonWhitespace(action) => Some(Motion::FirstNonWhitespace { display_lines: action.display_lines }),
        Command::StartOfLine(action) => Some(Motion::StartOfLine { display_lines: action.display_lines }),
        Command::EndOfLine(action) => Some(Motion::EndOfLine { display_lines: action.display_lines }),
        Command::UnmatchedForward(action) => Some(Motion::UnmatchedForward { char: action.char }),
        Command::UnmatchedBackward(action) => Some(Motion::UnmatchedBackward { char: action.char }),
        Command::NextWordStart(action) => Some(Motion::NextWordStart { ignore_punctuation: action.ignore_punctuation }),
        Command::NextWordEnd(action) => Some(Motion::NextWordEnd { ignore_punctuation: action.ignore_punctuation }),
        Command::PreviousWordStart(action) => Some(Motion::PreviousWordStart { ignore_punctuation: action.ignore_punctuation }),
        Command::PreviousWordEnd(action) => Some(Motion::PreviousWordEnd { ignore_punctuation: action.ignore_punctuation }),
        Command::NextSubwordStart(action) => Some(Motion::NextSubwordStart { ignore_punctuation: action.ignore_punctuation }),
        Command::NextSubwordEnd(action) => Some(Motion::NextSubwordEnd { ignore_punctuation: action.ignore_punctuation }),
        Command::PreviousSubwordStart(action) => Some(Motion::PreviousSubwordStart { ignore_punctuation: action.ignore_punctuation }),
        Command::PreviousSubwordEnd(action) => Some(Motion::PreviousSubwordEnd { ignore_punctuation: action.ignore_punctuation }),
        Command::RepeatFind => memory.repeated(false),
        Command::RepeatFindReversed => memory.repeated(true),
    }
}

/// Names the motion that a command asks for.
pub fn register(command: Command, memory: &FindMemory) -> (motion: Option<Motion>)
    ensures
        motion == requested(command, *memory),
{
    match command {
        Command::Left => Some(Motion::Left),
        Command::Backspace => Some(Motion::Backspace),
        Command::Right => Some(Motion::Right),
        Command::Space => Some(Motion::Space),
        Command::CurrentLine => Some(Motion::CurrentLine),
        Command::StartOfParagraph => Some(Motion::StartOfParagraph),
        Command::EndOfParagraph => Some(Motion::EndOfParagraph),
        Command::SentenceForward => Some(Motion::SentenceForward),
        Command::SentenceBackward => Some(Motion::SentenceBackward),
        Command::StartOfDocument => Some(Motion::StartOfDocument),
        Command::EndOfDocument => Some(Motion::EndOfDocument),
        Command::Matching => Some(Motion::Matching),
        Command::NextLineStart => Some(Motion::NextLineStart),
        Command::PreviousLineStart => Some(Motion::PreviousLineStart),
        Command::StartOfLineDownward => Some(Motion::StartOfLineDownward),
        Command::EndOfLineDownward => Some(Motion::EndOfLineDownward),
        Command::GoToColumn => Some(Motion::GoToColumn),
        Command::WindowTop => Some(Motion::WindowTop),
        Command::WindowMiddle => Some(Motion::WindowMiddle),
        Command::WindowBottom => Some(Motion::WindowBottom),
        Command::NextSectionStart => Some(Motion::NextSectionStart),
        Command::NextSectionEnd => Some(Motion::NextSectionEnd),
        Command::PreviousSectionStart => Some(Motion::PreviousSectionStart),
        Command::PreviousSectionEnd => Some(Motion::PreviousSectionEnd),
        Command::NextMethodStart => Some(Motion::NextMethodStart),
        Command::NextMethodEnd => Some(Motion::NextMethodEnd),
        Command::PreviousMethodStart => Some(Motion::PreviousMethodStart),
        Command::PreviousMethodEnd => Some(Motion::PreviousMethodEnd),
        Command::NextComment => Some(Motion::NextComment),
        Command::PreviousComment => Some(Motion::PreviousComment),
        Command::Down(action) => Some(action.motion()),
        Command::Up(action) => Some(action.motion()),
        Command::FirstNonWhitespace(action) => Some(action.motion()),
        Command::StartOfLine(action) => Some(action.motion()),
        Command::EndOfLine(action) => Some(action.motion()),
        Command::UnmatchedForward(action) => Some(action.motion()),
        Command::UnmatchedBackward(action) => Some(action.motion()),
        Command::NextWordStart(action) => Some(action.motion()),
        Command::NextWordEnd(action) => Some(action.motion()),
        Command::PreviousWordStart(action) => Some(action.motion()),
        Command::PreviousWordEnd(action) => Some(action.motion()),
        Command::NextSubwordStart(action) => Some(action.motion()),
        Command::NextSubwordEnd(action) => Some(action.motion()),
        Command::PreviousSubwordStart(action) => Some(action.motion()),
        Command::PreviousSubwordEnd(action) => Some(action.motion()),
        Command::RepeatFind => memory.repeat_find(),
        Command::RepeatFindReversed => memory.repeat_find_reversed(),
    }
}

} // verus!

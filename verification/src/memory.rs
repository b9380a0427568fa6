//! The memory of the last search for a character or a pair, from which the
//! search is made again.

use crate::motion::Motion;
use crate::scan::FindRange;
use vstd::prelude::*;

verus! {

/// A search that can be made again.
#[derive(Clone, Copy, Debug, PartialEq, Eq, Structural)]
pub enum Search {
    FindForward { before: bool, char: char, mode: FindRange, smartcase: bool },
    FindBackward { after: bool, char: char, mode: FindRange, smartcase: bool },
    Sneak { first_char: char, second_char: char, smartcase: bool },
    SneakBackward { first_char: char, second_char: char, smartcase: bool },
}

impl Search {
    /// The motion that makes the search.
    pub open spec fn as_motion(self) -> Motion {
        match self {
            Search::FindForward { before, char, mode, smartcase } => Motion::FindForward {
                before,
                char,
                mode,
                smartcase,
            },
            Search::FindBackward { after, char, mode, smartcase } => Motion::FindBackward {
                after,
                char,
                mode,
                smartcase,
            },
            Search::Sneak { first_char, second_char, smartcase } => Motion::Sneak {
                first_char,
                second_char,
                smartcase,
            },
            Search::SneakBackward { first_char, second_char, smartcase } => Motion::SneakBackward {
                first_char,
                second_char,
                smartcase,
            },
        }
    }

    /// The search that a motion makes, if it makes one.
    pub open spec fn of_motion(motion: Motion) -> Option<Search> {
        match motion {
            Motion::FindForward { before, char, mode, smartcase } => Some(
                Search::FindForward { before, char, mode, smartcase },
            ),
            Motion::FindBackward { after, char, mode, smartcase } => Some(
                Search::FindBackward { after, char, mode, smartcase },
            ),
            Motion::Sneak { first_char, second_char, smartcase } => Some(
                Search::Sneak { first_char, second_char, smartcase },
            ),
            Motion::SneakBackward { first_char, second_char, smartcase } => Some(
                Search::SneakBackward { first_char, second_char, smartcase },
            ),
            _ => None,
        }
    }

    /// The motion that makes the search.
    pub fn motion(self) -> (motion: Motion)
        ensures
            motion == self.as_motion(),
    {
        match self {
            Search::FindForward { before, char, mode, smartcase } => Motion::FindForward {
                before,
                char,
                mode,
                smartcase,
            },
            Search::FindBackward { after, char, mode, smartcase } => Motion::FindBackward {
                after,
                char,
                mode,
                smartcase,
            },
            Search::Sneak { first_char, second_char, smartcase } => Motion::Sneak {
                first_char,
                second_char,
                smartcase,
            },
            Search::SneakBackward { first_char, second_char, smartcase } => Motion::SneakBackward {
                first_char,
                second_char,
                smartcase,
            },
        }
    }

    /// The search that a motion makes, if it makes one.
    pub fn from_motion(motion: &Motion) -> (search: Option<Search>)
        ensures
            search == Search::of_motion(*motion),
    {
        match motion {
            Motion::FindForward { before, char, mode, smartcase } => Some(
                Search::FindForward {
                    before: *before,
                    char: *char,
                    mode: *mode,
                    smartcase: *smartcase,
                },
            ),
            Motion::FindBackward { after, char, mode, smartcase } => Some(
                Search::FindBackward {
                    after: *after,
                    char: *char,
                    mode: *mode,
                    smartcase: *smartcase,
                },
            ),
            Motion::Sneak { first_char, second_char, smartcase } => Some(
                Search::Sneak {
                    first_char: *first_char,
                    second_char: *second_char,
                    smartcase: *smartcase,
                },
            ),
            Motion::SneakBackward { first_char, second_char, smartcase } => Some(
                Search::SneakBackward {
                    first_char: *first_char,
                    second_char: *second_char,
                    smartcase: *smartcase,
                },
            ),
            _ => None,
        }
    }
}

/// What a session remembers of its searches: the last one that was made
/// and landed.
#[derive(Clone, Copy, Debug, PartialEq, Eq, Structural)]
pub struct FindMemory {
    pub last_find: Option<Search>,
}

impl FindMemory {
    /// What the memory holds once `motion` has been made: the search that
    /// `motion` makes, if it makes one and landed; else what it held.
    pub open spec fn recorded(self, motion: Motion, landed: bool) -> FindMemory {
        if landed && Search::of_motion(motion) is Some {
            FindMemory { last_find: Search::of_motion(motion) }
        } else {
            self
        }
    }

    /// The motion that makes the remembered search again; with `reversed`,
    /// the other way round.
    pub open spec fn repeated(self, reversed: bool) -> Option<Motion> {
        match self.last_find {
            Some(search) => Some(
                if reversed {
                    Motion::RepeatFindReversed { last_find: Box::new(search.as_motion()) }
                } else {
                    Motion::RepeatFind { last_find: Box::new(search.as_motion()) }
                },
            ),
            None => None,
        }
    }

    /// A memory that holds nothing.
    pub fn new() -> (memory: FindMemory)
        ensures
            memory.last_find is None,
    {
        FindMemory { last_find: None }
    }

    /// Takes note of a motion that has been made. Repeating a search leaves
    /// the memory as it is.
    pub fn record(&mut self, motion: &Motion, landed: bool)
        ensures
            *final(self) == old(self).recorded(*motion, landed),
    {
        if landed {
            match Search::from_motion(motion) {
                Some(search) => {
                    self.last_find = Some(search);
                },
                None => {},
            }
        }
    }

    /// The motion that makes the remembered search again, if a search is
    /// remembered.
    pub fn repeat_find(&self) -> (motion: Option<Motion>)
        ensures
            motion == self.repeated(false),
    {
        match self.last_find {
            Some(search) => Some(Motion::RepeatFind { last_find: Box::new(search.motion()) }),
            None => None,
        }
    }

    /// The motion that makes the remembered search the other way round, if
    /// a search is remembered.
    pub fn repeat_find_reversed(&self) -> (motion: Option<Motion>)
        ensures
            motion == self.repeated(true),
    {
        match self.last_find {
            Some(search) => Some(
                Motion::RepeatFindReversed { last_find: Box::new(search.motion()) },
            ),
            None => None,
        }
    }
}

} // verus!

//! What a session decides before a motion is made: whom the motion is
//! for, and what becomes of an operator that waits for input.

use vstd::prelude::*;

verus! {

/// The mode of a session.
#[derive(Clone, Copy, Debug, PartialEq, Eq, Structural)]
pub enum Mode {
    Normal,
    Insert,
    Replace,
    Visual,
    VisualLine,
    VisualBlock,
    HelixNormal,
}

/// What matters to a motion of an operator that waits for input.
#[derive(Clone, Copy, Debug, PartialEq, Eq, Structural)]
pub enum Pending {
    /// No operator waits.
    Nothing,
    /// An operator waits for the character, or the pair, of a search.
    Search,
    /// An operator waits to be told what to surround.
    AddSurrounds,
    /// Any other operator waits.
    Other,
}

/// Who makes a motion.
#[derive(Clone, Copy, Debug, PartialEq, Eq, Structural)]
pub enum Route {
    /// The cursor moves, or the pending operator acts on the text moved
    /// over.
    Normal,
    /// The selection grows or shrinks.
    Visual,
    /// The selection follows the cursor.
    Helix,
    /// The motion is kept for the operator that waits to be told what to
    /// surround; that operator goes on waiting, for the surrounding pair.
    Surround,
}

/// What is done with a motion.
#[derive(Clone, Copy, Debug, PartialEq, Eq, Structural)]
pub struct MotionPlan {
    /// The operator on top of the stack waited for the search that the
    /// motion now makes, and leaves the stack first.
    pub drops_search: bool,
    pub route: Route,
}

/// What is done with the outcome of a search that was run elsewhere.
#[derive(Clone, Copy, Debug, PartialEq, Eq, Structural)]
pub struct SearchPlan {
    /// The selections from before the search are put back first.
    pub restores_prior: bool,
    /// The motion is made.
    pub proceeds: bool,
}

/// Whether a mode shows a selection.
pub open spec fn visual(mode: Mode) -> bool {
    mode == Mode::Visual || mode == Mode::VisualLine || mode == Mode::VisualBlock
}

/// The plan for a motion, given the operator on top of the stack and the
/// one below it. An operator that waited for a search is done with; the
/// operator below it is then the one that the motion is for.
pub open spec fn motion_plan(mode: Mode, top: Pending, below: Pending) -> MotionPlan {
    let drops_search = top == Pending::Search;
    let active = if drops_search {
        below
    } else {
        top
    };
    let route = if visual(mode) {
        Route::Visual
    } else if mode == Mode::HelixNormal {
        Route::Helix
    } else if active == Pending::AddSurrounds {
        Route::Surround
    } else {
        Route::Normal
    };
    MotionPlan { drops_search, route }
}

/// The plan for the outcome of a search. With a selection shown, the
/// selections from before the search come back, if there were any. With
/// none shown the outcome only serves an operator that waits.
pub open spec fn search_plan(mode: Mode, has_prior: bool, has_operator: bool) -> SearchPlan {
    if visual(mode) {
        SearchPlan { restores_prior: has_prior, proceeds: true }
    } else if mode == Mode::HelixNormal {
        SearchPlan { restores_prior: false, proceeds: true }
    } else {
        SearchPlan { restores_prior: false, proceeds: has_operator }
    }
}

/// Plans a motion.
pub fn plan_motion(mode: Mode, top: Pending, below: Pending) -> (plan: MotionPlan)
    ensures
        plan == motion_plan(mode, top, below),
{
    let drops_search = top == Pending::Search;
    let active = if drops_search {
        below
    } else {
        top
    };
    let route = match mode {
        Mode::Normal | Mode::Replace | Mode::Insert => {
            if active == Pending::AddSurrounds {
                Route::Surround
            } else {
                Route::Normal
            }
        },
        Mode::Visual | Mode::VisualLine | Mode::VisualBlock => Route::Visual,
        Mode::HelixNormal => Route::Helix,
    };
    MotionPlan { drops_search, route }
}

/// Plans what to do with the outcome of a search.
pub fn plan_search(mode: Mode, has_prior: bool, has_operator: bool) -> (plan: SearchPlan)
    ensures
        plan == search_plan(mode, has_prior, has_operator),
{
    match mode {
        Mode::Visual | Mode::VisualLine | Mode::VisualBlock => SearchPlan {
            restores_prior: has_prior,
            proceeds: true,
        },
        Mode::Normal | Mode::Replace | Mode::Insert => SearchPlan {
            restores_prior: false,
            proceeds: has_operator,
        },
        Mode::HelixNormal => SearchPlan { restores_prior: false, proceeds: true },
    }
}

} // verus!

//! Repeating a step a counted number of times.

use vstd::prelude::*;

verus! {

/// `step` applied up to `times` times, ending early once `done` holds of
/// what a step gave.
pub open spec fn repeat_until<T>(
    step: spec_fn(T) -> T,
    done: spec_fn(T) -> bool,
    p: T,
    times: nat,
) -> T
    decreases times,
{
    if times == 0 {
        p
    } else {
        let q = step(p);
        if done(q) {
            q
        } else {
            repeat_until(step, done, q, (times - 1) as nat)
        }
    }
}

/// `step` applied up to `times` times, ending early once a step changes
/// nothing.
pub open spec fn repeat_while_moving<T>(step: spec_fn(T) -> T, p: T, times: nat) -> T
    decreases times,
{
    if times == 0 {
        p
    } else {
        let q = step(p);
        if q == p {
            p
        } else {
            repeat_while_moving(step, q, (times - 1) as nat)
        }
    }
}

/// Counts add up: a step repeated `m + n` times ends where `n` repetitions
/// end that begin where `m` repetitions ended. A motion with a count of 3
/// is the motion made once and then with a count of 2.
pub proof fn law_counts_add_up<T>(step: spec_fn(T) -> T, p: T, m: nat, n: nat)
    ensures
        repeat_while_moving(step, p, m + n) == repeat_while_moving(
            step,
            repeat_while_moving(step, p, m),
            n,
        ),
    decreases m,
{
    if m > 0 {
        let q = step(p);
        if q == p {
            lemma_stuck(step, p, n);
            lemma_stuck(step, p, m + n);
        } else {
            assert(repeat_while_moving(step, p, m + n) == repeat_while_moving(
                step,
                q,
                (m + n - 1) as nat,
            ));
            law_counts_add_up(step, q, (m - 1) as nat, n);
        }
    }
}

/// Where a step changes nothing, no number of repetitions changes
/// anything.
pub proof fn lemma_stuck<T>(step: spec_fn(T) -> T, p: T, n: nat)
    requires
        step(p) == p,
    ensures
        repeat_while_moving(step, p, n) == p,
{
}

/// A step repeated once is the step.
pub proof fn law_once<T>(step: spec_fn(T) -> T, p: T)
    ensures
        repeat_while_moving(step, p, 1) == step(p),
{
    assert(repeat_while_moving(step, step(p), 0) == step(p));
}

/// What holds at the start and is kept by every step holds where the
/// repetitions end.
pub proof fn law_repeat_keeps<T>(step: spec_fn(T) -> T, kept: spec_fn(T) -> bool, p: T, n: nat)
    requires
        kept(p),
        forall|q: T| kept(q) ==> kept(#[trigger] step(q)),
    ensures
        kept(repeat_while_moving(step, p, n)),
    decreases n,
{
    if n > 0 && step(p) != p {
        law_repeat_keeps(step, kept, step(p), (n - 1) as nat);
    }
}

} // verus!

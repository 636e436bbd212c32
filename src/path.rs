//! Control of the path integrator's bounce loop.
//!
//! A camera ray is traced through the scene one bounce at a time. Each bounce
//! asks the scene for the nearest hit and the hit's material whether it
//! scatters; what came of it is an [`Outcome`]. The loop ends on black when the
//! bounce budget is spent or the ray is absorbed, and on the sky gradient when
//! the ray escapes. The colors themselves are computed by the caller, which
//! multiplies the attenuation of each scattering bounce into the result.

use vstd::prelude::*;

verus! {

/// What one traced bounce reported.
#[derive(Clone, Copy, Debug, PartialEq, Eq, Structural)]
pub enum Outcome {
    /// The ray hit nothing in the scene.
    Missed,
    /// The ray hit a surface whose material absorbed it.
    Absorbed,
    /// The ray hit a surface and its material scattered a new ray.
    Scattered,
}

/// The color that ends a path, before the attenuation gathered on the way.
#[derive(Clone, Copy, Debug, PartialEq, Eq, Structural)]
pub enum Terminal {
    /// No light: the path was absorbed or ran out of bounces.
    Black,
    /// The sky gradient in the direction of the last ray.
    Sky,
}

/// What the integrator does next.
#[derive(Clone, Copy, Debug, PartialEq, Eq, Structural)]
pub enum Step {
    /// Trace the current ray, with this many bounces left including this one.
    Trace(u32),
    /// The path is complete.
    Finish(Terminal),
}

/// How a path with `depth` bounces left ends when its bounces report
/// `outcomes` in order; `None` while the outcomes seen do not decide it yet.
pub open spec fn path_end(depth: nat, outcomes: Seq<Outcome>) -> Option<Terminal>
    decreases outcomes.len(),
{
    if depth == 0 {
        Some(Terminal::Black)
    } else if outcomes.len() == 0 {
        None
    } else {
        match outcomes[0] {
            Outcome::Missed => Some(Terminal::Sky),
            Outcome::Absorbed => Some(Terminal::Black),
            Outcome::Scattered => path_end((depth - 1) as nat, outcomes.drop_first()),
        }
    }
}

/// How many bounces a path with `depth` bounces left traces before it ends,
/// when its bounces report `outcomes` in order and these decide its end.
pub open spec fn path_bounces(depth: nat, outcomes: Seq<Outcome>) -> nat
    decreases outcomes.len(),
{
    if depth == 0 || outcomes.len() == 0 {
        0
    } else {
        match outcomes[0] {
            Outcome::Scattered => 1 + path_bounces((depth - 1) as nat, outcomes.drop_first()),
            _ => 1,
        }
    }
}

/// The step at which a path with `depth` bounces left stands.
pub open spec fn step_for(depth: nat) -> Step {
    if depth == 0 {
        Step::Finish(Terminal::Black)
    } else {
        Step::Trace(depth as u32)
    }
}

/// The first step of a path whose bounce budget is `depth`: with no budget
/// left it ends on black at once, without looking at the scene.
pub fn start(depth: u32) -> (s: Step)
    ensures
        s == step_for(depth as nat),
        depth == 0 <==> s == Step::Finish(Terminal::Black),
{
    if depth == 0 {
        Step::Finish(Terminal::Black)
    } else {
        Step::Trace(depth)
    }
}

/// The step after a bounce traced with `remaining` bounces left reported
/// `outcome`; with no bounce left the path is black whatever was reported.
pub fn advance(remaining: u32, outcome: Outcome) -> (s: Step)
    ensures
        remaining == 0 ==> s == Step::Finish(Terminal::Black),
        remaining > 0 && outcome == Outcome::Missed ==> s == Step::Finish(Terminal::Sky),
        remaining > 0 && outcome == Outcome::Absorbed ==> s == Step::Finish(Terminal::Black),
        remaining > 0 && outcome == Outcome::Scattered ==> s == step_for((remaining - 1) as nat),
{
    if remaining == 0 {
        return Step::Finish(Terminal::Black);
    }
    match outcome {
        Outcome::Missed => Step::Finish(Terminal::Sky),
        Outcome::Absorbed => Step::Finish(Terminal::Black),
        Outcome::Scattered => start(remaining - 1),
    }
}

/// How a path with bounce budget `depth` ends when its bounces report
/// `outcomes` in order, and how many of them it consumed; `None` where the
/// outcomes run out before the path ends.
pub fn resolve(depth: u32, outcomes: &Vec<Outcome>) -> (r: Option<(Terminal, usize)>)
    ensures
        r matches Some((t, _)) ==> path_end(depth as nat, outcomes@) == Some(t),
        r is None ==> path_end(depth as nat, outcomes@) is None,
        r matches Some((_, used)) ==> used == path_bounces(depth as nat, outcomes@),
        r matches Some((_, used)) ==> used <= outcomes@.len() && used <= depth,
{
    let mut step = start(depth);
    let mut i: usize = 0;
    assert(outcomes@.skip(0) =~= outcomes@);
    loop
        invariant
            i <= outcomes@.len(),
            i <= depth,
            match step {
                Step::Trace(rem) => rem > 0 && rem + i == depth,
                Step::Finish(_) => true,
            },
            path_end(depth as nat, outcomes@) == match step {
                Step::Trace(rem) => path_end(rem as nat, outcomes@.skip(i as int)),
                Step::Finish(t) => Some(t),
            },
            path_bounces(depth as nat, outcomes@) == match step {
                Step::Trace(rem) => i + path_bounces(rem as nat, outcomes@.skip(i as int)),
                Step::Finish(_) => i as int,
            },
        decreases outcomes@.len() - i,
    {
        match step {
            Step::Finish(t) => {
                return Some((t, i));
            },
            Step::Trace(rem) => {
                if i == outcomes.len() {
                    return None;
                }
                let o = outcomes[i];
                proof {
                    let rest = outcomes@.skip(i as int);
                    assert(rest[0] == o);
                    assert(rest.drop_first() =~= outcomes@.skip(i + 1));
                    assert(path_end(rem as nat, rest) == match o {
                        Outcome::Missed => Some(Terminal::Sky),
                        Outcome::Absorbed => Some(Terminal::Black),
                        Outcome::Scattered => path_end((rem - 1) as nat, rest.drop_first()),
                    });
                    assert(path_bounces(rem as nat, rest) == match o {
                        Outcome::Scattered => 1 + path_bounces((rem - 1) as nat, rest.drop_first()),
                        _ => 1,
                    });
                }
                step = advance(rem, o);
                i += 1;
            },
        }
    }
}

/// A path whose bounce budget is zero is black, whatever the scene would
/// report for its ray.
pub proof fn lemma_zero_depth_black(outcomes: Seq<Outcome>)
    ensures
        path_end(0, outcomes) == Some(Terminal::Black),
{
}

/// A path never traces more bounces than its budget: once `depth` outcomes are
/// known, how it ends is decided.
pub proof fn lemma_bounded_bounces(depth: nat, outcomes: Seq<Outcome>)
    requires
        outcomes.len() >= depth,
    ensures
        path_end(depth, outcomes) is Some,
    decreases depth,
{
    if depth > 0 && outcomes[0] == Outcome::Scattered {
        lemma_bounded_bounces((depth - 1) as nat, outcomes.drop_first());
    }
}

/// A path reaches the sky only through a run of scattering bounces ended by a
/// miss, all within its budget: its last traced bounce missed and every one
/// before it scattered, so the sky color is weighted by the attenuation of
/// exactly the bounces before the last.
pub proof fn lemma_sky_needs_escape(depth: nat, outcomes: Seq<Outcome>)
    requires
        path_end(depth, outcomes) == Some(Terminal::Sky),
    ensures
        1 <= path_bounces(depth, outcomes) <= depth,
        path_bounces(depth, outcomes) <= outcomes.len(),
        outcomes[path_bounces(depth, outcomes) - 1] == Outcome::Missed,
        forall|m: int|
            0 <= m < path_bounces(depth, outcomes) - 1 ==> #[trigger] outcomes[m]
                == Outcome::Scattered,
    decreases depth,
{
    if outcomes[0] != Outcome::Missed {
        let rest = outcomes.drop_first();
        lemma_sky_needs_escape((depth - 1) as nat, rest);
        let n: int = path_bounces((depth - 1) as nat, rest) as int;
        assert(outcomes[n] == rest[n - 1]);
        assert forall|m: int| 0 <= m < n implies #[trigger] outcomes[m] == Outcome::Scattered by {
            if m > 0 {
                assert(outcomes[m] == rest[m - 1]);
            }
        }
    }
}

} // verus!

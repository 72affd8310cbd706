//! Decision core of the Monte-Carlo path integrator.
//!
//! One sample of one pixel traces a chain of bounces.  The numeric work
//! of a bounce — intersection, scattering, attenuation — lives with the
//! front end; what it reports back is one of three discrete outcomes.
//! This module owns the integrator's bookkeeping: how an outcome,
//! together with the bounce counter, decides whether the sample keeps
//! bouncing or ends, and what a finished sample contributes.

use vstd::prelude::*;

verus! {

/// What one bounce of the current ray against the scene reported.
#[derive(Clone, Copy, PartialEq, Eq, Structural, Debug)]
pub enum BounceOutcome {
    /// The ray left the scene without hitting anything.
    Miss,
    /// The ray hit a surface and the material swallowed it.
    Absorbed,
    /// The ray hit a surface and scattered onward.
    Scattered,
}

/// How a finished sample contributes to its pixel.
#[derive(Clone, Copy, PartialEq, Eq, Structural, Debug)]
pub enum SampleEnd {
    /// The ray escaped: the sample contributes the sky gradient seen
    /// along it, tinted by the attenuation gathered so far.
    Sky,
    /// The ray was absorbed or the bounce budget ran out: the sample
    /// contributes no light.
    Dark,
}

/// One step of the integrator's decision, as a mathematical function:
/// from the current bounce count, the bounce budget and the bounce's
/// outcome to the next bounce count and, if the sample is over, its
/// contribution.  A miss ends the sample with the sky, absorption ends
/// it dark, and a scatter either continues the chain or — when it would
/// reach the budget — ends it dark.  With a zero budget the very first
/// scatter already reaches it, so no scattered light is ever gathered.
pub open spec fn spec_step(depth: nat, max_depth: nat, outcome: BounceOutcome) -> (nat, Option<
    SampleEnd,
>) {
    match outcome {
        BounceOutcome::Miss => (0, Some(SampleEnd::Sky)),
        BounceOutcome::Absorbed => (0, Some(SampleEnd::Dark)),
        BounceOutcome::Scattered => if depth + 1 < max_depth {
            ((depth + 1) as nat, None)
        } else {
            (0, Some(SampleEnd::Dark))
        },
    }
}

/// The per-sample state of the integrator: how many scattering bounces
/// the current chain has taken, against a fixed bounce budget.
pub struct PathState {
    depth: usize,
    max_depth: usize,
}

impl PathState {
    /// The number of scattering bounces the current chain has taken.
    pub closed spec fn spec_depth(&self) -> nat {
        self.depth as nat
    }

    /// The bounce budget the state was started with.
    pub closed spec fn spec_max_depth(&self) -> nat {
        self.max_depth as nat
    }

    /// Structural invariant: the counter is fresh or strictly below the
    /// budget, so one more bounce can always be counted.
    pub open spec fn wf(&self) -> bool {
        self.spec_depth() == 0 || self.spec_depth() < self.spec_max_depth()
    }

    /// Begins a fresh sample with an empty bounce chain.  Every budget
    /// is meaningful, zero included: see `spec_step`.
    pub fn start(max_depth: usize) -> (r: Self)
        ensures
            r.wf(),
            r.spec_depth() == 0,
            r.spec_max_depth() == max_depth,
    {
        PathState { depth: 0, max_depth }
    }

    /// Feeds one bounce's outcome into the integrator.  Returns `None`
    /// while the chain goes on and `Some` with the sample's contribution
    /// when it ends; the state is then ready for the next sample.
    pub fn step(&mut self, outcome: BounceOutcome) -> (r: Option<SampleEnd>)
        requires
            old(self).wf(),
        ensures
            final(self).wf(),
            final(self).spec_max_depth() == old(self).spec_max_depth(),
            (final(self).spec_depth(), r) == spec_step(
                old(self).spec_depth(),
                old(self).spec_max_depth(),
                outcome,
            ),
    {
        match outcome {
            BounceOutcome::Miss => {
                self.depth = 0;
                Some(SampleEnd::Sky)
            },
            BounceOutcome::Absorbed => {
                self.depth = 0;
                Some(SampleEnd::Dark)
            },
            BounceOutcome::Scattered => {
                let d = self.depth + 1;
                if d < self.max_depth {
                    self.depth = d;
                    None
                } else {
                    self.depth = 0;
                    Some(SampleEnd::Dark)
                }
            },
        }
    }
}

/// Whether a sample that currently has `depth` bounces ends somewhere
/// within the given sequence of bounce outcomes.
pub open spec fn spec_ends_within(depth: nat, max_depth: nat, outcomes: Seq<
    BounceOutcome,
>) -> bool
    decreases outcomes.len(),
{
    if outcomes.len() == 0 {
        false
    } else {
        let next = spec_step(depth, max_depth, outcomes.first());
        next.1 is Some || spec_ends_within(next.0, max_depth, outcomes.drop_first())
    }
}

/// Law: a path terminates within the bounce budget.  Whatever the scene
/// reports, a chain that has taken `depth` bounces ends after at most
/// `max_depth - depth` more reports (one report, for a zero budget) —
/// it never loops indefinitely.
pub proof fn lemma_path_terminates(depth: nat, max_depth: nat, outcomes: Seq<BounceOutcome>)
    requires
        depth == 0 || depth < max_depth,
        outcomes.len() >= max_depth - depth,
        outcomes.len() >= 1,
    ensures
        spec_ends_within(depth, max_depth, outcomes),
    decreases outcomes.len(),
{
    let next = spec_step(depth, max_depth, outcomes.first());
    if next.1 is None {
        lemma_path_terminates(next.0, max_depth, outcomes.drop_first());
    }
}

/// Law: in a scene with no geometry every bounce misses, so every sample
/// ends at its very first step and contributes exactly the sky gradient.
pub proof fn lemma_empty_scene_is_sky(depth: nat, max_depth: nat)
    ensures
        spec_step(depth, max_depth, BounceOutcome::Miss).1 == Some(SampleEnd::Sky),
        spec_step(depth, max_depth, BounceOutcome::Miss).0 == 0,
{
}

/// Law: a zero bounce budget gathers no scattered light.  The first
/// surface interaction — scattering or absorption alike — ends the
/// sample dark; only a ray that leaves the scene unhit contributes.
pub proof fn lemma_zero_budget_gathers_nothing(depth: nat)
    ensures
        spec_step(depth, 0, BounceOutcome::Scattered) == (0nat, Some(SampleEnd::Dark)),
        spec_step(depth, 0, BounceOutcome::Absorbed) == (0nat, Some(SampleEnd::Dark)),
{
}

} // verus!

//! The controller of one light sample's path: what each bounce contributes
//! and when the path ends.
use vstd::prelude::*;
use crate::hit::Hit;

verus! {

/// What casting the current ray, and then testing the light's visibility
/// from the struck point, found.
#[derive(Clone, Copy, Debug, PartialEq, Eq, Structural)]
pub enum Probe {
    /// The ray struck nothing.
    Miss,
    /// The ray struck a surface from which the light point is visible.
    Lit(Hit),
    /// The ray struck a surface whose view of the light point is blocked.
    Shadowed(Hit),
}

/// The colour a bounce adds to the sample, before weighting.
#[derive(Clone, Copy, Debug, PartialEq, Eq, Structural)]
pub enum Contribution {
    /// The background colour.
    Background,
    /// Black: the surface is in full shadow.
    Black,
    /// The shaded colour of the struck surface under the light.
    Shaded,
}

/// What the caller has to do after one probe.
#[derive(Clone, Copy, Debug, PartialEq, Eq, Structural)]
pub struct Step {
    /// The colour to add, weighted by the reflection factor as it stands
    /// before this bounce.
    pub contribution: Contribution,
    /// The hit to continue from: its surface's reflectiveness scales the
    /// reflection factor and the next ray leaves from it. `None` ends the
    /// path.
    pub advance: Option<Hit>,
}

/// Progress of one light sample's path.
#[derive(Clone, Copy, Debug, PartialEq, Eq, Structural)]
pub struct Path {
    /// The most bounces the path may take.
    pub depth: usize,
    /// Bounces taken so far.
    pub bounces: usize,
    /// Whether a ray has left the scene.
    pub missed: bool,
}

/// The contribution of a probe: background for a miss, black for a
/// shadowed surface, the shaded colour for a lit one.
pub open spec fn contribution_of(probe: Probe) -> Contribution {
    match probe {
        Probe::Miss => Contribution::Background,
        Probe::Lit(_) => Contribution::Shaded,
        Probe::Shadowed(_) => Contribution::Black,
    }
}

/// The hit a probe lets the path continue from, if any.
pub open spec fn advance_of(probe: Probe) -> Option<Hit> {
    match probe {
        Probe::Miss => None,
        Probe::Lit(hit) => Some(hit),
        Probe::Shadowed(hit) => Some(hit),
    }
}

/// Classifies a bounce from the nearest surface hit and, where there is
/// one, the occluder found on the way to the light.
pub open spec fn probe_of(surface: Option<Hit>, occluder: Option<Hit>) -> Probe {
    match surface {
        None => Probe::Miss,
        Some(hit) => if occluder is Some {
            Probe::Shadowed(hit)
        } else {
            Probe::Lit(hit)
        },
    }
}

impl Probe {
    /// Classifies a bounce; the occluder is not looked at when the ray
    /// struck nothing.
    pub fn classify(surface: Option<Hit>, occluder: Option<Hit>) -> (probe: Probe)
        ensures
            probe == probe_of(surface, occluder),
    {
        match surface {
            None => Probe::Miss,
            Some(hit) => match occluder {
                Some(_) => Probe::Shadowed(hit),
                None => Probe::Lit(hit),
            },
        }
    }
}

impl Path {
    /// The path still takes probes: no ray has missed and the bound has
    /// not been reached.
    pub open spec fn running(&self) -> bool {
        !self.missed && self.bounces < self.depth
    }

    /// An upper bound on the probes the path can still take.
    pub open spec fn remaining(&self) -> nat {
        if self.running() {
            (self.depth - self.bounces) as nat
        } else {
            0
        }
    }

    /// The path as it stands after `probe`, which it takes only while
    /// running.
    pub open spec fn after(&self, probe: Probe) -> Path {
        if !self.running() {
            *self
        } else if probe is Miss {
            Path { depth: self.depth, bounces: self.bounces, missed: true }
        } else {
            Path { depth: self.depth, bounces: (self.bounces + 1) as usize, missed: false }
        }
    }

    /// A fresh path bounded by `depth` bounces.
    pub fn new(depth: usize) -> (path: Path)
        ensures
            path == (Path { depth, bounces: 0, missed: false }),
            path.running() <==> depth > 0,
    {
        Path { depth, bounces: 0, missed: false }
    }

    /// Whether the path still takes probes.
    pub fn is_running(&self) -> (r: bool)
        ensures
            r == self.running(),
    {
        !self.missed && self.bounces < self.depth
    }

    /// Takes one probe. A path that is over returns `None` and stays as it
    /// is; a running path returns what the bounce contributes and the hit
    /// to continue from, and moves on.
    pub fn step(&mut self, probe: Probe) -> (step: Option<Step>)
        ensures
            *final(self) == old(self).after(probe),
            step is Some <==> old(self).running(),
            step is Some ==> step->0.contribution == contribution_of(probe) && step->0.advance
                == advance_of(probe),
    {
        if self.missed || self.bounces >= self.depth {
            return None;
        }
        match probe {
            Probe::Miss => {
                self.missed = true;
                Some(Step { contribution: Contribution::Background, advance: None })
            },
            Probe::Lit(hit) => {
                self.bounces = self.bounces + 1;
                Some(Step { contribution: Contribution::Shaded, advance: Some(hit) })
            },
            Probe::Shadowed(hit) => {
                self.bounces = self.bounces + 1;
                Some(Step { contribution: Contribution::Black, advance: Some(hit) })
            },
        }
    }
}

/// The path as it stands after a whole sequence of probes, taken in order.
pub open spec fn after_all(path: Path, probes: Seq<Probe>) -> Path
    decreases probes.len(),
{
    if probes.len() == 0 {
        path
    } else {
        after_all(path, probes.drop_last()).after(probes.last())
    }
}

/// Every probe that a running path takes brings it strictly closer to
/// its end.
pub proof fn lemma_step_decreases(path: Path, probe: Probe)
    requires
        path.running(),
    ensures
        path.after(probe).remaining() < path.remaining(),
{
}

/// A miss ends the path at once, however many bounces were left.
pub proof fn lemma_miss_ends(path: Path)
    ensures
        !path.after(Probe::Miss).running(),
{
}

/// A hit ends the path only by reaching the bound.
pub proof fn lemma_hit_continues(path: Path, probe: Probe)
    requires
        path.running(),
        !(probe is Miss),
    ensures
        path.after(probe).running() <==> path.bounces + 1 < path.depth,
        path.after(probe).bounces == path.bounces + 1,
{
}

/// A path never exceeds its bound, takes no more bounces than probes,
/// and while it is still running every probe so far was a hit.
pub proof fn lemma_path_progress(depth: usize, probes: Seq<Probe>)
    ensures
        after_all(Path { depth, bounces: 0, missed: false }, probes).depth == depth,
        after_all(Path { depth, bounces: 0, missed: false }, probes).bounces <= depth,
        after_all(Path { depth, bounces: 0, missed: false }, probes).bounces <= probes.len(),
        after_all(Path { depth, bounces: 0, missed: false }, probes).running() ==> after_all(
            Path { depth, bounces: 0, missed: false },
            probes,
        ).bounces == probes.len(),
    decreases probes.len(),
{
    if probes.len() > 0 {
        lemma_path_progress(depth, probes.drop_last());
    }
}

/// A path that has been offered as many probes as its bound allows is
/// over, whatever the probes were.
pub proof fn lemma_path_bounded(depth: usize, probes: Seq<Probe>)
    requires
        probes.len() >= depth,
    ensures
        !after_all(Path { depth, bounces: 0, missed: false }, probes).running(),
{
    lemma_path_progress(depth, probes);
}

} // verus!

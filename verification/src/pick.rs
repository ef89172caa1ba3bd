use vstd::prelude::*;
use crate::geometry::{BoundingBox, Ray};
use crate::picking::{intersect, RayHit};

verus! {

/// Whether an object is selected, and by what.
#[derive(Clone, Copy, Debug, PartialEq, Eq, Structural)]
pub enum PickState {
    /// Nothing is selected.
    Idle,
    /// The object was hit by `ray` at `hit`, and is selected since.
    Selected { ray: Ray, hit: RayHit },
}

/// What a left click leads to.
#[derive(Clone, Copy, Debug, PartialEq, Eq, Structural)]
pub enum Click {
    /// The click has to be tested: a ray is to be cast through the pointer
    /// and handed to `PickState::on_ray`.
    Cast,
    /// The click needs no test; this is the state after it.
    Settled(PickState),
}

impl PickState {
    /// A click while idle asks for a ray; a click while selected releases
    /// the selection, wherever it lands.
    pub open spec fn click_step(self) -> Click {
        match self {
            PickState::Idle => Click::Cast,
            PickState::Selected { .. } => Click::Settled(PickState::Idle),
        }
    }

    /// `self` is the state that a click made while idle leads to, once its
    /// ray is cast: selected with that ray and its hit where the ray hits
    /// the target, idle where it misses.
    pub open spec fn follows_ray(self, ray: Ray, target: BoundingBox) -> bool {
        match self {
            PickState::Idle => !ray.hits(target),
            PickState::Selected { ray: r, hit } => ray.hits(target) && r == ray && hit.is_hit_of(ray, target),
        }
    }

    /// Handles a left click as far as the state alone decides it.
    pub fn on_click(&self) -> (step: Click)
        ensures
            step == self.click_step(),
    {
        match self {
            PickState::Idle => Click::Cast,
            PickState::Selected { .. } => Click::Settled(PickState::Idle),
        }
    }

    /// Completes a click made while idle with the ray that was cast for it.
    pub fn on_ray(ray: &Ray, target: &BoundingBox) -> (next: PickState)
        ensures
            next.follows_ray(*ray, *target),
    {
        match intersect(ray, target) {
            Some(hit) => PickState::Selected { ray: *ray, hit },
            None => PickState::Idle,
        }
    }

    pub fn is_selected(&self) -> (out: bool)
        ensures
            out == (self is Selected),
    {
        match self {
            PickState::Idle => false,
            PickState::Selected { .. } => true,
        }
    }
}

/// Clicks toggle the selection. A click while idle asks for a ray, and
/// selects where that ray hits the target. The click after that leads back
/// to idle and asks for no ray: where it lands plays no part.
pub proof fn lemma_click_toggles(selected: PickState, ray: Ray, target: BoundingBox)
    requires
        ray.hits(target),
        selected.follows_ray(ray, target),
    ensures
        PickState::Idle.click_step() == Click::Cast,
        selected is Selected,
        selected.click_step() == Click::Settled(PickState::Idle),
{
}

} // verus!

use crate::entities::Distance;
use vstd::prelude::*;

verus! {

/// Default cap on the recursion depth of both tracers.
pub const MAX_DEPTH: usize = 10;

/// What the tracers need to know of the material at a hit: which of its weights
/// pass the tracer's threshold.
#[derive(Clone, Copy, Debug, PartialEq, Eq, Structural)]
pub struct Surface {
    /// The emission strength is above the threshold: the surface is a light.
    pub emissive: bool,
    /// The reflection weight is above the threshold.
    pub reflective: bool,
    /// The diffuse weight is above the threshold.
    pub diffuse: bool,
    /// The transparency weight is above the threshold.
    pub transparent: bool,
}

/// The direction a path continues in after a reflective hit.
#[derive(Clone, Copy, Debug, PartialEq, Eq, Structural)]
pub enum Bounce {
    /// The exact mirror direction.
    Mirror,
    /// The mirror direction perturbed by a random rotation.
    Scattered,
}

/// What the recursive tracer does with one ray.
#[derive(Clone, Copy, Debug, PartialEq, Eq, Structural)]
pub enum WhittedStep {
    /// Nothing was hit: the ray has the background colour.
    Background,
    /// Shade the hit locally, then blend in the rays that are followed, the
    /// mirror ray first.
    Shade { mirror: bool, refract: bool },
}

/// What the path tracer does with one ray.
#[derive(Clone, Copy, Debug, PartialEq, Eq, Structural)]
pub enum PathStep {
    /// Nothing was hit: the ray is black.
    Background,
    /// A light was hit: the ray has the light's colour times its strength.
    Emit,
    /// The depth cap was reached on a surface that is no light: the ray is black.
    Absorbed,
    /// Follow the refracted ray if `refract`, then the reflected ray if
    /// `bounce` names one, and multiply the material's colour by what they
    /// return.
    Follow { refract: bool, bounce: Option<Bounce> },
}

pub open spec fn whitted_step_spec(hit: Option<Surface>, depth: usize, max_depth: usize) -> WhittedStep {
    match hit {
        None => WhittedStep::Background,
        Some(surface) => if depth >= max_depth {
            WhittedStep::Shade { mirror: false, refract: false }
        } else {
            WhittedStep::Shade { mirror: surface.reflective, refract: surface.transparent }
        },
    }
}

pub open spec fn bounce_spec(surface: Surface) -> Option<Bounce> {
    if !surface.reflective {
        None
    } else if surface.diffuse {
        Some(Bounce::Scattered)
    } else {
        Some(Bounce::Mirror)
    }
}

pub open spec fn path_step_spec(hit: Option<Surface>, depth: usize, max_depth: usize) -> PathStep {
    match hit {
        None => PathStep::Background,
        Some(surface) => if surface.emissive {
            PathStep::Emit
        } else if depth >= max_depth {
            PathStep::Absorbed
        } else {
            PathStep::Follow { refract: surface.transparent, bounce: bounce_spec(surface) }
        },
    }
}

/// Whether a step sends out further rays.
pub open spec fn whitted_recurses(step: WhittedStep) -> bool {
    step matches WhittedStep::Shade { mirror, refract } && (mirror || refract)
}

/// Whether a step sends out further rays.
pub open spec fn path_recurses(step: PathStep) -> bool {
    step matches PathStep::Follow { refract, bounce } && (refract || bounce is Some)
}

/// A point is in shadow of a light where the ray towards the light meets
/// something strictly closer than the light.
pub open spec fn in_shadow_spec(blocker: Option<Distance>, light: Distance) -> bool {
    blocker matches Some(distance) && distance.closer_than_spec(light)
}

/// Whether a point is in shadow of a light at distance `light`, given the
/// distance of the nearest hit of the ray from the point towards the light.
#[verifier::when_used_as_spec(in_shadow_spec)]
pub fn in_shadow(blocker: Option<Distance>, light: Distance) -> (shadowed: bool)
    ensures
        shadowed == in_shadow_spec(blocker, light),
{
    match blocker {
        None => false,
        Some(distance) => distance.closer_than(light),
    }
}

/// Decides what the recursive tracer does with a ray at `depth`, given what
/// the ray hit.
#[verifier::when_used_as_spec(whitted_step_spec)]
pub fn whitted_step(hit: Option<Surface>, depth: usize, max_depth: usize) -> (step: WhittedStep)
    ensures
        step == whitted_step_spec(hit, depth, max_depth),
{
    match hit {
        None => WhittedStep::Background,
        Some(surface) => {
            if depth >= max_depth {
                WhittedStep::Shade { mirror: false, refract: false }
            } else {
                WhittedStep::Shade { mirror: surface.reflective, refract: surface.transparent }
            }
        },
    }
}

/// Decides what the path tracer does with a ray at `depth`, given what the
/// ray hit.
#[verifier::when_used_as_spec(path_step_spec)]
pub fn path_step(hit: Option<Surface>, depth: usize, max_depth: usize) -> (step: PathStep)
    ensures
        step == path_step_spec(hit, depth, max_depth),
{
    match hit {
        None => PathStep::Background,
        Some(surface) => {
            if surface.emissive {
                PathStep::Emit
            } else if depth >= max_depth {
                PathStep::Absorbed
            } else {
                let bounce = if !surface.reflective {
                    None
                } else if surface.diffuse {
                    Some(Bounce::Scattered)
                } else {
                    Some(Bounce::Mirror)
                };
                PathStep::Follow { refract: surface.transparent, bounce }
            }
        },
    }
}

/// A ray that hits a light ends there, at every depth and whatever else the
/// material does.
pub proof fn lemma_light_is_terminal(surface: Surface, depth: usize, max_depth: usize)
    requires
        surface.emissive,
    ensures
        path_step_spec(Some(surface), depth, max_depth) == PathStep::Emit,
        !path_recurses(path_step_spec(Some(surface), depth, max_depth)),
{
}

/// A ray that hits nothing ends there, in both tracers.
pub proof fn lemma_miss_is_terminal(depth: usize, max_depth: usize)
    ensures
        whitted_step_spec(None, depth, max_depth) == WhittedStep::Background,
        path_step_spec(None, depth, max_depth) == PathStep::Background,
        !whitted_recurses(whitted_step_spec(None, depth, max_depth)),
        !path_recurses(path_step_spec(None, depth, max_depth)),
{
}

/// Neither tracer sends out a ray from the depth cap or beyond, so a ray
/// traced from depth 0 has at most `max_depth` descendants in a row.
pub proof fn lemma_depth_is_bounded(hit: Option<Surface>, depth: usize, max_depth: usize)
    ensures
        whitted_recurses(whitted_step_spec(hit, depth, max_depth)) ==> depth < max_depth,
        path_recurses(path_step_spec(hit, depth, max_depth)) ==> depth < max_depth,
{
}

} // verus!

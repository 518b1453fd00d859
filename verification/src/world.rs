use crate::entities::{Distance, IntersectionResult};
use vstd::prelude::*;

verus! {

/// The nearest hit along a ray, with the material of the entity that was hit.
pub struct CastResult<P, M> {
    pub intersection: IntersectionResult<P>,
    pub material: M,
}

/// A scene: entities in a fixed order, each with its material, and the
/// positions of the point lights.
#[derive(Clone)]
pub struct World<E, M, P> {
    entities: Vec<(E, M)>,
    light: Vec<P>,
}

/// Whether a hit counts for a ray: there is one, strictly beyond the bias and
/// strictly before the horizon.
pub open spec fn admissible<P>(hit: Option<IntersectionResult<P>>, bias: Distance) -> bool {
    hit matches Some(h) && h.distance.in_range_spec(bias)
}

/// `i` is the entity that the ray meets first: its hit counts, no hit that
/// counts is closer, and of those as close none comes earlier in the scene.
pub open spec fn is_nearest<P>(
    hits: Seq<Option<IntersectionResult<P>>>,
    bias: Distance,
    i: int,
) -> bool {
    &&& 0 <= i < hits.len()
    &&& admissible(hits[i], bias)
    &&& forall|j: int|
        0 <= j < hits.len() && admissible(#[trigger] hits[j], bias) ==> {
            ||| hits[i].unwrap().distance.bits < hits[j].unwrap().distance.bits
            ||| hits[i].unwrap().distance.bits == hits[j].unwrap().distance.bits && i <= j
        }
}

/// No entity's hit counts.
pub open spec fn all_miss<P>(hits: Seq<Option<IntersectionResult<P>>>, bias: Distance) -> bool {
    forall|j: int| 0 <= j < hits.len() ==> !admissible(#[trigger] hits[j], bias)
}

/// The index of the entity that a ray meets first, given what the
/// intersection test reported for each entity in scene order.
pub fn nearest<P>(hits: &Vec<Option<IntersectionResult<P>>>, bias: Distance) -> (found: Option<usize>)
    ensures
        match found {
            Some(i) => is_nearest(hits@, bias, i as int),
            None => all_miss(hits@, bias),
        },
{
    let mut found: Option<usize> = None;
    let mut distance = Distance::horizon();
    let mut i: usize = 0;
    while i < hits.len()
        invariant
            i <= hits.len(),
            match found {
                Some(k) => k < i && is_nearest(hits@.take(i as int), bias, k as int)
                    && distance == hits@[k as int].unwrap().distance,
                None => all_miss(hits@.take(i as int), bias) && distance.bits == crate::entities::HORIZON_BITS,
            },
        decreases hits.len() - i,
    {
        let ghost before = hits@.take(i as int);
        let ghost after = hits@.take(i + 1);
        assert(forall|j: int| 0 <= j < i ==> before[j] == after[j]);
        assert(after[i as int] == hits@[i as int]);
        match &hits[i] {
            None => {},
            Some(hit) => {
                if hit.distance.closer_than(distance) && bias.closer_than(hit.distance) {
                    distance = hit.distance;
                    found = Some(i);
                }
            },
        }
        i += 1;
    }
    assert(hits@.take(i as int) =~= hits@);
    found
}

/// What the intersection test may have reported for each entity of a scene,
/// in scene order.
pub open spec fn probed<E, M, P, F: Fn(&E) -> Option<IntersectionResult<P>>>(
    entities: Seq<(E, M)>,
    intersect: F,
    hits: Seq<Option<IntersectionResult<P>>>,
) -> bool {
    &&& hits.len() == entities.len()
    &&& forall|i: int|
        0 <= i < hits.len() ==> call_ensures(intersect, (&entities[i].0,), #[trigger] hits[i])
}

impl<E, M, P> World<E, M, P> {
    /// The entities with their materials, in scene order.
    pub closed spec fn view(&self) -> Seq<(E, M)> {
        self.entities@
    }

    /// The positions of the point lights.
    pub closed spec fn lights(&self) -> Seq<P> {
        self.light@
    }

    pub fn new(entities: Vec<(E, M)>, light: Vec<P>) -> (world: Self)
        ensures
            world@ == entities@,
            world.lights() == light@,
    {
        Self { entities, light }
    }

    pub fn light(&self) -> (light: &Vec<P>)
        ensures
            light@ == self.lights(),
    {
        &self.light
    }

    pub fn len(&self) -> (n: usize)
        ensures
            n == self@.len(),
    {
        self.entities.len()
    }

    /// What a cast returns, given what the intersection test reported for each
    /// entity: the hit of the entity met first with that entity's material, or
    /// nothing where no hit counts.
    pub open spec fn resolved(
        &self,
        hits: Seq<Option<IntersectionResult<P>>>,
        bias: Distance,
        result: Option<CastResult<P, M>>,
    ) -> bool {
        match result {
            Some(cast) => exists|i: int|
                {
                    &&& #[trigger] is_nearest(hits, bias, i)
                    &&& i < self@.len()
                    &&& cast.intersection == hits[i].unwrap()
                    &&& cast.material == self@[i].1
                },
            None => all_miss(hits, bias),
        }
    }
}

impl<E, M: Copy, P: Copy> World<E, M, P> {
    /// Picks the hit of the entity that the ray meets first, and pairs it with
    /// that entity's material.
    pub fn resolve(&self, hits: &Vec<Option<IntersectionResult<P>>>, bias: Distance) -> (result:
        Option<CastResult<P, M>>)
        requires
            hits@.len() == self@.len(),
        ensures
            self.resolved(hits@, bias, result),
    {
        match nearest(hits, bias) {
            None => None,
            Some(i) => {
                match hits[i] {
                    None => None,
                    Some(intersection) => Some(
                        CastResult { intersection, material: self.entities[i].1 },
                    ),
                }
            },
        }
    }

    /// Casts a ray into the scene: asks `intersect` for the hit of each
    /// entity in scene order and returns the nearest that counts.
    pub fn cast_ray<F: Fn(&E) -> Option<IntersectionResult<P>>>(
        &self,
        intersect: F,
        bias: Distance,
    ) -> (result: Option<CastResult<P, M>>)
        requires
            forall|i: int| 0 <= i < self@.len() ==> call_requires(intersect, (&#[trigger] self@[i].0,)),
        ensures
            exists|hits: Seq<Option<IntersectionResult<P>>>|
                #[trigger] probed(self@, intersect, hits) && self.resolved(hits, bias, result),
    {
        let mut hits: Vec<Option<IntersectionResult<P>>> = Vec::new();
        let mut i: usize = 0;
        while i < self.entities.len()
            invariant
                i <= self.entities@.len(),
                hits@.len() == i,
                forall|k: int| 0 <= k < self@.len() ==> call_requires(intersect, (&#[trigger] self@[k].0,)),
                forall|k: int|
                    0 <= k < i ==> call_ensures(intersect, (&self@[k].0,), #[trigger] hits@[k]),
            decreases self.entities@.len() - i,
        {
            assert(self@[i as int] == self.entities@[i as int]);
            let hit = intersect(&self.entities[i].0);
            hits.push(hit);
            i += 1;
        }
        assert(probed(self@, intersect, hits@));
        self.resolve(&hits, bias)
    }
}

/// A cast into a scene without entities returns nothing, whatever the
/// intersection test is.
pub proof fn lemma_empty_scene_misses<E, M, P, F: Fn(&E) -> Option<IntersectionResult<P>>>(
    world: World<E, M, P>,
    intersect: F,
    hits: Seq<Option<IntersectionResult<P>>>,
    bias: Distance,
    result: Option<CastResult<P, M>>,
)
    requires
        world@.len() == 0,
        probed(world@, intersect, hits),
        world.resolved(hits, bias, result),
    ensures
        result is None,
{
}

/// What a cast returns lies strictly beyond the bias, and no hit that counts
/// is closer.
pub proof fn lemma_cast_is_nearest<E, M, P>(
    world: World<E, M, P>,
    hits: Seq<Option<IntersectionResult<P>>>,
    bias: Distance,
    result: Option<CastResult<P, M>>,
)
    requires
        hits.len() == world@.len(),
        world.resolved(hits, bias, result),
    ensures
        result matches Some(cast) ==> {
            &&& bias.closer_than_spec(cast.intersection.distance)
            &&& forall|j: int|
                0 <= j < hits.len() && admissible(#[trigger] hits[j], bias)
                    ==> !hits[j].unwrap().distance.closer_than_spec(cast.intersection.distance)
        },
{
}

/// Where two entities are both hit along a ray, the cast returns the hit and
/// the material of the nearer one, and of the first where they are as near.
pub proof fn lemma_nearer_of_two<E, M, P>(
    world: World<E, M, P>,
    hits: Seq<Option<IntersectionResult<P>>>,
    bias: Distance,
    result: Option<CastResult<P, M>>,
)
    requires
        world@.len() == 2,
        hits.len() == 2,
        admissible(hits[0], bias),
        admissible(hits[1], bias),
        world.resolved(hits, bias, result),
    ensures
        result is Some,
        bias.closer_than_spec(result.unwrap().intersection.distance),
        hits[1].unwrap().distance.closer_than_spec(hits[0].unwrap().distance) ==> {
            &&& result.unwrap().intersection == hits[1].unwrap()
            &&& result.unwrap().material == world@[1].1
        },
        !hits[1].unwrap().distance.closer_than_spec(hits[0].unwrap().distance) ==> {
            &&& result.unwrap().intersection == hits[0].unwrap()
            &&& result.unwrap().material == world@[0].1
        },
{
    if result is None {
        assert(!admissible(hits[0], bias));
    }
    let i = choose|i: int| #[trigger]
        is_nearest(hits, bias, i) && result.unwrap().intersection == hits[i].unwrap()
            && result.unwrap().material == world@[i].1;
    assert(admissible(hits[0], bias) && admissible(hits[1], bias));
}

/// At most one entity is the one that a ray meets first.
pub proof fn lemma_nearest_is_unique<P>(
    hits: Seq<Option<IntersectionResult<P>>>,
    bias: Distance,
    i: int,
    k: int,
)
    requires
        is_nearest(hits, bias, i),
        is_nearest(hits, bias, k),
    ensures
        i == k,
{
}

/// Either no hit counts or some entity is met first, never both: together
/// with uniqueness, the hits determine what a cast returns.
pub proof fn lemma_nearest_exists<P>(hits: Seq<Option<IntersectionResult<P>>>, bias: Distance)
    ensures
        all_miss(hits, bias) <==> !exists|i: int| is_nearest(hits, bias, i),
    decreases hits.len(),
{
    if all_miss(hits, bias) {
        assert forall|i: int| !is_nearest(hits, bias, i) by {
            if 0 <= i < hits.len() {
                assert(!admissible(hits[i], bias));
            }
        }
    } else {
        let j = choose|j: int| 0 <= j < hits.len() && admissible(#[trigger] hits[j], bias);
        let front = hits.drop_last();
        lemma_nearest_exists(front, bias);
        let last = hits.len() - 1;
        if all_miss(front, bias) {
            assert(j == last) by {
                if j < last {
                    assert(front[j] == hits[j]);
                }
            }
            assert forall|m: int| 0 <= m < hits.len() && admissible(#[trigger] hits[m], bias) implies m == last by {
                if m < last {
                    assert(front[m] == hits[m]);
                }
            }
            assert(is_nearest(hits, bias, last));
        } else {
            let k = choose|k: int| is_nearest(front, bias, k);
            assert(front[k] == hits[k]);
            let best = if admissible(hits[last], bias) && hits[last].unwrap().distance.bits
                < hits[k].unwrap().distance.bits {
                last
            } else {
                k
            };
            assert forall|m: int| 0 <= m < hits.len() && admissible(#[trigger] hits[m], bias) implies {
                ||| hits[best].unwrap().distance.bits < hits[m].unwrap().distance.bits
                ||| hits[best].unwrap().distance.bits == hits[m].unwrap().distance.bits && best <= m
            } by {
                if m < last {
                    assert(front[m] == hits[m]);
                }
            }
            assert(is_nearest(hits, bias, best));
        }
    }
}

} // verus!

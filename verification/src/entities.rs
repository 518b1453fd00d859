use vstd::prelude::*;

verus! {

/// Key of the point at infinity: no hit lies at or beyond it.
pub const HORIZON_BITS: u64 = 0x7FF0_0000_0000_0000;

/// Key of the default anti-self-intersection bias, one ten-thousandth.
pub const BIAS_BITS: u64 = 0x3F1A_36E2_EB1C_432D;

/// A distance along a ray, held as an ordered integer key.
///
/// The key is the binary64 bit pattern of the length. For lengths, which are
/// never negative, the order of the keys is the order of the lengths, and a
/// key above `HORIZON_BITS` stands for no length at all.
#[derive(Clone, Copy, Debug, PartialEq, Eq, Structural)]
pub struct Distance {
    pub bits: u64,
}

impl Distance {
    /// Whether the key stands for a length: a non-negative number or infinity.
    pub open spec fn is_length(self) -> bool {
        self.bits <= HORIZON_BITS
    }

    /// Strict order on lengths; a key that is no length is closer than nothing
    /// and nothing is closer than it.
    pub open spec fn closer_than_spec(self, other: Distance) -> bool {
        self.is_length() && other.is_length() && self.bits < other.bits
    }

    pub fn from_bits(bits: u64) -> (d: Distance)
        ensures
            d.bits == bits,
    {
        Distance { bits }
    }

    /// The point at infinity.
    pub fn horizon() -> (d: Distance)
        ensures
            d.bits == HORIZON_BITS,
    {
        Distance { bits: HORIZON_BITS }
    }

    /// The default bias.
    pub fn bias() -> (d: Distance)
        ensures
            d.bits == BIAS_BITS,
    {
        Distance { bits: BIAS_BITS }
    }

    #[verifier::when_used_as_spec(closer_than_spec)]
    pub fn closer_than(self, other: Distance) -> (r: bool)
        ensures
            r == self.closer_than_spec(other),
    {
        self.bits <= HORIZON_BITS && other.bits <= HORIZON_BITS && self.bits < other.bits
    }

    /// Whether a hit at this distance counts: strictly beyond the bias and
    /// strictly before the horizon.
    pub open spec fn in_range_spec(self, bias: Distance) -> bool {
        bias.closer_than_spec(self) && self.closer_than_spec(Distance { bits: HORIZON_BITS })
    }

    #[verifier::when_used_as_spec(in_range_spec)]
    pub fn in_range(self, bias: Distance) -> (r: bool)
        ensures
            r == self.in_range_spec(bias),
    {
        bias.closer_than(self) && self.closer_than(Distance::horizon())
    }
}

/// On lengths `closer_than` is a strict total order.
pub proof fn lemma_closer_than_orders_lengths(a: Distance, b: Distance, c: Distance)
    requires
        a.is_length(),
        b.is_length(),
        c.is_length(),
    ensures
        !a.closer_than_spec(a),
        a.closer_than_spec(b) && b.closer_than_spec(c) ==> a.closer_than_spec(c),
        a.closer_than_spec(b) || b.closer_than_spec(a) || a == b,
{
}

/// What an intersection test reports: where the ray met the surface, how far
/// from the ray's origin, and the unit surface normal there.
#[derive(Clone, Copy, Debug)]
pub struct IntersectionResult<P> {
    pub intersection_point: P,
    pub distance: Distance,
    pub normal: P,
}

impl<P> IntersectionResult<P> {
    pub fn new(intersection_point: P, distance: Distance, normal: P) -> (r: Self)
        ensures
            r.intersection_point == intersection_point,
            r.distance == distance,
            r.normal == normal,
    {
        Self { intersection_point, distance, normal }
    }
}

} // verus!

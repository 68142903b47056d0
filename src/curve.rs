//! Points of the BLS12-381 group G1 and the multi-scalar multiplication that
//! turns a coefficient vector into a KZG commitment.
use crate::bls_field::BlsScalar;
use crate::modular::limbs6_value;
use ark_bls12_381::{Fq, G1Affine};
use ark_ec::msm::VariableBaseMSM;
use ark_ec::ProjectiveCurve;
use ark_ff::{BigInteger256, BigInteger384, PrimeField};
use vstd::prelude::*;

verus! {

/// The modulus of the BLS12-381 base field.
pub open spec fn base_modulus() -> int {
    limbs6_value(
        [
            0xb9feffffffffaaab,
            0x1eabfffeb153ffff,
            0x6730d2a0f6b0f624,
            0x64774b84f38512bf,
            0x4b1ba7b6434bacd7,
            0x1a0111ea397fe69a,
        ],
    )
}

/// An affine G1 point: the limbs of the canonical coordinates and the flag of
/// the point at infinity.
#[derive(Clone, Copy, Debug)]
pub struct G1Point {
    pub x: [u64; 6],
    pub y: [u64; 6],
    pub infinity: bool,
}

impl G1Point {
    /// Both coordinates are canonical base-field elements.
    pub open spec fn wf(&self) -> bool {
        limbs6_value(self.x) < base_modulus() && limbs6_value(self.y) < base_modulus()
    }
}

fn limbs_eq(a: &[u64; 6], b: &[u64; 6]) -> (r: bool)
    ensures
        r == (*a == *b),
{
    let mut i: usize = 0;
    while i < 6
        invariant
            i <= 6,
            forall|k: int| 0 <= k < i ==> a[k] == b[k],
        decreases 6 - i,
    {
        if a[i] != b[i] {
            return false;
        }
        i += 1;
    }
    assert(*a =~= *b);
    true
}

impl PartialEq for G1Point {
    fn eq(&self, o: &G1Point) -> (r: bool) {
        limbs_eq(&self.x, &o.x) && limbs_eq(&self.y, &o.y) && self.infinity == o.infinity
    }
}

impl vstd::std_specs::cmp::PartialEqSpecImpl for G1Point {
    open spec fn obeys_eq_spec() -> bool {
        true
    }

    open spec fn eq_spec(&self, o: &G1Point) -> bool {
        self.x == o.x && self.y == o.y && self.infinity == o.infinity
    }
}

pub open spec fn all_points_wf(s: Seq<G1Point>) -> bool {
    forall|i: int| 0 <= i < s.len() ==> #[trigger] s[i].wf()
}

pub open spec fn all_scalars_wf(s: Seq<BlsScalar>) -> bool {
    forall|i: int| 0 <= i < s.len() ==> #[trigger] s[i].wf()
}

/// The field values of a vector of scalars.
pub open spec fn scalar_values(s: Seq<BlsScalar>) -> Seq<int> {
    s.map_values(|x: BlsScalar| x@)
}

/// `sum_i scalars[i] * bases[i]` over the common prefix, as computed by
/// `ark_ec`'s multi-scalar multiplication.
pub uninterp spec fn msm_of(bases: Seq<G1Point>, scalars: Seq<int>) -> G1Point;

/// Relies on `ark_ec::msm::VariableBaseMSM::multi_scalar_mul` over BLS12-381 G1
/// (scalars in canonical form), then `into_affine`: the point depends on the
/// bases and scalars alone and has canonical coordinates.
#[verifier::external_body]
pub(crate) fn msm(bases: &Vec<G1Point>, scalars: &Vec<BlsScalar>) -> (r: G1Point)
    requires
        all_points_wf(bases@),
        all_scalars_wf(scalars@),
    ensures
        r.wf(),
        r == msm_of(bases@, scalar_values(scalars@)),
{
    let fq = |l: [u64; 6]| Fq::from_repr(BigInteger384(l)).unwrap();
    let b: Vec<G1Affine> = bases.iter().map(|p| G1Affine::new(fq(p.x), fq(p.y), p.infinity)).collect();
    let s: Vec<BigInteger256> = scalars.iter().map(|x| BigInteger256(x.limbs)).collect();
    let r = VariableBaseMSM::multi_scalar_mul(&b, &s).into_affine();
    G1Point { x: r.x.into_repr().0, y: r.y.into_repr().0, infinity: r.infinity }
}

} // verus!

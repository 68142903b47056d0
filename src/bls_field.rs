//! The scalar field of BLS12-381 (`ark_bls12_381::Fr`), the field of the
//! committed polynomials.
use crate::modular::{inv_mod, limb_base, limbs_value};
use ark_bls12_381::Fr;
use ark_ff::{BigInteger256, Field, PrimeField};
use vstd::arithmetic::power::pow;
use vstd::prelude::*;

verus! {

/// The order of the BLS12-381 groups, the modulus of this field.
pub open spec fn bls_order() -> int {
    limbs_value([0xffffffff00000001, 0x53bda402fffe5bfe, 0x3339d80809a1d805, 0x73eda753299d7d48])
}

/// A BLS12-381 scalar as the little-endian limbs of its canonical representative.
#[derive(Clone, Copy, Debug, PartialEq, Eq)]
pub struct BlsScalar {
    pub limbs: [u64; 4],
}

impl View for BlsScalar {
    type V = int;

    open spec fn view(&self) -> int {
        limbs_value(self.limbs)
    }
}

impl BlsScalar {
    /// The limbs hold a value below the field modulus.
    pub open spec fn wf(&self) -> bool {
        self@ < bls_order()
    }

    pub fn from_u64(x: u64) -> (r: BlsScalar)
        ensures
            r.wf(),
            r@ == x,
    {
        BlsScalar { limbs: [x, 0, 0, 0] }
    }

    pub fn one() -> (r: BlsScalar)
        ensures
            r.wf(),
            r@ == 1,
    {
        BlsScalar { limbs: [1, 0, 0, 0] }
    }

    /// Whether the element is zero.
    pub fn is_zero(&self) -> (r: bool)
        ensures
            r == (self@ == 0),
    {
        let l = self.limbs;
        proof {
            let b = limb_base();
            let (l0, l1, l2, l3) = (l[0] as int, l[1] as int, l[2] as int, l[3] as int);
            assert(((l3 * b + l2) * b + l1) * b + l0 == 0 ==> l0 == 0 && l1 == 0 && l2 == 0
                && l3 == 0) by (nonlinear_arith)
                requires
                    b > 0,
                    l0 >= 0,
                    l1 >= 0,
                    l2 >= 0,
                    l3 >= 0,
            ;
        }
        l[0] == 0 && l[1] == 0 && l[2] == 0 && l[3] == 0
    }

    /// Relies on `ark_ff::Field::pow` in `ark_bls12_381::Fr`: the power modulo the order.
    #[verifier::external_body]
    pub(crate) fn pow_u64(self, e: u64) -> (r: BlsScalar)
        requires
            self.wf(),
        ensures
            r.wf(),
            r@ == pow(self@, e as nat) % bls_order(),
    {
        let x = Fr::from_repr(BigInteger256(self.limbs)).unwrap().pow([e]);
        BlsScalar { limbs: x.into_repr().0 }
    }

    /// Relies on `ark_ff` addition in `ark_bls12_381::Fr`: the sum modulo the order.
    #[verifier::external_body]
    pub(crate) fn plus(self, o: BlsScalar) -> (r: BlsScalar)
        requires
            self.wf(),
            o.wf(),
        ensures
            r.wf(),
            r@ == (self@ + o@) % bls_order(),
    {
        let x = Fr::from_repr(BigInteger256(self.limbs)).unwrap()
            + Fr::from_repr(BigInteger256(o.limbs)).unwrap();
        BlsScalar { limbs: x.into_repr().0 }
    }

    /// Relies on `ark_ff` subtraction in `ark_bls12_381::Fr`: the difference
    /// modulo the order.
    #[verifier::external_body]
    pub(crate) fn minus(self, o: BlsScalar) -> (r: BlsScalar)
        requires
            self.wf(),
            o.wf(),
        ensures
            r.wf(),
            r@ == (self@ - o@) % bls_order(),
    {
        let x = Fr::from_repr(BigInteger256(self.limbs)).unwrap()
            - Fr::from_repr(BigInteger256(o.limbs)).unwrap();
        BlsScalar { limbs: x.into_repr().0 }
    }

    /// Relies on `ark_ff` multiplication in `ark_bls12_381::Fr`: the product
    /// modulo the order.
    #[verifier::external_body]
    pub(crate) fn times(self, o: BlsScalar) -> (r: BlsScalar)
        requires
            self.wf(),
            o.wf(),
        ensures
            r.wf(),
            r@ == (self@ * o@) % bls_order(),
    {
        let x = Fr::from_repr(BigInteger256(self.limbs)).unwrap()
            * Fr::from_repr(BigInteger256(o.limbs)).unwrap();
        BlsScalar { limbs: x.into_repr().0 }
    }

    /// Relies on `ark_ff::Field::inverse` in `ark_bls12_381::Fr`: `None` for
    /// zero, else the unique inverse modulo the (prime) order.
    #[verifier::external_body]
    pub(crate) fn inverse(self) -> (r: Option<BlsScalar>)
        requires
            self.wf(),
        ensures
            r is None <==> self@ == 0,
            r matches Some(y) ==> y.wf() && y@ == inv_mod(self@, bls_order()) && (self@ * y@)
                % bls_order() == 1,
    {
        Fr::from_repr(BigInteger256(self.limbs)).unwrap().inverse().map(
            |y| BlsScalar { limbs: y.into_repr().0 },
        )
    }
}

} // verus!

//! The scalar field of the Jubjub curve (`ark_ed_on_bls12_381::Fr`), the field
//! of challenges and responses of the vector Sigma-protocol.
use crate::modular::{inv_mod, limbs_value};
use ark_ed_on_bls12_381::Fr;
use ark_ff::{BigInteger256, Field, PrimeField};
use vstd::prelude::*;

verus! {

/// The order of the Jubjub prime-order subgroup, the modulus of this field.
pub open spec fn ed_order() -> int {
    limbs_value([0xd0970e5ed6f72cb7, 0xa6682093ccc81082, 0x6673b0101343b00, 0xe7db4ea6533afa9])
}

/// A Jubjub scalar as the little-endian limbs of its canonical representative.
#[derive(Clone, Copy, Debug, PartialEq, Eq)]
pub struct EdScalar {
    pub limbs: [u64; 4],
}

impl View for EdScalar {
    type V = int;

    open spec fn view(&self) -> int {
        limbs_value(self.limbs)
    }
}

impl EdScalar {
    /// The limbs hold a value below the field modulus.
    pub open spec fn wf(&self) -> bool {
        self@ < ed_order()
    }

    pub fn from_u64(x: u64) -> (r: EdScalar)
        ensures
            r.wf(),
            r@ == x,
    {
        EdScalar { limbs: [x, 0, 0, 0] }
    }

    /// Relies on `ark_ff` addition in `ark_ed_on_bls12_381::Fr`: the sum modulo the order.
    #[verifier::external_body]
    pub(crate) fn plus(self, o: EdScalar) -> (r: EdScalar)
        requires
            self.wf(),
            o.wf(),
        ensures
            r.wf(),
            r@ == (self@ + o@) % ed_order(),
    {
        let x = Fr::from_repr(BigInteger256(self.limbs)).unwrap()
            + Fr::from_repr(BigInteger256(o.limbs)).unwrap();
        EdScalar { limbs: x.into_repr().0 }
    }

    /// Relies on `ark_ff` subtraction in `ark_ed_on_bls12_381::Fr`: the difference
    /// modulo the order.
    #[verifier::external_body]
    pub(crate) fn minus(self, o: EdScalar) -> (r: EdScalar)
        requires
            self.wf(),
            o.wf(),
        ensures
            r.wf(),
            r@ == (self@ - o@) % ed_order(),
    {
        let x = Fr::from_repr(BigInteger256(self.limbs)).unwrap()
            - Fr::from_repr(BigInteger256(o.limbs)).unwrap();
        EdScalar { limbs: x.into_repr().0 }
    }

    /// Relies on `ark_ff` multiplication in `ark_ed_on_bls12_381::Fr`: the product
    /// modulo the order.
    #[verifier::external_body]
    pub(crate) fn times(self, o: EdScalar) -> (r: EdScalar)
        requires
            self.wf(),
            o.wf(),
        ensures
            r.wf(),
            r@ == (self@ * o@) % ed_order(),
    {
        let x = Fr::from_repr(BigInteger256(self.limbs)).unwrap()
            * Fr::from_repr(BigInteger256(o.limbs)).unwrap();
        EdScalar { limbs: x.into_repr().0 }
    }

    /// Relies on `ark_ff::Field::inverse` in `ark_ed_on_bls12_381::Fr`: `None` for
    /// zero, else the unique inverse modulo the (prime) order.
    #[verifier::external_body]
    pub(crate) fn inverse(self) -> (r: Option<EdScalar>)
        requires
            self.wf(),
        ensures
            r is None <==> self@ == 0,
            r matches Some(y) ==> y.wf() && y@ == inv_mod(self@, ed_order()) && (self@ * y@)
                % ed_order() == 1,
    {
        Fr::from_repr(BigInteger256(self.limbs)).unwrap().inverse().map(
            |y| EdScalar { limbs: y.into_repr().0 },
        )
    }
}

} // verus!

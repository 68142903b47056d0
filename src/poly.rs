//! Polynomials over the BLS12-381 scalar field, as coefficient vectors with the
//! constant term first.
use crate::bls_field::{bls_order, BlsScalar};
use crate::curve::{all_scalars_wf, scalar_values};
use crate::modular::{lemma_add_cong, lemma_mod_idem};
use ark_bls12_381::Fr;
use ark_ff::{BigInteger256, PrimeField};
use ark_poly::univariate::DensePolynomial;
use ark_poly::{EvaluationDomain, GeneralEvaluationDomain, Polynomial, UVPolynomial};
use vstd::prelude::*;

verus! {

/// `sum_i c[i] * x^i` over the integers (Horner form).
pub open spec fn poly_eval(c: Seq<int>, x: int) -> int
    decreases c.len(),
{
    if c.len() == 0 {
        0
    } else {
        c[0] + x * poly_eval(c.drop_first(), x)
    }
}

/// The coefficients of the polynomial that takes `values` on the
/// multiplicative subgroup of `size` points (rounded up to a power of two),
/// as computed by `ark_poly`'s inverse FFT.
pub uninterp spec fn interpolation_of(values: Seq<int>, size: nat) -> Seq<int>;

/// Relies on `ark_poly::EvaluationDomain::ifft` over the radix-2
/// `GeneralEvaluationDomain` of `size` points in `ark_bls12_381::Fr`: the
/// coefficients depend on the values and the size alone and are canonical.
/// Such a domain exists for every size up to 2^32.
#[verifier::external_body]
pub(crate) fn interpolate(values: &Vec<BlsScalar>, size: usize) -> (r: Vec<BlsScalar>)
    requires
        all_scalars_wf(values@),
        size <= 0x1_0000_0000,
    ensures
        all_scalars_wf(r@),
        scalar_values(r@) == interpolation_of(scalar_values(values@), size as nat),
{
    let domain = GeneralEvaluationDomain::<Fr>::new(size).unwrap();
    let v: Vec<Fr> = values.iter().map(|x| Fr::from_repr(BigInteger256(x.limbs)).unwrap()).collect();
    domain.ifft(&v).iter().map(|y| BlsScalar { limbs: y.into_repr().0 }).collect()
}

/// Relies on `ark_poly::Polynomial::evaluate` of a `DensePolynomial` over
/// `ark_bls12_381::Fr`: the value of the polynomial at `x` modulo the order.
#[verifier::external_body]
pub(crate) fn evaluate(coeffs: &Vec<BlsScalar>, x: BlsScalar) -> (r: BlsScalar)
    requires
        all_scalars_wf(coeffs@),
        x.wf(),
    ensures
        r.wf(),
        r@ == poly_eval(scalar_values(coeffs@), x@) % bls_order(),
{
    let c: Vec<Fr> = coeffs.iter().map(|y| Fr::from_repr(BigInteger256(y.limbs)).unwrap()).collect();
    let p = DensePolynomial::from_coefficients_vec(c);
    BlsScalar { limbs: p.evaluate(&Fr::from_repr(BigInteger256(x.limbs)).unwrap()).into_repr().0 }
}

/// The `k`-th coefficient of `c`, zero beyond its end.
pub open spec fn coeff(c: Seq<int>, k: int) -> int {
    if 0 <= k < c.len() {
        c[k]
    } else {
        0
    }
}

/// The coefficients of `t + (b0 + b1 * X) * (X^n - 1)`, reduced.
pub open spec fn blinded(t: Seq<int>, b0: int, b1: int, n: nat) -> Seq<int> {
    let len = if t.len() > n + 2 {
        t.len()
    } else {
        n + 2
    };
    Seq::new(
        len,
        |k: int| (coeff(t, k) - coeff(seq![b0, b1], k) + coeff(seq![b0, b1], k - n)) % bls_order(),
    )
}

/// Adds the blinding polynomial `b0 + b1 * X` times the vanishing polynomial
/// `X^n - 1` of a domain of `n` points to the polynomial `t`.
pub fn add_blinding(t: &Vec<BlsScalar>, b0: BlsScalar, b1: BlsScalar, n: usize) -> (r: Vec<
    BlsScalar,
>)
    requires
        all_scalars_wf(t@),
        b0.wf(),
        b1.wf(),
        n <= 0x1000_0000,
    ensures
        all_scalars_wf(r@),
        scalar_values(r@) == blinded(scalar_values(t@), b0@, b1@, n as nat),
{
    let len: usize = if t.len() > n + 2 {
        t.len()
    } else {
        n + 2
    };
    let ghost tv = scalar_values(t@);
    let ghost bs = seq![b0@, b1@];
    let ghost target = blinded(tv, b0@, b1@, n as nat);
    let zero = BlsScalar::from_u64(0);
    let mut r: Vec<BlsScalar> = Vec::with_capacity(len);
    let mut k: usize = 0;
    while k < len
        invariant
            k <= len,
            len == target.len(),
            r.len() == k,
            tv == scalar_values(t@),
            bs == seq![b0@, b1@],
            target == blinded(tv, b0@, b1@, n as nat),
            all_scalars_wf(t@),
            b0.wf(),
            b1.wf(),
            zero.wf(),
            zero@ == 0,
            n <= 0x1000_0000,
            forall|j: int| 0 <= j < k ==> (#[trigger] r[j]).wf() && r[j]@ == target[j],
        decreases len - k,
    {
        let tk = if k < t.len() {
            t[k]
        } else {
            zero
        };
        let lo = if k == 0 {
            b0
        } else if k == 1 {
            b1
        } else {
            zero
        };
        let hi = if k == n {
            b0
        } else if k == n + 1 {
            b1
        } else {
            zero
        };
        let c = tk.minus(lo).plus(hi);
        proof {
            let p = bls_order();
            assert(tk@ == coeff(tv, k as int));
            assert(lo@ == coeff(bs, k as int));
            assert(hi@ == coeff(bs, k - n));
            lemma_mod_idem(tk@ - lo@, p);
            lemma_add_cong((tk@ - lo@) % p, tk@ - lo@, hi@, hi@, p);
        }
        r.push(c);
        k += 1;
    }
    proof {
        assert(scalar_values(r@) =~= target);
    }
    r
}

} // verus!

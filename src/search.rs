//! Search extraction: find which candidate account is hidden behind a blinded
//! KZG commitment that was opened at two points outside the domain.
//!
//! The committed polynomial is `t + (b0 + b1 * X) * (X^n - 1)`, where `t`
//! interpolates the account over the domain of `n` points; the blinding term
//! vanishes on the domain. Two openings off the domain determine `b0` and `b1`
//! for each candidate, and the candidate whose blinded commitment equals the
//! target is the hidden one.
use crate::bls_field::{bls_order, BlsScalar};
use crate::curve::{all_points_wf, all_scalars_wf, msm, msm_of, scalar_values, G1Point};
use crate::error::ExtractionError;
use crate::modular::{inv_mod, lemma_add_cong, lemma_cancel, lemma_canonical, lemma_div_mul, lemma_mod_idem, lemma_mul_cong, lemma_sub_cong};
use crate::poly::{add_blinding, blinded, evaluate, interpolate, interpolation_of, poly_eval};
use vstd::arithmetic::div_mod::{lemma_mul_mod_noop_right, lemma_small_mod, lemma_sub_mod_noop_right};
use vstd::arithmetic::power::pow;
use vstd::prelude::*;

verus! {

/// Size of the evaluation domain over which accounts are interpolated.
pub const DOMAIN_SIZE: usize = 1024;

/// `a / b` in the field.
pub open spec fn fdiv(a: int, b: int) -> int {
    (a * inv_mod(b, bls_order())) % bls_order()
}

/// The vanishing polynomial of the domain, `X^n - 1`, evaluated at `x`.
pub open spec fn vanishing_at(x: int) -> int {
    (pow(x, DOMAIN_SIZE as nat) - 1) % bls_order()
}

/// The challenge points are refused: one lies on the domain (the vanishing
/// polynomial is zero there), the two sum to zero, or the two coincide (the
/// system is then singular).
pub open spec fn points_degenerate(c1: int, c2: int) -> bool {
    ||| vanishing_at(c1) == 0
    ||| vanishing_at(c2) == 0
    ||| (c1 + c2) % bls_order() == 0
    ||| (c1 - c2) % bls_order() == 0
}

/// The blinding coefficients `(b0, b1)` solved from the challenge points
/// `c1, c2`, the claimed openings `o1, o2` there and the account polynomial's
/// values `a1, a2` there: with `e_k = (o_k - a_k) / (c_k^n - 1)`,
/// `b1 = (e1 - e2) / (c1 - c2)` and `b0 = e1 - b1 * c1`.
pub open spec fn blinding_of(c1: int, c2: int, o1: int, o2: int, a1: int, a2: int) -> (int, int) {
    let e1 = fdiv((o1 - a1) % bls_order(), vanishing_at(c1));
    let e2 = fdiv((o2 - a2) % bls_order(), vanishing_at(c2));
    let b1 = fdiv((e1 - e2) % bls_order(), (c1 - c2) % bls_order());
    ((e1 - b1 * c1) % bls_order(), b1)
}

/// The blinded polynomial `A + (b0 + b1 * X) * (X^n - 1)`, whose value at `c`
/// is `a` before blinding, takes the value `o` at `c`.
pub open spec fn opens_to(a: int, c: int, o: int, b0: int, b1: int) -> bool {
    (a + (b0 + b1 * c) * vanishing_at(c)) % bls_order() == o
}

proof fn lemma_opens(a: int, c: int, o: int, b0: int, b1: int, e: int, v: int)
    requires
        0 <= o < bls_order(),
        v == vanishing_at(c),
        (b0 + b1 * c) % bls_order() == e % bls_order(),
        (e * v) % bls_order() == (o - a) % bls_order(),
    ensures
        opens_to(a, c, o, b0, b1),
{
    let p = bls_order();
    lemma_mul_cong(b0 + b1 * c, e, v, p);
    lemma_add_cong(a, a, (b0 + b1 * c) * v, o - a, p);
    lemma_small_mod(o as nat, p as nat);
}

/// The value at `x` of the polynomial interpolating `acct` over the domain.
pub open spec fn account_eval(acct: Seq<int>, x: int) -> int {
    poly_eval(interpolation_of(acct, DOMAIN_SIZE as nat), x) % bls_order()
}

/// The KZG commitment to the account `acct` blinded with `b0 + b1 * X`.
pub open spec fn blinded_commitment(setup: Seq<G1Point>, acct: Seq<int>, b0: int, b1: int) -> G1Point {
    msm_of(setup, blinded(interpolation_of(acct, DOMAIN_SIZE as nat), b0, b1, DOMAIN_SIZE as nat))
}

/// The blinded commitment of a candidate account under the blinding that the
/// openings determine for it.
pub open spec fn candidate_commitment(
    setup: Seq<G1Point>,
    acct: Seq<int>,
    c1: int,
    c2: int,
    o1: int,
    o2: int,
) -> G1Point {
    let b = blinding_of(c1, c2, o1, o2, account_eval(acct, c1), account_eval(acct, c2));
    blinded_commitment(setup, acct, b.0, b.1)
}

/// `(o^n - 1)` in the field.
fn vanishing(o: BlsScalar) -> (r: BlsScalar)
    requires
        o.wf(),
    ensures
        r.wf(),
        r@ == vanishing_at(o@),
{
    let power = o.pow_u64(DOMAIN_SIZE as u64);
    let one = BlsScalar::one();
    proof {
        let x = pow(o@, DOMAIN_SIZE as nat);
        lemma_mod_idem(x, bls_order());
        lemma_sub_cong(x % bls_order(), x, 1, 1, bls_order());
    }
    power.minus(one)
}

/// `a / b` in the field, `None` when `b` is zero.
fn divide(a: BlsScalar, b: BlsScalar) -> (r: Option<BlsScalar>)
    requires
        a.wf(),
        b.wf(),
    ensures
        r is None <==> b@ == 0,
        r matches Some(q) ==> q.wf() && q@ == fdiv(a@, b@),
        b@ != 0 ==> (b@ * inv_mod(b@, bls_order())) % bls_order() == 1,
{
    match b.inverse() {
        Some(inv) => {
            Some(a.times(inv))
        },
        None => None,
    }
}

proof fn lemma_same_value(a: int, c: int, o: int, b0: int, b1: int, x0: int, x1: int)
    requires
        opens_to(a, c, o, b0, b1),
        opens_to(a, c, o, x0, x1),
        (vanishing_at(c) * inv_mod(vanishing_at(c), bls_order())) % bls_order() == 1,
    ensures
        (b0 + b1 * c) % bls_order() == (x0 + x1 * c) % bls_order(),
{
    let p = bls_order();
    let v = vanishing_at(c);
    let i = inv_mod(v, p);
    let y = b0 + b1 * c;
    let z = x0 + x1 * c;
    lemma_sub_cong(a + y * v, a + z * v, a, a, p);
    assert(a + y * v - a == y * v);
    assert(a + z * v - a == z * v);
    lemma_mul_cong(y * v, z * v, i, p);
    lemma_cancel(y, v, i, p);
    lemma_cancel(z, v, i, p);
}

/// Only one canonical blinding meets both openings.
proof fn lemma_opens_unique(
    a1: int,
    a2: int,
    c1: int,
    c2: int,
    o1: int,
    o2: int,
    b0: int,
    b1: int,
    x0: int,
    x1: int,
)
    requires
        0 <= b0 < bls_order(),
        0 <= b1 < bls_order(),
        0 <= x0 < bls_order(),
        0 <= x1 < bls_order(),
        opens_to(a1, c1, o1, b0, b1),
        opens_to(a2, c2, o2, b0, b1),
        opens_to(a1, c1, o1, x0, x1),
        opens_to(a2, c2, o2, x0, x1),
        (vanishing_at(c1) * inv_mod(vanishing_at(c1), bls_order())) % bls_order() == 1,
        (vanishing_at(c2) * inv_mod(vanishing_at(c2), bls_order())) % bls_order() == 1,
        (((c1 - c2) % bls_order()) * inv_mod((c1 - c2) % bls_order(), bls_order()))
            % bls_order() == 1,
    ensures
        x0 == b0,
        x1 == b1,
{
    let p = bls_order();
    let d = c1 - c2;
    let i = inv_mod(d % p, p);
    lemma_same_value(a1, c1, o1, b0, b1, x0, x1);
    lemma_same_value(a2, c2, o2, b0, b1, x0, x1);
    lemma_sub_cong(b0 + b1 * c1, x0 + x1 * c1, b0 + b1 * c2, x0 + x1 * c2, p);
    assert(b0 + b1 * c1 - (b0 + b1 * c2) == b1 * d) by (nonlinear_arith)
        requires
            d == c1 - c2,
    ;
    assert(x0 + x1 * c1 - (x0 + x1 * c2) == x1 * d) by (nonlinear_arith)
        requires
            d == c1 - c2,
    ;
    lemma_mod_idem(d, p);
    lemma_mul_cong(d % p, d, i, p);
    lemma_mul_cong(b1 * d, x1 * d, i, p);
    lemma_cancel(b1, d, i, p);
    lemma_cancel(x1, d, i, p);
    lemma_canonical(b1, x1, p);
    lemma_sub_cong(b0 + b1 * c1, x0 + x1 * c1, b1 * c1, x1 * c1, p);
    assert(b0 + b1 * c1 - b1 * c1 == b0);
    assert(x0 + x1 * c1 - x1 * c1 == x0);
    lemma_canonical(b0, x0, p);
}

/// Solves the blinding coefficients `(b0, b1)` for which the blinded
/// polynomial takes the opening `o_k` at the challenge point `c_k`, given the
/// account polynomial's values `eval_k` there. Points on the domain and points
/// that sum to zero are refused; the 2x2 system itself is solvable exactly when,
/// besides, the points differ.
pub fn blinding_coefficients(
    c1: BlsScalar,
    c2: BlsScalar,
    o1: BlsScalar,
    o2: BlsScalar,
    eval_1: BlsScalar,
    eval_2: BlsScalar,
) -> (r: Result<(BlsScalar, BlsScalar), ExtractionError>)
    requires
        c1.wf(),
        c2.wf(),
        o1.wf(),
        o2.wf(),
        eval_1.wf(),
        eval_2.wf(),
    ensures
        r is Err <==> points_degenerate(c1@, c2@),
        r matches Err(e) ==> e == ExtractionError::PreconditionViolation,
        r matches Ok(b) ==> {
            &&& b.0.wf()
            &&& b.1.wf()
            &&& (b.0@, b.1@) == blinding_of(c1@, c2@, o1@, o2@, eval_1@, eval_2@)
            &&& opens_to(eval_1@, c1@, o1@, b.0@, b.1@)
            &&& opens_to(eval_2@, c2@, o2@, b.0@, b.1@)
            &&& forall|x0: int, x1: int|
                0 <= x0 < bls_order() && 0 <= x1 < bls_order() && #[trigger] opens_to(
                    eval_1@,
                    c1@,
                    o1@,
                    x0,
                    x1,
                ) && #[trigger] opens_to(eval_2@, c2@, o2@, x0, x1) ==> x0 == b.0@ && x1 == b.1@
        },
{
    if c1.plus(c2).is_zero() {
        return Err(ExtractionError::PreconditionViolation);
    }
    let van_1 = vanishing(c1);
    let van_2 = vanishing(c2);
    let diff = c1.minus(c2);
    let e1 = match divide(o1.minus(eval_1), van_1) {
        Some(q) => q,
        None => {
            return Err(ExtractionError::PreconditionViolation);
        },
    };
    let e2 = match divide(o2.minus(eval_2), van_2) {
        Some(q) => q,
        None => {
            return Err(ExtractionError::PreconditionViolation);
        },
    };
    let b1 = match divide(e1.minus(e2), diff) {
        Some(q) => q,
        None => {
            return Err(ExtractionError::PreconditionViolation);
        },
    };
    let b0 = e1.minus(b1.times(c1));
    proof {
        let p = bls_order();
        // e_k * v_k == o_k - eval_k
        lemma_div_mul((o1@ - eval_1@) % p, van_1@, p);
        lemma_div_mul((o2@ - eval_2@) % p, van_2@, p);
        lemma_mod_idem(o1@ - eval_1@, p);
        lemma_mod_idem(o2@ - eval_2@, p);
        // b1 * (c1 - c2) == e1 - e2
        lemma_div_mul((e1@ - e2@) % p, diff@, p);
        lemma_mod_idem(e1@ - e2@, p);
        lemma_mul_mod_noop_right(b1@, c1@ - c2@, p);
        lemma_mod_idem(c1@ - c2@, p);
        assert((b1@ * (c1@ - c2@)) % p == (e1@ - e2@) % p);
        // b0 + b1 * c1 == e1
        lemma_sub_mod_noop_right(e1@, b1@ * c1@, p);
        lemma_mod_idem(e1@ - b1@ * c1@, p);
        lemma_add_cong(b0@, e1@ - b1@ * c1@, b1@ * c1@, b1@ * c1@, p);
        assert(e1@ - b1@ * c1@ + b1@ * c1@ == e1@);
        lemma_opens(eval_1@, c1@, o1@, b0@, b1@, e1@, van_1@);
        // b0 + b1 * c2 == e2
        assert(b0@ + b1@ * c2@ == b0@ + b1@ * c1@ - b1@ * (c1@ - c2@)) by (nonlinear_arith);
        lemma_sub_cong(b0@ + b1@ * c1@, e1@, b1@ * (c1@ - c2@), e1@ - e2@, p);
        assert(e1@ - (e1@ - e2@) == e2@);
        lemma_opens(eval_2@, c2@, o2@, b0@, b1@, e2@, van_2@);
        assert forall|x0: int, x1: int|
            0 <= x0 < p && 0 <= x1 < p && #[trigger] opens_to(eval_1@, c1@, o1@, x0, x1)
                && #[trigger] opens_to(eval_2@, c2@, o2@, x0, x1) implies x0 == b0@ && x1
            == b1@ by {
            lemma_opens_unique(eval_1@, eval_2@, c1@, c2@, o1@, o2@, b0@, b1@, x0, x1);
        }
    }
    Ok((b0, b1))
}

/// Solves the blinding coefficients for the candidate account `acct`: it is
/// interpolated over the domain and evaluated at the two challenges, and
/// `blinding_coefficients` does the rest.
pub fn find_blindings(
    c1: BlsScalar,
    c2: BlsScalar,
    o1: BlsScalar,
    o2: BlsScalar,
    acct: &Vec<BlsScalar>,
) -> (r: Result<(BlsScalar, BlsScalar), ExtractionError>)
    requires
        c1.wf(),
        c2.wf(),
        o1.wf(),
        o2.wf(),
        all_scalars_wf(acct@),
    ensures
        r is Err <==> points_degenerate(c1@, c2@),
        r matches Err(e) ==> e == ExtractionError::PreconditionViolation,
        r matches Ok(b) ==> {
            let a1 = account_eval(scalar_values(acct@), c1@);
            let a2 = account_eval(scalar_values(acct@), c2@);
            &&& b.0.wf()
            &&& b.1.wf()
            &&& (b.0@, b.1@) == blinding_of(c1@, c2@, o1@, o2@, a1, a2)
            &&& opens_to(a1, c1@, o1@, b.0@, b.1@)
            &&& opens_to(a2, c2@, o2@, b.0@, b.1@)
            &&& forall|x0: int, x1: int|
                0 <= x0 < bls_order() && 0 <= x1 < bls_order() && #[trigger] opens_to(
                    a1,
                    c1@,
                    o1@,
                    x0,
                    x1,
                ) && #[trigger] opens_to(a2, c2@, o2@, x0, x1) ==> x0 == b.0@ && x1 == b.1@
        },
{
    let t = interpolate(acct, DOMAIN_SIZE);
    let eval_1 = evaluate(&t, c1);
    let eval_2 = evaluate(&t, c2);
    blinding_coefficients(c1, c2, o1, o2, eval_1, eval_2)
}

/// The KZG commitment, under the reference string `setup`, to the account
/// `acct` blinded with `b0 + b1 * X` times the vanishing polynomial.
pub fn compute_commitment(setup: &Vec<G1Point>, b0: BlsScalar, b1: BlsScalar, acct: &Vec<BlsScalar>) -> (r:
    G1Point)
    requires
        all_points_wf(setup@),
        all_scalars_wf(acct@),
        b0.wf(),
        b1.wf(),
    ensures
        r.wf(),
        r == blinded_commitment(setup@, scalar_values(acct@), b0@, b1@),
{
    let t = interpolate(acct, DOMAIN_SIZE);
    let blinded_coeffs = add_blinding(&t, b0, b1, DOMAIN_SIZE);
    msm(setup, &blinded_coeffs)
}

/// Whether two commitments are the same point.
pub fn check_commitment_match(commitment: &G1Point, ground_truth: &G1Point) -> (r: bool)
    ensures
        r == (*commitment == *ground_truth),
{
    *commitment == *ground_truth
}

/// A candidate account found behind the target commitment, with its position
/// in the candidate list and the blinding that was used.
#[derive(Clone, Debug)]
pub struct BlindedAccount {
    pub index: usize,
    pub account: Vec<BlsScalar>,
    pub b0: BlsScalar,
    pub b1: BlsScalar,
}

pub open spec fn all_accounts_wf(accts: Seq<Vec<BlsScalar>>) -> bool {
    forall|i: int| 0 <= i < accts.len() ==> all_scalars_wf(#[trigger] accts[i]@)
}

/// Scans the candidate accounts in order and returns the first whose blinded
/// commitment equals `commitment`, or `None` when none does. Fails when the
/// opening points or challenges are degenerate and there is a candidate.
pub fn find_poly(
    c1: BlsScalar,
    c2: BlsScalar,
    o1: BlsScalar,
    o2: BlsScalar,
    accts: &Vec<Vec<BlsScalar>>,
    setup: &Vec<G1Point>,
    commitment: &G1Point,
) -> (r: Result<Option<BlindedAccount>, ExtractionError>)
    requires
        c1.wf(),
        c2.wf(),
        o1.wf(),
        o2.wf(),
        all_accounts_wf(accts@),
        all_points_wf(setup@),
    ensures
        r is Err <==> accts.len() > 0 && points_degenerate(c1@, c2@),
        r matches Err(e) ==> e == ExtractionError::PreconditionViolation,
        r matches Ok(None) ==> forall|j: int|
            0 <= j < accts.len() ==> candidate_commitment(
                setup@,
                scalar_values(#[trigger] accts[j]@),
                c1@,
                c2@,
                o1@,
                o2@,
            ) != *commitment,
        r matches Ok(Some(h)) ==> {
            &&& h.index < accts.len()
            &&& h.account@ == accts[h.index as int]@
            &&& (h.b0@, h.b1@) == blinding_of(
                c1@,
                c2@,
                o1@,
                o2@,
                account_eval(scalar_values(h.account@), c1@),
                account_eval(scalar_values(h.account@), c2@),
            )
            &&& blinded_commitment(setup@, scalar_values(h.account@), h.b0@, h.b1@) == *commitment
            &&& forall|j: int|
                0 <= j < h.index ==> candidate_commitment(
                    setup@,
                    scalar_values(#[trigger] accts[j]@),
                    c1@,
                    c2@,
                    o1@,
                    o2@,
                ) != *commitment
        },
{
    let mut i: usize = 0;
    while i < accts.len()
        invariant
            i <= accts.len(),
            c1.wf(),
            c2.wf(),
            o1.wf(),
            o2.wf(),
            all_accounts_wf(accts@),
            all_points_wf(setup@),
            i > 0 ==> !points_degenerate(c1@, c2@),
            forall|j: int|
                0 <= j < i ==> candidate_commitment(
                    setup@,
                    scalar_values(#[trigger] accts[j]@),
                    c1@,
                    c2@,
                    o1@,
                    o2@,
                ) != *commitment,
        decreases accts.len() - i,
    {
        let acct = &accts[i];
        let (b0, b1) = match find_blindings(c1, c2, o1, o2, acct) {
            Ok(b) => b,
            Err(e) => {
                return Err(e);
            },
        };
        let c = compute_commitment(setup, b0, b1, acct);
        if check_commitment_match(&c, commitment) {
            let account = acct.clone();
            proof {
                assert(account@ =~= accts[i as int]@);
            }
            return Ok(Some(BlindedAccount { index: i, account, b0, b1 }));
        }
        i += 1;
    }
    Ok(None)
}

} // verus!

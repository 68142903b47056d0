use ark_bls12_381::{Fq, Fr, G1Affine};
use ark_ec::msm::VariableBaseMSM;
use ark_ec::{AffineCurve, ProjectiveCurve};
use ark_ff::{BigInteger256, Field, PrimeField};
use ark_poly::univariate::DensePolynomial;
use ark_poly::{EvaluationDomain, GeneralEvaluationDomain, Polynomial, UVPolynomial};
use sigma_extract::bls_field::BlsScalar;
use sigma_extract::curve::G1Point;
use sigma_extract::error::ExtractionError;
use sigma_extract::search::{
    blinding_coefficients, check_commitment_match, compute_commitment, find_blindings, find_poly,
    DOMAIN_SIZE,
};

fn bs(x: Fr) -> BlsScalar {
    BlsScalar { limbs: x.into_repr().0 }
}

fn fr(x: BlsScalar) -> Fr {
    Fr::from_repr(BigInteger256(x.limbs)).unwrap()
}

fn g1(p: G1Affine) -> G1Point {
    G1Point { x: p.x.into_repr().0, y: p.y.into_repr().0, infinity: p.infinity }
}

fn setup(n: usize) -> Vec<G1Affine> {
    let g = G1Affine::prime_subgroup_generator().into_projective();
    let mut acc = g;
    let mut pts = Vec::with_capacity(n);
    for _ in 0..n {
        pts.push(acc);
        acc += &g;
        acc.double_in_place();
    }
    ark_ec::ProjectiveCurve::batch_normalization_into_affine(&pts)
}

fn account(seed: u64) -> Vec<BlsScalar> {
    (0..1000u64).map(|i| bs(Fr::from(seed * 100_000 + i * i + 1))).collect()
}

fn points() -> (Fr, Fr, Fr, Fr) {
    (Fr::from(7u64), Fr::from(11u64), Fr::from(3u64), Fr::from(5u64))
}

fn ark_blinded_commitment(srs: &[G1Affine], b0: Fr, b1: Fr, acct: &[BlsScalar]) -> G1Affine {
    let domain = GeneralEvaluationDomain::<Fr>::new(1002).unwrap();
    let evals: Vec<Fr> = acct.iter().map(|x| fr(*x)).collect();
    let t = DensePolynomial::from_coefficients_vec(domain.ifft(&evals));
    let b = DensePolynomial::from_coefficients_vec(vec![b0, b1]);
    let p = t + b.mul_by_vanishing_poly(domain);
    let scalars: Vec<_> = p.coeffs.iter().map(|c| c.into_repr()).collect();
    VariableBaseMSM::multi_scalar_mul(srs, &scalars).into_affine()
}

fn vanishing(x: Fr) -> Fr {
    x.pow([DOMAIN_SIZE as u64]) - Fr::from(1u64)
}

fn interpolant(acct: &[BlsScalar]) -> DensePolynomial<Fr> {
    let domain = GeneralEvaluationDomain::<Fr>::new(1002).unwrap();
    let evals: Vec<Fr> = acct.iter().map(|x| fr(*x)).collect();
    DensePolynomial::from_coefficients_vec(domain.ifft(&evals))
}

/// The values at the two challenge points of `acct` blinded with `b0 + b1 * X`.
fn honest_openings(acct: &[BlsScalar], b0: Fr, b1: Fr) -> (Fr, Fr) {
    let (c1, c2, _, _) = points();
    let t = interpolant(acct);
    let open = |c: Fr| t.evaluate(&c) + (b0 + b1 * c) * vanishing(c);
    (open(c1), open(c2))
}

#[test]
fn blinding_coefficients_exact_values() {
    let (c1, c2, o1, o2) = points();
    let (eval_1, eval_2) = (Fr::from(100u64), Fr::from(200u64));
    let (b0, b1) =
        blinding_coefficients(bs(c1), bs(c2), bs(o1), bs(o2), bs(eval_1), bs(eval_2)).unwrap();
    let e1 = (o1 - eval_1) / vanishing(c1);
    let e2 = (o2 - eval_2) / vanishing(c2);
    let eb1 = (e1 - e2) / (c1 - c2);
    assert_eq!(fr(b1), eb1);
    assert_eq!(fr(b0), e1 - eb1 * c1);
    assert_eq!(eval_1 + (fr(b0) + fr(b1) * c1) * vanishing(c1), o1);
    assert_eq!(eval_2 + (fr(b0) + fr(b1) * c2) * vanishing(c2), o2);
}

#[test]
fn shifted_openings_shift_the_blinding() {
    let (c1, c2, o1, o2) = points();
    let (eval_1, eval_2) = (Fr::from(8u64), Fr::from(9u64));
    let (b0, b1) =
        blinding_coefficients(bs(c1), bs(c2), bs(o1), bs(o2), bs(eval_1), bs(eval_2)).unwrap();
    let (d0, d1) = (Fr::from(3u64), Fr::from(4u64));
    let o1s = o1 + (d0 + d1 * c1) * vanishing(c1);
    let o2s = o2 + (d0 + d1 * c2) * vanishing(c2);
    let (s0, s1) =
        blinding_coefficients(bs(c1), bs(c2), bs(o1s), bs(o2s), bs(eval_1), bs(eval_2)).unwrap();
    assert_eq!((fr(s0), fr(s1)), (fr(b0) + d0, fr(b1) + d1));
}

#[test]
fn challenge_point_on_domain_is_rejected() {
    let (c1, c2, o1, o2) = points();
    let one = Fr::from(1u64);
    let p = Fr::from(1u64);
    assert_eq!(
        blinding_coefficients(bs(one), bs(c2), bs(o1), bs(o2), bs(p), bs(p)),
        Err(ExtractionError::PreconditionViolation)
    );
    assert_eq!(
        blinding_coefficients(bs(c1), bs(-one), bs(o1), bs(o2), bs(p), bs(p)),
        Err(ExtractionError::PreconditionViolation)
    );
    // an opening value on the domain is an ordinary value
    assert!(blinding_coefficients(bs(c1), bs(c2), bs(one), bs(-one), bs(p), bs(p)).is_ok());
}

#[test]
fn equal_challenge_points_are_rejected() {
    let (c1, _, o1, o2) = points();
    let p = Fr::from(4u64);
    assert_eq!(
        blinding_coefficients(bs(c1), bs(c1), bs(o1), bs(o2), bs(p), bs(p)),
        Err(ExtractionError::PreconditionViolation)
    );
    assert_eq!(
        find_blindings(bs(c1), bs(c1), bs(o1), bs(o2), &account(1)),
        Err(ExtractionError::PreconditionViolation)
    );
}

#[test]
fn challenges_summing_to_zero_are_rejected() {
    let (c1, _, o1, o2) = points();
    let p = Fr::from(4u64);
    assert_eq!(
        blinding_coefficients(bs(c1), bs(-c1), bs(o1), bs(o2), bs(p), bs(p)),
        Err(ExtractionError::PreconditionViolation)
    );
    assert_eq!(
        find_blindings(bs(c1), bs(-c1), bs(o1), bs(o2), &account(1)),
        Err(ExtractionError::PreconditionViolation)
    );
    let target = g1(G1Affine::prime_subgroup_generator());
    assert!(matches!(
        find_poly(bs(c1), bs(-c1), bs(o1), bs(o2), &vec![account(1)], &vec![], &target),
        Err(ExtractionError::PreconditionViolation)
    ));
    assert!(matches!(
        find_poly(bs(c1), bs(-c1), bs(o1), bs(o2), &vec![], &vec![], &target),
        Ok(None)
    ));
}

#[test]
fn zero_test_on_scalars() {
    assert!(bs(Fr::from(0u64)).is_zero());
    assert!(!bs(Fr::from(1u64)).is_zero());
    assert!(!bs(-Fr::from(1u64)).is_zero());
}

#[test]
fn honest_openings_give_back_the_blinding() {
    let (c1, c2, _, _) = points();
    let acct = account(4);
    let (b0, b1) = (Fr::from(555u64), Fr::from(777u64));
    let (o1, o2) = honest_openings(&acct, b0, b1);
    let got = find_blindings(bs(c1), bs(c2), bs(o1), bs(o2), &acct).unwrap();
    assert_eq!(got, (bs(b0), bs(b1)));
}

#[test]
fn find_blindings_evaluates_the_interpolant() {
    let (c1, c2, o1, o2) = points();
    let acct = account(2);
    let t = interpolant(&acct);
    let (eval_1, eval_2) = (t.evaluate(&c1), t.evaluate(&c2));
    let expected = blinding_coefficients(bs(c1), bs(c2), bs(o1), bs(o2), bs(eval_1), bs(eval_2));
    assert_eq!(find_blindings(bs(c1), bs(c2), bs(o1), bs(o2), &acct), expected);
}

#[test]
fn compute_commitment_matches_blinded_kzg() {
    let srs = setup(DOMAIN_SIZE + 2);
    let srs_points: Vec<G1Point> = srs.iter().map(|p| g1(*p)).collect();
    let acct = account(3);
    let (b0, b1) = (Fr::from(12u64), Fr::from(34u64));
    let c = compute_commitment(&srs_points, bs(b0), bs(b1), &acct);
    assert_eq!(c, g1(ark_blinded_commitment(&srs, b0, b1, &acct)));
    let unblinded = compute_commitment(&srs_points, bs(Fr::from(0u64)), bs(Fr::from(0u64)), &acct);
    assert!(!check_commitment_match(&c, &unblinded));
    assert!(check_commitment_match(&c, &c.clone()));
}

#[test]
fn search_finds_the_hidden_account() {
    let srs = setup(DOMAIN_SIZE + 2);
    let srs_points: Vec<G1Point> = srs.iter().map(|p| g1(*p)).collect();
    let (c1, c2, _, _) = points();
    let accts = vec![account(10), account(11), account(12)];
    let (b0, b1) = (Fr::from(31u64), Fr::from(41u64));
    let target = g1(ark_blinded_commitment(&srs, b0, b1, &accts[1]));
    let (o1, o2) = honest_openings(&accts[1], b0, b1);
    let hit = find_poly(bs(c1), bs(c2), bs(o1), bs(o2), &accts, &srs_points, &target)
        .unwrap()
        .unwrap();
    assert_eq!(hit.index, 1);
    assert_eq!(hit.account, accts[1]);
    assert_eq!((hit.b0, hit.b1), (bs(b0), bs(b1)));
    let first = find_blindings(bs(c1), bs(c2), bs(o1), bs(o2), &accts[0]).unwrap();
    assert!(!check_commitment_match(
        &compute_commitment(&srs_points, first.0, first.1, &accts[0]),
        &target
    ));
}

#[test]
fn search_without_match_returns_none() {
    let srs = setup(DOMAIN_SIZE + 2);
    let srs_points: Vec<G1Point> = srs.iter().map(|p| g1(*p)).collect();
    let (c1, c2, o1, o2) = points();
    let accts = vec![account(20), account(21)];
    let target = g1(G1Affine::prime_subgroup_generator());
    assert!(matches!(
        find_poly(bs(c1), bs(c2), bs(o1), bs(o2), &accts, &srs_points, &target),
        Ok(None)
    ));
}

#[test]
fn search_over_no_candidates() {
    let (c1, _, o1, o2) = points();
    let target = g1(G1Affine::prime_subgroup_generator());
    assert!(matches!(find_poly(bs(c1), bs(c1), bs(o1), bs(o2), &vec![], &vec![], &target), Ok(None)));
    assert!(matches!(
        find_poly(bs(c1), bs(c1), bs(o1), bs(o2), &vec![account(1)], &vec![], &target),
        Err(ExtractionError::PreconditionViolation)
    ));
}

#[test]
fn field_points_convert_exactly() {
    let x = Fq::from(5u64);
    let p = G1Affine::prime_subgroup_generator();
    assert_eq!(g1(p).x, p.x.into_repr().0);
    assert_ne!(x.into_repr().0, g1(p).y);
}

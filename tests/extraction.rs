use ark_ed_on_bls12_381::Fr;
use ark_ff::{BigInteger256, Field, PrimeField};
use ark_std::UniformRand;
use sigma_extract::ed_field::EdScalar;
use sigma_extract::error::ExtractionError;
use ark_ec::{AffineCurve, ProjectiveCurve};
use ark_ed_on_bls12_381::EdwardsAffine;
use sigma_extract::extract::{
    extract, extract_and_check, extract_from_transcripts, solve_for_a, solve_for_alpha,
    solve_for_r, solve_for_rho, vector_challenge, VectorKey, VectorTranscript,
};
use ark_serialize::CanonicalSerialize;
use blake2::{Blake2s, Digest};
use sigma_extract::sigma::EdPoint;

fn ed(x: Fr) -> EdScalar {
    EdScalar { limbs: x.into_repr().0 }
}

fn fr(x: EdScalar) -> Fr {
    Fr::from_repr(BigInteger256(x.limbs)).unwrap()
}

fn small(x: u64) -> EdScalar {
    EdScalar::from_u64(x)
}

#[test]
fn solve_for_r_exact_values() {
    // (10 - 4) / (5 - 2 * 1) = 2
    let r = solve_for_r(&vec![small(10)], &vec![small(4)], small(5), small(1)).unwrap();
    assert_eq!(r, vec![small(2)]);
}

#[test]
fn solve_for_r_in_the_field() {
    // (1 - 2) / (3 - 2 * 1) = -1
    let r = solve_for_r(&vec![small(1)], &vec![small(2)], small(3), small(1)).unwrap();
    assert_eq!(fr(r[0]), -Fr::from(1u64));
}

#[test]
fn solve_for_a_exact_values() {
    // 10 - 3 * 2 = 4, 20 - 3 * 5 = 5
    let a = solve_for_a(&vec![small(10), small(20)], small(3), &vec![small(2), small(5)]);
    assert_eq!(a, vec![small(4), small(5)]);
}

#[test]
fn solve_for_rho_exact_values() {
    // (17 - 5) / (7 - 2 * 2) = 4
    assert_eq!(solve_for_rho(small(17), small(5), small(7), small(2)), Ok(small(4)));
}

#[test]
fn solve_for_alpha_exact_values() {
    assert_eq!(solve_for_alpha(small(7), small(2), small(3)), small(1));
    assert_eq!(fr(solve_for_alpha(small(1), small(2), small(3))), -Fr::from(5u64));
}

#[test]
fn degenerate_pair_is_rejected() {
    let c2 = small(21);
    let c1 = small(42);
    let s = vec![small(1), small(2)];
    assert_eq!(
        solve_for_r(&s, &s, c1, c2),
        Err(ExtractionError::DegenerateChallengePair)
    );
    assert_eq!(
        solve_for_rho(small(3), small(4), c1, c2),
        Err(ExtractionError::DegenerateChallengePair)
    );
    assert!(matches!(
        extract(&s, &s, small(3), small(4), c1, c2),
        Err(ExtractionError::DegenerateChallengePair)
    ));
}

#[test]
fn degenerate_pair_with_random_challenge() {
    let rng = &mut rand::thread_rng();
    let c2 = Fr::rand(rng);
    let c1 = c2.double();
    let s1 = vec![ed(Fr::rand(rng))];
    let s2 = vec![ed(Fr::rand(rng))];
    let u1 = ed(Fr::rand(rng));
    let u2 = ed(Fr::rand(rng));
    assert!(matches!(
        extract(&s1, &s2, u1, u2, ed(c1), ed(c2)),
        Err(ExtractionError::DegenerateChallengePair)
    ));
}

#[test]
fn extraction_round_trip() {
    let rng = &mut rand::thread_rng();
    let n = 4;
    let a: Vec<Fr> = (0..n).map(|_| Fr::rand(rng)).collect();
    let r: Vec<Fr> = (0..n).map(|_| Fr::rand(rng)).collect();
    let alpha = Fr::rand(rng);
    let rho = Fr::rand(rng);
    let c1 = Fr::rand(rng);
    let c2 = Fr::rand(rng);
    assert_ne!(c1, c2.double());
    let s1: Vec<EdScalar> = (0..n).map(|i| ed(a[i] + c1 * r[i])).collect();
    let s2: Vec<EdScalar> = (0..n).map(|i| ed(a[i] + c2.double() * r[i])).collect();
    let u1 = ed(alpha + c1 * rho);
    let u2 = ed(alpha + c2.double() * rho);
    let w = extract(&s1, &s2, u1, u2, ed(c1), ed(c2)).unwrap();
    let message: Vec<Fr> = w.message.iter().map(|x| fr(*x)).collect();
    assert_eq!(message, a);
    assert_eq!(fr(w.randomness), alpha);
    let rs = solve_for_r(&s1, &s2, ed(c1), ed(c2)).unwrap();
    let rs: Vec<Fr> = rs.iter().map(|x| fr(*x)).collect();
    assert_eq!(rs, r);
    assert_eq!(fr(solve_for_rho(u1, u2, ed(c1), ed(c2)).unwrap()), rho);
}

#[test]
fn extraction_of_empty_vector() {
    let w = extract(&vec![], &vec![], small(9), small(3), small(5), small(1)).unwrap();
    assert!(w.message.is_empty());
    // rho = (9 - 3) / 3 = 2, alpha = 9 - 5 * 2 = -1
    assert_eq!(fr(w.randomness), -Fr::from(1u64));
}

#[test]
fn scalar_from_small_integer() {
    assert_eq!(fr(small(12345)), Fr::from(12345u64));
    assert_eq!(ed(Fr::from(0u64)), small(0));
    let inv = Fr::from(3u64).inverse().unwrap();
    assert_eq!(fr(solve_for_rho(small(1), small(0), small(3), small(0)).unwrap()), inv);
}

fn pt(p: EdwardsAffine) -> EdPoint {
    EdPoint { x: p.x.into_repr().0, y: p.y.into_repr().0 }
}

fn vector_key(n: u64) -> VectorKey {
    let g = EdwardsAffine::prime_subgroup_generator();
    let generators = (0..n).map(|i| pt(g.mul(Fr::from(1000 + i)).into_affine())).collect();
    VectorKey { generators, hiding: pt(g.mul(Fr::from(77u64)).into_affine()) }
}

#[test]
fn vector_commitment_matches_definition() {
    let key = vector_key(2);
    let g = EdwardsAffine::prime_subgroup_generator();
    let c = key.commit_with_explicit_randomness(&vec![small(2), small(3)], small(5));
    // 5 * 77 + 2 * 1000 + 3 * 1001 multiples of the generator
    let expected = g.mul(Fr::from(5u64 * 77 + 2 * 1000 + 3 * 1001)).into_affine();
    assert_eq!(c, pt(expected));
    let only_randomness = key.commit_with_explicit_randomness(&vec![], small(5));
    assert_eq!(only_randomness, pt(g.mul(Fr::from(385u64)).into_affine()));
}

fn flawed_transcripts(
    n: usize,
) -> (VectorKey, Vec<EdScalar>, Vec<EdScalar>, EdScalar, EdScalar, Fr, Fr, Vec<Fr>, Fr) {
    let rng = &mut rand::thread_rng();
    let key = vector_key(n as u64);
    let a: Vec<Fr> = (0..n).map(|_| Fr::rand(rng)).collect();
    let r: Vec<Fr> = (0..n).map(|_| Fr::rand(rng)).collect();
    let alpha = Fr::rand(rng);
    let rho = Fr::rand(rng);
    let c1 = Fr::rand(rng);
    let c2 = Fr::rand(rng);
    let s1 = (0..n).map(|i| ed(a[i] + c1 * r[i])).collect();
    let s2 = (0..n).map(|i| ed(a[i] + c2.double() * r[i])).collect();
    let u1 = ed(alpha + c1 * rho);
    let u2 = ed(alpha + c2.double() * rho);
    (key, s1, s2, u1, u2, c1, c2, a, alpha)
}

#[test]
fn checked_extraction_opens_both_commitments() {
    let (key, s1, s2, u1, u2, c1, c2, a, alpha) = flawed_transcripts(3);
    let a_ed: Vec<EdScalar> = a.iter().map(|x| ed(*x)).collect();
    let comm = key.commit_with_explicit_randomness(&a_ed, ed(alpha));
    let w = extract_and_check(&key, &s1, &s2, u1, u2, ed(c1), ed(c2), comm, comm).unwrap();
    assert_eq!(w.message, a_ed);
    assert_eq!(w.randomness, ed(alpha));
    assert_eq!(key.commit_with_explicit_randomness(&w.message, w.randomness), comm);
}

#[test]
fn checked_extraction_reports_mismatch() {
    let (key, s1, s2, u1, u2, c1, c2, a, alpha) = flawed_transcripts(2);
    let a_ed: Vec<EdScalar> = a.iter().map(|x| ed(*x)).collect();
    let comm = key.commit_with_explicit_randomness(&a_ed, ed(alpha));
    let other = key.commit_with_explicit_randomness(&a_ed, ed(alpha + Fr::from(1u64)));
    assert!(matches!(
        extract_and_check(&key, &s1, &s2, u1, u2, ed(c1), ed(c2), comm, other),
        Err(ExtractionError::VerificationFailed)
    ));
    assert!(matches!(
        extract_and_check(&key, &s1, &s2, u1, u2, ed(c2.double()), ed(c2), comm, comm),
        Err(ExtractionError::DegenerateChallengePair)
    ));
}

fn affine(p: EdPoint) -> EdwardsAffine {
    let fq = |l: [u64; 4]| ark_ed_on_bls12_381::Fq::from_repr(BigInteger256(l)).unwrap();
    EdwardsAffine::new(fq(p.x), fq(p.y))
}

#[test]
fn vector_challenge_hashes_key_and_messages() {
    let key = vector_key(2);
    let comm_a = key.commit_with_explicit_randomness(&vec![small(1), small(2)], small(3));
    let comm_r = key.commit_with_explicit_randomness(&vec![small(4), small(5)], small(6));
    let mut points: Vec<EdwardsAffine> = key.generators.iter().map(|p| affine(*p)).collect();
    points.extend([affine(key.hiding), affine(comm_a), affine(comm_r)]);
    let mut bytes = Vec::new();
    points.serialize(&mut bytes).unwrap();
    let expected = Fr::from_le_bytes_mod_order(&Blake2s::digest(&bytes));
    assert_eq!(fr(vector_challenge(&key, comm_a, comm_r)), expected);
    assert_ne!(vector_challenge(&key, comm_r, comm_a), vector_challenge(&key, comm_a, comm_r));
}

#[test]
fn extraction_from_flawed_transcripts() {
    let rng = &mut rand::thread_rng();
    let n = 3;
    let key = vector_key(n as u64);
    let a: Vec<Fr> = (0..n).map(|_| Fr::rand(rng)).collect();
    let r: Vec<Fr> = (0..n).map(|_| Fr::rand(rng)).collect();
    let (alpha, rho) = (Fr::rand(rng), Fr::rand(rng));
    let to_ed = |v: &Vec<Fr>| v.iter().map(|x| ed(*x)).collect::<Vec<EdScalar>>();
    let comm_a = key.commit_with_explicit_randomness(&to_ed(&a), ed(alpha));
    let transcript = |k: Fr| {
        let rk: Vec<Fr> = r.iter().map(|x| k * x).collect();
        let comm_r = key.commit_with_explicit_randomness(&to_ed(&rk), ed(k * rho));
        let c = fr(vector_challenge(&key, comm_a, comm_r));
        let s = (0..n).map(|i| ed(a[i] + c * rk[i])).collect();
        VectorTranscript { comm_a, comm_r, s, u: ed(alpha + c * k * rho) }
    };
    let t1 = transcript(Fr::from(1u64));
    let t2 = transcript(Fr::from(2u64));
    let w = extract_from_transcripts(&key, &t1, &t2).unwrap();
    assert_eq!(w.message, to_ed(&a));
    assert_eq!(w.randomness, ed(alpha));
    let mut bad = t2.clone();
    bad.comm_a = key.commit_with_explicit_randomness(&to_ed(&a), ed(alpha + Fr::from(1u64)));
    assert!(extract_from_transcripts(&key, &t1, &bad).is_err());
}

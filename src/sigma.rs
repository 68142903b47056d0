//! A Pedersen commitment over the Jubjub curve and the Fiat-Shamir Sigma
//! protocol built on it, which claims that two commitments hold unequal
//! messages.
//!
//! A proof carries first messages `comm_rho = commit(r_rho, rho)` and
//! `comm_tau = commit(r_tau, tau)` and responses `(s, u, t)`; with the
//! challenge `c` the verifier checks `commit(s, u) == comm_rho + c * comm_1`
//! and `commit(s, t) == comm_tau + c * comm_2`. Nothing ties `r_rho` to
//! `r_tau`, which lets a prover answer for two equal messages.
use crate::ed_field::{ed_order, EdScalar};
use crate::modular::{
    inv_mod, lemma_add_cong, lemma_canonical, lemma_cancel, lemma_mod_idem, lemma_mul_cong,
    lemma_sub_cong,
};
use ark_ec::{AffineCurve, ProjectiveCurve};
use ark_ed_on_bls12_381::{EdwardsAffine, Fq, Fr};
use ark_ff::{BigInteger256, PrimeField};
use ark_serialize::CanonicalSerialize;
use ark_std::UniformRand;
use blake2::{Blake2s, Digest};
use vstd::arithmetic::div_mod::{lemma_add_mod_noop_right, lemma_small_mod};
use vstd::prelude::*;

verus! {

/// An affine point of the Jubjub curve: the limbs of its canonical coordinates
/// in the BLS12-381 scalar field.
#[derive(Clone, Copy, Debug)]
pub struct EdPoint {
    pub x: [u64; 4],
    pub y: [u64; 4],
}

fn limbs_eq(a: &[u64; 4], b: &[u64; 4]) -> (r: bool)
    ensures
        r == (*a == *b),
{
    let mut i: usize = 0;
    while i < 4
        invariant
            i <= 4,
            forall|k: int| 0 <= k < i ==> a[k] == b[k],
        decreases 4 - i,
    {
        if a[i] != b[i] {
            return false;
        }
        i += 1;
    }
    assert(*a =~= *b);
    true
}

impl PartialEq for EdPoint {
    fn eq(&self, o: &EdPoint) -> (r: bool) {
        limbs_eq(&self.x, &o.x) && limbs_eq(&self.y, &o.y)
    }
}

impl vstd::std_specs::cmp::PartialEqSpecImpl for EdPoint {
    open spec fn obeys_eq_spec() -> bool {
        true
    }

    open spec fn eq_spec(&self, o: &EdPoint) -> bool {
        self.x == o.x && self.y == o.y
    }
}

/// The coefficient `d = -10240 / 10241` of the Jubjub curve
/// `-x^2 + y^2 = 1 + d * x^2 * y^2` over the BLS12-381 scalar field.
pub open spec fn jubjub_d() -> int {
    crate::modular::limbs_value([0x1065fd6d6343eb1, 0x292d7f6d37579d26, 0xf5fd9207e6bd7fd4, 0x2a9318e74bfa2b48])
}

/// `(x, y)` satisfies the curve equation modulo `q`.
pub open spec fn on_curve(x: int, y: int) -> bool {
    let q = crate::bls_field::bls_order();
    (y * y - x * x) % q == (1 + jubjub_d() * (x * x) * (y * y)) % q
}

impl EdPoint {
    /// Both coordinates are canonical and the point lies on the curve, where
    /// the twisted Edwards addition law is complete.
    pub open spec fn wf(&self) -> bool {
        &&& crate::modular::limbs_value(self.x) < crate::bls_field::bls_order()
        &&& crate::modular::limbs_value(self.y) < crate::bls_field::bls_order()
        &&& on_curve(crate::modular::limbs_value(self.x), crate::modular::limbs_value(self.y))
    }
}

/// `k * p` on the curve, as computed by `ark_ec`.
pub uninterp spec fn ed_mul_of(p: EdPoint, k: int) -> EdPoint;

/// `p + q` on the curve, as computed by `ark_ec`.
pub uninterp spec fn ed_add_of(p: EdPoint, q: EdPoint) -> EdPoint;

/// The canonical serialization of a vector of points by `ark_serialize`.
pub uninterp spec fn encoding_of(points: Seq<EdPoint>) -> Seq<u8>;

/// The BLAKE2s digest of a byte string.
pub uninterp spec fn blake2s_of(bytes: Seq<u8>) -> Seq<u8>;

/// The little-endian integer held by a byte string.
pub open spec fn le_value(b: Seq<u8>) -> int
    decreases b.len(),
{
    if b.len() == 0 {
        0
    } else {
        b[0] + 256 * le_value(b.drop_first())
    }
}

/// Relies on `AffineCurve::mul` for `ark_ed_on_bls12_381::EdwardsAffine` and
/// `into_affine`: the product depends on the point and scalar alone. On the
/// curve the extended-coordinate formulas are complete, so `z` stays nonzero
/// and the result is again a point of the curve.
#[verifier::external_body]
pub(crate) fn point_mul(p: EdPoint, k: EdScalar) -> (r: EdPoint)
    requires
        p.wf(),
        k.wf(),
    ensures
        r.wf(),
        r == ed_mul_of(p, k@),
{
    let fq = |l: [u64; 4]| Fq::from_repr(BigInteger256(l)).unwrap();
    let r = EdwardsAffine::new(fq(p.x), fq(p.y)).mul(BigInteger256(k.limbs)).into_affine();
    EdPoint { x: r.x.into_repr().0, y: r.y.into_repr().0 }
}

/// Relies on affine addition of `ark_ed_on_bls12_381::EdwardsAffine`: the sum
/// depends on the two points alone. On the curve (`a = -1` a square, `d` a
/// non-square) the divisors `1 +- d*x1*x2*y1*y2` are nonzero and the sum is
/// again a point of the curve.
#[verifier::external_body]
pub(crate) fn point_add(p: EdPoint, q: EdPoint) -> (r: EdPoint)
    requires
        p.wf(),
        q.wf(),
    ensures
        r.wf(),
        r == ed_add_of(p, q),
{
    let fq = |l: [u64; 4]| Fq::from_repr(BigInteger256(l)).unwrap();
    let r = EdwardsAffine::new(fq(p.x), fq(p.y)) + &EdwardsAffine::new(fq(q.x), fq(q.y));
    EdPoint { x: r.x.into_repr().0, y: r.y.into_repr().0 }
}

/// Relies on `CanonicalSerialize::serialize` of a `Vec<EdwardsAffine>` into a
/// byte vector, which cannot fail: the bytes depend on the points alone.
#[verifier::external_body]
pub(crate) fn encode_points(points: &Vec<EdPoint>) -> (r: Vec<u8>)
    requires
        forall|i: int| 0 <= i < points.len() ==> #[trigger] points[i].wf(),
    ensures
        r@ == encoding_of(points@),
{
    let fq = |l: [u64; 4]| Fq::from_repr(BigInteger256(l)).unwrap();
    let v: Vec<EdwardsAffine> = points.iter().map(|p| EdwardsAffine::new(fq(p.x), fq(p.y))).collect();
    let mut bytes: Vec<u8> = Vec::new();
    v.serialize(&mut bytes).unwrap();
    bytes
}

/// Relies on `blake2::Blake2s` through `Digest::digest`: a 32-byte digest.
#[verifier::external_body]
pub(crate) fn blake2s(bytes: &Vec<u8>) -> (r: Vec<u8>)
    ensures
        r@ == blake2s_of(bytes@),
        r.len() == 32,
{
    Blake2s::digest(bytes).to_vec()
}

/// Relies on `PrimeField::from_le_bytes_mod_order` of
/// `ark_ed_on_bls12_381::Fr`: the little-endian integer reduced modulo the order.
#[verifier::external_body]
pub(crate) fn scalar_from_le_bytes(bytes: &Vec<u8>) -> (r: EdScalar)
    ensures
        r.wf(),
        r@ == le_value(bytes@) % ed_order(),
{
    EdScalar { limbs: Fr::from_le_bytes_mod_order(bytes).into_repr().0 }
}

/// Relies on `UniformRand::rand` of `ark_ed_on_bls12_381::Fr` with
/// `rand::thread_rng`: some canonical scalar.
#[verifier::external_body]
fn random_scalar() -> (r: EdScalar)
    ensures
        r.wf(),
{
    EdScalar { limbs: Fr::rand(&mut rand::thread_rng()).into_repr().0 }
}

/// The public parameters of the commitment: two independent generators.
#[derive(Clone, Copy, Debug)]
pub struct CommitmentKey {
    pub g: EdPoint,
    pub h: EdPoint,
}

impl CommitmentKey {
    pub open spec fn wf(&self) -> bool {
        self.g.wf() && self.h.wf()
    }

    /// The commitment `m * g + r * h`.
    pub open spec fn commit_of(&self, m: int, r: int) -> EdPoint {
        ed_add_of(ed_mul_of(self.g, m), ed_mul_of(self.h, r))
    }

    /// Commits to `m` with randomness `r`.
    pub fn commit_with_explicit_randomness(&self, m: EdScalar, r: EdScalar) -> (c: EdPoint)
        requires
            self.wf(),
            m.wf(),
            r.wf(),
        ensures
            c.wf(),
            c == self.commit_of(m@, r@),
    {
        point_add(point_mul(self.g, m), point_mul(self.h, r))
    }

    /// Commits to `m` with fresh randomness, and returns the randomness too.
    pub fn commit_with_rng(&self, m: EdScalar) -> (res: (EdPoint, EdScalar))
        requires
            self.wf(),
            m.wf(),
        ensures
            res.0.wf(),
            res.1.wf(),
            res.0 == self.commit_of(m@, res.1@),
    {
        let r = random_scalar();
        (self.commit_with_explicit_randomness(m, r), r)
    }
}

/// The statement: the messages under `comm_1` and `comm_2` differ.
#[derive(Clone, Copy, Debug)]
pub struct Instance {
    pub comm_1: EdPoint,
    pub comm_2: EdPoint,
}

/// The prover's first messages.
#[derive(Clone, Copy, Debug)]
pub struct ProofCommitment {
    pub comm_rho: EdPoint,
    pub comm_tau: EdPoint,
}

/// The prover's answers to the challenge.
#[derive(Clone, Copy, Debug)]
pub struct ProofResponse {
    pub s: EdScalar,
    pub u: EdScalar,
    pub t: EdScalar,
}

#[derive(Clone, Copy, Debug)]
pub struct Proof {
    pub commitment: ProofCommitment,
    pub response: ProofResponse,
}

impl Instance {
    pub open spec fn wf(&self) -> bool {
        self.comm_1.wf() && self.comm_2.wf()
    }
}

impl Proof {
    pub open spec fn wf(&self) -> bool {
        &&& self.commitment.comm_rho.wf()
        &&& self.commitment.comm_tau.wf()
        &&& self.response.s.wf()
        &&& self.response.u.wf()
        &&& self.response.t.wf()
    }
}

/// The Fiat-Shamir challenge: the BLAKE2s digest of the serialized key and
/// first messages, read little-endian and reduced modulo the order.
pub open spec fn challenge_of(ck: CommitmentKey, pc: ProofCommitment) -> int {
    le_value(blake2s_of(encoding_of(seq![ck.g, ck.h, pc.comm_rho, pc.comm_tau]))) % ed_order()
}

/// Both verification equations hold under challenge `c`.
pub open spec fn accepts(ck: CommitmentKey, inst: Instance, proof: Proof, c: int) -> bool {
    let pc = proof.commitment;
    let pr = proof.response;
    &&& ck.commit_of(pr.s@, pr.u@) == ed_add_of(pc.comm_rho, ed_mul_of(inst.comm_1, c))
    &&& ck.commit_of(pr.s@, pr.t@) == ed_add_of(pc.comm_tau, ed_mul_of(inst.comm_2, c))
}

/// Derives the challenge from the key and the prover's first messages.
pub fn challenge(ck: &CommitmentKey, pc: &ProofCommitment) -> (c: EdScalar)
    requires
        ck.wf(),
        pc.comm_rho.wf(),
        pc.comm_tau.wf(),
    ensures
        c.wf(),
        c@ == challenge_of(*ck, *pc),
{
    let points = vec![ck.g, ck.h, pc.comm_rho, pc.comm_tau];
    proof {
        assert(points@ =~= seq![ck.g, ck.h, pc.comm_rho, pc.comm_tau]);
    }
    let bytes = encode_points(&points);
    let digest = blake2s(&bytes);
    scalar_from_le_bytes(&digest)
}

/// Checks the two verification equations under a given challenge.
pub fn verify_with_challenge(ck: &CommitmentKey, inst: &Instance, proof: &Proof, c: EdScalar) -> (r:
    bool)
    requires
        ck.wf(),
        inst.wf(),
        proof.wf(),
        c.wf(),
    ensures
        r == accepts(*ck, *inst, *proof, c@),
{
    let pc = &proof.commitment;
    let pr = &proof.response;
    let lhs_1 = ck.commit_with_explicit_randomness(pr.s, pr.u);
    let rhs_1 = point_add(pc.comm_rho, point_mul(inst.comm_1, c));
    let lhs_2 = ck.commit_with_explicit_randomness(pr.s, pr.t);
    let rhs_2 = point_add(pc.comm_tau, point_mul(inst.comm_2, c));
    lhs_1 == rhs_1 && lhs_2 == rhs_2
}

/// Verifies a proof: recomputes the challenge and checks both equations.
pub fn verify(ck: &CommitmentKey, inst: &Instance, proof: &Proof) -> (r: bool)
    requires
        ck.wf(),
        inst.wf(),
        proof.wf(),
    ensures
        r == accepts(*ck, *inst, *proof, challenge_of(*ck, proof.commitment)),
{
    let c = challenge(ck, &proof.commitment);
    verify_with_challenge(ck, inst, proof, c)
}

/// The secrets behind a forged proof: messages `a` and `b` with their
/// commitment randomness.
#[derive(Clone, Copy, Debug)]
pub struct UnequalWitness {
    pub a: EdScalar,
    pub ra: EdScalar,
    pub b: EdScalar,
    pub rb: EdScalar,
}

/// An instance, its witness and a proof for it.
#[derive(Clone, Copy, Debug)]
pub struct ForgedProof {
    pub instance: Instance,
    pub witness: UnequalWitness,
    pub proof: Proof,
}

/// `x / y` in the Jubjub scalar field.
pub open spec fn ed_div(x: int, y: int) -> int {
    (x * inv_mod(y, ed_order())) % ed_order()
}

/// The first messages committing to `r_rho` and `r_tau`.
pub open spec fn first_messages(ck: CommitmentKey, r_rho: int, rho: int, r_tau: int, tau: int) -> ProofCommitment {
    ProofCommitment { comm_rho: ck.commit_of(r_rho, rho), comm_tau: ck.commit_of(r_tau, tau) }
}

/// Builds an instance with messages `a` and `b`, and a proof for it, where
/// `b` is chosen after the challenge so that the verification equations hold
/// with the independent first-message values `r_rho` and `r_tau`. The messages
/// differ exactly when `r_rho` and `r_tau` do. Returns `None` when the
/// challenge is zero.
pub fn forge_unequal_proof(
    ck: &CommitmentKey,
    r_rho: EdScalar,
    rho: EdScalar,
    r_tau: EdScalar,
    tau: EdScalar,
    a: EdScalar,
    ra: EdScalar,
    rb: EdScalar,
) -> (res: Option<ForgedProof>)
    requires
        ck.wf(),
        r_rho.wf(),
        rho.wf(),
        r_tau.wf(),
        tau.wf(),
        a.wf(),
        ra.wf(),
        rb.wf(),
    ensures
        res is None <==> challenge_of(*ck, first_messages(*ck, r_rho@, rho@, r_tau@, tau@)) == 0,
        res matches Some(f) ==> {
            let c = challenge_of(*ck, f.proof.commitment);
            let w = f.witness;
            &&& f.proof.commitment == first_messages(*ck, r_rho@, rho@, r_tau@, tau@)
            &&& w.a == a && w.ra == ra && w.rb == rb
            &&& w.b.wf()
            &&& w.b@ == ed_div(r_rho@ - r_tau@ + c * a@, c)
            &&& f.proof.wf()
            &&& f.proof.response.s@ == (r_rho@ + c * a@) % ed_order()
            &&& f.proof.response.u@ == (rho@ + c * ra@) % ed_order()
            &&& f.proof.response.t@ == (tau@ + c * rb@) % ed_order()
            &&& f.instance.wf()
            &&& f.instance.comm_1 == ck.commit_of(a@, ra@)
            &&& f.instance.comm_2 == ck.commit_of(w.b@, rb@)
            &&& (w.b@ == a@ <==> r_rho@ == r_tau@)
        },
{
    let comm_rho = ck.commit_with_explicit_randomness(r_rho, rho);
    let comm_tau = ck.commit_with_explicit_randomness(r_tau, tau);
    let commitment = ProofCommitment { comm_rho, comm_tau };
    let c = challenge(ck, &commitment);
    let inv = match c.inverse() {
        Some(y) => y,
        None => {
            return None;
        },
    };
    let ca = c.times(a);
    let b = r_rho.minus(r_tau).plus(ca).times(inv);
    let s = r_rho.plus(ca);
    let u = rho.plus(c.times(ra));
    let t = tau.plus(c.times(rb));
    proof {
        let p = ed_order();
        assert(p > 1);
        let x = r_rho@ - r_tau@ + c@ * a@;
        let diff = r_rho@ - r_tau@;
        lemma_mod_idem(diff, p);
        lemma_mod_idem(c@ * a@, p);
        lemma_add_cong(diff % p, diff, (c@ * a@) % p, c@ * a@, p);
        lemma_mod_idem(x, p);
        lemma_mul_cong(((diff % p + (c@ * a@) % p) % p), x, inv@, p);
        lemma_add_mod_noop_right(r_rho@, c@ * a@, p);
        lemma_add_mod_noop_right(rho@, c@ * ra@, p);
        lemma_add_mod_noop_right(tau@, c@ * rb@, p);
        assert(c@ * a@ == a@ * c@) by (nonlinear_arith);
        assert((inv@ * c@) % p == 1) by {
            assert(inv@ * c@ == c@ * inv@) by (nonlinear_arith);
        }
        if r_rho@ == r_tau@ {
            assert(x == a@ * c@);
            lemma_cancel(a@, c@, inv@, p);
            lemma_small_mod(a@ as nat, p as nat);
        }
        if b@ == a@ {
            lemma_mod_idem(x * inv@, p);
            lemma_mul_cong(b@, x * inv@, c@, p);
            lemma_cancel(x, inv@, c@, p);
            lemma_sub_cong(x, a@ * c@, a@ * c@, a@ * c@, p);
            assert(x - a@ * c@ == diff);
            lemma_add_cong(diff, 0, r_tau@, r_tau@, p);
            lemma_canonical(r_rho@, r_tau@, p);
        }
    }
    let response = ProofResponse { s, u, t };
    let instance = Instance {
        comm_1: ck.commit_with_explicit_randomness(a, ra),
        comm_2: ck.commit_with_explicit_randomness(b, rb),
    };
    Some(
        ForgedProof {
            instance,
            witness: UnequalWitness { a, ra, b, rb },
            proof: Proof { commitment, response },
        },
    )
}

} // verus!

//! Linear extraction from two transcripts of the vector Sigma-protocol.
//!
//! The flawed prover answers the first challenge `c1` with `s1 = a + c1 * r`
//! and the second challenge `c2` with `s2 = a + 2 * c2 * r` (its randomness is
//! doubled), and likewise `u1 = alpha + c1 * rho`, `u2 = alpha + 2 * c2 * rho`
//! for the commitment randomness. Whenever `c1 != 2 * c2` these two linear
//! equations determine `r`, `a`, `rho` and `alpha`.
use crate::ed_field::{ed_order, EdScalar};
use crate::error::ExtractionError;
use crate::sigma::{
    blake2s, blake2s_of, ed_add_of, ed_mul_of, encode_points, encoding_of, le_value, point_add,
    point_mul, scalar_from_le_bytes, EdPoint,
};
use crate::modular::{
    inv_mod, lemma_cancel, lemma_mod_idem, lemma_mul_cong, lemma_sub_cong,
};
use vstd::arithmetic::div_mod::*;
use vstd::prelude::*;

verus! {

/// A first challenge that is twice the second, in the field, makes the pair
/// degenerate: extraction then reports `DegenerateChallengePair`.
pub proof fn lemma_doubled_challenge_is_degenerate(c1: int, c2: int)
    requires
        c1 == (2 * c2) % ed_order(),
    ensures
        degenerate(c1, c2),
{
    lemma_order_positive();
    lemma_sub_mod_noop_right(2 * c2, 2 * c2, ed_order());
    lemma_sub_mod_noop_right(c1, 2 * c2, ed_order());
    lemma_mod_idem(2 * c2, ed_order());
}

/// The divisor `c1 - 2 * c2` of the linear system, reduced.
pub open spec fn divisor(c1: int, c2: int) -> int {
    (c1 - 2 * c2) % ed_order()
}

/// The challenge pair leaves the linear system singular.
pub open spec fn degenerate(c1: int, c2: int) -> bool {
    divisor(c1, c2) == 0
}

/// The randomness component solved from two responses.
pub open spec fn solved_random(v1: int, v2: int, c1: int, c2: int) -> int {
    ((v1 - v2) * inv_mod(divisor(c1, c2), ed_order())) % ed_order()
}

/// The secret component solved from the first response and the randomness.
pub open spec fn solved_secret(v1: int, c1: int, r: int) -> int {
    (v1 - c1 * r) % ed_order()
}

/// `(v1, v2)` are the responses of the flawed prover with secret `x` and
/// randomness `y` to the challenges `c1` and `c2`.
pub open spec fn flawed_responses(v1: int, v2: int, c1: int, c2: int, x: int, y: int) -> bool {
    &&& v1 == (x + c1 * y) % ed_order()
    &&& v2 == (x + 2 * c2 * y) % ed_order()
}

pub open spec fn all_wf(s: Seq<EdScalar>) -> bool {
    forall|i: int| 0 <= i < s.len() ==> #[trigger] s[i].wf()
}

proof fn lemma_order_positive()
    ensures
        ed_order() > 1,
{
}

/// Solving the two flawed responses gives back the prover's secret and randomness.
pub proof fn lemma_solve_round_trip(v1: int, v2: int, c1: int, c2: int, x: int, y: int, inv: int)
    requires
        0 <= x < ed_order(),
        0 <= y < ed_order(),
        flawed_responses(v1, v2, c1, c2, x, y),
        (divisor(c1, c2) * inv) % ed_order() == 1,
    ensures
        ((v1 - v2) * inv) % ed_order() == y,
        solved_secret(v1, c1, y) == x,
{
    let p = ed_order();
    let d = c1 - 2 * c2;
    lemma_order_positive();
    lemma_mod_idem(x + c1 * y, p);
    lemma_mod_idem(x + 2 * c2 * y, p);
    lemma_sub_cong(v1, x + c1 * y, v2, x + 2 * c2 * y, p);
    assert((x + c1 * y) - (x + 2 * c2 * y) == y * d) by (nonlinear_arith)
        requires
            d == c1 - 2 * c2,
    ;
    lemma_mul_cong(v1 - v2, y * d, inv, p);
    lemma_mod_idem(d, p);
    lemma_mul_cong(d % p, d, inv, p);
    lemma_cancel(y, d, inv, p);
    lemma_small_mod(y as nat, p as nat);
    lemma_sub_cong(v1, x + c1 * y, c1 * y, c1 * y, p);
    assert((x + c1 * y) - c1 * y == x);
    lemma_small_mod(x as nat, p as nat);
}

/// The field element `c1 - 2 * c2`.
fn challenge_divisor(c1: EdScalar, c2: EdScalar) -> (r: EdScalar)
    requires
        c1.wf(),
        c2.wf(),
    ensures
        r.wf(),
        r@ == divisor(c1@, c2@),
{
    let twice = c2.plus(c2);
    proof {
        lemma_order_positive();
        lemma_sub_mod_noop_right(c1@, 2 * c2@, ed_order());
        assert(c2@ + c2@ == 2 * c2@);
    }
    c1.minus(twice)
}


/// Solves the randomness vector `r` from the two response vectors:
/// `r[i] = (s1[i] - s2[i]) / (c1 - 2 * c2)`.
pub fn solve_for_r(s1: &Vec<EdScalar>, s2: &Vec<EdScalar>, c1: EdScalar, c2: EdScalar) -> (r:
    Result<Vec<EdScalar>, ExtractionError>)
    requires
        s1.len() == s2.len(),
        all_wf(s1@),
        all_wf(s2@),
        c1.wf(),
        c2.wf(),
    ensures
        r is Err <==> degenerate(c1@, c2@),
        r matches Err(e) ==> e == ExtractionError::DegenerateChallengePair,
        r is Ok ==> (divisor(c1@, c2@) * inv_mod(divisor(c1@, c2@), ed_order())) % ed_order() == 1,
        r matches Ok(v) ==> v.len() == s1.len() && all_wf(v@) && forall|i: int|
            0 <= i < v.len() ==> #[trigger] v[i]@ == solved_random(s1[i]@, s2[i]@, c1@, c2@),
{
    let d = challenge_divisor(c1, c2);
    let inv = match d.inverse() {
        Some(y) => y,
        None => {
            return Err(ExtractionError::DegenerateChallengePair);
        },
    };
    let mut r: Vec<EdScalar> = Vec::with_capacity(s1.len());
    let mut i: usize = 0;
    while i < s1.len()
        invariant
            i <= s1.len(),
            s1.len() == s2.len(),
            r.len() == i,
            all_wf(s1@),
            all_wf(s2@),
            inv.wf(),
            inv@ == inv_mod(divisor(c1@, c2@), ed_order()),
            forall|k: int|
                0 <= k < i ==> (#[trigger] r[k]).wf() && r[k]@ == solved_random(
                    s1[k]@,
                    s2[k]@,
                    c1@,
                    c2@,
                ),
        decreases s1.len() - i,
    {
        let diff = s1[i].minus(s2[i]);
        let ri = diff.times(inv);
        proof {
            lemma_order_positive();
            lemma_mul_mod_noop_left(s1[i as int]@ - s2[i as int]@, inv@, ed_order());
        }
        r.push(ri);
        i += 1;
    }
    Ok(r)
}

/// Solves the secret vector from the first responses and the solved randomness:
/// `a[i] = s1[i] - c1 * r[i]`.
pub fn solve_for_a(s1: &Vec<EdScalar>, c1: EdScalar, r: &Vec<EdScalar>) -> (a: Vec<EdScalar>)
    requires
        s1.len() == r.len(),
        all_wf(s1@),
        all_wf(r@),
        c1.wf(),
    ensures
        a.len() == s1.len(),
        all_wf(a@),
        forall|i: int| 0 <= i < a.len() ==> #[trigger] a[i]@ == solved_secret(s1[i]@, c1@, r[i]@),
{
    let mut a: Vec<EdScalar> = Vec::with_capacity(s1.len());
    let mut i: usize = 0;
    while i < s1.len()
        invariant
            i <= s1.len(),
            s1.len() == r.len(),
            a.len() == i,
            all_wf(s1@),
            all_wf(r@),
            c1.wf(),
            forall|k: int|
                0 <= k < i ==> (#[trigger] a[k]).wf() && a[k]@ == solved_secret(s1[k]@, c1@, r[k]@),
        decreases s1.len() - i,
    {
        let ai = solve_for_alpha(s1[i], c1, r[i]);
        a.push(ai);
        i += 1;
    }
    a
}

/// Solves the randomness `rho` of the first-message commitment from the two
/// scalar responses: `rho = (u1 - u2) / (c1 - 2 * c2)`.
pub fn solve_for_rho(u1: EdScalar, u2: EdScalar, c1: EdScalar, c2: EdScalar) -> (r: Result<
    EdScalar,
    ExtractionError,
>)
    requires
        u1.wf(),
        u2.wf(),
        c1.wf(),
        c2.wf(),
    ensures
        r is Err <==> degenerate(c1@, c2@),
        r matches Err(e) ==> e == ExtractionError::DegenerateChallengePair,
        r is Ok ==> (divisor(c1@, c2@) * inv_mod(divisor(c1@, c2@), ed_order())) % ed_order() == 1,
        r matches Ok(v) ==> v.wf() && v@ == solved_random(u1@, u2@, c1@, c2@),
{
    let d = challenge_divisor(c1, c2);
    match d.inverse() {
        Some(inv) => {
            let diff = u1.minus(u2);
            proof {
                lemma_order_positive();
                lemma_mul_mod_noop_left(u1@ - u2@, inv@, ed_order());
            }
            Ok(diff.times(inv))
        },
        None => Err(ExtractionError::DegenerateChallengePair),
    }
}

/// Solves the commitment randomness `alpha = u1 - c1 * rho`.
pub fn solve_for_alpha(u1: EdScalar, c1: EdScalar, rho: EdScalar) -> (r: EdScalar)
    requires
        u1.wf(),
        c1.wf(),
        rho.wf(),
    ensures
        r.wf(),
        r@ == solved_secret(u1@, c1@, rho@),
{
    let prod = c1.times(rho);
    proof {
        lemma_order_positive();
        lemma_sub_mod_noop_right(u1@, c1@ * rho@, ed_order());
    }
    u1.minus(prod)
}

/// The secret vector and its commitment randomness recovered from two transcripts.
#[derive(Clone, Debug)]
pub struct ExtractedWitness {
    pub message: Vec<EdScalar>,
    pub randomness: EdScalar,
}

/// Recovers the committed vector and its commitment randomness from the
/// responses `(s1, u1)` to challenge `c1` and `(s2, u2)` to challenge `c2`.
/// Fails exactly when `c1 == 2 * c2` in the field; otherwise, whenever the
/// responses are those of the flawed prover, its secrets come back exactly.
pub fn extract(
    s1: &Vec<EdScalar>,
    s2: &Vec<EdScalar>,
    u1: EdScalar,
    u2: EdScalar,
    c1: EdScalar,
    c2: EdScalar,
) -> (r: Result<ExtractedWitness, ExtractionError>)
    requires
        s1.len() == s2.len(),
        all_wf(s1@),
        all_wf(s2@),
        u1.wf(),
        u2.wf(),
        c1.wf(),
        c2.wf(),
    ensures
        r is Err <==> degenerate(c1@, c2@),
        r matches Err(e) ==> e == ExtractionError::DegenerateChallengePair,
        r matches Ok(w) ==> {
            &&& w.message.len() == s1.len()
            &&& all_wf(w.message@)
            &&& w.randomness.wf()
            &&& forall|i: int|
                0 <= i < s1.len() ==> #[trigger] w.message[i]@ == solved_secret(
                    s1[i]@,
                    c1@,
                    solved_random(s1[i]@, s2[i]@, c1@, c2@),
                )
            &&& w.randomness@ == solved_secret(u1@, c1@, solved_random(u1@, u2@, c1@, c2@))
        },
        r matches Ok(w) ==> forall|i: int, x: int, y: int|
            0 <= i < s1.len() && 0 <= x < ed_order() && 0 <= y < ed_order()
                && #[trigger] flawed_responses(s1[i]@, s2[i]@, c1@, c2@, x, y) ==> w.message[i]@
                == x,
        r matches Ok(w) ==> forall|x: int, y: int|
            0 <= x < ed_order() && 0 <= y < ed_order() && #[trigger] flawed_responses(
                u1@,
                u2@,
                c1@,
                c2@,
                x,
                y,
            ) ==> w.randomness@ == x,
{
    let r = match solve_for_r(s1, s2, c1, c2) {
        Ok(r) => r,
        Err(e) => {
            return Err(e);
        },
    };
    let message = solve_for_a(s1, c1, &r);
    let rho = match solve_for_rho(u1, u2, c1, c2) {
        Ok(rho) => rho,
        Err(e) => {
            return Err(e);
        },
    };
    let randomness = solve_for_alpha(u1, c1, rho);
    let ghost inv = inv_mod(divisor(c1@, c2@), ed_order());
    assert forall|i: int, x: int, y: int|
        0 <= i < s1.len() && 0 <= x < ed_order() && 0 <= y < ed_order()
            && #[trigger] flawed_responses(s1[i]@, s2[i]@, c1@, c2@, x, y) implies message[i]@
        == x by {
        lemma_solve_round_trip(s1[i]@, s2[i]@, c1@, c2@, x, y, inv);
    }
    assert forall|x: int, y: int|
        0 <= x < ed_order() && 0 <= y < ed_order() && #[trigger] flawed_responses(
            u1@,
            u2@,
            c1@,
            c2@,
            x,
            y,
        ) implies randomness@ == x by {
        lemma_solve_round_trip(u1@, u2@, c1@, c2@, x, y, inv);
    }
    Ok(ExtractedWitness { message, randomness })
}

/// The key of the vector commitment: one generator per coordinate and one for
/// the randomness.
#[derive(Clone, Debug)]
pub struct VectorKey {
    pub generators: Vec<EdPoint>,
    pub hiding: EdPoint,
}

/// `r * hiding + sum_{i < n} a[i] * gens[i]`, accumulated from the randomness term.
pub open spec fn vector_commit_of(gens: Seq<EdPoint>, hiding: EdPoint, a: Seq<int>, r: int, n: nat) -> EdPoint
    decreases n,
{
    if n == 0 {
        ed_mul_of(hiding, r)
    } else {
        ed_add_of(vector_commit_of(gens, hiding, a, r, (n - 1) as nat), ed_mul_of(gens[n - 1], a[n - 1]))
    }
}

pub open spec fn scalar_values(s: Seq<EdScalar>) -> Seq<int> {
    s.map_values(|x: EdScalar| x@)
}

impl VectorKey {
    pub open spec fn wf(&self) -> bool {
        &&& self.hiding.wf()
        &&& forall|i: int| 0 <= i < self.generators.len() ==> #[trigger] self.generators[i].wf()
    }

    /// The commitment to all of `a` with randomness `r`.
    pub open spec fn commit_of(&self, a: Seq<int>, r: int) -> EdPoint {
        vector_commit_of(self.generators@, self.hiding, a, r, a.len())
    }

    /// Commits to the vector `a` with randomness `r`.
    pub fn commit_with_explicit_randomness(&self, a: &Vec<EdScalar>, r: EdScalar) -> (c: EdPoint)
        requires
            self.wf(),
            all_wf(a@),
            r.wf(),
            a.len() <= self.generators.len(),
        ensures
            c.wf(),
            c == self.commit_of(scalar_values(a@), r@),
    {
        let ghost av = scalar_values(a@);
        let mut acc = point_mul(self.hiding, r);
        let mut i: usize = 0;
        while i < a.len()
            invariant
                i <= a.len(),
                a.len() <= self.generators.len(),
                self.wf(),
                all_wf(a@),
                av == scalar_values(a@),
                acc.wf(),
                acc == vector_commit_of(self.generators@, self.hiding, av, r@, i as nat),
            decreases a.len() - i,
        {
            acc = point_add(acc, point_mul(self.generators[i], a[i]));
            i += 1;
        }
        acc
    }
}

/// The secret vector that extraction solves from two response vectors.
pub open spec fn extracted_message(s1: Seq<EdScalar>, s2: Seq<EdScalar>, c1: int, c2: int) -> Seq<int> {
    Seq::new(s1.len(), |i: int| solved_secret(s1[i]@, c1, solved_random(s1[i]@, s2[i]@, c1, c2)))
}

/// The commitment to the witness that extraction solves from two transcripts.
pub open spec fn recommitment(
    key: VectorKey,
    s1: Seq<EdScalar>,
    s2: Seq<EdScalar>,
    u1: int,
    u2: int,
    c1: int,
    c2: int,
) -> EdPoint {
    key.commit_of(
        extracted_message(s1, s2, c1, c2),
        solved_secret(u1, c1, solved_random(u1, u2, c1, c2)),
    )
}

/// Extracts the witness as `extract` does and checks that it opens both
/// instance commitments `comm_1` and `comm_2`.
pub fn extract_and_check(
    key: &VectorKey,
    s1: &Vec<EdScalar>,
    s2: &Vec<EdScalar>,
    u1: EdScalar,
    u2: EdScalar,
    c1: EdScalar,
    c2: EdScalar,
    comm_1: EdPoint,
    comm_2: EdPoint,
) -> (r: Result<ExtractedWitness, ExtractionError>)
    requires
        key.wf(),
        s1.len() == s2.len(),
        s1.len() <= key.generators.len(),
        all_wf(s1@),
        all_wf(s2@),
        u1.wf(),
        u2.wf(),
        c1.wf(),
        c2.wf(),
    ensures
        r matches Err(ExtractionError::DegenerateChallengePair) <==> degenerate(c1@, c2@),
        r matches Err(e) ==> e != ExtractionError::PreconditionViolation,
        r matches Ok(w) ==> {
            &&& w.message.len() == s1.len()
            &&& all_wf(w.message@)
            &&& w.randomness.wf()
            &&& forall|i: int|
                0 <= i < s1.len() ==> #[trigger] w.message[i]@ == solved_secret(
                    s1[i]@,
                    c1@,
                    solved_random(s1[i]@, s2[i]@, c1@, c2@),
                )
            &&& w.randomness@ == solved_secret(u1@, c1@, solved_random(u1@, u2@, c1@, c2@))
            &&& scalar_values(w.message@) == extracted_message(s1@, s2@, c1@, c2@)
            &&& key.commit_of(scalar_values(w.message@), w.randomness@) == comm_1
            &&& key.commit_of(scalar_values(w.message@), w.randomness@) == comm_2
        },
        !degenerate(c1@, c2@) ==> (r matches Err(ExtractionError::VerificationFailed) <==> (
        recommitment(*key, s1@, s2@, u1@, u2@, c1@, c2@) != comm_1 || recommitment(
            *key,
            s1@,
            s2@,
            u1@,
            u2@,
            c1@,
            c2@,
        ) != comm_2)),
{
    let w = match extract(s1, s2, u1, u2, c1, c2) {
        Ok(w) => w,
        Err(e) => {
            return Err(e);
        },
    };
    let c = key.commit_with_explicit_randomness(&w.message, w.randomness);
    assert(scalar_values(w.message@) =~= extracted_message(s1@, s2@, c1@, c2@));
    if c == comm_1 && c == comm_2 {
        Ok(w)
    } else {
        Err(ExtractionError::VerificationFailed)
    }
}

/// One transcript of the vector protocol: the instance commitment `comm_a`
/// to the secret vector, the prover's first message `comm_r`, and the
/// responses `s` (for the vector) and `u` (for the commitment randomness).
#[derive(Clone, Debug)]
pub struct VectorTranscript {
    pub comm_a: EdPoint,
    pub comm_r: EdPoint,
    pub s: Vec<EdScalar>,
    pub u: EdScalar,
}

impl VectorTranscript {
    pub open spec fn wf(&self) -> bool {
        self.comm_a.wf() && self.comm_r.wf() && all_wf(self.s@) && self.u.wf()
    }
}

/// The Fiat-Shamir challenge of the vector protocol: the BLAKE2s digest of the
/// serialized key, instance commitment and first message, read little-endian
/// and reduced modulo the order.
pub open spec fn vector_challenge_of(key: VectorKey, comm_a: EdPoint, comm_r: EdPoint) -> int {
    le_value(blake2s_of(encoding_of(key.generators@ + seq![key.hiding, comm_a, comm_r])))
        % ed_order()
}

/// Derives the challenge of one transcript of the vector protocol.
pub fn vector_challenge(key: &VectorKey, comm_a: EdPoint, comm_r: EdPoint) -> (c: EdScalar)
    requires
        key.wf(),
        comm_a.wf(),
        comm_r.wf(),
    ensures
        c.wf(),
        c@ == vector_challenge_of(*key, comm_a, comm_r),
{
    let mut points = key.generators.clone();
    proof {
        assert(points@ =~= key.generators@);
    }
    points.push(key.hiding);
    points.push(comm_a);
    points.push(comm_r);
    proof {
        assert(points@ =~= key.generators@ + seq![key.hiding, comm_a, comm_r]);
    }
    let bytes = encode_points(&points);
    let digest = blake2s(&bytes);
    scalar_from_le_bytes(&digest)
}

/// Recomputes both transcripts' challenges, extracts the witness, and checks
/// that it opens both instance commitments.
pub fn extract_from_transcripts(key: &VectorKey, t1: &VectorTranscript, t2: &VectorTranscript) -> (r:
    Result<ExtractedWitness, ExtractionError>)
    requires
        key.wf(),
        t1.wf(),
        t2.wf(),
        t1.s.len() == t2.s.len(),
        t1.s.len() <= key.generators.len(),
    ensures
        ({
            let c1 = vector_challenge_of(*key, t1.comm_a, t1.comm_r);
            let c2 = vector_challenge_of(*key, t2.comm_a, t2.comm_r);
            &&& (r matches Err(ExtractionError::DegenerateChallengePair) <==> degenerate(c1, c2))
            &&& (r matches Err(e) ==> e != ExtractionError::PreconditionViolation)
            &&& (r matches Ok(w) ==> {
                &&& all_wf(w.message@)
                &&& w.randomness.wf()
                &&& scalar_values(w.message@) == extracted_message(t1.s@, t2.s@, c1, c2)
                &&& w.randomness@ == solved_secret(t1.u@, c1, solved_random(t1.u@, t2.u@, c1, c2))
                &&& key.commit_of(scalar_values(w.message@), w.randomness@) == t1.comm_a
                &&& key.commit_of(scalar_values(w.message@), w.randomness@) == t2.comm_a
            })
            &&& (!degenerate(c1, c2) ==> (r matches Err(ExtractionError::VerificationFailed) <==> (
            recommitment(*key, t1.s@, t2.s@, t1.u@, t2.u@, c1, c2) != t1.comm_a || recommitment(
                *key,
                t1.s@,
                t2.s@,
                t1.u@,
                t2.u@,
                c1,
                c2,
            ) != t2.comm_a)))
        }),
{
    let c1 = vector_challenge(key, t1.comm_a, t1.comm_r);
    let c2 = vector_challenge(key, t2.comm_a, t2.comm_r);
    extract_and_check(key, &t1.s, &t2.s, t1.u, t2.u, c1, c2, t1.comm_a, t2.comm_a)
}

} // verus!

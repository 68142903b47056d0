//! Integer model of prime-field elements and congruence lemmas.
use vstd::arithmetic::div_mod::*;
use vstd::prelude::*;

verus! {

/// Radix of one limb.
pub open spec fn limb_base() -> int {
    0x1_0000_0000_0000_0000
}

/// The integer held by four little-endian 64-bit limbs.
pub open spec fn limbs_value(l: [u64; 4]) -> int {
    ((l[3] as int * limb_base() + l[2] as int) * limb_base() + l[1] as int) * limb_base()
        + l[0] as int
}

/// The integer held by six little-endian 64-bit limbs.
pub open spec fn limbs6_value(l: [u64; 6]) -> int {
    ((((l[5] as int * limb_base() + l[4] as int) * limb_base() + l[3] as int) * limb_base()
        + l[2] as int) * limb_base() + l[1] as int) * limb_base() + l[0] as int
}

/// The multiplicative inverse of `x` modulo `m`, where one exists (it is unique
/// in `[0, m)` when `m` is prime).
pub open spec fn inv_mod(x: int, m: int) -> int {
    choose|y: int| 0 <= y < m && #[trigger] ((x * y) % m) == 1
}

pub proof fn lemma_mul_cong(a: int, b: int, c: int, m: int)
    requires
        m > 0,
        a % m == b % m,
    ensures
        (a * c) % m == (b * c) % m,
{
    lemma_mul_mod_noop_left(a, c, m);
    lemma_mul_mod_noop_left(b, c, m);
}

pub proof fn lemma_add_cong(a: int, b: int, c: int, d: int, m: int)
    requires
        m > 0,
        a % m == b % m,
        c % m == d % m,
    ensures
        (a + c) % m == (b + d) % m,
{
    lemma_add_mod_noop(a, c, m);
    lemma_add_mod_noop(b, d, m);
}

pub proof fn lemma_sub_cong(a: int, b: int, c: int, d: int, m: int)
    requires
        m > 0,
        a % m == b % m,
        c % m == d % m,
    ensures
        (a - c) % m == (b - d) % m,
{
    lemma_sub_mod_noop(a, c, m);
    lemma_sub_mod_noop(b, d, m);
}

pub proof fn lemma_mod_idem(a: int, m: int)
    requires
        m > 0,
    ensures
        (a % m) % m == a % m,
        0 <= a % m < m,
{
    lemma_mod_twice(a, m);
    lemma_mod_bound(a, m);
}

/// Two canonical representatives of one residue class are equal.
pub proof fn lemma_canonical(a: int, b: int, m: int)
    requires
        0 <= a < m,
        0 <= b < m,
        a % m == b % m,
    ensures
        a == b,
{
    lemma_small_mod(a as nat, m as nat);
    lemma_small_mod(b as nat, m as nat);
}

/// Multiplying by `x` and then by an inverse of `x` gives back `y`.
pub proof fn lemma_cancel(y: int, x: int, inv: int, m: int)
    requires
        m > 0,
        (x * inv) % m == 1,
    ensures
        (y * x * inv) % m == y % m,
{
    assert(y * x * inv == y * (x * inv)) by (nonlinear_arith);
    lemma_mul_mod_noop_right(y, x * inv, m);
}

/// Dividing by `b` and multiplying back gives the residue of `a`.
pub proof fn lemma_div_mul(a: int, b: int, m: int)
    requires
        m > 0,
        (b * inv_mod(b, m)) % m == 1,
    ensures
        ((a * inv_mod(b, m)) % m * b) % m == a % m,
{
    let i = inv_mod(b, m);
    lemma_mul_mod_noop_left(a * i, b, m);
    assert(a * i * b == a * b * i) by (nonlinear_arith);
    assert((b * i) % m == 1);
    lemma_cancel(a, b, i, m);
}

} // verus!

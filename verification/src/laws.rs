//! The field laws of GF(2^8), stated over the model and proved.

use vstd::prelude::*;

verus! {

use crate::model::{gf_add, gf_inverse, gf_mul, inverse_fold, inverse_step, mask, xtime};

/// Every element is its own additive inverse: `a + a = 0`.
pub proof fn lemma_add_self_zero(a: u8)
    by (bit_vector)
    ensures
        gf_add(a, a) == 0,
{
}

/// 0 is the additive identity: `a + 0 = a`.
pub proof fn lemma_add_identity(a: u8)
    by (bit_vector)
    ensures
        gf_add(a, 0) == a,
        gf_add(0, a) == a,
{
}

/// Addition is commutative.
pub proof fn lemma_add_comm(a: u8, b: u8)
    by (bit_vector)
    ensures
        gf_add(a, b) == gf_add(b, a),
{
}

/// Addition is associative.
pub proof fn lemma_add_assoc(a: u8, b: u8, c: u8)
    by (bit_vector)
    ensures
        gf_add(gf_add(a, b), c) == gf_add(a, gf_add(b, c)),
{
}

/// 1 is the multiplicative identity and 0 absorbs multiplication.
pub proof fn lemma_mul_identity_absorb(a: u8)
    by (bit_vector)
    ensures
        gf_mul(a, 1) == a,
        gf_mul(1, a) == a,
        gf_mul(a, 0) == 0,
        gf_mul(0, a) == 0,
{
}

/// Multiplication is commutative.
pub proof fn lemma_mul_comm(a: u8, b: u8)
    by (bit_vector)
    ensures
        gf_mul(a, b) == gf_mul(b, a),
{
}

/// Multiplication distributes over addition.
pub proof fn lemma_mul_distributive(a: u8, b: u8, c: u8)
    by (bit_vector)
    ensures
        gf_mul(a, gf_add(b, c)) == gf_add(gf_mul(a, b), gf_mul(a, c)),
{
}

/// A product can be computed one bit of the right operand at a time: the low
/// bit selects the left operand, and the rest is a product with the left
/// operand stepped once by `xtime`.
pub(crate) proof fn lemma_mul_unfold(m: u8, c: u8)
    by (bit_vector)
    ensures
        gf_mul(m, c) == (if c & 1 == 1 {
            m
        } else {
            0
        }) ^ gf_mul(xtime(m), c >> 1),
{
}

/// Stepping a product by `xtime` is the same as stepping its right operand.
pub(crate) proof fn lemma_xtime_mul(a: u8, b: u8)
    by (bit_vector)
    ensures
        xtime(gf_mul(a, b)) == gf_mul(a, xtime(b)),
{
}

/// One round of the shift-and-reduce multiplication loop: adding the
/// masked left operand into the accumulator and stepping both operands
/// leaves the overall product unchanged.
pub(crate) proof fn lemma_mul_step(p: u8, a: u8, b: u8)
    by (bit_vector)
    ensures
        (p ^ (mask(b & 1) & a)) ^ gf_mul((a << 1) ^ (mask(((a >> 7) & 1) & 1) & 0x1b), b >> 1)
            == p ^ gf_mul(a, b),
{
}

/// Multiplication is associative, by induction over the bits of `c`.
pub proof fn lemma_mul_assoc(a: u8, b: u8, c: u8)
    ensures
        gf_mul(gf_mul(a, b), c) == gf_mul(a, gf_mul(b, c)),
    decreases c,
{
    if c == 0 {
        lemma_mul_identity_absorb(gf_mul(a, b));
        lemma_mul_identity_absorb(a);
        lemma_mul_identity_absorb(b);
    } else {
        assert(c >> 1 < c) by (bit_vector)
            requires
                c != 0,
        ;
        lemma_mul_assoc(a, xtime(b), c >> 1);
        lemma_mul_unfold(gf_mul(a, b), c);
        lemma_xtime_mul(a, b);
        lemma_mul_unfold(b, c);
        let sel: u8 = if c & 1 == 1 {
            b
        } else {
            0
        };
        lemma_mul_distributive(a, sel, gf_mul(xtime(b), c >> 1));
        if c & 1 != 1 {
            lemma_mul_identity_absorb(a);
        }
        assert(gf_mul(gf_mul(a, b), c) == (if c & 1 == 1 {
            gf_mul(a, b)
        } else {
            0
        }) ^ gf_mul(a, gf_mul(xtime(b), c >> 1)));
        assert(gf_mul(a, gf_add(sel, gf_mul(xtime(b), c >> 1)))
            == gf_add(gf_mul(a, sel), gf_mul(a, gf_mul(xtime(b), c >> 1))));
        assert(gf_mul(b, c) == gf_add(sel, gf_mul(xtime(b), c >> 1)));
    }
}

/// A nonzero element multiplied by its 254th power gives 1: Fermat's little
/// theorem in the 255-element multiplicative group of GF(2^8), here for the
/// lower half of the range. The powers of `a` along the square-and-multiply
/// chain for 254 are passed in as values, each pinned to one product, so the
/// solver sees each product once; the two halves keep each query within the
/// solver's budget.
#[verifier::rlimit(100)]
pub(crate) proof fn lemma_pow_chain_low(
    a: u8,
    a2: u8,
    a3: u8,
    a6: u8,
    a7: u8,
    a14: u8,
    a15: u8,
    a30: u8,
    a31: u8,
    a62: u8,
    a63: u8,
    a126: u8,
    a127: u8,
    a254: u8,
)
    by (bit_vector)
    requires
        a != 0,
        a < 0x80,
        a2 == gf_mul(a, a),
        a3 == gf_mul(a2, a),
        a6 == gf_mul(a3, a3),
        a7 == gf_mul(a6, a),
        a14 == gf_mul(a7, a7),
        a15 == gf_mul(a14, a),
        a30 == gf_mul(a15, a15),
        a31 == gf_mul(a30, a),
        a62 == gf_mul(a31, a31),
        a63 == gf_mul(a62, a),
        a126 == gf_mul(a63, a63),
        a127 == gf_mul(a126, a),
        a254 == gf_mul(a127, a127),
    ensures
        gf_mul(a, a254) == 1,
{
}

/// Fermat's little theorem for the range 0x80 to 0xBF: see
/// `lemma_pow_chain_low`.
#[verifier::rlimit(100)]
pub(crate) proof fn lemma_pow_chain_mid(
    a: u8,
    a2: u8,
    a3: u8,
    a6: u8,
    a7: u8,
    a14: u8,
    a15: u8,
    a30: u8,
    a31: u8,
    a62: u8,
    a63: u8,
    a126: u8,
    a127: u8,
    a254: u8,
)
    by (bit_vector)
    requires
        a != 0,
        0x80 <= a < 0xC0,
        a2 == gf_mul(a, a),
        a3 == gf_mul(a2, a),
        a6 == gf_mul(a3, a3),
        a7 == gf_mul(a6, a),
        a14 == gf_mul(a7, a7),
        a15 == gf_mul(a14, a),
        a30 == gf_mul(a15, a15),
        a31 == gf_mul(a30, a),
        a62 == gf_mul(a31, a31),
        a63 == gf_mul(a62, a),
        a126 == gf_mul(a63, a63),
        a127 == gf_mul(a126, a),
        a254 == gf_mul(a127, a127),
    ensures
        gf_mul(a, a254) == 1,
{
}

/// Fermat's little theorem for the range 0xC0 to 0xFF: see
/// `lemma_pow_chain_low`.
#[verifier::rlimit(100)]
pub(crate) proof fn lemma_pow_chain_high(
    a: u8,
    a2: u8,
    a3: u8,
    a6: u8,
    a7: u8,
    a14: u8,
    a15: u8,
    a30: u8,
    a31: u8,
    a62: u8,
    a63: u8,
    a126: u8,
    a127: u8,
    a254: u8,
)
    by (bit_vector)
    requires
        a != 0,
        a >= 0xC0,
        a2 == gf_mul(a, a),
        a3 == gf_mul(a2, a),
        a6 == gf_mul(a3, a3),
        a7 == gf_mul(a6, a),
        a14 == gf_mul(a7, a7),
        a15 == gf_mul(a14, a),
        a30 == gf_mul(a15, a15),
        a31 == gf_mul(a30, a),
        a62 == gf_mul(a31, a31),
        a63 == gf_mul(a62, a),
        a126 == gf_mul(a63, a63),
        a127 == gf_mul(a126, a),
        a254 == gf_mul(a127, a127),
    ensures
        gf_mul(a, a254) == 1,
{
}

/// An element has at most one multiplicative inverse: by associativity and
/// commutativity, two of them must be equal.
pub proof fn lemma_inverse_unique(a: u8, y: u8, z: u8)
    requires
        gf_mul(a, y) == 1,
        gf_mul(a, z) == 1,
    ensures
        y == z,
{
    lemma_mul_assoc(y, a, z);
    lemma_mul_comm(y, a);
    lemma_mul_identity_absorb(z);
    lemma_mul_identity_absorb(y);
}

/// 0 has no inverse among the candidates, so the search over any prefix of
/// them accumulates 0.
proof fn lemma_fold_zero(n: int)
    requires
        0 <= n <= 256,
    ensures
        inverse_fold(0, n) == 0,
    decreases n,
{
    if n > 0 {
        lemma_fold_zero(n - 1);
        lemma_mul_identity_absorb((n - 1) as u8);
        lemma_add_identity(0);
    }
}

/// For nonzero `a` with inverse `w`, the search over the candidates below `n`
/// has accumulated exactly `w` once it has passed it, and nothing before.
proof fn lemma_fold_tracks(a: u8, w: u8, n: int)
    requires
        a != 0,
        gf_mul(a, w) == 1,
        0 <= n <= 256,
    ensures
        inverse_fold(a, n) == (if (w as int) < n {
            w
        } else {
            0
        }),
    decreases n,
{
    if n > 0 {
        lemma_fold_tracks(a, w, n - 1);
        let x: u8 = (n - 1) as u8;
        if gf_mul(a, x) == 1 {
            lemma_inverse_unique(a, x, w);
            lemma_add_identity(w);
        } else {
            lemma_add_identity(inverse_fold(a, n - 1));
        }
    }
}

/// Scanning all 256 candidates accumulates exactly the inverse: for nonzero
/// `a` the accumulated value multiplies with `a` to 1, and for `a = 0`, where
/// no candidate can match, it stays 0.
pub proof fn lemma_inverse_round_trip(a: u8)
    ensures
        a != 0 ==> gf_mul(a, gf_inverse(a)) == 1,
        gf_inverse(0) == 0,
{
    lemma_fold_zero(256);
    if a != 0 {
        let a2: u8 = gf_mul(a, a);
        let a3: u8 = gf_mul(a2, a);
        let a6: u8 = gf_mul(a3, a3);
        let a7: u8 = gf_mul(a6, a);
        let a14: u8 = gf_mul(a7, a7);
        let a15: u8 = gf_mul(a14, a);
        let a30: u8 = gf_mul(a15, a15);
        let a31: u8 = gf_mul(a30, a);
        let a62: u8 = gf_mul(a31, a31);
        let a63: u8 = gf_mul(a62, a);
        let a126: u8 = gf_mul(a63, a63);
        let a127: u8 = gf_mul(a126, a);
        let a254: u8 = gf_mul(a127, a127);
        if a < 0x80 {
            lemma_pow_chain_low(a, a2, a3, a6, a7, a14, a15, a30, a31, a62, a63, a126, a127, a254);
        } else if a < 0xC0 {
            lemma_pow_chain_mid(a, a2, a3, a6, a7, a14, a15, a30, a31, a62, a63, a126, a127, a254);
        } else {
            lemma_pow_chain_high(a, a2, a3, a6, a7, a14, a15, a30, a31, a62, a63, a126, a127, a254);
        }
        lemma_fold_tracks(a, a254, 256);
    }
}

/// The branch-free selection at the heart of the inverse search: OR all bits
/// of `m XOR 1` into the low bit, widen it to a full mask, and AND its
/// negation with the candidate. The candidate survives exactly when `m = 1`.
pub(crate) proof fn lemma_inverse_select(x: u8, m: u8)
    by (bit_vector)
    ensures
        (!mask(
            (m ^ 1) | ((m ^ 1) >> 1) | ((m ^ 1) >> 2) | ((m ^ 1) >> 3) | ((m ^ 1) >> 4) | ((m
                ^ 1) >> 5) | ((m ^ 1) >> 6) | ((m ^ 1) >> 7),
        ) & x) == (if m == 1 {
            x
        } else {
            0
        }),
{
}

} // verus!

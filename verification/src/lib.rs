//! Arithmetic on the finite field GF(2^8), the field of bytes used by AES,
//! carried out without data-dependent branches or table lookups, so that the
//! running time of every operation is independent of the operand values.
//!
//! Multiplication reduces modulo the irreducible polynomial
//! `x^8 + x^4 + x^3 + x + 1`. Every conditional the algorithms would
//! naturally contain is replaced by an AND with a full-width bit mask.

use vstd::prelude::*;

pub mod laws;
pub mod model;

verus! {

use crate::laws::{lemma_inverse_round_trip, lemma_inverse_select, lemma_mul_identity_absorb, lemma_mul_step};
use crate::model::{gf_add, gf_inverse, gf_mul, inverse_fold, inverse_step, mask};

/// An element of GF(2^8), wrapped around a `u8`: every byte value is a valid
/// element, so no construction can fail.
#[derive(Copy, Clone, Ord, PartialOrd, Eq, PartialEq, Debug, Hash, Structural)]
pub struct GF(pub u8);

/// Extend the rightmost bit of `input` to all other bits of the byte, by
/// sign-extending shifts alone: no branch and no table, so the time taken
/// does not depend on `input`.
pub fn extend_bit(input: u8) -> (r: u8)
    ensures
        r == mask(input),
{
    let r: u8 = (((input as i8) << 7) >> 7) as u8;
    proof {
        assert(r == (if input & 1 == 1 {
            0xFFu8
        } else {
            0x00u8
        })) by (bit_vector)
            requires
                r == ((((input as i8) << 7) >> 7) as u8),
        ;
    }
    r
}

impl GF {
    /// Addition in GF(2^8): coefficient-wise addition of polynomials over
    /// GF(2), a single XOR.
    pub fn add(self, rhs: Self) -> (r: Self)
        ensures
            r.0 == gf_add(self.0, rhs.0),
    {
        GF(self.0 ^ rhs.0)
    }

    /// Addition, assigned in place.
    pub fn add_assign(&mut self, rhs: Self)
        ensures
            final(self).0 == gf_add(old(self).0, rhs.0),
    {
        *self = self.add(rhs);
    }

    /// Subtraction in GF(2^8). In characteristic 2 every element is its own
    /// additive inverse, so subtraction is the same XOR as addition.
    pub fn sub(self, rhs: Self) -> (r: Self)
        ensures
            r.0 == gf_add(self.0, rhs.0),
    {
        self.add(rhs)
    }

    /// Subtraction, assigned in place.
    pub fn sub_assign(&mut self, rhs: Self)
        ensures
            final(self).0 == gf_add(old(self).0, rhs.0),
    {
        self.add_assign(rhs);
    }

    /// Multiplication in GF(2^8), modulo the AES irreducible polynomial
    /// `x^8 + x^4 + x^3 + x + 1`.
    ///
    /// The loop always runs exactly 8 rounds, and each round performs the
    /// same fixed sequence of shifts, masks and XORs: the conditional "add
    /// `a` into the product" and the conditional reduction are both carried
    /// out by ANDing with a mask, never by branching on operand bits.
    pub fn mul(self, rhs: Self) -> (r: Self)
        ensures
            r.0 == gf_mul(self.0, rhs.0),
    {
        let mut a: u8 = self.0;
        let mut b: u8 = rhs.0;
        let mut p: u8 = 0;
        let ghost a0 = a;
        let ghost b0 = b;
        let mut i: usize = 0;
        proof {
            assert(b0 >> 0usize == b0) by (bit_vector);
            assert(0u8 ^ gf_mul(a0, b0) == gf_mul(a0, b0)) by (bit_vector);
        }
        while i < 8
            invariant
                i <= 8,
                b == b0 >> i,
                gf_mul(a0, b0) == p ^ gf_mul(a, b),
            decreases 8 - i,
        {
            proof {
                lemma_mul_step(p, a, b);
                assert((b0 >> i) >> 1 == b0 >> (i + 1)) by (bit_vector)
                    requires
                        i < 8usize,
                ;
            }
            p = p ^ (extend_bit(b & 1) & a);
            b = b >> 1;
            let carry: u8 = (a >> 7) & 1;
            a = a << 1;
            a = a ^ (extend_bit(carry & 1) & 0x1b);
            i = i + 1;
        }
        proof {
            assert(b0 >> 8usize == 0) by (bit_vector);
            lemma_mul_identity_absorb(a);
            assert(p ^ 0u8 == p) by (bit_vector);
        }
        GF(p)
    }

    /// The multiplicative inverse: the element whose product with `self`
    /// is `GF(1)`, or `GF(0)` for `GF(0)`, which has no inverse.
    ///
    /// All 256 candidates are tried, and the one that works is kept by a
    /// branch-free masked XOR: the scan never exits early, deliberately
    /// trading speed for a cost that is the same for every input.
    pub fn multiplicative_inverse(self) -> (r: Self)
        ensures
            r.0 == gf_inverse(self.0),
            self.0 != 0 ==> gf_mul(self.0, r.0) == 1,
            self.0 == 0 ==> r.0 == 0,
    {
        let mut p: u8 = 0;
        let mut xi: usize = 0;
        while xi < 256
            invariant
                xi <= 256,
                p == inverse_fold(self.0, xi as int),
            decreases 256 - xi,
        {
            let x: u8 = xi as u8;
            let t: u8 = self.mul(GF(x)).0;
            let y: u8 = t ^ 1;
            let or: u8 = y | y >> 1 | y >> 2 | y >> 3 | y >> 4 | y >> 5 | y >> 6 | y >> 7;
            proof {
                lemma_inverse_select(x, t);
                assert(inverse_fold(self.0, xi as int + 1) == inverse_fold(self.0, xi as int)
                    ^ inverse_step(self.0, x));
            }
            p = p ^ (!extend_bit(or) & x);
            xi = xi + 1;
        }
        proof {
            lemma_inverse_round_trip(self.0);
        }
        GF(p)
    }

    /// Multiplication, assigned in place.
    pub fn mul_assign(&mut self, rhs: Self)
        ensures
            final(self).0 == gf_mul(old(self).0, rhs.0),
    {
        *self = self.mul(rhs);
    }
}

impl From<u8> for GF {
    /// Every byte is an element of the field, so conversion never fails.
    fn from(x: u8) -> (r: Self) {
        GF(x)
    }
}

impl vstd::std_specs::convert::FromSpecImpl<u8> for GF {
    open spec fn obeys_from_spec() -> bool {
        true
    }

    open spec fn from_spec(x: u8) -> Self {
        GF(x)
    }
}

} // verus!

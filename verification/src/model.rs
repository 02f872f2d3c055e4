//! Mathematical model of arithmetic in GF(2^8).
//!
//! A field element is a byte: bit `i` is the coefficient of `x^i` in a
//! polynomial of degree at most 7 over GF(2). The modulus for multiplication
//! is the AES polynomial `x^8 + x^4 + x^3 + x + 1` (`0x11B`).

use vstd::prelude::*;

verus! {

/// The byte a branch-free mask of a single bit must produce: all ones when
/// the low bit of `x` is set, all zeros otherwise.
pub open spec fn mask(x: u8) -> u8 {
    if x & 1 == 1 {
        0xFF
    } else {
        0x00
    }
}

/// Multiplication by the polynomial `x` modulo `x^8 + x^4 + x^3 + x + 1`:
/// shift left by one, and when the degree-7 coefficient was set, subtract the
/// modulus, whose low byte is `0x1B`.
pub open spec fn xtime(a: u8) -> u8 {
    (a << 1) ^ (if a >> 7 == 1 {
        0x1B
    } else {
        0x00
    })
}

/// Addition in GF(2^8): coefficient-wise addition over GF(2), an XOR.
pub open spec fn gf_add(a: u8, b: u8) -> u8 {
    a ^ b
}

/// Multiplication in GF(2^8): the sum over the set bits `i` of `b` of
/// `a * x^i`, each power reduced modulo the AES polynomial as it is formed.
pub open spec fn gf_mul(a: u8, b: u8) -> u8 {
    let a1 = xtime(a);
    let a2 = xtime(a1);
    let a3 = xtime(a2);
    let a4 = xtime(a3);
    let a5 = xtime(a4);
    let a6 = xtime(a5);
    let a7 = xtime(a6);
    (if b & 0x01 != 0 {
        a
    } else {
        0
    }) ^ (if b & 0x02 != 0 {
        a1
    } else {
        0
    }) ^ (if b & 0x04 != 0 {
        a2
    } else {
        0
    }) ^ (if b & 0x08 != 0 {
        a3
    } else {
        0
    }) ^ (if b & 0x10 != 0 {
        a4
    } else {
        0
    }) ^ (if b & 0x20 != 0 {
        a5
    } else {
        0
    }) ^ (if b & 0x40 != 0 {
        a6
    } else {
        0
    }) ^ (if b & 0x80 != 0 {
        a7
    } else {
        0
    })
}

/// What candidate `x` contributes to the inverse search: itself exactly when
/// `a * x = 1`, nothing otherwise.
pub open spec fn inverse_step(a: u8, x: u8) -> u8 {
    if gf_mul(a, x) == 1 {
        x
    } else {
        0
    }
}

/// XOR of the contributions of all candidates below `n`. Over the full range
/// of 256 candidates this picks out the one inverse of `a`, or 0 for `a = 0`.
pub open spec fn inverse_fold(a: u8, n: int) -> u8
    decreases n,
{
    if n <= 0 {
        0
    } else {
        inverse_fold(a, n - 1) ^ inverse_step(a, (n - 1) as u8)
    }
}

/// The multiplicative inverse of `a`: the single candidate whose product with
/// `a` is 1, and 0 when `a = 0`, which has no inverse.
pub open spec fn gf_inverse(a: u8) -> u8 {
    inverse_fold(a, 256)
}

} // verus!

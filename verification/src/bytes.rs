//! Byte-level helpers shared by the modules: big-endian fields and the
//! arithmetic of fixed-size records.

use vstd::prelude::*;

verus! {

/// The big-endian 32-bit value of four bytes.
pub open spec fn be_u32(b0: u8, b1: u8, b2: u8, b3: u8) -> u32 {
    ((b0 as u32) << 24u32) | ((b1 as u32) << 16u32) | ((b2 as u32) << 8u32) | (b3 as u32)
}

/// The big-endian 24-bit value of three bytes.
pub open spec fn be_u24(b0: u8, b1: u8, b2: u8) -> u32 {
    ((b0 as u32) << 16u32) | ((b1 as u32) << 8u32) | (b2 as u32)
}

/// The four big-endian bytes of a 32-bit value.
pub open spec fn be32_bytes(x: u32) -> Seq<u8> {
    seq![(x >> 24u32) as u8, (x >> 16u32) as u8, (x >> 8u32) as u8, x as u8]
}

/// Reading back the big-endian bytes of a value gives the value.
pub proof fn lemma_be32_roundtrip(x: u32)
    ensures
        be_u32((x >> 24u32) as u8, (x >> 16u32) as u8, (x >> 8u32) as u8, x as u8) == x,
{
    assert(((((x >> 24u32) as u8) as u32) << 24u32) | ((((x >> 16u32) as u8) as u32) << 16u32) | ((((x
        >> 8u32) as u8) as u32) << 8u32) | (((x as u8) as u32)) == x) by (bit_vector);
}

/// The position `q * n + r` of a record of size `n` splits back into `q` and `r`.
pub proof fn lemma_record_pos(q: int, r: int, n: int)
    requires
        n > 0,
        0 <= r < n,
    ensures
        (q * n + r) / n == q,
        (q * n + r) % n == r,
{
    vstd::arithmetic::div_mod::lemma_fundamental_div_mod_converse_div(q * n + r, n, q, r);
    vstd::arithmetic::div_mod::lemma_fundamental_div_mod_converse_mod(q * n + r, n, q, r);
}

/// A position below `m * n` lies in one of the first `m` records of size `n`.
pub proof fn lemma_record_bounds(k: int, n: int, m: int)
    requires
        n > 0,
        0 <= k < m * n,
    ensures
        0 <= k / n < m,
        0 <= k % n < n,
        k == (k / n) * n + k % n,
{
    vstd::arithmetic::div_mod::lemma_fundamental_div_mod(k, n);
    vstd::arithmetic::div_mod::lemma_mod_bound(k, n);
    vstd::arithmetic::div_mod::lemma_div_pos_is_pos(k, n);
    vstd::arithmetic::mul::lemma_mul_is_commutative(n, k / n);
    let q = k / n;
    assert(q < m) by (nonlinear_arith)
        requires
            q * n <= k,
            k < m * n,
            n > 0,
    ;
}

} // verus!

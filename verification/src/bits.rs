//! Bit-level model of a 64-cell bitboard: single-bit tests and population
//! counts, with the lemmas the board logic needs.

use vstd::prelude::*;

verus! {

/// Bit `i` of `m` is set (cells are numbered 0..64).
pub open spec fn bit64(m: u64, i: u64) -> bool {
    i < 64 && m & (1u64 << i) != 0
}

/// Number of set bits of `m` among bit positions `[0, n)`.
pub open spec fn count_bits(m: u64, n: int) -> int
    decreases n,
{
    if n <= 0 {
        0
    } else {
        count_bits(m, n - 1) + if bit64(m, (n - 1) as u64) {
            1int
        } else {
            0int
        }
    }
}

pub proof fn lemma_count_nonneg(m: u64, n: int)
    ensures
        0 <= count_bits(m, n) <= if n <= 0 {
            0int
        } else {
            n
        },
    decreases n,
{
    if n > 0 {
        lemma_count_nonneg(m, n - 1);
    }
}

/// A disjoint union of masks has the sum of their counts.
pub proof fn lemma_count_disjoint_or(a: u64, b: u64, n: int)
    requires
        a & b == 0,
    ensures
        count_bits(a | b, n) == count_bits(a, n) + count_bits(b, n),
    decreases n,
{
    if n > 0 {
        lemma_count_disjoint_or(a, b, n - 1);
        let i = (n - 1) as u64;
        assert(a & b == 0 && i < 64 ==> ((a | b) & (1u64 << i) != 0 <==> (a & (1u64 << i) != 0
            || b & (1u64 << i) != 0)) && !(a & (1u64 << i) != 0 && b & (1u64 << i) != 0))
            by (bit_vector);
    }
}

/// A single-bit mask has exactly one set bit.
pub proof fn lemma_count_single(p: u64, n: int)
    requires
        p < 64,
        n <= 64,
    ensures
        count_bits(1u64 << p, n) == if p < n {
            1int
        } else {
            0int
        },
    decreases n,
{
    if n > 0 {
        lemma_count_single(p, n - 1);
        let i = (n - 1) as u64;
        assert(p < 64 && i < 64 ==> ((1u64 << p) & (1u64 << i) != 0 <==> i == p))
            by (bit_vector);
    }
}

/// Removing a submask `f` of `a` removes exactly `count_bits(f, n)` bits.
pub proof fn lemma_count_remove(a: u64, f: u64, n: int)
    requires
        a & f == f,
    ensures
        count_bits(a & !f, n) == count_bits(a, n) - count_bits(f, n),
{
    assert(a & f == f ==> ((a & !f) | f == a && (a & !f) & f == 0)) by (bit_vector);
    lemma_count_disjoint_or(a & !f, f, n);
}

pub proof fn lemma_or_zero(a: u64, b: u64)
    by (bit_vector)
    ensures
        a | b == 0 <==> a == 0 && b == 0,
{
}

pub proof fn lemma_shl_nonzero(p: u64)
    by (bit_vector)
    requires
        p < 64,
    ensures
        1u64 << p != 0,
{
}

/// A union of two submasks of `m` is again a submask of `m`.
pub proof fn lemma_subset_or(a: u64, b: u64, m: u64)
    by (bit_vector)
    requires
        a & m == a,
        b & m == b,
    ensures
        (a | b) & m == a | b,
{
}

/// A single bit that `m` contains is a submask of `m`.
pub proof fn lemma_single_subset(m: u64, i: u64)
    by (bit_vector)
    requires
        i < 64,
        m & (1u64 << i) != 0,
    ensures
        (1u64 << i) & m == 1u64 << i,
{
}

/// A nonzero mask has at least one set bit below 64.
pub proof fn lemma_nonzero_count(m: u64)
    by (bit_vector)
    ensures
        m != 0 ==> count_bits(m, 64) >= 1,
        count_bits(m, 64) == 0 ==> m == 0,
{
}

/// Population count of a 64-bit mask.
pub fn popcount64(m: u64) -> (c: u32)
    ensures
        c == count_bits(m, 64),
{
    let mut c: u32 = 0;
    let mut i: u64 = 0;
    while i < 64
        invariant
            i <= 64,
            c == count_bits(m, i as int),
        decreases 64 - i,
    {
        proof {
            lemma_count_nonneg(m, i as int);
        }
        if m & (1u64 << i) != 0 {
            c = c + 1;
        }
        i = i + 1;
    }
    c
}

} // verus!

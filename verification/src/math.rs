//! Word alignment, rounding division and powers of two.
use vstd::arithmetic::power2::{lemma2_to64, lemma_pow2_strictly_increases, lemma_pow2_unfold, pow2};
use vstd::bits::lemma_usize_shl_is_mul;
use vstd::prelude::*;

verus! {

/// Aligns an address to the nearest word below or equal to it.
pub fn align(addr: u32) -> (aligned: u32)
    ensures
        aligned == aligned_down(addr),
        aligned % 4 == 0,
        aligned <= addr < aligned + 4,
{
    addr - addr % 4
}

/// The address of the word that holds the byte at `addr`.
pub open spec fn aligned_down(addr: u32) -> u32 {
    (addr - addr % 4) as u32
}

/// `a / b`, rounded up.
pub open spec fn rounded_up_quotient(a: nat, b: nat) -> nat {
    if a % b == 0 {
        a / b
    } else {
        a / b + 1
    }
}

/// `r` is the least exponent of a power of two that is no smaller than `n`.
pub open spec fn is_ceil_log2(n: nat, r: nat) -> bool {
    &&& n <= pow2(r)
    &&& r > 0 ==> pow2((r - 1) as nat) < n
}

/// The least exponent of a power of two that is no smaller than `n`.
pub open spec fn ceil_log2(n: nat) -> nat {
    choose|r: nat| is_ceil_log2(n, r)
}

/// At most one exponent is the least one.
pub proof fn ceil_log2_unique(n: nat, r: nat)
    requires
        is_ceil_log2(n, r),
    ensures
        ceil_log2(n) == r,
{
    let s = ceil_log2(n);
    assert(is_ceil_log2(n, s));
    if s < r {
        if s < r - 1 {
            lemma_pow2_strictly_increases(s, (r - 1) as nat);
        }
    } else if r < s {
        if r < s - 1 {
            lemma_pow2_strictly_increases(r, (s - 1) as nat);
        }
    }
}

/// `num::Integer::div_ceil` on `usize`: the quotient, rounded up. A zero divisor makes it panic.
#[verifier::external_body]
pub(crate) fn integer_div_ceil(a: usize, b: usize) -> (q: usize)
    requires
        b != 0,
    ensures
        q == rounded_up_quotient(a as nat, b as nat),
{
    num::Integer::div_ceil(&a, &b)
}

/// `p3_util::log2_ceil_usize`: the least exponent of a power of two that is no smaller than `n`
/// (zero for `n` equal to zero).
#[verifier::external_body]
pub(crate) fn log2_ceil_usize(n: usize) -> (r: usize)
    ensures
        is_ceil_log2(n as nat, r as nat),
{
    p3_util::log2_ceil_usize(n)
}

/// `sp1_primitives::consts::BABYBEAR_PRIME`: the order of the field that traces are proved over.
#[verifier::external_body]
pub(crate) fn babybear_prime() -> (p: u32)
    ensures
        p == BABYBEAR_ORDER,
{
    sp1_primitives::consts::BABYBEAR_PRIME
}

/// The order of the field that traces are proved over, `2^31 - 2^27 + 1`.
pub const BABYBEAR_ORDER: u32 = 0x78000001;

/// Divides and rounds up.
pub fn div_ceil(a: usize, b: usize) -> (q: usize)
    requires
        b != 0,
    ensures
        q == rounded_up_quotient(a as nat, b as nat),
{
    let q: usize = a / b;
    if a % b == 0 {
        q
    } else {
        proof {
            assert(a / b <= a) by (nonlinear_arith)
                requires
                    b >= 1,
            ;
            assert(a / b < a) by (nonlinear_arith)
                requires
                    b >= 1,
                    a % b != 0,
            ;
        }
        q + 1
    }
}

/// Powers of two as shifts: `1 << k` is `2^k` for every exponent below the word size.
pub proof fn usize_shift_is_pow2(k: usize)
    requires
        k < usize::BITS,
    ensures
        1usize << k == pow2(k as nat),
        pow2(k as nat) <= usize::MAX,
{
    vstd::bits::lemma_usize_pow2_no_overflow(k as nat);
    lemma_usize_shl_is_mul(1, k);
}

/// Computes the least exponent of a power of two that is no smaller than `n`.
pub fn next_power_of_two_log2(n: usize) -> (r: usize)
    requires
        n <= usize::MAX / 2 + 1,
    ensures
        is_ceil_log2(n as nat, r as nat),
        r < usize::BITS,
{
    let mut r: usize = 0;
    let mut p: usize = 1;
    proof {
        lemma2_to64();
    }
    while p < n
        invariant
            p == pow2(r as nat),
            p >= 1,
            r > 0 ==> pow2((r - 1) as nat) < n,
            n <= usize::MAX / 2 + 1,
            r < p,
        decreases 2 * n - p,
    {
        proof {
            lemma_pow2_unfold((r + 1) as nat);
        }
        p = p * 2;
        r = r + 1;
    }
    proof {
        if r >= usize::BITS {
            lemma_pow2_usize_bits();
            if r > usize::BITS {
                lemma_pow2_strictly_increases(usize::BITS as nat, r as nat);
            }
        }
    }
    r
}

/// Two to the word size is one more than the greatest word.
pub proof fn lemma_pow2_usize_bits()
    ensures
        pow2(usize::BITS as nat) == usize::MAX + 1,
{
    lemma2_to64();
    assert(pow2(64) == 0x1_0000_0000_0000_0000);
}

} // verus!

//! Page arithmetic for host mappings and guest-physical allocations.

use vstd::arithmetic::div_mod::lemma_fundamental_div_mod;
use vstd::arithmetic::div_mod::lemma_fundamental_div_mod_converse;
use vstd::arithmetic::div_mod::lemma_mod_pos_bound;
use vstd::prelude::*;

verus! {

/// Granularity of host memory mappings.
pub const PAGE_SIZE: usize = 4096;

/// First byte of the page holding `a`, mathematically.
pub open spec fn spec_page_start(a: int) -> int {
    (a / (PAGE_SIZE as int)) * (PAGE_SIZE as int)
}

/// `a` rounded up to the next page boundary, mathematically.
pub open spec fn spec_page_align(a: int) -> int {
    spec_page_start(a + PAGE_SIZE - 1)
}

/// First byte of the page holding `a`.
pub fn page_start(a: usize) -> (r: usize)
    ensures
        r == spec_page_start(a as int),
        r <= a,
        r % PAGE_SIZE == 0,
{
    proof {
        lemma_fundamental_div_mod(a as int, 4096);
        lemma_mod_pos_bound(a as int, 4096);
        lemma_mul_mod_zero(a as int / 4096);
    }
    (a / PAGE_SIZE) * PAGE_SIZE
}

/// `a` rounded up to a page boundary.
pub fn page_align(a: usize) -> (r: usize)
    requires
        a + PAGE_SIZE <= usize::MAX,
    ensures
        r == spec_page_align(a as int),
        a <= r < a + PAGE_SIZE,
        r % PAGE_SIZE == 0,
{
    proof {
        let q = a as int / 4096;
        let m = a as int % 4096;
        lemma_fundamental_div_mod(a as int, 4096);
        lemma_mod_pos_bound(a as int, 4096);
        lemma_mul_mod_zero(q);
        lemma_mul_mod_zero(q + 1);
        if m == 0 {
            lemma_fundamental_div_mod_converse(a as int + 4095, 4096, q, 4095);
        } else {
            assert(a as int + 4095 == (q + 1) * 4096 + (m - 1)) by (nonlinear_arith)
                requires
                    a as int == 4096 * q + m,
            ;
            lemma_fundamental_div_mod_converse(a as int + 4095, 4096, q + 1, m - 1);
        }
    }
    if a % PAGE_SIZE == 0 {
        a
    } else {
        (a / PAGE_SIZE) * PAGE_SIZE + PAGE_SIZE
    }
}

/// Where a page's start and the rounded-up end lie, relative to the
/// address itself.
pub proof fn lemma_page_bounds(a: int)
    requires
        a >= 0,
    ensures
        0 <= spec_page_start(a) <= a,
        spec_page_start(a) % (PAGE_SIZE as int) == 0,
        a <= spec_page_align(a) < a + PAGE_SIZE,
{
    lemma_fundamental_div_mod(a, 4096);
    lemma_mod_pos_bound(a, 4096);
    lemma_mul_mod_zero(a / 4096);
    let b = a + 4095;
    lemma_fundamental_div_mod(b, 4096);
    lemma_mod_pos_bound(b, 4096);
    lemma_mul_mod_zero(b / 4096);
}

/// Rounding a positive multiple of the page size up changes nothing.
pub proof fn lemma_page_align_of_multiple(m: int)
    requires
        m >= 0,
        m % (PAGE_SIZE as int) == 0,
    ensures
        spec_page_align(m) == m,
{
    let k = m / 4096;
    lemma_fundamental_div_mod(m, 4096);
    lemma_mod_pos_bound(m, 4096);
    lemma_fundamental_div_mod_converse(m + 4095, 4096, k, 4095);
    lemma_mul_mod_zero(k);
}

/// A multiple of the page size stays one under division and multiplication.
proof fn lemma_mul_mod_zero(q: int)
    requires
        0 <= q,
    ensures
        (q * 4096) % 4096 == 0,
        (q * 4096) / 4096 == q,
{
    lemma_fundamental_div_mod_converse(q * 4096, 4096, q, 0);
}

} // verus!

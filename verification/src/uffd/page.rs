//! Pages and addresses.

use vstd::arithmetic::power::pow;
use vstd::arithmetic::power2::{is_pow2, is_pow2_equiv, pow2};
use vstd::prelude::*;

use super::laws::law_page_start;

verus! {

/// Size of a guest page frame in bytes.
pub const PAGE_SIZE: u64 = 4096;

/// The first address of the page of `page_size` bytes that an address lies in.
pub open spec fn page_start(addr: nat, page_size: nat) -> nat
    recommends
        page_size > 0,
{
    (addr - addr % page_size) as nat
}

/// Whether a number is a power of two.
pub fn is_power_of_two(n: usize) -> (yes: bool)
    ensures
        yes == is_pow2(n as int),
{
    proof {
        reveal(is_pow2);
    }
    if n == 0 {
        return false;
    }
    let mut m: usize = n;
    while m > 1 && m % 2 == 0
        invariant
            m > 0,
            is_pow2(m as int) == is_pow2(n as int),
        decreases m,
    {
        proof {
            reveal(is_pow2);
        }
        m = m / 2;
    }
    assert(is_pow2(m as int) == (m == 1));
    m == 1
}

/// Clears the low bits of an address, those below the page size, which is a power of two.
pub fn align_to_page(addr: u64, page_size: u64) -> (start: u64)
    requires
        is_pow2(page_size as int),
    ensures
        start == page_start(addr as nat, page_size as nat),
        start <= addr < start + page_size,
        start % page_size == 0,
{
    proof {
        is_pow2_equiv(page_size as int);
        reveal(is_pow2);
        let n = choose|n: nat| pow(2, n) == page_size as int;
        assert(pow2(n) == page_size);
        assert(n < 64) by {
            if n >= 64 {
                vstd::arithmetic::power2::lemma2_to64_rest();
                if n > 64 {
                    vstd::arithmetic::power2::lemma_pow2_strictly_increases(64, n);
                }
            }
        }
        let mask: u64 = (page_size - 1) as u64;
        assert(mask == vstd::bits::low_bits_mask(n));
        vstd::bits::lemma_u64_low_bits_mask_is_mod(addr, n);
        assert(addr & mask == addr % page_size);
        assert(addr & !mask == addr - (addr & mask)) by (bit_vector);
        law_page_start(addr as nat, page_size as nat);
    }
    addr & !(page_size - 1)
}

} // verus!

use vstd::arithmetic::div_mod::{lemma_fundamental_div_mod, lemma_mod_multiples_basic};
use vstd::prelude::*;

verus! {

/// The smallest multiple of `align` that is at least `size`.
pub open spec fn round_up(size: int, align: int) -> int
    recommends
        align > 0,
{
    if size % align == 0 {
        size
    } else {
        size + (align - size % align)
    }
}

/// The rounded size is the least multiple of `align` that is at least `size`.
pub proof fn lemma_round_up(size: int, align: int)
    requires
        size >= 0,
        align > 0,
    ensures
        size <= round_up(size, align) < size + align,
        round_up(size, align) % align == 0,
        size % align == 0 ==> round_up(size, align) == size,
{
    lemma_fundamental_div_mod(size, align);
    if size % align != 0 {
        let k = size / align + 1;
        assert(round_up(size, align) == k * align) by (nonlinear_arith)
            requires
                size == align * (size / align) + size % align,
                round_up(size, align) == size + (align - size % align),
                k == size / align + 1,
        ;
        lemma_mod_multiples_basic(k, align);
    }
}

/// Rounds `size` up to the next multiple of `align`.
pub fn round_to_align(size: usize, align: usize) -> (r: usize)
    requires
        align > 0,
        round_up(size as int, align as int) <= usize::MAX,
    ensures
        r == round_up(size as int, align as int),
        r >= size,
        r % align == 0,
        r - size < align,
{
    proof {
        lemma_round_up(size as int, align as int);
    }
    let rem = size % align;
    if rem == 0 {
        size
    } else {
        size + (align - rem)
    }
}

} // verus!

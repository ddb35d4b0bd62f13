//! Powers of two and alignment.

use vstd::prelude::*;

verus! {

pub open spec fn is_pow2(x: nat) -> bool
    decreases x,
{
    if x <= 1 {
        x == 1
    } else {
        x % 2 == 0 && is_pow2(x / 2)
    }
}

/// `x` rounded down to a multiple of `align`.
pub open spec fn align_down(x: int, align: int) -> int {
    x - x % align
}

/// `x` rounded up to a multiple of `align`.
pub open spec fn align_up(x: int, align: int) -> int {
    align_down(x + align - 1, align)
}

/// Whether `x` is a power of two.
pub fn is_power_of_two(x: usize) -> (r: bool)
    ensures
        r == is_pow2(x as nat),
{
    let mut a: usize = x;
    while a > 1 && a % 2 == 0
        invariant
            is_pow2(a as nat) == is_pow2(x as nat),
        decreases a,
    {
        a = a / 2;
    }
    a == 1
}

} // verus!

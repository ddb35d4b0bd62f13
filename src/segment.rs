//! The pages that a loadable ELF segment occupies once it is mapped.

use vstd::prelude::*;
use crate::num::{align_down, align_up};

verus! {

/// Relies on `memory_addr::align_down_4k`: `addr` with its low twelve bits
/// cleared, that is the greatest multiple of 4096 not above it.
pub assume_specification[ memory_addr::align_down_4k ](addr: usize) -> (r: usize)
    ensures
        r == align_down(addr as int, 4096),
;

/// Relies on `memory_addr::align_up_4k`: `(addr + 4095)` with its low twelve
/// bits cleared, that is the least multiple of 4096 not below `addr`. The
/// addition overflows beyond `usize::MAX`.
pub assume_specification[ memory_addr::align_up_4k ](addr: usize) -> (r: usize)
    requires
        addr + 4095 <= usize::MAX,
    ensures
        r == align_up(addr as int, 4096),
;

/// Relies on `memory_addr::align_offset_4k`: the low twelve bits of `addr`,
/// its offset within its 4 KiB page.
pub assume_specification[ memory_addr::align_offset_4k ](addr: usize) -> (r: usize)
    ensures
        r == addr % 4096,
;

/// Where a segment of `mem_size` bytes at virtual address `start_va` lands:
/// the 4 KiB pages that cover it, and its offset in the first page.
#[derive(Clone, Copy, Debug, PartialEq, Eq, Structural)]
pub struct SegmentLayout {
    pub start_va: usize,
    pub end_va: usize,
    pub start_aligned_va: usize,
    pub end_aligned_va: usize,
    pub offset: usize,
    pub num_pages: usize,
}

/// The page-aligned range, in-page offset and page count of a segment that
/// starts at `virtual_addr` and spans `mem_size` bytes; `None` when the
/// rounded-up end does not fit in the address space.
pub fn segment_layout(virtual_addr: usize, mem_size: usize) -> (r: Option<SegmentLayout>)
    ensures
        virtual_addr + mem_size + 4095 <= usize::MAX <==> r is Some,
        r is Some ==> ({
            let l = r->Some_0;
            let end = virtual_addr + mem_size;
            &&& l.start_va == virtual_addr
            &&& l.end_va == end
            &&& l.start_aligned_va == align_down(virtual_addr as int, 4096)
            &&& l.end_aligned_va == align_up(end, 4096)
            &&& l.offset == virtual_addr % 4096
            &&& l.num_pages == (align_up(end, 4096) - align_down(virtual_addr as int, 4096)) / 4096
            &&& l.start_aligned_va + l.offset == virtual_addr
            &&& l.start_aligned_va + 4096 * l.num_pages == l.end_aligned_va
        }),
{
    if virtual_addr > usize::MAX - 4095 || mem_size > usize::MAX - 4095 - virtual_addr {
        return None;
    }
    let start_va = virtual_addr;
    let end_va = virtual_addr + mem_size;
    let start_aligned_va = memory_addr::align_down_4k(start_va);
    let end_aligned_va = memory_addr::align_up_4k(end_va);
    let offset = memory_addr::align_offset_4k(start_va);
    proof {
        vstd::arithmetic::div_mod::lemma_fundamental_div_mod(start_va as int, 4096);
        vstd::arithmetic::div_mod::lemma_fundamental_div_mod(end_va + 4095, 4096);
        assert(align_down(start_va as int, 4096) == 4096 * (start_va as int / 4096));
        assert(align_up(end_va as int, 4096) == 4096 * ((end_va + 4095) / 4096));
        assert(start_va as int / 4096 <= (end_va + 4095) / 4096) by (nonlinear_arith)
            requires start_va <= end_va;
        assert(4096 * ((end_va + 4095) / 4096) - 4096 * (start_va as int / 4096)
            == 4096 * ((end_va + 4095) / 4096 - start_va as int / 4096)) by (nonlinear_arith);
        vstd::arithmetic::div_mod::lemma_div_multiples_vanish((end_va + 4095) / 4096 - start_va as int / 4096, 4096);
    }
    let num_pages = (end_aligned_va - start_aligned_va) / 4096;
    Some(SegmentLayout { start_va, end_va, start_aligned_va, end_aligned_va, offset, num_pages })
}

} // verus!

//! An early-boot allocator over one memory range: bytes are handed out
//! upward from its start, pages downward from its end.

use vstd::prelude::*;
use crate::num::{align_down, align_up, is_pow2, is_power_of_two};

verus! {

pub const PAGE_SIZE: usize = 0x1000;

/// Why an allocation was refused.
#[derive(Clone, Copy, Debug, PartialEq, Eq, Structural)]
pub enum AllocError {
    /// An alignment that is not a power of two (or, for pages, not a multiple
    /// of the page size), or a request for no pages.
    InvalidParam,
    /// The request does not fit between the byte and page areas.
    NoMemory,
}

/// The allocator's bookkeeping, as numbers.
pub struct EarlyAllocatorModel {
    pub start: nat,
    pub len: nat,
    pub byte_ava: nat,
    pub byte_count: nat,
    pub page_ava: nat,
    pub page_count: nat,
}

pub struct EarlyAllocator {
    start: usize,
    len: usize,
    byte_ava: usize,
    byte_count: usize,
    page_ava: usize,
    page_count: usize,
}

impl View for EarlyAllocator {
    type V = EarlyAllocatorModel;

    closed spec fn view(&self) -> EarlyAllocatorModel {
        EarlyAllocatorModel {
            start: self.start as nat,
            len: self.len as nat,
            byte_ava: self.byte_ava as nat,
            byte_count: self.byte_count as nat,
            page_ava: self.page_ava as nat,
            page_count: self.page_count as nat,
        }
    }
}

impl EarlyAllocatorModel {
    pub open spec fn end(self) -> nat {
        self.start + self.len
    }

    /// The byte area `[start, byte_ava)` lies below the page area
    /// `[page_ava, end)`, each area is empty when it holds no allocation, and
    /// the range fits in the address space.
    pub open spec fn wf(self) -> bool {
        &&& self.start <= self.byte_ava <= self.page_ava <= self.end()
        &&& self.end() <= usize::MAX
        &&& self.byte_count == 0 ==> self.byte_ava == self.start
        &&& self.page_count == 0 ==> self.page_ava == self.end()
    }
}

impl EarlyAllocator {
    pub open spec fn wf(&self) -> bool {
        self@.wf()
    }

    /// An allocator over the empty range at address 0.
    pub fn new() -> (r: EarlyAllocator)
        ensures
            r.wf(),
            r@ == (EarlyAllocatorModel { start: 0, len: 0, byte_ava: 0, byte_count: 0, page_ava: 0, page_count: 0 }),
    {
        EarlyAllocator { start: 0, len: 0, byte_ava: 0, byte_count: 0, page_ava: 0, page_count: 0 }
    }

    /// Takes over `[start, start + size)`, shrunk to word alignment at both ends.
    pub fn init(&mut self, start: usize, size: usize)
        requires
            start + size <= usize::MAX,
            start + core::mem::size_of::<usize>() - 1 <= usize::MAX,
            align_up(start as int, core::mem::size_of::<usize>() as int)
                <= align_down(start + size, core::mem::size_of::<usize>() as int),
        ensures
            final(self).wf(),
            final(self)@ == ({
                let w = core::mem::size_of::<usize>() as int;
                let s = align_up(start as int, w) as nat;
                let e = align_down(start + size, w) as nat;
                EarlyAllocatorModel { start: s, len: (e - s) as nat, byte_ava: s, byte_count: 0, page_ava: e, page_count: 0 }
            }),
    {
        let w: usize = core::mem::size_of::<usize>();
        proof {
            broadcast use vstd::layout::layout_of_primitives;
            assert(w == 4 || w == 8);
        }
        let end: usize = (start + size) - (start + size) % w;
        let s: usize = (start + (w - 1)) - (start + (w - 1)) % w;
        self.start = s;
        self.len = end - s;
        self.byte_ava = s;
        self.byte_count = 0;
        self.page_ava = end;
        self.page_count = 0;
    }

    /// Hands out `size` bytes aligned to `align` from the byte area. Both the
    /// size and the start are rounded up to the alignment.
    pub fn alloc_bytes(&mut self, size: usize, align: usize) -> (r: Result<usize, AllocError>)
        requires
            old(self).wf(),
        ensures
            final(self).wf(),
            ({
                let m = old(self)@;
                let a = align as int;
                let fits = size + a - 1 <= usize::MAX && m.byte_ava + a - 1 <= usize::MAX
                    && m.byte_count < usize::MAX
                    && align_up(m.byte_ava as int, a) + align_up(size as int, a) <= m.page_ava;
                if !is_pow2(align as nat) {
                    r == Err::<usize, AllocError>(AllocError::InvalidParam) && final(self)@ == m
                } else if !fits {
                    r == Err::<usize, AllocError>(AllocError::NoMemory) && final(self)@ == m
                } else {
                    &&& r == Ok::<usize, AllocError>(align_up(m.byte_ava as int, a) as usize)
                    &&& final(self)@ == EarlyAllocatorModel {
                        byte_ava: (align_up(m.byte_ava as int, a) + align_up(size as int, a)) as nat,
                        byte_count: m.byte_count + 1,
                        ..m
                    }
                }
            }),
    {
        if !is_power_of_two(align) {
            return Err(AllocError::InvalidParam);
        }
        if size > usize::MAX - (align - 1) || self.byte_ava > usize::MAX - (align - 1)
            || self.byte_count == usize::MAX {
            return Err(AllocError::NoMemory);
        }
        let t = size + (align - 1);
        proof {
            vstd::arithmetic::div_mod::lemma_mod_decreases(t as nat, align as nat);
        }
        let size_up = t - t % align;
        let b = self.byte_ava + (align - 1);
        proof {
            vstd::arithmetic::div_mod::lemma_mod_decreases(b as nat, align as nat);
        }
        let byte_ava = b - b % align;
        if byte_ava > self.page_ava || size_up > self.page_ava - byte_ava {
            return Err(AllocError::NoMemory);
        }
        proof {
            assert(byte_ava >= self.byte_ava) by (nonlinear_arith)
                requires b == self.byte_ava + align - 1, byte_ava == b - b % align, align >= 1;
        }
        self.byte_ava = byte_ava + size_up;
        self.byte_count = self.byte_count + 1;
        Ok(byte_ava)
    }

    /// Returns a byte allocation; the byte area is emptied when none is left.
    pub fn dealloc(&mut self, pos: usize)
        requires
            old(self).wf(),
        ensures
            final(self).wf(),
            ({
                let m = old(self)@;
                if m.start < pos < m.byte_ava {
                    if m.byte_count == 1 {
                        final(self)@ == EarlyAllocatorModel { byte_count: 0, byte_ava: m.start, ..m }
                    } else {
                        final(self)@ == EarlyAllocatorModel { byte_count: (m.byte_count - 1) as nat, ..m }
                    }
                } else {
                    final(self)@ == m
                }
            }),
    {
        if pos > self.start && pos < self.byte_ava {
            self.byte_count = self.byte_count - 1;
            if self.byte_count == 0 {
                self.byte_ava = self.start;
            }
        }
    }

    pub fn total_bytes(&self) -> (r: usize)
        requires
            self.wf(),
        ensures
            r == self@.len,
    {
        self.len
    }

    pub fn used_bytes(&self) -> (r: usize)
        requires
            self.wf(),
        ensures
            r == self@.byte_ava - self@.start,
    {
        self.byte_ava - self.start
    }

    pub fn available_bytes(&self) -> (r: usize)
        requires
            self.wf(),
        ensures
            r == self@.page_ava - self@.byte_ava,
    {
        self.page_ava - self.byte_ava
    }

    /// Adding a second range is not supported: always `NoMemory`.
    pub fn add_memory(&mut self, start: usize, size: usize) -> (r: Result<(), AllocError>)
        ensures
            r == Err::<(), AllocError>(AllocError::NoMemory),
            final(self)@ == old(self)@,
    {
        Err(AllocError::NoMemory)
    }

    /// Hands out `num_pages` pages aligned to `align_pow2` from the top of the
    /// page area.
    pub fn alloc_pages(&mut self, num_pages: usize, align_pow2: usize) -> (r: Result<usize, AllocError>)
        requires
            old(self).wf(),
        ensures
            final(self).wf(),
            ({
                let m = old(self)@;
                let a = align_pow2 as int;
                let size = align_up(num_pages * PAGE_SIZE, a);
                let fits = num_pages * PAGE_SIZE + a - 1 <= usize::MAX && size <= m.page_ava
                    && m.page_count < usize::MAX
                    && align_down(m.page_ava - size, a) >= m.byte_ava;
                if align_pow2 % PAGE_SIZE != 0 || !is_pow2(align_pow2 as nat) || num_pages == 0 {
                    r == Err::<usize, AllocError>(AllocError::InvalidParam) && final(self)@ == m
                } else if !fits {
                    r == Err::<usize, AllocError>(AllocError::NoMemory) && final(self)@ == m
                } else {
                    &&& r == Ok::<usize, AllocError>(align_down(m.page_ava - size, a) as usize)
                    &&& final(self)@ == EarlyAllocatorModel {
                        page_ava: align_down(m.page_ava - size, a) as nat,
                        page_count: m.page_count + 1,
                        ..m
                    }
                }
            }),
    {
        if align_pow2 % PAGE_SIZE != 0 {
            return Err(AllocError::InvalidParam);
        }
        if !is_power_of_two(align_pow2) {
            return Err(AllocError::InvalidParam);
        }
        if num_pages == 0 {
            return Err(AllocError::InvalidParam);
        }
        if num_pages > (usize::MAX - (align_pow2 - 1)) / PAGE_SIZE || self.page_count == usize::MAX {
            return Err(AllocError::NoMemory);
        }
        proof {
            assert(num_pages * PAGE_SIZE <= usize::MAX - (align_pow2 - 1)) by (nonlinear_arith)
                requires
                    num_pages <= (usize::MAX - (align_pow2 - 1)) as int / PAGE_SIZE as int,
                    PAGE_SIZE == 0x1000;
        }
        let t = num_pages * PAGE_SIZE + (align_pow2 - 1);
        proof {
            vstd::arithmetic::div_mod::lemma_mod_decreases(t as nat, align_pow2 as nat);
        }
        let size = t - t % align_pow2;
        if size > self.page_ava {
            return Err(AllocError::NoMemory);
        }
        let p = self.page_ava - size;
        proof {
            vstd::arithmetic::div_mod::lemma_mod_decreases(p as nat, align_pow2 as nat);
        }
        let page_ava = p - p % align_pow2;
        if page_ava < self.byte_ava {
            return Err(AllocError::NoMemory);
        }
        self.page_ava = page_ava;
        self.page_count = self.page_count + 1;
        Ok(page_ava)
    }

    /// Returns a page allocation; the page area is emptied when none is left.
    pub fn dealloc_pages(&mut self, pos: usize, num_pages: usize)
        requires
            old(self).wf(),
        ensures
            final(self).wf(),
            ({
                let m = old(self)@;
                if m.page_ava < pos < m.end() {
                    if m.page_count == 1 {
                        final(self)@ == EarlyAllocatorModel { page_count: 0, page_ava: m.end(), ..m }
                    } else {
                        final(self)@ == EarlyAllocatorModel { page_count: (m.page_count - 1) as nat, ..m }
                    }
                } else {
                    final(self)@ == m
                }
            }),
    {
        if pos > self.page_ava && pos < self.start + self.len {
            self.page_count = self.page_count - 1;
            if self.page_count == 0 {
                self.page_ava = self.len + self.start;
            }
        }
    }

    pub fn total_pages(&self) -> (r: usize)
        requires
            self.wf(),
        ensures
            r == self@.len / PAGE_SIZE as nat,
    {
        self.len / PAGE_SIZE
    }

    pub fn used_pages(&self) -> (r: usize)
        requires
            self.wf(),
        ensures
            r == (self@.end() - self@.page_ava) / PAGE_SIZE as int,
    {
        (self.start + self.len - self.page_ava) / PAGE_SIZE
    }

    pub fn available_pages(&self) -> (r: usize)
        requires
            self.wf(),
        ensures
            r == (self@.page_ava - self@.byte_ava) / PAGE_SIZE as int,
    {
        (self.page_ava - self.byte_ava) / PAGE_SIZE
    }
}

} // verus!

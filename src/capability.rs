//! Layout and installation of an MSI-X capability: sizes and offsets of the
//! vector table and pending-bit array, the BAR that holds them, and the
//! capability's registers in configuration space.

use vstd::prelude::*;
use crate::num::is_pow2;
use crate::codec::{le_bytes, splice, le_write_u16, le_write_u32};
use crate::msix::{Msix, MsixError, MsixModel, pba_len_for, ranges_overlap, spans_overlap,
    MSIX_CAP_CONTROL, MSIX_CAP_ENABLE, MSIX_CAP_FUNC_MASK, MSIX_CAP_PBA, MSIX_CAP_TABLE,
    MSIX_TABLE_SIZE_MAX};

verus! {

/// The smallest BAR that an MMIO region is given.
pub const MINIMUM_BAR_SIZE_FOR_MMIO: u64 = 0x1000;

/// Where the vector table and the pending-bit array lie in their BAR, and how
/// large that BAR is.
#[derive(Clone, Copy, Debug, PartialEq, Eq, Structural)]
pub struct MsixLayout {
    pub table_size: u32,
    pub pba_size: u32,
    pub table_offset: u32,
    pub pba_offset: u32,
    pub bar_size: u64,
}

/// The first of `p`, `2p`, `4p`, ... that is at least `n`.
pub open spec fn pow2_from(p: nat, n: nat) -> nat
    decreases (if p < n { n - p } else { 0 }),
{
    if p == 0 || p >= n {
        p
    } else {
        pow2_from(2 * p, n)
    }
}

/// The smallest power of two that is at least `n`.
pub open spec fn next_pow2(n: nat) -> nat {
    pow2_from(1, n)
}

/// The layout that `vector_nr` vectors and optional `(table_offset, pba_offset)` call for.
pub open spec fn layout_of(vector_nr: u32, offsets: Option<(u32, u32)>) -> Result<MsixLayout, MsixError> {
    let table_size = 16 * vector_nr;
    let pba_size = pba_len_for(vector_nr as nat);
    let (table_offset, pba_offset) = match offsets {
        Some(o) => o,
        None => (0u32, table_size as u32),
    };
    if vector_nr == 0 || vector_nr > 2048 {
        Err(MsixError::InvalidCapabilityLayout)
    } else if spans_overlap(table_offset as int, table_size, pba_offset as int, pba_size as int) {
        Err(MsixError::InvalidCapabilityLayout)
    } else {
        let p = next_pow2((table_size + pba_size) as nat);
        Ok(MsixLayout {
            table_size: table_size as u32,
            pba_size: pba_size as u32,
            table_offset,
            pba_offset,
            bar_size: if p > MINIMUM_BAR_SIZE_FOR_MMIO { p as u64 } else { MINIMUM_BAR_SIZE_FOR_MMIO },
        })
    }
}

proof fn lemma_pow2_from(p: nat, n: nat)
    requires
        is_pow2(p),
    ensures
        is_pow2(pow2_from(p, n)),
        pow2_from(p, n) >= n,
        pow2_from(p, n) >= p,
        p < n ==> pow2_from(p, n) < 2 * n,
    decreases (if p < n { n - p } else { 0 }),
{
    if p < n {
        assert((2 * p) / 2 == p);
        assert(is_pow2(2 * p));
        lemma_pow2_from(2 * p, n);
    }
}

/// The smallest power of two that is at least `n`.
fn next_power_of_two(n: u32) -> (r: u64)
    ensures
        r == next_pow2(n as nat),
{
    let mut p: u64 = 1;
    while p < n as u64
        invariant
            1 <= p,
            p == 1 || p <= 2 * (n as int),
            pow2_from(p as nat, n as nat) == next_pow2(n as nat),
        decreases (if (p as int) < (n as int) { n as int - p as int } else { 0 }),
    {
        p = p * 2;
    }
    p
}

/// The layout of an MSI-X capability of `vector_nr` vectors. Table and
/// pending-bit array lie at the given offsets of their BAR, or by default at
/// 0 and right after the table.
pub fn msix_layout(vector_nr: u32, offset_opt: Option<(u32, u32)>) -> (r: Result<MsixLayout, MsixError>)
    ensures
        r == layout_of(vector_nr, offset_opt),
{
    if vector_nr == 0 || vector_nr > MSIX_TABLE_SIZE_MAX as u32 + 1 {
        return Err(MsixError::InvalidCapabilityLayout);
    }
    let table_size: u32 = vector_nr * 16;
    let pba_size: u32 = (vector_nr + 63) / 64 * 8;
    let (table_offset, pba_offset) = match offset_opt {
        Some(o) => o,
        None => (0u32, table_size),
    };
    if ranges_overlap(table_offset as usize, table_size as usize, pba_offset as usize, pba_size as usize) {
        return Err(MsixError::InvalidCapabilityLayout);
    }
    let p = next_power_of_two(table_size + pba_size);
    let bar_size: u64 = if p > MINIMUM_BAR_SIZE_FOR_MMIO { p } else { MINIMUM_BAR_SIZE_FOR_MMIO };
    Ok(MsixLayout { table_size, pba_size, table_offset, pba_offset, bar_size })
}

/// `config` after the registers of an MSI-X capability at `cap` are written:
/// the table size field of the control word, and the table and pending-bit
/// array offsets, each tagged with the BAR index.
pub open spec fn with_cap_registers(config: Seq<u8>, cap: int, vector_nr: u32, bar_id: usize, l: MsixLayout) -> Seq<u8> {
    let c1 = splice(config, cap + 2, le_bytes((vector_nr - 1) as nat, 2));
    let c2 = splice(c1, cap + 4, le_bytes((l.table_offset | (bar_id as u32)) as nat, 4));
    splice(c2, cap + 8, le_bytes((l.pba_offset | (bar_id as u32)) as nat, 4))
}

/// The state of a freshly installed capability with the given layout.
pub open spec fn installed_state(l: MsixLayout, cap: u16) -> MsixModel {
    MsixModel {
        table: Seq::new(l.table_size as nat, |i: int| 0u8),
        pba: Seq::new(l.pba_size as nat, |i: int| 0u8),
        func_masked: true,
        enabled: true,
        cap_offset: cap,
    }
}

/// Installs an MSI-X capability of `vector_nr` vectors whose registers start
/// at `msix_cap_offset` in configuration space, for BAR `bar_id`. Writes the
/// capability's registers, lets the guest write the enable and function-mask
/// bits, and returns the new state with its layout. Nothing is written when
/// the layout is invalid.
pub fn init_msix(
    config: &mut Vec<u8>,
    write_mask: &mut Vec<u8>,
    msix_cap_offset: u16,
    bar_id: usize,
    vector_nr: u32,
    offset_opt: Option<(u32, u32)>,
) -> (r: Result<(Msix, MsixLayout), MsixError>)
    requires
        msix_cap_offset + 12 <= old(config)@.len(),
        msix_cap_offset + 4 <= old(write_mask)@.len(),
    ensures
        match layout_of(vector_nr, offset_opt) {
            Err(e) => r == Err::<(Msix, MsixLayout), MsixError>(e)
                && final(config)@ == old(config)@
                && final(write_mask)@ == old(write_mask)@,
            Ok(l) => r is Ok
                && r->Ok_0.1 == l
                && r->Ok_0.0.wf()
                && r->Ok_0.0@ == installed_state(l, msix_cap_offset)
                && final(config)@ == with_cap_registers(old(config)@, msix_cap_offset as int, vector_nr, bar_id, l)
                && final(write_mask)@ == splice(old(write_mask)@, msix_cap_offset + 2,
                    le_bytes((MSIX_CAP_FUNC_MASK | MSIX_CAP_ENABLE) as nat, 2)),
        },
{
    let layout = match msix_layout(vector_nr, offset_opt) {
        Ok(l) => l,
        Err(e) => return Err(e),
    };
    let cap: usize = msix_cap_offset as usize;
    let _ = le_write_u16(config, cap + MSIX_CAP_CONTROL as usize, (vector_nr - 1) as u16);
    let _ = le_write_u16(write_mask, cap + MSIX_CAP_CONTROL as usize, MSIX_CAP_FUNC_MASK | MSIX_CAP_ENABLE);
    let _ = le_write_u32(config, cap + MSIX_CAP_TABLE as usize, layout.table_offset | bar_id as u32);
    let _ = le_write_u32(config, cap + MSIX_CAP_PBA as usize, layout.pba_offset | bar_id as u32);
    let msix = Msix::new(layout.table_size, layout.pba_size, msix_cap_offset);
    Ok((msix, layout))
}

/// A valid layout keeps the table and the pending-bit array apart, and its
/// BAR is a power of two that holds both and is at least the MMIO minimum.
pub proof fn lemma_layout_valid(vector_nr: u32, offsets: Option<(u32, u32)>)
    requires
        layout_of(vector_nr, offsets) is Ok,
    ensures
        ({
            let l = layout_of(vector_nr, offsets)->Ok_0;
            &&& l.table_size == 16 * vector_nr
            &&& l.pba_size == pba_len_for(vector_nr as nat)
            &&& !spans_overlap(l.table_offset as int, l.table_size as int, l.pba_offset as int, l.pba_size as int)
            &&& is_pow2(l.bar_size as nat)
            &&& l.bar_size >= l.table_size + l.pba_size
            &&& l.bar_size >= MINIMUM_BAR_SIZE_FOR_MMIO
        }),
{
    let n = (16 * vector_nr + pba_len_for(vector_nr as nat)) as nat;
    lemma_pow2_from(1, n);
    reveal_with_fuel(is_pow2, 14);
    assert(is_pow2(0x1000));
}

} // verus!

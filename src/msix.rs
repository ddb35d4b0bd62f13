//! The MSI-X state of one emulated device: vector table, pending-bit array and
//! the two capability-wide flags, with the masking, pending and delivery rules.
//!
//! Delivery itself happens outside this type: every operation that decides to
//! deliver a vector returns the message to hand to the interrupt backend.

use vstd::prelude::*;
use crate::bits::{bit_of, clear_bit, set_bit, lemma_clear_bit, lemma_set_bit,
    lemma_set_bit_idempotent, lemma_zero_bits, lemma_low_bit};
use crate::codec::{le_value, le_read_u16, le_read_u64};

verus! {

pub const MSIX_TABLE_ENTRY_SIZE: u16 = 16;
pub const MSIX_TABLE_SIZE_MAX: u16 = 0x7ff;
pub const MSIX_TABLE_VEC_CTL: u16 = 0x0c;
pub const MSIX_TABLE_MASK_BIT: u8 = 0x01;
pub const MSIX_TABLE_BIR: u16 = 0x07;
pub const MSIX_TABLE_OFFSET: u32 = 0xffff_fff8;
pub const MSIX_MSG_DATA: u16 = 0x08;

pub const MSIX_CAP_CONTROL: u8 = 0x02;
pub const MSIX_CAP_ENABLE: u16 = 0x8000;
pub const MSIX_CAP_FUNC_MASK: u16 = 0x4000;
pub const MSIX_CAP_SIZE: u8 = 12;
pub const MSIX_CAP_ID: u8 = 0x11;
pub const MSIX_CAP_TABLE: u8 = 0x04;
pub const MSIX_CAP_PBA: u8 = 0x08;
pub const MSI_ADDR_BASE: u64 = 0xfee0_0000;

pub const MSI_ADDR_DEST_MODE_MASK: u32 = 0x4;
pub const MSI_ADDR_RH_MASK: u32 = 0x8;
pub const MSI_ADDR_RSVD_2_MASK: u32 = 0xff0;
pub const MSI_ADDR_DEST_FIELD_MASK: u32 = 0xff000;
pub const MSI_ADDR_ADDR_BASE_MASK: u32 = 0xfff00000;

/// The message of one vector as the interrupt backend receives it.
#[derive(Clone, Copy, Debug, PartialEq, Eq, Structural)]
pub struct MsiVector {
    /// The 64-bit message address of the table entry.
    pub msi_addr: u64,
    /// Bits 0..32: message data; bits 32..64: vector control word.
    pub msi_data: u64,
}

/// An MSI-X message: address and data.
#[derive(Clone, Copy, Debug, PartialEq, Eq, Structural)]
pub struct Message {
    pub address: u64,
    pub data: u32,
}

/// One interrupt to inject: the vector index, its message and the device
/// identifier to pass to the backend.
#[derive(Clone, Copy, Debug, PartialEq, Eq, Structural)]
pub struct MsixDelivery {
    pub vector: u16,
    pub msg: MsiVector,
    pub dev_id: u32,
}

/// Errors of the MSI-X emulation.
#[derive(Clone, Copy, Debug, PartialEq, Eq, Structural)]
pub enum MsixError {
    /// An MMIO access that does not lie within the table and pending-bit array.
    OutOfRange,
    /// A vector count outside `1..=2048`, or a table that overlaps the pending-bit array.
    InvalidCapabilityLayout,
}

/// Size in bytes of the pending-bit array for `n` vectors: one 64-bit word per 64 vectors.
pub open spec fn pba_len_for(n: nat) -> nat {
    ((n + 63) / 64 * 8) as nat
}

/// Whether vector `i` is pending in the pending-bit array `pba`: bit `i % 8`
/// of byte `i / 8`, which is bit `i % 64` of little-endian 64-bit word `i / 64`.
pub open spec fn pending_in(pba: Seq<u8>, i: int) -> bool {
    bit_of(pba[i / 8], i % 8)
}

/// `pba` with vector `i` marked pending.
pub open spec fn with_pending(pba: Seq<u8>, i: int) -> Seq<u8> {
    pba.update(i / 8, set_bit(pba[i / 8], i % 8))
}

/// `pba` with the pending mark of vector `i` removed.
pub open spec fn without_pending(pba: Seq<u8>, i: int) -> Seq<u8> {
    pba.update(i / 8, clear_bit(pba[i / 8], i % 8))
}

/// The abstract state of an MSI-X capability.
pub struct MsixModel {
    pub table: Seq<u8>,
    pub pba: Seq<u8>,
    pub func_masked: bool,
    pub enabled: bool,
    pub cap_offset: u16,
}

impl MsixModel {
    pub open spec fn vector_count(self) -> nat {
        self.table.len() / 16
    }

    /// The sizes agree with each other and with the vector count.
    pub open spec fn wf(self) -> bool {
        &&& self.table.len() % 16 == 0
        &&& self.vector_count() <= 2048
        &&& self.pba.len() == pba_len_for(self.vector_count())
    }

    /// Bit 0 of vector `v`'s control word.
    pub open spec fn per_vector_masked(self, v: int) -> bool {
        self.table[16 * v + 12] & 1u8 == 1u8
    }

    pub open spec fn vector_masked(self, v: int) -> bool {
        !self.enabled || self.func_masked || self.per_vector_masked(v)
    }

    pub open spec fn pending(self, v: int) -> bool {
        pending_in(self.pba, v)
    }

    /// The message stored in vector `v`'s table entry.
    pub open spec fn msi_vector(self, v: int) -> MsiVector {
        MsiVector {
            msi_addr: le_value(self.table.subrange(16 * v, 16 * v + 8)) as u64,
            msi_data: le_value(self.table.subrange(16 * v + 8, 16 * v + 16)) as u64,
        }
    }

    pub open spec fn delivery(self, v: int, dev_id: u16) -> MsixDelivery {
        MsixDelivery { vector: v as u16, msg: self.msi_vector(v), dev_id: dev_id as u32 }
    }

    pub open spec fn set_pending(self, v: int) -> MsixModel {
        MsixModel { pba: with_pending(self.pba, v), ..self }
    }

    pub open spec fn clear_pending(self, v: int) -> MsixModel {
        MsixModel { pba: without_pending(self.pba, v), ..self }
    }

    /// A doorbell for vector `v`: ignored when out of range, remembered while
    /// masked, delivered otherwise.
    pub open spec fn notify_step(self, v: int, dev_id: u16) -> (MsixModel, Option<MsixDelivery>) {
        if v < 0 || v >= self.vector_count() {
            (self, None)
        } else if self.vector_masked(v) {
            (self.set_pending(v), None)
        } else {
            (self.clear_pending(v), Some(self.delivery(v, dev_id)))
        }
    }

    /// Delivery of every pending, unmasked vector below `k`, in ascending order.
    pub open spec fn flush_step(self, dev_id: u16, k: nat) -> (MsixModel, Seq<MsixDelivery>)
        decreases k,
    {
        if k == 0 {
            (self, Seq::empty())
        } else {
            let (m, out) = self.flush_step(dev_id, (k - 1) as nat);
            let v = k - 1;
            if !m.vector_masked(v) && m.pending(v) {
                (m.clear_pending(v), out.push(m.delivery(v, dev_id)))
            } else {
                (m, out)
            }
        }
    }

    /// A guest write of `bytes` at `offset` in the vector table, with delivery
    /// at the edge where the addressed vector becomes unmasked while pending.
    pub open spec fn table_write_step(self, offset: int, bytes: Seq<u8>, dev_id: u16) -> (MsixModel, Option<MsixDelivery>) {
        let v = offset / 16;
        let m = MsixModel { table: crate::codec::splice(self.table, offset, bytes), ..self };
        if v < self.vector_count() && self.vector_masked(v) && !m.vector_masked(v) && m.pending(v) {
            (m.clear_pending(v), Some(m.delivery(v, dev_id)))
        } else {
            (m, None)
        }
    }

    /// A guest write anywhere in configuration space, `len` bytes at `offset`.
    /// Only a write that touches the byte holding the enable and function-mask
    /// bits has an effect: the flags take the values that `config` now holds,
    /// and a change into the deliverable state delivers every pending,
    /// unmasked vector.
    pub open spec fn write_config_step(self, config: Seq<u8>, dev_id: u16, offset: int, len: int) -> (MsixModel, Seq<MsixDelivery>) {
        if !spans_overlap(offset, len, self.cap_offset + 3, 1) {
            (self, Seq::empty())
        } else {
            let masked = control_func_masked(config, self.cap_offset as int);
            let enabled = control_enabled(config, self.cap_offset as int);
            let changed = !(self.func_masked == masked && self.enabled == enabled);
            let m = MsixModel { func_masked: masked, enabled: enabled, ..self };
            if changed && enabled && !masked {
                m.flush_step(dev_id, m.vector_count())
            } else {
                (m, Seq::empty())
            }
        }
    }

    /// The bytes that the device's MMIO region exposes: the table, then the pending-bit array.
    pub open spec fn region(self) -> Seq<u8> {
        self.table + self.pba
    }

    /// A guest read of `size` bytes at `offset` in the MMIO region; at most
    /// the first four bytes make up the value.
    pub open spec fn read_step(self, offset: int, size: int) -> Result<u32, MsixError> {
        if offset + size > self.region().len() {
            Err(MsixError::OutOfRange)
        } else {
            let n = if size < 4 { size } else { 4 };
            Ok(le_value(self.region().subrange(offset, offset + n)) as u32)
        }
    }

    /// A guest write of `data` at `offset` in the MMIO region. Writes that
    /// reach into the pending-bit array are accepted and discarded.
    pub open spec fn write_step(self, offset: int, data: Seq<u8>, dev_id: u16) -> Result<(MsixModel, Option<MsixDelivery>), MsixError> {
        if offset + data.len() > self.region().len() {
            Err(MsixError::OutOfRange)
        } else if offset + data.len() <= self.table.len() {
            Ok(self.table_write_step(offset, data, dev_id))
        } else {
            Ok((self, None))
        }
    }

    /// The state after a device reset: zeroed table and pending bits, all vectors masked.
    pub open spec fn reset_state(self) -> MsixModel {
        MsixModel {
            table: Seq::new(self.table.len(), |i: int| 0u8),
            pba: Seq::new(self.pba.len(), |i: int| 0u8),
            func_masked: true,
            enabled: true,
            cap_offset: self.cap_offset,
        }
    }
}

/// The capability's control word in the configuration space `config`.
pub open spec fn control_word(config: Seq<u8>, cap_offset: int) -> u16 {
    le_value(config.subrange(cap_offset + 2, cap_offset + 4)) as u16
}

pub open spec fn control_enabled(config: Seq<u8>, cap_offset: int) -> bool {
    control_word(config, cap_offset) & 0x8000u16 != 0
}

pub open spec fn control_func_masked(config: Seq<u8>, cap_offset: int) -> bool {
    control_word(config, cap_offset) & 0x4000u16 != 0
}

/// Whether `[s1, s1 + l1)` and `[s2, s2 + l2)` share a position.
pub open spec fn spans_overlap(s1: int, l1: int, s2: int, l2: int) -> bool {
    l1 > 0 && l2 > 0 && s1 < s2 + l2 && s2 < s1 + l1
}

/// Whether `[s1, s1 + l1)` and `[s2, s2 + l2)` share a position.
pub fn ranges_overlap(s1: usize, l1: usize, s2: usize, l2: usize) -> (r: bool)
    ensures
        r == spans_overlap(s1 as int, l1 as int, s2 as int, l2 as int),
{
    if l1 == 0 || l2 == 0 {
        false
    } else if s1 <= s2 {
        s2 - s1 < l1
    } else {
        s1 - s2 < l2
    }
}

/// The MSI-X state of one device.
pub struct Msix {
    /// The vector table: 16 bytes per vector.
    pub table: Vec<u8>,
    /// The pending-bit array: one bit per vector.
    pub pba: Vec<u8>,
    pub func_masked: bool,
    pub enabled: bool,
    /// Offset of the capability in the device's configuration space.
    pub msix_cap_offset: u16,
}

impl View for Msix {
    type V = MsixModel;

    open spec fn view(&self) -> MsixModel {
        MsixModel {
            table: self.table@,
            pba: self.pba@,
            func_masked: self.func_masked,
            enabled: self.enabled,
            cap_offset: self.msix_cap_offset,
        }
    }
}

impl Msix {
    pub open spec fn wf(&self) -> bool {
        self@.wf()
    }

    /// A capability of `table_size / 16` vectors with zeroed table and pending
    /// bits, function-masked and enabled.
    pub fn new(table_size: u32, pba_size: u32, msix_cap_offset: u16) -> (r: Msix)
        requires
            table_size % 16 == 0,
            table_size / 16 <= 2048,
            pba_size == pba_len_for((table_size / 16) as nat),
        ensures
            r.wf(),
            r@ == (MsixModel {
                table: Seq::new(table_size as nat, |i: int| 0u8),
                pba: Seq::new(pba_size as nat, |i: int| 0u8),
                func_masked: true,
                enabled: true,
                cap_offset: msix_cap_offset,
            }),
    {
        let r = Msix {
            table: vec![0u8; table_size as usize],
            pba: vec![0u8; pba_size as usize],
            func_masked: true,
            enabled: true,
            msix_cap_offset,
        };
        proof {
            assert(r@.table =~= Seq::new(table_size as nat, |i: int| 0u8));
            assert(r@.pba =~= Seq::new(pba_size as nat, |i: int| 0u8));
        }
        r
    }

    fn zero_fill(buf: &mut Vec<u8>)
        ensures
            final(buf)@ == Seq::new(old(buf)@.len(), |i: int| 0u8),
    {
        let n = buf.len();
        let mut i: usize = 0;
        while i < n
            invariant
                i <= n,
                buf@.len() == n,
                forall|j: int| 0 <= j < i ==> buf@[j] == 0u8,
            decreases n - i,
        {
            buf.set(i, 0u8);
            i = i + 1;
        }
        proof {
            assert(buf@ =~= Seq::new(n as nat, |i: int| 0u8));
        }
    }

    /// Device reset: zeroes the table and the pending bits and masks the function.
    pub fn reset(&mut self)
        requires
            old(self).wf(),
        ensures
            final(self).wf(),
            final(self)@ == old(self)@.reset_state(),
            forall|v: int| 0 <= v < final(self)@.vector_count() ==>
                #[trigger] final(self)@.vector_masked(v) && !final(self)@.pending(v),
    {
        Self::zero_fill(&mut self.table);
        Self::zero_fill(&mut self.pba);
        self.func_masked = true;
        self.enabled = true;
        proof {
            assert(self@ == old(self)@.reset_state());
            assert forall|v: int| 0 <= v < self@.vector_count() implies !self@.pending(v) by {
                assert(v / 8 < self@.pba.len());
                lemma_zero_bits(v % 8);
            }
        }
    }

    /// Whether the enable bit is set in the control word that `config` holds.
    pub fn is_enabled(&self, config: &[u8]) -> (r: bool)
        requires
            self.msix_cap_offset + 4 <= config@.len(),
        ensures
            r == control_enabled(config@, self.msix_cap_offset as int),
    {
        let offset: usize = self.msix_cap_offset as usize + MSIX_CAP_CONTROL as usize;
        let msix_ctl = match le_read_u16(config, offset) {
            Ok(v) => v,
            Err(_) => 0,
        };
        msix_ctl & MSIX_CAP_ENABLE != 0
    }

    /// Whether the function-mask bit is set in the control word that `config` holds.
    pub fn is_func_masked(&self, config: &[u8]) -> (r: bool)
        requires
            self.msix_cap_offset + 4 <= config@.len(),
        ensures
            r == control_func_masked(config@, self.msix_cap_offset as int),
    {
        let offset: usize = self.msix_cap_offset as usize + MSIX_CAP_CONTROL as usize;
        let msix_ctl = match le_read_u16(config, offset) {
            Ok(v) => v,
            Err(_) => 0,
        };
        msix_ctl & MSIX_CAP_FUNC_MASK != 0
    }

    /// Sets the per-vector mask bit of every vector.
    pub fn mask_all_vectors(&mut self)
        requires
            old(self).wf(),
        ensures
            final(self).wf(),
            final(self)@.pba == old(self)@.pba,
            final(self)@.func_masked == old(self)@.func_masked,
            final(self)@.enabled == old(self)@.enabled,
            final(self)@.cap_offset == old(self)@.cap_offset,
            final(self)@.table.len() == old(self)@.table.len(),
            forall|i: int| 0 <= i < old(self)@.table.len() ==> #[trigger] final(self)@.table[i]
                == if i % 16 == 12 { old(self)@.table[i] | 1u8 } else { old(self)@.table[i] },
    {
        let n: usize = self.table.len() / 16;
        let ghost start = self.table@;
        let mut v: usize = 0;
        while v < n
            invariant
                v <= n,
                n == start.len() / 16,
                n <= 2048,
                start.len() % 16 == 0,
                self.table@.len() == start.len(),
                self@.pba == old(self)@.pba,
                self.func_masked == old(self).func_masked,
                self.enabled == old(self).enabled,
                self.msix_cap_offset == old(self).msix_cap_offset,
                start == old(self)@.table,
                forall|i: int| 0 <= i < start.len() ==> #[trigger] self.table@[i]
                    == if i % 16 == 12 && i / 16 < v { start[i] | 1u8 } else { start[i] },
            decreases n - v,
        {
            let offset: usize = v * 16 + 12;
            let b = self.table[offset];
            self.table.set(offset, b | MSIX_TABLE_MASK_BIT);
            v = v + 1;
        }
    }

    /// Whether vector `vector` is masked by the enable flag, the function mask or its own mask bit.
    pub fn is_vector_masked(&self, vector: u16) -> (r: bool)
        requires
            self.wf(),
            vector < self@.vector_count(),
        ensures
            r == self@.vector_masked(vector as int),
    {
        if !self.enabled || self.func_masked {
            return true;
        }
        let offset: usize = vector as usize * 16 + 12;
        proof {
            lemma_low_bit(self.table@[offset as int]);
        }
        self.table[offset] & MSIX_TABLE_MASK_BIT != 0
    }

    /// Whether vector `vector` has an event waiting for delivery.
    pub fn is_vector_pending(&self, vector: u16) -> (r: bool)
        requires
            self.wf(),
            vector < self@.vector_count(),
        ensures
            r == self@.pending(vector as int),
    {
        let idx: usize = vector as usize / 8;
        let bit: u8 = (vector % 8) as u8;
        (self.pba[idx] >> bit) & 1u8 == 1u8
    }

    fn set_pending_vector(&mut self, vector: u16)
        requires
            old(self).wf(),
            vector < old(self)@.vector_count(),
        ensures
            final(self)@ == old(self)@.set_pending(vector as int),
            final(self).wf(),
    {
        let idx: usize = vector as usize / 8;
        let bit: u8 = (vector % 8) as u8;
        let b = self.pba[idx];
        self.pba.set(idx, b | (1u8 << bit));
    }

    fn clear_pending_vector(&mut self, vector: u16)
        requires
            old(self).wf(),
            vector < old(self)@.vector_count(),
        ensures
            final(self)@ == old(self)@.clear_pending(vector as int),
            final(self).wf(),
    {
        let idx: usize = vector as usize / 8;
        let bit: u8 = (vector % 8) as u8;
        let b = self.pba[idx];
        self.pba.set(idx, b & !(1u8 << bit));
    }
    /// Clears the pending bit of every vector.
    pub fn clear_pending_vectors(&mut self)
        requires
            old(self).wf(),
        ensures
            final(self).wf(),
            final(self)@.table == old(self)@.table,
            final(self)@.func_masked == old(self)@.func_masked,
            final(self)@.enabled == old(self)@.enabled,
            final(self)@.cap_offset == old(self)@.cap_offset,
            final(self)@.pba.len() == old(self)@.pba.len(),
            forall|i: int| 0 <= i < 8 * old(self)@.pba.len() ==> #[trigger] pending_in(final(self)@.pba, i)
                == (i >= old(self)@.vector_count() && pending_in(old(self)@.pba, i)),
    {
        let n: u16 = (self.table.len() / 16) as u16;
        let mut v: u16 = 0;
        while v < n
            invariant
                self.wf(),
                v <= n,
                n == old(self)@.vector_count(),
                self@.table == old(self)@.table,
                self@.func_masked == old(self)@.func_masked,
                self@.enabled == old(self)@.enabled,
                self@.cap_offset == old(self)@.cap_offset,
                self@.pba.len() == old(self)@.pba.len(),
                forall|i: int| 0 <= i < 8 * old(self)@.pba.len() ==> #[trigger] pending_in(self@.pba, i)
                    == (i >= v && pending_in(old(self)@.pba, i)),
            decreases n - v,
        {
            let ghost before = self@.pba;
            self.clear_pending_vector(v);
            proof {
                assert forall|i: int| 0 <= i < 8 * old(self)@.pba.len() implies #[trigger] pending_in(self@.pba, i)
                    == (i >= v + 1 && pending_in(old(self)@.pba, i)) by {
                    lemma_pending_without(before, v as int, i);
                }
            }
            v = v + 1;
        }
    }

    /// The message held in vector `vector`'s table entry.
    pub fn get_msix_vector(&self, vector: u16) -> (r: MsiVector)
        requires
            self.wf(),
            vector < self@.vector_count(),
        ensures
            r == self@.msi_vector(vector as int),
    {
        let entry: usize = vector as usize * 16;
        let address = match le_read_u64(self.table.as_slice(), entry) {
            Ok(v) => v,
            Err(_) => 0,
        };
        let data = match le_read_u64(self.table.as_slice(), entry + 8) {
            Ok(v) => v,
            Err(_) => 0,
        };
        MsiVector { msi_addr: address, msi_data: data }
    }

    /// The delivery of vector `vector` for device `dev_id`, to hand to the
    /// interrupt backend.
    pub fn send_msix(&self, vector: u16, dev_id: u16) -> (r: MsixDelivery)
        requires
            self.wf(),
            vector < self@.vector_count(),
        ensures
            r == self@.delivery(vector as int, dev_id),
    {
        MsixDelivery { vector, msg: self.get_msix_vector(vector), dev_id: dev_id as u32 }
    }

    /// A doorbell for vector `vector`. An index beyond the table is ignored; a
    /// masked vector becomes pending; an unmasked one is returned for delivery.
    pub fn notify(&mut self, vector: u16, dev_id: u16) -> (r: Option<MsixDelivery>)
        requires
            old(self).wf(),
        ensures
            final(self).wf(),
            (final(self)@, r) == old(self)@.notify_step(vector as int, dev_id),
    {
        if vector as usize >= self.table.len() / 16 {
            return None;
        }
        if self.is_vector_masked(vector) {
            self.set_pending_vector(vector);
            return None;
        }
        self.clear_pending_vector(vector);
        Some(self.send_msix(vector, dev_id))
    }

    /// A guest write of `data` at `offset` in configuration space, whose
    /// bytes are now `config`. Returns the vectors to deliver, in ascending order.
    pub fn write_config(&mut self, config: &[u8], dev_id: u16, offset: usize, data: &[u8]) -> (r: Vec<MsixDelivery>)
        requires
            old(self).wf(),
            old(self).msix_cap_offset + 4 <= config@.len(),
        ensures
            final(self).wf(),
            (final(self)@, r@) == old(self)@.write_config_step(config@, dev_id, offset as int, data@.len() as int),
    {
        let mut out: Vec<MsixDelivery> = Vec::new();
        let control_hi: usize = self.msix_cap_offset as usize + MSIX_CAP_CONTROL as usize + 1;
        if !ranges_overlap(offset, data.len(), control_hi, 1) {
            return out;
        }
        let masked = self.is_func_masked(config);
        let enabled = self.is_enabled(config);
        let changed = !(self.func_masked == masked && self.enabled == enabled);
        self.func_masked = masked;
        self.enabled = enabled;
        if changed && enabled && !masked {
            let ghost m = self@;
            let n: u16 = (self.table.len() / 16) as u16;
            let mut v: u16 = 0;
            while v < n
                invariant
                    self.wf(),
                    v <= n,
                    n == m.vector_count(),
                    (self@, out@) == m.flush_step(dev_id, v as nat),
                    self@.table == m.table,
                decreases n - v,
            {
                if !self.is_vector_masked(v) && self.is_vector_pending(v) {
                    self.clear_pending_vector(v);
                    let d = self.send_msix(v, dev_id);
                    out.push(d);
                }
                v = v + 1;
            }
        }
        out
    }

    /// A guest write of `data` at `offset` in the vector table. Returns the
    /// addressed vector for delivery when the write unmasks it while it is pending.
    pub fn table_write(&mut self, offset: usize, data: &[u8], dev_id: u16) -> (r: Option<MsixDelivery>)
        requires
            old(self).wf(),
            offset + data@.len() <= old(self)@.table.len(),
        ensures
            final(self).wf(),
            (final(self)@, r) == old(self)@.table_write_step(offset as int, data@, dev_id),
    {
        let n: usize = self.table.len() / 16;
        let in_range = offset / 16 < n;
        let vector: u16 = if in_range { (offset / 16) as u16 } else { 0 };
        let was_masked = in_range && self.is_vector_masked(vector);
        let ghost start = self.table@;
        let len = data.len();
        let mut i: usize = 0;
        while i < len
            invariant
                i <= len,
                len == data@.len(),
                offset + len <= start.len(),
                start.len() <= 32768,
                self.table@.len() == start.len(),
                start == old(self)@.table,
                self@.pba == old(self)@.pba,
                self.func_masked == old(self).func_masked,
                self.enabled == old(self).enabled,
                self.msix_cap_offset == old(self).msix_cap_offset,
                forall|j: int| 0 <= j < start.len() ==> #[trigger] self.table@[j]
                    == if offset <= j < offset + i { data@[j - offset] } else { start[j] },
            decreases len - i,
        {
            self.table.set(offset + i, data[i]);
            i = i + 1;
        }
        proof {
            assert(self@.table =~= crate::codec::splice(start, offset as int, data@));
        }
        if was_masked && !self.is_vector_masked(vector) && self.is_vector_pending(vector) {
            self.clear_pending_vector(vector);
            Some(self.send_msix(vector, dev_id))
        } else {
            None
        }
    }

    /// Guest read of `access_size` bytes at `offset` in the MMIO region that
    /// holds the table and the pending-bit array.
    pub fn region_read(&self, offset: u64, access_size: u8) -> (r: Result<u32, MsixError>)
        requires
            self.wf(),
        ensures
            r == self@.read_step(offset as int, access_size as int),
    {
        let tlen: usize = self.table.len();
        let total: usize = tlen + self.pba.len();
        if offset > total as u64 || access_size as u64 > total as u64 - offset {
            return Err(MsixError::OutOfRange);
        }
        let n: usize = if access_size < 4 { access_size as usize } else { 4 };
        let start: usize = offset as usize;
        let mut bytes: Vec<u8> = Vec::new();
        let mut i: usize = 0;
        while i < n
            invariant
                i <= n,
                n <= 4,
                start + n <= total,
                total == self@.region().len(),
                tlen == self@.table.len(),
                bytes@ == self@.region().subrange(start as int, start + i),
            decreases n - i,
        {
            let p = start + i;
            let b = if p < tlen { self.table[p] } else { self.pba[p - tlen] };
            bytes.push(b);
            proof {
                assert(bytes@ =~= self@.region().subrange(start as int, start + i + 1));
            }
            i = i + 1;
        }
        proof {
            assert(n == (if access_size < 4 { access_size as int } else { 4 }));
        }
        let v = crate::codec::le_read_bytes(bytes.as_slice());
        Ok(v)
    }

    /// Guest write of `data` (`access_size` bytes) at `offset` in the MMIO
    /// region. Writes inside the table follow [`Msix::table_write`]; writes
    /// that reach into the pending-bit array change nothing.
    pub fn region_write(&mut self, offset: u64, access_size: u8, data: &[u8], dev_id: u16) -> (r: Result<Option<MsixDelivery>, MsixError>)
        requires
            old(self).wf(),
            data@.len() == access_size as int,
        ensures
            final(self).wf(),
            match r {
                Ok(d) => old(self)@.write_step(offset as int, data@, dev_id) == Ok::<(MsixModel, Option<MsixDelivery>), MsixError>((final(self)@, d)),
                Err(e) => old(self)@.write_step(offset as int, data@, dev_id) == Err::<(MsixModel, Option<MsixDelivery>), MsixError>(e)
                    && final(self)@ == old(self)@,
            },
    {
        let tlen: usize = self.table.len();
        let total: usize = tlen + self.pba.len();
        if offset > total as u64 || access_size as u64 > total as u64 - offset {
            return Err(MsixError::OutOfRange);
        }
        let start: usize = offset as usize;
        if start + (access_size as usize) <= tlen {
            Ok(self.table_write(start, data, dev_id))
        } else {
            Ok(None)
        }
    }
}

/// Removing vector `v`'s pending mark leaves every other vector's mark as it was.
pub proof fn lemma_pending_without(pba: Seq<u8>, v: int, i: int)
    requires
        0 <= v < 8 * pba.len(),
        0 <= i < 8 * pba.len(),
    ensures
        pending_in(without_pending(pba, v), i) == (i != v && pending_in(pba, i)),
{
    if i / 8 == v / 8 {
        lemma_clear_bit(pba[v / 8], v % 8, i % 8);
    }
}

/// Marking vector `v` pending leaves every other vector's mark as it was.
pub proof fn lemma_pending_with(pba: Seq<u8>, v: int, i: int)
    requires
        0 <= v < 8 * pba.len(),
        0 <= i < 8 * pba.len(),
    ensures
        pending_in(with_pending(pba, v), i) == (i == v || pending_in(pba, i)),
{
    if i / 8 == v / 8 {
        lemma_set_bit(pba[v / 8], v % 8, i % 8);
    }
}

/// A doorbell on a masked vector delivers nothing and leaves the vector
/// pending, and only that vector's mark changes; ringing it again while it
/// is still masked changes nothing and delivers nothing.
pub proof fn lemma_notify_while_masked(m: MsixModel, v: int, dev_id: u16)
    requires
        m.wf(),
        0 <= v < m.vector_count(),
        m.vector_masked(v),
    ensures
        m.notify_step(v, dev_id).1 is None,
        m.notify_step(v, dev_id).0.pending(v),
        forall|i: int| 0 <= i < 8 * m.pba.len() ==>
            #[trigger] pending_in(m.notify_step(v, dev_id).0.pba, i) == (i == v || m.pending(i)),
        m.notify_step(v, dev_id).0.notify_step(v, dev_id) == (m.notify_step(v, dev_id).0, None::<MsixDelivery>),
{
    let m1 = m.notify_step(v, dev_id).0;
    assert(m1 == m.set_pending(v));
    assert(v / 8 < m.pba.len());
    assert forall|i: int| 0 <= i < 8 * m.pba.len() implies
        #[trigger] pending_in(m1.pba, i) == (i == v || m.pending(i)) by {
        lemma_pending_with(m.pba, v, i);
    }
    lemma_set_bit_idempotent(m.pba[v / 8], v % 8);
    assert(m1.set_pending(v).pba =~= m1.pba);
}

/// A configuration write whose control word holds the flags as they already
/// are changes nothing and delivers nothing.
pub proof fn lemma_write_config_without_change(m: MsixModel, config: Seq<u8>, dev_id: u16, offset: int, len: int)
    requires
        control_func_masked(config, m.cap_offset as int) == m.func_masked,
        control_enabled(config, m.cap_offset as int) == m.enabled,
    ensures
        m.write_config_step(config, dev_id, offset, len) == (m, Seq::<MsixDelivery>::empty()),
{
}

/// Flushing the vectors below `k` delivers, in ascending order and once each,
/// exactly the pending unmasked ones, clears their pending marks, and leaves
/// everything else as it was.
pub proof fn lemma_flush(m: MsixModel, dev_id: u16, k: nat)
    requires
        m.wf(),
        k <= m.vector_count(),
    ensures
        ({
            let (m2, out) = m.flush_step(dev_id, k);
            &&& m2.table == m.table
            &&& m2.func_masked == m.func_masked
            &&& m2.enabled == m.enabled
            &&& m2.cap_offset == m.cap_offset
            &&& m2.pba.len() == m.pba.len()
            &&& forall|i: int| 0 <= i < 8 * m.pba.len() ==> #[trigger] pending_in(m2.pba, i)
                == (pending_in(m.pba, i) && !(i < k && !m.vector_masked(i)))
            &&& forall|i: int| 0 <= i < out.len() ==> {
                let v = (#[trigger] out[i]).vector as int;
                &&& v < k
                &&& out[i] == m.delivery(v, dev_id)
                &&& m.pending(v)
                &&& !m.vector_masked(v)
            }
            &&& forall|i: int, j: int| 0 <= i < j < out.len() ==> (#[trigger] out[i]).vector < (#[trigger] out[j]).vector
            &&& forall|v: int| 0 <= v < k && #[trigger] m.pending(v) && !m.vector_masked(v) ==>
                exists|i: int| 0 <= i < out.len() && (#[trigger] out[i]).vector == v
        }),
    decreases k,
{
    if k > 0 {
        lemma_flush(m, dev_id, (k - 1) as nat);
        let (m0, s0) = m.flush_step(dev_id, (k - 1) as nat);
        let v = k - 1;
        assert(v / 8 < m.pba.len());
        assert(m0.pending(v) == m.pending(v));
        assert(m0.vector_masked(v) == m.vector_masked(v));
        assert(m0.delivery(v, dev_id) == m.delivery(v, dev_id));
        let (m2, out) = m.flush_step(dev_id, k);
        if !m0.vector_masked(v) && m0.pending(v) {
            assert forall|i: int| 0 <= i < 8 * m.pba.len() implies #[trigger] pending_in(m2.pba, i)
                == (pending_in(m.pba, i) && !(i < k && !m.vector_masked(i))) by {
                lemma_pending_without(m0.pba, v, i);
            }
            assert(out[s0.len() as int].vector == v as u16);
            assert forall|w: int| 0 <= w < k && #[trigger] m.pending(w) && !m.vector_masked(w) implies
                exists|i: int| 0 <= i < out.len() && (#[trigger] out[i]).vector == w by {
                if w < v {
                    let i = choose|i: int| 0 <= i < s0.len() && (#[trigger] s0[i]).vector == w;
                    assert(out[i] == s0[i]);
                } else {
                    assert(out[s0.len() as int].vector == w);
                }
            }
        } else {
            assert forall|w: int| 0 <= w < k && #[trigger] m.pending(w) && !m.vector_masked(w) implies
                exists|i: int| 0 <= i < out.len() && (#[trigger] out[i]).vector == w by {
                if w < v {
                } else {
                    assert(false);
                }
            }
        }
    }
}

/// A configuration write that takes the capability from masked or disabled to
/// enabled and unmasked delivers each pending vector whose own mask bit is
/// clear exactly once, in ascending order, and no vector stays pending unless
/// its own mask bit is set.
pub proof fn lemma_write_config_unmask(m: MsixModel, config: Seq<u8>, dev_id: u16, offset: int, len: int)
    requires
        m.wf(),
        spans_overlap(offset, len, m.cap_offset + 3, 1),
        control_enabled(config, m.cap_offset as int),
        !control_func_masked(config, m.cap_offset as int),
        m.func_masked || !m.enabled,
    ensures
        ({
            let (m2, out) = m.write_config_step(config, dev_id, offset, len);
            &&& m2.enabled && !m2.func_masked
            &&& m2.table == m.table
            &&& forall|v: int| 0 <= v < m.vector_count() ==>
                (#[trigger] m2.pending(v) <==> m.pending(v) && m.per_vector_masked(v))
            &&& forall|i: int| 0 <= i < out.len() ==> {
                let v = (#[trigger] out[i]).vector as int;
                &&& v < m.vector_count()
                &&& out[i] == m.delivery(v, dev_id)
                &&& m.pending(v)
                &&& !m.per_vector_masked(v)
            }
            &&& forall|i: int, j: int| 0 <= i < j < out.len() ==> (#[trigger] out[i]).vector < (#[trigger] out[j]).vector
            &&& forall|v: int| 0 <= v < m.vector_count() && #[trigger] m.pending(v) && !m.per_vector_masked(v) ==>
                exists|i: int| 0 <= i < out.len() && (#[trigger] out[i]).vector == v
        }),
{
    let m1 = MsixModel { func_masked: false, enabled: true, ..m };
    lemma_flush(m1, dev_id, m1.vector_count());
    let (m2, out) = m.write_config_step(config, dev_id, offset, len);
    assert(m.write_config_step(config, dev_id, offset, len) == m1.flush_step(dev_id, m1.vector_count()));
    assert forall|v: int| 0 <= v < m.vector_count() implies
        (#[trigger] m2.pending(v) <==> m.pending(v) && m.per_vector_masked(v)) by {
        assert(v / 8 < m.pba.len());
        assert(pending_in(m2.pba, v) == (pending_in(m1.pba, v) && !(v < m1.vector_count() && !m1.vector_masked(v))));
    }
    assert forall|i: int| 0 <= i < out.len() implies {
        let v = (#[trigger] out[i]).vector as int;
        &&& v < m.vector_count()
        &&& out[i] == m.delivery(v, dev_id)
        &&& m.pending(v)
        &&& !m.per_vector_masked(v)
    } by {
        let v = out[i].vector as int;
        assert(m1.delivery(v, dev_id) == m.delivery(v, dev_id));
    }
    assert forall|v: int| 0 <= v < m.vector_count() && #[trigger] m.pending(v) && !m.per_vector_masked(v) implies
        exists|i: int| 0 <= i < out.len() && (#[trigger] out[i]).vector == v by {
        assert(m1.pending(v) && !m1.vector_masked(v));
    }
}

/// A table write that clears the mask bit of a pending vector, which nothing
/// else masks, delivers that vector once with the message now in its entry and
/// clears its pending mark; the table holds exactly the bytes written.
pub proof fn lemma_table_write_unmask(m: MsixModel, offset: int, bytes: Seq<u8>, dev_id: u16)
    requires
        m.wf(),
        m.enabled && !m.func_masked,
        0 <= offset,
        offset + bytes.len() <= m.table.len(),
        offset / 16 < m.vector_count(),
        m.per_vector_masked(offset / 16),
        m.pending(offset / 16),
        !(MsixModel { table: crate::codec::splice(m.table, offset, bytes), ..m }).per_vector_masked(offset / 16),
    ensures
        ({
            let v = offset / 16;
            let m1 = MsixModel { table: crate::codec::splice(m.table, offset, bytes), ..m };
            &&& m.table_write_step(offset, bytes, dev_id) == (m1.clear_pending(v), Some(m1.delivery(v, dev_id)))
            &&& !m1.clear_pending(v).pending(v)
            &&& m1.clear_pending(v).table == crate::codec::splice(m.table, offset, bytes)
        }),
{
    let v = offset / 16;
    assert(v / 8 < m.pba.len());
    lemma_pending_without(m.pba, v, v);
}

/// No vector is pending while it is unmasked.
pub open spec fn pending_only_while_masked(m: MsixModel) -> bool {
    forall|v: int| 0 <= v < m.vector_count() && #[trigger] m.pending(v) ==> m.vector_masked(v)
}

/// Doorbells, configuration writes and resets never leave a pending mark on
/// an unmasked vector; nor does a table write that stays within one entry.
pub proof fn lemma_pending_only_while_masked_kept(
    m: MsixModel,
    v: int,
    dev_id: u16,
    config: Seq<u8>,
    offset: int,
    len: int,
    bytes: Seq<u8>,
)
    requires
        m.wf(),
        pending_only_while_masked(m),
    ensures
        pending_only_while_masked(m.notify_step(v, dev_id).0),
        pending_only_while_masked(m.write_config_step(config, dev_id, offset, len).0),
        pending_only_while_masked(m.reset_state()),
        0 <= offset && offset + bytes.len() <= m.table.len() && offset % 16 + bytes.len() <= 16 ==>
            pending_only_while_masked(m.table_write_step(offset, bytes, dev_id).0),
{
    lemma_notify_keeps(m, v, dev_id);
    lemma_write_config_keeps(m, config, dev_id, offset, len);
    assert forall|u: int| 0 <= u < m.reset_state().vector_count() && #[trigger] m.reset_state().pending(u)
        implies m.reset_state().vector_masked(u) by {
    }
    if 0 <= offset && offset + bytes.len() <= m.table.len() && offset % 16 + bytes.len() <= 16 {
        lemma_table_write_keeps(m, offset, bytes, dev_id);
    }
}

proof fn lemma_notify_keeps(m: MsixModel, v: int, dev_id: u16)
    requires
        m.wf(),
        pending_only_while_masked(m),
    ensures
        pending_only_while_masked(m.notify_step(v, dev_id).0),
{
    let m1 = m.notify_step(v, dev_id).0;
    if 0 <= v < m.vector_count() {
        assert forall|u: int| 0 <= u < m1.vector_count() && #[trigger] m1.pending(u) implies m1.vector_masked(u) by {
            assert(u / 8 < m.pba.len() && v / 8 < m.pba.len());
            assert(m.pending(u) ==> m.vector_masked(u));
            assert(m1.vector_masked(u) == m.vector_masked(u));
            if m.vector_masked(v) {
                lemma_pending_with(m.pba, v, u);
            } else {
                lemma_pending_without(m.pba, v, u);
            }
        }
    }
}

proof fn lemma_write_config_keeps(m: MsixModel, config: Seq<u8>, dev_id: u16, offset: int, len: int)
    requires
        m.wf(),
        pending_only_while_masked(m),
    ensures
        pending_only_while_masked(m.write_config_step(config, dev_id, offset, len).0),
{
    if spans_overlap(offset, len, m.cap_offset + 3, 1) {
        let masked = control_func_masked(config, m.cap_offset as int);
        let enabled = control_enabled(config, m.cap_offset as int);
        let m1 = MsixModel { func_masked: masked, enabled: enabled, ..m };
        let changed = !(m.func_masked == masked && m.enabled == enabled);
        if changed && enabled && !masked {
            lemma_flush(m1, dev_id, m1.vector_count());
            let m2 = m1.flush_step(dev_id, m1.vector_count()).0;
            assert forall|u: int| 0 <= u < m2.vector_count() && #[trigger] m2.pending(u) implies m2.vector_masked(u) by {
                assert(u / 8 < m.pba.len());
                assert(pending_in(m2.pba, u) == (pending_in(m1.pba, u) && !(u < m1.vector_count() && !m1.vector_masked(u))));
            }
        } else if !changed {
            assert(m1 == m);
        }
    }
}

proof fn lemma_table_write_keeps(m: MsixModel, offset: int, bytes: Seq<u8>, dev_id: u16)
    requires
        m.wf(),
        pending_only_while_masked(m),
        0 <= offset,
        offset + bytes.len() <= m.table.len(),
        offset % 16 + bytes.len() <= 16,
    ensures
        pending_only_while_masked(m.table_write_step(offset, bytes, dev_id).0),
{
    let v = offset / 16;
    let t1 = crate::codec::splice(m.table, offset, bytes);
    let m1 = MsixModel { table: t1, ..m };
    let m2 = m.table_write_step(offset, bytes, dev_id).0;
    assert(t1.len() == m.table.len());
    assert forall|u: int| 0 <= u < m2.vector_count() && #[trigger] m2.pending(u) implies m2.vector_masked(u) by {
        assert(u / 8 < m.pba.len());
        assert(m.pending(u) ==> m.vector_masked(u));
        if u != v {
            let i = 16 * u + 12;
            assert(i < offset || i >= offset + bytes.len());
            assert(t1[i] == m.table[i]);
            assert(m1.vector_masked(u) == m.vector_masked(u));
            if v < m.vector_count() && m.vector_masked(v) && !m1.vector_masked(v) && m1.pending(v) {
                assert(v / 8 < m.pba.len());
                lemma_pending_without(m.pba, v, u);
            }
        } else {
            if v < m.vector_count() && m.vector_masked(v) && !m1.vector_masked(v) && m1.pending(v) {
                lemma_pending_without(m.pba, v, u);
            }
        }
    }
}

proof fn lemma_word_bit(b0: u8, b1: u8, b2: u8, b3: u8, b4: u8, b5: u8, b6: u8, b7: u8, j: u64)
    by (bit_vector)
    requires
        j < 64,
    ensures
        ({
            let w = (b0 as u64) | ((b1 as u64) << 8u64) | ((b2 as u64) << 16u64) | ((b3 as u64) << 24u64)
                | ((b4 as u64) << 32u64) | ((b5 as u64) << 40u64) | ((b6 as u64) << 48u64) | ((b7 as u64) << 56u64);
            let b = if j < 8 { b0 } else if j < 16 { b1 } else if j < 24 { b2 } else if j < 32 { b3 }
                else if j < 40 { b4 } else if j < 48 { b5 } else if j < 56 { b6 } else { b7 };
            ((w >> j) & 1u64 == 1u64) == ((b >> ((j % 8) as u8)) & 1u8 == 1u8)
        }),
{
}

proof fn lemma_word_sum(b0: u8, b1: u8, b2: u8, b3: u8, b4: u8, b5: u8, b6: u8, b7: u8)
    by (bit_vector)
    ensures
        (b0 as u64) | ((b1 as u64) << 8u64) | ((b2 as u64) << 16u64) | ((b3 as u64) << 24u64)
            | ((b4 as u64) << 32u64) | ((b5 as u64) << 40u64) | ((b6 as u64) << 48u64) | ((b7 as u64) << 56u64)
        == (b0 as u64) + 256 * ((b1 as u64) + 256 * ((b2 as u64) + 256 * ((b3 as u64) + 256 * ((b4 as u64)
            + 256 * ((b5 as u64) + 256 * ((b6 as u64) + 256 * (b7 as u64))))))),
{
}

/// The pending mark of vector `i` is bit `i % 64` of the little-endian
/// 64-bit word `i / 64` of the pending-bit array.
pub proof fn lemma_pending_is_word_bit(pba: Seq<u8>, i: int)
    requires
        0 <= i,
        8 * (i / 64) + 8 <= pba.len(),
    ensures
        pending_in(pba, i) == ((le_value(pba.subrange(8 * (i / 64), 8 * (i / 64) + 8)) as u64
            >> ((i % 64) as u64)) & 1u64 == 1u64),
{
    let q = i / 64;
    let s = pba.subrange(8 * q, 8 * q + 8);
    reveal_with_fuel(le_value, 9);
    assert(s.drop_first().drop_first().drop_first().drop_first().drop_first().drop_first().drop_first().drop_first().len() == 0);
    lemma_word_sum(s[0], s[1], s[2], s[3], s[4], s[5], s[6], s[7]);
    let j = (i % 64) as u64;
    lemma_word_bit(s[0], s[1], s[2], s[3], s[4], s[5], s[6], s[7], j);
    assert(pba[i / 8] == s[(i % 64) / 8]);
    assert((i % 8) == (j % 8) as int);
}

} // verus!

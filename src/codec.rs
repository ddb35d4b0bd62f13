//! Little-endian register access on byte buffers, with bounds checking.

use vstd::prelude::*;

verus! {

/// `256` to the power `n`.
pub open spec fn pow256(n: nat) -> nat
    decreases n,
{
    if n == 0 {
        1
    } else {
        256 * pow256((n - 1) as nat)
    }
}

/// The unsigned number whose little-endian encoding is `s`.
pub open spec fn le_value(s: Seq<u8>) -> nat
    decreases s.len(),
{
    if s.len() == 0 {
        0
    } else {
        s[0] as nat + 256 * le_value(s.drop_first())
    }
}

/// The `width` low bytes of `v`, least significant first.
pub open spec fn le_bytes(v: nat, width: nat) -> Seq<u8> {
    Seq::new(width, |j: int| (v / pow256(j as nat) % 256) as u8)
}

/// `buf` with the bytes starting at `offset` replaced by `bytes`.
pub open spec fn splice(buf: Seq<u8>, offset: int, bytes: Seq<u8>) -> Seq<u8> {
    buf.subrange(0, offset) + bytes + buf.subrange(offset + bytes.len(), buf.len() as int)
}

/// The error of an access that does not fit in its buffer.
#[derive(Clone, Copy, Debug, PartialEq, Eq, Structural)]
pub struct OutOfBounds;

pub proof fn lemma_pow256_positive(n: nat)
    ensures
        pow256(n) >= 1,
    decreases n,
{
    if n > 0 {
        lemma_pow256_positive((n - 1) as nat);
    }
}

pub proof fn lemma_pow256_values()
    ensures
        pow256(1) == 0x100,
        pow256(2) == 0x1_0000,
        pow256(4) == 0x1_0000_0000,
        pow256(8) == 0x1_0000_0000_0000_0000,
{
    reveal_with_fuel(pow256, 9);
}

pub proof fn lemma_pow256_monotone(a: nat, b: nat)
    requires
        a <= b,
    ensures
        pow256(a) <= pow256(b),
    decreases b,
{
    if a < b {
        lemma_pow256_monotone(a, (b - 1) as nat);
    }
}

pub proof fn lemma_le_value_bound(s: Seq<u8>)
    ensures
        le_value(s) < pow256(s.len()),
    decreases s.len(),
{
    if s.len() > 0 {
        lemma_le_value_bound(s.drop_first());
    }
}

/// The number held in the `width` bytes of `buf` that start at `offset`.
fn read_le(buf: &[u8], offset: usize, width: usize) -> (r: u64)
    requires
        width <= 8,
        offset + width <= buf@.len(),
    ensures
        r as nat == le_value(buf@.subrange(offset as int, offset + width)),
{
    let len = buf.len();
    let mut acc: u64 = 0;
    let mut i: usize = width;
    while i > 0
        invariant
            width <= 8,
            i <= width,
            offset + width <= buf@.len(),
            len == buf@.len(),
            acc as nat == le_value(buf@.subrange(offset + i, offset + width)),
        decreases i,
    {
        i = i - 1;
        let ghost tail = buf@.subrange(offset + i + 1, offset + width);
        let ghost s = buf@.subrange(offset + i, offset + width);
        proof {
            assert(s.drop_first() =~= tail);
            lemma_le_value_bound(tail);
            lemma_pow256_monotone(tail.len(), 7);
            lemma_pow256_values();
            reveal_with_fuel(pow256, 8);
        }
        acc = acc * 256 + buf[offset + i] as u64;
    }
    proof {
        assert(buf@.subrange(offset as int, offset + width) =~= buf@.subrange(offset + i, offset + width));
    }
    acc
}

/// Writes the `width` low bytes of `v` at `offset`, least significant first.
fn write_le(buf: &mut Vec<u8>, offset: usize, width: usize, v: u64)
    requires
        width <= 8,
        offset + width <= old(buf)@.len(),
    ensures
        final(buf)@ == splice(old(buf)@, offset as int, le_bytes(v as nat, width as nat)),
{
    let ghost start = buf@;
    let len = buf.len();
    proof {
        assert(pow256(0) == 1);
        assert(v as nat / 1 == v as nat);
    }
    let mut rest: u64 = v;
    let mut i: usize = 0;
    while i < width
        invariant
            width <= 8,
            i <= width,
            offset + width <= start.len(),
            buf@.len() == start.len(),
            len == start.len(),
            rest as nat == v as nat / pow256(i as nat),
            forall|j: int| 0 <= j < offset || offset + width <= j < start.len() ==> buf@[j] == start[j],
            forall|j: int| 0 <= j < i ==> buf@[offset + j] == #[trigger] le_bytes(v as nat, width as nat)[j],
        decreases width - i,
    {
        buf.set(offset + i, (rest % 256) as u8);
        proof {
            lemma_pow256_positive(i as nat);
            vstd::arithmetic::div_mod::lemma_div_denominator(v as int, pow256(i as nat) as int, 256);
            assert(pow256((i + 1) as nat) == 256 * pow256(i as nat));
            assert(pow256(i as nat) * 256 == 256 * pow256(i as nat)) by (nonlinear_arith);
        }
        rest = rest / 256;
        i = i + 1;
    }
    proof {
        assert(buf@ =~= splice(start, offset as int, le_bytes(v as nat, width as nat)));
    }
}

/// The number whose little-endian encoding is the whole of `buf`, at most four bytes.
pub fn le_read_bytes(buf: &[u8]) -> (r: u32)
    requires
        buf@.len() <= 4,
    ensures
        r as nat == le_value(buf@),
{
    let v = read_le(buf, 0, buf.len());
    proof {
        assert(buf@.subrange(0, buf@.len() as int) =~= buf@);
        lemma_le_value_bound(buf@);
        lemma_pow256_monotone(buf@.len(), 4);
        lemma_pow256_values();
    }
    v as u32
}

/// Reads the little-endian `u16` at `offset`.
pub fn le_read_u16(buf: &[u8], offset: usize) -> (r: Result<u16, OutOfBounds>)
    ensures
        offset + 2 <= buf@.len() <==> r is Ok,
        r is Ok ==> r->Ok_0 as nat == le_value(buf@.subrange(offset as int, offset + 2)),
{
    if offset > buf.len() || buf.len() - offset < 2 {
        return Err(OutOfBounds);
    }
    let v = read_le(buf, offset, 2);
    proof {
        lemma_le_value_bound(buf@.subrange(offset as int, offset + 2));
        lemma_pow256_values();
    }
    Ok(v as u16)
}

/// Reads the little-endian `u32` at `offset`.
pub fn le_read_u32(buf: &[u8], offset: usize) -> (r: Result<u32, OutOfBounds>)
    ensures
        offset + 4 <= buf@.len() <==> r is Ok,
        r is Ok ==> r->Ok_0 as nat == le_value(buf@.subrange(offset as int, offset + 4)),
{
    if offset > buf.len() || buf.len() - offset < 4 {
        return Err(OutOfBounds);
    }
    let v = read_le(buf, offset, 4);
    proof {
        lemma_le_value_bound(buf@.subrange(offset as int, offset + 4));
        lemma_pow256_values();
    }
    Ok(v as u32)
}

/// Reads the little-endian `u64` at `offset`.
pub fn le_read_u64(buf: &[u8], offset: usize) -> (r: Result<u64, OutOfBounds>)
    ensures
        offset + 8 <= buf@.len() <==> r is Ok,
        r is Ok ==> r->Ok_0 as nat == le_value(buf@.subrange(offset as int, offset + 8)),
{
    if offset > buf.len() || buf.len() - offset < 8 {
        return Err(OutOfBounds);
    }
    Ok(read_le(buf, offset, 8))
}

/// Writes `v` as a little-endian `u16` at `offset`; the buffer is left as it
/// was when the two bytes do not fit.
pub fn le_write_u16(buf: &mut Vec<u8>, offset: usize, v: u16) -> (r: Result<(), OutOfBounds>)
    ensures
        offset + 2 <= old(buf)@.len() <==> r is Ok,
        r is Ok ==> final(buf)@ == splice(old(buf)@, offset as int, le_bytes(v as nat, 2)),
        r is Err ==> final(buf)@ == old(buf)@,
{
    if offset > buf.len() || buf.len() - offset < 2 {
        return Err(OutOfBounds);
    }
    write_le(buf, offset, 2, v as u64);
    Ok(())
}

/// Writes `v` as a little-endian `u32` at `offset`; the buffer is left as it
/// was when the four bytes do not fit.
pub fn le_write_u32(buf: &mut Vec<u8>, offset: usize, v: u32) -> (r: Result<(), OutOfBounds>)
    ensures
        offset + 4 <= old(buf)@.len() <==> r is Ok,
        r is Ok ==> final(buf)@ == splice(old(buf)@, offset as int, le_bytes(v as nat, 4)),
        r is Err ==> final(buf)@ == old(buf)@,
{
    if offset > buf.len() || buf.len() - offset < 4 {
        return Err(OutOfBounds);
    }
    write_le(buf, offset, 4, v as u64);
    Ok(())
}

/// Writes `v` as a little-endian `u64` at `offset`; the buffer is left as it
/// was when the eight bytes do not fit.
pub fn le_write_u64(buf: &mut Vec<u8>, offset: usize, v: u64) -> (r: Result<(), OutOfBounds>)
    ensures
        offset + 8 <= old(buf)@.len() <==> r is Ok,
        r is Ok ==> final(buf)@ == splice(old(buf)@, offset as int, le_bytes(v as nat, 8)),
        r is Err ==> final(buf)@ == old(buf)@,
{
    if offset > buf.len() || buf.len() - offset < 8 {
        return Err(OutOfBounds);
    }
    write_le(buf, offset, 8, v);
    Ok(())
}

} // verus!

//! Laws tying the mapped-file operations together, proved once for every
//! region, offset and value.
//!
//! The unsigned round trips live beside the engine
//! ([`engine::lemma_le_write_then_read`], [`engine::lemma_be_write_then_read`]
//! and are width-generic; this module adds the signed and pointer-width round
//! trips (which go through the two's-complement image), the truncate and
//! copy-on-write lifecycle laws, and the cursor confinement law.

use crate::codec;
use crate::cursor::RangeCursor;
use crate::engine;
use crate::memory::FileView;
use vstd::prelude::*;

verus! {

proof fn lemma_cast_u8_i8(v: i8)
    by (bit_vector)
    ensures
        ((v as u8) as i8) == v,
{
}

proof fn lemma_cast_u16_i16(v: i16)
    by (bit_vector)
    ensures
        ((v as u16) as i16) == v,
{
}

proof fn lemma_cast_u32_i32(v: i32)
    by (bit_vector)
    ensures
        ((v as u32) as i32) == v,
{
}

proof fn lemma_cast_u64_i64(v: i64)
    by (bit_vector)
    ensures
        ((v as u64) as i64) == v,
{
}

proof fn lemma_cast_u128_i128(v: i128)
    by (bit_vector)
    ensures
        ((v as u128) as i128) == v,
{
}

/// Law: a signed 8-bit value written through its two's-complement image and
/// read back through it is unchanged, at every in-bounds offset of every
/// region.
pub proof fn lemma_i8_round_trip(s: Seq<u8>, off: int, v: i8)
    requires
        0 <= off,
        off + 1 <= s.len(),
    ensures
        (engine::be_at(engine::splice(s, off, codec::be_bytes((v as u8) as nat, 1)), off, 1)
            as u8) as i8 == v,
{
    assert(((v as u8) as nat) < codec::pow256(1)) by {
        reveal_with_fuel(codec::pow256, 2);
    }
    engine::lemma_be_write_then_read(s, off, 1, (v as u8) as nat);
    lemma_cast_u8_i8(v);
}

/// Law: a signed 16-bit value round-trips through either byte order.
pub proof fn lemma_i16_round_trip(s: Seq<u8>, off: int, v: i16)
    requires
        0 <= off,
        off + 2 <= s.len(),
    ensures
        (engine::be_at(engine::splice(s, off, codec::be_bytes((v as u16) as nat, 2)), off, 2)
            as u16) as i16 == v,
        (engine::le_at(engine::splice(s, off, codec::le_bytes((v as u16) as nat, 2)), off, 2)
            as u16) as i16 == v,
{
    assert(((v as u16) as nat) < codec::pow256(2)) by {
        reveal_with_fuel(codec::pow256, 3);
    }
    engine::lemma_be_write_then_read(s, off, 2, (v as u16) as nat);
    engine::lemma_le_write_then_read(s, off, 2, (v as u16) as nat);
    lemma_cast_u16_i16(v);
}

/// Law: a signed 32-bit value round-trips through either byte order.
pub proof fn lemma_i32_round_trip(s: Seq<u8>, off: int, v: i32)
    requires
        0 <= off,
        off + 4 <= s.len(),
    ensures
        (engine::be_at(engine::splice(s, off, codec::be_bytes((v as u32) as nat, 4)), off, 4)
            as u32) as i32 == v,
        (engine::le_at(engine::splice(s, off, codec::le_bytes((v as u32) as nat, 4)), off, 4)
            as u32) as i32 == v,
{
    assert(((v as u32) as nat) < codec::pow256(4)) by {
        reveal_with_fuel(codec::pow256, 5);
    }
    engine::lemma_be_write_then_read(s, off, 4, (v as u32) as nat);
    engine::lemma_le_write_then_read(s, off, 4, (v as u32) as nat);
    lemma_cast_u32_i32(v);
}

/// Law: a signed 64-bit value round-trips through either byte order.
pub proof fn lemma_i64_round_trip(s: Seq<u8>, off: int, v: i64)
    requires
        0 <= off,
        off + 8 <= s.len(),
    ensures
        (engine::be_at(engine::splice(s, off, codec::be_bytes((v as u64) as nat, 8)), off, 8)
            as u64) as i64 == v,
        (engine::le_at(engine::splice(s, off, codec::le_bytes((v as u64) as nat, 8)), off, 8)
            as u64) as i64 == v,
{
    assert(((v as u64) as nat) < codec::pow256(8)) by {
        reveal_with_fuel(codec::pow256, 9);
    }
    engine::lemma_be_write_then_read(s, off, 8, (v as u64) as nat);
    engine::lemma_le_write_then_read(s, off, 8, (v as u64) as nat);
    lemma_cast_u64_i64(v);
}

/// Law: a signed 128-bit value round-trips through either byte order.
pub proof fn lemma_i128_round_trip(s: Seq<u8>, off: int, v: i128)
    requires
        0 <= off,
        off + 16 <= s.len(),
    ensures
        (engine::be_at(engine::splice(s, off, codec::be_bytes((v as u128) as nat, 16)), off, 16)
            as u128) as i128 == v,
        (engine::le_at(engine::splice(s, off, codec::le_bytes((v as u128) as nat, 16)), off, 16)
            as u128) as i128 == v,
{
    assert(((v as u128) as nat) < codec::pow256(16)) by {
        codec::lemma_pow256_16();
    }
    engine::lemma_be_write_then_read(s, off, 16, (v as u128) as nat);
    engine::lemma_le_write_then_read(s, off, 16, (v as u128) as nat);
    lemma_cast_u128_i128(v);
}

/// Law: a pointer-width unsigned value, carried as eight bytes through its
/// 64-bit image, round-trips through either byte order.
pub proof fn lemma_usize_round_trip(s: Seq<u8>, off: int, v: usize)
    requires
        0 <= off,
        off + 8 <= s.len(),
    ensures
        (engine::be_at(engine::splice(s, off, codec::be_bytes((v as u64) as nat, 8)), off, 8)
            as u64) as usize == v,
        (engine::le_at(engine::splice(s, off, codec::le_bytes((v as u64) as nat, 8)), off, 8)
            as u64) as usize == v,
{
    assert(((v as u64) as nat) < codec::pow256(8)) by {
        reveal_with_fuel(codec::pow256, 9);
    }
    engine::lemma_be_write_then_read(s, off, 8, (v as u64) as nat);
    engine::lemma_le_write_then_read(s, off, 8, (v as u64) as nat);
}

/// Law: a pointer-width signed value, carried as eight bytes through its
/// 64-bit two's-complement image, round-trips through either byte order.
pub proof fn lemma_isize_round_trip(s: Seq<u8>, off: int, v: isize)
    requires
        0 <= off,
        off + 8 <= s.len(),
    ensures
        ((engine::be_at(
            engine::splice(s, off, codec::be_bytes(((v as i64) as u64) as nat, 8)),
            off,
            8,
        ) as u64) as i64) as isize == v,
        ((engine::le_at(
            engine::splice(s, off, codec::le_bytes(((v as i64) as u64) as nat, 8)),
            off,
            8,
        ) as u64) as i64) as isize == v,
{
    assert((((v as i64) as u64) as nat) < codec::pow256(8)) by {
        reveal_with_fuel(codec::pow256, 9);
    }
    engine::lemma_be_write_then_read(s, off, 8, ((v as i64) as u64) as nat);
    engine::lemma_le_write_then_read(s, off, 8, ((v as i64) as u64) as nat);
    lemma_cast_u64_i64(v as i64);
}

/// Law: for an ordinary (non-copy-on-write) mapping, truncating to the
/// current mapped length is a no-op with respect to content — the region
/// keeps its bytes, and the backing store holds exactly those bytes, since
/// the truncation flushed them.
///
/// A copy-on-write mapping does not obey this law: its truncate remaps from
/// the backing store, which discards the mapping's private writes.
pub proof fn lemma_truncate_current_size_is_content_noop(v: FileView)
    requires
        v.wf(),
        !v.cow,
    ensures
        v.truncated(v.region.len()).region == v.region,
        v.truncated(v.region.len()).backing == v.region,
{
    if v.region.len() > 0 {
        assert(engine::resized(v.flushed().backing, v.region.len()) =~= v.region);
    } else {
        assert(engine::resized(v.backing, v.region.len()) =~= v.region);
    }
}

/// Law: truncating to zero and then to `n` yields `n` zero bytes, in the
/// region and in the backing store, whatever the file held before and in
/// either mapping mode.
pub proof fn lemma_truncate_zero_then_grow(v: FileView, n: nat)
    ensures
        v.truncated(0).truncated(n).region == engine::zero_seq(n),
        v.truncated(0).truncated(n).backing == engine::zero_seq(n),
{
    let emptied = v.truncated(0);
    assert(emptied.region.len() == 0);
    assert(engine::resized(emptied.backing, n) =~= engine::zero_seq(n));
}

/// Law: copy-on-write isolation. A write lands only in the region, and a
/// flush of a copy-on-write mapping carries nothing back, so whatever is
/// written through such a mapping, the backing store — what an independent
/// reopen of the same path observes — still holds its pre-write bytes.
pub proof fn lemma_cow_write_never_persists(v: FileView, off: int, b: Seq<u8>)
    requires
        v.cow,
    ensures
        (FileView { region: engine::splice(v.region, off, b), ..v }).flushed().backing
            == v.backing,
{
}

/// Law: cursor confinement. A write of `src` at a well-formed cursor's
/// position changes no byte outside the cursor's window `[start, end)` and
/// never changes the region's length; together with the cursor operations'
/// own contracts (the position never leaves the window and reads come from
/// `[pos, pos + n) ⊆ [start, end)`), no cursor operation can escape its
/// window.
pub proof fn lemma_cursor_write_confined(region: Seq<u8>, c: RangeCursor, src: Seq<u8>)
    requires
        c.wf(),
        c.fits(region.len()),
        c.pos + src.len() <= c.end,
    ensures
        engine::splice(region, c.pos as int, src).len() == region.len(),
        forall|k: int|
            0 <= k < region.len() && !(c.start <= k < c.end) ==> engine::splice(
                region,
                c.pos as int,
                src,
            )[k] == region[k],
{
}

} // verus!

//! The range I/O engine: bounds-checked byte access over a mapped region.
//!
//! A mapped region is held as a growable byte vector; every operation here is
//! specified against its sequence view. The same functions serve the
//! file-backed and the memory-backed mapped files, and the typed accessors of
//! both, so the bounds policy lives in exactly one place: an access to
//! `offset + len > region length` fails with [`Error::Bounds`] and leaves the
//! region untouched.

use crate::codec;
use crate::error::Error;
use vstd::prelude::*;

verus! {

/// `s` with `b` written over its bytes starting at `off`; bytes outside the
/// window keep their old value and the length never changes.
pub open spec fn splice(s: Seq<u8>, off: int, b: Seq<u8>) -> Seq<u8> {
    Seq::new(
        s.len(),
        |i: int|
            if off <= i < off + b.len() {
                b[i - off]
            } else {
                s[i]
            },
    )
}

/// `n` zero bytes.
pub open spec fn zero_seq(n: nat) -> Seq<u8> {
    Seq::new(n, |i: int| 0u8)
}

/// `s` cut or zero-extended to exactly `n` bytes.
pub open spec fn resized(s: Seq<u8>, n: nat) -> Seq<u8> {
    Seq::new(
        n,
        |i: int|
            if i < s.len() {
                s[i]
            } else {
                0u8
            },
    )
}

/// The `n`-byte window at `off` in `s`, read as a little-endian unsigned
/// integer.
pub open spec fn le_at(s: Seq<u8>, off: int, n: int) -> nat {
    codec::le_decode(s.subrange(off, off + n))
}

/// The `n`-byte window at `off` in `s`, read as a big-endian unsigned
/// integer.
pub open spec fn be_at(s: Seq<u8>, off: int, n: int) -> nat {
    codec::be_decode(s.subrange(off, off + n))
}

/// A vector of `n` zero bytes.
pub fn zeros(n: usize) -> (r: Vec<u8>)
    ensures
        r@ == zero_seq(n as nat),
{
    let mut out: Vec<u8> = Vec::new();
    let mut i: usize = 0;
    while i < n
        invariant
            i <= n,
            out@.len() == i,
            forall|k: int| 0 <= k < i ==> out@[k] == 0u8,
        decreases n - i,
    {
        out.push(0u8);
        i = i + 1;
    }
    proof {
        assert(out@ =~= zero_seq(n as nat));
    }
    out
}

/// Cut or zero-extend `buf` to exactly `n` bytes, keeping the common prefix.
pub fn resize_bytes(buf: &mut Vec<u8>, n: usize)
    ensures
        final(buf)@ == resized(old(buf)@, n as nat),
{
    if n <= buf.len() {
        buf.truncate(n);
        proof {
            assert(buf@ =~= resized(old(buf)@, n as nat));
        }
    } else {
        while buf.len() < n
            invariant
                buf@.len() <= n,
                buf@.len() >= old(buf)@.len(),
                buf@.subrange(0, old(buf)@.len() as int) == old(buf)@,
                forall|k: int| old(buf)@.len() <= k < buf@.len() ==> buf@[k] == 0u8,
            decreases n - buf@.len(),
        {
            proof {
                assert(buf@.push(0u8).subrange(0, old(buf)@.len() as int) =~= buf@.subrange(
                    0,
                    old(buf)@.len() as int,
                ));
            }
            buf.push(0u8);
        }
        proof {
            assert(forall|k: int|
                0 <= k < old(buf)@.len() ==> buf@[k] == old(buf)@.subrange(
                    0,
                    old(buf)@.len() as int,
                )[k]);
            assert(buf@ =~= resized(old(buf)@, n as nat));
        }
    }
}

/// An owned copy of the `len` bytes at `offset`, or the bounds error naming
/// the requested and the available length.
pub fn copy_range(buf: &Vec<u8>, offset: usize, len: usize) -> (r: Result<Vec<u8>, Error>)
    ensures
        match r {
            Ok(v) => offset + len <= buf@.len() && v@ == buf@.subrange(
                offset as int,
                offset + len,
            ),
            Err(e) => offset + len > buf@.len() && e.is_bounds(
                crate::error::sat64(offset as nat + len as nat),
                buf@.len(),
            ),
        },
{
    if offset > buf.len() || len > buf.len() - offset {
        return Err(crate::error::range_err(offset, len, buf.len()));
    }
    let mut out: Vec<u8> = Vec::new();
    let mut i: usize = 0;
    while i < len
        invariant
            i <= len,
            offset + len <= buf@.len(),
            offset + len <= usize::MAX,
            out@.len() == i,
            forall|k: int| 0 <= k < i ==> out@[k] == buf@[offset + k],
        decreases len - i,
    {
        out.push(buf[offset + i]);
        i = i + 1;
    }
    proof {
        assert(out@ =~= buf@.subrange(offset as int, offset + len));
    }
    Ok(out)
}

/// An owned copy of the whole region.
pub fn copy_all(buf: &Vec<u8>) -> (r: Vec<u8>)
    ensures
        r@ == buf@,
{
    match copy_range(buf, 0, buf.len()) {
        Ok(v) => {
            proof {
                assert(v@ =~= buf@);
            }
            v
        },
        Err(_) => {
            proof {
                assert(false);
            }
            Vec::new()
        },
    }
}

/// Write all of `src` at `offset`, or fail with the bounds error and leave
/// the region untouched.
pub fn write_into(buf: &mut Vec<u8>, src: &Vec<u8>, offset: usize) -> (r: Result<(), Error>)
    ensures
        match r {
            Ok(()) => offset + src@.len() <= old(buf)@.len() && final(buf)@ == splice(
                old(buf)@,
                offset as int,
                src@,
            ),
            Err(e) => {
                &&& offset + src@.len() > old(buf)@.len()
                &&& final(buf)@ == old(buf)@
                &&& e.is_bounds(
                    crate::error::sat64(offset as nat + src@.len()),
                    old(buf)@.len(),
                )
            },
        },
{
    if offset > buf.len() || src.len() > buf.len() - offset {
        return Err(crate::error::range_err(offset, src.len(), buf.len()));
    }
    let mut i: usize = 0;
    while i < src.len()
        invariant
            i <= src@.len(),
            offset + src@.len() <= buf@.len(),
            offset + src@.len() <= usize::MAX,
            buf@.len() == old(buf)@.len(),
            forall|k: int| offset <= k < offset + i ==> buf@[k] == src@[k - offset],
            forall|k: int|
                0 <= k < buf@.len() && !(offset <= k < offset + i) ==> buf@[k] == old(buf)@[k],
        decreases src@.len() - i,
    {
        let b: u8 = src[i];
        buf[offset + i] = b;
        i = i + 1;
    }
    proof {
        assert(buf@ =~= splice(old(buf)@, offset as int, src@));
    }
    Ok(())
}

/// Copy as much of `src` as fits at `offset`: `min(src.len(), len - offset)`
/// bytes, or none when `offset` is past the end. Returns the count written;
/// it never fails, and a short count is how callers detect truncation.
pub fn write_clamped(buf: &mut Vec<u8>, src: &Vec<u8>, offset: usize) -> (n: usize)
    ensures
        n == if offset + src@.len() <= old(buf)@.len() {
            src@.len() as int
        } else if offset <= old(buf)@.len() {
            old(buf)@.len() - offset
        } else {
            0int
        },
        final(buf)@ == splice(old(buf)@, offset as int, src@.subrange(0, n as int)),
{
    let avail: usize = if offset > buf.len() {
        0
    } else {
        buf.len() - offset
    };
    let n: usize = if src.len() < avail {
        src.len()
    } else {
        avail
    };
    let mut i: usize = 0;
    while i < n
        invariant
            i <= n,
            n <= src@.len(),
            n != 0 ==> offset + n <= buf@.len(),
            offset + n <= usize::MAX,
            buf@.len() == old(buf)@.len(),
            forall|k: int| offset <= k < offset + i ==> buf@[k] == src@[k - offset],
            forall|k: int|
                0 <= k < buf@.len() && !(offset <= k < offset + i) ==> buf@[k] == old(buf)@[k],
        decreases n - i,
    {
        let b: u8 = src[i];
        buf[offset + i] = b;
        i = i + 1;
    }
    proof {
        assert(buf@ =~= splice(old(buf)@, offset as int, src@.subrange(0, n as int)));
    }
    n
}

/// Copy as many bytes as fit from `offset` into `out`: `min(out.len(),
/// len - offset)` bytes, or none when `offset` is past the end. Returns the
/// count read; the tail of `out` keeps its old contents.
pub fn read_clamped(buf: &Vec<u8>, out: &mut Vec<u8>, offset: usize) -> (n: usize)
    ensures
        n == if offset + old(out)@.len() <= buf@.len() {
            old(out)@.len() as int
        } else if offset <= buf@.len() {
            buf@.len() - offset
        } else {
            0int
        },
        n == 0 ==> final(out)@ == old(out)@,
        n != 0 ==> final(out)@ == splice(old(out)@, 0, buf@.subrange(offset as int, offset + n)),
{
    let avail: usize = if offset > buf.len() {
        0
    } else {
        buf.len() - offset
    };
    let n: usize = if out.len() < avail {
        out.len()
    } else {
        avail
    };
    let mut i: usize = 0;
    while i < n
        invariant
            i <= n,
            n != 0 ==> offset + n <= buf@.len(),
            offset + n <= usize::MAX,
            n <= out@.len(),
            out@.len() == old(out)@.len(),
            forall|k: int| 0 <= k < i ==> out@[k] == buf@[offset + k],
            forall|k: int| i <= k < out@.len() ==> out@[k] == old(out)@[k],
        decreases n - i,
    {
        let b: u8 = buf[offset + i];
        out[i] = b;
        i = i + 1;
    }
    proof {
        if n == 0 {
            assert(out@ =~= old(out)@);
        } else {
            assert(out@ =~= splice(old(out)@, 0, buf@.subrange(offset as int, offset + n)));
        }
    }
    n
}

/// Fill `[start, end)` with zero bytes. An empty range is a no-op; `end` past
/// the region, or a reversed range, is refused like any other slicing.
pub fn zero_range(buf: &mut Vec<u8>, start: usize, end: usize) -> (r: Result<(), Error>)
    ensures
        match r {
            Ok(()) => start <= end <= old(buf)@.len() && final(buf)@ == splice(
                old(buf)@,
                start as int,
                zero_seq((end - start) as nat),
            ),
            Err(e) => {
                &&& !(start <= end <= old(buf)@.len())
                &&& final(buf)@ == old(buf)@
                &&& if end > old(buf)@.len() {
                    e.is_bounds(end as nat, old(buf)@.len())
                } else {
                    e.is_bounds(start as nat, end as nat)
                }
            },
        },
{
    if end > buf.len() {
        return Err(Error::Bounds { requested: end as u64, available: buf.len() as u64 });
    }
    if start > end {
        return Err(Error::Bounds { requested: start as u64, available: end as u64 });
    }
    let mut i: usize = start;
    while i < end
        invariant
            start <= i <= end <= buf@.len(),
            buf@.len() == old(buf)@.len(),
            forall|k: int| start <= k < i ==> buf@[k] == 0u8,
            forall|k: int|
                0 <= k < buf@.len() && !(start <= k < i) ==> buf@[k] == old(buf)@[k],
        decreases end - i,
    {
        buf[i] = 0u8;
        i = i + 1;
    }
    proof {
        assert(buf@ =~= splice(old(buf)@, start as int, zero_seq((end - start) as nat)));
    }
    Ok(())
}

/// Read the `n`-byte little-endian unsigned integer at `offset`.
pub fn read_uint_le(buf: &Vec<u8>, offset: usize, n: usize) -> (r: Result<u128, Error>)
    requires
        n <= 16,
    ensures
        match r {
            Ok(v) => offset + n <= buf@.len() && v as nat == le_at(buf@, offset as int, n as int),
            Err(e) => offset + n > buf@.len() && e.is_bounds(
                crate::error::sat64(offset as nat + n as nat),
                buf@.len(),
            ),
        },
{
    match copy_range(buf, offset, n) {
        Ok(window) => Ok(codec::decode_le(&window)),
        Err(e) => Err(e),
    }
}

/// Read the `n`-byte big-endian unsigned integer at `offset`.
pub fn read_uint_be(buf: &Vec<u8>, offset: usize, n: usize) -> (r: Result<u128, Error>)
    requires
        n <= 16,
    ensures
        match r {
            Ok(v) => offset + n <= buf@.len() && v as nat == be_at(buf@, offset as int, n as int),
            Err(e) => offset + n > buf@.len() && e.is_bounds(
                crate::error::sat64(offset as nat + n as nat),
                buf@.len(),
            ),
        },
{
    match copy_range(buf, offset, n) {
        Ok(window) => Ok(codec::decode_be(&window)),
        Err(e) => Err(e),
    }
}

/// Write `v` as `n` little-endian bytes at `offset`, or fail with the bounds
/// error and leave the region untouched.
pub fn write_uint_le(buf: &mut Vec<u8>, v: u128, offset: usize, n: usize) -> (r: Result<
    (),
    Error,
>)
    requires
        n <= 16,
    ensures
        match r {
            Ok(()) => offset + n <= old(buf)@.len() && final(buf)@ == splice(
                old(buf)@,
                offset as int,
                codec::le_bytes(v as nat, n as nat),
            ),
            Err(e) => {
                &&& offset + n > old(buf)@.len()
                &&& final(buf)@ == old(buf)@
                &&& e.is_bounds(crate::error::sat64(offset as nat + n as nat), old(buf)@.len())
            },
        },
{
    let bytes: Vec<u8> = codec::encode_le(v, n);
    write_into(buf, &bytes, offset)
}

/// Write `v` as `n` big-endian bytes at `offset`, or fail with the bounds
/// error and leave the region untouched.
pub fn write_uint_be(buf: &mut Vec<u8>, v: u128, offset: usize, n: usize) -> (r: Result<
    (),
    Error,
>)
    requires
        n <= 16,
    ensures
        match r {
            Ok(()) => offset + n <= old(buf)@.len() && final(buf)@ == splice(
                old(buf)@,
                offset as int,
                codec::be_bytes(v as nat, n as nat),
            ),
            Err(e) => {
                &&& offset + n > old(buf)@.len()
                &&& final(buf)@ == old(buf)@
                &&& e.is_bounds(crate::error::sat64(offset as nat + n as nat), old(buf)@.len())
            },
        },
{
    let bytes: Vec<u8> = codec::encode_be(v, n);
    write_into(buf, &bytes, offset)
}

/// Round trip at the region level: writing the `n`-byte little-endian
/// encoding of `v` at `off` and decoding the same window gives `v` back, for
/// every region, every in-bounds window and every value that fits.
pub proof fn lemma_le_write_then_read(s: Seq<u8>, off: int, n: nat, v: nat)
    requires
        0 <= off,
        off + n <= s.len(),
        v < codec::pow256(n),
    ensures
        le_at(splice(s, off, codec::le_bytes(v, n)), off, n as int) == v,
{
    codec::lemma_le_bytes_len(v, n);
    assert(splice(s, off, codec::le_bytes(v, n)).subrange(off, off + n) =~= codec::le_bytes(
        v,
        n,
    ));
    codec::lemma_le_round_trip(v, n);
}

/// Round trip at the region level, big-endian.
pub proof fn lemma_be_write_then_read(s: Seq<u8>, off: int, n: nat, v: nat)
    requires
        0 <= off,
        off + n <= s.len(),
        v < codec::pow256(n),
    ensures
        be_at(splice(s, off, codec::be_bytes(v, n)), off, n as int) == v,
{
    codec::lemma_be_bytes_len(v, n);
    assert(splice(s, off, codec::be_bytes(v, n)).subrange(off, off + n) =~= codec::be_bytes(
        v,
        n,
    ));
    codec::lemma_be_round_trip(v, n);
}

} // verus!

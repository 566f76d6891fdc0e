//! Streaming cursors: sequential, window-confined access to a mapped file.
//!
//! A cursor is a position inside a byte window `[start, end)` of a mapped
//! file. It can seek and operate freely inside its window, but no operation
//! through it can read or write a byte outside the absolute window bounds:
//! reads and writes are clamped to what remains, and seeking resolves
//! against the window, never against the whole file. The cursor holds no
//! borrow of the file; each operation takes the file it walks, and requires
//! the window to still lie inside the mapped length (resizing the file
//! invalidates cursors made before the resize).

use crate::engine;
use crate::error::Error;
use crate::memory::{FileView, MemoryMmapFileMut};
use vstd::prelude::*;

verus! {

/// Where a seek resolves from: the window's start, its end, or the current
/// position. Offsets from the end or the current position may be negative.
#[derive(Clone, Copy, Debug, PartialEq, Eq, Structural)]
pub enum SeekFrom {
    Start(u64),
    End(i64),
    Current(i64),
}

/// A sequential cursor confined to the byte window `[start, end)` of a
/// mapped file.
#[derive(Clone, Copy, Debug)]
pub struct RangeCursor {
    /// First byte of the window (absolute offset into the mapped region).
    pub start: usize,
    /// One past the last byte of the window (absolute offset).
    pub end: usize,
    /// The current position (absolute offset); always inside `[start, end]`.
    pub pos: usize,
}

impl RangeCursor {
    /// Well-formedness: the position never leaves the window.
    pub open spec fn wf(self) -> bool {
        self.start <= self.pos <= self.end
    }

    /// The window still lies inside a mapped region of `mapped_len` bytes.
    pub open spec fn fits(self, mapped_len: nat) -> bool {
        self.end <= mapped_len
    }

    /// The window's length in bytes.
    pub open spec fn window_spec(self) -> int {
        self.end - self.start
    }

    /// Where `whence` resolves to, relative to the window start, before
    /// clamping: seeks resolve against the window, never the whole file.
    pub open spec fn resolved_spec(self, whence: SeekFrom) -> int {
        match whence {
            SeekFrom::Start(p) => p as int,
            SeekFrom::End(d) => self.window_spec() + d,
            SeekFrom::Current(d) => (self.pos - self.start) + d,
        }
    }

    /// The window's length in bytes.
    pub fn window_len(&self) -> (r: usize)
        requires
            self.wf(),
        ensures
            r == self.window_spec(),
    {
        self.end - self.start
    }

    /// The current position, relative to the window start.
    pub fn position(&self) -> (r: u64)
        requires
            self.wf(),
        ensures
            r == self.pos - self.start,
    {
        (self.pos - self.start) as u64
    }

    /// The bytes left between the current position and the window end.
    pub fn remaining(&self) -> (r: usize)
        requires
            self.wf(),
        ensures
            r == self.end - self.pos,
    {
        self.end - self.pos
    }

    /// Move the position. A target before the window start is refused; a
    /// target past the window end is clamped to the end — the window is
    /// never escaped in either direction. Returns the new position relative
    /// to the window start.
    pub fn seek(&mut self, whence: SeekFrom) -> (r: Result<u64, Error>)
        requires
            old(self).wf(),
        ensures
            final(self).wf(),
            final(self).start == old(self).start,
            final(self).end == old(self).end,
            match r {
                Ok(p) => {
                    &&& old(self).resolved_spec(whence) >= 0
                    &&& final(self).pos - final(self).start == if old(self).resolved_spec(whence)
                        <= old(self).window_spec() {
                        old(self).resolved_spec(whence)
                    } else {
                        old(self).window_spec()
                    }
                    &&& p == final(self).pos - final(self).start
                },
                Err(e) => {
                    &&& old(self).resolved_spec(whence) < 0
                    &&& *final(self) == *old(self)
                    &&& e matches Error::IO { .. }
                },
            },
    {
        let window: usize = self.end - self.start;
        let target: i128 = match whence {
            SeekFrom::Start(p) => p as i128,
            SeekFrom::End(d) => window as i128 + d as i128,
            SeekFrom::Current(d) => (self.pos - self.start) as i128 + d as i128,
        };
        if target < 0 {
            return Err(Error::IO { cause: "seek before the start of the window".to_owned() });
        }
        let clamped: usize = if target > window as i128 {
            window
        } else {
            target as usize
        };
        self.pos = self.start + clamped;
        Ok(clamped as u64)
    }

    /// Copy as many bytes as fit from the current position into `out`:
    /// `min(out.len(), remaining)` bytes. Advances the position by the count
    /// read; the tail of `out` keeps its old contents.
    pub fn read(&mut self, file: &MemoryMmapFileMut, out: &mut Vec<u8>) -> (n: usize)
        requires
            old(self).wf(),
            old(self).fits(file@.region.len()),
        ensures
            final(self).wf(),
            final(self).fits(file@.region.len()),
            final(self).start == old(self).start,
            final(self).end == old(self).end,
            n == if old(out)@.len() <= old(self).end - old(self).pos {
                old(out)@.len() as int
            } else {
                old(self).end - old(self).pos
            },
            final(self).pos == old(self).pos + n,
            n == 0 ==> final(out)@ == old(out)@,
            n != 0 ==> final(out)@ == engine::splice(
                old(out)@,
                0,
                file@.region.subrange(old(self).pos as int, old(self).pos + n),
            ),
    {
        let want: usize = out.len();
        let room: usize = self.end - self.pos;
        let n: usize = if want <= room {
            want
        } else {
            room
        };
        let window: Vec<u8> = match file.bytes(self.pos, n) {
            Ok(w) => w,
            Err(_) => {
                proof {
                    assert(false);
                }
                Vec::new()
            },
        };
        let mut i: usize = 0;
        while i < n
            invariant
                i <= n,
                n <= out@.len(),
                out@.len() == old(out)@.len(),
                window@.len() == n,
                forall|k: int| 0 <= k < i ==> out@[k] == window@[k],
                forall|k: int| i <= k < out@.len() ==> out@[k] == old(out)@[k],
            decreases n - i,
        {
            let b: u8 = window[i];
            out[i] = b;
            i = i + 1;
        }
        self.pos = self.pos + n;
        proof {
            if n == 0 {
                assert(out@ =~= old(out)@);
            } else {
                assert(out@ =~= engine::splice(
                    old(out)@,
                    0,
                    file@.region.subrange(old(self).pos as int, old(self).pos + n as int),
                ));
            }
        }
        n
    }

    /// An owned copy of exactly `len` bytes from the current position, or
    /// the bounds error when fewer remain in the window; the position
    /// advances only on success.
    pub fn read_exact(&mut self, file: &MemoryMmapFileMut, len: usize) -> (r: Result<
        Vec<u8>,
        Error,
    >)
        requires
            old(self).wf(),
            old(self).fits(file@.region.len()),
        ensures
            final(self).wf(),
            final(self).fits(file@.region.len()),
            final(self).start == old(self).start,
            final(self).end == old(self).end,
            match r {
                Ok(v) => {
                    &&& old(self).pos + len <= old(self).end
                    &&& v@ == file@.region.subrange(old(self).pos as int, old(self).pos + len)
                    &&& final(self).pos == old(self).pos + len
                },
                Err(e) => {
                    &&& old(self).pos + len > old(self).end
                    &&& *final(self) == *old(self)
                    &&& e.is_bounds(
                        crate::error::sat64(len as nat),
                        (old(self).end - old(self).pos) as nat,
                    )
                },
            },
    {
        let room: usize = self.end - self.pos;
        if len > room {
            return Err(crate::error::range_err(0, len, room));
        }
        match file.bytes(self.pos, len) {
            Ok(v) => {
                self.pos = self.pos + len;
                Ok(v)
            },
            Err(_) => {
                proof {
                    assert(false);
                }
                Err(Error::IO { cause: String::new() })
            },
        }
    }

    /// Write as many bytes of `src` as fit at the current position:
    /// `min(src.len(), remaining)` bytes, never a byte outside the window.
    /// Advances the position by the count written.
    pub fn write(&mut self, file: &mut MemoryMmapFileMut, src: &Vec<u8>) -> (n: usize)
        requires
            old(self).wf(),
            old(self).fits(old(file)@.region.len()),
        ensures
            final(self).wf(),
            final(self).fits(final(file)@.region.len()),
            final(self).start == old(self).start,
            final(self).end == old(self).end,
            n == if src@.len() <= old(self).end - old(self).pos {
                src@.len() as int
            } else {
                old(self).end - old(self).pos
            },
            final(self).pos == old(self).pos + n,
            final(file)@ == (FileView {
                region: engine::splice(
                    old(file)@.region,
                    old(self).pos as int,
                    src@.subrange(0, n as int),
                ),
                ..old(file)@
            }),
    {
        let room: usize = self.end - self.pos;
        let n: usize = if src.len() <= room {
            src.len()
        } else {
            room
        };
        let head: Vec<u8> = match engine::copy_range(src, 0, n) {
            Ok(h) => h,
            Err(_) => {
                proof {
                    assert(false);
                }
                Vec::new()
            },
        };
        match file.write_all(&head, self.pos) {
            Ok(()) => {},
            Err(_) => {
                proof {
                    assert(false);
                }
            },
        }
        self.pos = self.pos + n;
        n
    }

    /// Write all of `src` at the current position, or fail with the bounds
    /// error when it does not fit in what remains of the window; the file
    /// and the position change only on success.
    pub fn write_all(&mut self, file: &mut MemoryMmapFileMut, src: &Vec<u8>) -> (r: Result<
        (),
        Error,
    >)
        requires
            old(self).wf(),
            old(self).fits(old(file)@.region.len()),
        ensures
            final(self).wf(),
            final(self).fits(final(file)@.region.len()),
            final(self).start == old(self).start,
            final(self).end == old(self).end,
            match r {
                Ok(()) => {
                    &&& old(self).pos + src@.len() <= old(self).end
                    &&& final(file)@ == (FileView {
                        region: engine::splice(old(file)@.region, old(self).pos as int, src@),
                        ..old(file)@
                    })
                    &&& final(self).pos == old(self).pos + src@.len()
                },
                Err(e) => {
                    &&& old(self).pos + src@.len() > old(self).end
                    &&& final(file)@ == old(file)@
                    &&& *final(self) == *old(self)
                    &&& e.is_bounds(
                        crate::error::sat64(src@.len()),
                        (old(self).end - old(self).pos) as nat,
                    )
                },
            },
    {
        let room: usize = self.end - self.pos;
        if src.len() > room {
            return Err(crate::error::range_err(0, src.len(), room));
        }
        match file.write_all(src, self.pos) {
            Ok(()) => {
                self.pos = self.pos + src.len();
                Ok(())
            },
            Err(_) => {
                proof {
                    assert(false);
                }
                Err(Error::IO { cause: String::new() })
            },
        }
    }
}

impl MemoryMmapFileMut {
    /// A sequential read cursor over `[offset, mapped_len)`, or the bounds
    /// error when `offset` is past the mapped length.
    pub fn reader(&self, offset: usize) -> (r: Result<RangeCursor, Error>)
        ensures
            match r {
                Ok(c) => {
                    &&& offset <= self@.region.len()
                    &&& c.wf()
                    &&& c.fits(self@.region.len())
                    &&& c.start == offset && c.pos == offset && c.end == self@.region.len()
                },
                Err(e) => offset > self@.region.len() && e.is_bounds(
                    offset as nat,
                    self@.region.len(),
                ),
            },
    {
        let len: usize = self.len();
        if offset > len {
            return Err(crate::error::range_err(offset, 0, len));
        }
        Ok(RangeCursor { start: offset, end: len, pos: offset })
    }

    /// A sequential write cursor over `[offset, mapped_len)`; same window
    /// rule as [`Self::reader`].
    pub fn writer(&self, offset: usize) -> (r: Result<RangeCursor, Error>)
        ensures
            match r {
                Ok(c) => {
                    &&& offset <= self@.region.len()
                    &&& c.wf()
                    &&& c.fits(self@.region.len())
                    &&& c.start == offset && c.pos == offset && c.end == self@.region.len()
                },
                Err(e) => offset > self@.region.len() && e.is_bounds(
                    offset as nat,
                    self@.region.len(),
                ),
            },
    {
        self.reader(offset)
    }

    /// A read cursor confined to `[offset, offset + len)`, or the bounds
    /// error when that window does not lie inside the mapped length.
    pub fn range_reader(&self, offset: usize, len: usize) -> (r: Result<RangeCursor, Error>)
        ensures
            match r {
                Ok(c) => {
                    &&& offset + len <= self@.region.len()
                    &&& c.wf()
                    &&& c.fits(self@.region.len())
                    &&& c.start == offset && c.pos == offset && c.end == offset + len
                },
                Err(e) => offset + len > self@.region.len() && e.is_bounds(
                    crate::error::sat64(offset as nat + len as nat),
                    self@.region.len(),
                ),
            },
    {
        let mapped: usize = self.len();
        if offset > mapped || len > mapped - offset {
            return Err(crate::error::range_err(offset, len, mapped));
        }
        Ok(RangeCursor { start: offset, end: offset + len, pos: offset })
    }

    /// A write cursor confined to `[offset, offset + len)`; same window rule
    /// as [`Self::range_reader`].
    pub fn range_writer(&self, offset: usize, len: usize) -> (r: Result<RangeCursor, Error>)
        ensures
            match r {
                Ok(c) => {
                    &&& offset + len <= self@.region.len()
                    &&& c.wf()
                    &&& c.fits(self@.region.len())
                    &&& c.start == offset && c.pos == offset && c.end == offset + len
                },
                Err(e) => offset + len > self@.region.len() && e.is_bounds(
                    crate::error::sat64(offset as nat + len as nat),
                    self@.region.len(),
                ),
            },
    {
        self.range_reader(offset, len)
    }
}

} // verus!

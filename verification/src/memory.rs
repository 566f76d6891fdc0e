//! The memory-backed mapped file: the reference implementation of the
//! mapped-region lifecycle.
//!
//! A real mapped file pairs a backing store (a file on disk) with a mapped
//! region (the live in-process view of its bytes). Here both halves are held
//! as plain byte vectors: `backing` stands for what the backing store
//! durably holds — what an independent fresh open of the same path observes —
//! and `region` stands for the live mapping. Every lifecycle transition is
//! specified over the [`FileView`] abstraction of that pair:
//!
//! * writes touch only the region;
//! * `flush` carries the region into the backing store — except for a
//!   copy-on-write mapping, whose writes are never carried back;
//! * `truncate` flushes, resizes the backing store (zero-extending on
//!   growth), and remaps the region over the resized store;
//! * `freeze` consumes the writable file and yields a read-only one, so
//!   "writable after freeze" is unrepresentable.

use crate::codec;
use crate::engine;
use crate::error::Error;
use crate::options::Options;
use vstd::prelude::*;

verus! {

/// Whether a writable mapping carries writes back to its backing store.
#[derive(Clone, Copy, Debug, PartialEq, Eq, Structural)]
pub enum MmapMode {
    /// Writes become durable on flush.
    Normal,
    /// Copy-on-write: writes stay private to this mapping forever.
    Cow,
}

/// The abstract state of a writable mapped file: the durable bytes of its
/// backing store, the bytes of its live mapped region, and the mode and
/// removal flags.
pub ghost struct FileView {
    /// The identifying path of the backing store.
    pub path: Seq<char>,
    /// What the backing store durably holds.
    pub backing: Seq<u8>,
    /// What the live mapping holds.
    pub region: Seq<u8>,
    /// True for a copy-on-write mapping.
    pub cow: bool,
    /// The options the file was created or opened with; immutable once
    /// attached, and retained so a resize can rebuild an equivalent
    /// mapping.
    pub opts: Options,
    /// True when the caller asked for the backing store to be deleted at
    /// teardown.
    pub remove: bool,
}

impl FileView {
    /// Well-formedness: a mapping is never longer than what its backing
    /// store can back; remapping keeps the two in lockstep.
    pub open spec fn wf(self) -> bool {
        self.backing.len() == self.region.len()
    }

    /// The state after a flush: the region's bytes have been carried into
    /// the backing store — unless the mapping is copy-on-write, whose
    /// private writes are never carried back.
    pub open spec fn flushed(self) -> FileView {
        if self.cow {
            self
        } else {
            FileView { backing: self.region, ..self }
        }
    }

    /// The state after truncating to `n` bytes: outstanding writes of a
    /// non-empty ordinary mapping are flushed first, then the backing store
    /// is cut or zero-extended to `n` bytes, and the region is remapped over
    /// the resized store.
    pub open spec fn truncated(self, n: nat) -> FileView {
        let flushed = if !self.cow && self.region.len() > 0 {
            self.flushed()
        } else {
            self
        };
        FileView {
            backing: engine::resized(flushed.backing, n),
            region: engine::resized(flushed.backing, n),
            ..self
        }
    }
}

/// A writable memory-backed mapped file.
pub struct MemoryMmapFileMut {
    path: String,
    backing: Vec<u8>,
    region: Vec<u8>,
    opts: Options,
    mode: MmapMode,
    remove_on_drop: bool,
}

/// A read-only memory-backed mapped file, the result of freezing a writable
/// one. It offers no mutation: there is no path back to a writable mapping.
pub struct MemoryMmapFile {
    path: String,
    region: Vec<u8>,
    executable: bool,
}

impl View for MemoryMmapFileMut {
    type V = FileView;

    closed spec fn view(&self) -> FileView {
        FileView {
            path: self.path@,
            backing: self.backing@,
            region: self.region@,
            cow: self.mode is Cow,
            opts: self.opts,
            remove: self.remove_on_drop,
        }
    }
}

impl View for MemoryMmapFile {
    type V = Seq<u8>;

    closed spec fn view(&self) -> Seq<u8> {
        self.region@
    }
}

impl MemoryMmapFileMut {
    /// An empty writable file under the given (synthetic) path, with the
    /// default options. Before writing, truncate it to the wanted size.
    pub fn new(path: String) -> (r: MemoryMmapFileMut)
        ensures
            r@.wf(),
            r@.path == path@,
            r@.backing == Seq::<u8>::empty(),
            r@.region == Seq::<u8>::empty(),
            !r@.cow,
            r@.opts == Options::spec_new(),
            !r@.remove,
    {
        MemoryMmapFileMut {
            path,
            backing: Vec::new(),
            region: Vec::new(),
            opts: Options::new(),
            mode: MmapMode::Normal,
            remove_on_drop: false,
        }
    }

    /// A freshly created file: its backing store starts as the preallocated
    /// zero bytes the options ask for (none when `max_size` is zero), and the
    /// region maps all of them.
    pub fn create(path: String, opts: Options) -> (r: MemoryMmapFileMut)
        requires
            opts.max_size <= usize::MAX,
        ensures
            r@.wf(),
            r@.path == path@,
            r@.backing == engine::zero_seq(opts.max_size as nat),
            r@.region == engine::zero_seq(opts.max_size as nat),
            !r@.cow,
            r@.opts == opts,
            !r@.remove,
    {
        let prealloc: usize = match opts.create_prealloc_len() {
            Some(n) => n as usize,
            None => 0,
        };
        let backing: Vec<u8> = engine::zeros(prealloc);
        let region: Vec<u8> = engine::zeros(prealloc);
        MemoryMmapFileMut {
            path,
            backing,
            region,
            opts,
            mode: MmapMode::Normal,
            remove_on_drop: false,
        }
    }

    /// An existing backing store of the given bytes, opened and mapped
    /// read-write without the grow-on-open rule.
    pub fn open(path: String, contents: Vec<u8>, opts: Options) -> (r: MemoryMmapFileMut)
        ensures
            r@.wf(),
            r@.path == path@,
            r@.backing == contents@,
            r@.region == contents@,
            !r@.cow,
            r@.opts == opts,
            !r@.remove,
    {
        let backing: Vec<u8> = contents;
        let region: Vec<u8> = engine::copy_all(&backing);
        MemoryMmapFileMut {
            path,
            backing,
            region,
            opts,
            mode: MmapMode::Normal,
            remove_on_drop: false,
        }
    }

    /// An existing backing store opened with append-safe semantics: when the
    /// store is empty and a nonzero `max_size` is configured, it is grown to
    /// `max_size` zero bytes before mapping, so a writer gets its guaranteed
    /// initial capacity.
    pub fn open_exist(path: String, contents: Vec<u8>, opts: Options) -> (r: MemoryMmapFileMut)
        requires
            opts.max_size <= usize::MAX,
        ensures
            r@.wf(),
            r@.path == path@,
            r@.backing == if contents@.len() == 0 && opts.max_size > 0 {
                engine::zero_seq(opts.max_size as nat)
            } else {
                contents@
            },
            r@.region == r@.backing,
            !r@.cow,
            r@.opts == opts,
            !r@.remove,
    {
        let backing: Vec<u8> = Self::grown_backing(contents, &opts);
        let region: Vec<u8> = engine::copy_all(&backing);
        MemoryMmapFileMut {
            path,
            backing,
            region,
            opts,
            mode: MmapMode::Normal,
            remove_on_drop: false,
        }
    }

    /// An existing backing store opened copy-on-write: same grow-on-open
    /// preamble as [`Self::open_exist`], but writes through the mapping stay
    /// private and are never carried back to the backing store.
    pub fn open_cow(path: String, contents: Vec<u8>, opts: Options) -> (r: MemoryMmapFileMut)
        requires
            opts.max_size <= usize::MAX,
        ensures
            r@.wf(),
            r@.path == path@,
            r@.backing == if contents@.len() == 0 && opts.max_size > 0 {
                engine::zero_seq(opts.max_size as nat)
            } else {
                contents@
            },
            r@.region == r@.backing,
            r@.cow,
            r@.opts == opts,
            !r@.remove,
    {
        let backing: Vec<u8> = Self::grown_backing(contents, &opts);
        let region: Vec<u8> = engine::copy_all(&backing);
        MemoryMmapFileMut {
            path,
            backing,
            region,
            opts,
            mode: MmapMode::Cow,
            remove_on_drop: false,
        }
    }

    /// The grow-on-open rule over a backing store's bytes.
    fn grown_backing(contents: Vec<u8>, opts: &Options) -> (r: Vec<u8>)
        requires
            opts.max_size <= usize::MAX,
        ensures
            r@ == if contents@.len() == 0 && opts.max_size > 0 {
                engine::zero_seq(opts.max_size as nat)
            } else {
                contents@
            },
    {
        let existing: u64 = contents.len() as u64;
        match opts.grow_on_open_len(existing) {
            Some(n) => engine::zeros(n as usize),
            None => contents,
        }
    }

    /// The identifying path of the backing store.
    pub fn path(&self) -> (r: &String)
        ensures
            r@ == self@.path,
    {
        &self.path
    }

    /// The options this file was created or opened with; they are retained
    /// so a resize can rebuild an equivalent mapping.
    pub fn options(&self) -> (r: &Options)
        ensures
            *r == self@.opts,
    {
        &self.opts
    }

    /// The mapped length in bytes.
    pub fn len(&self) -> (r: usize)
        ensures
            r == self@.region.len(),
    {
        self.region.len()
    }

    /// True iff nothing is mapped.
    pub fn is_empty(&self) -> (r: bool)
        ensures
            r == (self@.region.len() == 0),
    {
        self.region.len() == 0
    }

    /// True iff this mapping is copy-on-write.
    pub fn is_cow(&self) -> (r: bool)
        ensures
            r == self@.cow,
    {
        match self.mode {
            MmapMode::Cow => true,
            MmapMode::Normal => false,
        }
    }

    /// Ask for (or cancel) deletion of the backing store at teardown. The
    /// flag changes nothing until the file is discarded.
    pub fn set_remove_on_drop(&mut self, remove: bool)
        ensures
            final(self)@ == (FileView { remove, ..old(self)@ }),
    {
        self.remove_on_drop = remove;
    }

    /// True iff the backing store is to be deleted at teardown.
    pub fn is_remove_on_drop(&self) -> (r: bool)
        ensures
            r == self@.remove,
    {
        self.remove_on_drop
    }

    /// The mapped bytes.
    pub fn as_slice(&self) -> (r: &[u8])
        ensures
            r@ == self@.region,
    {
        self.region.as_slice()
    }

    /// The bytes the backing store durably holds: what an independent fresh
    /// open of the same path observes right now.
    pub fn backing(&self) -> (r: &Vec<u8>)
        ensures
            r@ == self@.backing,
    {
        &self.backing
    }

    /// Carry the mapped region's bytes into the backing store. A no-op for a
    /// copy-on-write mapping, whose writes never reach the backing store; it
    /// cannot fail either way.
    pub fn flush(&mut self) -> (r: Result<(), Error>)
        ensures
            r is Ok,
            final(self)@ == old(self)@.flushed(),
    {
        match self.mode {
            MmapMode::Cow => Ok(()),
            MmapMode::Normal => {
                self.backing = engine::copy_all(&self.region);
                Ok(())
            },
        }
    }

    /// Carry the `len` region bytes at `offset` into the backing store, or
    /// fail with the bounds error. A no-op (still bounds-checked) for a
    /// copy-on-write mapping.
    pub fn flush_range(&mut self, offset: usize, len: usize) -> (r: Result<(), Error>)
        requires
            old(self)@.wf(),
        ensures
            final(self)@.wf(),
            match r {
                Ok(()) => {
                    &&& offset + len <= old(self)@.region.len()
                    &&& final(self)@ == if old(self)@.cow {
                        old(self)@
                    } else {
                        FileView {
                            backing: engine::splice(
                                old(self)@.backing,
                                offset as int,
                                old(self)@.region.subrange(offset as int, offset + len),
                            ),
                            ..old(self)@
                        }
                    }
                },
                Err(e) => {
                    &&& offset + len > old(self)@.region.len()
                    &&& final(self)@ == old(self)@
                    &&& e.is_bounds(
                        crate::error::sat64(offset as nat + len as nat),
                        old(self)@.region.len(),
                    )
                },
            },
    {
        let window: Vec<u8> = match engine::copy_range(&self.region, offset, len) {
            Ok(w) => w,
            Err(e) => {
                return Err(e);
            },
        };
        match self.mode {
            MmapMode::Cow => Ok(()),
            MmapMode::Normal => {
                match engine::write_into(&mut self.backing, &window, offset) {
                    Ok(()) => Ok(()),
                    Err(e) => {
                        proof {
                            assert(false);
                        }
                        Err(e)
                    },
                }
            },
        }
    }

    /// The capstone transition: flush outstanding writes of a non-empty
    /// ordinary mapping, resize the backing store to `new_size` (cutting, or
    /// zero-extending on growth), and remap the region over the resized
    /// store. Zero is a legal, degenerate size. For a copy-on-write mapping
    /// nothing is flushed, so private writes are discarded by the remap.
    pub fn truncate(&mut self, new_size: u64) -> (r: Result<(), Error>)
        requires
            new_size <= usize::MAX,
        ensures
            r is Ok,
            final(self)@ == old(self)@.truncated(new_size as nat),
            final(self)@.wf(),
    {
        let must_flush: bool = match self.mode {
            MmapMode::Normal => self.region.len() > 0,
            MmapMode::Cow => false,
        };
        if must_flush {
            self.backing = engine::copy_all(&self.region);
        }
        engine::resize_bytes(&mut self.backing, new_size as usize);
        self.region = engine::copy_all(&self.backing);
        Ok(())
    }

    /// Tear the file down: drop the mapping, empty the backing store and
    /// delete it from under its path. Consuming the file makes any further
    /// use of the torn-down object unrepresentable; for an in-memory
    /// backing store no step of the teardown can fail.
    pub fn remove(self) -> (r: Result<(), Error>)
        ensures
            r is Ok,
    {
        Ok(())
    }

    /// Close the file: flush outstanding writes, drop the mapping, and when
    /// `max_sz` is not negative cut the backing store to that final size.
    /// Returns the bytes the backing store holds after the close — what the
    /// path's next opener observes.
    pub fn close_with_truncate(self, max_sz: i64) -> (r: Vec<u8>)
        requires
            max_sz <= usize::MAX,
        ensures
            r@ == if max_sz >= 0 {
                engine::resized(self@.flushed().backing, max_sz as nat)
            } else {
                self@.flushed().backing
            },
    {
        let mut me = self;
        let _flush_ok: Result<(), Error> = me.flush();
        let MemoryMmapFileMut { mut backing, .. } = me;
        if max_sz >= 0 {
            engine::resize_bytes(&mut backing, max_sz as usize);
        }
        backing
    }

    /// Freeze this writable file into a read-only one. The writable mapping
    /// is given up in the process; there is no path back.
    pub fn freeze(self) -> (r: MemoryMmapFile)
        ensures
            r@ == self@.region,
            r.spec_path() == self@.path,
            !r.is_exec(),
    {
        let MemoryMmapFileMut { path, region, .. } = self;
        MemoryMmapFile { path, region, executable: false }
    }


    /// Copy as much of `src` as fits at `offset`: `min(src.len(), len -
    /// offset)` bytes, or none when `offset` is past the end. Returns the
    /// count written; it never fails, and a short count is how callers
    /// detect truncation.
    pub fn write(&mut self, src: &Vec<u8>, offset: usize) -> (n: usize)
        ensures
            n == if offset + src@.len() <= old(self)@.region.len() {
                src@.len() as int
            } else if offset <= old(self)@.region.len() {
                old(self)@.region.len() - offset
            } else {
                0int
            },
            final(self)@ == (FileView {
                region: engine::splice(
                    old(self)@.region,
                    offset as int,
                    src@.subrange(0, n as int),
                ),
                ..old(self)@
            }),
    {
        engine::write_clamped(&mut self.region, src, offset)
    }

    /// Write all of `src` at `offset`, or fail with the bounds error and
    /// leave the file untouched.
    pub fn write_all(&mut self, src: &Vec<u8>, offset: usize) -> (r: Result<(), Error>)
        ensures
            match r {
                Ok(()) => offset + src@.len() <= old(self)@.region.len() && final(self)@
                    == (FileView {
                    region: engine::splice(old(self)@.region, offset as int, src@),
                    ..old(self)@
                }),
                Err(e) => {
                    &&& offset + src@.len() > old(self)@.region.len()
                    &&& final(self)@ == old(self)@
                    &&& e.is_bounds(
                        crate::error::sat64(offset as nat + src@.len()),
                        old(self)@.region.len(),
                    )
                },
            },
    {
        engine::write_into(&mut self.region, src, offset)
    }

    /// Copy as many mapped bytes as fit from `offset` into `out`:
    /// `min(out.len(), len - offset)` bytes, or none when `offset` is past
    /// the end. Returns the count read; the tail of `out` keeps its old
    /// contents.
    pub fn read(&self, out: &mut Vec<u8>, offset: usize) -> (n: usize)
        ensures
            n == if offset + old(out)@.len() <= self@.region.len() {
                old(out)@.len() as int
            } else if offset <= self@.region.len() {
                self@.region.len() - offset
            } else {
                0int
            },
            n == 0 ==> final(out)@ == old(out)@,
            n != 0 ==> final(out)@ == engine::splice(
                old(out)@,
                0,
                self@.region.subrange(offset as int, offset + n),
            ),
    {
        engine::read_clamped(&self.region, out, offset)
    }

    /// An owned copy of the `len` mapped bytes at `offset`, or the bounds
    /// error naming the requested and the available length.
    pub fn bytes(&self, offset: usize, len: usize) -> (r: Result<Vec<u8>, Error>)
        ensures
            match r {
                Ok(v) => offset + len <= self@.region.len() && v@ == self@.region.subrange(
                    offset as int,
                    offset + len,
                ),
                Err(e) => offset + len > self@.region.len() && e.is_bounds(
                    crate::error::sat64(offset as nat + len as nat),
                    self@.region.len(),
                ),
            },
    {
        engine::copy_range(&self.region, offset, len)
    }

    /// An owned copy of the `len` mapped bytes at `offset`; same contract as
    /// [`Self::bytes`].
    pub fn copy_range_to_vec(&self, offset: usize, len: usize) -> (r: Result<Vec<u8>, Error>)
        ensures
            match r {
                Ok(v) => offset + len <= self@.region.len() && v@ == self@.region.subrange(
                    offset as int,
                    offset + len,
                ),
                Err(e) => offset + len > self@.region.len() && e.is_bounds(
                    crate::error::sat64(offset as nat + len as nat),
                    self@.region.len(),
                ),
            },
    {
        engine::copy_range(&self.region, offset, len)
    }

    /// An owned copy of the whole mapped region.
    pub fn copy_all_to_vec(&self) -> (r: Vec<u8>)
        ensures
            r@ == self@.region,
    {
        engine::copy_all(&self.region)
    }

    /// Fill the mapped bytes in `[start, end)` with zeroes. An empty range
    /// is a no-op; `end` past the mapped length, or a reversed range, is
    /// refused like any other slicing and leaves the file untouched.
    pub fn zero_range(&mut self, start: usize, end: usize) -> (r: Result<(), Error>)
        ensures
            match r {
                Ok(()) => start <= end <= old(self)@.region.len() && final(self)@ == (FileView {
                    region: engine::splice(
                        old(self)@.region,
                        start as int,
                        engine::zero_seq((end - start) as nat),
                    ),
                    ..old(self)@
                }),
                Err(e) => {
                    &&& !(start <= end <= old(self)@.region.len())
                    &&& final(self)@ == old(self)@
                    &&& if end > old(self)@.region.len() {
                        e.is_bounds(end as nat, old(self)@.region.len())
                    } else {
                        e.is_bounds(start as nat, end as nat)
                    }
                },
            },
    {
        engine::zero_range(&mut self.region, start, end)
    }

    /// Read the `u8` stored in the byte at `offset`.
    pub fn read_u8(&self, offset: usize) -> (r: Result<u8, Error>)
        ensures
            match r {
                Ok(v) => offset + 1 <= self@.region.len() && v as nat == engine::be_at(self@.region, offset as int, 1),
                Err(e) => offset + 1 > self@.region.len() && e.is_bounds(
                    crate::error::sat64(offset as nat + 1),
                    self@.region.len(),
                ),
            },
    {
        match engine::read_uint_be(&self.region, offset, 1) {
            Ok(v) => {
                proof {
                    codec::lemma_be_decode_bound(
                        self.region@.subrange(offset as int, offset + 1),
                    );
                    reveal_with_fuel(codec::pow256, 2);
                }
                Ok(v as u8)
            },
            Err(e) => Err(e),
        }
    }

    /// Write `v` into the byte at `offset`, or fail with the bounds error
    /// and leave the file untouched.
    pub fn write_u8(&mut self, v: u8, offset: usize) -> (r: Result<(), Error>)
        ensures
            match r {
                Ok(()) => offset + 1 <= old(self)@.region.len() && final(self)@
                    == (FileView {
                    region: engine::splice(
                        old(self)@.region,
                        offset as int,
                        codec::be_bytes(v as nat, 1),
                    ),
                    ..old(self)@
                }),
                Err(e) => {
                    &&& offset + 1 > old(self)@.region.len()
                    &&& final(self)@ == old(self)@
                    &&& e.is_bounds(
                        crate::error::sat64(offset as nat + 1),
                        old(self)@.region.len(),
                    )
                },
            },
    {
        engine::write_uint_be(&mut self.region, v as u128, offset, 1)
    }

    /// Read the `u16` whose big-endian encoding occupies the 2
    /// bytes at `offset`.
    pub fn read_u16(&self, offset: usize) -> (r: Result<u16, Error>)
        ensures
            match r {
                Ok(v) => offset + 2 <= self@.region.len() && v as nat == engine::be_at(self@.region, offset as int, 2),
                Err(e) => offset + 2 > self@.region.len() && e.is_bounds(
                    crate::error::sat64(offset as nat + 2),
                    self@.region.len(),
                ),
            },
    {
        match engine::read_uint_be(&self.region, offset, 2) {
            Ok(v) => {
                proof {
                    codec::lemma_be_decode_bound(
                        self.region@.subrange(offset as int, offset + 2),
                    );
                    reveal_with_fuel(codec::pow256, 3);
                }
                Ok(v as u16)
            },
            Err(e) => Err(e),
        }
    }

    /// Write `v` as its 2-byte big-endian encoding at `offset`, or
    /// fail with the bounds error and leave the file untouched.
    pub fn write_u16(&mut self, v: u16, offset: usize) -> (r: Result<(), Error>)
        ensures
            match r {
                Ok(()) => offset + 2 <= old(self)@.region.len() && final(self)@
                    == (FileView {
                    region: engine::splice(
                        old(self)@.region,
                        offset as int,
                        codec::be_bytes(v as nat, 2),
                    ),
                    ..old(self)@
                }),
                Err(e) => {
                    &&& offset + 2 > old(self)@.region.len()
                    &&& final(self)@ == old(self)@
                    &&& e.is_bounds(
                        crate::error::sat64(offset as nat + 2),
                        old(self)@.region.len(),
                    )
                },
            },
    {
        engine::write_uint_be(&mut self.region, v as u128, offset, 2)
    }

    /// Read the `u16` whose little-endian encoding occupies the 2
    /// bytes at `offset`.
    pub fn read_u16_le(&self, offset: usize) -> (r: Result<u16, Error>)
        ensures
            match r {
                Ok(v) => offset + 2 <= self@.region.len() && v as nat == engine::le_at(self@.region, offset as int, 2),
                Err(e) => offset + 2 > self@.region.len() && e.is_bounds(
                    crate::error::sat64(offset as nat + 2),
                    self@.region.len(),
                ),
            },
    {
        match engine::read_uint_le(&self.region, offset, 2) {
            Ok(v) => {
                proof {
                    codec::lemma_le_decode_bound(
                        self.region@.subrange(offset as int, offset + 2),
                    );
                    reveal_with_fuel(codec::pow256, 3);
                }
                Ok(v as u16)
            },
            Err(e) => Err(e),
        }
    }

    /// Write `v` as its 2-byte little-endian encoding at `offset`, or
    /// fail with the bounds error and leave the file untouched.
    pub fn write_u16_le(&mut self, v: u16, offset: usize) -> (r: Result<(), Error>)
        ensures
            match r {
                Ok(()) => offset + 2 <= old(self)@.region.len() && final(self)@
                    == (FileView {
                    region: engine::splice(
                        old(self)@.region,
                        offset as int,
                        codec::le_bytes(v as nat, 2),
                    ),
                    ..old(self)@
                }),
                Err(e) => {
                    &&& offset + 2 > old(self)@.region.len()
                    &&& final(self)@ == old(self)@
                    &&& e.is_bounds(
                        crate::error::sat64(offset as nat + 2),
                        old(self)@.region.len(),
                    )
                },
            },
    {
        engine::write_uint_le(&mut self.region, v as u128, offset, 2)
    }

    /// Read the `u32` whose big-endian encoding occupies the 4
    /// bytes at `offset`.
    pub fn read_u32(&self, offset: usize) -> (r: Result<u32, Error>)
        ensures
            match r {
                Ok(v) => offset + 4 <= self@.region.len() && v as nat == engine::be_at(self@.region, offset as int, 4),
                Err(e) => offset + 4 > self@.region.len() && e.is_bounds(
                    crate::error::sat64(offset as nat + 4),
                    self@.region.len(),
                ),
            },
    {
        match engine::read_uint_be(&self.region, offset, 4) {
            Ok(v) => {
                proof {
                    codec::lemma_be_decode_bound(
                        self.region@.subrange(offset as int, offset + 4),
                    );
                    reveal_with_fuel(codec::pow256, 5);
                }
                Ok(v as u32)
            },
            Err(e) => Err(e),
        }
    }

    /// Write `v` as its 4-byte big-endian encoding at `offset`, or
    /// fail with the bounds error and leave the file untouched.
    pub fn write_u32(&mut self, v: u32, offset: usize) -> (r: Result<(), Error>)
        ensures
            match r {
                Ok(()) => offset + 4 <= old(self)@.region.len() && final(self)@
                    == (FileView {
                    region: engine::splice(
                        old(self)@.region,
                        offset as int,
                        codec::be_bytes(v as nat, 4),
                    ),
                    ..old(self)@
                }),
                Err(e) => {
                    &&& offset + 4 > old(self)@.region.len()
                    &&& final(self)@ == old(self)@
                    &&& e.is_bounds(
                        crate::error::sat64(offset as nat + 4),
                        old(self)@.region.len(),
                    )
                },
            },
    {
        engine::write_uint_be(&mut self.region, v as u128, offset, 4)
    }

    /// Read the `u32` whose little-endian encoding occupies the 4
    /// bytes at `offset`.
    pub fn read_u32_le(&self, offset: usize) -> (r: Result<u32, Error>)
        ensures
            match r {
                Ok(v) => offset + 4 <= self@.region.len() && v as nat == engine::le_at(self@.region, offset as int, 4),
                Err(e) => offset + 4 > self@.region.len() && e.is_bounds(
                    crate::error::sat64(offset as nat + 4),
                    self@.region.len(),
                ),
            },
    {
        match engine::read_uint_le(&self.region, offset, 4) {
            Ok(v) => {
                proof {
                    codec::lemma_le_decode_bound(
                        self.region@.subrange(offset as int, offset + 4),
                    );
                    reveal_with_fuel(codec::pow256, 5);
                }
                Ok(v as u32)
            },
            Err(e) => Err(e),
        }
    }

    /// Write `v` as its 4-byte little-endian encoding at `offset`, or
    /// fail with the bounds error and leave the file untouched.
    pub fn write_u32_le(&mut self, v: u32, offset: usize) -> (r: Result<(), Error>)
        ensures
            match r {
                Ok(()) => offset + 4 <= old(self)@.region.len() && final(self)@
                    == (FileView {
                    region: engine::splice(
                        old(self)@.region,
                        offset as int,
                        codec::le_bytes(v as nat, 4),
                    ),
                    ..old(self)@
                }),
                Err(e) => {
                    &&& offset + 4 > old(self)@.region.len()
                    &&& final(self)@ == old(self)@
                    &&& e.is_bounds(
                        crate::error::sat64(offset as nat + 4),
                        old(self)@.region.len(),
                    )
                },
            },
    {
        engine::write_uint_le(&mut self.region, v as u128, offset, 4)
    }

    /// Read the `u64` whose big-endian encoding occupies the 8
    /// bytes at `offset`.
    pub fn read_u64(&self, offset: usize) -> (r: Result<u64, Error>)
        ensures
            match r {
                Ok(v) => offset + 8 <= self@.region.len() && v as nat == engine::be_at(self@.region, offset as int, 8),
                Err(e) => offset + 8 > self@.region.len() && e.is_bounds(
                    crate::error::sat64(offset as nat + 8),
                    self@.region.len(),
                ),
            },
    {
        match engine::read_uint_be(&self.region, offset, 8) {
            Ok(v) => {
                proof {
                    codec::lemma_be_decode_bound(
                        self.region@.subrange(offset as int, offset + 8),
                    );
                    reveal_with_fuel(codec::pow256, 9);
                }
                Ok(v as u64)
            },
            Err(e) => Err(e),
        }
    }

    /// Write `v` as its 8-byte big-endian encoding at `offset`, or
    /// fail with the bounds error and leave the file untouched.
    pub fn write_u64(&mut self, v: u64, offset: usize) -> (r: Result<(), Error>)
        ensures
            match r {
                Ok(()) => offset + 8 <= old(self)@.region.len() && final(self)@
                    == (FileView {
                    region: engine::splice(
                        old(self)@.region,
                        offset as int,
                        codec::be_bytes(v as nat, 8),
                    ),
                    ..old(self)@
                }),
                Err(e) => {
                    &&& offset + 8 > old(self)@.region.len()
                    &&& final(self)@ == old(self)@
                    &&& e.is_bounds(
                        crate::error::sat64(offset as nat + 8),
                        old(self)@.region.len(),
                    )
                },
            },
    {
        engine::write_uint_be(&mut self.region, v as u128, offset, 8)
    }

    /// Read the `u64` whose little-endian encoding occupies the 8
    /// bytes at `offset`.
    pub fn read_u64_le(&self, offset: usize) -> (r: Result<u64, Error>)
        ensures
            match r {
                Ok(v) => offset + 8 <= self@.region.len() && v as nat == engine::le_at(self@.region, offset as int, 8),
                Err(e) => offset + 8 > self@.region.len() && e.is_bounds(
                    crate::error::sat64(offset as nat + 8),
                    self@.region.len(),
                ),
            },
    {
        match engine::read_uint_le(&self.region, offset, 8) {
            Ok(v) => {
                proof {
                    codec::lemma_le_decode_bound(
                        self.region@.subrange(offset as int, offset + 8),
                    );
                    reveal_with_fuel(codec::pow256, 9);
                }
                Ok(v as u64)
            },
            Err(e) => Err(e),
        }
    }

    /// Write `v` as its 8-byte little-endian encoding at `offset`, or
    /// fail with the bounds error and leave the file untouched.
    pub fn write_u64_le(&mut self, v: u64, offset: usize) -> (r: Result<(), Error>)
        ensures
            match r {
                Ok(()) => offset + 8 <= old(self)@.region.len() && final(self)@
                    == (FileView {
                    region: engine::splice(
                        old(self)@.region,
                        offset as int,
                        codec::le_bytes(v as nat, 8),
                    ),
                    ..old(self)@
                }),
                Err(e) => {
                    &&& offset + 8 > old(self)@.region.len()
                    &&& final(self)@ == old(self)@
                    &&& e.is_bounds(
                        crate::error::sat64(offset as nat + 8),
                        old(self)@.region.len(),
                    )
                },
            },
    {
        engine::write_uint_le(&mut self.region, v as u128, offset, 8)
    }

    /// Read the `u128` whose big-endian encoding occupies the 16
    /// bytes at `offset`.
    pub fn read_u128(&self, offset: usize) -> (r: Result<u128, Error>)
        ensures
            match r {
                Ok(v) => offset + 16 <= self@.region.len() && v as nat == engine::be_at(self@.region, offset as int, 16),
                Err(e) => offset + 16 > self@.region.len() && e.is_bounds(
                    crate::error::sat64(offset as nat + 16),
                    self@.region.len(),
                ),
            },
    {
        match engine::read_uint_be(&self.region, offset, 16) {
            Ok(v) => {
                proof {
                    codec::lemma_be_decode_bound(
                        self.region@.subrange(offset as int, offset + 16),
                    );
                    reveal_with_fuel(codec::pow256, 17);
                }
                Ok(v)
            },
            Err(e) => Err(e),
        }
    }

    /// Write `v` as its 16-byte big-endian encoding at `offset`, or
    /// fail with the bounds error and leave the file untouched.
    pub fn write_u128(&mut self, v: u128, offset: usize) -> (r: Result<(), Error>)
        ensures
            match r {
                Ok(()) => offset + 16 <= old(self)@.region.len() && final(self)@
                    == (FileView {
                    region: engine::splice(
                        old(self)@.region,
                        offset as int,
                        codec::be_bytes(v as nat, 16),
                    ),
                    ..old(self)@
                }),
                Err(e) => {
                    &&& offset + 16 > old(self)@.region.len()
                    &&& final(self)@ == old(self)@
                    &&& e.is_bounds(
                        crate::error::sat64(offset as nat + 16),
                        old(self)@.region.len(),
                    )
                },
            },
    {
        engine::write_uint_be(&mut self.region, v, offset, 16)
    }

    /// Read the `u128` whose little-endian encoding occupies the 16
    /// bytes at `offset`.
    pub fn read_u128_le(&self, offset: usize) -> (r: Result<u128, Error>)
        ensures
            match r {
                Ok(v) => offset + 16 <= self@.region.len() && v as nat == engine::le_at(self@.region, offset as int, 16),
                Err(e) => offset + 16 > self@.region.len() && e.is_bounds(
                    crate::error::sat64(offset as nat + 16),
                    self@.region.len(),
                ),
            },
    {
        match engine::read_uint_le(&self.region, offset, 16) {
            Ok(v) => {
                proof {
                    codec::lemma_le_decode_bound(
                        self.region@.subrange(offset as int, offset + 16),
                    );
                    reveal_with_fuel(codec::pow256, 17);
                }
                Ok(v)
            },
            Err(e) => Err(e),
        }
    }

    /// Write `v` as its 16-byte little-endian encoding at `offset`, or
    /// fail with the bounds error and leave the file untouched.
    pub fn write_u128_le(&mut self, v: u128, offset: usize) -> (r: Result<(), Error>)
        ensures
            match r {
                Ok(()) => offset + 16 <= old(self)@.region.len() && final(self)@
                    == (FileView {
                    region: engine::splice(
                        old(self)@.region,
                        offset as int,
                        codec::le_bytes(v as nat, 16),
                    ),
                    ..old(self)@
                }),
                Err(e) => {
                    &&& offset + 16 > old(self)@.region.len()
                    &&& final(self)@ == old(self)@
                    &&& e.is_bounds(
                        crate::error::sat64(offset as nat + 16),
                        old(self)@.region.len(),
                    )
                },
            },
    {
        engine::write_uint_le(&mut self.region, v, offset, 16)
    }

    /// Read the `i8` stored in the byte at `offset`.
    pub fn read_i8(&self, offset: usize) -> (r: Result<i8, Error>)
        ensures
            match r {
                Ok(v) => offset + 1 <= self@.region.len() && v == (engine::be_at(self@.region, offset as int, 1) as u8) as i8,
                Err(e) => offset + 1 > self@.region.len() && e.is_bounds(
                    crate::error::sat64(offset as nat + 1),
                    self@.region.len(),
                ),
            },
    {
        match engine::read_uint_be(&self.region, offset, 1) {
            Ok(v) => {
                proof {
                    codec::lemma_be_decode_bound(
                        self.region@.subrange(offset as int, offset + 1),
                    );
                    reveal_with_fuel(codec::pow256, 2);
                }
                Ok((v as u8) as i8)
            },
            Err(e) => Err(e),
        }
    }

    /// Write `v` into the byte at `offset`, or fail with the bounds error
    /// and leave the file untouched.
    pub fn write_i8(&mut self, v: i8, offset: usize) -> (r: Result<(), Error>)
        ensures
            match r {
                Ok(()) => offset + 1 <= old(self)@.region.len() && final(self)@
                    == (FileView {
                    region: engine::splice(
                        old(self)@.region,
                        offset as int,
                        codec::be_bytes((v as u8) as nat, 1),
                    ),
                    ..old(self)@
                }),
                Err(e) => {
                    &&& offset + 1 > old(self)@.region.len()
                    &&& final(self)@ == old(self)@
                    &&& e.is_bounds(
                        crate::error::sat64(offset as nat + 1),
                        old(self)@.region.len(),
                    )
                },
            },
    {
        engine::write_uint_be(&mut self.region, (v as u8) as u128, offset, 1)
    }

    /// Read the `i16` whose big-endian encoding occupies the 2
    /// bytes at `offset`.
    pub fn read_i16(&self, offset: usize) -> (r: Result<i16, Error>)
        ensures
            match r {
                Ok(v) => offset + 2 <= self@.region.len() && v == (engine::be_at(self@.region, offset as int, 2) as u16) as i16,
                Err(e) => offset + 2 > self@.region.len() && e.is_bounds(
                    crate::error::sat64(offset as nat + 2),
                    self@.region.len(),
                ),
            },
    {
        match engine::read_uint_be(&self.region, offset, 2) {
            Ok(v) => {
                proof {
                    codec::lemma_be_decode_bound(
                        self.region@.subrange(offset as int, offset + 2),
                    );
                    reveal_with_fuel(codec::pow256, 3);
                }
                Ok((v as u16) as i16)
            },
            Err(e) => Err(e),
        }
    }

    /// Write `v` as its 2-byte big-endian encoding at `offset`, or
    /// fail with the bounds error and leave the file untouched.
    pub fn write_i16(&mut self, v: i16, offset: usize) -> (r: Result<(), Error>)
        ensures
            match r {
                Ok(()) => offset + 2 <= old(self)@.region.len() && final(self)@
                    == (FileView {
                    region: engine::splice(
                        old(self)@.region,
                        offset as int,
                        codec::be_bytes((v as u16) as nat, 2),
                    ),
                    ..old(self)@
                }),
                Err(e) => {
                    &&& offset + 2 > old(self)@.region.len()
                    &&& final(self)@ == old(self)@
                    &&& e.is_bounds(
                        crate::error::sat64(offset as nat + 2),
                        old(self)@.region.len(),
                    )
                },
            },
    {
        engine::write_uint_be(&mut self.region, (v as u16) as u128, offset, 2)
    }

    /// Read the `i16` whose little-endian encoding occupies the 2
    /// bytes at `offset`.
    pub fn read_i16_le(&self, offset: usize) -> (r: Result<i16, Error>)
        ensures
            match r {
                Ok(v) => offset + 2 <= self@.region.len() && v == (engine::le_at(self@.region, offset as int, 2) as u16) as i16,
                Err(e) => offset + 2 > self@.region.len() && e.is_bounds(
                    crate::error::sat64(offset as nat + 2),
                    self@.region.len(),
                ),
            },
    {
        match engine::read_uint_le(&self.region, offset, 2) {
            Ok(v) => {
                proof {
                    codec::lemma_le_decode_bound(
                        self.region@.subrange(offset as int, offset + 2),
                    );
                    reveal_with_fuel(codec::pow256, 3);
                }
                Ok((v as u16) as i16)
            },
            Err(e) => Err(e),
        }
    }

    /// Write `v` as its 2-byte little-endian encoding at `offset`, or
    /// fail with the bounds error and leave the file untouched.
    pub fn write_i16_le(&mut self, v: i16, offset: usize) -> (r: Result<(), Error>)
        ensures
            match r {
                Ok(()) => offset + 2 <= old(self)@.region.len() && final(self)@
                    == (FileView {
                    region: engine::splice(
                        old(self)@.region,
                        offset as int,
                        codec::le_bytes((v as u16) as nat, 2),
                    ),
                    ..old(self)@
                }),
                Err(e) => {
                    &&& offset + 2 > old(self)@.region.len()
                    &&& final(self)@ == old(self)@
                    &&& e.is_bounds(
                        crate::error::sat64(offset as nat + 2),
                        old(self)@.region.len(),
                    )
                },
            },
    {
        engine::write_uint_le(&mut self.region, (v as u16) as u128, offset, 2)
    }

    /// Read the `i32` whose big-endian encoding occupies the 4
    /// bytes at `offset`.
    pub fn read_i32(&self, offset: usize) -> (r: Result<i32, Error>)
        ensures
            match r {
                Ok(v) => offset + 4 <= self@.region.len() && v == (engine::be_at(self@.region, offset as int, 4) as u32) as i32,
                Err(e) => offset + 4 > self@.region.len() && e.is_bounds(
                    crate::error::sat64(offset as nat + 4),
                    self@.region.len(),
                ),
            },
    {
        match engine::read_uint_be(&self.region, offset, 4) {
            Ok(v) => {
                proof {
                    codec::lemma_be_decode_bound(
                        self.region@.subrange(offset as int, offset + 4),
                    );
                    reveal_with_fuel(codec::pow256, 5);
                }
                Ok((v as u32) as i32)
            },
            Err(e) => Err(e),
        }
    }

    /// Write `v` as its 4-byte big-endian encoding at `offset`, or
    /// fail with the bounds error and leave the file untouched.
    pub fn write_i32(&mut self, v: i32, offset: usize) -> (r: Result<(), Error>)
        ensures
            match r {
                Ok(()) => offset + 4 <= old(self)@.region.len() && final(self)@
                    == (FileView {
                    region: engine::splice(
                        old(self)@.region,
                        offset as int,
                        codec::be_bytes((v as u32) as nat, 4),
                    ),
                    ..old(self)@
                }),
                Err(e) => {
                    &&& offset + 4 > old(self)@.region.len()
                    &&& final(self)@ == old(self)@
                    &&& e.is_bounds(
                        crate::error::sat64(offset as nat + 4),
                        old(self)@.region.len(),
                    )
                },
            },
    {
        engine::write_uint_be(&mut self.region, (v as u32) as u128, offset, 4)
    }

    /// Read the `i32` whose little-endian encoding occupies the 4
    /// bytes at `offset`.
    pub fn read_i32_le(&self, offset: usize) -> (r: Result<i32, Error>)
        ensures
            match r {
                Ok(v) => offset + 4 <= self@.region.len() && v == (engine::le_at(self@.region, offset as int, 4) as u32) as i32,
                Err(e) => offset + 4 > self@.region.len() && e.is_bounds(
                    crate::error::sat64(offset as nat + 4),
                    self@.region.len(),
                ),
            },
    {
        match engine::read_uint_le(&self.region, offset, 4) {
            Ok(v) => {
                proof {
                    codec::lemma_le_decode_bound(
                        self.region@.subrange(offset as int, offset + 4),
                    );
                    reveal_with_fuel(codec::pow256, 5);
                }
                Ok((v as u32) as i32)
            },
            Err(e) => Err(e),
        }
    }

    /// Write `v` as its 4-byte little-endian encoding at `offset`, or
    /// fail with the bounds error and leave the file untouched.
    pub fn write_i32_le(&mut self, v: i32, offset: usize) -> (r: Result<(), Error>)
        ensures
            match r {
                Ok(()) => offset + 4 <= old(self)@.region.len() && final(self)@
                    == (FileView {
                    region: engine::splice(
                        old(self)@.region,
                        offset as int,
                        codec::le_bytes((v as u32) as nat, 4),
                    ),
                    ..old(self)@
                }),
                Err(e) => {
                    &&& offset + 4 > old(self)@.region.len()
                    &&& final(self)@ == old(self)@
                    &&& e.is_bounds(
                        crate::error::sat64(offset as nat + 4),
                        old(self)@.region.len(),
                    )
                },
            },
    {
        engine::write_uint_le(&mut self.region, (v as u32) as u128, offset, 4)
    }

    /// Read the `i64` whose big-endian encoding occupies the 8
    /// bytes at `offset`.
    pub fn read_i64(&self, offset: usize) -> (r: Result<i64, Error>)
        ensures
            match r {
                Ok(v) => offset + 8 <= self@.region.len() && v == (engine::be_at(self@.region, offset as int, 8) as u64) as i64,
                Err(e) => offset + 8 > self@.region.len() && e.is_bounds(
                    crate::error::sat64(offset as nat + 8),
                    self@.region.len(),
                ),
            },
    {
        match engine::read_uint_be(&self.region, offset, 8) {
            Ok(v) => {
                proof {
                    codec::lemma_be_decode_bound(
                        self.region@.subrange(offset as int, offset + 8),
                    );
                    reveal_with_fuel(codec::pow256, 9);
                }
                Ok((v as u64) as i64)
            },
            Err(e) => Err(e),
        }
    }

    /// Write `v` as its 8-byte big-endian encoding at `offset`, or
    /// fail with the bounds error and leave the file untouched.
    pub fn write_i64(&mut self, v: i64, offset: usize) -> (r: Result<(), Error>)
        ensures
            match r {
                Ok(()) => offset + 8 <= old(self)@.region.len() && final(self)@
                    == (FileView {
                    region: engine::splice(
                        old(self)@.region,
                        offset as int,
                        codec::be_bytes((v as u64) as nat, 8),
                    ),
                    ..old(self)@
                }),
                Err(e) => {
                    &&& offset + 8 > old(self)@.region.len()
                    &&& final(self)@ == old(self)@
                    &&& e.is_bounds(
                        crate::error::sat64(offset as nat + 8),
                        old(self)@.region.len(),
                    )
                },
            },
    {
        engine::write_uint_be(&mut self.region, (v as u64) as u128, offset, 8)
    }

    /// Read the `i64` whose little-endian encoding occupies the 8
    /// bytes at `offset`.
    pub fn read_i64_le(&self, offset: usize) -> (r: Result<i64, Error>)
        ensures
            match r {
                Ok(v) => offset + 8 <= self@.region.len() && v == (engine::le_at(self@.region, offset as int, 8) as u64) as i64,
                Err(e) => offset + 8 > self@.region.len() && e.is_bounds(
                    crate::error::sat64(offset as nat + 8),
                    self@.region.len(),
                ),
            },
    {
        match engine::read_uint_le(&self.region, offset, 8) {
            Ok(v) => {
                proof {
                    codec::lemma_le_decode_bound(
                        self.region@.subrange(offset as int, offset + 8),
                    );
                    reveal_with_fuel(codec::pow256, 9);
                }
                Ok((v as u64) as i64)
            },
            Err(e) => Err(e),
        }
    }

    /// Write `v` as its 8-byte little-endian encoding at `offset`, or
    /// fail with the bounds error and leave the file untouched.
    pub fn write_i64_le(&mut self, v: i64, offset: usize) -> (r: Result<(), Error>)
        ensures
            match r {
                Ok(()) => offset + 8 <= old(self)@.region.len() && final(self)@
                    == (FileView {
                    region: engine::splice(
                        old(self)@.region,
                        offset as int,
                        codec::le_bytes((v as u64) as nat, 8),
                    ),
                    ..old(self)@
                }),
                Err(e) => {
                    &&& offset + 8 > old(self)@.region.len()
                    &&& final(self)@ == old(self)@
                    &&& e.is_bounds(
                        crate::error::sat64(offset as nat + 8),
                        old(self)@.region.len(),
                    )
                },
            },
    {
        engine::write_uint_le(&mut self.region, (v as u64) as u128, offset, 8)
    }

    /// Read the `i128` whose big-endian encoding occupies the 16
    /// bytes at `offset`.
    pub fn read_i128(&self, offset: usize) -> (r: Result<i128, Error>)
        ensures
            match r {
                Ok(v) => offset + 16 <= self@.region.len() && v == (engine::be_at(self@.region, offset as int, 16) as u128) as i128,
                Err(e) => offset + 16 > self@.region.len() && e.is_bounds(
                    crate::error::sat64(offset as nat + 16),
                    self@.region.len(),
                ),
            },
    {
        match engine::read_uint_be(&self.region, offset, 16) {
            Ok(v) => {
                proof {
                    codec::lemma_be_decode_bound(
                        self.region@.subrange(offset as int, offset + 16),
                    );
                    reveal_with_fuel(codec::pow256, 17);
                }
                Ok(v as i128)
            },
            Err(e) => Err(e),
        }
    }

    /// Write `v` as its 16-byte big-endian encoding at `offset`, or
    /// fail with the bounds error and leave the file untouched.
    pub fn write_i128(&mut self, v: i128, offset: usize) -> (r: Result<(), Error>)
        ensures
            match r {
                Ok(()) => offset + 16 <= old(self)@.region.len() && final(self)@
                    == (FileView {
                    region: engine::splice(
                        old(self)@.region,
                        offset as int,
                        codec::be_bytes((v as u128) as nat, 16),
                    ),
                    ..old(self)@
                }),
                Err(e) => {
                    &&& offset + 16 > old(self)@.region.len()
                    &&& final(self)@ == old(self)@
                    &&& e.is_bounds(
                        crate::error::sat64(offset as nat + 16),
                        old(self)@.region.len(),
                    )
                },
            },
    {
        engine::write_uint_be(&mut self.region, (v as u128) as u128, offset, 16)
    }

    /// Read the `i128` whose little-endian encoding occupies the 16
    /// bytes at `offset`.
    pub fn read_i128_le(&self, offset: usize) -> (r: Result<i128, Error>)
        ensures
            match r {
                Ok(v) => offset + 16 <= self@.region.len() && v == (engine::le_at(self@.region, offset as int, 16) as u128) as i128,
                Err(e) => offset + 16 > self@.region.len() && e.is_bounds(
                    crate::error::sat64(offset as nat + 16),
                    self@.region.len(),
                ),
            },
    {
        match engine::read_uint_le(&self.region, offset, 16) {
            Ok(v) => {
                proof {
                    codec::lemma_le_decode_bound(
                        self.region@.subrange(offset as int, offset + 16),
                    );
                    reveal_with_fuel(codec::pow256, 17);
                }
                Ok(v as i128)
            },
            Err(e) => Err(e),
        }
    }

    /// Write `v` as its 16-byte little-endian encoding at `offset`, or
    /// fail with the bounds error and leave the file untouched.
    pub fn write_i128_le(&mut self, v: i128, offset: usize) -> (r: Result<(), Error>)
        ensures
            match r {
                Ok(()) => offset + 16 <= old(self)@.region.len() && final(self)@
                    == (FileView {
                    region: engine::splice(
                        old(self)@.region,
                        offset as int,
                        codec::le_bytes((v as u128) as nat, 16),
                    ),
                    ..old(self)@
                }),
                Err(e) => {
                    &&& offset + 16 > old(self)@.region.len()
                    &&& final(self)@ == old(self)@
                    &&& e.is_bounds(
                        crate::error::sat64(offset as nat + 16),
                        old(self)@.region.len(),
                    )
                },
            },
    {
        engine::write_uint_le(&mut self.region, (v as u128) as u128, offset, 16)
    }

    /// Read the `usize` whose big-endian encoding occupies the 8
    /// bytes at `offset`.
    pub fn read_usize(&self, offset: usize) -> (r: Result<usize, Error>)
        ensures
            match r {
                Ok(v) => offset + 8 <= self@.region.len() && v == (engine::be_at(self@.region, offset as int, 8) as u64) as usize,
                Err(e) => offset + 8 > self@.region.len() && e.is_bounds(
                    crate::error::sat64(offset as nat + 8),
                    self@.region.len(),
                ),
            },
    {
        match engine::read_uint_be(&self.region, offset, 8) {
            Ok(v) => {
                proof {
                    codec::lemma_be_decode_bound(
                        self.region@.subrange(offset as int, offset + 8),
                    );
                    reveal_with_fuel(codec::pow256, 9);
                }
                Ok((v as u64) as usize)
            },
            Err(e) => Err(e),
        }
    }

    /// Write `v` as its 8-byte big-endian encoding at `offset`, or
    /// fail with the bounds error and leave the file untouched.
    pub fn write_usize(&mut self, v: usize, offset: usize) -> (r: Result<(), Error>)
        ensures
            match r {
                Ok(()) => offset + 8 <= old(self)@.region.len() && final(self)@
                    == (FileView {
                    region: engine::splice(
                        old(self)@.region,
                        offset as int,
                        codec::be_bytes((v as u64) as nat, 8),
                    ),
                    ..old(self)@
                }),
                Err(e) => {
                    &&& offset + 8 > old(self)@.region.len()
                    &&& final(self)@ == old(self)@
                    &&& e.is_bounds(
                        crate::error::sat64(offset as nat + 8),
                        old(self)@.region.len(),
                    )
                },
            },
    {
        engine::write_uint_be(&mut self.region, (v as u64) as u128, offset, 8)
    }

    /// Read the `usize` whose little-endian encoding occupies the 8
    /// bytes at `offset`.
    pub fn read_usize_le(&self, offset: usize) -> (r: Result<usize, Error>)
        ensures
            match r {
                Ok(v) => offset + 8 <= self@.region.len() && v == (engine::le_at(self@.region, offset as int, 8) as u64) as usize,
                Err(e) => offset + 8 > self@.region.len() && e.is_bounds(
                    crate::error::sat64(offset as nat + 8),
                    self@.region.len(),
                ),
            },
    {
        match engine::read_uint_le(&self.region, offset, 8) {
            Ok(v) => {
                proof {
                    codec::lemma_le_decode_bound(
                        self.region@.subrange(offset as int, offset + 8),
                    );
                    reveal_with_fuel(codec::pow256, 9);
                }
                Ok((v as u64) as usize)
            },
            Err(e) => Err(e),
        }
    }

    /// Write `v` as its 8-byte little-endian encoding at `offset`, or
    /// fail with the bounds error and leave the file untouched.
    pub fn write_usize_le(&mut self, v: usize, offset: usize) -> (r: Result<(), Error>)
        ensures
            match r {
                Ok(()) => offset + 8 <= old(self)@.region.len() && final(self)@
                    == (FileView {
                    region: engine::splice(
                        old(self)@.region,
                        offset as int,
                        codec::le_bytes((v as u64) as nat, 8),
                    ),
                    ..old(self)@
                }),
                Err(e) => {
                    &&& offset + 8 > old(self)@.region.len()
                    &&& final(self)@ == old(self)@
                    &&& e.is_bounds(
                        crate::error::sat64(offset as nat + 8),
                        old(self)@.region.len(),
                    )
                },
            },
    {
        engine::write_uint_le(&mut self.region, (v as u64) as u128, offset, 8)
    }

    /// Read the `isize` whose big-endian encoding occupies the 8
    /// bytes at `offset`.
    pub fn read_isize(&self, offset: usize) -> (r: Result<isize, Error>)
        ensures
            match r {
                Ok(v) => offset + 8 <= self@.region.len() && v == ((engine::be_at(self@.region, offset as int, 8) as u64) as i64) as isize,
                Err(e) => offset + 8 > self@.region.len() && e.is_bounds(
                    crate::error::sat64(offset as nat + 8),
                    self@.region.len(),
                ),
            },
    {
        match engine::read_uint_be(&self.region, offset, 8) {
            Ok(v) => {
                proof {
                    codec::lemma_be_decode_bound(
                        self.region@.subrange(offset as int, offset + 8),
                    );
                    reveal_with_fuel(codec::pow256, 9);
                }
                Ok(((v as u64) as i64) as isize)
            },
            Err(e) => Err(e),
        }
    }

    /// Write `v` as its 8-byte big-endian encoding at `offset`, or
    /// fail with the bounds error and leave the file untouched.
    pub fn write_isize(&mut self, v: isize, offset: usize) -> (r: Result<(), Error>)
        ensures
            match r {
                Ok(()) => offset + 8 <= old(self)@.region.len() && final(self)@
                    == (FileView {
                    region: engine::splice(
                        old(self)@.region,
                        offset as int,
                        codec::be_bytes(((v as i64) as u64) as nat, 8),
                    ),
                    ..old(self)@
                }),
                Err(e) => {
                    &&& offset + 8 > old(self)@.region.len()
                    &&& final(self)@ == old(self)@
                    &&& e.is_bounds(
                        crate::error::sat64(offset as nat + 8),
                        old(self)@.region.len(),
                    )
                },
            },
    {
        engine::write_uint_be(&mut self.region, ((v as i64) as u64) as u128, offset, 8)
    }

    /// Read the `isize` whose little-endian encoding occupies the 8
    /// bytes at `offset`.
    pub fn read_isize_le(&self, offset: usize) -> (r: Result<isize, Error>)
        ensures
            match r {
                Ok(v) => offset + 8 <= self@.region.len() && v == ((engine::le_at(self@.region, offset as int, 8) as u64) as i64) as isize,
                Err(e) => offset + 8 > self@.region.len() && e.is_bounds(
                    crate::error::sat64(offset as nat + 8),
                    self@.region.len(),
                ),
            },
    {
        match engine::read_uint_le(&self.region, offset, 8) {
            Ok(v) => {
                proof {
                    codec::lemma_le_decode_bound(
                        self.region@.subrange(offset as int, offset + 8),
                    );
                    reveal_with_fuel(codec::pow256, 9);
                }
                Ok(((v as u64) as i64) as isize)
            },
            Err(e) => Err(e),
        }
    }

    /// Write `v` as its 8-byte little-endian encoding at `offset`, or
    /// fail with the bounds error and leave the file untouched.
    pub fn write_isize_le(&mut self, v: isize, offset: usize) -> (r: Result<(), Error>)
        ensures
            match r {
                Ok(()) => offset + 8 <= old(self)@.region.len() && final(self)@
                    == (FileView {
                    region: engine::splice(
                        old(self)@.region,
                        offset as int,
                        codec::le_bytes(((v as i64) as u64) as nat, 8),
                    ),
                    ..old(self)@
                }),
                Err(e) => {
                    &&& offset + 8 > old(self)@.region.len()
                    &&& final(self)@ == old(self)@
                    &&& e.is_bounds(
                        crate::error::sat64(offset as nat + 8),
                        old(self)@.region.len(),
                    )
                },
            },
    {
        engine::write_uint_le(&mut self.region, ((v as i64) as u64) as u128, offset, 8)
    }

    /// Freeze this writable file into a readable-and-executable one.
    pub fn freeze_exec(self) -> (r: MemoryMmapFile)
        ensures
            r@ == self@.region,
            r.spec_path() == self@.path,
            r.is_exec(),
    {
        let MemoryMmapFileMut { path, region, .. } = self;
        MemoryMmapFile { path, region, executable: true }
    }
}

impl MemoryMmapFile {
    /// Whether this frozen mapping is readable-and-executable rather than
    /// read-only.
    pub closed spec fn is_exec(&self) -> bool {
        self.executable
    }

    /// The identifying path of the backing store this mapping was frozen
    /// over.
    pub closed spec fn spec_path(&self) -> Seq<char> {
        self.path@
    }

    /// The identifying path of the backing store.
    pub fn path(&self) -> (r: &String)
        ensures
            r@ == self.spec_path(),
    {
        &self.path
    }

    /// The mapped length in bytes.
    pub fn len(&self) -> (r: usize)
        ensures
            r == self@.len(),
    {
        self.region.len()
    }

    /// True iff nothing is mapped.
    pub fn is_empty(&self) -> (r: bool)
        ensures
            r == (self@.len() == 0),
    {
        self.region.len() == 0
    }

    /// The mapped bytes.
    pub fn as_slice(&self) -> (r: &[u8])
        ensures
            r@ == self@,
    {
        self.region.as_slice()
    }

    /// An owned copy of the `len` mapped bytes at `offset`, or the bounds
    /// error naming the requested and the available length.
    pub fn bytes(&self, offset: usize, len: usize) -> (r: Result<Vec<u8>, Error>)
        ensures
            match r {
                Ok(v) => offset + len <= self@.len() && v@ == self@.subrange(
                    offset as int,
                    offset + len,
                ),
                Err(e) => offset + len > self@.len() && e.is_bounds(
                    crate::error::sat64(offset as nat + len as nat),
                    self@.len(),
                ),
            },
    {
        engine::copy_range(&self.region, offset, len)
    }

    /// An owned copy of the `len` mapped bytes at `offset`; same contract as
    /// [`Self::bytes`].
    pub fn copy_range_to_vec(&self, offset: usize, len: usize) -> (r: Result<Vec<u8>, Error>)
        ensures
            match r {
                Ok(v) => offset + len <= self@.len() && v@ == self@.subrange(
                    offset as int,
                    offset + len,
                ),
                Err(e) => offset + len > self@.len() && e.is_bounds(
                    crate::error::sat64(offset as nat + len as nat),
                    self@.len(),
                ),
            },
    {
        engine::copy_range(&self.region, offset, len)
    }

    /// An owned copy of the whole mapped region.
    pub fn copy_all_to_vec(&self) -> (r: Vec<u8>)
        ensures
            r@ == self@,
    {
        engine::copy_all(&self.region)
    }

    /// Read the `u8` stored in the byte at `offset`.
    pub fn read_u8(&self, offset: usize) -> (r: Result<u8, Error>)
        ensures
            match r {
                Ok(v) => offset + 1 <= self@.len() && v as nat == engine::be_at(self@, offset as int, 1),
                Err(e) => offset + 1 > self@.len() && e.is_bounds(
                    crate::error::sat64(offset as nat + 1),
                    self@.len(),
                ),
            },
    {
        match engine::read_uint_be(&self.region, offset, 1) {
            Ok(v) => {
                proof {
                    codec::lemma_be_decode_bound(
                        self.region@.subrange(offset as int, offset + 1),
                    );
                    reveal_with_fuel(codec::pow256, 2);
                }
                Ok(v as u8)
            },
            Err(e) => Err(e),
        }
    }

    /// Read the `u16` whose big-endian encoding occupies the 2
    /// bytes at `offset`.
    pub fn read_u16(&self, offset: usize) -> (r: Result<u16, Error>)
        ensures
            match r {
                Ok(v) => offset + 2 <= self@.len() && v as nat == engine::be_at(self@, offset as int, 2),
                Err(e) => offset + 2 > self@.len() && e.is_bounds(
                    crate::error::sat64(offset as nat + 2),
                    self@.len(),
                ),
            },
    {
        match engine::read_uint_be(&self.region, offset, 2) {
            Ok(v) => {
                proof {
                    codec::lemma_be_decode_bound(
                        self.region@.subrange(offset as int, offset + 2),
                    );
                    reveal_with_fuel(codec::pow256, 3);
                }
                Ok(v as u16)
            },
            Err(e) => Err(e),
        }
    }

    /// Read the `u16` whose little-endian encoding occupies the 2
    /// bytes at `offset`.
    pub fn read_u16_le(&self, offset: usize) -> (r: Result<u16, Error>)
        ensures
            match r {
                Ok(v) => offset + 2 <= self@.len() && v as nat == engine::le_at(self@, offset as int, 2),
                Err(e) => offset + 2 > self@.len() && e.is_bounds(
                    crate::error::sat64(offset as nat + 2),
                    self@.len(),
                ),
            },
    {
        match engine::read_uint_le(&self.region, offset, 2) {
            Ok(v) => {
                proof {
                    codec::lemma_le_decode_bound(
                        self.region@.subrange(offset as int, offset + 2),
                    );
                    reveal_with_fuel(codec::pow256, 3);
                }
                Ok(v as u16)
            },
            Err(e) => Err(e),
        }
    }

    /// Read the `u32` whose big-endian encoding occupies the 4
    /// bytes at `offset`.
    pub fn read_u32(&self, offset: usize) -> (r: Result<u32, Error>)
        ensures
            match r {
                Ok(v) => offset + 4 <= self@.len() && v as nat == engine::be_at(self@, offset as int, 4),
                Err(e) => offset + 4 > self@.len() && e.is_bounds(
                    crate::error::sat64(offset as nat + 4),
                    self@.len(),
                ),
            },
    {
        match engine::read_uint_be(&self.region, offset, 4) {
            Ok(v) => {
                proof {
                    codec::lemma_be_decode_bound(
                        self.region@.subrange(offset as int, offset + 4),
                    );
                    reveal_with_fuel(codec::pow256, 5);
                }
                Ok(v as u32)
            },
            Err(e) => Err(e),
        }
    }

    /// Read the `u32` whose little-endian encoding occupies the 4
    /// bytes at `offset`.
    pub fn read_u32_le(&self, offset: usize) -> (r: Result<u32, Error>)
        ensures
            match r {
                Ok(v) => offset + 4 <= self@.len() && v as nat == engine::le_at(self@, offset as int, 4),
                Err(e) => offset + 4 > self@.len() && e.is_bounds(
                    crate::error::sat64(offset as nat + 4),
                    self@.len(),
                ),
            },
    {
        match engine::read_uint_le(&self.region, offset, 4) {
            Ok(v) => {
                proof {
                    codec::lemma_le_decode_bound(
                        self.region@.subrange(offset as int, offset + 4),
                    );
                    reveal_with_fuel(codec::pow256, 5);
                }
                Ok(v as u32)
            },
            Err(e) => Err(e),
        }
    }

    /// Read the `u64` whose big-endian encoding occupies the 8
    /// bytes at `offset`.
    pub fn read_u64(&self, offset: usize) -> (r: Result<u64, Error>)
        ensures
            match r {
                Ok(v) => offset + 8 <= self@.len() && v as nat == engine::be_at(self@, offset as int, 8),
                Err(e) => offset + 8 > self@.len() && e.is_bounds(
                    crate::error::sat64(offset as nat + 8),
                    self@.len(),
                ),
            },
    {
        match engine::read_uint_be(&self.region, offset, 8) {
            Ok(v) => {
                proof {
                    codec::lemma_be_decode_bound(
                        self.region@.subrange(offset as int, offset + 8),
                    );
                    reveal_with_fuel(codec::pow256, 9);
                }
                Ok(v as u64)
            },
            Err(e) => Err(e),
        }
    }

    /// Read the `u64` whose little-endian encoding occupies the 8
    /// bytes at `offset`.
    pub fn read_u64_le(&self, offset: usize) -> (r: Result<u64, Error>)
        ensures
            match r {
                Ok(v) => offset + 8 <= self@.len() && v as nat == engine::le_at(self@, offset as int, 8),
                Err(e) => offset + 8 > self@.len() && e.is_bounds(
                    crate::error::sat64(offset as nat + 8),
                    self@.len(),
                ),
            },
    {
        match engine::read_uint_le(&self.region, offset, 8) {
            Ok(v) => {
                proof {
                    codec::lemma_le_decode_bound(
                        self.region@.subrange(offset as int, offset + 8),
                    );
                    reveal_with_fuel(codec::pow256, 9);
                }
                Ok(v as u64)
            },
            Err(e) => Err(e),
        }
    }

    /// Read the `u128` whose big-endian encoding occupies the 16
    /// bytes at `offset`.
    pub fn read_u128(&self, offset: usize) -> (r: Result<u128, Error>)
        ensures
            match r {
                Ok(v) => offset + 16 <= self@.len() && v as nat == engine::be_at(self@, offset as int, 16),
                Err(e) => offset + 16 > self@.len() && e.is_bounds(
                    crate::error::sat64(offset as nat + 16),
                    self@.len(),
                ),
            },
    {
        match engine::read_uint_be(&self.region, offset, 16) {
            Ok(v) => {
                proof {
                    codec::lemma_be_decode_bound(
                        self.region@.subrange(offset as int, offset + 16),
                    );
                    reveal_with_fuel(codec::pow256, 17);
                }
                Ok(v)
            },
            Err(e) => Err(e),
        }
    }

    /// Read the `u128` whose little-endian encoding occupies the 16
    /// bytes at `offset`.
    pub fn read_u128_le(&self, offset: usize) -> (r: Result<u128, Error>)
        ensures
            match r {
                Ok(v) => offset + 16 <= self@.len() && v as nat == engine::le_at(self@, offset as int, 16),
                Err(e) => offset + 16 > self@.len() && e.is_bounds(
                    crate::error::sat64(offset as nat + 16),
                    self@.len(),
                ),
            },
    {
        match engine::read_uint_le(&self.region, offset, 16) {
            Ok(v) => {
                proof {
                    codec::lemma_le_decode_bound(
                        self.region@.subrange(offset as int, offset + 16),
                    );
                    reveal_with_fuel(codec::pow256, 17);
                }
                Ok(v)
            },
            Err(e) => Err(e),
        }
    }

    /// Read the `i8` stored in the byte at `offset`.
    pub fn read_i8(&self, offset: usize) -> (r: Result<i8, Error>)
        ensures
            match r {
                Ok(v) => offset + 1 <= self@.len() && v == (engine::be_at(self@, offset as int, 1) as u8) as i8,
                Err(e) => offset + 1 > self@.len() && e.is_bounds(
                    crate::error::sat64(offset as nat + 1),
                    self@.len(),
                ),
            },
    {
        match engine::read_uint_be(&self.region, offset, 1) {
            Ok(v) => {
                proof {
                    codec::lemma_be_decode_bound(
                        self.region@.subrange(offset as int, offset + 1),
                    );
                    reveal_with_fuel(codec::pow256, 2);
                }
                Ok((v as u8) as i8)
            },
            Err(e) => Err(e),
        }
    }

    /// Read the `i16` whose big-endian encoding occupies the 2
    /// bytes at `offset`.
    pub fn read_i16(&self, offset: usize) -> (r: Result<i16, Error>)
        ensures
            match r {
                Ok(v) => offset + 2 <= self@.len() && v == (engine::be_at(self@, offset as int, 2) as u16) as i16,
                Err(e) => offset + 2 > self@.len() && e.is_bounds(
                    crate::error::sat64(offset as nat + 2),
                    self@.len(),
                ),
            },
    {
        match engine::read_uint_be(&self.region, offset, 2) {
            Ok(v) => {
                proof {
                    codec::lemma_be_decode_bound(
                        self.region@.subrange(offset as int, offset + 2),
                    );
                    reveal_with_fuel(codec::pow256, 3);
                }
                Ok((v as u16) as i16)
            },
            Err(e) => Err(e),
        }
    }

    /// Read the `i16` whose little-endian encoding occupies the 2
    /// bytes at `offset`.
    pub fn read_i16_le(&self, offset: usize) -> (r: Result<i16, Error>)
        ensures
            match r {
                Ok(v) => offset + 2 <= self@.len() && v == (engine::le_at(self@, offset as int, 2) as u16) as i16,
                Err(e) => offset + 2 > self@.len() && e.is_bounds(
                    crate::error::sat64(offset as nat + 2),
                    self@.len(),
                ),
            },
    {
        match engine::read_uint_le(&self.region, offset, 2) {
            Ok(v) => {
                proof {
                    codec::lemma_le_decode_bound(
                        self.region@.subrange(offset as int, offset + 2),
                    );
                    reveal_with_fuel(codec::pow256, 3);
                }
                Ok((v as u16) as i16)
            },
            Err(e) => Err(e),
        }
    }

    /// Read the `i32` whose big-endian encoding occupies the 4
    /// bytes at `offset`.
    pub fn read_i32(&self, offset: usize) -> (r: Result<i32, Error>)
        ensures
            match r {
                Ok(v) => offset + 4 <= self@.len() && v == (engine::be_at(self@, offset as int, 4) as u32) as i32,
                Err(e) => offset + 4 > self@.len() && e.is_bounds(
                    crate::error::sat64(offset as nat + 4),
                    self@.len(),
                ),
            },
    {
        match engine::read_uint_be(&self.region, offset, 4) {
            Ok(v) => {
                proof {
                    codec::lemma_be_decode_bound(
                        self.region@.subrange(offset as int, offset + 4),
                    );
                    reveal_with_fuel(codec::pow256, 5);
                }
                Ok((v as u32) as i32)
            },
            Err(e) => Err(e),
        }
    }

    /// Read the `i32` whose little-endian encoding occupies the 4
    /// bytes at `offset`.
    pub fn read_i32_le(&self, offset: usize) -> (r: Result<i32, Error>)
        ensures
            match r {
                Ok(v) => offset + 4 <= self@.len() && v == (engine::le_at(self@, offset as int, 4) as u32) as i32,
                Err(e) => offset + 4 > self@.len() && e.is_bounds(
                    crate::error::sat64(offset as nat + 4),
                    self@.len(),
                ),
            },
    {
        match engine::read_uint_le(&self.region, offset, 4) {
            Ok(v) => {
                proof {
                    codec::lemma_le_decode_bound(
                        self.region@.subrange(offset as int, offset + 4),
                    );
                    reveal_with_fuel(codec::pow256, 5);
                }
                Ok((v as u32) as i32)
            },
            Err(e) => Err(e),
        }
    }

    /// Read the `i64` whose big-endian encoding occupies the 8
    /// bytes at `offset`.
    pub fn read_i64(&self, offset: usize) -> (r: Result<i64, Error>)
        ensures
            match r {
                Ok(v) => offset + 8 <= self@.len() && v == (engine::be_at(self@, offset as int, 8) as u64) as i64,
                Err(e) => offset + 8 > self@.len() && e.is_bounds(
                    crate::error::sat64(offset as nat + 8),
                    self@.len(),
                ),
            },
    {
        match engine::read_uint_be(&self.region, offset, 8) {
            Ok(v) => {
                proof {
                    codec::lemma_be_decode_bound(
                        self.region@.subrange(offset as int, offset + 8),
                    );
                    reveal_with_fuel(codec::pow256, 9);
                }
                Ok((v as u64) as i64)
            },
            Err(e) => Err(e),
        }
    }

    /// Read the `i64` whose little-endian encoding occupies the 8
    /// bytes at `offset`.
    pub fn read_i64_le(&self, offset: usize) -> (r: Result<i64, Error>)
        ensures
            match r {
                Ok(v) => offset + 8 <= self@.len() && v == (engine::le_at(self@, offset as int, 8) as u64) as i64,
                Err(e) => offset + 8 > self@.len() && e.is_bounds(
                    crate::error::sat64(offset as nat + 8),
                    self@.len(),
                ),
            },
    {
        match engine::read_uint_le(&self.region, offset, 8) {
            Ok(v) => {
                proof {
                    codec::lemma_le_decode_bound(
                        self.region@.subrange(offset as int, offset + 8),
                    );
                    reveal_with_fuel(codec::pow256, 9);
                }
                Ok((v as u64) as i64)
            },
            Err(e) => Err(e),
        }
    }

    /// Read the `i128` whose big-endian encoding occupies the 16
    /// bytes at `offset`.
    pub fn read_i128(&self, offset: usize) -> (r: Result<i128, Error>)
        ensures
            match r {
                Ok(v) => offset + 16 <= self@.len() && v == (engine::be_at(self@, offset as int, 16) as u128) as i128,
                Err(e) => offset + 16 > self@.len() && e.is_bounds(
                    crate::error::sat64(offset as nat + 16),
                    self@.len(),
                ),
            },
    {
        match engine::read_uint_be(&self.region, offset, 16) {
            Ok(v) => {
                proof {
                    codec::lemma_be_decode_bound(
                        self.region@.subrange(offset as int, offset + 16),
                    );
                    reveal_with_fuel(codec::pow256, 17);
                }
                Ok(v as i128)
            },
            Err(e) => Err(e),
        }
    }

    /// Read the `i128` whose little-endian encoding occupies the 16
    /// bytes at `offset`.
    pub fn read_i128_le(&self, offset: usize) -> (r: Result<i128, Error>)
        ensures
            match r {
                Ok(v) => offset + 16 <= self@.len() && v == (engine::le_at(self@, offset as int, 16) as u128) as i128,
                Err(e) => offset + 16 > self@.len() && e.is_bounds(
                    crate::error::sat64(offset as nat + 16),
                    self@.len(),
                ),
            },
    {
        match engine::read_uint_le(&self.region, offset, 16) {
            Ok(v) => {
                proof {
                    codec::lemma_le_decode_bound(
                        self.region@.subrange(offset as int, offset + 16),
                    );
                    reveal_with_fuel(codec::pow256, 17);
                }
                Ok(v as i128)
            },
            Err(e) => Err(e),
        }
    }

    /// Read the `usize` whose big-endian encoding occupies the 8
    /// bytes at `offset`.
    pub fn read_usize(&self, offset: usize) -> (r: Result<usize, Error>)
        ensures
            match r {
                Ok(v) => offset + 8 <= self@.len() && v == (engine::be_at(self@, offset as int, 8) as u64) as usize,
                Err(e) => offset + 8 > self@.len() && e.is_bounds(
                    crate::error::sat64(offset as nat + 8),
                    self@.len(),
                ),
            },
    {
        match engine::read_uint_be(&self.region, offset, 8) {
            Ok(v) => {
                proof {
                    codec::lemma_be_decode_bound(
                        self.region@.subrange(offset as int, offset + 8),
                    );
                    reveal_with_fuel(codec::pow256, 9);
                }
                Ok((v as u64) as usize)
            },
            Err(e) => Err(e),
        }
    }

    /// Read the `usize` whose little-endian encoding occupies the 8
    /// bytes at `offset`.
    pub fn read_usize_le(&self, offset: usize) -> (r: Result<usize, Error>)
        ensures
            match r {
                Ok(v) => offset + 8 <= self@.len() && v == (engine::le_at(self@, offset as int, 8) as u64) as usize,
                Err(e) => offset + 8 > self@.len() && e.is_bounds(
                    crate::error::sat64(offset as nat + 8),
                    self@.len(),
                ),
            },
    {
        match engine::read_uint_le(&self.region, offset, 8) {
            Ok(v) => {
                proof {
                    codec::lemma_le_decode_bound(
                        self.region@.subrange(offset as int, offset + 8),
                    );
                    reveal_with_fuel(codec::pow256, 9);
                }
                Ok((v as u64) as usize)
            },
            Err(e) => Err(e),
        }
    }

    /// Read the `isize` whose big-endian encoding occupies the 8
    /// bytes at `offset`.
    pub fn read_isize(&self, offset: usize) -> (r: Result<isize, Error>)
        ensures
            match r {
                Ok(v) => offset + 8 <= self@.len() && v == ((engine::be_at(self@, offset as int, 8) as u64) as i64) as isize,
                Err(e) => offset + 8 > self@.len() && e.is_bounds(
                    crate::error::sat64(offset as nat + 8),
                    self@.len(),
                ),
            },
    {
        match engine::read_uint_be(&self.region, offset, 8) {
            Ok(v) => {
                proof {
                    codec::lemma_be_decode_bound(
                        self.region@.subrange(offset as int, offset + 8),
                    );
                    reveal_with_fuel(codec::pow256, 9);
                }
                Ok(((v as u64) as i64) as isize)
            },
            Err(e) => Err(e),
        }
    }

    /// Read the `isize` whose little-endian encoding occupies the 8
    /// bytes at `offset`.
    pub fn read_isize_le(&self, offset: usize) -> (r: Result<isize, Error>)
        ensures
            match r {
                Ok(v) => offset + 8 <= self@.len() && v == ((engine::le_at(self@, offset as int, 8) as u64) as i64) as isize,
                Err(e) => offset + 8 > self@.len() && e.is_bounds(
                    crate::error::sat64(offset as nat + 8),
                    self@.len(),
                ),
            },
    {
        match engine::read_uint_le(&self.region, offset, 8) {
            Ok(v) => {
                proof {
                    codec::lemma_le_decode_bound(
                        self.region@.subrange(offset as int, offset + 8),
                    );
                    reveal_with_fuel(codec::pow256, 9);
                }
                Ok(((v as u64) as i64) as isize)
            },
            Err(e) => Err(e),
        }
    }
}

} // verus!

//! Mapping options: the configuration bundle a mapped file is created with.

use vstd::prelude::*;

verus! {

/// Options for creating or opening a mapped file.
///
/// `max_size` is a preallocation hint: zero means "no preallocation", a
/// nonzero value asks the creation paths to extend the backing store to that
/// size before the first mapping, so writers may target any offset below it
/// without an explicit grow first. The flag fields mirror the open-mode and
/// platform hints a disk-backed variant hands to the operating system; the
/// in-memory model stores them unchanged.
#[derive(Clone, Copy, Debug, PartialEq, Eq, Structural)]
pub struct Options {
    /// Preallocation size hint; zero disables preallocation.
    pub max_size: u64,
    /// Open readable.
    pub read: bool,
    /// Open writable.
    pub write: bool,
    /// Create the backing store if it does not exist.
    pub create: bool,
    /// Map readable and executable.
    pub executable: bool,
    /// Platform hint: ask the mapping call to pre-populate pages.
    pub populate: bool,
}

impl Options {
    /// The default configuration: read-write, no creation, no preallocation.
    pub open spec fn spec_new() -> Options {
        Options {
            max_size: 0u64,
            read: true,
            write: true,
            create: false,
            executable: false,
            populate: false,
        }
    }

    /// The default configuration: read-write, no creation, no preallocation.
    pub fn new() -> (r: Options)
        ensures
            r == Options::spec_new(),
    {
        Options {
            max_size: 0,
            read: true,
            write: true,
            create: false,
            executable: false,
            populate: false,
        }
    }

    /// This configuration with the preallocation hint set to `max_size`.
    pub fn with_max_size(self, max_size: u64) -> (r: Options)
        ensures
            r == (Options { max_size, ..self }),
    {
        Options { max_size, ..self }
    }

    /// This configuration with the create flag set.
    pub fn with_create(self, create: bool) -> (r: Options)
        ensures
            r == (Options { create, ..self }),
    {
        Options { create, ..self }
    }

    /// This configuration with the read flag set.
    pub fn with_read(self, read: bool) -> (r: Options)
        ensures
            r == (Options { read, ..self }),
    {
        Options { read, ..self }
    }

    /// This configuration with the write flag set.
    pub fn with_write(self, write: bool) -> (r: Options)
        ensures
            r == (Options { write, ..self }),
    {
        Options { write, ..self }
    }

    /// This configuration with the executable flag set.
    pub fn with_executable(self, executable: bool) -> (r: Options)
        ensures
            r == (Options { executable, ..self }),
    {
        Options { executable, ..self }
    }

    /// This configuration with the pre-populate hint set.
    pub fn with_populate(self, populate: bool) -> (r: Options)
        ensures
            r == (Options { populate, ..self }),
    {
        Options { populate, ..self }
    }

    /// The length a freshly created backing store is preallocated to:
    /// `max_size` when the hint is nonzero, nothing otherwise.
    pub fn create_prealloc_len(&self) -> (r: Option<u64>)
        ensures
            r == if self.max_size > 0 {
                Some(self.max_size)
            } else {
                None::<u64>
            },
    {
        if self.max_size > 0 {
            Some(self.max_size)
        } else {
            None
        }
    }

    /// The length an existing backing store of `existing_len` bytes is grown
    /// to before mapping: `max_size` exactly when the store is empty and the
    /// hint is nonzero, nothing otherwise. This is the grow-then-write rule
    /// shared by the append-safe and copy-on-write open paths.
    pub fn grow_on_open_len(&self, existing_len: u64) -> (r: Option<u64>)
        ensures
            r == if existing_len == 0 && self.max_size > 0 {
                Some(self.max_size)
            } else {
                None::<u64>
            },
    {
        if existing_len == 0 && self.max_size > 0 {
            Some(self.max_size)
        } else {
            None
        }
    }
}

} // verus!

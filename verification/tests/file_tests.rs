use fmmap::error::Error;
use fmmap::memory::MemoryMmapFileMut;
use fmmap::options::Options;

fn empty_file() -> MemoryMmapFileMut {
    MemoryMmapFileMut::new("memory.mem".to_owned())
}

fn sized_file(len: u64) -> MemoryMmapFileMut {
    let mut file = empty_file();
    file.truncate(len).unwrap();
    file
}

#[test]
fn new_file_is_empty() {
    let file = empty_file();
    assert_eq!(file.len(), 0);
    assert!(file.is_empty());
    assert!(!file.is_cow());
    assert_eq!(file.path(), "memory.mem");
}

#[test]
fn create_preallocates_max_size() {
    let opts = Options::new().with_max_size(64);
    let file = MemoryMmapFileMut::create("pre.mem".to_owned(), opts);
    assert_eq!(file.len(), 64);
    assert_eq!(file.copy_all_to_vec(), vec![0u8; 64]);
}

#[test]
fn create_without_max_size_is_empty() {
    let file = MemoryMmapFileMut::create("pre.mem".to_owned(), Options::new());
    assert_eq!(file.len(), 0);
}

#[test]
fn open_exist_grows_empty_store() {
    let opts = Options::new().with_max_size(32);
    let file = MemoryMmapFileMut::open_exist("grow.mem".to_owned(), Vec::new(), opts);
    assert_eq!(file.len(), 32);
    assert_eq!(file.backing().len(), 32);
}

#[test]
fn open_exist_keeps_nonempty_store() {
    let opts = Options::new().with_max_size(32);
    let file = MemoryMmapFileMut::open_exist("keep.mem".to_owned(), vec![1, 2, 3], opts);
    assert_eq!(file.copy_all_to_vec(), vec![1, 2, 3]);
}

#[test]
fn grow_decisions() {
    let opts = Options::new().with_max_size(10);
    assert_eq!(opts.create_prealloc_len(), Some(10));
    assert_eq!(Options::new().create_prealloc_len(), None);
    assert_eq!(opts.grow_on_open_len(0), Some(10));
    assert_eq!(opts.grow_on_open_len(5), None);
    assert_eq!(Options::new().grow_on_open_len(0), None);
}

#[test]
fn truncate_grows_with_zeroes() {
    let mut file = empty_file();
    file.truncate(5).unwrap();
    assert_eq!(file.len(), 5);
    assert_eq!(file.copy_all_to_vec(), vec![0u8; 5]);
}

#[test]
fn truncate_to_current_size_keeps_content() {
    let mut file = sized_file(4);
    file.write_all(&vec![9, 8, 7, 6], 0).unwrap();
    file.truncate(4).unwrap();
    assert_eq!(file.as_slice(), &[9, 8, 7, 6]);
    assert_eq!(file.copy_all_to_vec(), vec![9, 8, 7, 6]);
}

#[test]
fn truncate_to_zero_then_grow_yields_zeroes() {
    let mut file = sized_file(4);
    file.write_all(&vec![9, 8, 7, 6], 0).unwrap();
    file.truncate(0).unwrap();
    assert_eq!(file.len(), 0);
    file.truncate(6).unwrap();
    assert_eq!(file.copy_all_to_vec(), vec![0u8; 6]);
}

#[test]
fn truncate_shrink_keeps_prefix() {
    let mut file = sized_file(4);
    file.write_all(&vec![1, 2, 3, 4], 0).unwrap();
    file.truncate(2).unwrap();
    assert_eq!(file.copy_all_to_vec(), vec![1, 2]);
}

#[test]
fn flush_makes_writes_durable() {
    let mut file = sized_file(4);
    file.write_all(&vec![1, 2, 3, 4], 0).unwrap();
    assert_eq!(file.backing(), &vec![0u8; 4]);
    file.flush().unwrap();
    assert_eq!(file.backing(), &vec![1, 2, 3, 4]);
}

#[test]
fn flush_range_carries_only_the_window() {
    let mut file = sized_file(4);
    file.write_all(&vec![1, 2, 3, 4], 0).unwrap();
    file.flush_range(1, 2).unwrap();
    assert_eq!(file.backing(), &vec![0, 2, 3, 0]);
}

#[test]
fn grow_and_persist_scenario() {
    // Create empty, truncate to 8096, write known bytes at offsets 0 and
    // 100, flush, reopen independently: the bytes match.
    let mut file = empty_file();
    assert_eq!(file.len(), 0);
    file.truncate(8096).unwrap();
    let head = b"Hello, mapped file!".to_vec();
    file.write_all(&head, 0).unwrap();
    file.write_all(&vec![0xAB, 0xCD], 100).unwrap();
    file.flush().unwrap();

    let reopened = MemoryMmapFileMut::open(
        "memory.mem".to_owned(),
        file.backing().clone(),
        Options::new(),
    );
    assert_eq!(reopened.len(), 8096);
    assert_eq!(reopened.bytes(0, head.len()).unwrap(), head);
    assert_eq!(reopened.bytes(100, 2).unwrap(), vec![0xAB, 0xCD]);
}

#[test]
fn cow_isolation_scenario() {
    // Write through a copy-on-write mapping, then independently reopen the
    // same backing store: it shows the pre-write content.
    let original = b"some data...".to_vec();
    let mut cow = MemoryMmapFileMut::open_cow(
        "cow.mem".to_owned(),
        original.clone(),
        Options::new(),
    );
    assert!(cow.is_cow());
    cow.write_all(&b"SOME".to_vec(), 0).unwrap();
    assert_eq!(cow.bytes(0, 4).unwrap(), b"SOME".to_vec());
    cow.flush().unwrap();

    let reopened = MemoryMmapFileMut::open(
        "cow.mem".to_owned(),
        cow.backing().clone(),
        Options::new(),
    );
    assert_eq!(reopened.copy_all_to_vec(), original);
}

#[test]
fn cow_truncate_discards_private_writes() {
    // The input on which "truncate to the current size is a no-op" fails: a
    // copy-on-write mapping remaps from the backing store, so its private
    // writes are gone.
    let mut cow = MemoryMmapFileMut::open_cow(
        "cow.mem".to_owned(),
        vec![1, 2, 3],
        Options::new(),
    );
    cow.write_all(&vec![9], 0).unwrap();
    cow.truncate(3).unwrap();
    assert_eq!(cow.copy_all_to_vec(), vec![1, 2, 3]);
}

#[test]
fn snapshot_export_scenario() {
    // A 100-byte buffer with a known 28-byte prefix: the exported range is
    // exactly those 28 bytes.
    let prefix: Vec<u8> = (0u8..28).collect();
    let mut contents = prefix.clone();
    contents.resize(100, 0);
    let file = MemoryMmapFileMut::open("snap.mem".to_owned(), contents, Options::new());
    let exported = file.copy_range_to_vec(0, 28).unwrap();
    assert_eq!(exported.len(), 28);
    assert_eq!(exported, prefix);
}

#[test]
fn remove_consumes_the_file() {
    let mut file = sized_file(8);
    file.write_all(&vec![1, 2, 3], 0).unwrap();
    file.set_remove_on_drop(true);
    assert!(file.is_remove_on_drop());
    file.remove().unwrap();
}

#[test]
fn close_with_truncate_cuts_to_final_size() {
    let mut file = sized_file(4);
    file.write_all(&vec![1, 2, 3, 4], 0).unwrap();
    let closed = file.close_with_truncate(2);
    assert_eq!(closed, vec![1, 2]);
}

#[test]
fn close_with_negative_size_keeps_length() {
    let mut file = sized_file(3);
    file.write_all(&vec![5, 6, 7], 0).unwrap();
    let closed = file.close_with_truncate(-1);
    assert_eq!(closed, vec![5, 6, 7]);
}

#[test]
fn freeze_keeps_bytes_and_forbids_writes() {
    let mut file = sized_file(3);
    file.write_all(&vec![4, 5, 6], 0).unwrap();
    let frozen = file.freeze();
    assert_eq!(frozen.len(), 3);
    assert_eq!(frozen.as_slice(), &[4, 5, 6]);
    assert_eq!(frozen.copy_all_to_vec(), vec![4, 5, 6]);
    assert_eq!(frozen.bytes(1, 2).unwrap(), vec![5, 6]);
    assert_eq!(frozen.read_u16(0).unwrap(), 0x0405);
}

#[test]
fn typed_round_trips_big_endian() {
    let mut file = sized_file(8096);
    file.write_u8(8, 1000).unwrap();
    file.write_u16(16, 1001).unwrap();
    file.write_u32(32, 1003).unwrap();
    file.write_u64(64, 1007).unwrap();
    file.write_u128(128, 1015).unwrap();
    file.write_usize(64, 1061).unwrap();
    assert_eq!(file.read_u8(1000).unwrap(), 8);
    assert_eq!(file.read_u16(1001).unwrap(), 16);
    assert_eq!(file.read_u32(1003).unwrap(), 32);
    assert_eq!(file.read_u64(1007).unwrap(), 64);
    assert_eq!(file.read_u128(1015).unwrap(), 128);
    assert_eq!(file.read_usize(1061).unwrap(), 64);
}

#[test]
fn typed_round_trips_little_endian() {
    let mut file = sized_file(8096);
    file.write_u16_le(16, 1031).unwrap();
    file.write_u32_le(32, 1033).unwrap();
    file.write_u64_le(64, 1037).unwrap();
    file.write_u128_le(128, 1045).unwrap();
    file.write_usize_le(64, 1069).unwrap();
    assert_eq!(file.read_u16_le(1031).unwrap(), 16);
    assert_eq!(file.read_u32_le(1033).unwrap(), 32);
    assert_eq!(file.read_u64_le(1037).unwrap(), 64);
    assert_eq!(file.read_u128_le(1045).unwrap(), 128);
    assert_eq!(file.read_usize_le(1069).unwrap(), 64);
}

#[test]
fn typed_round_trips_signed() {
    let mut file = sized_file(8096);
    file.write_i8(-8, 2000).unwrap();
    file.write_i16(-16, 2001).unwrap();
    file.write_i32(-32, 2003).unwrap();
    file.write_i64(-64, 2007).unwrap();
    file.write_i128(-128, 2015).unwrap();
    file.write_i16_le(-16, 2031).unwrap();
    file.write_i32_le(-32, 2033).unwrap();
    file.write_i64_le(-64, 2037).unwrap();
    file.write_i128_le(-128, 2045).unwrap();
    file.write_isize(-64, 2061).unwrap();
    file.write_isize_le(-64, 2069).unwrap();
    assert_eq!(file.read_i8(2000).unwrap(), -8);
    assert_eq!(file.read_i16(2001).unwrap(), -16);
    assert_eq!(file.read_i32(2003).unwrap(), -32);
    assert_eq!(file.read_i64(2007).unwrap(), -64);
    assert_eq!(file.read_i128(2015).unwrap(), -128);
    assert_eq!(file.read_i16_le(2031).unwrap(), -16);
    assert_eq!(file.read_i32_le(2033).unwrap(), -32);
    assert_eq!(file.read_i64_le(2037).unwrap(), -64);
    assert_eq!(file.read_i128_le(2045).unwrap(), -128);
    assert_eq!(file.read_isize(2061).unwrap(), -64);
    assert_eq!(file.read_isize_le(2069).unwrap(), -64);
}

#[test]
fn typed_write_layout_is_big_endian() {
    let mut file = sized_file(4);
    file.write_u32(0xDEAD_BEEF, 0).unwrap();
    assert_eq!(file.copy_all_to_vec(), vec![0xDE, 0xAD, 0xBE, 0xEF]);
}

#[test]
fn typed_write_layout_is_little_endian() {
    let mut file = sized_file(4);
    file.write_u32_le(0xDEAD_BEEF, 0).unwrap();
    assert_eq!(file.copy_all_to_vec(), vec![0xEF, 0xBE, 0xAD, 0xDE]);
}

#[test]
fn bounds_rejection_on_typed_access() {
    // Any typed accessor with offset + size past the mapped length fails
    // with the bounds error and changes nothing.
    let mut file = sized_file(4);
    file.write_all(&vec![1, 2, 3, 4], 0).unwrap();
    assert!(matches!(
        file.read_u32(1),
        Err(Error::Bounds { requested: 5, available: 4 })
    ));
    assert!(matches!(
        file.write_u64(7, 0),
        Err(Error::Bounds { requested: 8, available: 4 })
    ));
    assert!(matches!(
        file.read_u8(4),
        Err(Error::Bounds { requested: 5, available: 4 })
    ));
    assert_eq!(file.copy_all_to_vec(), vec![1, 2, 3, 4]);
}

#[test]
fn bounds_rejection_on_slicing() {
    let file = sized_file(4);
    assert!(matches!(
        file.bytes(3, 2),
        Err(Error::Bounds { requested: 5, available: 4 })
    ));
    assert!(matches!(
        file.copy_range_to_vec(5, 0),
        Err(Error::Bounds { requested: 5, available: 4 })
    ));
    assert!(file.bytes(4, 0).unwrap().is_empty());
}

#[test]
fn write_reports_short_count() {
    let mut file = sized_file(4);
    let n = file.write(&vec![1, 2, 3, 4, 5, 6], 2);
    assert_eq!(n, 2);
    assert_eq!(file.copy_all_to_vec(), vec![0, 0, 1, 2]);
    let n = file.write(&vec![9], 10);
    assert_eq!(n, 0);
}

#[test]
fn read_reports_short_count() {
    let mut file = sized_file(4);
    file.write_all(&vec![1, 2, 3, 4], 0).unwrap();
    let mut out = vec![0u8; 6];
    let n = file.read(&mut out, 2);
    assert_eq!(n, 2);
    assert_eq!(&out[..2], &[3, 4]);
    let mut far = vec![0u8; 3];
    assert_eq!(file.read(&mut far, 9), 0);
}

#[test]
fn zero_range_zeroes_exactly_the_window() {
    let mut file = sized_file(5);
    file.write_all(&vec![1, 2, 3, 4, 5], 0).unwrap();
    file.zero_range(1, 4).unwrap();
    assert_eq!(file.copy_all_to_vec(), vec![1, 0, 0, 0, 5]);
    // Empty range is a no-op.
    file.zero_range(2, 2).unwrap();
    assert_eq!(file.copy_all_to_vec(), vec![1, 0, 0, 0, 5]);
    // Past-the-end and reversed ranges are refused.
    assert!(matches!(file.zero_range(0, 6), Err(Error::Bounds { .. })));
    assert!(matches!(file.zero_range(3, 1), Err(Error::Bounds { .. })));
}

#[test]
fn empty_file_edge_cases() {
    let mut file = empty_file();
    // Reads and writes against an empty mapping are clamped to nothing.
    let mut out = vec![7u8; 3];
    assert_eq!(file.read(&mut out, 0), 0);
    assert_eq!(out, vec![7, 7, 7]);
    assert_eq!(file.write(&vec![1, 2], 0), 0);
    assert!(file.copy_all_to_vec().is_empty());
    assert!(matches!(file.read_u8(0), Err(Error::Bounds { requested: 1, available: 0 })));
    // Truncating an empty file to zero is a legal, degenerate resize.
    file.truncate(0).unwrap();
    assert_eq!(file.len(), 0);
    // A zero-length window at offset zero is fine; one past it is not.
    assert!(file.bytes(0, 0).unwrap().is_empty());
    assert!(file.reader(0).is_ok());
    assert!(file.reader(1).is_err());
}

#[test]
fn options_builder_round_trip() {
    let opts = Options::new()
        .with_max_size(7)
        .with_create(true)
        .with_read(true)
        .with_write(false)
        .with_executable(true)
        .with_populate(true);
    assert_eq!(opts.max_size, 7);
    assert!(opts.create);
    assert!(opts.read);
    assert!(!opts.write);
    assert!(opts.executable);
    assert!(opts.populate);
    let file = MemoryMmapFileMut::create("opt.mem".to_owned(), opts);
    assert_eq!(file.options(), &opts);
}

#[test]
fn truncate_keeps_the_stored_options() {
    let opts = Options::new().with_max_size(16).with_populate(true);
    let mut file = MemoryMmapFileMut::create("opt.mem".to_owned(), opts);
    file.truncate(64).unwrap();
    assert_eq!(file.options(), &opts);
    file.truncate(0).unwrap();
    assert_eq!(file.options(), &opts);
}

#[test]
fn close_with_zero_final_size_empties_the_store() {
    let mut file = sized_file(3);
    file.write_all(&vec![5, 6, 7], 0).unwrap();
    assert_eq!(file.close_with_truncate(0), Vec::<u8>::new());
}

#[test]
fn freeze_exec_marks_executable() {
    let file = sized_file(2);
    let frozen = file.freeze_exec();
    assert_eq!(frozen.len(), 2);
    assert_eq!(frozen.path(), "memory.mem");
}

use fmmap::cursor::SeekFrom;
use fmmap::error::Error;
use fmmap::memory::MemoryMmapFileMut;

fn sized_file(len: u64) -> MemoryMmapFileMut {
    let mut file = MemoryMmapFileMut::new("cursor.mem".to_owned());
    file.truncate(len).unwrap();
    file
}

#[test]
fn writer_then_reader_sequence() {
    let mut file = sized_file(8096);
    let text = b"Hello, mapped file!".to_vec();

    let mut writer = file.writer(0).unwrap();
    writer.write_all(&mut file, &text).unwrap();
    writer.seek(SeekFrom::Start(100)).unwrap();
    writer.write_all(&mut file, &vec![0xFF, 0x00, 0x12]).unwrap();

    let mut reader = file.reader(0).unwrap();
    let head = reader.read_exact(&file, text.len()).unwrap();
    assert_eq!(head, text);
    reader.seek(SeekFrom::Start(100)).unwrap();
    assert_eq!(reader.read_exact(&file, 3).unwrap(), vec![0xFF, 0x00, 0x12]);
}

#[test]
fn seek_semantics() {
    let file = sized_file(100);
    let mut cursor = file.range_reader(10, 50).unwrap();
    assert_eq!(cursor.window_len(), 50);
    assert_eq!(cursor.position(), 0);

    assert_eq!(cursor.seek(SeekFrom::Start(7)).unwrap(), 7);
    assert_eq!(cursor.position(), 7);
    assert_eq!(cursor.seek(SeekFrom::Current(3)).unwrap(), 10);
    assert_eq!(cursor.seek(SeekFrom::Current(-4)).unwrap(), 6);
    assert_eq!(cursor.seek(SeekFrom::End(0)).unwrap(), 50);
    assert_eq!(cursor.seek(SeekFrom::End(-50)).unwrap(), 0);
    // Past the window end: clamped to the end, never escaping the window.
    assert_eq!(cursor.seek(SeekFrom::Start(99)).unwrap(), 50);
    // Before the window start: refused.
    assert!(matches!(cursor.seek(SeekFrom::Current(-51)), Err(Error::IO { .. })));
    assert_eq!(cursor.position(), 50);
}

#[test]
fn range_cursor_stays_inside_its_window() {
    let mut file = sized_file(20);
    file.write_all(&(0u8..20).collect::<Vec<u8>>(), 0).unwrap();

    let mut writer = file.range_writer(5, 6).unwrap();
    // Writing more than the window holds stops at the window end.
    let n = writer.write(&mut file, &vec![0xEE; 10]);
    assert_eq!(n, 6);
    let all = file.copy_all_to_vec();
    assert_eq!(&all[..5], &[0, 1, 2, 3, 4]);
    assert_eq!(&all[5..11], &[0xEE; 6]);
    assert_eq!(&all[11..], &[11, 12, 13, 14, 15, 16, 17, 18, 19]);

    // A full-window write request is refused outright by write_all.
    let mut writer = file.range_writer(5, 6).unwrap();
    assert!(matches!(
        writer.write_all(&mut file, &vec![0u8; 7]),
        Err(Error::Bounds { requested: 7, available: 6 })
    ));
    // ... and the file is untouched by the failed attempt.
    assert_eq!(&file.copy_all_to_vec()[5..11], &[0xEE; 6]);

    // Reads are clamped to the window too.
    let mut reader = file.range_reader(5, 6).unwrap();
    let mut out = vec![0u8; 10];
    assert_eq!(reader.read(&file, &mut out), 6);
    assert_eq!(&out[..6], &[0xEE; 6]);
    assert!(matches!(
        reader.read_exact(&file, 1),
        Err(Error::Bounds { requested: 1, available: 0 })
    ));
}

#[test]
fn range_cursor_typed_values_round_trip() {
    let mut file = sized_file(8096);
    let mut writer = file.range_writer(8000, 96).unwrap();
    writer.write_all(&mut file, &vec![8]).unwrap();
    writer.write_all(&mut file, &16u16.to_be_bytes().to_vec()).unwrap();
    writer.write_all(&mut file, &32u32.to_be_bytes().to_vec()).unwrap();
    writer.write_all(&mut file, &64u64.to_be_bytes().to_vec()).unwrap();

    let mut reader = file.range_reader(8000, 96).unwrap();
    assert_eq!(reader.read_exact(&file, 1).unwrap(), vec![8]);
    assert_eq!(reader.read_exact(&file, 2).unwrap(), 16u16.to_be_bytes().to_vec());
    assert_eq!(reader.read_exact(&file, 4).unwrap(), 32u32.to_be_bytes().to_vec());
    assert_eq!(reader.read_exact(&file, 8).unwrap(), 64u64.to_be_bytes().to_vec());
    assert_eq!(reader.position(), 15);
    assert_eq!(reader.remaining(), 81);
}

#[test]
fn cursor_constructors_check_their_window() {
    let file = sized_file(10);
    assert!(file.reader(10).is_ok());
    assert!(matches!(
        file.reader(11),
        Err(Error::Bounds { requested: 11, available: 10 })
    ));
    assert!(matches!(
        file.range_writer(8, 3),
        Err(Error::Bounds { requested: 11, available: 10 })
    ));
    assert!(file.range_reader(8, 2).is_ok());
}

#[test]
fn short_read_leaves_tail_of_buffer() {
    let mut file = sized_file(4);
    file.write_all(&vec![1, 2, 3, 4], 0).unwrap();
    let mut reader = file.reader(2).unwrap();
    let mut out = vec![9u8; 5];
    assert_eq!(reader.read(&file, &mut out), 2);
    assert_eq!(out, vec![3, 4, 9, 9, 9]);
}

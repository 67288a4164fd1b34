//! Chunk arithmetic, part paths, and the part-buffer write model.

use swarmdrop::errors::AppError;
use swarmdrop::sink::{compute_part_path, FileSink, PartBuffer};
use swarmdrop::source::{calc_total_chunks, chunk_span, CHUNK_SIZE};

#[test]
fn test_calc_total_chunks() {
    assert_eq!(calc_total_chunks(0), 1);
    assert_eq!(calc_total_chunks(1), 1);
    assert_eq!(calc_total_chunks(CHUNK_SIZE), 1);
    assert_eq!(calc_total_chunks(CHUNK_SIZE + 1), 2);
    assert_eq!(calc_total_chunks(CHUNK_SIZE * 10), 10);
}

#[test]
fn chunk_span_ranges() {
    // Empty file: one empty chunk regardless of index.
    assert_eq!(chunk_span(0, 0).unwrap(), (0, 0));
    // First chunk of a large file is full-sized.
    assert_eq!(chunk_span(CHUNK_SIZE * 2, 0).unwrap(), (0, CHUNK_SIZE));
    // The final chunk is short.
    assert_eq!(
        chunk_span(CHUNK_SIZE + 5, 1).unwrap(),
        (CHUNK_SIZE, 5)
    );
    // Past the end: rejected.
    assert!(matches!(
        chunk_span(CHUNK_SIZE, 1),
        Err(AppError::Transfer(_))
    ));
}

#[test]
fn part_path_appends_part() {
    assert_eq!(compute_part_path("hello.txt"), "hello.txt.part");
    assert_eq!(compute_part_path("docs/readme.md"), "docs/readme.md.part");
    assert_eq!(compute_part_path("Makefile"), "Makefile.part");
}

#[test]
fn sink_builds_part_addressing() {
    let sink = FileSink::Path { save_dir: String::from("/tmp/save") };
    let part = sink.build_part_file("dir/sub/b.txt", 512);
    assert_eq!(part.final_path(), "/tmp/save/dir/sub/b.txt");
    assert_eq!(part.part_path(), "/tmp/save/dir/sub/b.txt.part");
    assert_eq!(part.size(), 512);
    assert_eq!(sink.save_dir_display(), "/tmp/save");
    assert!(sink.ensure_permission().is_ok());
}

#[test]
fn part_buffer_positioned_writes_commute() {
    // Two disjoint chunk writes land the same bytes in either order.
    let size = CHUNK_SIZE * 2;
    let data0 = vec![0xAAu8; CHUNK_SIZE as usize];
    let data1 = vec![0xBBu8; CHUNK_SIZE as usize];

    let mut first = PartBuffer::create(size);
    first.write_chunk(0, &data0).unwrap();
    first.write_chunk(1, &data1).unwrap();

    let mut second = PartBuffer::create(size);
    second.write_chunk(1, &data1).unwrap();
    second.write_chunk(0, &data0).unwrap();

    assert_eq!(first.contents_bytes(), second.contents_bytes());
    assert_eq!(&first.contents_bytes()[..CHUNK_SIZE as usize], &data0[..]);
    assert_eq!(&first.contents_bytes()[CHUNK_SIZE as usize..], &data1[..]);
}

#[test]
fn part_buffer_write_touches_only_its_range() {
    let mut buf = PartBuffer::create(100);
    buf.write_chunk(0, &[7u8; 10]).unwrap();
    let bytes = buf.contents_bytes();
    assert_eq!(&bytes[..10], &[7u8; 10][..]);
    assert!(bytes[10..].iter().all(|b| *b == 0));
    assert_eq!(bytes.len(), 100);
}

#[test]
fn part_buffer_rejects_overrun_and_closed_writes() {
    let mut buf = PartBuffer::create(10);
    assert!(matches!(
        buf.write_chunk(0, &[1u8; 11]),
        Err(AppError::Transfer(_))
    ));
    assert!(matches!(
        buf.write_chunk(1, &[1u8; 1]),
        Err(AppError::Transfer(_))
    ));
    buf.close_write_handle();
    assert!(matches!(
        buf.write_chunk(0, &[1u8; 1]),
        Err(AppError::Transfer(_))
    ));
}

#[test]
fn finalize_succeeds_on_matching_checksum() {
    // After writes covering the whole declared size, a finalize with the
    // BLAKE3 hex of those bytes makes the file final at its full size.
    let content = b"hello swarmdrop";
    let mut buf = PartBuffer::create(content.len() as u64);
    buf.write_chunk(0, content).unwrap();
    let hex = blake3::hash(content).to_hex().to_string();
    buf.verify_and_finalize(&hex).unwrap();
    assert!(buf.is_finalized());
    assert!(!buf.is_removed());
    assert_eq!(buf.contents_bytes().len(), content.len());
    assert_eq!(&buf.contents_bytes()[..], content);
}

#[test]
fn finalize_rejects_wrong_checksum() {
    let mut buf = PartBuffer::create(5);
    buf.write_chunk(0, b"hello").unwrap();
    let result = buf.verify_and_finalize("wrong_hash");
    assert!(matches!(result, Err(AppError::Transfer(_))));
    assert!(buf.is_removed());
    assert!(!buf.is_finalized());
}

#[test]
fn cleanup_is_idempotent_and_spares_finalized_files() {
    let mut removed = PartBuffer::create(4);
    removed.cleanup();
    removed.cleanup();
    assert!(removed.is_removed());

    let content = b"keep";
    let mut kept = PartBuffer::create(4);
    kept.write_chunk(0, content).unwrap();
    let hex = blake3::hash(content).to_hex().to_string();
    kept.verify_and_finalize(&hex).unwrap();
    kept.cleanup();
    assert!(kept.is_finalized());
}

#[test]
fn empty_file_finalizes() {
    let mut buf = PartBuffer::create(0);
    let hex = blake3::hash(b"").to_hex().to_string();
    buf.verify_and_finalize(&hex).unwrap();
    assert!(buf.is_finalized());
    assert_eq!(buf.contents_bytes().len(), 0);
}

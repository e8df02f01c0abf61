use oss_sdk::chunk::{split_file_by_part_size, FileChunk, MAX_PARTS};
use oss_sdk::errors::{Error, InvalidReason};

fn chunk(number: u64, offset: u64, size: u64) -> FileChunk {
    FileChunk { number, offset, size }
}

#[test]
fn test_chunk_file() {
    let res = split_file_by_part_size(5000, 1024);
    assert!(res.is_ok());
    let chunks = res.unwrap();
    assert_eq!(chunks.len(), 5);
    assert_eq!(chunks[4], chunk(5, 4096, 904));
}

#[test]
fn plan_of_250000_bytes_in_100000_byte_parts() {
    let chunks = split_file_by_part_size(250000, 100000).unwrap();
    assert_eq!(
        chunks,
        vec![chunk(1, 0, 100000), chunk(2, 100000, 100000), chunk(3, 200000, 50000)]
    );
}

#[test]
fn plan_of_exact_multiple_has_no_trailing_chunk() {
    let chunks = split_file_by_part_size(300, 100).unwrap();
    assert_eq!(chunks, vec![chunk(1, 0, 100), chunk(2, 100, 100), chunk(3, 200, 100)]);
}

#[test]
fn plan_of_small_file_is_one_chunk() {
    let chunks = split_file_by_part_size(7, 100).unwrap();
    assert_eq!(chunks, vec![chunk(1, 0, 7)]);
}

#[test]
fn plan_is_contiguous_and_covers_file() {
    let file_size: u64 = 1_234_567;
    let chunks = split_file_by_part_size(file_size, 4096).unwrap();
    let mut offset = 0;
    for (i, c) in chunks.iter().enumerate() {
        assert_eq!(c.number, i as u64 + 1);
        assert_eq!(c.offset, offset);
        assert!(c.size > 0);
        offset += c.size;
    }
    assert_eq!(offset, file_size);
}

#[test]
fn plan_of_empty_file_is_empty() {
    let chunks = split_file_by_part_size(0, 100).unwrap();
    assert!(chunks.is_empty());
}

#[test]
fn plan_with_zero_chunk_size_is_refused() {
    assert_eq!(
        split_file_by_part_size(100, 0),
        Err(Error::InvalidInput(InvalidReason::ZeroChunkSize))
    );
}

#[test]
fn plan_reaching_part_limit_is_refused() {
    assert_eq!(split_file_by_part_size(MAX_PARTS, 1), Err(Error::TooManyParts));
    assert_eq!(split_file_by_part_size(20000 * 7, 7), Err(Error::TooManyParts));
    assert_eq!(split_file_by_part_size(9999 * 10 + 1, 10), Err(Error::TooManyParts));
}

#[test]
fn plan_just_below_part_limit_is_accepted() {
    let chunks = split_file_by_part_size(9999 * 10, 10).unwrap();
    assert_eq!(chunks.len(), 9999);
    assert_eq!(chunks[9998], chunk(9999, 99980, 10));
}

#[test]
fn plan_of_largest_file() {
    let chunks = split_file_by_part_size(u64::MAX, u64::MAX / 2).unwrap();
    assert_eq!(
        chunks,
        vec![chunk(1, 0, u64::MAX / 2), chunk(2, u64::MAX / 2, u64::MAX / 2), chunk(3, u64::MAX - 1, 1)]
    );
}

//! Cutting files into chunks and merging them.

use rust_download::chunks::{
    chunk_file_name, chunkable, create_chunks, download_chunk, merge_chunks, part_content,
    range_header,
};
use rust_download::task::ChunkInfo;

#[test]
fn a_file_is_cut() {
    let chunks = create_chunks(10, 4);
    let bounds: Vec<(usize, u64, u64)> =
        chunks.iter().map(|c| (c.index, c.start, c.end)).collect();
    assert_eq!(bounds, vec![(0, 0, 4), (1, 4, 8), (2, 8, 10)]);
    assert!(chunks.iter().all(|c| c.downloaded == 0 && !c.completed));
}

#[test]
fn edge_cases_of_cutting() {
    assert_eq!(create_chunks(0, 4), vec![]);
    assert_eq!(create_chunks(0, 0), vec![]);
    assert_eq!(create_chunks(4, 4).len(), 1);
    assert_eq!(create_chunks(5, 4).len(), 2);
    assert_eq!(create_chunks(3, 4)[0].end, 3);
    assert_eq!(create_chunks(u64::MAX, u64::MAX).len(), 1);
    assert_eq!(create_chunks(10 * 2_097_152 + 1, 2_097_152).len(), 11);
}

#[test]
fn what_can_be_cut() {
    assert!(chunkable(10, 4));
    assert!(chunkable(0, 0));
    assert!(!chunkable(10, 0));
    assert!(chunkable(u64::MAX, u64::MAX));
    assert!(!chunkable(u64::MAX, 1 << 63));
    assert!(!chunkable(u64::MAX, 4));
    assert!(chunkable(u64::MAX - 3, 4));
}

#[test]
fn each_byte_is_in_one_chunk() {
    for total in 1..40u64 {
        for size in 1..12u64 {
            let chunks = create_chunks(total, size);
            for byte in 0..total {
                let n = chunks.iter().filter(|c| c.start <= byte && byte < c.end).count();
                assert_eq!(n, 1);
            }
            assert_eq!(chunks.iter().map(|c| c.end - c.start).sum::<u64>(), total);
            assert_eq!(chunks.len() as u64, (total + size - 1) / size);
        }
    }
}

#[test]
fn names_of_chunk_files() {
    assert_eq!(chunk_file_name(0), "chunk_0000");
    assert_eq!(chunk_file_name(42), "chunk_0042");
    assert_eq!(chunk_file_name(9999), "chunk_9999");
    assert_eq!(chunk_file_name(10000), "chunk_10000");
    for i in 0..200usize {
        for j in 0..i {
            assert_ne!(chunk_file_name(i), chunk_file_name(j));
        }
    }
}

#[test]
fn what_a_chunk_asks_for() {
    let mut chunk = ChunkInfo { index: 3, start: 100, end: 200, downloaded: 0, completed: false };
    let request = download_chunk(&chunk).unwrap();
    assert_eq!(request.range, "bytes=100-199");
    assert_eq!(request.file, "chunk_0003");
    chunk.downloaded = 50;
    assert_eq!(download_chunk(&chunk).unwrap().range, "bytes=150-199");
    chunk.downloaded = 99;
    assert_eq!(download_chunk(&chunk).unwrap().range, "bytes=199-199");
    chunk.downloaded = 100;
    assert!(download_chunk(&chunk).is_none());
    chunk.downloaded = 101;
    assert!(download_chunk(&chunk).is_none());
    assert_eq!(range_header(0, 0), "bytes=0-0");
}

#[test]
fn merging_gives_the_file_back() {
    let data: Vec<u8> = (0..=255u8).cycle().take(1000).collect();
    for size in [1u64, 7, 100, 999, 1000, 1001] {
        let chunks = create_chunks(1000, size);
        let names = merge_chunks(1000, size);
        assert_eq!(names.len(), chunks.len());
        let mut merged: Vec<u8> = Vec::new();
        for (name, chunk) in names.iter().zip(&chunks) {
            assert_eq!(*name, chunk_file_name(chunk.index));
            let part = data[chunk.start as usize..chunk.end as usize].to_vec();
            merged.extend(part_content(Some(part)));
        }
        assert_eq!(merged, data);
    }
    assert!(merge_chunks(0, 5).is_empty());
}

#[test]
fn a_missing_part_adds_nothing() {
    assert!(part_content(None).is_empty());
    assert_eq!(part_content(Some(vec![1, 2])), vec![1, 2]);
}

#[test]
fn a_resumed_chunk_is_complete() {
    let data: Vec<u8> = (0..100).collect();
    for kept in 0..=40u64 {
        let chunk = ChunkInfo { index: 0, start: 20, end: 60, downloaded: kept, completed: false };
        let mut file = data[20..20 + kept as usize].to_vec();
        if let Some(request) = download_chunk(&chunk) {
            let range = request.range.strip_prefix("bytes=").unwrap();
            let (first, last) = range.split_once('-').unwrap();
            let first: usize = first.parse().unwrap();
            let last: usize = last.parse().unwrap();
            file.extend(&data[first..=last]);
        }
        assert_eq!(file, data[20..60].to_vec());
    }
}

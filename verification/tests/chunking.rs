//! Splitting a buffer into chunks: count, flags, and reconstruction.

use backer::packet::message::FileBuffer;

fn cut(data: Vec<u8>, max: usize) -> Vec<FileBuffer> {
    FileBuffer::new(String::from("f.bin"), data).cut_file_buff(max)
}

#[test]
fn empty_buffer_yields_no_chunks() {
    assert_eq!(cut(Vec::new(), 8).len(), 0);
}

#[test]
fn buffer_smaller_than_chunk_yields_one_dual_flag_chunk() {
    let chunks = cut(vec![1u8, 2, 3], 8);
    assert_eq!(chunks.len(), 1);
    assert!(chunks[0].is_begin);
    assert!(chunks[0].is_end);
    assert_eq!(chunks[0].buffer, vec![1u8, 2, 3]);
    assert_eq!(chunks[0].file_name, "f.bin");
}

#[test]
fn exact_multiple_yields_full_chunks() {
    let chunks = cut(vec![7u8; 16], 8);
    assert_eq!(chunks.len(), 2);
    assert!(chunks[0].is_begin && !chunks[0].is_end);
    assert!(!chunks[1].is_begin && chunks[1].is_end);
    assert_eq!(chunks[0].buffer.len(), 8);
    assert_eq!(chunks[1].buffer.len(), 8);
}

#[test]
fn chunk_count_is_ceiling_of_ratio() {
    assert_eq!(cut(vec![0u8; 17], 8).len(), 3); // ceil(17/8)
    assert_eq!(cut(vec![0u8; 16], 8).len(), 2);
    assert_eq!(cut(vec![0u8; 1], 8).len(), 1);
    assert_eq!(cut(vec![0u8; 9], 1).len(), 9);
}

#[test]
fn fifty_thousand_bytes_split_at_reference_chunk_size() {
    let data: Vec<u8> = (0..50000u32).map(|i| (i % 251) as u8).collect();
    let chunks = cut(data.clone(), 20480);
    assert_eq!(chunks.len(), 3);
    assert_eq!(chunks[0].buffer.len(), 20480);
    assert_eq!(chunks[1].buffer.len(), 20480);
    assert_eq!(chunks[2].buffer.len(), 9040);
    assert!(chunks[0].is_begin && !chunks[0].is_end);
    assert!(!chunks[1].is_begin && !chunks[1].is_end);
    assert!(!chunks[2].is_begin && chunks[2].is_end);
    let mut rebuilt: Vec<u8> = Vec::new();
    for c in &chunks {
        rebuilt.extend_from_slice(&c.buffer);
    }
    assert_eq!(rebuilt, data);
}

#[test]
fn concatenated_chunks_rebuild_the_buffer() {
    let data: Vec<u8> = (0..1000u32).map(|i| (i * 7 % 256) as u8).collect();
    for max in [1usize, 3, 99, 1000, 5000] {
        let chunks = cut(data.clone(), max);
        let mut rebuilt: Vec<u8> = Vec::new();
        for c in &chunks {
            rebuilt.extend_from_slice(&c.buffer);
        }
        assert_eq!(rebuilt, data, "chunk size {}", max);
    }
}

#[test]
fn every_chunk_keeps_the_file_name_and_order() {
    let chunks = cut(vec![9u8; 25], 10);
    assert_eq!(chunks.len(), 3);
    for (i, c) in chunks.iter().enumerate() {
        assert_eq!(c.file_name, "f.bin");
        assert_eq!(c.is_begin, i == 0);
        assert_eq!(c.is_end, i == chunks.len() - 1);
    }
}

#[test]
fn get_buffer_length_reports_content_bytes() {
    let fb = FileBuffer::new(String::from("n"), vec![1u8, 2, 3, 4]);
    assert_eq!(fb.get_buffer_length(), 4);
}

#[test]
fn new_chunk_starts_unpositioned() {
    let fb = FileBuffer::new(String::from("n"), vec![1u8]);
    assert!(!fb.is_begin && !fb.is_end);
}

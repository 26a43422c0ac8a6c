use tale_ndjson::readers::stdin::split_overshoot;
use tale_ndjson::config::{ConfigOpts, OffsetUnit};
use tale_ndjson::readers::chunked::{ReadRequest, SkipProgress};
use tale_ndjson::readers::stdin::{find_last_char, CircularByteBuffer, LastLines};
use tale_ndjson::readers::strategies::{align_to_block_size, get_optimal_block_size, optimal_chunk_size};
use tale_ndjson::readers::{select_processor, ChunkConfig, ChunkedFileReader, FileChunk, ProcessorKind, StaticStrategy};

/// Reads `data` through the reader, as a file of that content, and returns
/// the chunks.
fn read_chunks(reader: &mut ChunkedFileReader, data: &[u8]) -> Vec<FileChunk> {
    let mut chunks = Vec::new();
    loop {
        match reader.read_request() {
            ReadRequest::Finished => break,
            ReadRequest::Read(n) => {
                let pos = reader.position() as usize;
                let end = (pos + n).min(data.len());
                match reader.take_chunk(data[pos..end].to_vec()) {
                    Some(chunk) => chunks.push(chunk),
                    None => break,
                }
            }
        }
    }
    chunks
}

/// Skips `count` lines of `data` through the reader.
fn skip_lines(reader: &mut ChunkedFileReader, data: &[u8], count: u64) {
    let mut skipped = 0;
    while skipped < count {
        let n = match reader.read_request() {
            ReadRequest::Finished => return,
            ReadRequest::Read(n) => n,
        };
        let pos = reader.position() as usize;
        let end = (pos + n).min(data.len());
        let Some(chunk) = reader.take_chunk(data[pos..end].to_vec()) else { return };
        match reader.skip_in_chunk(chunk, skipped, count) {
            SkipProgress::Done => return,
            SkipProgress::Continue(k) => skipped = k,
        }
    }
}

fn remaining_lines(reader: &mut ChunkedFileReader, data: &[u8]) -> Vec<String> {
    read_chunks(reader, data).iter().flat_map(|c| c.lines()).collect()
}

#[test]
fn chonk_size_optimizer() {
    // Small files should use small chunks
    assert_eq!(optimal_chunk_size(500_000), 8_192);

    // Medium files should use medium chunks
    assert_eq!(optimal_chunk_size(50_000_000), 131_072);

    // Large files should use large chunks
    assert_eq!(optimal_chunk_size(500_000_000), 524_288);
}

#[test]
fn processor_selection() {
    let with = |offset: i64, unit: OffsetUnit, force: bool, disable: bool| ConfigOpts {
        offset,
        offset_unit: unit,
        force_chunked: force,
        disable_chunked: disable,
        ..ConfigOpts::default()
    };

    // Negative offset always uses the back-seeking processor
    assert_eq!(select_processor(&with(-20, OffsetUnit::Lines, false, false), 1_000_000_000), ProcessorKind::BackSeeking);
    // Byte offset units always use the back-seeking processor
    assert_eq!(select_processor(&with(100, OffsetUnit::Bytes, false, false), 1_000_000_000), ProcessorKind::BackSeeking);
    // force_chunked uses the chunked processor (when not disabled)
    assert_eq!(select_processor(&with(100, OffsetUnit::Lines, true, false), 100_000_000), ProcessorKind::Chunked);
    // disable_chunked prevents the chunked processor
    assert_eq!(select_processor(&with(20_000, OffsetUnit::Lines, false, true), 200_000_000), ProcessorKind::Buffered);
    // Large file (>1GB) uses the chunked processor
    assert_eq!(select_processor(&with(100, OffsetUnit::Lines, false, false), 1_500_000_000), ProcessorKind::Chunked);
    // Large file + large offset uses the chunked processor
    assert_eq!(select_processor(&with(20_000, OffsetUnit::Lines, false, false), 150_000_000), ProcessorKind::Chunked);
    // Small file + small offset uses the buffered processor
    assert_eq!(select_processor(&with(100, OffsetUnit::Lines, false, false), 10_000_000), ProcessorKind::Buffered);
}

#[test]
fn can_create_chonker() {
    let data = b"line1\nline2\nline3\n".to_vec();
    let chunk = FileChunk::new(data.clone(), 0, data.len() as u64);

    assert_eq!(chunk.size(), data.len());
    assert!(!chunk.is_empty());
    assert!(chunk.starts_at_line_boundary);
    assert!(chunk.ends_at_line_boundary);
}

#[test]
fn can_chunkread_small_files() {
    let test_data = "line1\nline2\nline3\n";
    let strategy = StaticStrategy {
        chunk_size: 8, // Small chunks to test boundary handling
        config: ChunkConfig { overlap_size: 2, low_memory_mode: true },
    };

    let mut reader = ChunkedFileReader::with_strategy(test_data.len() as u64, strategy);

    assert_eq!(reader.file_size(), test_data.len() as u64);
    assert_eq!(reader.position(), 0);
    assert!(!reader.is_at_end());

    // Read chunks and verify content
    let mut all_content = String::new();
    for chunk in read_chunks(&mut reader, test_data.as_bytes()) {
        let chunk_str = std::str::from_utf8(&chunk.data).expect("we expected a valid utf8 string in this test");
        all_content.push_str(chunk_str);
    }

    assert_eq!(all_content, test_data);
    assert!(reader.is_at_end());
}

#[test]
fn line_boundary_handling() {
    let data = b"line1\nline2\npartial".to_vec();
    let data_len = data.len();
    let mut chunk = FileChunk::new(data, 0, data_len as u64);

    assert!(!chunk.ends_at_line_boundary);

    let remainder = chunk.split_at_last_line();
    assert!(remainder.is_some());
    assert_eq!(remainder.expect("we expected some remainder after the end of the line"), b"partial");
    assert_eq!(chunk.data, b"line1\nline2\n");
    assert!(chunk.ends_at_line_boundary);
}

#[test]
fn chunk_iterator_works() {
    let data = b"line1\nline2\nline3".to_vec();
    let data_len = data.len();
    let chunk = FileChunk::new(data, 0, data_len as u64);

    let lines: Vec<String> = chunk.lines();
    assert_eq!(lines, vec!["line1", "line2", "line3"]);
}

#[test]
fn can_skip_chunked_lines() {
    // Test data with more lines to test chunk boundaries
    let test_data = "line1\nline2\nline3\nline4\nline5\nline6\nline7\nline8\nline9\nline10\n";
    let strategy = StaticStrategy {
        chunk_size: 15, // Small enough to split across chunks
        config: ChunkConfig { overlap_size: 2, low_memory_mode: true },
    };
    let mut reader = ChunkedFileReader::with_strategy(test_data.len() as u64, strategy);

    // Skip first 3 lines
    skip_lines(&mut reader, test_data.as_bytes(), 3);

    // Collect remaining lines
    let remaining = remaining_lines(&mut reader, test_data.as_bytes());

    // Should have lines 4-10
    assert_eq!(remaining, vec!["line4", "line5", "line6", "line7", "line8", "line9", "line10"]);
}

#[test]
fn chunked_skip_lines_partial_chunk() {
    // skipping needs to stop in the middle of a chunk
    let test_data = "a\nb\nc\nd\ne\nf\ng\nh\ni\nj\n";
    let strategy = StaticStrategy {
        chunk_size: 8, // Will create multiple small chunks
        config: ChunkConfig { overlap_size: 1, low_memory_mode: true },
    };
    let mut reader = ChunkedFileReader::with_strategy(test_data.len() as u64, strategy);

    // Skip exactly 5 lines (should stop mid-chunk)
    skip_lines(&mut reader, test_data.as_bytes(), 5);

    let next_lines = remaining_lines(&mut reader, test_data.as_bytes());

    // Should get lines "f" and "g"
    assert!(next_lines.len() >= 2);
    assert_eq!(next_lines[0], "f");
    assert_eq!(next_lines[1], "g");
}

#[test]
fn can_find_last_char() {
    // Test normal case
    assert_eq!(find_last_char(b"hello\nworld\n", b'\n'), Some(11));
    assert_eq!(find_last_char(b"hello\nworld", b'\n'), Some(5));

    // Test no match
    assert_eq!(find_last_char(b"hello world", b'\n'), None);

    // Test empty buffer
    assert_eq!(find_last_char(b"", b'\n'), None);

    // Test single character
    assert_eq!(find_last_char(b"\n", b'\n'), Some(0));
    assert_eq!(find_last_char(b"a", b'\n'), None);

    // Test multiple occurrences
    assert_eq!(find_last_char(b"\n\n\n", b'\n'), Some(2));
}

#[test]
fn circular_buffer_edge_cases() {
    // Test buffer exactly at capacity
    let mut buffer = CircularByteBuffer::new(5);
    buffer.write(b"12345");
    assert_eq!(buffer.extract_last_bytes(), b"12345");

    // Test buffer overflow
    buffer.write(b"67890");
    assert_eq!(buffer.extract_last_bytes(), b"67890");

    // Test partial writes
    let mut buffer2 = CircularByteBuffer::new(10);
    buffer2.write(b"abc");
    assert_eq!(buffer2.extract_last_bytes(), b"abc");

    // Test multiple small writes
    buffer2.write(b"def");
    buffer2.write(b"ghi");
    assert_eq!(buffer2.extract_last_bytes(), b"abcdefghi");
}

#[test]
fn backtracking_with_partial_lines() {
    // Case 1: Buffer ends with newline
    let buffer_with_newline = b"line1\nline2\nline3\n";
    assert_eq!(find_last_char(buffer_with_newline, b'\n'), Some(17));

    // Case 2: Buffer doesn't end with newline
    let buffer_without_newline = b"line1\nline2\nline3";
    assert_eq!(find_last_char(buffer_without_newline, b'\n'), Some(11));

    // Case 3: Buffer with no newlines
    let buffer_no_newlines = b"single long line without newlines";
    assert_eq!(find_last_char(buffer_no_newlines, b'\n'), None);
}

#[test]
fn aligned_to_blocks() {
    let block_size = 4096;

    // Test exact alignment
    assert_eq!(align_to_block_size(4096, block_size), 4096);
    assert_eq!(align_to_block_size(8192, block_size), 8192);

    // Test rounding up
    assert_eq!(align_to_block_size(4097, block_size), 8192);
    assert_eq!(align_to_block_size(1000, block_size), 4096);
    assert_eq!(align_to_block_size(9000, block_size), 12288);

    // Test zero and small values
    assert_eq!(align_to_block_size(0, block_size), 0);
    assert_eq!(align_to_block_size(1, block_size), 4096);
}

#[test]
fn optimal_chunk_sizes_are_aligned() {
    let block_size = get_optimal_block_size();

    let small_chunk = optimal_chunk_size(500_000);
    let medium_chunk = optimal_chunk_size(50_000_000);
    let large_chunk = optimal_chunk_size(500_000_000);

    // All should be aligned to block boundaries
    assert_eq!(small_chunk % block_size, 0);
    assert_eq!(medium_chunk % block_size, 0);
    assert_eq!(large_chunk % block_size, 0);
}

#[test]
fn test_circular_buffer_byte_logic() {
    // the last 10 of 20 bytes written through a 10-byte ring
    let input_data = b"0123456789abcdefghij";
    let mut buffer = CircularByteBuffer::new(10);
    for byte in input_data.iter() {
        buffer.write(&[*byte]);
    }
    assert_eq!(buffer.extract_last_bytes(), b"abcdefghij");
}

#[test]
fn test_circular_buffer_partial_fill() {
    // input smaller than the buffer
    let input_data = b"hello";
    let mut buffer = CircularByteBuffer::new(10);
    buffer.write(input_data);
    let result = buffer.extract_last_bytes();
    assert_eq!(result, b"hello");
}

#[test]
fn circular_line_logic() {
    // keeping the last lines of a stream
    let mut line_buffer = LastLines::new(3);
    let input_lines = vec!["line1", "line2", "line3", "line4", "line5"];
    for line in input_lines {
        line_buffer.push(line.to_string());
    }

    // Should contain last 3 lines
    let result: Vec<String> = line_buffer.into_vec();
    assert_eq!(result, vec!["line3", "line4", "line5"]);
}

#[test]
fn overshoot_splits_into_lines_and_partial_rest() {
    let (lines, rest) = split_overshoot(b"ef");
    assert!(lines.is_empty());
    assert_eq!(rest, b"ef".to_vec());

    let (lines, rest) = split_overshoot(b"partial line\ncomplete line\nanother");
    assert_eq!(lines, vec!["partial line".to_string(), "complete line".to_string()]);
    assert_eq!(rest, b"another".to_vec());

    let (lines, rest) = split_overshoot(b"a\n\nb\n");
    assert_eq!(lines, vec!["a".to_string(), String::new(), "b".to_string()]);
    assert!(rest.is_empty());

    let (lines, _) = split_overshoot(b"\xffx\n");
    assert_eq!(lines, vec!["\u{fffd}x".to_string()]);
}

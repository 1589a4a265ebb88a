use json_stream::{align_up, block_size, get_content_length, ContentEncoding, InflateFeed, InflateStep, ZType};

#[test]
fn gzip_header_selects_compression() {
    assert_eq!(ContentEncoding::from_str("gzip").unwrap(), ContentEncoding::Gzip);
    assert_eq!(ContentEncoding::from_str("GZIP").unwrap(), ContentEncoding::Identity);
    assert_eq!(ContentEncoding::from_str("deflate").unwrap(), ContentEncoding::Identity);
    assert_eq!(ContentEncoding::from_str("").unwrap(), ContentEncoding::Identity);
    assert_eq!(ContentEncoding::from_str("gzip ").unwrap(), ContentEncoding::Identity);
}

#[test]
fn content_length_values() {
    assert_eq!(get_content_length(Some(b"123")), 123);
    assert_eq!(get_content_length(Some(b"+5")), 5);
    assert_eq!(get_content_length(Some(b"0")), 0);
    assert_eq!(get_content_length(None), 0);
    assert_eq!(get_content_length(Some(b"")), 0);
    assert_eq!(get_content_length(Some(b"+")), 0);
    assert_eq!(get_content_length(Some(b"-1")), 0);
    assert_eq!(get_content_length(Some(b"12a")), 0);
    assert_eq!(get_content_length(Some(b" 12")), 0);
    assert_eq!(get_content_length(Some(b"99999999999999999999999999")), 0);
    assert_eq!(get_content_length(Some(usize::MAX.to_string().as_bytes())), usize::MAX);
}

#[test]
fn align_up_rounds_to_multiples() {
    assert_eq!(align_up(0, 8), 0);
    assert_eq!(align_up(1, 8), 8);
    assert_eq!(align_up(8, 8), 8);
    assert_eq!(align_up(9, 8), 16);
    assert_eq!(align_up(13, 4), 16);
}

#[test]
fn block_sizes_add_a_header() {
    assert_eq!(block_size(3, 5, 8, 8), Some(24));
    assert_eq!(block_size(0, 5, 8, 8), Some(8));
    assert_eq!(block_size(1, 8, 8, 8), Some(16));
    assert_eq!(block_size(7, 1, 4, 4), Some(12));
    for (n, k) in [(1u32, 1u32), (2, 3), (64, 1024), (1, 65536), (4096, 7)] {
        let s = block_size(n, k, 8, 8).unwrap();
        assert!(s >= (n as usize) * (k as usize) + 8);
        assert_eq!((s - 8) % 8, 0);
    }
}

#[test]
fn block_size_overflow_is_refused() {
    assert_eq!(block_size(u32::MAX, 2, 8, 8), None);
    assert_eq!(block_size(65536, 65536, 8, 8), None);
    assert_eq!(block_size(65535, 65537, 8, 8), Some(4294967295 + 1 + 8));
    assert_eq!(block_size(1, 1, usize::MAX, 8), None);
    assert_eq!(block_size(1, 1, 8, usize::MAX), None);
}

#[test]
fn z_type_conversions() {
    let x: u64 = 0x1_0000_0005;
    let a: u32 = x.z_type();
    let b: u64 = x.z_type();
    assert_eq!(a, 5);
    assert_eq!(b, x);
}

#[test]
fn inflate_feed_decisions() {
    let mut f = InflateFeed::new();
    assert_eq!(f.record(10, 0, 4, 16, 16), InflateStep::More);
    assert_eq!(f.input_start(), 4);
    assert_eq!(f.record(10, 0, 3, 5, 16), InflateStep::More);
    assert_eq!(f.input_start(), 7);
    assert_eq!(f.record(10, 1, 3, 2, 16), InflateStep::ChunkDone);
    assert_eq!(f.input_start(), 0);
    assert_eq!(f.record(10, 0, 0, 0, 16), InflateStep::Failed);
    assert_eq!(f.record(10, -3, 2, 0, 16), InflateStep::Failed);
    assert_eq!(f.record(10, 0, 11, 0, 16), InflateStep::Failed);
    assert_eq!(f.record(0, -5, 0, 0, 16), InflateStep::ChunkDone);
    assert_eq!(f.record(4, -5, 0, 0, 16), InflateStep::Failed);
}

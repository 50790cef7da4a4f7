use druid_segment::compression::{accept_block, decompress_block, CompressionStrategy};
use druid_segment::error::{DruidSegmentError, ErrorKind};

#[test]
fn codec_ids() {
    assert_eq!(CompressionStrategy::from_id(0x00).unwrap(), CompressionStrategy::Lzf);
    assert_eq!(CompressionStrategy::from_id(0x01).unwrap(), CompressionStrategy::Lz4);
    assert_eq!(CompressionStrategy::from_id(0x02).unwrap(), CompressionStrategy::Zstd);
    assert_eq!(CompressionStrategy::from_id(0xFF).unwrap(), CompressionStrategy::Uncompressed);
    assert_eq!(CompressionStrategy::from_id(0xFE).unwrap(), CompressionStrategy::NoCodec);
}

#[test]
fn unknown_codec_id_is_unsupported() {
    for id in [0x03u8, 0x10, 0x7F, 0xFD] {
        let err = CompressionStrategy::from_id(id).unwrap_err();
        assert!(matches!(err, DruidSegmentError::UnsupportedCompression(got) if got == id));
    }
}

#[test]
fn pass_through_codecs_return_their_input() {
    let bytes = [1u8, 2, 3, 4, 5];
    assert_eq!(
        decompress_block(CompressionStrategy::Uncompressed, &bytes, 5).unwrap(),
        bytes.to_vec()
    );
    assert_eq!(
        decompress_block(CompressionStrategy::NoCodec, &bytes, 5).unwrap(),
        bytes.to_vec()
    );
    assert_eq!(
        decompress_block(CompressionStrategy::Uncompressed, &[], 0).unwrap(),
        Vec::<u8>::new()
    );
}

#[test]
fn pass_through_of_another_size_is_a_decompression_error() {
    let bytes = [1u8, 2, 3, 4, 5];
    for size in [0usize, 4, 6] {
        assert_eq!(
            decompress_block(CompressionStrategy::Uncompressed, &bytes, size).unwrap_err().kind(),
            ErrorKind::DecompressionError
        );
        assert_eq!(
            decompress_block(CompressionStrategy::NoCodec, &bytes, size).unwrap_err().kind(),
            ErrorKind::DecompressionError
        );
    }
}

#[test]
fn unimplemented_codecs_are_unsupported() {
    assert_eq!(
        decompress_block(CompressionStrategy::Lzf, &[1, 2, 3], 3).unwrap_err().kind(),
        ErrorKind::UnsupportedCompression(0x00)
    );
    assert_eq!(
        decompress_block(CompressionStrategy::Zstd, &[1, 2, 3], 3).unwrap_err().kind(),
        ErrorKind::UnsupportedCompression(0x02)
    );
}

#[test]
fn lz4_block_is_decompressed() {
    let original: Vec<u8> = (0..400u32).map(|i| (i % 7) as u8).collect();
    let compressed = lz4_flex::block::compress(&original);
    assert!(compressed.len() < original.len());
    assert_ne!(compressed, original);
    assert_eq!(
        decompress_block(CompressionStrategy::Lz4, &compressed, original.len()).unwrap(),
        original
    );
}

#[test]
fn lz4_block_of_another_size_is_a_decompression_error() {
    let original: Vec<u8> = (0..400u32).map(|i| (i % 7) as u8).collect();
    let compressed = lz4_flex::block::compress(&original);
    assert_eq!(
        decompress_block(CompressionStrategy::Lz4, &compressed, original.len() - 1)
            .unwrap_err()
            .kind(),
        ErrorKind::DecompressionError
    );
    assert_eq!(
        decompress_block(CompressionStrategy::Lz4, &compressed, original.len() + 1)
            .unwrap_err()
            .kind(),
        ErrorKind::DecompressionError
    );
}

#[test]
fn malformed_lz4_block_is_a_decompression_error() {
    assert_eq!(
        decompress_block(CompressionStrategy::Lz4, &[0xF0], 16).unwrap_err().kind(),
        ErrorKind::DecompressionError
    );
}

#[test]
fn block_of_the_expected_size_is_accepted() {
    assert_eq!(accept_block(vec![9, 8, 7], 3).unwrap(), vec![9, 8, 7]);
    assert_eq!(
        accept_block(vec![9, 8, 7], 2).unwrap_err().kind(),
        ErrorKind::DecompressionError
    );
    assert_eq!(
        accept_block(vec![], 1).unwrap_err().kind(),
        ErrorKind::DecompressionError
    );
}

use fz_stream_common::compression::{
    CodecError, CompressionStats, compress_data, decompress_data,
};
use fz_stream_common::config::CompressionLevel;

fn sample_compressible() -> Vec<u8> {
    // Highly repetitive, so every codec shrinks it.
    let mut v = Vec::new();
    for i in 0..1000u32 {
        v.push((i % 4) as u8);
    }
    v
}

fn sample_incompressible(len: usize) -> Vec<u8> {
    // A fixed pseudo-random buffer; too dense for any codec to shrink.
    let mut v = Vec::new();
    let mut x: u64 = 0x2545_F491_4F6C_DD1D;
    for _ in 0..len {
        x ^= x << 13;
        x ^= x >> 7;
        x ^= x << 17;
        v.push((x & 0xFF) as u8);
    }
    v
}

#[test]
fn round_trip_none_is_identity() {
    let data = sample_compressible();
    let c = compress_data(&data, CompressionLevel::NoCompression).unwrap();
    assert_eq!(c, data);
    let d = decompress_data(&c, CompressionLevel::NoCompression, None).unwrap();
    assert_eq!(d, data);
}

#[test]
fn round_trip_lz4_fast() {
    let data = sample_compressible();
    let c = compress_data(&data, CompressionLevel::LZ4Fast).unwrap();
    assert!(c != data);
    assert!(c.len() < data.len());
    let d = decompress_data(&c, CompressionLevel::LZ4Fast, Some(data.len())).unwrap();
    assert_eq!(d, data);
}

#[test]
fn round_trip_lz4_high() {
    let data = sample_compressible();
    let c = compress_data(&data, CompressionLevel::LZ4High).unwrap();
    let d = decompress_data(&c, CompressionLevel::LZ4High, Some(data.len())).unwrap();
    assert_eq!(d, data);
}

#[test]
fn round_trip_lz4_generous_size_hint() {
    let data = sample_compressible();
    let c = compress_data(&data, CompressionLevel::LZ4Fast).unwrap();
    // A hint larger than the original length still recovers the bytes.
    let d = decompress_data(&c, CompressionLevel::LZ4Fast, Some(data.len() * 3)).unwrap();
    assert_eq!(d, data);
}

#[test]
fn round_trip_zstd_all_levels() {
    let data = sample_compressible();
    for level in [
        CompressionLevel::ZstdFast,
        CompressionLevel::ZstdMedium,
        CompressionLevel::ZstdHigh,
    ] {
        let c = compress_data(&data, level).unwrap();
        assert!(c != data);
        assert!(c.len() < data.len());
        let d = decompress_data(&c, level, None).unwrap();
        assert_eq!(d, data);
    }
}

#[test]
fn round_trip_single_byte() {
    let data = vec![42u8];
    for level in [
        CompressionLevel::LZ4Fast,
        CompressionLevel::LZ4High,
        CompressionLevel::ZstdFast,
        CompressionLevel::ZstdHigh,
    ] {
        let c = compress_data(&data, level).unwrap();
        let d = decompress_data(&c, level, Some(1)).unwrap();
        assert_eq!(d, data);
    }
}

#[test]
fn round_trip_incompressible_bytes() {
    let data = sample_incompressible(256);
    let c = compress_data(&data, CompressionLevel::ZstdHigh).unwrap();
    let d = decompress_data(&c, CompressionLevel::ZstdHigh, None).unwrap();
    assert_eq!(d, data);
}

#[test]
fn decode_frame_made_by_the_library_under_any_declared_zstd_level() {
    // The decoder does not care at which level a frame was produced.
    let data = sample_compressible();
    let c = compress_data(&data, CompressionLevel::ZstdMedium).unwrap();
    let d = decompress_data(&c, CompressionLevel::ZstdFast, None).unwrap();
    assert_eq!(d, data);
}

#[test]
fn decode_external_zstd_frame() {
    // A frame produced directly by the zstd crate decodes the same way.
    let data = sample_compressible();
    let frame = zstd::encode_all(&data[..], 3).unwrap();
    let d = decompress_data(&frame, CompressionLevel::ZstdMedium, None).unwrap();
    assert_eq!(d, data);
}

#[test]
fn decode_external_lz4_block() {
    let data = sample_compressible();
    let block = lz4::block::compress(&data, None, false).unwrap();
    let d = decompress_data(&block, CompressionLevel::LZ4Fast, Some(data.len())).unwrap();
    assert_eq!(d, data);
}

#[test]
fn corrupt_zstd_bytes_are_surfaced() {
    let garbage = vec![0xFFu8, 0x00, 0x12, 0x34, 0x56, 0x78, 0x9A, 0xBC];
    let r = decompress_data(&garbage, CompressionLevel::ZstdHigh, None);
    assert_eq!(r, Err(CodecError::CorruptEnvelope));
}

#[test]
fn truncated_lz4_block_is_surfaced() {
    let data = sample_compressible();
    let mut c = compress_data(&data, CompressionLevel::LZ4Fast).unwrap();
    c.pop();
    let r = decompress_data(&c, CompressionLevel::LZ4Fast, Some(data.len()));
    assert_eq!(r, Err(CodecError::CorruptEnvelope));
}

#[test]
fn compression_stats_ratio_formula() {
    let s = CompressionStats::new(1000, 400, 7, 3);
    assert_eq!(s.original_size, 1000);
    assert_eq!(s.compressed_size, 400);
    assert_eq!(s.compression_ratio_permille, 400);
    assert_eq!(s.compression_time_ms, 7);
    assert_eq!(s.decompression_time_ms, 3);
    assert_eq!(s.compression_percentage(), 600);
}

#[test]
fn compression_stats_growth_gives_negative_percentage() {
    let s = CompressionStats::new(100, 150, 0, 0);
    assert_eq!(s.compression_ratio_permille, 1500);
    assert_eq!(s.compression_percentage(), -500);
}

#[test]
fn compression_stats_zero_original_defaults_to_zero_ratio() {
    let s = CompressionStats::new(0, 50, 0, 0);
    assert_eq!(s.compression_ratio_permille, 0);
    assert_eq!(s.compression_percentage(), 1000);
}

#[test]
fn compression_stats_default_is_all_zero() {
    let s = CompressionStats::default();
    assert_eq!(s.original_size, 0);
    assert_eq!(s.compressed_size, 0);
    assert_eq!(s.compression_ratio_permille, 0);
}

#[test]
fn compression_is_deterministic_per_codec() {
    let data = sample_compressible();
    for level in [
        CompressionLevel::LZ4Fast,
        CompressionLevel::LZ4High,
        CompressionLevel::ZstdFast,
        CompressionLevel::ZstdHigh,
    ] {
        let a = compress_data(&data, level).unwrap();
        let b = compress_data(&data, level).unwrap();
        assert_eq!(a, b);
    }
}

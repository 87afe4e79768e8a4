//! The codec abstraction: maps a requested `CompressionLevel` to a concrete
//! algorithm and level and performs the forward and inverse transforms.
//!
//! The underlying LZ4 and Zstd algorithms are external libraries reached
//! through a narrow compress/decompress contract; this module only carries
//! the policy around using them correctly.

use vstd::prelude::*;

use crate::config::{CompressionLevel, CompressionType, spec_family_of};

verus! {

/// How a codec operation fails.
#[derive(Clone, Copy, Debug, PartialEq, Eq, Structural)]
pub enum CodecError {
    /// A compression attempt failed. Callers are expected to treat this as
    /// "compression unavailable" and fall back to the uncompressed bytes.
    CodecFailure,
    /// Decompression failed: the codec indicated by the metadata does not
    /// match the bytes actually present. The original bytes cannot be
    /// reconstructed, so this is always surfaced.
    CorruptEnvelope,
}

/// The largest input length the LZ4 block format accepts.
pub const LZ4_MAX_INPUT: usize = 0x7E00_0000;

/// The bytes of the LZ4 block that compressing `data` produces (in fast or
/// high-compression mode). Left uninterpreted: only the compress/decompress
/// wrappers below say anything about it.
pub uninterp spec fn lz4_block(data: Seq<u8>, high_compression: bool) -> Seq<u8>;

/// The bytes of the Zstd frame that compressing `data` at `level` produces.
/// Left uninterpreted: only the compress/decompress wrappers below say
/// anything about it.
pub uninterp spec fn zstd_frame(data: Seq<u8>, level: int) -> Seq<u8>;

/// Relies on lz4::block::compress (block format, no size prefix): the result
/// is a deterministic function of the input bytes and the mode; the call
/// succeeds exactly on inputs within the block format's limit, with a
/// non-empty block (even an empty input yields a one-byte block).
#[verifier::external_body]
fn lz4_compress(data: &[u8], high_compression: bool) -> (r: Option<Vec<u8>>)
    ensures
        r is Some <==> data@.len() <= LZ4_MAX_INPUT,
        r matches Some(c) ==> c@ == lz4_block(data@, high_compression) && c@.len() > 0,
{
    let mode = if high_compression {
        Some(lz4::block::CompressionMode::HIGHCOMPRESSION(9))
    } else {
        None
    };
    lz4::block::compress(data, mode, false).ok()
}

/// What decompressing `data` as an LZ4 block with the given size bound
/// yields: the recovered bytes, or nothing when the block is invalid or its
/// contents exceed the bound. Left uninterpreted; decoding is a function of
/// exactly these two arguments.
pub uninterp spec fn lz4_decoded(data: Seq<u8>, size_bound: int) -> Option<Seq<u8>>;

/// What the LZ4 decoder promises: whenever `data` is the compressed image of
/// some bytes `x` covered by the size bound, the outcome `r` is exactly `x`.
pub open spec fn lz4_decoder_yields(data: Seq<u8>, size_bound: int, r: Option<Vec<u8>>) -> bool {
    forall|x: Seq<u8>, h: bool|
        data == #[trigger] lz4_block(x, h) && x.len() <= size_bound ==> (r matches Some(v)
            && v@ == x)
}

/// Relies on lz4::block::decompress: the outcome is the deterministic
/// function `lz4_decoded` of the input bytes and the size bound, and a block
/// that is the compressed image of some bytes `x` decompresses back to
/// exactly `x` whenever the caller's size bound covers `x`.
#[verifier::external_body]
fn lz4_decompress(data: &[u8], size_bound: i32) -> (r: Option<Vec<u8>>)
    requires
        0 <= size_bound <= LZ4_MAX_INPUT,
    ensures
        lz4_decoder_yields(data@, size_bound as int, r),
        r matches Some(v) ==> lz4_decoded(data@, size_bound as int) == Some(v@),
        r is None ==> lz4_decoded(data@, size_bound as int) is None,
{
    lz4::block::decompress(data, Some(size_bound)).ok()
}

/// Relies on zstd::stream::encode_all: for a level in the supported range
/// the call succeeds, and the result is a deterministic function of the
/// input bytes and the level — a frame, so never empty (it starts with the
/// format's magic number).
#[verifier::external_body]
fn zstd_compress(data: &[u8], level: i32) -> (r: Option<Vec<u8>>)
    requires
        1 <= level <= 22,
    ensures
        r is Some,
        r matches Some(c) ==> c@ == zstd_frame(data@, level as int) && c@.len() > 0,
{
    zstd::encode_all(data, level).ok()
}

/// What decoding `data` as a Zstd frame yields: the recovered bytes, or
/// nothing when the bytes are not a valid frame. Left uninterpreted;
/// decoding is a function of the bytes alone.
pub uninterp spec fn zstd_decoded(data: Seq<u8>) -> Option<Seq<u8>>;

/// What the Zstd decoder promises: whenever `data` is the compressed image
/// of some bytes `x`, at whatever level, the outcome `r` is exactly `x`.
pub open spec fn zstd_decoder_yields(data: Seq<u8>, r: Option<Vec<u8>>) -> bool {
    forall|x: Seq<u8>, lvl: int|
        data == #[trigger] zstd_frame(x, lvl) ==> (r matches Some(v) && v@ == x)
}

/// Relies on zstd::stream::decode_all: the outcome is the deterministic
/// function `zstd_decoded` of the input bytes, and a frame that is the
/// compressed image of some bytes `x`, at whatever level, decodes back to
/// exactly `x`.
#[verifier::external_body]
fn zstd_decompress(data: &[u8]) -> (r: Option<Vec<u8>>)
    ensures
        zstd_decoder_yields(data@, r),
        r matches Some(v) ==> zstd_decoded(data@) == Some(v@),
        r is None ==> zstd_decoded(data@) is None,
{
    zstd::decode_all(data).ok()
}

/// The numeric Zstd level behind each Zstd `CompressionLevel`.
pub open spec fn spec_zstd_level(level: CompressionLevel) -> int {
    match level {
        CompressionLevel::ZstdFast => 1,
        CompressionLevel::ZstdMedium => 6,
        CompressionLevel::ZstdHigh => 15,
        CompressionLevel::ZstdMax => 22,
        _ => 0,
    }
}

/// The bytes that compressing `data` under `level` yields when the underlying
/// algorithm succeeds; the identity for `CompressionLevel::NoCompression`.
pub open spec fn compressed_image(data: Seq<u8>, level: CompressionLevel) -> Seq<u8> {
    match spec_family_of(level) {
        CompressionType::NoCompression => data,
        CompressionType::LZ4 => lz4_block(data, level == CompressionLevel::LZ4High),
        CompressionType::Zstd => zstd_frame(data, spec_zstd_level(level)),
    }
}

/// The size bound that `decompress_data` hands to the LZ4 decoder: the
/// caller's hint if one is given, else four times the compressed length,
/// both capped at the block format's limit.
pub open spec fn spec_lz4_budget(hint: Option<usize>, data_len: nat) -> int {
    match hint {
        Some(n) => if n > LZ4_MAX_INPUT {
            LZ4_MAX_INPUT as int
        } else {
            n as int
        },
        None => if data_len > LZ4_MAX_INPUT as nat / 4 {
            LZ4_MAX_INPUT as int
        } else {
            data_len as int * 4
        },
    }
}

/// What decoding `data` under `level` with `hint` yields: the identity for
/// no compression, else the declared family's decoder applied to the bytes
/// (for LZ4, under the size bound that `decompress_data` computes). `None`
/// is the corrupt case: the declared codec does not match the bytes present.
pub open spec fn spec_decode_outcome(
    data: Seq<u8>,
    level: CompressionLevel,
    hint: Option<usize>,
) -> Option<Seq<u8>> {
    match spec_family_of(level) {
        CompressionType::NoCompression => Some(data),
        CompressionType::LZ4 => lz4_decoded(data, spec_lz4_budget(hint, data.len())),
        CompressionType::Zstd => zstd_decoded(data),
    }
}

/// When decoding `data` under `level` with `hint` is guaranteed to yield
/// exactly `x`: the declared family must be able to see `data` as a
/// compressed image of `x`, and for LZ4 the size bound must cover `x`.
pub open spec fn decodes_to(
    data: Seq<u8>,
    level: CompressionLevel,
    hint: Option<usize>,
    x: Seq<u8>,
) -> bool {
    match spec_family_of(level) {
        CompressionType::NoCompression => x == data,
        CompressionType::LZ4 => (exists|h: bool| data == #[trigger] lz4_block(x, h)) && x.len()
            <= spec_lz4_budget(hint, data.len()),
        CompressionType::Zstd => exists|lvl: int| data == #[trigger] zstd_frame(x, lvl),
    }
}

/// Compress `data` under the requested `level`.
///
/// For `CompressionLevel::NoCompression` this is the identity. Otherwise it
/// delegates to the mapped algorithm and returns exactly its compressed
/// image; the one way to fail is an LZ4 input beyond the block format's
/// limit, reported as `CodecError::CodecFailure`, which callers treat as
/// "compression unavailable" rather than as a fatal error.
pub fn compress_data(data: &[u8], level: CompressionLevel) -> (r: Result<Vec<u8>, CodecError>)
    ensures
        r matches Ok(c) ==> c@ == compressed_image(data@, level),
        level == CompressionLevel::NoCompression ==> (r matches Ok(c) && c@ == data@),
        spec_family_of(level) == CompressionType::Zstd ==> r is Ok,
        spec_family_of(level) == CompressionType::LZ4 ==> (r is Ok <==> data@.len()
            <= LZ4_MAX_INPUT),
        spec_family_of(level) != CompressionType::NoCompression ==> (r matches Ok(c) ==> c@.len()
            > 0),
        r is Err ==> r == Err::<Vec<u8>, CodecError>(CodecError::CodecFailure),
{
    let attempt: Option<Vec<u8>> = match level {
        CompressionLevel::NoCompression => Some(vstd::slice::slice_to_vec(data)),
        CompressionLevel::LZ4Fast => lz4_compress(data, false),
        CompressionLevel::LZ4High => lz4_compress(data, true),
        CompressionLevel::ZstdFast => zstd_compress(data, 1),
        CompressionLevel::ZstdMedium => zstd_compress(data, 6),
        CompressionLevel::ZstdHigh => zstd_compress(data, 15),
        CompressionLevel::ZstdMax => zstd_compress(data, 22),
    };
    match attempt {
        Some(c) => Ok(c),
        None => Err(CodecError::CodecFailure),
    }
}

/// Decompress `data` under the declared `level`, with an optional hint for
/// the original (pre-compression) size.
///
/// The result is exactly `spec_decode_outcome`: whenever `data` really is
/// the compressed image of some bytes `x` (covered by the size bound, for
/// LZ4), the call returns exactly `x`, and when the declared codec does not
/// match the bytes present it fails with `CodecError::CorruptEnvelope`; the
/// original bytes cannot otherwise be reconstructed, so that failure is
/// surfaced, never swallowed.
pub fn decompress_data(
    data: &[u8],
    level: CompressionLevel,
    original_size_hint: Option<usize>,
) -> (r: Result<Vec<u8>, CodecError>)
    ensures
        forall|x: Seq<u8>|
            #[trigger] decodes_to(data@, level, original_size_hint, x) ==> (r matches Ok(v)
                && v@ == x),
        spec_decode_outcome(data@, level, original_size_hint) matches Some(w) ==> (r matches Ok(v)
            && v@ == w),
        spec_decode_outcome(data@, level, original_size_hint) is None ==> r is Err,
        level == CompressionLevel::NoCompression ==> (r matches Ok(v) && v@ == data@),
        r is Err ==> r == Err::<Vec<u8>, CodecError>(CodecError::CorruptEnvelope),
{
    let attempt: Option<Vec<u8>> = match level {
        CompressionLevel::NoCompression => Some(vstd::slice::slice_to_vec(data)),
        CompressionLevel::LZ4Fast | CompressionLevel::LZ4High => {
            let budget: usize = match original_size_hint {
                Some(n) => if n > LZ4_MAX_INPUT {
                    LZ4_MAX_INPUT
                } else {
                    n
                },
                None => if data.len() > LZ4_MAX_INPUT / 4 {
                    LZ4_MAX_INPUT
                } else {
                    data.len() * 4
                },
            };
            lz4_decompress(data, budget as i32)
        },
        CompressionLevel::ZstdFast
        | CompressionLevel::ZstdMedium
        | CompressionLevel::ZstdHigh
        | CompressionLevel::ZstdMax => zstd_decompress(data),
    };
    match attempt {
        Some(v) => Ok(v),
        None => Err(CodecError::CorruptEnvelope),
    }
}

/// The round-trip law at the level of the codec contracts: whatever
/// `compress_data` produced for `data` under `level` is decoded back to
/// exactly `data` by `decompress_data` under the same level — for LZ4,
/// whenever the caller's size hint covers `data` (as the envelope's declared
/// original size does).
pub proof fn lemma_compressed_image_decodes(
    data: Seq<u8>,
    level: CompressionLevel,
    hint: Option<usize>,
)
    requires
        spec_family_of(level) == CompressionType::LZ4 ==> data.len() <= LZ4_MAX_INPUT && (
        hint matches Some(n) && n >= data.len()),
    ensures
        decodes_to(compressed_image(data, level), level, hint, data),
{
    match spec_family_of(level) {
        CompressionType::NoCompression => {
        },
        CompressionType::LZ4 => {
            let h = level == CompressionLevel::LZ4High;
            assert(compressed_image(data, level) == lz4_block(data, h));
        },
        CompressionType::Zstd => {
            let lvl = spec_zstd_level(level);
            assert(compressed_image(data, level) == zstd_frame(data, lvl));
        },
    }
}

/// The compressed size as thousandths of the original size (capped at
/// `u64::MAX`); 0 when the original size is 0.
pub open spec fn spec_ratio_permille(original: u64, compressed: u64) -> int {
    if original > 0 {
        compressed * 1000 / original as int
    } else {
        0
    }
}

/// Sizes and timings observed for one compress/decompress cycle.
#[derive(Clone, Copy, Debug, PartialEq, Eq, Structural)]
pub struct CompressionStats {
    pub original_size: u64,
    pub compressed_size: u64,
    /// Compressed size as thousandths of the original size; 0 when the
    /// original size is 0.
    pub compression_ratio_permille: u64,
    pub compression_time_ms: u64,
    pub decompression_time_ms: u64,
}

impl Default for CompressionStats {
    fn default() -> (r: Self)
        ensures
            r == (CompressionStats {
                original_size: 0,
                compressed_size: 0,
                compression_ratio_permille: 0,
                compression_time_ms: 0,
                decompression_time_ms: 0,
            }),
    {
        CompressionStats {
            original_size: 0,
            compressed_size: 0,
            compression_ratio_permille: 0,
            compression_time_ms: 0,
            decompression_time_ms: 0,
        }
    }
}

impl CompressionStats {
    /// Record one cycle; the ratio is derived from the two sizes.
    pub fn new(
        original_size: u64,
        compressed_size: u64,
        compression_time_ms: u64,
        decompression_time_ms: u64,
    ) -> (r: Self)
        ensures
            r.original_size == original_size,
            r.compressed_size == compressed_size,
            r.compression_ratio_permille == if spec_ratio_permille(original_size, compressed_size)
                <= u64::MAX as int {
                spec_ratio_permille(original_size, compressed_size)
            } else {
                u64::MAX as int
            },
            r.compression_time_ms == compression_time_ms,
            r.decompression_time_ms == decompression_time_ms,
    {
        let compression_ratio_permille: u64 = if original_size > 0 {
            let scaled: u128 = compressed_size as u128 * 1000;
            let ratio: u128 = scaled / original_size as u128;
            if ratio > u64::MAX as u128 {
                u64::MAX
            } else {
                ratio as u64
            }
        } else {
            0
        };
        CompressionStats {
            original_size,
            compressed_size,
            compression_ratio_permille,
            compression_time_ms,
            decompression_time_ms,
        }
    }

    /// How much of the original size compression saved, in thousandths
    /// rather than percent (the crate avoids floating point): 1000 minus the
    /// stored ratio, clamped to `i64`'s range. Negative when compression
    /// grew the data.
    pub fn compression_percentage(&self) -> (r: i64)
        ensures
            r == if 1000 - self.compression_ratio_permille >= i64::MIN as int {
                1000 - self.compression_ratio_permille
            } else {
                i64::MIN as int
            },
    {
        if self.compression_ratio_permille <= 1000 {
            (1000 - self.compression_ratio_permille) as i64
        } else {
            let over: u64 = self.compression_ratio_permille - 1000;
            if over <= 0x7FFF_FFFF_FFFF_FFFF {
                -(over as i64)
            } else {
                i64::MIN
            }
        }
    }
}

/// A description of one compression algorithm's parameters.
#[derive(Clone, Debug)]
pub struct CompressionInfo {
    pub algorithm: String,
    pub level: u32,
    pub dictionary_size: Option<usize>,
    pub block_size: Option<usize>,
}

/// Whether and how aggressively a transport compresses its payloads.
#[derive(Clone, Debug)]
pub struct CompressionConfig {
    pub enabled: bool,
    pub algorithm: String,
    pub level: u32,
    pub threshold_size: usize,
    pub max_compression_time_ms: u64,
}

impl Default for CompressionConfig {
    fn default() -> (r: Self)
        ensures
            r.enabled == true,
            r.algorithm@ == "lz4"@,
            r.level == 1,
            r.threshold_size == 1024,
            r.max_compression_time_ms == 100,
    {
        CompressionConfig {
            enabled: true,
            algorithm: String::from_str("lz4"),
            level: 1,
            threshold_size: 1024,
            max_compression_time_ms: 100,
        }
    }
}

} // verus!

//! Classification of an image by its leading magic bytes, and the size that a
//! gzip stream records in its trailer.
use vstd::prelude::*;

verus! {

/// The encoding of an image file.
#[derive(Clone, Copy, Debug, PartialEq, Eq, Structural)]
pub enum ImageFormat {
    Raw,
    Gzip,
    Zstd,
}

pub open spec fn gzip_magic_at_start(p: Seq<u8>) -> bool {
    p.len() >= 2 && p[0] == 0x1F && p[1] == 0x8B
}

pub open spec fn zstd_magic_at_start(p: Seq<u8>) -> bool {
    p.len() >= 4 && p[0] == 0x28 && p[1] == 0xB5 && p[2] == 0x2F && p[3] == 0xFD
}

/// The format that a file starting with `p` has.
pub open spec fn format_of(p: Seq<u8>) -> ImageFormat {
    if gzip_magic_at_start(p) {
        ImageFormat::Gzip
    } else if zstd_magic_at_start(p) {
        ImageFormat::Zstd
    } else {
        ImageFormat::Raw
    }
}

/// Whether the bytes begin with the gzip magic `1F 8B`.
pub fn is_gzipped(prefix: &[u8]) -> (r: bool)
    ensures
        r == gzip_magic_at_start(prefix@),
{
    prefix.len() >= 2 && prefix[0] == 0x1F && prefix[1] == 0x8B
}

/// Whether the bytes begin with the zstd frame magic `28 B5 2F FD`.
pub fn is_zstd(prefix: &[u8]) -> (r: bool)
    ensures
        r == zstd_magic_at_start(prefix@),
{
    prefix.len() >= 4 && prefix[0] == 0x28 && prefix[1] == 0xB5 && prefix[2] == 0x2F && prefix[3]
        == 0xFD
}

/// Classifies a file by its first bytes; anything that is neither gzip nor
/// zstd (a prefix that is too short included) is raw.
pub fn detect_format(prefix: &[u8]) -> (r: ImageFormat)
    ensures
        r == format_of(prefix@),
{
    if is_gzipped(prefix) {
        ImageFormat::Gzip
    } else if is_zstd(prefix) {
        ImageFormat::Zstd
    } else {
        ImageFormat::Raw
    }
}

/// The gzip trailer's uncompressed size: the last 4 bytes of the stream, an
/// unsigned little-endian integer (the true size modulo 2^32).
pub open spec fn trailer_size(s: Seq<u8>) -> int {
    let n = s.len() as int;
    s[n - 4] as int + s[n - 3] as int * 0x100 + s[n - 2] as int * 0x10000 + s[n - 1] as int
        * 0x1000000
}

/// The uncompressed size recorded at the end of a gzip stream, given the
/// stream's final bytes (at least 4); `None` when fewer than 4 are given.
/// Payloads of 4 GiB and more report their size modulo 2^32.
pub fn gzip_size_from_trailer(tail: &[u8]) -> (r: Option<u64>)
    ensures
        tail@.len() < 4 <==> r.is_none(),
        r matches Some(n) ==> n as int == trailer_size(tail@),
{
    let n = tail.len();
    if n < 4 {
        return None;
    }
    Some(
        tail[n - 4] as u64 + tail[n - 3] as u64 * 0x100 + tail[n - 2] as u64 * 0x10000 + tail[n
            - 1] as u64 * 0x1000000,
    )
}

/// How the uncompressed size is found before streaming.
#[derive(Clone, Copy, Debug, PartialEq, Eq, Structural)]
pub enum SizeStrategy {
    /// The source file's length.
    SourceLength,
    /// The size recorded in the gzip trailer.
    GzipTrailer,
    /// Decoding the whole stream once and counting its bytes.
    FullDecode,
    /// Inferred from a partition table while streaming, else estimated.
    WhileStreaming,
}

pub open spec fn strategy_for(format: ImageFormat, destination_count: int) -> SizeStrategy {
    match format {
        ImageFormat::Raw => SizeStrategy::SourceLength,
        ImageFormat::Gzip => if destination_count > 1 {
            SizeStrategy::WhileStreaming
        } else {
            SizeStrategy::GzipTrailer
        },
        ImageFormat::Zstd => if destination_count > 1 {
            SizeStrategy::WhileStreaming
        } else {
            SizeStrategy::FullDecode
        },
    }
}

/// The way to size an image: a raw image by its length; a compressed one,
/// with a single destination, by its trailer (gzip) or a full decode (zstd),
/// and with several destinations while it streams.
pub fn size_strategy(format: ImageFormat, destination_count: usize) -> (r: SizeStrategy)
    ensures
        r == strategy_for(format, destination_count as int),
{
    match format {
        ImageFormat::Raw => SizeStrategy::SourceLength,
        ImageFormat::Gzip => if destination_count > 1 {
            SizeStrategy::WhileStreaming
        } else {
            SizeStrategy::GzipTrailer
        },
        ImageFormat::Zstd => if destination_count > 1 {
            SizeStrategy::WhileStreaming
        } else {
            SizeStrategy::FullDecode
        },
    }
}

} // verus!

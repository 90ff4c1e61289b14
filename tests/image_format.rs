use imgflash::format::{
    detect_format, gzip_size_from_trailer, is_gzipped, is_zstd, size_strategy, ImageFormat,
    SizeStrategy,
};
use std::io::Write;

#[test]
fn detects_gzip_zstd_and_raw() {
    assert_eq!(detect_format(&[0x1F, 0x8B, 0x08, 0x00]), ImageFormat::Gzip);
    assert_eq!(detect_format(&[0x28, 0xB5, 0x2F, 0xFD, 0x00]), ImageFormat::Zstd);
    assert_eq!(detect_format(&[0x28, 0xB5, 0x2F]), ImageFormat::Raw);
    assert_eq!(detect_format(&[0xEB, 0x3C, 0x90, 0x4D]), ImageFormat::Raw);
    assert_eq!(detect_format(&[]), ImageFormat::Raw);
    assert!(is_gzipped(&[0x1F, 0x8B]));
    assert!(!is_gzipped(&[0x1F]));
    assert!(is_zstd(&[0x28, 0xB5, 0x2F, 0xFD]));
    assert!(!is_zstd(&[0xFD, 0x2F, 0xB5, 0x28]));
}

#[test]
fn gzip_trailer_gives_uncompressed_length() {
    let payload: Vec<u8> = (0..300_000u32).map(|i| (i % 251) as u8).collect();
    let mut enc = flate2::write::GzEncoder::new(Vec::new(), flate2::Compression::default());
    enc.write_all(&payload).unwrap();
    let gz = enc.finish().unwrap();
    assert_eq!(detect_format(&gz[..4]), ImageFormat::Gzip);
    assert_eq!(gzip_size_from_trailer(&gz), Some(300_000));
    assert_eq!(gzip_size_from_trailer(&gz[gz.len() - 4..]), Some(300_000));
}

#[test]
fn gzip_trailer_needs_four_bytes() {
    assert_eq!(gzip_size_from_trailer(&[1, 2, 3]), None);
    assert_eq!(gzip_size_from_trailer(&[9, 0x01, 0x02, 0x03, 0x04]), Some(0x0403_0201));
}

#[test]
fn size_strategies() {
    assert_eq!(size_strategy(ImageFormat::Raw, 3), SizeStrategy::SourceLength);
    assert_eq!(size_strategy(ImageFormat::Gzip, 1), SizeStrategy::GzipTrailer);
    assert_eq!(size_strategy(ImageFormat::Zstd, 1), SizeStrategy::FullDecode);
    assert_eq!(size_strategy(ImageFormat::Gzip, 2), SizeStrategy::WhileStreaming);
    assert_eq!(size_strategy(ImageFormat::Zstd, 2), SizeStrategy::WhileStreaming);
}

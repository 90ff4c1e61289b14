use imgflash::progress::Progress;
use imgflash::stream::{
    adaptive_total, plan_chunk, ChunkWrite, FlashError, FlashStream, SizeEstimate,
};

const MIB: usize = 1024 * 1024;

/// An in-memory destination that records what reaches it.
struct SpyDest {
    data: Vec<u8>,
    cursor: usize,
    writes: usize,
    flushes: usize,
    data_syncs: usize,
    full_syncs: usize,
}

impl SpyDest {
    fn zeroed(len: usize) -> SpyDest {
        SpyDest { data: vec![0; len], cursor: 0, writes: 0, flushes: 0, data_syncs: 0, full_syncs: 0 }
    }

    fn apply(&mut self, plan: ChunkWrite, chunk: &[u8]) {
        match plan {
            ChunkWrite::Skip => {
                self.cursor += chunk.len();
                self.flushes += 1;
            }
            ChunkWrite::Copy => {
                let end = self.cursor + chunk.len();
                if self.data.len() < end {
                    self.data.resize(end, 0);
                }
                self.data[self.cursor..end].copy_from_slice(chunk);
                self.cursor = end;
                self.writes += 1;
            }
        }
    }
}

/// Runs one operation over `image` in chunks of `chunk` bytes, as the
/// program's loop does, and returns the destinations and progress.
fn run(image: &[u8], chunk: usize, size: SizeEstimate, dests: usize) -> (Vec<SpyDest>, Progress, Vec<u64>) {
    let mut ds: Vec<SpyDest> = (0..dests).map(|_| SpyDest::zeroed(image.len())).collect();
    let mut progress = Progress::new(0);
    let mut stream = FlashStream::new(size, dests).unwrap();
    let mut seen = Vec::new();
    for c in image.chunks(chunk) {
        let plan = stream.begin_chunk(c);
        for d in ds.iter_mut() {
            d.apply(plan, c);
        }
        let before = progress.bytes_written;
        let sync = stream.commit_chunk(&mut progress);
        assert!(progress.bytes_written >= before);
        let (n, den) = progress.completion_parts();
        assert!(n <= den && den > 0);
        seen.push(progress.bytes_written);
        if sync {
            for d in ds.iter_mut() {
                d.data_syncs += 1;
            }
        }
    }
    stream.finish(&mut progress);
    for d in ds.iter_mut() {
        d.full_syncs += 1;
    }
    (ds, progress, seen)
}

#[test]
fn zero_chunk_is_skipped_and_advances_cursor() {
    let zeros = vec![0u8; 4096];
    assert_eq!(plan_chunk(&zeros), ChunkWrite::Skip);
    let mut d = SpyDest::zeroed(0);
    d.apply(plan_chunk(&zeros), &zeros);
    assert_eq!(d.cursor, 4096);
    assert_eq!(d.writes, 0);
    assert!(d.data.is_empty());
    let mut one = zeros.clone();
    one[4095] = 1;
    assert_eq!(plan_chunk(&one), ChunkWrite::Copy);
    assert_eq!(plan_chunk(&[]), ChunkWrite::Skip);
}

#[test]
fn ten_mib_image_to_two_destinations_is_identical() {
    let mut image = vec![0u8; 10 * MIB];
    for (i, b) in image.iter_mut().enumerate() {
        // every other MiB holds data; the rest stays zero
        if (i / MIB) % 2 == 1 {
            *b = (i % 253) as u8 + 1;
        }
    }
    let (ds, progress, _) = run(&image, MIB, SizeEstimate::Exact(image.len() as u64), 2);
    assert_eq!(ds[0].data, image);
    assert_eq!(ds[1].data, image);
    assert_eq!(ds[0].writes, 5);
    assert_eq!(ds[0].cursor, 10 * MIB);
    assert_eq!(progress.bytes_written, 10 * MIB as u64);
    assert_eq!(progress.total_bytes, 10 * MIB as u64);
}

#[test]
fn bytes_written_never_decreases() {
    let image: Vec<u8> = (0..3 * MIB + 17).map(|i| (i % 7) as u8).collect();
    let (_, progress, seen) = run(&image, 65_537, SizeEstimate::Adaptive, 1);
    assert!(seen.windows(2).all(|w| w[0] <= w[1]));
    assert_eq!(progress.bytes_written, image.len() as u64);
}

#[test]
fn adaptive_total_stays_ahead_until_the_end() {
    let image = vec![5u8; 3 * MIB];
    let mut progress = Progress::new(0);
    let mut stream = FlashStream::new(SizeEstimate::Adaptive, 2).unwrap();
    for c in image.chunks(MIB / 2) {
        stream.begin_chunk(c);
        stream.commit_chunk(&mut progress);
        assert!(progress.total_bytes > progress.bytes_written);
        assert_eq!(progress.total_bytes, adaptive_total(progress.bytes_written));
    }
    stream.finish(&mut progress);
    assert_eq!(stream.size_estimate(), SizeEstimate::Exact(3 * MIB as u64));
    assert_eq!(progress.total_bytes, 3 * MIB as u64);
    assert_eq!(progress.completion_parts(), (3 * MIB as u64, 3 * MIB as u64));
}

#[test]
fn adaptive_total_values() {
    assert_eq!(adaptive_total(0), 1_048_576);
    assert_eq!(adaptive_total(1_000_000), 1_250_000);
    assert_eq!(adaptive_total(4_000_000), 5_000_000);
    assert_eq!(adaptive_total(u64::MAX), u64::MAX);
}

#[test]
fn header_in_stream_resolves_size() {
    let mut image = vec![0u8; 2048];
    image[510] = 0x55;
    image[511] = 0xAA;
    image[446 + 8..446 + 12].copy_from_slice(&2048u32.to_le_bytes());
    image[446 + 12..446 + 16].copy_from_slice(&204_800u32.to_le_bytes());
    let mut progress = Progress::new(0);
    let mut stream = FlashStream::new(SizeEstimate::Adaptive, 1).unwrap();
    // 600 bytes: not enough header yet
    stream.begin_chunk(&image[..600]);
    stream.commit_chunk(&mut progress);
    assert_eq!(stream.size_estimate(), SizeEstimate::Adaptive);
    assert_eq!(progress.total_bytes, 1_048_576);
    stream.begin_chunk(&image[600..]);
    assert_eq!(stream.size_estimate(), SizeEstimate::Exact(105_906_176));
    stream.commit_chunk(&mut progress);
    assert_eq!(progress.total_bytes, 105_906_176);
    assert_eq!(progress.bytes_written, 2048);
}

#[test]
fn sync_once_per_threshold_and_one_final_sync() {
    // 40 MiB to one destination: a sync at 16 and 32 MiB
    let image = vec![1u8; 40 * MIB];
    let (ds, _, _) = run(&image, MIB, SizeEstimate::Exact(image.len() as u64), 1);
    assert_eq!(ds[0].data_syncs, 2);
    assert_eq!(ds[0].full_syncs, 1);
    // 40 MiB to two destinations: a sync at 32 MiB only
    let (ds, _, _) = run(&image, 3 * MIB, SizeEstimate::Adaptive, 2);
    assert_eq!(ds[0].data_syncs, 1);
    assert_eq!(ds[1].data_syncs, 1);
    assert_eq!(ds[1].full_syncs, 1);
}

#[test]
fn no_destinations_is_rejected() {
    assert_eq!(FlashStream::new(SizeEstimate::Adaptive, 0).err(), Some(FlashError::NoDestinations));
}

#[test]
fn exact_total_rises_with_a_longer_source() {
    let mut progress = Progress::new(0);
    let mut stream = FlashStream::new(SizeEstimate::Exact(100), 1).unwrap();
    stream.begin_chunk(&[1u8; 150]);
    stream.commit_chunk(&mut progress);
    assert_eq!(progress.total_bytes, 150);
    assert_eq!(stream.bytes_written(), 150);
}

#[test]
fn commit_adds_to_a_count_already_held() {
    let mut progress = Progress::new(0);
    progress.record_written(5);
    let mut stream = FlashStream::new(SizeEstimate::Adaptive, 1).unwrap();
    stream.begin_chunk(&[1u8]);
    stream.commit_chunk(&mut progress);
    assert_eq!(progress.bytes_written, 6);
    stream.finish(&mut progress);
    assert_eq!(progress.bytes_written, 6);
    assert_eq!(progress.total_bytes, 1);
}

#[test]
fn resolve_size_sets_the_reported_total() {
    let mut progress = Progress::new(0);
    let mut stream = FlashStream::new(SizeEstimate::Adaptive, 2).unwrap();
    stream.resolve_size(SizeEstimate::Exact(4096), &mut progress);
    assert_eq!(progress.total_bytes, 4096);
    assert_eq!(stream.size_estimate(), SizeEstimate::Exact(4096));
    stream.resolve_size(SizeEstimate::Adaptive, &mut progress);
    assert_eq!(progress.total_bytes, 1_048_576);
}

#[test]
fn progress_fraction_parts() {
    let mut p = Progress::new(0);
    assert_eq!(p.completion_parts(), (0, 1));
    p.set_total(200);
    p.record_written(50);
    assert_eq!(p.completion_parts(), (50, 200));
    p.record_written(500);
    assert_eq!(p.completion_parts(), (200, 200));
    let _ = p.get_elapsed_time();
}

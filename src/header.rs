//! Inference of a disk image's total size from its leading bytes, using the
//! MBR partition table or the GPT header.
use vstd::prelude::*;

verus! {

/// Bytes in one logical block.
pub const SECTOR_SIZE: u64 = 512;

/// Offset of the first MBR partition entry.
pub const MBR_ENTRIES_OFFSET: usize = 446;

/// Offset of the GPT header (LBA 1).
pub const GPT_OFFSET: usize = 512;

/// Unsigned little-endian value of the 4 bytes at `off`.
pub open spec fn le_u32_at(b: Seq<u8>, off: int) -> int {
    b[off] as int + b[off + 1] as int * 0x100 + b[off + 2] as int * 0x10000 + b[off + 3] as int
        * 0x1000000
}

/// Unsigned little-endian value of the 8 bytes at `off`.
pub open spec fn le_u64_at(b: Seq<u8>, off: int) -> int {
    le_u32_at(b, off) + le_u32_at(b, off + 4) * 0x1_0000_0000
}

/// The end sector of MBR entry `i`, or 0 when its start or its count is 0.
pub open spec fn mbr_entry_end(h: Seq<u8>, i: int) -> int {
    let start = le_u32_at(h, 446 + 16 * i + 8);
    let count = le_u32_at(h, 446 + 16 * i + 12);
    if start > 0 && count > 0 {
        start + count
    } else {
        0
    }
}

/// The largest end sector among the first `n` MBR entries (0 if none is valid).
pub open spec fn mbr_max_end(h: Seq<u8>, n: nat) -> int
    decreases n,
{
    if n == 0 {
        0
    } else {
        let prev = mbr_max_end(h, (n - 1) as nat);
        let e = mbr_entry_end(h, n - 1);
        if e > prev {
            e
        } else {
            prev
        }
    }
}

pub open spec fn has_mbr_signature(h: Seq<u8>) -> bool {
    h.len() >= 512 && h[510] == 0x55 && h[511] == 0xAA
}

/// Size given by the MBR partition table, 0 when it gives none.
pub open spec fn mbr_size(h: Seq<u8>) -> int {
    if has_mbr_signature(h) {
        512 * mbr_max_end(h, 4)
    } else {
        0
    }
}

/// The ASCII text `EFI PART`.
pub open spec fn gpt_magic() -> Seq<u8> {
    seq![0x45u8, 0x46u8, 0x49u8, 0x20u8, 0x50u8, 0x41u8, 0x52u8, 0x54u8]
}

pub open spec fn has_gpt_signature(h: Seq<u8>) -> bool {
    h.len() >= 1024 && h.subrange(512, 520) == gpt_magic()
}

/// Size given by the GPT header's backup LBA, 0 when it gives none (a zero
/// backup LBA, or a size beyond 64 bits).
pub open spec fn gpt_size(h: Seq<u8>) -> int {
    if has_gpt_signature(h) {
        let lba = le_u64_at(h, 544);
        if lba > 0 && 512 * (lba + 1) <= u64::MAX {
            512 * (lba + 1)
        } else {
            0
        }
    } else {
        0
    }
}

/// Size inferred from the header bytes: MBR first, then GPT; 0 when neither
/// table gives one.
pub open spec fn header_size(h: Seq<u8>) -> int {
    if h.len() < 512 {
        0
    } else if mbr_size(h) > 0 {
        mbr_size(h)
    } else {
        gpt_size(h)
    }
}

fn read_le_u32(b: &[u8], off: usize) -> (r: u64)
    requires
        off + 4 <= b@.len(),
    ensures
        r as int == le_u32_at(b@, off as int),
        r <= u32::MAX,
{
    b[off] as u64 + b[off + 1] as u64 * 0x100 + b[off + 2] as u64 * 0x10000 + b[off + 3] as u64
        * 0x1000000
}

fn read_le_u64(b: &[u8], off: usize) -> (r: u64)
    requires
        off + 8 <= b@.len(),
        off <= usize::MAX - 8,
    ensures
        r as int == le_u64_at(b@, off as int),
{
    let lo = read_le_u32(b, off);
    let hi = read_le_u32(b, off + 4);
    lo + hi * 0x1_0000_0000
}

fn has_gpt_magic(h: &[u8]) -> (r: bool)
    requires
        h@.len() >= 1024,
    ensures
        r == has_gpt_signature(h@),
{
    let r = h[512] == 0x45 && h[513] == 0x46 && h[514] == 0x49 && h[515] == 0x20 && h[516]
        == 0x50 && h[517] == 0x41 && h[518] == 0x52 && h[519] == 0x54;
    if r {
        assert(h@.subrange(512, 520) =~= gpt_magic());
    } else {
        assert(h@.subrange(512, 520) != gpt_magic()) by {
            if h@.subrange(512, 520) == gpt_magic() {
                assert(h@.subrange(512, 520)[0] == h@[512]);
                assert(h@.subrange(512, 520)[1] == h@[513]);
                assert(h@.subrange(512, 520)[2] == h@[514]);
                assert(h@.subrange(512, 520)[3] == h@[515]);
                assert(h@.subrange(512, 520)[4] == h@[516]);
                assert(h@.subrange(512, 520)[5] == h@[517]);
                assert(h@.subrange(512, 520)[6] == h@[518]);
                assert(h@.subrange(512, 520)[7] == h@[519]);
            }
        }
    }
    r
}

/// Total image size in bytes read from a partition table in the header, or
/// 0 when none can be inferred.
pub fn get_img_size_from_header(header_buffer: &[u8]) -> (r: u64)
    ensures
        r as int == header_size(header_buffer@),
{
    let h = header_buffer;
    if h.len() < 512 {
        return 0;
    }
    if h[510] == 0x55 && h[511] == 0xAA {
        let mut max_end: u64 = 0;
        let mut i: usize = 0;
        while i < 4
            invariant
                i <= 4,
                h@.len() >= 512,
                max_end as int == mbr_max_end(h@, i as nat),
                max_end <= 2 * u32::MAX,
            decreases 4 - i,
        {
            let offset = MBR_ENTRIES_OFFSET + i * 16;
            let lba_start = read_le_u32(h, offset + 8);
            let sector_count = read_le_u32(h, offset + 12);
            if lba_start > 0 && sector_count > 0 {
                let end = lba_start + sector_count;
                if end > max_end {
                    max_end = end;
                }
            }
            i = i + 1;
        }
        if max_end > 0 {
            return max_end * SECTOR_SIZE;
        }
    }
    if h.len() >= 1024 && has_gpt_magic(h) {
        let backup_lba = read_le_u64(h, GPT_OFFSET + 32);
        if backup_lba > 0 && backup_lba < u64::MAX / SECTOR_SIZE {
            return (backup_lba + 1) * SECTOR_SIZE;
        }
    }
    0
}

} // verus!

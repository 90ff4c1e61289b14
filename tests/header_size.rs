use imgflash::header::get_img_size_from_header;

fn put_u32(buf: &mut [u8], off: usize, v: u32) {
    buf[off..off + 4].copy_from_slice(&v.to_le_bytes());
}

#[test]
fn mbr_single_partition_size() {
    let mut h = vec![0u8; 512];
    h[510] = 0x55;
    h[511] = 0xAA;
    put_u32(&mut h, 446 + 8, 2048);
    put_u32(&mut h, 446 + 12, 204800);
    assert_eq!(get_img_size_from_header(&h), 105_906_176);
}

#[test]
fn mbr_takes_largest_end() {
    let mut h = vec![0u8; 1024];
    h[510] = 0x55;
    h[511] = 0xAA;
    put_u32(&mut h, 446 + 8, 2048);
    put_u32(&mut h, 446 + 12, 100);
    put_u32(&mut h, 446 + 32 + 8, 4096);
    put_u32(&mut h, 446 + 32 + 12, 1000);
    // an entry with a zero start is ignored
    put_u32(&mut h, 446 + 48 + 12, 999_999);
    assert_eq!(get_img_size_from_header(&h), (4096 + 1000) * 512);
}

#[test]
fn mbr_entries_near_u32_limit_do_not_wrap() {
    let mut h = vec![0u8; 512];
    h[510] = 0x55;
    h[511] = 0xAA;
    put_u32(&mut h, 446 + 8, u32::MAX);
    put_u32(&mut h, 446 + 12, u32::MAX);
    assert_eq!(get_img_size_from_header(&h), 2 * (u32::MAX as u64) * 512);
}

fn gpt_header(backup_lba: u64) -> Vec<u8> {
    let mut h = vec![0u8; 1024];
    h[512..520].copy_from_slice(b"EFI PART");
    h[544..552].copy_from_slice(&backup_lba.to_le_bytes());
    h
}

#[test]
fn gpt_backup_lba_size() {
    assert_eq!(get_img_size_from_header(&gpt_header(1000)), 512_512);
}

#[test]
fn gpt_zero_backup_lba_fails() {
    assert_eq!(get_img_size_from_header(&gpt_header(0)), 0);
}

#[test]
fn gpt_size_beyond_u64_fails() {
    assert_eq!(get_img_size_from_header(&gpt_header(u64::MAX / 512)), 0);
    assert_eq!(get_img_size_from_header(&gpt_header(u64::MAX / 512 - 1)), u64::MAX / 512 * 512);
}

#[test]
fn gpt_needs_a_full_kilobyte() {
    let h = gpt_header(1000);
    assert_eq!(get_img_size_from_header(&h[..1023]), 0);
}

#[test]
fn mbr_signature_without_entries_falls_back_to_gpt() {
    let mut h = gpt_header(1000);
    h[510] = 0x55;
    h[511] = 0xAA;
    assert_eq!(get_img_size_from_header(&h), 512_512);
}

#[test]
fn short_or_unmarked_header_gives_zero() {
    assert_eq!(get_img_size_from_header(&[]), 0);
    assert_eq!(get_img_size_from_header(&[0x55u8; 511]), 0);
    assert_eq!(get_img_size_from_header(&vec![7u8; 4096]), 0);
}

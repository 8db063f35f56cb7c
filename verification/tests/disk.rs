//! Opening, measuring and reading disks.

use diskclone::disk::{
    call_length, get_disk_layout, get_disk_length, holds_layout, list_physical_disks,
    open_physical_disk, open_physical_disk_write, open_volume_raw, physical_drive_path,
    read_sectors, shadow_device_path, OpenFlags, Share, GPT_SIZE, LAYOUT_BUFFER_SIZE, SECTOR_SIZE,
};

fn wide(s: &str) -> Vec<u16> {
    let mut v: Vec<u16> = s.encode_utf16().collect();
    v.push(0);
    v
}

#[test]
fn sizes_are_those_of_gpt_disks() {
    assert_eq!(SECTOR_SIZE, 512);
    assert_eq!(GPT_SIZE, 17408);
    assert_eq!(LAYOUT_BUFFER_SIZE, 18480);
}

#[test]
fn disks_are_listed_by_number() {
    let mut sizes: Vec<Option<u64>> = vec![None; 20];
    sizes[0] = Some(500);
    sizes[3] = Some(700);
    sizes[15] = Some(900);
    sizes[16] = Some(1100);
    let found: Vec<(u32, u64)> =
        list_physical_disks(&sizes).iter().map(|d| (d.disk_number, d.size_bytes)).collect();
    assert_eq!(found, vec![(0, 500), (3, 700), (15, 900)]);
    assert!(list_physical_disks(&[]).is_empty());
}

#[test]
fn physical_disk_is_opened_to_read() {
    let r = open_physical_disk(12).unwrap();
    assert_eq!(r.path, wide("\\\\.\\PhysicalDrive12"));
    assert_eq!((r.read, r.write, r.create), (true, false, false));
    assert_eq!(r.share, Share::Read);
    assert_eq!(r.flags, OpenFlags::Normal);
}

#[test]
fn physical_disk_is_opened_to_write() {
    let r = open_physical_disk_write(u32::MAX).unwrap();
    assert_eq!(r.path, wide("\\\\.\\PhysicalDrive4294967295"));
    assert_eq!((r.read, r.write, r.create), (true, true, false));
    assert_eq!(r.share, Share::Read);
    assert_eq!(r.flags, OpenFlags::Normal);
}

#[test]
fn volume_is_opened_unbuffered() {
    let r = open_volume_raw("//./C:").unwrap();
    assert_eq!(r.path, wide("\\\\.\\C:"));
    assert_eq!((r.read, r.write, r.create), (true, false, false));
    assert_eq!(r.flags, OpenFlags::Unbuffered);
}

#[test]
fn shadow_copy_is_opened_with_backup_semantics() {
    for path in ["\\\\.\\GLOBALROOT\\Device\\HarddiskVolumeShadowCopy12", "xshadowcopy"] {
        assert_eq!(open_volume_raw(path).unwrap().flags, OpenFlags::UnbufferedBackup);
    }
    for path in ["Shadow/Copy", "SHADOWCOPY", "shadowCopy", "ShadowCop"] {
        assert_eq!(open_volume_raw(path).unwrap().flags, OpenFlags::Unbuffered);
    }
}

#[test]
fn paths_are_encoded_as_utf16() {
    let path = "\\\\.\\D\u{e9}j\u{e0} \u{1F4BE}\u{10FFFF}\u{FFFF}";
    assert_eq!(open_volume_raw(path).unwrap().path, wide(path));
    assert_eq!(open_volume_raw("").unwrap().path, vec![0]);
}

#[test]
fn nul_in_a_path_is_an_error() {
    let e = open_volume_raw("ab\u{1F4BE}c\0d").unwrap_err();
    assert_eq!(e.message(), "I/O error: invalid nul value found at position 5");
    let e = open_volume_raw("\0\0").unwrap_err();
    assert_eq!(e.message(), "I/O error: invalid nul value found at position 0");
}

#[test]
fn nul_at_the_end_of_a_path_is_its_end() {
    assert_eq!(open_volume_raw("ab\0").unwrap().path, vec![97, 98, 0]);
    assert_eq!(open_volume_raw("\0").unwrap().path, vec![0]);
}

#[test]
fn device_paths() {
    assert_eq!(physical_drive_path(0), "\\\\.\\PhysicalDrive0");
    assert_eq!(shadow_device_path("\\\\?\\GLOBALROOT\\X"), "\\\\.\\GLOBALROOT\\X");
    assert_eq!(shadow_device_path("\\\\.\\X"), "\\\\.\\X");
    assert_eq!(
        shadow_device_path("HarddiskVolumeShadowCopy1"),
        "\\\\.\\GLOBALROOT\\Device\\HarddiskVolumeShadowCopy1"
    );
}

fn put_u32(b: &mut [u8], at: usize, n: u32) {
    b[at..at + 4].copy_from_slice(&n.to_le_bytes());
}

fn put_u64(b: &mut [u8], at: usize, n: u64) {
    b[at..at + 8].copy_from_slice(&n.to_le_bytes());
}

fn drive_layout(entries: &[(u32, u64, u64)]) -> Vec<u8> {
    let mut b = vec![0u8; LAYOUT_BUFFER_SIZE];
    put_u32(&mut b, 0, 1);
    put_u32(&mut b, 4, entries.len() as u32);
    for (i, (number, start, len)) in entries.iter().enumerate() {
        let at = 48 + 144 * i;
        put_u32(&mut b, at, 1);
        put_u64(&mut b, at + 8, *start);
        put_u64(&mut b, at + 16, *len);
        put_u32(&mut b, at + 24, *number);
    }
    b
}

#[test]
fn disk_length_is_little_endian() {
    assert_eq!(get_disk_length(&500_107_862_016u64.to_le_bytes()), 500_107_862_016);
    assert_eq!(get_disk_length(&u64::MAX.to_le_bytes()), u64::MAX);
}

#[test]
fn layout_is_read_from_the_answer() {
    let b = drive_layout(&[(1, 1_048_576, 104_857_600), (0, 0, 0), (300_000, u64::MAX, 1)]);
    assert!(holds_layout(&b));
    let l = get_disk_layout(77, &b);
    assert_eq!(l.disk_length, 77);
    assert_eq!(l.partition_count, 3);
    let p = &l.partitions[0];
    assert_eq!((p.partition_number, p.starting_offset, p.partition_length), (1, 1_048_576, 104_857_600));
    assert!(p.is_used && p.volume_guid.is_none());
    let p = &l.partitions[1];
    assert_eq!((p.partition_number, p.starting_offset, p.partition_length), (0, 0, 0));
    assert!(!p.is_used);
    let p = &l.partitions[2];
    assert_eq!((p.partition_number, p.starting_offset, p.partition_length), (300_000, u64::MAX, 1));
    assert!(p.is_used);
    assert_eq!(l.partitions.len(), 3);
}

#[test]
fn layout_needs_all_its_entries() {
    let mut b = drive_layout(&[(1, 2, 3), (2, 5, 3)]);
    assert!(holds_layout(&b[..48 + 288]));
    assert!(!holds_layout(&b[..48 + 287]));
    assert!(!holds_layout(&b[..47]));
    put_u32(&mut b, 4, 128);
    assert!(holds_layout(&b));
    assert_eq!(get_disk_layout(0, &b).partitions.len(), 128);
    put_u32(&mut b, 4, 129);
    assert!(!holds_layout(&b));
    put_u32(&mut b, 4, u32::MAX);
    assert!(!holds_layout(&b));
}

#[test]
fn reads_give_position_and_length() {
    let r = read_sectors(512, 16_777_216);
    assert_eq!((r.position, r.length), (512, 16_777_216));
    let r = read_sectors(u64::MAX, 0);
    assert_eq!((r.position, r.length), (-1, 0));
    let r = read_sectors(i64::MAX as u64, 512);
    assert_eq!((r.position, r.length), (i64::MAX, 512));
    assert_eq!(call_length(usize::MAX), u32::MAX);
}

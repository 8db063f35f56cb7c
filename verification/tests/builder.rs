//! The image builder and its diagnostic.

use std::collections::{HashMap, HashSet};

use diskclone::diagram::RegionSource;
use diskclone::disk::{DiskLayout, PartitionInfo};
use diskclone::image_builder::{ChunkSource, ImageBuilder};

const GPT: u64 = 17408;

fn partition(number: u32, start: u64, len: u64, used: bool) -> PartitionInfo {
    PartitionInfo {
        partition_number: number,
        starting_offset: start,
        partition_length: len,
        is_used: used,
        volume_guid: None,
    }
}

fn layout(parts: Vec<PartitionInfo>) -> DiskLayout {
    DiskLayout { disk_length: 1_000_448, partition_count: parts.len() as u32, partitions: parts }
}

fn two_parts() -> Vec<PartitionInfo> {
    vec![partition(1, 20480, 40960, true), partition(2, 102400, 8192, true)]
}

fn one_shadow() -> HashMap<u64, String> {
    let mut m = HashMap::new();
    m.insert(20480u64, "\\\\?\\Shadow1".to_string());
    m
}

#[test]
fn buffer_is_made_of_whole_sectors() {
    let size = |mb| ImageBuilder::new(0, layout(Vec::new()), HashMap::new(), mb).buffer_size;
    assert_eq!(size(0), 512);
    assert_eq!(size(1), 1_048_576);
    assert_eq!(size(16), 16_777_216);
}

#[test]
fn new_keeps_what_it_is_given() {
    let b = ImageBuilder::new(7, layout(two_parts()), one_shadow(), 16);
    assert_eq!(b.disk_number, 7);
    assert_eq!(b.disk_length(), 1_000_448);
    assert_eq!(b.layout.partitions.len(), 2);
    assert_eq!(b.shadow_map, one_shadow());
}

#[test]
fn some_builders_cannot_stream() {
    assert!(ImageBuilder::new(0, layout(two_parts()), one_shadow(), 1).can_stream());
    assert!(ImageBuilder::new(0, layout(two_parts()), one_shadow(), 0).can_stream());
    let mut small = ImageBuilder::new(0, layout(two_parts()), one_shadow(), 0);
    small.buffer_size = 511;
    assert!(!small.can_stream());
    let wide = vec![partition(1, u64::MAX - 10, 11, true)];
    assert!(!ImageBuilder::new(0, layout(wide), HashMap::new(), 1).can_stream());
    let unused = vec![partition(1, u64::MAX - 10, 11, false)];
    assert!(ImageBuilder::new(0, layout(unused), HashMap::new(), 1).can_stream());
    let mut huge = layout(Vec::new());
    huge.disk_length = u64::MAX;
    assert!(!ImageBuilder::new(0, huge, HashMap::new(), 1).can_stream());
}

#[test]
fn every_byte_has_its_source() {
    let b = ImageBuilder::new(0, layout(two_parts()), one_shadow(), 1);
    let backup = 1_000_448 - GPT;
    assert_eq!(b.source_at(0, None), ChunkSource::PrimaryGpt);
    assert_eq!(b.source_at(GPT - 1, None), ChunkSource::PrimaryGpt);
    assert_eq!(b.source_at(GPT, None), ChunkSource::Gap);
    assert_eq!(b.source_at(20480, None), ChunkSource::Shadow { number: 1, start: 20480 });
    assert_eq!(b.source_at(61439, None), ChunkSource::Shadow { number: 1, start: 20480 });
    assert_eq!(b.source_at(61440, None), ChunkSource::Gap);
    assert_eq!(b.source_at(110591, None), ChunkSource::Raw { number: 2, start: 102400 });
    assert_eq!(b.source_at(backup - 1, None), ChunkSource::Gap);
    assert_eq!(b.source_at(backup, None), ChunkSource::BackupGpt);
    let mut out = HashSet::new();
    out.insert(1u32);
    assert_eq!(b.source_at(20480, Some(&out)), ChunkSource::Excluded { number: 1 });
}

#[test]
fn chunks_end_where_regions_do() {
    let mut b = ImageBuilder::new(0, layout(two_parts()), one_shadow(), 1);
    let backup = 1_000_448 - GPT;
    assert_eq!(b.chunk_end(0), GPT);
    assert_eq!(b.chunk_end(GPT), 20480);
    assert_eq!(b.chunk_end(20480), 61440);
    assert_eq!(b.chunk_end(61440), 102400);
    assert_eq!(b.chunk_end(102400), 110592);
    assert_eq!(b.chunk_end(110592), backup);
    assert_eq!(b.chunk_end(backup), 1_000_448);
    b.buffer_size = 17408;
    assert_eq!(b.chunk_end(20480), 20480 + 17408);
}

#[test]
fn diagram_is_that_of_the_layout() {
    let b = ImageBuilder::new(0, layout(two_parts()), one_shadow(), 1);
    let sources: Vec<RegionSource> = b.diagram_regions().iter().map(|r| r.source).collect();
    assert_eq!(
        sources,
        vec![
            RegionSource::GptPrimary,
            RegionSource::Gap,
            RegionSource::PartitionShadow { partition_num: 1 },
            RegionSource::Gap,
            RegionSource::PartitionRaw { partition_num: 2 },
            RegionSource::Gap,
            RegionSource::GptBackup,
        ]
    );
}

#[test]
fn diagram_agrees_with_the_image() {
    let b = ImageBuilder::new(0, layout(two_parts()), one_shadow(), 1);
    let regions = b.diagram_regions();
    let mut end = 0;
    for r in &regions {
        assert_eq!(r.start, end);
        end = r.end;
        for pos in [r.start, (r.start + r.end) / 2, r.end - 1] {
            let same = match (r.source, b.source_at(pos, None)) {
                (RegionSource::GptPrimary, ChunkSource::PrimaryGpt) => true,
                (RegionSource::GptBackup, ChunkSource::BackupGpt) => true,
                (RegionSource::Gap, ChunkSource::Gap) => true,
                (
                    RegionSource::PartitionShadow { partition_num },
                    ChunkSource::Shadow { number, .. },
                ) => partition_num == number,
                (RegionSource::PartitionRaw { partition_num }, ChunkSource::Raw { number, .. }) => {
                    partition_num == number
                }
                _ => false,
            };
            assert!(same);
        }
    }
    assert_eq!(end, 1_000_448);
}

fn boot_sector() -> Vec<u8> {
    let mut s = vec![0u8; 512];
    s[510] = 0x55;
    s[511] = 0xAA;
    s
}

fn gpt_sector() -> Vec<u8> {
    let mut s = vec![0u8; 512];
    s[..8].copy_from_slice(b"EFI PART");
    s
}

#[test]
fn diagnostic_of_a_good_disk() {
    let mut parts = two_parts();
    parts.push(partition(3, 0, 0, true));
    let b = ImageBuilder::new(0, layout(parts), one_shadow(), 1);
    assert_eq!(
        b.debug_image_diag(&boot_sector(), &gpt_sector()),
        "=== Image Builder Diagnostic ===\n\
         Shadow map (1 entries):\n\
         \x20 offset 20480 -> \\\\?\\Shadow1\n\
         Partitions:\n\
         \x20 Part 1: offset=20480 len=40960 shadow=true\n\
         \x20 Part 2: offset=102400 len=8192 shadow=false\n\
         MBR signature: 0xaa55 (expected 0xAA55)\n\
         GPT signature: \"EFI PART\" (expected \"EFI PART\")\n"
    );
}

#[test]
fn diagnostic_warns_of_bad_signatures() {
    let b = ImageBuilder::new(0, layout(Vec::new()), HashMap::new(), 1);
    let mut gpt = gpt_sector();
    gpt[0] = b'X';
    assert_eq!(
        b.debug_image_diag(&[0u8; 512], &gpt),
        "=== Image Builder Diagnostic ===\n\
         Shadow map (0 entries):\n\
         Partitions:\n\
         MBR signature: 0x0000 (expected 0xAA55)\n\
         \x20 WARNING: Invalid MBR signature!\n\
         GPT signature: \"XFI PART\" (expected \"EFI PART\")\n\
         \x20 WARNING: Invalid GPT signature!\n"
    );
    gpt[3] = 0xFF;
    assert!(b
        .debug_image_diag(&[], &gpt)
        .ends_with("GPT signature: \"???\" (expected \"EFI PART\")\n  WARNING: Invalid GPT signature!\n"));
}

#[test]
fn diagnostic_says_nothing_of_what_was_not_read() {
    let b = ImageBuilder::new(0, layout(Vec::new()), HashMap::new(), 1);
    assert_eq!(
        b.debug_image_diag(&[0u8; 511], &[0u8; 7]),
        "=== Image Builder Diagnostic ===\nShadow map (0 entries):\nPartitions:\n"
    );
}

#[test]
fn diagnostic_shows_every_shadow_copy_once() {
    let mut m = one_shadow();
    m.insert(102400, "B".to_string());
    m.insert(5, "C".to_string());
    let b = ImageBuilder::new(0, layout(two_parts()), m, 1);
    let text = b.debug_image_diag(&[], &[]);
    for line in ["  offset 20480 -> \\\\?\\Shadow1\n", "  offset 102400 -> B\n", "  offset 5 -> C\n"] {
        assert_eq!(text.matches(line).count(), 1);
    }
    assert!(text.contains("Shadow map (3 entries):\n"));
    assert!(b
        .image_diag(&[5, 20480], &[], &[])
        .contains(":\n  offset 5 -> C\n  offset 20480 -> \\\\?\\Shadow1\nPartitions:\n"));
}

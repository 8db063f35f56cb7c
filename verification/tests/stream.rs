//! Whole clones of small disks, with the operations of the stream carried out
//! on bytes in memory.

use std::collections::{HashMap, HashSet};

use diskclone::disk::{DiskLayout, PartitionInfo};
use diskclone::error::DiskCloneError;
use diskclone::image_builder::ImageBuilder;
use diskclone::stream::{
    mbr_signature, StreamEvent, StreamOp, StreamRegionInfo, StreamSourceType,
};

const GPT: usize = 34 * 512;
const DISK: usize = 2 * GPT + 40 * 512;
const BACKUP: usize = DISK - GPT;

fn partition(number: u32, start: usize, len: usize) -> PartitionInfo {
    PartitionInfo {
        partition_number: number,
        starting_offset: start as u64,
        partition_length: len as u64,
        is_used: len > 0,
        volume_guid: None,
    }
}

/// Partition 1 has a shadow copy, partition 2 has none. Before, between and
/// behind them are gaps.
fn parts() -> Vec<PartitionInfo> {
    vec![
        partition(2, GPT + 20 * 512, 8 * 512),
        partition(1, GPT + 4 * 512, 10 * 512),
        partition(3, 0, 0),
    ]
}

fn builder(buffer_size: usize) -> ImageBuilder {
    let mut shadows = HashMap::new();
    shadows.insert((GPT + 4 * 512) as u64, "\\\\?\\GLOBALROOT\\Device\\HarddiskVolumeShadowCopy7".to_string());
    let layout = DiskLayout { disk_length: DISK as u64, partition_count: 3, partitions: parts() };
    let mut b = ImageBuilder::new(0, layout, shadows, 1);
    b.buffer_size = buffer_size;
    assert!(b.can_stream());
    b
}

fn disk() -> Vec<u8> {
    let mut d: Vec<u8> = (0..DISK).map(|i| (i % 251) as u8 + 1).collect();
    d[510] = 0x55;
    d[511] = 0xAA;
    d
}

fn shadow() -> Vec<u8> {
    (0..10 * 512).map(|i| (i % 13) as u8 + 100).collect()
}

/// What the operations meet.
struct World {
    disk: Vec<u8>,
    shadow: Vec<u8>,
    /// The most that the sink takes at once.
    sink_takes: usize,
    /// Disk offsets from which nothing can be read.
    dead: Vec<u64>,
    open_error: Option<String>,
    write_error: Option<String>,
    flush_error: Option<String>,
    read_error: Option<String>,
    /// How much more the sink says it took than it was given.
    boast: usize,
}

fn world() -> World {
    World {
        disk: disk(),
        shadow: shadow(),
        sink_takes: usize::MAX,
        dead: Vec::new(),
        open_error: None,
        write_error: None,
        flush_error: None,
        read_error: None,
        boast: 0,
    }
}

struct Outcome {
    image: Vec<u8>,
    result: Result<u64, String>,
    reports: Vec<StreamRegionInfo>,
    fallbacks: Vec<u32>,
    opened: Vec<String>,
    flushes: usize,
}

fn part_of(bytes: &[u8], offset: u64, len: usize) -> Vec<u8> {
    let from = (offset as usize).min(bytes.len());
    let to = (from + len).min(bytes.len());
    bytes[from..to].to_vec()
}

fn io(e: &Option<String>) -> Option<DiskCloneError> {
    e.as_ref().map(|m| DiskCloneError::Io(m.clone()))
}

fn run(b: &ImageBuilder, excluded: Option<&HashSet<u32>>, w: &World) -> Outcome {
    let mut out = Outcome {
        image: Vec::new(),
        result: Ok(0),
        reports: Vec::new(),
        fallbacks: Vec::new(),
        opened: Vec::new(),
        flushes: 0,
    };
    let mut stream = b.stream_to(excluded);
    let mut event = StreamEvent::Start;
    loop {
        let step = stream.step(event);
        out.fallbacks.extend(step.fallback);
        out.reports.extend(step.report);
        event = match step.op {
            StreamOp::ReadDisk { offset, len } => {
                if let Some(e) = io(&w.read_error) {
                    StreamEvent::Read(Err(e))
                } else if w.dead.contains(&offset) {
                    StreamEvent::Read(Ok(Vec::new()))
                } else {
                    StreamEvent::Read(Ok(part_of(&w.disk, offset, len)))
                }
            }
            StreamOp::OpenShadow { path } => {
                out.opened.push(path);
                match io(&w.open_error) {
                    Some(e) => StreamEvent::Opened(Err(e)),
                    None => StreamEvent::Opened(Ok(())),
                }
            }
            StreamOp::ReadShadow { offset, len } => {
                StreamEvent::Read(Ok(part_of(&w.shadow, offset, len)))
            }
            StreamOp::Write { data } => match io(&w.write_error) {
                Some(e) => StreamEvent::Wrote(Err(e)),
                None => {
                    let n = data.len().min(w.sink_takes);
                    out.image.extend_from_slice(&data[..n]);
                    StreamEvent::Wrote(Ok(n + w.boast))
                }
            },
            StreamOp::Flush => {
                out.flushes += 1;
                match io(&w.flush_error) {
                    Some(e) => StreamEvent::Flushed(Err(e)),
                    None => StreamEvent::Flushed(Ok(())),
                }
            }
            StreamOp::Finish { total_written } => {
                out.result = Ok(total_written);
                return out;
            }
            StreamOp::Fail { error } => {
                out.result = Err(error.message());
                return out;
            }
        };
    }
}

/// The image of the disk: partition 1 out of its shadow copy, gaps as zeros.
fn expected() -> Vec<u8> {
    let d = disk();
    let mut image = vec![0u8; DISK];
    image[..GPT].copy_from_slice(&d[..GPT]);
    image[BACKUP..].copy_from_slice(&d[BACKUP..]);
    image[GPT + 4 * 512..GPT + 14 * 512].copy_from_slice(&shadow());
    image[GPT + 20 * 512..GPT + 28 * 512].copy_from_slice(&d[GPT + 20 * 512..GPT + 28 * 512]);
    image
}

#[test]
fn image_has_every_byte_in_its_place() {
    let out = run(&builder(1 << 20), None, &world());
    assert_eq!(out.result, Ok(DISK as u64));
    assert!(out.image == expected());
    assert_eq!(out.flushes, 1);
    assert!(out.fallbacks.is_empty());
    assert_eq!(out.opened, vec!["\\\\.\\GLOBALROOT\\Device\\HarddiskVolumeShadowCopy7".to_string()]);
}

#[test]
fn regions_are_reported_in_the_order_of_the_disk() {
    let out = run(&builder(1 << 20), None, &world());
    let shown: Vec<(Option<u32>, StreamSourceType, Option<String>)> =
        out.reports.iter().map(|r| (r.partition_num, r.source_type, r.path.clone())).collect();
    let shadow_path = Some("\\\\.\\GLOBALROOT\\Device\\HarddiskVolumeShadowCopy7".to_string());
    let drive = Some("\\\\.\\PhysicalDrive0".to_string());
    assert_eq!(
        shown,
        vec![
            (None, StreamSourceType::PrimaryGpt, None),
            (None, StreamSourceType::Gap, None),
            (Some(1), StreamSourceType::PartitionVss, shadow_path),
            (None, StreamSourceType::Gap, None),
            (Some(2), StreamSourceType::PartitionRaw, drive),
            (None, StreamSourceType::Gap, None),
            (None, StreamSourceType::BackupGpt, None),
        ]
    );
}

#[test]
fn small_buffer_gives_the_same_image() {
    let out = run(&builder(GPT), None, &world());
    assert_eq!(out.result, Ok(DISK as u64));
    assert!(out.image == expected());
}

#[test]
fn smallest_buffer_gives_the_same_image() {
    let b = ImageBuilder::new(0, builder(GPT).layout, builder(GPT).shadow_map, 0);
    assert_eq!(b.buffer_size, 512);
    let out = run(&b, None, &world());
    assert_eq!(out.result, Ok(DISK as u64));
    assert!(out.image == expected());
    assert_eq!(out.reports[0].source_type, StreamSourceType::PrimaryGpt);
    assert_eq!(out.reports.len(), DISK / 512);
    let out = run(&builder(1536), None, &world());
    assert_eq!(out.result, Ok(DISK as u64));
    assert!(out.image == expected());
}

#[test]
fn fallback_is_told_chunk_by_chunk() {
    let mut w = world();
    w.shadow.truncate(2 * 512);
    let out = run(&builder(4 * 512), None, &w);
    let mut image = expected();
    let raw = GPT + 6 * 512..GPT + 14 * 512;
    image[raw.clone()].copy_from_slice(&disk()[raw]);
    assert_eq!(out.result, Ok(DISK as u64));
    assert!(out.image == image);
    assert_eq!(out.fallbacks, vec![1, 1]);
}

#[test]
fn sink_that_takes_little_gets_all() {
    let mut w = world();
    w.sink_takes = 700;
    let out = run(&builder(1 << 20), None, &w);
    assert_eq!(out.result, Ok(DISK as u64));
    assert!(out.image == expected());
}

#[test]
fn disk_without_gaps_is_copied_exactly() {
    let layout = DiskLayout {
        disk_length: DISK as u64,
        partition_count: 1,
        partitions: vec![partition(1, GPT, BACKUP - GPT)],
    };
    let b = ImageBuilder::new(3, layout, HashMap::new(), 1);
    let out = run(&b, None, &world());
    assert_eq!(out.result, Ok(DISK as u64));
    assert!(out.image == disk());
    assert_eq!(out.reports[1].path, Some("\\\\.\\PhysicalDrive3".to_string()));
}

#[test]
fn excluded_partition_is_written_as_zeros() {
    let mut excluded = HashSet::new();
    excluded.insert(1u32);
    let out = run(&builder(1 << 20), Some(&excluded), &world());
    let mut image = expected();
    image[GPT + 4 * 512..GPT + 14 * 512].fill(0);
    assert_eq!(out.result, Ok(DISK as u64));
    assert!(out.image == image);
    assert!(out.opened.is_empty());
    assert_eq!(out.reports[2].partition_num, Some(1));
    assert_eq!(out.reports[2].source_type, StreamSourceType::PartitionExcluded);
}

#[test]
fn empty_shadow_copy_falls_back_to_the_disk() {
    let mut w = world();
    w.shadow = Vec::new();
    let out = run(&builder(1 << 20), None, &w);
    let mut image = expected();
    image[GPT + 4 * 512..GPT + 14 * 512].copy_from_slice(&disk()[GPT + 4 * 512..GPT + 14 * 512]);
    assert_eq!(out.result, Ok(DISK as u64));
    assert!(out.image == image);
    assert_eq!(out.fallbacks, vec![1]);
    assert_eq!(out.reports[3].source_type, StreamSourceType::PartitionRaw);
    assert_eq!(out.reports[3].path, Some("\\\\.\\PhysicalDrive0".to_string()));
}

#[test]
fn shadow_copy_is_read_twice_before_the_fallback() {
    let b = builder(1 << 20);
    let mut stream = b.stream_to(None);
    let mut event = StreamEvent::Start;
    let mut shadow_reads = 0;
    loop {
        let step = stream.step(event);
        event = match step.op {
            StreamOp::ReadDisk { offset, len } => {
                if shadow_reads > 0 {
                    assert_eq!(shadow_reads, 2);
                    assert_eq!(offset as usize, GPT + 4 * 512);
                    return;
                }
                StreamEvent::Read(Ok(part_of(&disk(), offset, len)))
            }
            StreamOp::OpenShadow { .. } => StreamEvent::Opened(Ok(())),
            StreamOp::ReadShadow { offset, len } => {
                shadow_reads += 1;
                assert_eq!((offset, len), (0, 10 * 512));
                StreamEvent::Read(Ok(Vec::new()))
            }
            StreamOp::Write { data } => StreamEvent::Wrote(Ok(data.len())),
            _ => panic!("the shadow copy was not read"),
        };
    }
}

#[test]
fn shadow_and_disk_without_data_fail() {
    let mut w = world();
    w.shadow = Vec::new();
    w.dead = vec![(GPT + 4 * 512) as u64];
    let out = run(&builder(1 << 20), None, &w);
    assert_eq!(
        out.result,
        Err("Zero-byte read at disk offset 19456 (partition 1, volume offset 0). VSS retry and raw fallback both failed.".to_string())
    );
    assert!(out.fallbacks.is_empty());
}

#[test]
fn raw_partition_without_data_fails() {
    let mut w = world();
    w.dead = vec![(GPT + 20 * 512) as u64];
    let out = run(&builder(1 << 20), None, &w);
    assert_eq!(
        out.result,
        Err("Zero-byte read at disk offset 27648 (partition 2, volume offset 27648). VSS retry and raw fallback both failed.".to_string())
    );
}

#[test]
fn short_first_sector_fails() {
    let mut w = world();
    w.disk.truncate(511);
    let out = run(&builder(1 << 20), None, &w);
    assert_eq!(out.result, Err("Failed to read sector 0".to_string()));
    assert!(out.image.is_empty());
}

#[test]
fn invalid_boot_sector_fails() {
    let mut w = world();
    w.disk[510] = 0x0B;
    w.disk[511] = 0xF0;
    let out = run(&builder(1 << 20), None, &w);
    assert_eq!(out.result, Err("Disk sector 0 invalid MBR (0xf00b), cannot proceed".to_string()));
    assert!(out.image.is_empty());
    assert_eq!(mbr_signature(&w.disk), 0xF00B);
}

#[test]
fn primary_gpt_without_data_fails() {
    let mut w = world();
    w.sink_takes = 512;
    w.dead = vec![1024];
    let out = run(&builder(1 << 20), None, &w);
    assert_eq!(out.result, Err("Zero-byte read at offset 1024 (primary GPT)".to_string()));
}

#[test]
fn backup_gpt_without_data_fails() {
    let mut w = world();
    w.dead = vec![BACKUP as u64];
    let out = run(&builder(1 << 20), None, &w);
    assert_eq!(
        out.result,
        Err(format!("Zero-byte read at offset {} (backup GPT)", BACKUP))
    );
}

#[test]
fn first_sector_is_written_though_the_rest_is_missing() {
    let mut w = world();
    w.dead = vec![512];
    w.sink_takes = 512;
    let out = run(&builder(1 << 20), None, &w);
    assert!(out.result.is_err());
    assert!(out.image == disk()[..512].to_vec());
}

#[test]
fn errors_of_operations_end_the_clone() {
    let mut w = world();
    w.read_error = Some("read".to_string());
    assert_eq!(run(&builder(1 << 20), None, &w).result, Err("I/O error: read".to_string()));
    let mut w = world();
    w.open_error = Some("open".to_string());
    assert_eq!(run(&builder(1 << 20), None, &w).result, Err("I/O error: open".to_string()));
    let mut w = world();
    w.write_error = Some("write".to_string());
    assert_eq!(run(&builder(1 << 20), None, &w).result, Err("I/O error: write".to_string()));
    let mut w = world();
    w.flush_error = Some("flush".to_string());
    let out = run(&builder(1 << 20), None, &w);
    assert_eq!(out.result, Err("I/O error: flush".to_string()));
    assert!(out.image == expected());
}

#[test]
fn wrong_count_is_an_incomplete_clone() {
    let mut w = world();
    w.boast = 1;
    let b = builder(1 << 20);
    let out = run(&b, None, &w);
    let message = out.result.unwrap_err();
    assert!(message.starts_with("Incomplete clone: wrote "), "{}", message);
    assert!(message.ends_with(&format!("expected {} bytes (0 GB)", DISK)), "{}", message);
}

#[test]
fn empty_disk_is_checked_and_flushed() {
    let layout = DiskLayout { disk_length: 0, partition_count: 0, partitions: Vec::new() };
    let b = ImageBuilder::new(0, layout, HashMap::new(), 1);
    let out = run(&b, None, &world());
    assert_eq!(out.result, Ok(0));
    assert!(out.image.is_empty());
    assert_eq!(out.flushes, 1);
}

#[test]
fn whole_sectors_are_asked_for() {
    let b = builder(GPT + 512);
    let mut stream = b.stream_to(None);
    let mut event = StreamEvent::Start;
    let d = disk();
    loop {
        let step = stream.step(event);
        event = match step.op {
            StreamOp::ReadDisk { offset, len } => {
                assert_eq!((offset % 512, len % 512), (0, 0));
                StreamEvent::Read(Ok(part_of(&d, offset, len)))
            }
            StreamOp::OpenShadow { .. } => StreamEvent::Opened(Ok(())),
            StreamOp::ReadShadow { offset, len } => {
                assert_eq!((offset % 512, len % 512), (0, 0));
                StreamEvent::Read(Ok(part_of(&shadow(), offset, len)))
            }
            StreamOp::Write { data } => {
                assert_eq!(data.len() % 512, 0);
                StreamEvent::Wrote(Ok(data.len()))
            }
            StreamOp::Flush => StreamEvent::Flushed(Ok(())),
            StreamOp::Finish { .. } => return,
            StreamOp::Fail { error } => panic!("{}", error.message()),
        };
    }
}

#[test]
fn region_info_starts_at_the_primary_gpt() {
    let info = StreamRegionInfo::default();
    assert_eq!(info.partition_num, None);
    assert_eq!(info.source_type, StreamSourceType::PrimaryGpt);
    assert_eq!(info.path, None);
}

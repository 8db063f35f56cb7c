use std::collections::HashMap;

use diskclone::diagram::{build_diagram_regions, format_diagram_ascii, DiagramRegion, RegionSource};
use diskclone::disk::{DiskLayout, PartitionInfo};
use diskclone::double::push_size;

const MB: u64 = 1024 * 1024;
const GPT: u64 = 34 * 512;

fn part(number: u32, start: u64, length: u64) -> PartitionInfo {
    PartitionInfo {
        partition_number: number,
        starting_offset: start,
        partition_length: length,
        is_used: length > 0,
        volume_guid: None,
    }
}

fn layout(disk_length: u64, partitions: Vec<PartitionInfo>) -> DiskLayout {
    DiskLayout { disk_length, partition_count: partitions.len() as u32, partitions }
}

fn region(start: u64, end: u64, source: RegionSource) -> DiagramRegion {
    DiagramRegion { start, end, label: String::new(), source }
}

fn sources(regions: &[DiagramRegion]) -> Vec<(u64, u64, RegionSource)> {
    regions.iter().map(|r| (r.start, r.end, r.source)).collect()
}

/// The line of a region, in floating point.
fn float_line(r: &DiagramRegion, disk_length: u64, ch: char, desc: &str) -> String {
    let width = 60u64;
    let start_pct = (r.start as f64 / disk_length as f64) * 100.0;
    let end_pct = (r.end as f64 / disk_length as f64) * 100.0;
    let bar_start = ((start_pct / 100.0) * width as f64) as u64;
    let bar_end = ((end_pct / 100.0) * width as f64).ceil() as u64;
    let bar: String =
        (0..width).map(|i| if i >= bar_start && i < bar_end { ch } else { ' ' }).collect();
    format!("  [{}]  {}", bar, desc)
}

fn next(seed: &mut u64) -> u64 {
    *seed ^= *seed << 13;
    *seed ^= *seed >> 7;
    *seed ^= *seed << 17;
    *seed
}

#[test]
fn table_order_has_no_influence() {
    let shadows = |path: &str| {
        let mut m = HashMap::new();
        m.insert(2 * MB, path.to_string());
        m
    };
    let mut named = part(1, 2 * MB, 3 * MB);
    named.volume_guid = Some("x".to_string());
    let mut unused = part(9, 7 * MB, MB);
    unused.is_used = false;
    let a = layout(100 * MB, vec![part(1, 2 * MB, 3 * MB), part(2, 10 * MB, MB), part(3, 20 * MB, MB)]);
    let b = layout(
        100 * MB,
        vec![part(3, 20 * MB, MB), unused, named, part(8, 50 * MB, 0), part(2, 10 * MB, MB)],
    );
    let shown = |regions: Vec<DiagramRegion>| -> Vec<(u64, u64, String, RegionSource)> {
        regions.into_iter().map(|r| (r.start, r.end, r.label, r.source)).collect()
    };
    assert_eq!(
        shown(build_diagram_regions(&a, &shadows("p"))),
        shown(build_diagram_regions(&b, &shadows("q")))
    );
}

#[test]
fn sizes_are_shown_as_floating_point_shows_them() {
    let mut seed: u64 = 0x9E37_79B9_7F4A_7C15;
    let mut values: Vec<u64> = vec![0, 1, 512, 52428, 52429, MB / 4, MB / 2, 3 * MB / 4, MB, u64::MAX];
    for shift in 0..64 {
        for _ in 0..200 {
            values.push(next(&mut seed) >> shift);
        }
    }
    for k in 0..400u64 {
        values.push(k * MB / 20);
        values.push((1 << 53) + k);
        values.push((1 << 54) + 3 * k);
        values.push(u64::MAX - k * 511);
    }
    for n in values {
        let mut mb = String::new();
        push_size(&mut mb, n, 20);
        assert_eq!(mb, format!("{:.1}", n as f64 / 1024.0 / 1024.0), "{}", n);
        let mut gb = String::new();
        push_size(&mut gb, n, 30);
        assert_eq!(gb, format!("{:.1}", n as f64 / 1024.0 / 1024.0 / 1024.0), "{}", n);
    }
}

#[test]
fn bars_are_drawn_as_floating_point_draws_them() {
    let mut seed: u64 = 0x1234_5678_9ABC_DEF1;
    let mut cases: Vec<(u64, u64, u64)> = Vec::new();
    for k in 0..=60u64 {
        for unit in [1, 7, 512, 1000, 17408, 999_999_937] {
            cases.push((k * unit, (k + 1) * unit, 60 * unit));
        }
    }
    for shift in 0..63 {
        for _ in 0..60 {
            let d = (next(&mut seed) >> shift) | 1;
            let a = next(&mut seed) % d;
            let b = a + next(&mut seed) % (d - a);
            cases.push((a, b, d));
        }
    }
    cases.push((0, u64::MAX, 1));
    cases.push((0, 17408, 0));
    cases.push((0, 0, 0));
    cases.push((17408, 17409, 0));
    for (a, b, d) in cases {
        let r = region(a, b, RegionSource::Gap);
        let line = float_line(&r, d, '.', "zeros");
        let text = format_diagram_ascii(&[r], d);
        assert_eq!(text.lines().nth(2), Some(line.as_str()), "{} {} {}", a, b, d);
    }
}

#[test]
fn diagram_of_a_small_disk() {
    let l = layout(100 * MB, vec![part(2, 40 * MB, 20 * MB), part(1, MB, 39 * MB), part(0, 0, 0)]);
    let mut shadows = HashMap::new();
    shadows.insert(40 * MB, "shadow".to_string());
    let regions = build_diagram_regions(&l, &shadows);
    assert_eq!(
        sources(&regions),
        vec![
            (0, GPT, RegionSource::GptPrimary),
            (GPT, MB, RegionSource::Gap),
            (MB, 40 * MB, RegionSource::PartitionRaw { partition_num: 1 }),
            (40 * MB, 60 * MB, RegionSource::PartitionShadow { partition_num: 2 }),
            (60 * MB, 100 * MB - GPT, RegionSource::Gap),
            (100 * MB - GPT, 100 * MB, RegionSource::GptBackup),
        ]
    );
    let labels: Vec<&str> = regions.iter().map(|r| r.label.as_str()).collect();
    assert_eq!(
        labels,
        vec![
            "Primary GPT (MBR + header + partition table)",
            "Gap (1.0 MB)",
            "Partition 1 (39.0 MB) - Raw disk",
            "Partition 2 (20.0 MB) - VSS shadow",
            "Gap (40.0 MB)",
            "Backup GPT (partition table copy)",
        ]
    );
    let text = format_diagram_ascii(&regions, 100 * MB);
    let lines: Vec<&str> = text.lines().collect();
    assert_eq!(lines.len(), 11);
    assert_eq!(lines[0], "SOURCE DISK (PhysicalDrive)                    OUTPUT IMAGE");
    assert_eq!(lines[1], "");
    assert_eq!(lines[2], format!("  [G{}]  GPT primary", " ".repeat(59)));
    assert_eq!(lines[5], format!("  [{}{}{}]  Part 2 (VSS)", " ".repeat(24), "S".repeat(12), " ".repeat(24)));
    assert_eq!(lines[8], "");
    assert_eq!(lines[9], "Legend: G=Primary GPT  B=Backup GPT  .=Gap (zeros)  S=VSS shadow  R=Raw disk");
    assert_eq!(lines[10], "Total: 0.1 GB (104857600 bytes)");
}

#[test]
fn shadow_anywhere_in_a_partition_counts() {
    let l = layout(100 * MB, vec![part(1, MB, 39 * MB)]);
    let mut shadows = HashMap::new();
    shadows.insert(2 * MB, "shadow".to_string());
    let regions = build_diagram_regions(&l, &shadows);
    assert_eq!(regions[2].source, RegionSource::PartitionShadow { partition_num: 1 });
}

#[test]
fn disk_without_room_for_two_tables() {
    let regions = build_diagram_regions(&layout(1000, vec![]), &HashMap::new());
    assert_eq!(
        sources(&regions),
        vec![(0, GPT, RegionSource::GptPrimary), (0, 1000, RegionSource::GptBackup)]
    );
    let regions = build_diagram_regions(&layout(0, vec![part(1, 0, 5)]), &HashMap::new());
    assert_eq!(sources(&regions), vec![(0, GPT, RegionSource::GptPrimary)]);
}

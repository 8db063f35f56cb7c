//! Disk layout diagram for preview and confirmation.

use std::collections::HashMap;

use vstd::prelude::*;

use crate::disk::{backup_start, ends_fit, DiskLayout, PartitionInfo, GPT_SIZE};
use crate::double::{column, column_of, push_size, saturated, size_text};
use crate::image_builder::min;
use crate::text::{decimal, push_decimal};

verus! {

broadcast use vstd::std_specs::hash::group_hash_axioms;

/// A region in the disk image with its data source.
#[derive(Debug, Clone)]
pub struct DiagramRegion {
    pub start: u64,
    pub end: u64,
    pub label: String,
    pub source: RegionSource,
}

/// Where the data for a region comes from.
#[derive(Debug, Clone, Copy, PartialEq, Eq, Structural)]
pub enum RegionSource {
    /// Primary GPT (protective MBR + header + partition table) from raw disk.
    GptPrimary,
    /// Backup GPT at end of disk, from raw disk.
    GptBackup,
    /// Unallocated gap, filled with zeros.
    Gap,
    /// Partition data from VSS shadow copy (consistent snapshot).
    PartitionShadow { partition_num: u32 },
    /// Partition data from raw disk (e.g. MSR, no volume).
    PartitionRaw { partition_num: u32 },
}

/// A [`DiagramRegion`] over numbers and the characters of its label.
pub struct RegionView {
    pub start: int,
    pub end: int,
    pub label: Seq<char>,
    pub source: RegionSource,
}

impl View for DiagramRegion {
    type V = RegionView;

    open spec fn view(&self) -> RegionView {
        RegionView {
            start: self.start as int,
            end: self.end as int,
            label: self.label@,
            source: self.source,
        }
    }
}

/// The views of a sequence of regions.
pub open spec fn views(regions: Seq<DiagramRegion>) -> Seq<RegionView> {
    regions.map_values(|r: DiagramRegion| r@)
}

/// `s`, which is in the order of the starting offsets, with `p` in its place,
/// behind partitions that start where `p` does.
pub open spec fn insert_by_offset(s: Seq<PartitionInfo>, p: PartitionInfo) -> Seq<PartitionInfo>
    decreases s.len(),
{
    if s.len() > 0 && s.last().starting_offset > p.starting_offset {
        insert_by_offset(s.drop_last(), p).push(s.last())
    } else {
        s.push(p)
    }
}

/// The partitions that hold data, in the order of their starting offsets.
pub open spec fn by_offset(parts: Seq<PartitionInfo>) -> Seq<PartitionInfo>
    decreases parts.len(),
{
    if parts.len() == 0 {
        seq![]
    } else if parts.last().in_use() {
        insert_by_offset(by_offset(parts.drop_last()), parts.last())
    } else {
        by_offset(parts.drop_last())
    }
}

/// A shadow copy starts in the partition.
pub open spec fn has_shadow(p: PartitionInfo, shadows: Set<u64>) -> bool {
    exists|k: u64| #[trigger] shadows.contains(k) && p.starting_offset <= k < p.end()
}

pub open spec fn primary_region() -> RegionView {
    RegionView {
        start: 0,
        end: GPT_SIZE as int,
        label: "Primary GPT (MBR + header + partition table)"@,
        source: RegionSource::GptPrimary,
    }
}

pub open spec fn gap_region(start: int, end: int) -> RegionView {
    RegionView {
        start,
        end,
        label: "Gap ("@ + size_text((end - start) as u64, 20) + " MB)"@,
        source: RegionSource::Gap,
    }
}

pub open spec fn partition_region(p: PartitionInfo, shadows: Set<u64>) -> RegionView {
    RegionView {
        start: p.starting_offset as int,
        end: p.end(),
        label: "Partition "@ + decimal(p.partition_number as nat) + " ("@ + size_text(
            p.partition_length,
            20,
        ) + " MB) - "@ + if has_shadow(p, shadows) {
            "VSS shadow"@
        } else {
            "Raw disk"@
        },
        source: if has_shadow(p, shadows) {
            RegionSource::PartitionShadow { partition_num: p.partition_number }
        } else {
            RegionSource::PartitionRaw { partition_num: p.partition_number }
        },
    }
}

pub open spec fn backup_region(disk_length: int) -> RegionView {
    RegionView {
        start: backup_start(disk_length),
        end: disk_length,
        label: "Backup GPT (partition table copy)"@,
        source: RegionSource::GptBackup,
    }
}

/// The regions up to some offset of the disk.
pub struct Regions {
    pub regions: Seq<RegionView>,
    pub pos: int,
}

impl Regions {
    /// The regions with the gap up to `end`, where there is one.
    pub open spec fn with_gap(self, end: int) -> Regions {
        if self.pos < end {
            Regions { regions: self.regions.push(gap_region(self.pos, end)), pos: end }
        } else {
            self
        }
    }

    /// The regions with the partition, unless it starts in or behind the
    /// backup GPT.
    pub open spec fn with_partition(
        self,
        p: PartitionInfo,
        shadows: Set<u64>,
        backup: int,
    ) -> Regions {
        if p.starting_offset < backup {
            Regions { regions: self.regions.push(partition_region(p, shadows)), pos: p.end() }
        } else {
            self
        }
    }
}

/// The primary GPT, and the partitions in the given order with the gaps before
/// them.
pub open spec fn leading_regions(
    sorted: Seq<PartitionInfo>,
    shadows: Set<u64>,
    backup: int,
) -> Regions
    decreases sorted.len(),
{
    if sorted.len() == 0 {
        Regions { regions: seq![primary_region()], pos: GPT_SIZE as int }
    } else {
        let p = sorted.last();
        leading_regions(sorted.drop_last(), shadows, backup).with_gap(
            min(p.starting_offset as int, backup),
        ).with_partition(p, shadows, backup)
    }
}

/// All regions of a disk.
pub open spec fn diagram(
    disk_length: int,
    parts: Seq<PartitionInfo>,
    shadows: Set<u64>,
) -> Seq<RegionView> {
    let backup = backup_start(disk_length);
    let rs = leading_regions(by_offset(parts), shadows, backup).with_gap(backup).regions;
    if backup < disk_length {
        rs.push(backup_region(disk_length))
    } else {
        rs
    }
}

/// Position `j` is that of `p` in `s`.
proof fn lemma_insert_by_offset(s: Seq<PartitionInfo>, p: PartitionInfo, j: int)
    requires
        0 <= j <= s.len(),
        forall|i: int| j <= i < s.len() ==> (#[trigger] s[i]).starting_offset > p.starting_offset,
        j > 0 ==> s[j - 1].starting_offset <= p.starting_offset,
    ensures
        insert_by_offset(s, p) == s.insert(j, p),
    decreases s.len(),
{
    if j < s.len() {
        let init = s.drop_last();
        assert(s[s.len() - 1].starting_offset > p.starting_offset);
        assert forall|i: int| j <= i < init.len() implies (#[trigger] init[i]).starting_offset
            > p.starting_offset by {
            assert(init[i] == s[i]);
        }
        lemma_insert_by_offset(init, p, j);
        assert(init.insert(j, p).push(s.last()) =~= s.insert(j, p));
    } else {
        assert(s.insert(j, p) =~= s.push(p));
    }
}

/// The partitions at the given places.
spec fn at_places(parts: Seq<PartitionInfo>, order: Seq<usize>) -> Seq<PartitionInfo> {
    order.map_values(|i: usize| parts[i as int])
}

/// The places of the partitions that hold data, in the order of their starting
/// offsets.
fn offset_order(parts: &Vec<PartitionInfo>) -> (order: Vec<usize>)
    ensures
        forall|k: int| 0 <= k < order@.len() ==> (#[trigger] order@[k]) < parts@.len() && parts@[order@[k] as int].in_use(),
        at_places(parts@, order@) == by_offset(parts@),
{
    let mut order: Vec<usize> = Vec::new();
    proof {
        assert(at_places(parts@, order@) =~= by_offset(parts@.take(0)));
    }
    for i in 0..parts.len()
        invariant
            forall|k: int| 0 <= k < order@.len() ==> (#[trigger] order@[k]) < parts@.len() && parts@[order@[k] as int].in_use(),
            at_places(parts@, order@) == by_offset(parts@.take(i as int)),
    {
        proof {
            assert(parts@.take(i + 1).drop_last() =~= parts@.take(i as int));
        }
        if parts[i].is_used && parts[i].partition_length > 0 {
            let mut j: usize = order.len();
            let ghost sorted = at_places(parts@, order@);
            let ghost p = parts@[i as int];
            while j > 0 && parts[order[j - 1]].starting_offset > parts[i].starting_offset
                invariant
                    i < parts@.len(),
                    p == parts@[i as int],
                    j <= order@.len(),
                    sorted == at_places(parts@, order@),
                    forall|k: int| 0 <= k < order@.len() ==> (#[trigger] order@[k]) < parts@.len(),
                    forall|k: int| j <= k < sorted.len() ==> (#[trigger] sorted[k]).starting_offset > p.starting_offset,
                decreases j,
            {
                j = j - 1;
            }
            proof {
                if j > 0 {
                    assert(sorted[j - 1] == parts@[order@[j - 1] as int]);
                }
                lemma_insert_by_offset(sorted, p, j as int);
                assert(at_places(parts@, order@.insert(j as int, i)) =~= sorted.insert(j as int, p));
            }
            order.insert(j, i);
        }
    }
    proof {
        assert(parts@.take(parts@.len() as int) =~= parts@);
    }
    order
}

/// Whether a shadow copy starts in the partition.
fn shadow_starts_in(p: &PartitionInfo, shadow_map: &HashMap<u64, String>) -> (b: bool)
    requires
        p.in_use(),
        p.end() <= u64::MAX,
    ensures
        b == has_shadow(*p, shadow_map@.dom()),
{
    let start = p.starting_offset;
    let end = p.starting_offset + p.partition_length;
    if shadow_map.contains_key(&start) {
        proof {
            assert(shadow_map@.dom().contains(start));
        }
        return true;
    }
    for k in it: shadow_map.keys()
        invariant
            start == p.starting_offset,
            end == p.end(),
            it.seq().unref().to_set() == shadow_map@.dom(),
            forall|i: int| 0 <= i < it.index() ==> !(start <= *#[trigger] it.seq()[i] < end),
    {
        if *k >= start && *k < end {
            proof {
                assert(it.seq().unref()[it.index() as int] == *k);
                assert(it.seq().unref().to_set().contains(*k));
                assert(shadow_map@.dom().contains(*k));
            }
            return true;
        }
    }
    proof {
        if has_shadow(*p, shadow_map@.dom()) {
            let k = choose|k: u64| #[trigger] shadow_map@.dom().contains(k) && start <= k < end;
            assert(false);
        }
    }
    false
}

fn push_gap(regions: &mut Vec<DiagramRegion>, start: u64, end: u64)
    requires
        start <= end,
    ensures
        views(final(regions)@) == views(old(regions)@).push(gap_region(start as int, end as int)),
{
    let mut label = String::new();
    label.append("Gap (");
    push_size(&mut label, end - start, 20);
    label.append(" MB)");
    regions.push(DiagramRegion { start, end, label, source: RegionSource::Gap });
    proof {
        assert(views(regions@) =~= views(old(regions)@).push(gap_region(start as int, end as int)));
    }
}

fn push_partition(
    regions: &mut Vec<DiagramRegion>,
    p: &PartitionInfo,
    shadow_map: &HashMap<u64, String>,
)
    requires
        p.in_use(),
        p.end() <= u64::MAX,
    ensures
        views(final(regions)@) == views(old(regions)@).push(
            partition_region(*p, shadow_map@.dom()),
        ),
{
    let shadow = shadow_starts_in(p, shadow_map);
    let mut label = String::new();
    label.append("Partition ");
    push_decimal(&mut label, p.partition_number as u64);
    label.append(" (");
    push_size(&mut label, p.partition_length, 20);
    label.append(" MB) - ");
    if shadow {
        label.append("VSS shadow");
    } else {
        label.append("Raw disk");
    }
    let source = if shadow {
        RegionSource::PartitionShadow { partition_num: p.partition_number }
    } else {
        RegionSource::PartitionRaw { partition_num: p.partition_number }
    };
    regions.push(
        DiagramRegion {
            start: p.starting_offset,
            end: p.starting_offset + p.partition_length,
            label,
            source,
        },
    );
    proof {
        assert(views(regions@) =~= views(old(regions)@).push(
            partition_region(*p, shadow_map@.dom()),
        ));
    }
}

/// Builds diagram regions from layout and shadow map.
/// The shadow map keys are partition starting offsets.
pub fn build_diagram_regions(
    layout: &DiskLayout,
    shadow_map: &HashMap<u64, String>,
) -> (regions: Vec<DiagramRegion>)
    requires
        ends_fit(layout.partitions@),
    ensures
        views(regions@) == diagram(
            layout.disk_length as int,
            layout.partitions@,
            shadow_map@.dom(),
        ),
{
    let parts = &layout.partitions;
    let disk_length = layout.disk_length;
    let backup: u64 = if disk_length >= GPT_SIZE {
        disk_length - GPT_SIZE
    } else {
        0
    };
    let ghost shadows = shadow_map@.dom();
    let order = offset_order(parts);
    let ghost sorted = by_offset(parts@);

    let mut regions: Vec<DiagramRegion> = Vec::new();
    regions.push(
        DiagramRegion {
            start: 0,
            end: GPT_SIZE,
            label: "Primary GPT (MBR + header + partition table)".to_owned(),
            source: RegionSource::GptPrimary,
        },
    );
    let mut pos: u64 = GPT_SIZE;
    proof {
        assert(views(regions@) =~= seq![primary_region()]);
    }
    for k in 0..order.len()
        invariant
            parts@ == layout.partitions@,
            ends_fit(parts@),
            forall|i: int| 0 <= i < order@.len() ==> (#[trigger] order@[i]) < parts@.len() && parts@[order@[i] as int].in_use(),
            sorted == at_places(parts@, order@),
            shadows == shadow_map@.dom(),
            views(regions@) == leading_regions(sorted.take(k as int), shadows, backup as int).regions,
            pos == leading_regions(sorted.take(k as int), shadows, backup as int).pos,
    {
        proof {
            assert(sorted.take(k + 1).drop_last() =~= sorted.take(k as int));
            assert(sorted[k as int] == parts@[order@[k as int] as int]);
        }
        let part = &parts[order[k]];
        let gap_end: u64 = if part.starting_offset < backup {
            part.starting_offset
        } else {
            backup
        };
        if pos < gap_end {
            push_gap(&mut regions, pos, gap_end);
            pos = gap_end;
        }
        if part.starting_offset < backup {
            push_partition(&mut regions, part, shadow_map);
            pos = part.starting_offset + part.partition_length;
        }
    }
    proof {
        assert(sorted.take(sorted.len() as int) =~= sorted);
    }
    if pos < backup {
        push_gap(&mut regions, pos, backup);
    }
    if backup < disk_length {
        let ghost before = views(regions@);
        regions.push(
            DiagramRegion {
                start: backup,
                end: disk_length,
                label: "Backup GPT (partition table copy)".to_owned(),
                source: RegionSource::GptBackup,
            },
        );
        proof {
            assert(views(regions@) =~= before.push(backup_region(disk_length as int)));
        }
    }
    regions
}

/// How many columns a bar of the diagram has.
pub const BAR_WIDTH: u64 = 60;

/// The first column of the bar of a region that starts at `start`.
pub open spec fn bar_start(start: u64, disk_length: u64) -> u64 {
    if disk_length == 0 {
        if start == 0 {
            0
        } else {
            u64::MAX
        }
    } else {
        saturated(column(start, disk_length, BAR_WIDTH).floor())
    }
}

/// The column behind the bar of a region that ends at `end`.
pub open spec fn bar_end(end: u64, disk_length: u64) -> u64 {
    if disk_length == 0 {
        if end == 0 {
            0
        } else {
            u64::MAX
        }
    } else {
        saturated(column(end, disk_length, BAR_WIDTH).ceil())
    }
}

/// A bar of `ch` from column `from` up to column `to`.
pub open spec fn bar(ch: char, from: u64, to: u64) -> Seq<char> {
    Seq::new(
        BAR_WIDTH as nat,
        |i: int|
            if from <= i < to {
                ch
            } else {
                ' '
            },
    )
}

pub open spec fn source_mark(source: RegionSource) -> char {
    match source {
        RegionSource::GptPrimary => 'G',
        RegionSource::GptBackup => 'B',
        RegionSource::Gap => '.',
        RegionSource::PartitionShadow { .. } => 'S',
        RegionSource::PartitionRaw { .. } => 'R',
    }
}

pub open spec fn source_text(source: RegionSource) -> Seq<char> {
    match source {
        RegionSource::GptPrimary => "GPT primary"@,
        RegionSource::GptBackup => "GPT backup"@,
        RegionSource::Gap => "zeros"@,
        RegionSource::PartitionShadow { partition_num } => "Part "@ + decimal(partition_num as nat)
            + " (VSS)"@,
        RegionSource::PartitionRaw { partition_num } => "Part "@ + decimal(partition_num as nat)
            + " (raw)"@,
    }
}

/// The line of a region.
pub open spec fn region_line(r: DiagramRegion, disk_length: u64) -> Seq<char> {
    "  ["@ + bar(
        source_mark(r.source),
        bar_start(r.start, disk_length),
        bar_end(r.end, disk_length),
    ) + "]  "@ + source_text(r.source)
}

/// The lines, one below the other.
pub open spec fn joined(lines: Seq<Seq<char>>) -> Seq<char>
    decreases lines.len(),
{
    if lines.len() == 0 {
        seq![]
    } else if lines.len() == 1 {
        lines[0]
    } else {
        joined(lines.drop_last()) + "\n"@ + lines.last()
    }
}

pub open spec fn total_line(disk_length: u64) -> Seq<char> {
    "Total: "@ + size_text(disk_length, 30) + " GB ("@ + decimal(disk_length as nat) + " bytes)"@
}

/// The lines of the diagram down to the last of the given regions.
pub open spec fn region_lines(regions: Seq<DiagramRegion>, disk_length: u64) -> Seq<Seq<char>> {
    seq!["SOURCE DISK (PhysicalDrive)                    OUTPUT IMAGE"@, ""@]
        + regions.map_values(|r: DiagramRegion| region_line(r, disk_length))
}

/// All lines of the diagram.
pub open spec fn diagram_lines(regions: Seq<DiagramRegion>, disk_length: u64) -> Seq<Seq<char>> {
    region_lines(regions, disk_length).push(""@).push(
        "Legend: G=Primary GPT  B=Backup GPT  .=Gap (zeros)  S=VSS shadow  R=Raw disk"@,
    ).push(total_line(disk_length))
}

proof fn lemma_joined_push(lines: Seq<Seq<char>>, line: Seq<char>)
    requires
        lines.len() > 0,
    ensures
        joined(lines.push(line)) == joined(lines) + "\n"@ + line,
{
    assert(lines.push(line).drop_last() =~= lines);
}

fn push_bar(s: &mut String, ch: char, from: u64, to: u64)
    ensures
        final(s)@ == old(s)@ + bar(ch, from, to),
{
    let ghost before = s@;
    for i in 0..60u64
        invariant
            s@ == before + bar(ch, from, to).take(i as int),
    {
        if i >= from && i < to {
            s.push(ch);
        } else {
            s.push(' ');
        }
        proof {
            assert(bar(ch, from, to).take(i + 1) =~= bar(ch, from, to).take(i as int).push(
                bar(ch, from, to)[i as int],
            ));
        }
    }
    proof {
        assert(bar(ch, from, to).take(60) =~= bar(ch, from, to));
    }
}

fn push_region_line(s: &mut String, r: &DiagramRegion, disk_length: u64)
    ensures
        final(s)@ == old(s)@ + region_line(*r, disk_length),
{
    let from: u64 = if disk_length > 0 {
        column_of(r.start, disk_length, BAR_WIDTH).floor()
    } else if r.start == 0 {
        0
    } else {
        u64::MAX
    };
    let to: u64 = if disk_length > 0 {
        column_of(r.end, disk_length, BAR_WIDTH).ceil()
    } else if r.end == 0 {
        0
    } else {
        u64::MAX
    };
    let ch = match r.source {
        RegionSource::GptPrimary => 'G',
        RegionSource::GptBackup => 'B',
        RegionSource::Gap => '.',
        RegionSource::PartitionShadow { .. } => 'S',
        RegionSource::PartitionRaw { .. } => 'R',
    };
    s.append("  [");
    push_bar(s, ch, from, to);
    s.append("]  ");
    match r.source {
        RegionSource::GptPrimary => s.append("GPT primary"),
        RegionSource::GptBackup => s.append("GPT backup"),
        RegionSource::Gap => s.append("zeros"),
        RegionSource::PartitionShadow { partition_num } => {
            s.append("Part ");
            push_decimal(s, partition_num as u64);
            s.append(" (VSS)");
        },
        RegionSource::PartitionRaw { partition_num } => {
            s.append("Part ");
            push_decimal(s, partition_num as u64);
            s.append(" (raw)");
        },
    }
    proof {
        assert(s@ =~= old(s)@ + region_line(*r, disk_length));
    }
}

/// Formats the diagram as ASCII art for terminal output.
pub fn format_diagram_ascii(regions: &[DiagramRegion], disk_length: u64) -> (r: String)
    ensures
        r@ == joined(diagram_lines(regions@, disk_length)),
{
    let mut s = String::new();
    s.append("SOURCE DISK (PhysicalDrive)                    OUTPUT IMAGE");
    s.append("\n");
    s.append("");
    proof {
        let lines = seq!["SOURCE DISK (PhysicalDrive)                    OUTPUT IMAGE"@];
        lemma_joined_push(lines, ""@);
        assert(region_lines(regions@.take(0), disk_length) =~= lines.push(""@));
    }
    for i in 0..regions.len()
        invariant
            s@ == joined(region_lines(regions@.take(i as int), disk_length)),
    {
        let ghost lines = region_lines(regions@.take(i as int), disk_length);
        s.append("\n");
        push_region_line(&mut s, &regions[i], disk_length);
        proof {
            lemma_joined_push(lines, region_line(regions@[i as int], disk_length));
            assert(region_lines(regions@.take(i + 1), disk_length) =~= lines.push(
                region_line(regions@[i as int], disk_length),
            ));
        }
    }
    s.append("\n");
    s.append("");
    s.append("\n");
    s.append("Legend: G=Primary GPT  B=Backup GPT  .=Gap (zeros)  S=VSS shadow  R=Raw disk");
    s.append("\n");
    s.append("Total: ");
    push_size(&mut s, disk_length, 30);
    s.append(" GB (");
    push_decimal(&mut s, disk_length);
    s.append(" bytes)");
    proof {
        assert(regions@.take(regions@.len() as int) =~= regions@);
        let lines = region_lines(regions@, disk_length);
        lemma_joined_push(lines, ""@);
        let legend = "Legend: G=Primary GPT  B=Backup GPT  .=Gap (zeros)  S=VSS shadow  R=Raw disk"@;
        lemma_joined_push(lines.push(""@), legend);
        lemma_joined_push(lines.push(""@).push(legend), total_line(disk_length));
        assert(s@ =~= joined(diagram_lines(regions@, disk_length)));
    }
    s
}

} // verus!

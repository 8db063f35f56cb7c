//! That the diagram says what is there: which region comes from where, where
//! its bar stands, and what the marks mean.

use vstd::prelude::*;

use crate::diagram::{backup_region, bar, bar_end, bar_start, by_offset, diagram, diagram_lines, gap_region, has_shadow, joined, leading_regions, partition_region, primary_region, region_line, region_lines, source_mark, source_text, total_line, DiagramRegion, RegionSource, RegionView, Regions};
use crate::diagram_laws::{in_order, law_partitions_are_sorted};
use crate::disk::{backup_start, PartitionInfo};
use crate::double::{column, size_text};
use crate::double_laws::{above, at_least, law_floor_and_ceiling};
use crate::image_builder::min;
use crate::text::decimal;
use crate::text_laws::{law_decimal_can_be_read, read_decimal};

verus! {

/// The two sources are of one kind.
pub open spec fn same_kind(a: RegionSource, b: RegionSource) -> bool {
    match a {
        RegionSource::GptPrimary => b is GptPrimary,
        RegionSource::GptBackup => b is GptBackup,
        RegionSource::Gap => b is Gap,
        RegionSource::PartitionShadow { .. } => b is PartitionShadow,
        RegionSource::PartitionRaw { .. } => b is PartitionRaw,
    }
}

/// What the legend says of a kind of source.
pub open spec fn legend_entry(source: RegionSource) -> Seq<char> {
    match source {
        RegionSource::GptPrimary => "G=Primary GPT"@,
        RegionSource::GptBackup => "B=Backup GPT"@,
        RegionSource::Gap => ".=Gap (zeros)"@,
        RegionSource::PartitionShadow { .. } => "S=VSS shadow"@,
        RegionSource::PartitionRaw { .. } => "R=Raw disk"@,
    }
}

/// The words stand in the text.
pub open spec fn says(text: Seq<char>, words: Seq<char>) -> bool {
    exists|a: Seq<char>, b: Seq<char>| text == #[trigger] (a + words + b)
}

proof fn lemma_says(text: Seq<char>, words: Seq<char>, at: int)
    requires
        0 <= at,
        at + words.len() <= text.len(),
        forall|i: int| 0 <= i < words.len() ==> #[trigger] words[i] == text[at + i],
    ensures
        says(text, words),
{
    let a = text.take(at);
    let b = text.skip(at + words.len());
    assert(text =~= a + words + b);
}

/// The mark of a region is the one that the legend of the same diagram
/// explains by the kind of its source.
pub proof fn law_mark_agrees_with_legend(
    regions: Seq<DiagramRegion>,
    disk_length: u64,
    source: RegionSource,
)
    ensures
        legend_entry(source)[0] == source_mark(source),
        says(diagram_lines(regions, disk_length)[regions.len() as int + 3], legend_entry(source)),
{
    let legend = "Legend: G=Primary GPT  B=Backup GPT  .=Gap (zeros)  S=VSS shadow  R=Raw disk"@;
    reveal_strlit("Legend: G=Primary GPT  B=Backup GPT  .=Gap (zeros)  S=VSS shadow  R=Raw disk");
    reveal_strlit("G=Primary GPT");
    reveal_strlit("B=Backup GPT");
    reveal_strlit(".=Gap (zeros)");
    reveal_strlit("S=VSS shadow");
    reveal_strlit("R=Raw disk");
    let at: int = match source {
        RegionSource::GptPrimary => 8,
        RegionSource::GptBackup => 23,
        RegionSource::Gap => 37,
        RegionSource::PartitionShadow { .. } => 52,
        RegionSource::PartitionRaw { .. } => 66,
    };
    lemma_says(legend, legend_entry(source), at);
    assert(region_lines(regions, disk_length).len() == regions.len() + 2);
    assert(diagram_lines(regions, disk_length)[regions.len() as int + 3] == legend);
}

/// Regions whose sources are of different kinds have different marks.
pub proof fn law_marks_tell_kinds_apart(a: RegionSource, b: RegionSource)
    ensures
        source_mark(a) == source_mark(b) <==> same_kind(a, b),
        source_mark(a) != ' ',
{
}

/// What is said of a source names it: GPT areas and gaps by themselves, and
/// partitions by their number and by whether they come from a shadow copy.
pub proof fn law_source_text_names_source(source: RegionSource) -> (number: Seq<char>)
    ensures
        source is GptPrimary ==> source_text(source) == "GPT primary"@,
        source is GptBackup ==> source_text(source) == "GPT backup"@,
        source is Gap ==> source_text(source) == "zeros"@,
        source matches RegionSource::PartitionShadow { partition_num } ==> source_text(source)
            == "Part "@ + number + " (VSS)"@ && read_decimal(number) == partition_num,
        source matches RegionSource::PartitionRaw { partition_num } ==> source_text(source)
            == "Part "@ + number + " (raw)"@ && read_decimal(number) == partition_num,
{
    match source {
        RegionSource::PartitionShadow { partition_num } => {
            law_decimal_can_be_read(partition_num as nat);
            decimal(partition_num as nat)
        },
        RegionSource::PartitionRaw { partition_num } => {
            law_decimal_can_be_read(partition_num as nat);
            decimal(partition_num as nat)
        },
        _ => seq![],
    }
}

/// The source is a partition.
spec fn is_partition(source: RegionSource) -> bool {
    source is PartitionShadow || source is PartitionRaw
}

/// The first characters of the texts, the number in that of a partition, and
/// the character before the last.
proof fn lemma_shape_of_text(source: RegionSource) -> (number: Seq<char>)
    ensures
        ({
            let s = source_text(source);
            &&& s.len() >= 5
            &&& is_partition(source) <==> s[0] == 'P'
            &&& is_partition(source) ==> s.len() >= 11 && s.subrange(5, s.len() - 6) == number
            &&& source is PartitionShadow ==> s[s.len() - 2] == 'S'
            &&& source is PartitionRaw ==> s[s.len() - 2] == 'w'
            &&& source is GptPrimary ==> s.len() == 11
            &&& source is GptBackup ==> s.len() == 10
            &&& source is Gap ==> s.len() == 5
        }),
        source matches RegionSource::PartitionShadow { partition_num } ==> read_decimal(number)
            == partition_num,
        source matches RegionSource::PartitionRaw { partition_num } ==> read_decimal(number)
            == partition_num,
{
    reveal_strlit("GPT primary");
    reveal_strlit("GPT backup");
    reveal_strlit("zeros");
    reveal_strlit("Part ");
    reveal_strlit(" (VSS)");
    reveal_strlit(" (raw)");
    let number = law_source_text_names_source(source);
    let s = source_text(source);
    if is_partition(source) {
        assert(s.subrange(5, s.len() - 6) =~= number);
    }
    number
}

/// No two sources are named alike.
pub proof fn law_texts_tell_sources_apart(a: RegionSource, b: RegionSource)
    requires
        source_text(a) == source_text(b),
    ensures
        a == b,
{
    let n = lemma_shape_of_text(a);
    let m = lemma_shape_of_text(b);
    assert(is_partition(a) == is_partition(b));
    if is_partition(a) {
        assert(n == m);
        assert((a is PartitionShadow) == (b is PartitionShadow));
    }
}

/// Column `c` of the bar shows the region: the region starts before the end of
/// the column and ends behind its start. On a disk without length only a region
/// from the start on is shown.
pub open spec fn shown(r: DiagramRegion, disk_length: u64, c: int) -> bool {
    if disk_length == 0 {
        r.start == 0 && r.end > 0
    } else {
        !at_least(column(r.start, disk_length, 60), c + 1) && above(
            column(r.end, disk_length, 60),
            c,
        )
    }
}

/// The line of a region is a bar of sixty columns in brackets and the text on
/// its source. The bar has the mark of the source in the columns that the
/// region reaches into, and blanks in all others.
pub proof fn law_line_shows_region(r: DiagramRegion, disk_length: u64)
    ensures
        region_line(r, disk_length).len() == 66 + source_text(r.source).len(),
        region_line(r, disk_length).take(3) == "  ["@,
        forall|c: int|
            0 <= c < 60 ==> #[trigger] region_line(r, disk_length)[3 + c] == if shown(
                r,
                disk_length,
                c,
            ) {
                source_mark(r.source)
            } else {
                ' '
            },
        region_line(r, disk_length).subrange(63, 66) == "]  "@,
        region_line(r, disk_length).skip(66) == source_text(r.source),
{
    reveal_strlit("  [");
    reveal_strlit("]  ");
    let line = region_line(r, disk_length);
    let b = bar(
        source_mark(r.source),
        bar_start(r.start, disk_length),
        bar_end(r.end, disk_length),
    );
    assert(line == "  ["@ + b + "]  "@ + source_text(r.source));
    assert(line.take(3) =~= "  ["@);
    assert(line.subrange(63, 66) =~= "]  "@);
    assert(line.skip(66) =~= source_text(r.source));
    assert forall|c: int| 0 <= c < 60 implies #[trigger] line[3 + c] == if shown(
        r,
        disk_length,
        c,
    ) {
        source_mark(r.source)
    } else {
        ' '
    } by {
        assert(line[3 + c] == b[c]);
        law_floor_and_ceiling(column(r.start, disk_length, 60), c + 1);
        law_floor_and_ceiling(column(r.end, disk_length, 60), c);
    }
}

/// The diagram has a title, a line for each region in their order, the legend
/// and the total, with an empty line before the regions and behind them.
pub proof fn law_lines_of_diagram(regions: Seq<DiagramRegion>, disk_length: u64)
    ensures
        diagram_lines(regions, disk_length).len() == regions.len() + 5,
        diagram_lines(regions, disk_length)[0]
            == "SOURCE DISK (PhysicalDrive)                    OUTPUT IMAGE"@,
        diagram_lines(regions, disk_length)[1].len() == 0,
        forall|i: int|
            0 <= i < regions.len() ==> #[trigger] diagram_lines(regions, disk_length)[2 + i]
                == region_line(regions[i], disk_length),
        diagram_lines(regions, disk_length)[regions.len() as int + 2].len() == 0,
        diagram_lines(regions, disk_length)[regions.len() as int + 4] == total_line(disk_length),
{
    reveal_strlit("");
    assert(region_lines(regions, disk_length).len() == regions.len() + 2);
    assert forall|i: int| 0 <= i < regions.len() implies #[trigger] diagram_lines(
        regions,
        disk_length,
    )[2 + i] == region_line(regions[i], disk_length) by {
        assert(diagram_lines(regions, disk_length)[2 + i] == region_lines(regions, disk_length)[2
            + i]);
    }
}

/// The last line gives the size in gigabytes and in bytes.
pub proof fn law_total_gives_size(disk_length: u64) -> (bytes: Seq<char>)
    ensures
        total_line(disk_length) == "Total: "@ + size_text(disk_length, 30) + " GB ("@ + bytes
            + " bytes)"@,
        read_decimal(bytes) == disk_length,
{
    law_decimal_can_be_read(disk_length as nat);
    decimal(disk_length as nat)
}

/// Lines are written one below the other, each on a line of its own.
pub proof fn law_lines_are_joined(a: Seq<Seq<char>>, b: Seq<Seq<char>>, line: Seq<char>)
    ensures
        joined(seq![line]) == line,
        a.len() > 0 && b.len() > 0 ==> joined(a + b) == joined(a) + seq!['\n'] + joined(b),
    decreases b.len(),
{
    reveal_strlit("\n");
    if a.len() > 0 && b.len() > 0 {
        assert((a + b).drop_last() =~= a + b.drop_last());
        assert((a + b).last() == b.last());
        if b.len() == 1 {
            assert(a + b.drop_last() =~= a);
            assert(joined(a + b) =~= joined(a) + seq!['\n'] + joined(b));
        } else {
            law_lines_are_joined(a, b.drop_last(), line);
            assert(joined(a + b) =~= joined(a) + seq!['\n'] + joined(b));
        }
    }
}

/// A shadow copy starts between the two offsets.
pub open spec fn shadow_between(shadows: Set<u64>, start: int, end: int) -> bool {
    exists|k: u64| #[trigger] shadows.contains(k) && start <= k < end
}

/// The region is that of the partition.
pub open spec fn is_region_of(r: RegionView, p: PartitionInfo) -> bool {
    &&& p.is_used && p.partition_length > 0
    &&& r.start == p.starting_offset
    &&& r.end == p.starting_offset + p.partition_length
}

/// The label of a partition of the given number and size.
pub open spec fn partition_label(number: u32, size: int, from: Seq<char>) -> Seq<char> {
    "Partition "@ + decimal(number as nat) + " ("@ + size_text(size as u64, 20) + " MB) - "@ + from
}

/// The region is where its source says, and its label says what it is.
pub open spec fn right_region(
    r: RegionView,
    disk_length: int,
    parts: Seq<PartitionInfo>,
    shadows: Set<u64>,
) -> bool {
    match r.source {
        RegionSource::GptPrimary => {
            &&& r.start == 0
            &&& r.end == 34 * 512
            &&& r.label == "Primary GPT (MBR + header + partition table)"@
        },
        RegionSource::GptBackup => {
            &&& r.start == if disk_length >= 34 * 512 {
                disk_length - 34 * 512
            } else {
                0
            }
            &&& r.end == disk_length
            &&& r.label == "Backup GPT (partition table copy)"@
        },
        RegionSource::Gap => {
            &&& r.start < r.end
            &&& r.label == "Gap ("@ + size_text((r.end - r.start) as u64, 20) + " MB)"@
        },
        RegionSource::PartitionShadow { partition_num } => {
            &&& exists|p: PartitionInfo| #[trigger]
                parts.contains(p) && is_region_of(r, p) && p.partition_number == partition_num
            &&& shadow_between(shadows, r.start, r.end)
            &&& r.label == partition_label(partition_num, r.end - r.start, "VSS shadow"@)
        },
        RegionSource::PartitionRaw { partition_num } => {
            &&& exists|p: PartitionInfo| #[trigger]
                parts.contains(p) && is_region_of(r, p) && p.partition_number == partition_num
            &&& !shadow_between(shadows, r.start, r.end)
            &&& r.label == partition_label(partition_num, r.end - r.start, "Raw disk"@)
        },
    }
}

/// The regions are right, and no hole is between two of them: each starts where
/// the one before it ends, or before that, and a gap ends exactly where the
/// next region starts.
pub open spec fn right_regions(
    rs: Seq<RegionView>,
    disk_length: int,
    parts: Seq<PartitionInfo>,
    shadows: Set<u64>,
) -> bool {
    &&& forall|i: int|
        0 <= i < rs.len() ==> right_region(#[trigger] rs[i], disk_length, parts, shadows)
    &&& forall|i: int, j: int|
        0 <= i && j == i + 1 && j < rs.len() ==> (#[trigger] rs[i]).end >= (
        #[trigger] rs[j]).start
    &&& forall|i: int, j: int|
        0 <= i && j == i + 1 && j < rs.len() && (#[trigger] rs[i]).source is Gap ==> rs[i].end == (
        #[trigger] rs[j]).start
    &&& forall|i: int, j: int|
        0 <= i && j == i + 1 && j < rs.len() && (#[trigger] rs[j]).source is Gap ==> (
        #[trigger] rs[i]).end == rs[j].start
}

/// What holds of the regions up to some offset.
spec fn good(r: Regions, disk_length: int, parts: Seq<PartitionInfo>, shadows: Set<u64>) -> bool {
    &&& right_regions(r.regions, disk_length, parts, shadows)
    &&& r.regions.len() > 0
    &&& r.regions[0] == primary_region()
    &&& r.regions.last().end == r.pos
}

proof fn lemma_good_push(
    r: Regions,
    region: RegionView,
    disk_length: int,
    parts: Seq<PartitionInfo>,
    shadows: Set<u64>,
)
    requires
        good(r, disk_length, parts, shadows),
        right_region(region, disk_length, parts, shadows),
        r.pos >= region.start,
        r.regions.last().source is Gap || region.source is Gap ==> r.pos == region.start,
    ensures
        good(
            Regions { regions: r.regions.push(region), pos: region.end },
            disk_length,
            parts,
            shadows,
        ),
{
}

/// A gap is the last of the regions only where it ends at the backup GPT, behind
/// which the last partition starts.
spec fn gap_ends_at(r: Regions, sorted: Seq<PartitionInfo>, backup: int) -> bool {
    r.regions.last().source is Gap ==> r.pos == backup && sorted.len() > 0
        && sorted.last().starting_offset >= backup
}

proof fn lemma_good_leading(
    sorted: Seq<PartitionInfo>,
    disk_length: int,
    parts: Seq<PartitionInfo>,
    shadows: Set<u64>,
)
    requires
        disk_length >= 0,
        in_order(sorted),
        forall|i: int|
            0 <= i < sorted.len() ==> parts.contains(#[trigger] sorted[i]) && sorted[i].in_use(),
    ensures
        good(
            leading_regions(sorted, shadows, backup_start(disk_length)),
            disk_length,
            parts,
            shadows,
        ),
        gap_ends_at(
            leading_regions(sorted, shadows, backup_start(disk_length)),
            sorted,
            backup_start(disk_length),
        ),
        forall|p: PartitionInfo| #[trigger]
            sorted.contains(p) && p.starting_offset < backup_start(disk_length)
                ==> leading_regions(sorted, shadows, backup_start(disk_length)).regions.contains(
                partition_region(p, shadows),
            ),
    decreases sorted.len(),
{
    let backup = backup_start(disk_length);
    if sorted.len() > 0 {
        let init = sorted.drop_last();
        let p = sorted.last();
        assert forall|i: int| 0 <= i < init.len() implies parts.contains(#[trigger] init[i])
            && init[i].in_use() by {
            assert(init[i] == sorted[i]);
        }
        assert(in_order(init));
        lemma_good_leading(init, disk_length, parts, shadows);
        if init.len() > 0 {
            assert(sorted[init.len() - 1].starting_offset <= sorted[sorted.len()
                - 1].starting_offset);
        }
        let r = leading_regions(init, shadows, backup);
        let end = min(p.starting_offset as int, backup);
        let g = r.with_gap(end);
        if r.pos < end {
            lemma_good_push(r, gap_region(r.pos, end), disk_length, parts, shadows);
        }
        assert(sorted[sorted.len() - 1] == p);
        let region = partition_region(p, shadows);
        let all = leading_regions(sorted, shadows, backup);
        if p.starting_offset < backup {
            assert(shadow_between(shadows, region.start, region.end) <==> has_shadow(p, shadows));
            assert(is_region_of(region, p));
            lemma_good_push(g, region, disk_length, parts, shadows);
            assert(all.regions == g.regions.push(region));
            assert(all.regions[g.regions.len() as int] == region);
        } else {
            assert(all == g);
        }
        assert forall|q: PartitionInfo| #[trigger]
            sorted.contains(q) && q.starting_offset < backup implies all.regions.contains(
            partition_region(q, shadows),
        ) by {
            let i = choose|i: int| 0 <= i < sorted.len() && sorted[i] == q;
            if i < init.len() {
                assert(init[i] == q);
                assert(init.contains(q));
                let j = choose|j: int|
                    0 <= j < r.regions.len() && r.regions[j] == partition_region(q, shadows);
                assert(all.regions[j] == r.regions[j]);
            }
        }
    }
}

/// On every disk the diagram starts with the primary GPT and ends with the
/// backup GPT, every region is where its source says with a label that fits,
/// no hole is between two regions, and every partition that holds data and
/// starts before the backup GPT has its region.
pub proof fn law_diagram_is_right(
    disk_length: int,
    parts: Seq<PartitionInfo>,
    shadows: Set<u64>,
)
    requires
        disk_length >= 0,
    ensures
        ({
            let rs = diagram(disk_length, parts, shadows);
            &&& right_regions(rs, disk_length, parts, shadows)
            &&& rs.len() > 0 && rs[0].source is GptPrimary
            &&& disk_length > 0 ==> rs.last().source is GptBackup
            &&& forall|p: PartitionInfo| #[trigger]
                parts.contains(p) && p.is_used && p.partition_length > 0 && p.starting_offset < (
                if disk_length >= 34 * 512 {
                    disk_length - 34 * 512
                } else {
                    0
                }) ==> exists|i: int|
                    0 <= i < rs.len() && is_region_of(#[trigger] rs[i], p) && (rs[i].source
                        == (RegionSource::PartitionShadow { partition_num: p.partition_number })
                        || rs[i].source == (RegionSource::PartitionRaw {
                        partition_num: p.partition_number,
                    }))
        }),
{
    let backup = backup_start(disk_length);
    let sorted = by_offset(parts);
    let rs = diagram(disk_length, parts, shadows);
    law_partitions_are_sorted(parts);
    assert forall|i: int| 0 <= i < sorted.len() implies parts.contains(#[trigger] sorted[i])
        && sorted[i].in_use() by {
        assert(sorted.contains(sorted[i]));
    }
    lemma_good_leading(sorted, disk_length, parts, shadows);
    let r = leading_regions(sorted, shadows, backup);
    let g = r.with_gap(backup);
    if r.pos < backup {
        lemma_good_push(r, gap_region(r.pos, backup), disk_length, parts, shadows);
    }
    if backup < disk_length {
        lemma_good_push(g, backup_region(disk_length), disk_length, parts, shadows);
        assert(rs == g.regions.push(backup_region(disk_length)));
    }
    assert forall|p: PartitionInfo| #[trigger]
        parts.contains(p) && p.is_used && p.partition_length > 0 && p.starting_offset
            < backup implies exists|i: int|
        0 <= i < rs.len() && is_region_of(#[trigger] rs[i], p) && (rs[i].source == (
        RegionSource::PartitionShadow { partition_num: p.partition_number }) || rs[i].source == (
        RegionSource::PartitionRaw { partition_num: p.partition_number })) by {
        assert(sorted.contains(p));
        let region = partition_region(p, shadows);
        let j = choose|j: int| 0 <= j < r.regions.len() && r.regions[j] == region;
        assert(g.regions[j] == region);
        assert(rs[j] == region);
        assert(is_region_of(rs[j], p));
    }
}

/// A region is seen as it is.
pub proof fn law_view_of_region(r: DiagramRegion)
    ensures
        r@.start == r.start,
        r@.end == r.end,
        r@.label == r.label@,
        r@.source == r.source,
{
}

} // verus!

//! What the diagram of a disk shows: the order of its regions, that they fill
//! the disk, and that they are the regions of the image.

use vstd::prelude::*;

use crate::diagram::{by_offset, diagram, has_shadow, insert_by_offset, leading_regions, partition_region, RegionSource, RegionView, Regions};
use crate::disk::{backup_start, PartitionInfo, GPT_SIZE};
use crate::image_builder::{first_covering, lemma_first_covering_covers, min, ChunkSource, ImageConfig};

verus! {

broadcast use vstd::seq::group_seq_axioms;

/// The starting offsets do not fall.
pub open spec fn in_order(s: Seq<PartitionInfo>) -> bool {
    forall|i: int, j: int|
        0 <= i < j < s.len() ==> (#[trigger] s[i]).starting_offset <= (
        #[trigger] s[j]).starting_offset
}

/// The partitions that hold data and start at `offset`, in their order.
pub open spec fn starting_at(s: Seq<PartitionInfo>, offset: u64) -> Seq<PartitionInfo>
    decreases s.len(),
{
    if s.len() == 0 {
        seq![]
    } else if s.last().in_use() && s.last().starting_offset == offset {
        starting_at(s.drop_last(), offset).push(s.last())
    } else {
        starting_at(s.drop_last(), offset)
    }
}

proof fn lemma_insert_in_order(s: Seq<PartitionInfo>, p: PartitionInfo)
    requires
        in_order(s),
    ensures
        in_order(insert_by_offset(s, p)),
        forall|x: PartitionInfo| #[trigger] insert_by_offset(s, p).contains(x) <==> s.contains(x) || x == p,
        insert_by_offset(s, p).len() == s.len() + 1,
    decreases s.len(),
{
    let r = insert_by_offset(s, p);
    if s.len() > 0 && s.last().starting_offset > p.starting_offset {
        let init = s.drop_last();
        assert(in_order(init));
        lemma_insert_in_order(init, p);
        let ri = insert_by_offset(init, p);
        assert forall|i: int| 0 <= i < ri.len() implies (#[trigger] ri[i]).starting_offset
            <= s.last().starting_offset by {
            assert(ri.contains(ri[i]));
            if ri[i] != p {
                let k = choose|k: int| 0 <= k < init.len() && init[k] == ri[i];
                assert(s[k] == ri[i]);
            }
        }
        assert forall|x: PartitionInfo| #[trigger] r.contains(x) <==> s.contains(x) || x == p by {
            lemma_contains_push(ri, s.last(), x);
            lemma_contains_push(init, s.last(), x);
            assert(init.push(s.last()) =~= s);
        }
    } else {
        assert forall|x: PartitionInfo| #[trigger] r.contains(x) <==> s.contains(x) || x == p by {
            lemma_contains_push(s, p, x);
        }
        assert forall|i: int, j: int| 0 <= i < j < r.len() implies (
        #[trigger] r[i]).starting_offset <= (#[trigger] r[j]).starting_offset by {
            if j == s.len() {
                assert(s[i].starting_offset <= s[s.len() - 1].starting_offset);
            }
        }
    }
}

proof fn lemma_contains_push(s: Seq<PartitionInfo>, a: PartitionInfo, x: PartitionInfo)
    ensures
        s.push(a).contains(x) <==> s.contains(x) || x == a,
{
    let r = s.push(a);
    if s.contains(x) {
        let i = choose|i: int| 0 <= i < s.len() && s[i] == x;
        assert(r[i] == x);
    }
    if x == a {
        assert(r[s.len() as int] == x);
    }
    if r.contains(x) && x != a {
        let i = choose|i: int| 0 <= i < r.len() && r[i] == x;
        assert(s[i] == x);
    }
}

proof fn lemma_by_offset(parts: Seq<PartitionInfo>)
    ensures
        in_order(by_offset(parts)),
        forall|x: PartitionInfo|
            #[trigger] by_offset(parts).contains(x) <==> parts.contains(x) && x.in_use(),
    decreases parts.len(),
{
    if parts.len() > 0 {
        let init = parts.drop_last();
        lemma_by_offset(init);
        if parts.last().in_use() {
            lemma_insert_in_order(by_offset(init), parts.last());
        }
        assert forall|x: PartitionInfo|
            #[trigger] by_offset(parts).contains(x) <==> parts.contains(x) && x.in_use() by {
            lemma_contains_push(init, parts.last(), x);
            assert(init.push(parts.last()) =~= parts);
        }
    }
}

proof fn lemma_insert_keeps_order_of_equals(s: Seq<PartitionInfo>, p: PartitionInfo, offset: u64)
    requires
        in_order(s),
        p.in_use(),
    ensures
        starting_at(insert_by_offset(s, p), offset) == if p.starting_offset == offset {
            starting_at(s, offset).push(p)
        } else {
            starting_at(s, offset)
        },
    decreases s.len(),
{
    if s.len() > 0 && s.last().starting_offset > p.starting_offset {
        let init = s.drop_last();
        assert(in_order(init));
        lemma_insert_keeps_order_of_equals(init, p, offset);
        let ri = insert_by_offset(init, p);
        assert(ri.push(s.last()).drop_last() =~= ri);
        if p.starting_offset == offset {
            assert(starting_at(s, offset) == starting_at(init, offset));
        }
    } else {
        assert(s.push(p).drop_last() =~= s);
    }
}

proof fn lemma_by_offset_keeps_order_of_equals(parts: Seq<PartitionInfo>, offset: u64)
    ensures
        starting_at(by_offset(parts), offset) == starting_at(parts, offset),
    decreases parts.len(),
{
    if parts.len() > 0 {
        let init = parts.drop_last();
        lemma_by_offset_keeps_order_of_equals(init, offset);
        lemma_by_offset(init);
        if parts.last().in_use() {
            lemma_insert_keeps_order_of_equals(by_offset(init), parts.last(), offset);
        }
    }
}

/// The partitions of the diagram are those that hold data, in the order of
/// their starting offsets; those that start at one offset keep their order.
pub proof fn law_partitions_are_sorted(parts: Seq<PartitionInfo>)
    ensures
        in_order(by_offset(parts)),
        forall|x: PartitionInfo|
            #[trigger] by_offset(parts).contains(x) <==> parts.contains(x) && x.in_use(),
        forall|offset: u64|
            #[trigger] starting_at(by_offset(parts), offset) == starting_at(parts, offset),
{
    lemma_by_offset(parts);
    assert forall|offset: u64|
        #[trigger] starting_at(by_offset(parts), offset) == starting_at(parts, offset) by {
        lemma_by_offset_keeps_order_of_equals(parts, offset);
    }
}

/// One of the partitions ends where the other starts, or before.
pub open spec fn disjoint(a: PartitionInfo, b: PartitionInfo) -> bool {
    a.end() <= b.starting_offset || b.end() <= a.starting_offset
}

/// The partitions that hold data lie between the two GPT areas and do not
/// overlap.
pub open spec fn tidy(disk_length: int, parts: Seq<PartitionInfo>) -> bool {
    &&& disk_length >= 2 * GPT_SIZE
    &&& forall|i: int|
        0 <= i < parts.len() && (#[trigger] parts[i]).in_use() ==> GPT_SIZE
            <= parts[i].starting_offset && parts[i].end() <= backup_start(disk_length)
    &&& forall|i: int, j: int|
        0 <= i < j < parts.len() && (#[trigger] parts[i]).in_use() && (
        #[trigger] parts[j]).in_use() ==> disjoint(parts[i], parts[j])
}

/// Each partition ends where the next one starts, or before.
spec fn ascending(s: Seq<PartitionInfo>) -> bool {
    &&& forall|i: int| 0 <= i < s.len() ==> (#[trigger] s[i]).in_use()
    &&& forall|i: int, j: int|
        0 <= i < j < s.len() ==> (#[trigger] s[i]).end() <= (#[trigger] s[j]).starting_offset
}

proof fn lemma_insert_ascending(s: Seq<PartitionInfo>, p: PartitionInfo)
    requires
        ascending(s),
        p.in_use(),
        forall|i: int| 0 <= i < s.len() ==> disjoint(#[trigger] s[i], p),
    ensures
        ascending(insert_by_offset(s, p)),
        forall|x: PartitionInfo| #[trigger] insert_by_offset(s, p).contains(x) <==> s.contains(x) || x == p,
    decreases s.len(),
{
    assert(in_order(s)) by {
        assert forall|i: int, j: int| 0 <= i < j < s.len() implies (
        #[trigger] s[i]).starting_offset <= (#[trigger] s[j]).starting_offset by {
            assert(s[i].end() <= s[j].starting_offset);
        }
    }
    lemma_insert_in_order(s, p);
    let r = insert_by_offset(s, p);
    if s.len() > 0 && s.last().starting_offset > p.starting_offset {
        let init = s.drop_last();
        let ri = insert_by_offset(init, p);
        assert(ascending(init));
        assert forall|i: int| 0 <= i < init.len() implies disjoint(#[trigger] init[i], p) by {
            assert(init[i] == s[i]);
        }
        lemma_insert_ascending(init, p);
        assert forall|i: int, j: int| 0 <= i < j < r.len() implies (#[trigger] r[i]).end() <= (
        #[trigger] r[j]).starting_offset by {
            if j == ri.len() {
                assert(ri.contains(ri[i]));
                if ri[i] != p {
                    let k = choose|k: int| 0 <= k < init.len() && init[k] == ri[i];
                    assert(s[k] == ri[i]);
                    assert(s[k].end() <= s[s.len() - 1].starting_offset);
                } else {
                    assert(disjoint(s[s.len() - 1], p));
                }
            }
        }
    } else {
        assert forall|i: int, j: int| 0 <= i < j < r.len() implies (#[trigger] r[i]).end() <= (
        #[trigger] r[j]).starting_offset by {
            if j == s.len() {
                assert(disjoint(s[i], p));
                if i < s.len() - 1 {
                    assert(s[i].end() <= s[s.len() - 1].starting_offset);
                }
            }
        }
    }
}

proof fn lemma_tidy_is_ascending(disk_length: int, parts: Seq<PartitionInfo>)
    requires
        tidy(disk_length, parts),
    ensures
        ascending(by_offset(parts)),
        forall|x: PartitionInfo|
            #[trigger] by_offset(parts).contains(x) <==> parts.contains(x) && x.in_use(),
    decreases parts.len(),
{
    lemma_by_offset(parts);
    if parts.len() > 0 {
        let init = parts.drop_last();
        assert(tidy(disk_length, init)) by {
            assert forall|i: int, j: int|
                0 <= i < j < init.len() && (#[trigger] init[i]).in_use() && (
                #[trigger] init[j]).in_use() implies disjoint(init[i], init[j]) by {
                assert(init[i] == parts[i] && init[j] == parts[j]);
            }
            assert forall|i: int| 0 <= i < init.len() && (#[trigger] init[i]).in_use() implies GPT_SIZE
                <= init[i].starting_offset && init[i].end() <= backup_start(disk_length) by {
                assert(init[i] == parts[i]);
            }
        }
        lemma_tidy_is_ascending(disk_length, init);
        let p = parts.last();
        if p.in_use() {
            let s = by_offset(init);
            assert forall|i: int| 0 <= i < s.len() implies disjoint(#[trigger] s[i], p) by {
                assert(s.contains(s[i]));
                let k = choose|k: int| 0 <= k < init.len() && init[k] == s[i];
                assert(parts[k] == s[i] && parts[parts.len() - 1] == p);
            }
            lemma_insert_ascending(s, p);
        }
    }
}

/// Each region starts where the one before it ends, and none is empty.
pub open spec fn contiguous(rs: Seq<RegionView>) -> bool {
    &&& forall|i: int| 0 <= i < rs.len() ==> (#[trigger] rs[i]).start < rs[i].end
    &&& forall|i: int, j: int|
        0 <= i && j == i + 1 && j < rs.len() ==> (#[trigger] rs[i]).end == (#[trigger] rs[j]).start
}

/// What the regions of the first partitions look like on a tidy disk.
spec fn filled(r: Regions) -> bool {
    &&& r.regions.len() > 0
    &&& r.regions[0].start == 0
    &&& r.regions.last().end == r.pos
    &&& contiguous(r.regions)
}

proof fn lemma_push_region(r: Regions, region: RegionView)
    requires
        filled(r),
        region.start == r.pos,
        region.start < region.end,
    ensures
        filled(Regions { regions: r.regions.push(region), pos: region.end }),
{
    let rs = r.regions.push(region);
    assert forall|i: int, j: int| 0 <= i && j == i + 1 && j < rs.len() implies (#[trigger] rs[i]).end
        == (#[trigger] rs[j]).start by {
        if j < r.regions.len() {
            assert(rs[i] == r.regions[i] && rs[j] == r.regions[j]);
        }
    }
}

proof fn lemma_leading_filled(sorted: Seq<PartitionInfo>, shadows: Set<u64>, backup: int)
    requires
        ascending(sorted),
        forall|i: int|
            0 <= i < sorted.len() ==> GPT_SIZE <= (#[trigger] sorted[i]).starting_offset
                && sorted[i].end() <= backup,
    ensures
        filled(leading_regions(sorted, shadows, backup)),
        leading_regions(sorted, shadows, backup).pos == if sorted.len() > 0 {
            sorted.last().end()
        } else {
            GPT_SIZE as int
        },
    decreases sorted.len(),
{
    if sorted.len() > 0 {
        let init = sorted.drop_last();
        let p = sorted.last();
        assert(ascending(init));
        lemma_leading_filled(init, shadows, backup);
        let r = leading_regions(init, shadows, backup);
        assert(p == sorted[sorted.len() - 1]);
        if init.len() > 0 {
            assert(sorted[init.len() - 1].end() <= sorted[sorted.len() - 1].starting_offset);
        }
        let end = min(p.starting_offset as int, backup);
        if r.pos < end {
            lemma_push_region(r, crate::diagram::gap_region(r.pos, end));
        }
        lemma_push_region(r.with_gap(end), partition_region(p, shadows));
    }
}

proof fn lemma_tidy_bounds(disk_length: int, parts: Seq<PartitionInfo>)
    requires
        tidy(disk_length, parts),
    ensures
        ascending(by_offset(parts)),
        forall|i: int|
            0 <= i < by_offset(parts).len() ==> GPT_SIZE <= (#[trigger] by_offset(
                parts,
            )[i]).starting_offset && by_offset(parts)[i].end() <= backup_start(disk_length),
        forall|x: PartitionInfo|
            #[trigger] by_offset(parts).contains(x) <==> parts.contains(x) && x.in_use(),
{
    lemma_tidy_is_ascending(disk_length, parts);
    let s = by_offset(parts);
    assert forall|i: int| 0 <= i < s.len() implies GPT_SIZE <= (#[trigger] s[i]).starting_offset
        && s[i].end() <= backup_start(disk_length) by {
        assert(s.contains(s[i]));
        let k = choose|k: int| 0 <= k < parts.len() && parts[k] == s[i];
        assert(parts[k].in_use());
    }
}

/// On a disk whose partitions lie between the GPT areas and do not overlap,
/// the regions of the diagram fill the disk: the first starts at its start,
/// each starts where the one before it ends, and the last ends at its end.
pub proof fn law_diagram_fills_disk(
    disk_length: int,
    parts: Seq<PartitionInfo>,
    shadows: Set<u64>,
)
    requires
        tidy(disk_length, parts),
    ensures
        diagram(disk_length, parts, shadows).len() > 0,
        diagram(disk_length, parts, shadows)[0].start == 0,
        contiguous(diagram(disk_length, parts, shadows)),
        diagram(disk_length, parts, shadows).last().end == disk_length,
{
    lemma_tidy_bounds(disk_length, parts);
    let backup = backup_start(disk_length);
    lemma_leading_filled(by_offset(parts), shadows, backup);
    let r = leading_regions(by_offset(parts), shadows, backup);
    let sorted = by_offset(parts);
    if sorted.len() > 0 {
        assert(sorted[sorted.len() - 1].end() <= backup);
    }
    if r.pos < backup {
        lemma_push_region(r, crate::diagram::gap_region(r.pos, backup));
    }
    lemma_push_region(r.with_gap(backup), crate::diagram::backup_region(disk_length));
}

/// The source of a region is that of a byte of the image.
pub open spec fn same_source(d: RegionSource, c: ChunkSource) -> bool {
    match d {
        RegionSource::GptPrimary => c is PrimaryGpt,
        RegionSource::GptBackup => c is BackupGpt,
        RegionSource::Gap => c is Gap,
        RegionSource::PartitionShadow { partition_num } => c is Shadow && c->Shadow_number
            == partition_num,
        RegionSource::PartitionRaw { partition_num } => c is Raw && c->Raw_number == partition_num,
    }
}

/// The region shows where all its bytes come from.
spec fn truthful(cfg: ImageConfig, r: RegionView) -> bool {
    forall|p: int| r.start <= p < r.end ==> same_source(r.source, #[trigger] cfg.source_at(p))
}

/// Every shadow copy that starts in a partition starts where the partition
/// does.
pub open spec fn shadows_at_starts(parts: Seq<PartitionInfo>, shadows: Set<u64>) -> bool {
    forall|i: int, k: u64|
        0 <= i < parts.len() && (#[trigger] parts[i]).covers(k as int) && #[trigger] shadows.contains(
            k,
        ) ==> k == parts[i].starting_offset
}

proof fn lemma_only_covering(cfg: ImageConfig, q: PartitionInfo, p: int)
    requires
        tidy(cfg.disk_length, cfg.partitions),
        cfg.partitions.contains(q),
        q.covers(p),
    ensures
        first_covering(cfg.partitions, p) == Some(q),
{
    let parts = cfg.partitions;
    lemma_first_covering_covers(parts, p);
    lemma_covering_exists(parts, q, p);
    let f = first_covering(parts, p)->0;
    let i = choose|i: int| 0 <= i < parts.len() && parts[i] == q;
    let j = choose|j: int| 0 <= j < parts.len() && parts[j] == f;
    if i < j {
        assert(disjoint(parts[i], parts[j]));
    } else if j < i {
        assert(disjoint(parts[j], parts[i]));
    }
}

proof fn lemma_covering_exists(parts: Seq<PartitionInfo>, q: PartitionInfo, p: int)
    requires
        parts.contains(q),
        q.covers(p),
    ensures
        first_covering(parts, p) is Some,
    decreases parts.len(),
{
    let init = parts.drop_last();
    assert(init.push(parts.last()) =~= parts);
    lemma_contains_push(init, parts.last(), q);
    if init.contains(q) {
        lemma_covering_exists(init, q, p);
    }
}

/// Between two neighbours in the order of the offsets there is a gap.
proof fn lemma_gap_is_truthful(cfg: ImageConfig, k: int, start: int, end: int)
    requires
        tidy(cfg.disk_length, cfg.partitions),
        0 <= k <= by_offset(cfg.partitions).len(),
        GPT_SIZE <= start,
        end <= cfg.backup_start(),
        k > 0 ==> by_offset(cfg.partitions)[k - 1].end() <= start,
        k < by_offset(cfg.partitions).len() ==> end <= by_offset(
            cfg.partitions,
        )[k].starting_offset,
    ensures
        truthful(cfg, crate::diagram::gap_region(start, end)),
{
    let sorted = by_offset(cfg.partitions);
    lemma_tidy_bounds(cfg.disk_length, cfg.partitions);
    assert forall|p: int| start <= p < end implies same_source(
        RegionSource::Gap,
        #[trigger] cfg.source_at(p),
    ) by {
        lemma_first_covering_covers(cfg.partitions, p);
        if let Some(q) = first_covering(cfg.partitions, p) {
            assert(sorted.contains(q));
            let i = choose|i: int| 0 <= i < sorted.len() && sorted[i] == q;
            if i < k - 1 {
                assert(sorted[i].end() <= sorted[k - 1].starting_offset);
            } else if i > k {
                assert(sorted[k].end() <= sorted[i].starting_offset);
            }
        }
    }
}

proof fn lemma_partition_is_truthful(cfg: ImageConfig, q: PartitionInfo)
    requires
        tidy(cfg.disk_length, cfg.partitions),
        cfg.excluded == Set::<u32>::empty(),
        shadows_at_starts(cfg.partitions, cfg.shadows.dom()),
        cfg.partitions.contains(q),
        q.in_use(),
    ensures
        truthful(cfg, partition_region(q, cfg.shadows.dom())),
{
    let r = partition_region(q, cfg.shadows.dom());
    let k = choose|k: int| 0 <= k < cfg.partitions.len() && cfg.partitions[k] == q;
    assert(cfg.partitions[k].in_use());
    let shadows = cfg.shadows.dom();
    assert(has_shadow(q, shadows) <==> cfg.shadows.contains_key(q.starting_offset)) by {
        if has_shadow(q, shadows) {
            let s = choose|s: u64| #[trigger]
                shadows.contains(s) && q.starting_offset <= s < q.end();
            assert(cfg.partitions[k].covers(s as int));
        }
        if cfg.shadows.contains_key(q.starting_offset) {
            assert(shadows.contains(q.starting_offset));
        }
    }
    assert forall|p: int| r.start <= p < r.end implies same_source(
        r.source,
        #[trigger] cfg.source_at(p),
    ) by {
        lemma_only_covering(cfg, q, p);
    }
}

spec fn all_truthful(cfg: ImageConfig, rs: Seq<RegionView>) -> bool {
    forall|i: int| 0 <= i < rs.len() ==> truthful(cfg, #[trigger] rs[i])
}

proof fn lemma_leading_truthful(cfg: ImageConfig, k: int)
    requires
        tidy(cfg.disk_length, cfg.partitions),
        cfg.excluded == Set::<u32>::empty(),
        shadows_at_starts(cfg.partitions, cfg.shadows.dom()),
        0 <= k <= by_offset(cfg.partitions).len(),
    ensures
        all_truthful(
            cfg,
            leading_regions(
                by_offset(cfg.partitions).take(k),
                cfg.shadows.dom(),
                cfg.backup_start(),
            ).regions,
        ),
        leading_regions(
            by_offset(cfg.partitions).take(k),
            cfg.shadows.dom(),
            cfg.backup_start(),
        ).pos == if k > 0 {
            by_offset(cfg.partitions)[k - 1].end()
        } else {
            GPT_SIZE as int
        },
    decreases k,
{
    let sorted = by_offset(cfg.partitions);
    let backup = cfg.backup_start();
    lemma_tidy_bounds(cfg.disk_length, cfg.partitions);
    if k == 0 {
        assert(truthful(cfg, crate::diagram::primary_region()));
    } else {
        lemma_leading_truthful(cfg, k - 1);
        assert(sorted.take(k).drop_last() =~= sorted.take(k - 1));
        let p = sorted[k - 1];
        assert(sorted.contains(p));
        let r = leading_regions(sorted.take(k - 1), cfg.shadows.dom(), backup);
        let end = min(p.starting_offset as int, backup);
        if r.pos < end {
            lemma_gap_is_truthful(cfg, k - 1, r.pos, end);
        }
        assert(all_truthful(cfg, r.with_gap(end).regions));
        lemma_partition_is_truthful(cfg, p);
        if k > 1 {
            assert(sorted[k - 2].end() <= sorted[k - 1].starting_offset);
        }
    }
}

/// On a disk whose partitions lie between the GPT areas and do not overlap,
/// with shadow copies of whole partitions and nothing left out, the diagram
/// shows for every byte of the image where it comes from.
pub proof fn law_diagram_shows_image(cfg: ImageConfig, i: int, p: int)
    requires
        tidy(cfg.disk_length, cfg.partitions),
        cfg.excluded == Set::<u32>::empty(),
        shadows_at_starts(cfg.partitions, cfg.shadows.dom()),
        ({
            let rs = diagram(cfg.disk_length, cfg.partitions, cfg.shadows.dom());
            0 <= i < rs.len() && rs[i].start <= p < rs[i].end
        }),
    ensures
        same_source(
            diagram(cfg.disk_length, cfg.partitions, cfg.shadows.dom())[i].source,
            cfg.source_at(p),
        ),
{
    let sorted = by_offset(cfg.partitions);
    let backup = cfg.backup_start();
    let n = sorted.len() as int;
    lemma_tidy_bounds(cfg.disk_length, cfg.partitions);
    lemma_leading_truthful(cfg, n);
    assert(sorted.take(n) =~= sorted);
    let r = leading_regions(sorted, cfg.shadows.dom(), backup);
    if r.pos < backup {
        lemma_gap_is_truthful(cfg, n, r.pos, backup);
    }
    assert(all_truthful(cfg, r.with_gap(backup).regions));
    assert(truthful(cfg, crate::diagram::backup_region(cfg.disk_length)));
    let rs = diagram(cfg.disk_length, cfg.partitions, cfg.shadows.dom());
    assert(truthful(cfg, rs[i]));
}

/// Two table entries stand for the same partition: number, starting offset
/// and length are the same.
pub open spec fn same_partition(p: PartitionInfo, q: PartitionInfo) -> bool {
    &&& p.partition_number == q.partition_number
    &&& p.starting_offset == q.starting_offset
    &&& p.partition_length == q.partition_length
}

/// Each partition of `a` that holds data is one of `b` that does.
#[verifier::opaque]
pub open spec fn partitions_among(a: Seq<PartitionInfo>, b: Seq<PartitionInfo>) -> bool {
    forall|i: int|
        0 <= i < a.len() && (#[trigger] a[i]).in_use() ==> exists|j: int|
            0 <= j < b.len() && (#[trigger] b[j]).in_use() && same_partition(a[i], b[j])
}

proof fn lemma_partner(a: Seq<PartitionInfo>, b: Seq<PartitionInfo>, i: int) -> (j: int)
    requires
        partitions_among(a, b),
        0 <= i < a.len(),
        a[i].in_use(),
    ensures
        0 <= j < b.len(),
        b[j].in_use(),
        same_partition(a[i], b[j]),
{
    reveal(partitions_among);
    choose|j: int| 0 <= j < b.len() && (#[trigger] b[j]).in_use() && same_partition(a[i], b[j])
}

/// No two partitions that hold data start at the same offset.
pub open spec fn distinct_offsets(s: Seq<PartitionInfo>) -> bool {
    forall|i: int, j: int|
        0 <= i < j < s.len() && (#[trigger] s[i]).in_use() && (#[trigger] s[j]).in_use()
            ==> s[i].starting_offset != s[j].starting_offset
}

/// The starting offsets rise.
spec fn rising(s: Seq<PartitionInfo>) -> bool {
    &&& forall|i: int| 0 <= i < s.len() ==> (#[trigger] s[i]).in_use()
    &&& forall|i: int, j: int|
        0 <= i < j < s.len() ==> (#[trigger] s[i]).starting_offset < (
        #[trigger] s[j]).starting_offset
}

proof fn lemma_sorted_rising(parts: Seq<PartitionInfo>)
    requires
        distinct_offsets(parts),
    ensures
        rising(by_offset(parts)),
    decreases parts.len(),
{
    if parts.len() > 0 {
        let init = parts.drop_last();
        let p = parts.last();
        assert(distinct_offsets(init)) by {
            assert forall|i: int, j: int|
                0 <= i < j < init.len() && (#[trigger] init[i]).in_use() && (
                #[trigger] init[j]).in_use() implies init[i].starting_offset
                != init[j].starting_offset by {
                assert(init[i] == parts[i] && init[j] == parts[j]);
            }
        }
        lemma_sorted_rising(init);
        lemma_by_offset(init);
        if p.in_use() {
            let s = by_offset(init);
            assert forall|i: int| 0 <= i < s.len() implies (#[trigger] s[i]).starting_offset
                != p.starting_offset by {
                assert(s.contains(s[i]));
                let k = choose|k: int| 0 <= k < init.len() && init[k] == s[i];
                assert(parts[k] == s[i] && parts[parts.len() - 1] == p);
            }
            lemma_insert_rising(s, p);
        }
    }
}

proof fn lemma_insert_rising(s: Seq<PartitionInfo>, p: PartitionInfo)
    requires
        rising(s),
        p.in_use(),
        forall|i: int|
            0 <= i < s.len() ==> (#[trigger] s[i]).starting_offset != p.starting_offset,
    ensures
        rising(insert_by_offset(s, p)),
    decreases s.len(),
{
    assert(in_order(s));
    lemma_insert_in_order(s, p);
    let r = insert_by_offset(s, p);
    if s.len() > 0 && s.last().starting_offset > p.starting_offset {
        let init = s.drop_last();
        let ri = insert_by_offset(init, p);
        assert(rising(init));
        assert(in_order(init));
        assert forall|i: int| 0 <= i < init.len() implies (#[trigger] init[i]).starting_offset
            != p.starting_offset by {
            assert(init[i] == s[i]);
        }
        lemma_insert_rising(init, p);
        lemma_insert_in_order(init, p);
        assert forall|i: int, j: int| 0 <= i < j < r.len() implies (
        #[trigger] r[i]).starting_offset < (#[trigger] r[j]).starting_offset by {
            if j == ri.len() {
                assert(ri.contains(ri[i]));
                if ri[i] != p {
                    let k = choose|k: int| 0 <= k < init.len() && init[k] == ri[i];
                    assert(s[k] == ri[i]);
                    assert(s[k].starting_offset < s[s.len() - 1].starting_offset);
                }
            }
        }
    } else {
        assert forall|i: int, j: int| 0 <= i < j < r.len() implies (
        #[trigger] r[i]).starting_offset < (#[trigger] r[j]).starting_offset by {
            if j == s.len() {
                assert(s[i].starting_offset <= s[s.len() - 1].starting_offset);
                assert(s[s.len() - 1].starting_offset != p.starting_offset);
            }
        }
    }
}

proof fn lemma_sorted_among(a: Seq<PartitionInfo>, b: Seq<PartitionInfo>)
    requires
        partitions_among(a, b),
    ensures
        partitions_among(by_offset(a), by_offset(b)),
{
    lemma_by_offset(a);
    lemma_by_offset(b);
    reveal(partitions_among);
    let s = by_offset(a);
    let t = by_offset(b);
    assert forall|i: int| 0 <= i < s.len() && (#[trigger] s[i]).in_use() implies exists|j: int|
        0 <= j < t.len() && (#[trigger] t[j]).in_use() && same_partition(s[i], t[j]) by {
        assert(s.contains(s[i]));
        let k = choose|k: int| 0 <= k < a.len() && a[k] == s[i];
        assert(a[k].in_use());
        let l = lemma_partner(a, b, k);
        assert(b.contains(b[l]));
        assert(t.contains(b[l]));
        let j = choose|j: int| 0 <= j < t.len() && t[j] == b[l];
        assert(t[j].in_use() && same_partition(s[i], t[j]));
    }
}

/// Without the last of each, the partitions of one rising sequence are still
/// those of the other.
proof fn lemma_among_without_last(s: Seq<PartitionInfo>, t: Seq<PartitionInfo>)
    requires
        rising(s),
        s.len() > 0,
        t.len() > 0,
        partitions_among(s, t),
        same_partition(s.last(), t.last()),
    ensures
        partitions_among(s.drop_last(), t.drop_last()),
{
    reveal(partitions_among);
    let si = s.drop_last();
    let ti = t.drop_last();
    assert forall|i: int| 0 <= i < si.len() && (#[trigger] si[i]).in_use() implies exists|j: int|
        0 <= j < ti.len() && (#[trigger] ti[j]).in_use() && same_partition(si[i], ti[j]) by {
        assert(si[i] == s[i]);
        let j = lemma_partner(s, t, i);
        assert(s[i].starting_offset < s[s.len() - 1].starting_offset);
        assert(ti[j] == t[j]);
    }
}

proof fn lemma_same_leading_regions(
    s: Seq<PartitionInfo>,
    t: Seq<PartitionInfo>,
    shadows: Set<u64>,
    backup: int,
)
    requires
        rising(s),
        rising(t),
        partitions_among(s, t),
        partitions_among(t, s),
    ensures
        leading_regions(s, shadows, backup) == leading_regions(t, shadows, backup),
    decreases s.len(),
{
    if s.len() == 0 || t.len() == 0 {
        if s.len() > 0 {
            lemma_partner(s, t, 0);
        }
        if t.len() > 0 {
            lemma_partner(t, s, 0);
        }
    } else {
        let m = s.len() - 1;
        let n = t.len() - 1;
        let j = lemma_partner(s, t, m);
        let i = lemma_partner(t, s, n);
        if j < n {
            assert(t[j].starting_offset < t[n].starting_offset);
            if i < m {
                assert(s[i].starting_offset < s[m].starting_offset);
            }
        }
        assert(same_partition(s.last(), t.last()));
        assert(rising(s.drop_last()));
        assert(rising(t.drop_last()));
        lemma_among_without_last(s, t);
        lemma_among_without_last(t, s);
        lemma_same_leading_regions(s.drop_last(), t.drop_last(), shadows, backup);
        let p = s.last();
        let q = t.last();
        assert(has_shadow(p, shadows) == has_shadow(q, shadows));
        assert(partition_region(p, shadows) == partition_region(q, shadows));
    }
}

/// The order of a partition table, its entries that hold no data, and the
/// volumes that its entries name have no influence on the diagram: tables with
/// the same partitions, of which no two start at one offset, give the same
/// diagram.
pub proof fn law_diagram_is_of_partitions(
    disk_length: int,
    a: Seq<PartitionInfo>,
    b: Seq<PartitionInfo>,
    shadows: Set<u64>,
)
    requires
        distinct_offsets(a),
        distinct_offsets(b),
        partitions_among(a, b),
        partitions_among(b, a),
    ensures
        diagram(disk_length, a, shadows) == diagram(disk_length, b, shadows),
{
    lemma_sorted_rising(a);
    lemma_sorted_rising(b);
    lemma_sorted_among(a, b);
    lemma_sorted_among(b, a);
    lemma_same_leading_regions(by_offset(a), by_offset(b), shadows, backup_start(disk_length));
}

} // verus!

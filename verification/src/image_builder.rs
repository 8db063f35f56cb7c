//! Assembles a full disk image from GPT areas and partition data.
//!
//! The image keeps every byte at the offset that it has on the disk: GPT
//! areas, partitions and the gaps between them are written one after the
//! other, so that the image has the layout of the source disk.

use std::collections::{HashMap, HashSet};

use vstd::prelude::*;

use crate::diagram::{build_diagram_regions, diagram, views, DiagramRegion};
use crate::disk::{DiskLayout, PartitionInfo, GPT_SIZE, SECTOR_SIZE};

verus! {

broadcast use vstd::std_specs::hash::group_hash_axioms;

/// Where the bytes of a chunk of the image come from.
#[derive(Debug, Clone, Copy, PartialEq, Eq, Structural)]
pub enum ChunkSource {
    /// The GPT area at the start of the disk.
    PrimaryGpt,
    /// The GPT area at the end of the disk.
    BackupGpt,
    /// No partition: zeros.
    Gap,
    /// A partition that is left out of the image: zeros.
    Excluded { number: u32 },
    /// A partition that has a shadow copy.
    Shadow { number: u32, start: u64 },
    /// A partition that is read from the disk itself.
    Raw { number: u32, start: u64 },
}

/// What decides the content of an image.
pub struct ImageConfig {
    pub disk_number: u32,
    pub disk_length: int,
    pub partitions: Seq<PartitionInfo>,
    /// Shadow copy device paths, by the starting offset of the partition.
    pub shadows: Map<u64, String>,
    pub buffer_size: int,
    /// Numbers of the partitions that are left out.
    pub excluded: Set<u32>,
}

/// The first of the partitions that covers `pos`.
pub open spec fn first_covering(parts: Seq<PartitionInfo>, pos: int) -> Option<PartitionInfo>
    decreases parts.len(),
{
    if parts.len() == 0 {
        None
    } else {
        match first_covering(parts.drop_last(), pos) {
            Some(p) => Some(p),
            None => if parts.last().covers(pos) {
                Some(parts.last())
            } else {
                None
            },
        }
    }
}

/// The nearest of `limit` and the boundaries of `p` that lie behind `pos`.
pub open spec fn boundary_after(p: PartitionInfo, pos: int, limit: int) -> int {
    let edge = if pos < p.starting_offset {
        p.starting_offset as int
    } else {
        p.end()
    };
    if p.in_use() && pos < edge < limit {
        edge
    } else {
        limit
    }
}

/// The nearest of `limit` and all partition boundaries that lie behind `pos`.
pub open spec fn nearest_boundary(parts: Seq<PartitionInfo>, pos: int, limit: int) -> int
    decreases parts.len(),
{
    if parts.len() == 0 {
        limit
    } else {
        boundary_after(parts.last(), pos, nearest_boundary(parts.drop_last(), pos, limit))
    }
}

pub open spec fn min(a: int, b: int) -> int {
    if a < b {
        a
    } else {
        b
    }
}

impl ImageConfig {
    /// The offsets of the disk and of its partitions fit in 64 bits, also
    /// behind a full buffer, and the buffer holds a sector.
    pub open spec fn valid(self) -> bool {
        &&& 0 <= self.disk_length <= u64::MAX
        &&& SECTOR_SIZE <= self.buffer_size <= usize::MAX
        &&& self.disk_length > 0 ==> self.disk_length - 1 + self.buffer_size <= u64::MAX
        &&& crate::disk::ends_fit(self.partitions)
    }

    pub open spec fn backup_start(self) -> int {
        crate::disk::backup_start(self.disk_length)
    }

    /// Where the byte at offset `pos` of the image comes from.
    pub open spec fn source_at(self, pos: int) -> ChunkSource {
        if pos < GPT_SIZE {
            ChunkSource::PrimaryGpt
        } else if pos >= self.backup_start() {
            ChunkSource::BackupGpt
        } else {
            match first_covering(self.partitions, pos) {
                None => ChunkSource::Gap,
                Some(p) => if self.excluded.contains(p.partition_number) {
                    ChunkSource::Excluded { number: p.partition_number }
                } else if self.shadows.contains_key(p.starting_offset) {
                    ChunkSource::Shadow { number: p.partition_number, start: p.starting_offset }
                } else {
                    ChunkSource::Raw { number: p.partition_number, start: p.starting_offset }
                },
            }
        }
    }

    /// Where the chunk that begins at `pos` ends: a buffer further, or earlier
    /// where the disk, a GPT area or a partition begins or ends.
    pub open spec fn chunk_end(self, pos: int) -> int {
        let limit = min(pos + self.buffer_size, self.disk_length);
        if pos < GPT_SIZE {
            min(limit, GPT_SIZE as int)
        } else if pos >= self.backup_start() {
            limit
        } else {
            min(nearest_boundary(self.partitions, pos, limit), self.backup_start())
        }
    }
}

pub proof fn lemma_nearest_boundary(parts: Seq<PartitionInfo>, pos: int, limit: int)
    requires
        pos < limit,
    ensures
        pos < nearest_boundary(parts, pos, limit) <= limit,
        forall|i: int|
            0 <= i < parts.len() && (#[trigger] parts[i]).in_use() ==> {
                let e = nearest_boundary(parts, pos, limit);
                &&& pos < parts[i].starting_offset ==> e <= parts[i].starting_offset
                &&& pos < parts[i].end() && parts[i].starting_offset <= pos ==> e <= parts[i].end()
            },
    decreases parts.len(),
{
    if parts.len() > 0 {
        let init = parts.drop_last();
        lemma_nearest_boundary(init, pos, limit);
        assert forall|i: int| 0 <= i < parts.len() && (#[trigger] parts[i]).in_use() implies {
            let e = nearest_boundary(parts, pos, limit);
            &&& pos < parts[i].starting_offset ==> e <= parts[i].starting_offset
            &&& pos < parts[i].end() && parts[i].starting_offset <= pos ==> e <= parts[i].end()
        } by {
            if i < init.len() {
                assert(init[i] == parts[i]);
            }
        }
    }
}

proof fn lemma_first_covering_constant(parts: Seq<PartitionInfo>, pos: int, p: int)
    requires
        forall|i: int|
            0 <= i < parts.len() ==> (#[trigger] parts[i]).covers(pos) == parts[i].covers(p),
    ensures
        first_covering(parts, pos) == first_covering(parts, p),
    decreases parts.len(),
{
    if parts.len() > 0 {
        let init = parts.drop_last();
        assert forall|i: int| 0 <= i < init.len() implies (#[trigger] init[i]).covers(pos)
            == init[i].covers(p) by {
            assert(init[i] == parts[i]);
        }
        lemma_first_covering_constant(init, pos, p);
        assert(parts[parts.len() - 1].covers(pos) == parts[parts.len() - 1].covers(p));
    }
}

/// The partition that covers `pos` does cover it.
pub proof fn lemma_first_covering_covers(parts: Seq<PartitionInfo>, pos: int)
    ensures
        first_covering(parts, pos) matches Some(p) ==> p.covers(pos) && parts.contains(p),
    decreases parts.len(),
{
    if parts.len() > 0 {
        lemma_first_covering_covers(parts.drop_last(), pos);
        assert(parts.contains(parts.last())) by {
            assert(parts[parts.len() - 1] == parts.last());
        }
        if let Some(p) = first_covering(parts.drop_last(), pos) {
            let i = choose|i: int| 0 <= i < parts.drop_last().len() && parts.drop_last()[i] == p;
            assert(parts[i] == p);
        }
    }
}

/// A chunk lies in one region: all its bytes come from the same source.
pub proof fn law_chunk_has_one_source(cfg: ImageConfig, pos: int, p: int)
    requires
        cfg.valid(),
        0 <= pos < cfg.disk_length,
        pos <= p < cfg.chunk_end(pos),
    ensures
        cfg.source_at(p) == cfg.source_at(pos),
{
    let limit = min(pos + cfg.buffer_size, cfg.disk_length);
    lemma_nearest_boundary(cfg.partitions, pos, limit);
    if GPT_SIZE <= pos < cfg.backup_start() {
        let parts = cfg.partitions;
        assert forall|i: int| 0 <= i < parts.len() implies (#[trigger] parts[i]).covers(pos)
            == parts[i].covers(p) by {}
        lemma_first_covering_constant(parts, pos, p);
    }
}

/// Every position of the disk begins a chunk that is not empty, fits in the
/// buffer, and ends on the disk.
pub proof fn law_chunk_is_not_empty(cfg: ImageConfig, pos: int)
    requires
        cfg.valid(),
        0 <= pos < cfg.disk_length,
    ensures
        pos < cfg.chunk_end(pos) <= cfg.disk_length,
        cfg.chunk_end(pos) - pos <= cfg.buffer_size,
{
    let limit = min(pos + cfg.buffer_size, cfg.disk_length);
    lemma_nearest_boundary(cfg.partitions, pos, limit);
}

/// Builds a full bootable disk image.
pub struct ImageBuilder {
    pub disk_number: u32,
    pub layout: DiskLayout,
    pub shadow_map: HashMap<u64, String>,
    pub buffer_size: usize,
}

impl ImageBuilder {
    /// What decides the content of the image, with the given partitions left
    /// out.
    pub open spec fn config(self, excluded: Set<u32>) -> ImageConfig {
        ImageConfig {
            disk_number: self.disk_number,
            disk_length: self.layout.disk_length as int,
            partitions: self.layout.partitions@,
            shadows: self.shadow_map@,
            buffer_size: self.buffer_size as int,
            excluded,
        }
    }

    /// The first partition that covers `pos`.
    fn partition_at(&self, pos: u64) -> (r: Option<&PartitionInfo>)
        requires
            crate::disk::ends_fit(self.layout.partitions@),
        ensures
            match r {
                Some(p) => first_covering(self.layout.partitions@, pos as int) == Some(*p),
                None => first_covering(self.layout.partitions@, pos as int) is None,
            },
    {
        let parts = &self.layout.partitions;
        for i in 0..parts.len()
            invariant
                parts@ == self.layout.partitions@,
                crate::disk::ends_fit(parts@),
                first_covering(parts@.take(i as int), pos as int) is None,
        {
            proof {
                assert(parts@.take(i + 1).drop_last() =~= parts@.take(i as int));
            }
            let p = &parts[i];
            if p.is_used && p.partition_length > 0 && pos >= p.starting_offset && pos
                < p.starting_offset + p.partition_length {
                proof {
                    lemma_first_covering_prefix(parts@, i + 1, pos as int);
                }
                return Some(p);
            }
        }
        proof {
            assert(parts@.take(parts@.len() as int) =~= parts@);
        }
        None
    }

    /// Where the byte at offset `pos` of the image comes from.
    pub fn source_at(&self, pos: u64, excluded: Option<&HashSet<u32>>) -> (r: ChunkSource)
        requires
            crate::disk::ends_fit(self.layout.partitions@),
        ensures
            r == self.config(excluded_set(excluded)).source_at(pos as int),
    {
        if pos < GPT_SIZE {
            return ChunkSource::PrimaryGpt;
        }
        if pos >= self.backup_start() {
            return ChunkSource::BackupGpt;
        }
        match self.partition_at(pos) {
            None => ChunkSource::Gap,
            Some(p) => {
                let number = p.partition_number;
                let start = p.starting_offset;
                let left_out = match excluded {
                    Some(set) => set.contains(&number),
                    None => false,
                };
                if left_out {
                    ChunkSource::Excluded { number }
                } else if self.shadow_map.contains_key(&start) {
                    ChunkSource::Shadow { number, start }
                } else {
                    ChunkSource::Raw { number, start }
                }
            },
        }
    }

    fn backup_start(&self) -> (r: u64)
        ensures
            r == crate::disk::backup_start(self.layout.disk_length as int),
    {
        if self.layout.disk_length >= GPT_SIZE {
            self.layout.disk_length - GPT_SIZE
        } else {
            0
        }
    }

    /// Where the chunk of the image that begins at `pos` ends.
    pub fn chunk_end(&self, pos: u64) -> (r: u64)
        requires
            self.config(Set::empty()).valid(),
            pos < self.layout.disk_length,
        ensures
            r == self.config(Set::empty()).chunk_end(pos as int),
            pos < r <= self.layout.disk_length,
            r - pos <= self.buffer_size,
    {
        let ghost cfg = self.config(Set::empty());
        proof {
            law_chunk_is_not_empty(cfg, pos as int);
        }
        let mut end: u64 = pos + self.buffer_size as u64;
        if end > self.layout.disk_length {
            end = self.layout.disk_length;
        }
        if pos < GPT_SIZE {
            if end > GPT_SIZE {
                end = GPT_SIZE;
            }
            return end;
        }
        let backup = self.backup_start();
        if pos >= backup {
            return end;
        }
        let ghost limit = end as int;
        let parts = &self.layout.partitions;
        for i in 0..parts.len()
            invariant
                parts@ == self.layout.partitions@,
                crate::disk::ends_fit(parts@),
                end == nearest_boundary(parts@.take(i as int), pos as int, limit),
        {
            proof {
                assert(parts@.take(i + 1).drop_last() =~= parts@.take(i as int));
            }
            let p = &parts[i];
            if p.is_used && p.partition_length > 0 {
                let p_start = p.starting_offset;
                let p_end = p.starting_offset + p.partition_length;
                if pos < p_start && end > p_start {
                    end = p_start;
                }
                if pos >= p_start && pos < p_end && end > p_end {
                    end = p_end;
                }
            }
        }
        proof {
            assert(parts@.take(parts@.len() as int) =~= parts@);
        }
        if end > backup {
            end = backup;
        }
        end
    }
}

/// The partitions that an optional exclusion list leaves out.
pub open spec fn excluded_set(excluded: Option<&HashSet<u32>>) -> Set<u32> {
    match excluded {
        Some(set) => set@,
        None => Set::empty(),
    }
}

proof fn lemma_first_covering_prefix(parts: Seq<PartitionInfo>, n: int, pos: int)
    requires
        0 <= n <= parts.len(),
        first_covering(parts.take(n), pos) is Some,
    ensures
        first_covering(parts, pos) == first_covering(parts.take(n), pos),
    decreases parts.len() - n,
{
    if n == parts.len() {
        assert(parts.take(n) =~= parts);
    } else {
        assert(parts.take(n + 1).drop_last() =~= parts.take(n));
        lemma_first_covering_prefix(parts, n + 1, pos);
    }
}

/// The size of the buffer that is asked for in MB: at least a sector, and a
/// number of whole sectors.
pub open spec fn buffer_bytes(buffer_size_mb: int) -> int {
    let n = buffer_size_mb * 0x10_0000;
    (if n < 512 {
        512
    } else {
        n
    }) / 512 * 512
}

impl ImageBuilder {
    /// Creates a new ImageBuilder for a disk of the given layout. The shadow
    /// copies must be kept alive during the build.
    pub fn new(
        disk_number: u32,
        layout: DiskLayout,
        shadow_map: HashMap<u64, String>,
        buffer_size_mb: usize,
    ) -> (r: Self)
        requires
            buffer_size_mb * 0x10_0000 <= usize::MAX,
        ensures
            r.disk_number == disk_number,
            r.layout == layout,
            r.shadow_map == shadow_map,
            r.buffer_size == buffer_bytes(buffer_size_mb as int),
    {
        let mut buffer_size: usize = buffer_size_mb * 0x10_0000;
        if buffer_size < 512 {
            buffer_size = 512;
        }
        ImageBuilder { disk_number, layout, shadow_map, buffer_size: buffer_size / 512 * 512 }
    }

    /// Whether the image can be streamed: the buffer holds a sector, and all
    /// offsets fit in 64 bits.
    pub fn can_stream(&self) -> (b: bool)
        ensures
            forall|excluded: Set<u32>| b == (#[trigger] self.config(excluded)).valid(),
    {
        let length = self.layout.disk_length;
        let size = self.buffer_size as u64;
        let parts = &self.layout.partitions;
        if size < SECTOR_SIZE || (length > 0 && length - 1 > u64::MAX - size) {
            return false;
        }
        for i in 0..parts.len()
            invariant
                parts@ == self.layout.partitions@,
                forall|k: int|
                    0 <= k < i && (#[trigger] parts@[k]).in_use() ==> parts@[k].end() <= u64::MAX,
        {
            let p = &parts[i];
            if p.is_used && p.partition_length > 0 && p.starting_offset > u64::MAX
                - p.partition_length {
                proof {
                    assert(parts@[i as int].in_use());
                    assert(parts@[i as int].end() > u64::MAX);
                    assert(!crate::disk::ends_fit(parts@));
                }
                return false;
            }
        }
        true
    }

    /// Returns the total disk size.
    pub fn disk_length(&self) -> (n: u64)
        ensures
            n == self.layout.disk_length,
    {
        self.layout.disk_length
    }

    /// Returns regions for the layout diagram (source disk vs output image).
    pub fn diagram_regions(&self) -> (regions: Vec<DiagramRegion>)
        requires
            crate::disk::ends_fit(self.layout.partitions@),
        ensures
            views(regions@) == diagram(
                self.layout.disk_length as int,
                self.layout.partitions@,
                self.shadow_map@.dom(),
            ),
    {
        build_diagram_regions(&self.layout, &self.shadow_map)
    }
}

} // verus!

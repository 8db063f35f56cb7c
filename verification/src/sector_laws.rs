//! Disks are read and written in whole sectors.

use vstd::prelude::*;

use crate::disk::{PartitionInfo, GPT_SIZE, SECTOR_SIZE};
use crate::image_builder::{buffer_bytes, first_covering, law_chunk_is_not_empty, lemma_first_covering_covers, min, nearest_boundary, ChunkSource, ImageConfig};
use crate::stream::{accepts, advancing, after_read, consistent, next, EventView, OpView, StreamState};

verus! {

/// The number of bytes is one of whole sectors.
pub open spec fn whole_sectors(n: int) -> bool {
    n % SECTOR_SIZE as int == 0
}

/// The disk and its partitions are made of whole sectors, and so is the
/// buffer.
pub open spec fn made_of_sectors(cfg: ImageConfig) -> bool {
    &&& whole_sectors(cfg.disk_length)
    &&& whole_sectors(cfg.buffer_size)
    &&& forall|i: int|
        0 <= i < cfg.partitions.len() ==> whole_sectors(
            (#[trigger] cfg.partitions[i]).starting_offset as int,
        ) && whole_sectors(cfg.partitions[i].partition_length as int)
}

/// What was read, or taken by the sink, is made of whole sectors.
pub open spec fn event_of_sectors(ev: EventView) -> bool {
    match ev {
        EventView::Read(Ok(b)) => whole_sectors(b.len() as int),
        EventView::Wrote(Ok(n)) => whole_sectors(n),
        _ => true,
    }
}

/// The operation reads or writes whole sectors.
pub open spec fn op_of_sectors(op: OpView) -> bool {
    match op {
        OpView::ReadDisk { offset, len } => whole_sectors(offset) && whole_sectors(len),
        OpView::ReadShadow { offset, len } => whole_sectors(offset) && whole_sectors(len),
        OpView::Write { data } => whole_sectors(data.len() as int),
        _ => true,
    }
}

proof fn lemma_nearest_boundary_of_sectors(parts: Seq<PartitionInfo>, pos: int, limit: int)
    requires
        whole_sectors(limit),
        forall|i: int|
            0 <= i < parts.len() ==> whole_sectors((#[trigger] parts[i]).starting_offset as int)
                && whole_sectors(parts[i].partition_length as int),
    ensures
        whole_sectors(nearest_boundary(parts, pos, limit)),
    decreases parts.len(),
{
    if parts.len() > 0 {
        let init = parts.drop_last();
        assert forall|i: int| 0 <= i < init.len() implies whole_sectors(
            (#[trigger] init[i]).starting_offset as int,
        ) && whole_sectors(init[i].partition_length as int) by {
            assert(init[i] == parts[i]);
        }
        lemma_nearest_boundary_of_sectors(init, pos, limit);
        assert(parts[parts.len() - 1] == parts.last());
    }
}

/// On a disk made of whole sectors, so is every chunk.
pub proof fn law_chunk_is_of_sectors(cfg: ImageConfig, pos: int)
    requires
        made_of_sectors(cfg),
        whole_sectors(pos),
    ensures
        whole_sectors(cfg.chunk_end(pos)),
{
    let limit = min(pos + cfg.buffer_size, cfg.disk_length);
    lemma_nearest_boundary_of_sectors(cfg.partitions, pos, limit);
}

proof fn lemma_covering_of_sectors(cfg: ImageConfig, pos: int)
    requires
        made_of_sectors(cfg),
    ensures
        match cfg.source_at(pos) {
            ChunkSource::Shadow { number, start } => whole_sectors(start as int),
            _ => true,
        },
{
    lemma_first_covering_covers(cfg.partitions, pos);
    if let Some(p) = first_covering(cfg.partitions, pos) {
        let i = choose|i: int| 0 <= i < cfg.partitions.len() && cfg.partitions[i] == p;
        assert(whole_sectors(cfg.partitions[i].starting_offset as int));
    }
}

proof fn lemma_advancing_asks_for_sectors(cfg: ImageConfig, st: StreamState)
    requires
        cfg.valid(),
        made_of_sectors(cfg),
        0 <= st.pos,
        whole_sectors(st.pos),
        whole_sectors(st.sector_zero.len() as int),
    ensures
        op_of_sectors(advancing(cfg, st).1.op),
        advancing(cfg, st).0.pos == st.pos,
{
    law_chunk_is_of_sectors(cfg, st.pos);
    if st.pos < cfg.disk_length {
        law_chunk_is_not_empty(cfg, st.pos);
    }
}

proof fn lemma_reading_asks_for_sectors(cfg: ImageConfig, st: StreamState, bytes: Seq<u8>)
    requires
        cfg.valid(),
        made_of_sectors(cfg),
        consistent(cfg, st),
        accepts(st, EventView::Read(Ok(bytes))),
        whole_sectors(st.pos),
        whole_sectors(bytes.len() as int),
    ensures
        op_of_sectors(after_read(cfg, st, bytes).1.op),
        after_read(cfg, st, bytes).0.pos == st.pos,
{
    lemma_covering_of_sectors(cfg, st.pos);
    law_chunk_is_of_sectors(cfg, st.pos);
    if st.phase is SectorZero {
        lemma_advancing_asks_for_sectors(cfg, StreamState { sector_zero: bytes, ..st });
    }
}

/// On a disk made of whole sectors, as long as whole sectors are read and
/// taken by the sink, the stream asks for nothing but whole sectors, and stays
/// at the start of one.
pub proof fn law_stream_asks_for_sectors(cfg: ImageConfig, st: StreamState, ev: EventView)
    requires
        cfg.valid(),
        made_of_sectors(cfg),
        consistent(cfg, st),
        accepts(st, ev),
        whole_sectors(st.pos),
        event_of_sectors(ev),
    ensures
        whole_sectors(next(cfg, st, ev).0.pos),
        op_of_sectors(next(cfg, st, ev).1.op),
{
    match ev {
        EventView::Read(Ok(bytes)) => lemma_reading_asks_for_sectors(cfg, st, bytes),
        EventView::Wrote(Ok(n)) => {
            lemma_advancing_asks_for_sectors(cfg, StreamState { pos: st.pos + n, ..st });
        },
        _ => {
            lemma_covering_of_sectors(cfg, st.pos);
            law_chunk_is_of_sectors(cfg, st.pos);
        },
    }
}

/// The buffer of an image builder is made of whole sectors, one at least,
/// which is all that a stream asks of it. One of a whole number of MB is just as
/// large, and holds a GPT area.
pub proof fn law_buffer_is_of_sectors(buffer_size_mb: int)
    requires
        buffer_size_mb >= 0,
    ensures
        whole_sectors(buffer_bytes(buffer_size_mb)),
        buffer_bytes(buffer_size_mb) >= SECTOR_SIZE,
        buffer_size_mb > 0 ==> buffer_bytes(buffer_size_mb) == buffer_size_mb * 0x10_0000
            && buffer_bytes(buffer_size_mb) >= GPT_SIZE,
{
}

} // verus!

//! What a stream asks for, step by step, and what the user is told.

use std::collections::HashSet;

use vstd::prelude::*;

use crate::disk::{device_path, PartitionInfo};
use crate::error::ErrorView;
use crate::image_builder::{excluded_set, law_chunk_is_not_empty, ImageBuilder, ImageConfig};
use crate::image_laws::{holder, holds, in_gpt, law_source_goes_by_holder};
use crate::stream::{accepts, consistent, initial, next, EventView, OpView, Phase, RegionInfoView, StreamEvent, StreamOp, StreamRegionInfo, StreamSourceType, StreamState, StreamStep};
use crate::text::{decimal, hex4};

verus! {

/// The info is right for the part of the image at offset `p`. `fallback` holds
/// the partition that the user is told of at the same time.
pub open spec fn right_report(
    cfg: ImageConfig,
    p: int,
    fallback: Option<u32>,
    info: RegionInfoView,
) -> bool {
    let drive = "\\\\.\\PhysicalDrive"@ + decimal(cfg.disk_number as nat);
    &&& p < 34 * 512 ==> info == (RegionInfoView {
        partition_num: None,
        source_type: StreamSourceType::PrimaryGpt,
        path: None,
    })
    &&& p >= 34 * 512 && p >= cfg.disk_length - 34 * 512 ==> info == (RegionInfoView {
        partition_num: None,
        source_type: StreamSourceType::BackupGpt,
        path: None,
    })
    &&& !in_gpt(cfg.disk_length, p) && (forall|i: int|
        0 <= i < cfg.partitions.len() ==> !holds(#[trigger] cfg.partitions[i], p)) ==> info == (
    RegionInfoView { partition_num: None, source_type: StreamSourceType::Gap, path: None })
    &&& !in_gpt(cfg.disk_length, p) ==> forall|i: int| #[trigger]
        holder(cfg.partitions, p, i) ==> {
            let q = cfg.partitions[i];
            let left_out = cfg.excluded.contains(q.partition_number);
            let shadow = !left_out && cfg.shadows.contains_key(q.starting_offset) && fallback
                is None;
            &&& info.partition_num == Some(q.partition_number)
            &&& left_out ==> info.source_type == StreamSourceType::PartitionExcluded && info.path
                is None
            &&& shadow ==> info.source_type == StreamSourceType::PartitionVss && info.path == Some(
                device_path(cfg.shadows[q.starting_offset]@),
            )
            &&& !left_out && !shadow ==> info.source_type == StreamSourceType::PartitionRaw
                && info.path == Some(drive)
            &&& fallback matches Some(k) ==> k == q.partition_number && !left_out
                && cfg.shadows.contains_key(q.starting_offset)
        }
}

/// What is reported is right for the place that the stream has reached, and a
/// fallback is told of only where there is a shadow copy, and with a report.
pub proof fn law_report_is_right(cfg: ImageConfig, st: StreamState, ev: EventView)
    requires
        cfg.valid(),
        consistent(cfg, st),
        accepts(st, ev),
    ensures
        ({
            let (to, step) = next(cfg, st, ev);
            &&& step.report matches Some(info) ==> right_report(cfg, to.pos, step.fallback, info)
            &&& step.fallback is Some ==> step.report is Some && st.phase is Fallback && (
            step.op is Write)
        }),
{
    let (to, step) = next(cfg, st, ev);
    law_source_goes_by_holder(cfg, to.pos, 0);
    if let Some(info) = step.report {
        assert forall|i: int| #[trigger]
            holder(cfg.partitions, to.pos, i) && !in_gpt(cfg.disk_length, to.pos) implies {
            let q = cfg.partitions[i];
            let left_out = cfg.excluded.contains(q.partition_number);
            let shadow = !left_out && cfg.shadows.contains_key(q.starting_offset)
                && step.fallback is None;
            &&& info.partition_num == Some(q.partition_number)
            &&& left_out ==> info.source_type == StreamSourceType::PartitionExcluded && info.path
                is None
            &&& shadow ==> info.source_type == StreamSourceType::PartitionVss && info.path == Some(
                device_path(cfg.shadows[q.starting_offset]@),
            )
            &&& !left_out && !shadow ==> info.source_type == StreamSourceType::PartitionRaw
                && info.path == Some(
                "\\\\.\\PhysicalDrive"@ + decimal(cfg.disk_number as nat),
            )
            &&& step.fallback matches Some(k) ==> k == q.partition_number && !left_out
                && cfg.shadows.contains_key(q.starting_offset)
        } by {
            law_source_goes_by_holder(cfg, to.pos, i);
        }
    }
}

/// Each chunk is reported: with its first operation, or, in a partition with a
/// shadow copy, as soon as that is open.
pub proof fn law_each_chunk_is_reported(cfg: ImageConfig, st: StreamState, ev: EventView)
    requires
        cfg.valid(),
        consistent(cfg, st),
        accepts(st, ev),
        (ev matches EventView::Wrote(Ok(_))) || (ev matches EventView::Opened(Ok(_))),
    ensures
        ({
            let step = next(cfg, st, ev).1;
            step.report is None ==> step.op is Flush || (step.op is OpenShadow && ev is Wrote)
        }),
{
}

/// A shadow copy is asked for the chunk twice, and then the disk is asked for
/// the same bytes; what comes of that is written, and the user is told.
pub proof fn law_shadow_copy_is_tried_twice(cfg: ImageConfig, st: StreamState, bytes: Seq<u8>)
    requires
        cfg.valid(),
        consistent(cfg, st),
        st.phase is Opening,
        0 < bytes.len() <= st.want,
    ensures
        ({
            let none = EventView::Read(Ok(seq![]));
            let some = EventView::Read(Ok(bytes));
            let start = st.phase->Opening_start;
            let number = st.phase->Opening_number;
            let (a, first) = next(cfg, st, EventView::Opened(Ok(())));
            let (b, second) = next(cfg, a, none);
            let (c, third) = next(cfg, b, none);
            &&& first.op == (OpView::ReadShadow { offset: st.pos - start, len: st.want })
            &&& second.op == first.op
            &&& third.op == (OpView::ReadDisk { offset: st.pos, len: st.want })
            &&& second.fallback is None && third.fallback is None
            &&& next(cfg, a, some).1.op == (OpView::Write { data: bytes })
            &&& next(cfg, a, some).1.fallback is None
            &&& next(cfg, b, some).1.op == (OpView::Write { data: bytes })
            &&& next(cfg, b, some).1.fallback is None
            &&& next(cfg, c, some).1.op == (OpView::Write { data: bytes })
            &&& next(cfg, c, some).1.fallback == Some(number)
            &&& next(cfg, c, none).1.op == (OpView::Fail {
                error: ErrorView::Other(
                    "Zero-byte read at disk offset "@ + decimal(st.pos as nat) + " (partition "@
                        + decimal(number as nat) + ", volume offset "@ + decimal(
                        (st.pos - start) as nat,
                    ) + "). VSS retry and raw fallback both failed."@,
                ),
            })
            &&& next(cfg, c, none).1.fallback is None
        }),
{
}

/// All that was read is handed to the sink, in front of it the first sector
/// where the image starts.
pub proof fn law_what_is_read_is_written(cfg: ImageConfig, st: StreamState, bytes: Seq<u8>)
    requires
        cfg.valid(),
        consistent(cfg, st),
        accepts(st, EventView::Read(Ok(bytes))),
        bytes.len() > 0,
        st.phase !is SectorZero,
    ensures
        next(cfg, st, EventView::Read(Ok(bytes))).1.op == (OpView::Write {
            data: if st.pos == 0 && st.phase is Primary {
                st.sector_zero + bytes
            } else {
                bytes
            },
        }),
        next(cfg, st, EventView::Read(Ok(bytes))).0.pos == st.pos,
{
}

/// The stream goes on where the sink stopped: what it asks for next lies at
/// the first offset that is not written, and reaches to the end of the chunk.
pub proof fn law_stream_goes_on_where_the_sink_stopped(
    cfg: ImageConfig,
    st: StreamState,
    n: int,
)
    requires
        cfg.valid(),
        consistent(cfg, st),
        accepts(st, EventView::Wrote(Ok(n))),
    ensures
        ({
            let (to, step) = next(cfg, st, EventView::Wrote(Ok(n)));
            let p = st.pos + n;
            &&& to.pos == p
            &&& p >= cfg.disk_length <==> step.op is Flush
            &&& p < cfg.disk_length && p > 0 ==> match step.op {
                OpView::ReadDisk { offset, len } => offset == p && p + len == cfg.chunk_end(p),
                OpView::Write { data } => p + data.len() == cfg.chunk_end(p) && forall|i: int|
                    0 <= i < data.len() ==> #[trigger] data[i] == 0,
                OpView::OpenShadow { path } => to.want == cfg.chunk_end(p) - p,
                _ => false,
            }
        }),
{
    if st.pos + n < cfg.disk_length {
        law_chunk_is_not_empty(cfg, st.pos + n);
    }
}

/// An operation that failed ends the clone with its own error.
pub proof fn law_errors_are_passed_on(cfg: ImageConfig, st: StreamState, e: ErrorView)
    ensures
        next(cfg, st, EventView::Read(Err(e))).1.op == (OpView::Fail { error: e }),
        next(cfg, st, EventView::Opened(Err(e))).1.op == (OpView::Fail { error: e }),
        next(cfg, st, EventView::Wrote(Err(e))).1.op == (OpView::Fail { error: e }),
        next(cfg, st, EventView::Flushed(Err(e))).1.op == (OpView::Fail { error: e }),
        next(cfg, st, EventView::Read(Err(e))).0.phase is Finished,
        next(cfg, st, EventView::Opened(Err(e))).0.phase is Finished,
        next(cfg, st, EventView::Wrote(Err(e))).0.phase is Finished,
        next(cfg, st, EventView::Flushed(Err(e))).0.phase is Finished,
{
}

/// The first sector is looked at before anything is written. It has to be
/// there, and to end in the bytes 55 and AA.
pub proof fn law_first_sector_is_checked(cfg: ImageConfig, bytes: Seq<u8>)
    requires
        cfg.valid(),
        bytes.len() <= 512,
    ensures
        ({
            let (st, step) = next(cfg, initial(), EventView::Start);
            let after = next(cfg, st, EventView::Read(Ok(bytes))).1.op;
            &&& step.op == (OpView::ReadDisk { offset: 0, len: 512 })
            &&& bytes.len() < 512 ==> after == (OpView::Fail {
                error: ErrorView::Other("Failed to read sector 0"@),
            })
            &&& bytes.len() == 512 && !(bytes[510] == 0x55 && bytes[511] == 0xAA) ==> after == (
            OpView::Fail {
                error: ErrorView::Other(
                    "Disk sector 0 invalid MBR (0x"@ + hex4(
                        (bytes[511] * 256 + bytes[510]) as u16,
                    ) + "), cannot proceed"@,
                ),
            })
            &&& bytes.len() == 512 && bytes[510] == 0x55 && bytes[511] == 0xAA ==> after !is Fail
        }),
{
}

/// Behind a good first sector the rest of the primary GPT is read, as much as
/// the buffer holds beside that sector; where it holds no more, the sector is
/// written by itself.
pub proof fn law_primary_is_read_behind_first_sector(cfg: ImageConfig, bytes: Seq<u8>)
    requires
        cfg.valid(),
        bytes.len() == 512,
        bytes[510] == 0x55,
        bytes[511] == 0xAA,
    ensures
        ({
            let st = next(cfg, initial(), EventView::Start).0;
            let op = next(cfg, st, EventView::Read(Ok(bytes))).1.op;
            &&& cfg.disk_length == 0 ==> op is Flush
            &&& cfg.disk_length > 0 && cfg.buffer_size == 512 ==> op == (OpView::Write {
                data: bytes,
            })
            &&& cfg.disk_length > 0 && 512 < cfg.buffer_size <= 34 * 512 ==> op == (
            OpView::ReadDisk { offset: 512, len: cfg.buffer_size - 512 })
            &&& cfg.disk_length > 0 && cfg.buffer_size > 34 * 512 ==> op == (OpView::ReadDisk {
                offset: 512,
                len: 33 * 512int,
            })
        }),
{
}

/// What decides the content of an image is what the builder was made of and
/// which partitions are to be left out.
pub proof fn law_image_is_of_its_builder(
    b: ImageBuilder,
    excluded: Option<&HashSet<u32>>,
    number: u32,
)
    ensures
        ({
            let cfg = b.config(excluded_set(excluded));
            &&& cfg.disk_number == b.disk_number
            &&& cfg.disk_length == b.layout.disk_length
            &&& cfg.partitions == b.layout.partitions@
            &&& cfg.shadows == b.shadow_map@
            &&& cfg.buffer_size == b.buffer_size
            &&& excluded matches Some(set) ==> (cfg.excluded.contains(number) <==> set@.contains(
                number,
            ))
            &&& excluded is None ==> !cfg.excluded.contains(number)
        }),
{
}

/// An image can be streamed if and only if the buffer holds a sector, and the
/// ends of the partitions and of the last chunk are offsets of 64 bits.
pub proof fn law_what_can_be_streamed(b: ImageBuilder, excluded: Set<u32>)
    ensures
        b.config(excluded).valid() <==> {
            &&& b.buffer_size >= 512
            &&& b.layout.disk_length > 0 ==> b.layout.disk_length - 1 + b.buffer_size
                <= 0xffff_ffff_ffff_ffff
            &&& forall|i: int|
                0 <= i < b.layout.partitions@.len() && (
                #[trigger] b.layout.partitions@[i]).is_used
                    && b.layout.partitions@[i].partition_length > 0
                    ==> b.layout.partitions@[i].starting_offset
                    + b.layout.partitions@[i].partition_length <= 0xffff_ffff_ffff_ffff
        },
{
}

/// Where nothing can be read, the clone ends with the offset in its error.
pub proof fn law_missing_data_is_an_error(cfg: ImageConfig, st: StreamState)
    requires
        cfg.valid(),
        consistent(cfg, st),
    ensures
        st.phase is Primary && st.pos > 0 ==> next(cfg, st, EventView::Read(Ok(seq![]))).1.op == (
        OpView::Fail {
            error: ErrorView::Other(
                "Zero-byte read at offset "@ + decimal(st.pos as nat) + " (primary GPT)"@,
            ),
        }),
        st.phase is Backup ==> next(cfg, st, EventView::Read(Ok(seq![]))).1.op == (OpView::Fail {
            error: ErrorView::Other(
                "Zero-byte read at offset "@ + decimal(st.pos as nat) + " (backup GPT)"@,
            ),
        }),
        st.phase matches Phase::Raw { number, start } ==> next(
            cfg,
            st,
            EventView::Read(Ok(seq![])),
        ).1.op == (OpView::Fail {
            error: ErrorView::Other(
                "Zero-byte read at disk offset "@ + decimal(st.pos as nat) + " (partition "@
                    + decimal(number as nat) + ", volume offset "@ + decimal(st.pos as nat)
                    + "). VSS retry and raw fallback both failed."@,
            ),
        }),
{
}

/// Once the sink is flushed, the clone is complete if and only if as many
/// bytes were written as the disk has.
pub proof fn law_count_decides_in_the_end(cfg: ImageConfig, st: StreamState)
    requires
        cfg.valid(),
        consistent(cfg, st),
        st.phase is Flushing,
    ensures
        ({
            let op = next(cfg, st, EventView::Flushed(Ok(()))).1.op;
            &&& st.pos == cfg.disk_length ==> op == (OpView::Finish {
                total_written: cfg.disk_length,
            })
            &&& st.pos != cfg.disk_length ==> op == (OpView::Fail {
                error: ErrorView::Other(
                    "Incomplete clone: wrote "@ + decimal(st.pos as nat) + " bytes ("@ + decimal(
                        (st.pos / 0x4000_0000) as nat,
                    ) + " GB), expected "@ + decimal(cfg.disk_length as nat) + " bytes ("@
                        + decimal((cfg.disk_length / 0x4000_0000) as nat) + " GB)"@,
                ),
            })
        }),
{
}

/// A place at which a chunk may have to end: where a GPT area or a partition
/// that holds data starts or ends.
pub open spec fn is_boundary(cfg: ImageConfig, e: int) -> bool {
    ||| e == 34 * 512
    ||| e == cfg.disk_length - 34 * 512
    ||| exists|i: int|
        {
            &&& 0 <= i < cfg.partitions.len()
            &&& edge_of(#[trigger] cfg.partitions[i], e)
        }
}

/// A partition that holds data starts or ends at `e`.
pub open spec fn edge_of(q: PartitionInfo, e: int) -> bool {
    &&& q.is_used
    &&& q.partition_length > 0
    &&& e == q.starting_offset || e == q.starting_offset + q.partition_length
}

proof fn lemma_nearest_is_boundary(cfg: ImageConfig, n: int, pos: int, limit: int)
    requires
        0 <= n <= cfg.partitions.len(),
    ensures
        ({
            let e = crate::image_builder::nearest_boundary(cfg.partitions.take(n), pos, limit);
            e == limit || is_boundary(cfg, e)
        }),
    decreases n,
{
    if n > 0 {
        lemma_nearest_is_boundary(cfg, n - 1, pos, limit);
        assert(cfg.partitions.take(n).drop_last() =~= cfg.partitions.take(n - 1));
        let q = cfg.partitions[n - 1];
        let e = crate::image_builder::nearest_boundary(cfg.partitions.take(n), pos, limit);
        if e != crate::image_builder::nearest_boundary(cfg.partitions.take(n - 1), pos, limit) {
            assert(edge_of(q, e));
        }
    }
}

/// A chunk is no shorter than it has to be: it fills the buffer, or ends where
/// the disk, a GPT area or a partition does.
pub proof fn law_chunk_is_as_long_as_it_can_be(cfg: ImageConfig, pos: int)
    requires
        cfg.valid(),
        0 <= pos < cfg.disk_length,
    ensures
        ({
            let e = cfg.chunk_end(pos);
            e == pos + cfg.buffer_size || e == cfg.disk_length || is_boundary(cfg, e)
        }),
{
    let limit = crate::image_builder::min(pos + cfg.buffer_size, cfg.disk_length);
    let n = cfg.partitions.len() as int;
    assert(cfg.partitions.take(n) =~= cfg.partitions);
    lemma_nearest_is_boundary(cfg, n, pos, limit);
}

/// A chunk between the GPT areas stays between them, and all its offsets lie in
/// the same partition or gap.
pub proof fn law_chunk_stays_in_its_partition(cfg: ImageConfig, pos: int, p: int, i: int)
    requires
        cfg.valid(),
        0 <= pos < cfg.disk_length,
        pos <= p < cfg.chunk_end(pos),
        !in_gpt(cfg.disk_length, pos),
        0 <= i < cfg.partitions.len(),
    ensures
        !in_gpt(cfg.disk_length, p),
        holder(cfg.partitions, pos, i) ==> holder(cfg.partitions, p, i),
        holder(cfg.partitions, p, i) ==> holder(cfg.partitions, pos, i),
{
    let parts = cfg.partitions;
    let limit = crate::image_builder::min(pos + cfg.buffer_size, cfg.disk_length);
    crate::image_builder::lemma_nearest_boundary(parts, pos, limit);
    assert forall|j: int| 0 <= j < parts.len() implies holds(#[trigger] parts[j], pos) == holds(
        parts[j],
        p,
    ) by {
        assert(parts[j].in_use() == (parts[j].is_used && parts[j].partition_length > 0));
    }
}

/// Operations are seen as they are.
pub proof fn law_view_of_operation(op: StreamOp)
    ensures
        match op {
            StreamOp::ReadDisk { offset, len } => op@ matches OpView::ReadDisk {
                offset: o,
                len: n,
            } && o == offset && n == len,
            StreamOp::OpenShadow { path } => op@ == (OpView::OpenShadow { path: path@ }),
            StreamOp::ReadShadow { offset, len } => op@ matches OpView::ReadShadow {
                offset: o,
                len: n,
            } && o == offset && n == len,
            StreamOp::Write { data } => op@ == (OpView::Write { data: data@ }),
            StreamOp::Flush => op@ is Flush,
            StreamOp::Finish { total_written } => op@ matches OpView::Finish {
                total_written: n,
            } && n == total_written,
            StreamOp::Fail { error } => op@ == (OpView::Fail { error: error@ }),
        },
{
}

/// Events are seen as they are.
pub proof fn law_view_of_event(ev: StreamEvent)
    ensures
        match ev {
            StreamEvent::Start => ev@ is Start,
            StreamEvent::Read(Ok(b)) => ev@ == EventView::Read(Ok(b@)),
            StreamEvent::Read(Err(e)) => ev@ == EventView::Read(Err(e@)),
            StreamEvent::Opened(Ok(_)) => ev@ == EventView::Opened(Ok(())),
            StreamEvent::Opened(Err(e)) => ev@ == EventView::Opened(Err(e@)),
            StreamEvent::Wrote(Ok(n)) => ev@ == EventView::Wrote(Ok(n as int)),
            StreamEvent::Wrote(Err(e)) => ev@ == EventView::Wrote(Err(e@)),
            StreamEvent::Flushed(Ok(_)) => ev@ == EventView::Flushed(Ok(())),
            StreamEvent::Flushed(Err(e)) => ev@ == EventView::Flushed(Err(e@)),
        },
{
}

/// Steps and what they report are seen as they are.
pub proof fn law_view_of_step(step: StreamStep, info: StreamRegionInfo)
    ensures
        step@.fallback == step.fallback,
        step@.op == step.op@,
        step.report matches Some(r) ==> step@.report == Some(r@),
        step.report is None ==> step@.report is None,
        info@.partition_num == info.partition_num,
        info@.source_type == info.source_type,
        info.path matches Some(p) ==> info@.path == Some(p@),
        info.path is None ==> info@.path is None,
{
}

} // verus!

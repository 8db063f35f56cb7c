//! What a stream makes of a disk: the image that its sink ends up with.

use vstd::prelude::*;

use crate::disk::{device_path, PartitionInfo, GPT_SIZE, SECTOR_SIZE};
use crate::image_builder::{first_covering, law_chunk_has_one_source, law_chunk_is_not_empty, lemma_first_covering_covers, ChunkSource, ImageConfig};
use crate::stream::{accepts, advancing, behind_sector_zero, boot_signature, consistent, initial, law_stream_stays_consistent, next, EventView, OpView, Phase, StreamState};

verus! {

/// How far a stream has come after some events.
pub struct Run {
    pub state: StreamState,
    /// What the stream asks for.
    pub asked: Option<OpView>,
    /// The partition for which the user is told, with what the stream asks for,
    /// that its shadow copy gave no data.
    pub telling: Option<u32>,
    /// The path of the shadow copy that was opened last.
    pub open: Option<Seq<char>>,
    /// What the sink has taken so far.
    pub image: Seq<u8>,
    /// For each byte that the sink has taken, what the user was told with the
    /// chunk that it came in.
    pub told: Seq<Option<u32>>,
}

/// The same for each of `n` bytes.
pub open spec fn for_each(n: nat, told: Option<u32>) -> Seq<Option<u32>> {
    Seq::new(n, |i: int| told)
}

/// The run after one more event.
pub open spec fn run_step(cfg: ImageConfig, r: Run, ev: EventView) -> Run {
    let (state, step) = next(cfg, r.state, ev);
    let taken = match (ev, r.asked) {
        (EventView::Wrote(Ok(n)), Some(OpView::Write { data })) => data.take(n),
        _ => seq![],
    };
    Run {
        state,
        asked: Some(step.op),
        telling: step.fallback,
        open: match (ev, r.asked) {
            (EventView::Opened(Ok(_)), Some(OpView::OpenShadow { path })) => Some(path),
            _ => r.open,
        },
        image: r.image + taken,
        told: r.told + for_each(taken.len(), r.telling),
    }
}

/// The run that the given events lead to.
pub open spec fn run(cfg: ImageConfig, events: Seq<EventView>) -> Run
    decreases events.len(),
{
    if events.len() == 0 {
        Run { state: initial(), asked: None, telling: None, open: None, image: seq![], told: seq![] }
    } else {
        run_step(cfg, run(cfg, events.drop_last()), events.last())
    }
}

/// `bytes` is what a device gives that holds `content` and is read from
/// `offset` on, as far as it was read.
pub open spec fn read_from(content: Seq<u8>, offset: int, bytes: Seq<u8>) -> bool {
    &&& 0 <= offset
    &&& offset + bytes.len() <= content.len()
    &&& bytes == content.subrange(offset, offset + bytes.len())
}

/// The event can come of what the stream asks for where the disk holds `disk`,
/// the device with a path holds what `devices` has there, and the sink takes a
/// part of what it is given. A shadow copy is read from the device that was
/// opened last.
pub open spec fn possible_event(
    disk: Seq<u8>,
    devices: Map<Seq<char>, Seq<u8>>,
    r: Run,
    ev: EventView,
) -> bool {
    &&& accepts(r.state, ev)
    &&& match (ev, r.asked) {
        (EventView::Read(Ok(bytes)), Some(OpView::ReadDisk { offset, len })) => read_from(
            disk,
            offset,
            bytes,
        ),
        (EventView::Read(Ok(bytes)), Some(OpView::ReadShadow { offset, len })) => read_from(
            devices[r.open->0],
            offset,
            bytes,
        ),
        (EventView::Wrote(Ok(n)), Some(OpView::Write { data })) => n <= data.len(),
        _ => true,
    }
}

/// Each of the events can come of what the stream asked for before it.
pub open spec fn possible(
    cfg: ImageConfig,
    disk: Seq<u8>,
    devices: Map<Seq<char>, Seq<u8>>,
    events: Seq<EventView>,
) -> bool
    decreases events.len(),
{
    events.len() > 0 ==> {
        &&& possible(cfg, disk, devices, events.drop_last())
        &&& possible_event(disk, devices, run(cfg, events.drop_last()), events.last())
    }
}

/// The table entry is used and not empty, and the offset `p` of the disk lies
/// in its partition.
pub open spec fn holds(q: PartitionInfo, p: int) -> bool {
    q.is_used && q.partition_length > 0 && q.starting_offset <= p && p - q.starting_offset
        < q.partition_length
}

/// The entry at index `i` is the first of the table whose partition holds `p`.
pub open spec fn holder(parts: Seq<PartitionInfo>, p: int, i: int) -> bool {
    &&& 0 <= i < parts.len()
    &&& holds(parts[i], p)
    &&& forall|j: int| 0 <= j < i ==> !holds(#[trigger] parts[j], p)
}

/// The offset lies in the first or the last 34 sectors of the disk.
pub open spec fn in_gpt(disk_length: int, p: int) -> bool {
    p < 34 * 512 || p >= disk_length - 34 * 512
}

/// What the device holds that is the shadow copy for a starting offset.
pub open spec fn shadow_content(
    cfg: ImageConfig,
    devices: Map<Seq<char>, Seq<u8>>,
    start: u64,
) -> Seq<u8> {
    devices[device_path(cfg.shadows[start]@)]
}

/// `b` is right at offset `p` of the image, where the user was told `told` with
/// the chunk that it came in. In the GPT areas it is the byte of the disk.
/// Elsewhere it goes by the partition that holds `p`: without one it is zero;
/// in a partition that is excluded it is zero, with or without a shadow copy; in
/// one with a shadow copy for its starting offset it is a byte of that, unless
/// the user was told that this shadow copy gave no data, when it is the byte of
/// the disk; and in any other it is the byte of the disk.
pub open spec fn right_byte(
    cfg: ImageConfig,
    disk: Seq<u8>,
    devices: Map<Seq<char>, Seq<u8>>,
    told: Option<u32>,
    p: int,
    b: u8,
) -> bool {
    &&& in_gpt(cfg.disk_length, p) ==> told is None && b == disk[p]
    &&& !in_gpt(cfg.disk_length, p) ==> {
        &&& (forall|i: int|
            0 <= i < cfg.partitions.len() ==> !holds(#[trigger] cfg.partitions[i], p)) ==> told
            is None && b == 0
        &&& forall|i: int| #[trigger]
            holder(cfg.partitions, p, i) ==> {
                let q = cfg.partitions[i];
                if cfg.excluded.contains(q.partition_number) {
                    told is None && b == 0
                } else if cfg.shadows.contains_key(q.starting_offset) {
                    match told {
                        None => b == shadow_content(cfg, devices, q.starting_offset)[p
                            - q.starting_offset],
                        Some(k) => k == q.partition_number && b == disk[p],
                    }
                } else {
                    told is None && b == disk[p]
                }
            }
    }
}

/// `bytes` is right from offset `from` of the image on, where `told` holds for
/// each byte what the user was told with its chunk.
pub open spec fn right_bytes(
    cfg: ImageConfig,
    disk: Seq<u8>,
    devices: Map<Seq<char>, Seq<u8>>,
    told: Seq<Option<u32>>,
    from: int,
    bytes: Seq<u8>,
) -> bool {
    &&& told.len() == bytes.len()
    &&& forall|i: int|
        0 <= i < bytes.len() ==> right_byte(
            cfg,
            disk,
            devices,
            told[i],
            from + i,
            #[trigger] bytes[i],
        )
}

proof fn lemma_covering_is_holder(parts: Seq<PartitionInfo>, p: int) -> (i: int)
    ensures
        first_covering(parts, p) is None ==> forall|j: int|
            0 <= j < parts.len() ==> !holds(#[trigger] parts[j], p),
        first_covering(parts, p) matches Some(q) ==> holder(parts, p, i) && parts[i] == q,
    decreases parts.len(),
{
    if parts.len() == 0 {
        0
    } else {
        let init = parts.drop_last();
        let n = parts.len() - 1;
        let i = lemma_covering_is_holder(init, p);
        assert forall|j: int| 0 <= j < n implies holds(#[trigger] parts[j], p) == holds(
            init[j],
            p,
        ) by {}
        if first_covering(init, p) is Some {
            assert(parts[i] == init[i]);
            assert forall|j: int| 0 <= j < i implies !holds(#[trigger] parts[j], p) by {
                assert(!holds(init[j], p));
            }
            i
        } else {
            assert forall|j: int| 0 <= j < n implies !holds(#[trigger] parts[j], p) by {
                assert(!holds(init[j], p));
            }
            n
        }
    }
}

/// Where a byte of the image comes from goes by the first table entry whose
/// partition holds it, by the excluded numbers, and by whether there is a shadow
/// copy for its starting offset, in this order.
pub proof fn law_source_goes_by_holder(cfg: ImageConfig, p: int, i: int)
    ensures
        p < 34 * 512 ==> cfg.source_at(p) is PrimaryGpt,
        p >= 34 * 512 && p >= cfg.disk_length - 34 * 512 ==> cfg.source_at(p) is BackupGpt,
        !in_gpt(cfg.disk_length, p) && (forall|j: int|
            0 <= j < cfg.partitions.len() ==> !holds(#[trigger] cfg.partitions[j], p))
            ==> cfg.source_at(p) is Gap,
        !in_gpt(cfg.disk_length, p) && holder(cfg.partitions, p, i) ==> {
            let q = cfg.partitions[i];
            let left_out = cfg.excluded.contains(q.partition_number);
            let shadow = cfg.shadows.contains_key(q.starting_offset);
            &&& left_out ==> cfg.source_at(p) == (ChunkSource::Excluded {
                number: q.partition_number,
            })
            &&& !left_out && shadow ==> cfg.source_at(p) == (ChunkSource::Shadow {
                number: q.partition_number,
                start: q.starting_offset,
            })
            &&& !left_out && !shadow ==> cfg.source_at(p) == (ChunkSource::Raw {
                number: q.partition_number,
                start: q.starting_offset,
            })
        },
{
    let k = lemma_covering_is_holder(cfg.partitions, p);
    if holder(cfg.partitions, p, i) {
        assert(holds(cfg.partitions[i], p));
        assert(first_covering(cfg.partitions, p) is Some);
        if k < i {
            assert(!holds(cfg.partitions[k], p));
        } else if i < k {
            assert(!holds(cfg.partitions[i], p));
        }
    } else if first_covering(cfg.partitions, p) is Some {
        assert(holds(cfg.partitions[k], p));
    }
}

/// `b` is what the source of the byte at offset `p` gives.
spec fn sourced_byte(
    cfg: ImageConfig,
    disk: Seq<u8>,
    devices: Map<Seq<char>, Seq<u8>>,
    told: Option<u32>,
    p: int,
    b: u8,
) -> bool {
    match cfg.source_at(p) {
        ChunkSource::PrimaryGpt | ChunkSource::BackupGpt | ChunkSource::Raw { .. } => told is None
            && b == disk[p],
        ChunkSource::Gap | ChunkSource::Excluded { .. } => told is None && b == 0,
        ChunkSource::Shadow { number, start } => match told {
            None => b == shadow_content(cfg, devices, start)[p - start],
            Some(k) => k == number && b == disk[p],
        },
    }
}

/// `bytes` is what the sources give from offset `from` of the image on, where
/// `told` holds for each byte what the user was told with its chunk.
spec fn sourced_bytes(
    cfg: ImageConfig,
    disk: Seq<u8>,
    devices: Map<Seq<char>, Seq<u8>>,
    told: Seq<Option<u32>>,
    from: int,
    bytes: Seq<u8>,
) -> bool {
    &&& told.len() == bytes.len()
    &&& forall|i: int|
        0 <= i < bytes.len() ==> sourced_byte(
            cfg,
            disk,
            devices,
            told[i],
            from + i,
            #[trigger] bytes[i],
        )
}

proof fn lemma_sourced_image_is_right(
    cfg: ImageConfig,
    disk: Seq<u8>,
    devices: Map<Seq<char>, Seq<u8>>,
    told: Seq<Option<u32>>,
    image: Seq<u8>,
)
    requires
        sourced_bytes(cfg, disk, devices, told, 0, image),
    ensures
        right_bytes(cfg, disk, devices, told, 0, image),
{
    assert forall|p: int| 0 <= p < image.len() implies right_byte(
        cfg,
        disk,
        devices,
        told[p],
        0 + p,
        #[trigger] image[p],
    ) by {
        assert(sourced_byte(cfg, disk, devices, told[p], 0 + p, image[p]));
        lemma_sourced_is_right(cfg, disk, devices, told[p], p, image[p]);
    }
}

proof fn lemma_sourced_is_right(
    cfg: ImageConfig,
    disk: Seq<u8>,
    devices: Map<Seq<char>, Seq<u8>>,
    told: Option<u32>,
    p: int,
    b: u8,
)
    requires
        sourced_byte(cfg, disk, devices, told, p, b),
    ensures
        right_byte(cfg, disk, devices, told, p, b),
{
    law_source_goes_by_holder(cfg, p, 0);
    assert forall|i: int| #[trigger] holder(cfg.partitions, p, i) && !in_gpt(
        cfg.disk_length,
        p,
    ) implies {
        let q = cfg.partitions[i];
        if cfg.excluded.contains(q.partition_number) {
            told is None && b == 0
        } else if cfg.shadows.contains_key(q.starting_offset) {
            match told {
                None => b == shadow_content(cfg, devices, q.starting_offset)[p
                    - q.starting_offset],
                Some(k) => k == q.partition_number && b == disk[p],
            }
        } else {
            told is None && b == disk[p]
        }
    } by {
        law_source_goes_by_holder(cfg, p, i);
    }
}

/// What holds after every event.
spec fn sound(cfg: ImageConfig, disk: Seq<u8>, devices: Map<Seq<char>, Seq<u8>>, r: Run) -> bool {
    let st = r.state;
    &&& consistent(cfg, st)
    &&& r.image.len() == st.pos
    &&& sourced_bytes(cfg, disk, devices, r.told, 0, r.image)
    &&& match st.phase {
        Phase::Ready => true,
        Phase::SectorZero => r.asked == Some(OpView::ReadDisk { offset: 0, len: SECTOR_SIZE as int }),
        Phase::Primary => r.asked == Some(
            OpView::ReadDisk {
                offset: if st.pos == 0 {
                    SECTOR_SIZE as int
                } else {
                    st.pos
                },
                len: st.want,
            },
        ),
        Phase::Backup | Phase::Fallback { .. } | Phase::Raw { .. } => r.asked == Some(
            OpView::ReadDisk { offset: st.pos, len: st.want },
        ),
        Phase::Opening { number, start } => r.asked == Some(
            OpView::OpenShadow { path: device_path(cfg.shadows[start]@) },
        ),
        Phase::Shadow { number, start, retried } => r.asked == Some(
            OpView::ReadShadow { offset: st.pos - start, len: st.want },
        ) && r.open == Some(device_path(cfg.shadows[start]@)),
        Phase::Writing => {
            &&& r.asked matches Some(OpView::Write { data })
            &&& data.len() == st.want
            &&& sourced_bytes(
                cfg,
                disk,
                devices,
                for_each(data.len(), r.telling),
                st.pos,
                data,
            )
        },
        Phase::Flushing => r.asked == Some(OpView::Flush),
        Phase::Finished => match r.asked {
            Some(OpView::Finish { total_written }) => total_written == st.pos == cfg.disk_length,
            Some(OpView::Fail { .. }) => true,
            _ => false,
        },
    }
    &&& !(st.phase is Ready || st.phase is SectorZero || st.phase is Finished) ==> read_from(
        disk,
        0,
        st.sector_zero,
    ) && disk[510] == 0x55 && disk[511] == 0xAA
    &&& r.image.len() > 0 ==> disk[510] == 0x55 && disk[511] == 0xAA
}

/// Bytes that stand for one chunk are right where the source of the chunk
/// gives them.
proof fn lemma_chunk_is_right(
    cfg: ImageConfig,
    disk: Seq<u8>,
    devices: Map<Seq<char>, Seq<u8>>,
    told: Option<u32>,
    pos: int,
    bytes: Seq<u8>,
)
    requires
        cfg.valid(),
        0 <= pos < cfg.disk_length,
        pos + bytes.len() <= cfg.chunk_end(pos),
        match cfg.source_at(pos) {
            ChunkSource::PrimaryGpt | ChunkSource::BackupGpt | ChunkSource::Raw { .. } => told
                is None && read_from(disk, pos, bytes),
            ChunkSource::Gap | ChunkSource::Excluded { .. } => told is None && forall|i: int|
                0 <= i < bytes.len() ==> bytes[i] == 0,
            ChunkSource::Shadow { number, start } => match told {
                None => read_from(shadow_content(cfg, devices, start), pos - start, bytes),
                Some(k) => k == number && read_from(disk, pos, bytes),
            },
        },
    ensures
        sourced_bytes(cfg, disk, devices, for_each(bytes.len(), told), pos, bytes),
{
    assert forall|i: int| 0 <= i < bytes.len() implies sourced_byte(
        cfg,
        disk,
        devices,
        for_each(bytes.len(), told)[i],
        pos + i,
        #[trigger] bytes[i],
    ) by {
        law_chunk_has_one_source(cfg, pos, pos + i);
    }
}

proof fn lemma_append_right(
    cfg: ImageConfig,
    disk: Seq<u8>,
    devices: Map<Seq<char>, Seq<u8>>,
    told: Seq<Option<u32>>,
    image: Seq<u8>,
    more_told: Seq<Option<u32>>,
    bytes: Seq<u8>,
)
    requires
        sourced_bytes(cfg, disk, devices, told, 0, image),
        sourced_bytes(cfg, disk, devices, more_told, image.len() as int, bytes),
    ensures
        sourced_bytes(cfg, disk, devices, told + more_told, 0, image + bytes),
{
    assert forall|i: int| 0 <= i < (image + bytes).len() implies sourced_byte(
        cfg,
        disk,
        devices,
        (told + more_told)[i],
        0 + i,
        #[trigger] (image + bytes)[i],
    ) by {
        if i < image.len() {
            assert(sourced_byte(cfg, disk, devices, told[i], 0 + i, image[i]));
        } else {
            let k = i - image.len();
            assert(sourced_byte(cfg, disk, devices, more_told[k], image.len() + k, bytes[k]));
        }
    }
}

/// What stands at the start of the disk is right at the start of the image, as
/// far as the primary GPT goes.
proof fn lemma_start_is_right(
    cfg: ImageConfig,
    disk: Seq<u8>,
    devices: Map<Seq<char>, Seq<u8>>,
    bytes: Seq<u8>,
)
    requires
        read_from(disk, 0, bytes),
        bytes.len() <= GPT_SIZE,
    ensures
        sourced_bytes(cfg, disk, devices, for_each(bytes.len(), None), 0, bytes),
{
    assert forall|i: int| 0 <= i < bytes.len() implies sourced_byte(
        cfg,
        disk,
        devices,
        for_each(bytes.len(), None)[i],
        0 + i,
        #[trigger] bytes[i],
    ) by {
        assert(disk.subrange(0, bytes.len() as int)[i] == disk[i]);
    }
}

proof fn lemma_advance_is_sound(
    cfg: ImageConfig,
    disk: Seq<u8>,
    devices: Map<Seq<char>, Seq<u8>>,
    st: StreamState,
    r: Run,
)
    requires
        cfg.valid(),
        0 <= st.pos <= u64::MAX,
        st.sector_zero.len() == SECTOR_SIZE,
        read_from(disk, 0, st.sector_zero),
        disk[510] == 0x55 && disk[511] == 0xAA,
        r.image.len() == st.pos,
        sourced_bytes(cfg, disk, devices, r.told, 0, r.image),
        r.state == advancing(cfg, st).0,
        r.asked == Some(advancing(cfg, st).1.op),
        r.telling is None,
        consistent(cfg, r.state),
    ensures
        sound(cfg, disk, devices, r),
{
    if st.pos < cfg.disk_length {
        law_chunk_is_not_empty(cfg, st.pos);
        let len = cfg.chunk_end(st.pos) - st.pos;
        match cfg.source_at(st.pos) {
            ChunkSource::Gap | ChunkSource::Excluded { .. } => {
                lemma_chunk_is_right(
                    cfg,
                    disk,
                    devices,
                    None,
                    st.pos,
                    crate::stream::zeros(len),
                );
            },
            ChunkSource::PrimaryGpt => {
                if r.state.phase is Writing {
                    lemma_start_is_right(cfg, disk, devices, st.sector_zero);
                }
            },
            _ => {},
        }
    }
}

proof fn lemma_read_is_sound(
    cfg: ImageConfig,
    disk: Seq<u8>,
    devices: Map<Seq<char>, Seq<u8>>,
    r: Run,
    bytes: Seq<u8>,
)
    requires
        cfg.valid(),
        sound(cfg, disk, devices, r),
        possible_event(disk, devices, r, EventView::Read(Ok(bytes))),
    ensures
        sound(cfg, disk, devices, run_step(cfg, r, EventView::Read(Ok(bytes)))),
{
    let ev = EventView::Read(Ok(bytes));
    let r2 = run_step(cfg, r, ev);
    let st = r.state;
    law_stream_stays_consistent(cfg, st, ev);
    assert(r2.image =~= r.image);
    assert(r2.told =~= r.told);
    lemma_first_covering_covers(cfg.partitions, st.pos);
    match st.phase {
        Phase::SectorZero => {
            if r2.state.phase !is Finished {
                assert(disk.subrange(0, bytes.len() as int) == bytes);
                assert(bytes[510] == disk[510] && bytes[511] == disk[511]);
                lemma_advance_is_sound(
                    cfg,
                    disk,
                    devices,
                    StreamState { sector_zero: bytes, ..st },
                    r2,
                );
            }
        },
        Phase::Primary => {
            law_chunk_is_not_empty(cfg, st.pos);
            if st.pos == 0 {
                let data = st.sector_zero + bytes;
                assert(data =~= disk.subrange(0, data.len() as int)) by {
                    assert forall|i: int| 0 <= i < data.len() implies data[i] == disk[i] by {
                        if i < SECTOR_SIZE {
                            assert(disk.subrange(0, SECTOR_SIZE as int)[i] == disk[i]);
                        } else {
                            assert(bytes[i - SECTOR_SIZE] == disk[i]);
                        }
                    }
                }
                lemma_start_is_right(cfg, disk, devices, data);
            } else {
                lemma_chunk_is_right(cfg, disk, devices, r2.telling, st.pos, bytes);
            }
        },
        _ => {
            if bytes.len() > 0 {
                lemma_chunk_is_right(cfg, disk, devices, r2.telling, st.pos, bytes);
            }
        },
    }
}

proof fn lemma_step_is_sound(
    cfg: ImageConfig,
    disk: Seq<u8>,
    devices: Map<Seq<char>, Seq<u8>>,
    r: Run,
    ev: EventView,
)
    requires
        cfg.valid(),
        sound(cfg, disk, devices, r),
        possible_event(disk, devices, r, ev),
    ensures
        sound(cfg, disk, devices, run_step(cfg, r, ev)),
{
    let r2 = run_step(cfg, r, ev);
    law_stream_stays_consistent(cfg, r.state, ev);
    match ev {
        EventView::Read(Ok(bytes)) => lemma_read_is_sound(cfg, disk, devices, r, bytes),
        EventView::Wrote(Ok(n)) => {
            let data = r.asked->0->data;
            let taken = data.take(n);
            let told = for_each(taken.len(), r.telling);
            assert(sourced_bytes(cfg, disk, devices, told, r.state.pos, taken)) by {
                assert forall|i: int| 0 <= i < taken.len() implies sourced_byte(
                    cfg,
                    disk,
                    devices,
                    told[i],
                    r.state.pos + i,
                    #[trigger] taken[i],
                ) by {
                    assert(taken[i] == data[i]);
                    assert(for_each(data.len(), r.telling)[i] == told[i]);
                }
            }
            lemma_append_right(cfg, disk, devices, r.told, r.image, told, taken);
            lemma_advance_is_sound(
                cfg,
                disk,
                devices,
                StreamState { pos: r.state.pos + n, ..r.state },
                r2,
            );
        },
        _ => {
            assert(r2.image =~= r.image);
            assert(r2.told =~= r.told);
        },
    }
}

proof fn lemma_run_is_sound(
    cfg: ImageConfig,
    disk: Seq<u8>,
    devices: Map<Seq<char>, Seq<u8>>,
    events: Seq<EventView>,
)
    requires
        cfg.valid(),
        possible(cfg, disk, devices, events),
    ensures
        sound(cfg, disk, devices, run(cfg, events)),
    decreases events.len(),
{
    if events.len() > 0 {
        lemma_run_is_sound(cfg, disk, devices, events.drop_last());
        lemma_step_is_sound(cfg, disk, devices, run(cfg, events.drop_last()), events.last());
    }
}

/// At every moment the sink holds a prefix of the image in which each byte is
/// right, at the offset that it has on the disk: one of a partition with a
/// shadow copy comes from there, but for the chunks with which the user was told
/// otherwise.
pub proof fn law_image_is_right(
    cfg: ImageConfig,
    disk: Seq<u8>,
    devices: Map<Seq<char>, Seq<u8>>,
    events: Seq<EventView>,
)
    requires
        cfg.valid(),
        possible(cfg, disk, devices, events),
    ensures
        run(cfg, events).image.len() == run(cfg, events).state.pos,
        right_bytes(cfg, disk, devices, run(cfg, events).told, 0, run(cfg, events).image),
{
    lemma_run_is_sound(cfg, disk, devices, events);
    let r = run(cfg, events);
    lemma_sourced_image_is_right(cfg, disk, devices, r.told, r.image);
}

/// A partition that is left out is zero in the image, all of it that lies between
/// the GPT areas, whether or not it has a shadow copy, and nothing is said of it.
pub proof fn law_excluded_partition_is_zero(
    cfg: ImageConfig,
    disk: Seq<u8>,
    devices: Map<Seq<char>, Seq<u8>>,
    events: Seq<EventView>,
    p: int,
    i: int,
)
    requires
        cfg.valid(),
        possible(cfg, disk, devices, events),
        0 <= p < run(cfg, events).image.len(),
        !in_gpt(cfg.disk_length, p),
        holder(cfg.partitions, p, i),
        cfg.excluded.contains(cfg.partitions[i].partition_number),
    ensures
        run(cfg, events).image[p] == 0,
        run(cfg, events).told[p] is None,
        cfg.source_at(p) == (ChunkSource::Excluded {
            number: cfg.partitions[i].partition_number,
        }),
{
    law_image_is_right(cfg, disk, devices, events);
    law_source_goes_by_holder(cfg, p, i);
    let r = run(cfg, events);
    assert(right_byte(cfg, disk, devices, r.told[p], 0 + p, r.image[p]));
}

/// Whenever a shadow copy is read, the one that was opened last is that of the
/// partition that holds the place the image has reached, and it is read at the
/// distance of that place from the start of the partition.
pub proof fn law_shadow_is_read_from_its_device(
    cfg: ImageConfig,
    disk: Seq<u8>,
    devices: Map<Seq<char>, Seq<u8>>,
    events: Seq<EventView>,
) -> (i: int)
    requires
        cfg.valid(),
        possible(cfg, disk, devices, events),
        run(cfg, events).asked matches Some(OpView::ReadShadow { .. }),
    ensures
        ({
            let r = run(cfg, events);
            let p = r.image.len() as int;
            let q = cfg.partitions[i];
            &&& !in_gpt(cfg.disk_length, p)
            &&& holder(cfg.partitions, p, i)
            &&& !cfg.excluded.contains(q.partition_number)
            &&& cfg.shadows.contains_key(q.starting_offset)
            &&& r.open == Some(device_path(cfg.shadows[q.starting_offset]@))
            &&& r.asked->0->ReadShadow_offset == p - q.starting_offset
        }),
{
    lemma_run_is_sound(cfg, disk, devices, events);
    let r = run(cfg, events);
    let p = r.state.pos;
    assert(r.state.phase is Shadow);
    let i = lemma_covering_is_holder(cfg.partitions, p);
    law_source_goes_by_holder(cfg, p, i);
    i
}

/// Nothing is written of a disk whose first sector does not end in the bytes
/// of a boot sector.
pub proof fn law_only_bootable_disks_are_written(
    cfg: ImageConfig,
    disk: Seq<u8>,
    devices: Map<Seq<char>, Seq<u8>>,
    events: Seq<EventView>,
)
    requires
        cfg.valid(),
        possible(cfg, disk, devices, events),
    ensures
        run(cfg, events).image.len() > 0 ==> disk[510] == 0x55 && disk[511] == 0xAA,
        run(cfg, events).asked matches Some(OpView::Write { .. }) ==> disk[510] == 0x55
            && disk[511] == 0xAA,
{
    lemma_run_is_sound(cfg, disk, devices, events);
}

/// A clone that finishes has written the whole image: as many bytes as the
/// disk has, each of them right.
pub proof fn law_finished_image_is_complete(
    cfg: ImageConfig,
    disk: Seq<u8>,
    devices: Map<Seq<char>, Seq<u8>>,
    events: Seq<EventView>,
)
    requires
        cfg.valid(),
        possible(cfg, disk, devices, events),
        run(cfg, events).asked matches Some(OpView::Finish { .. }),
    ensures
        run(cfg, events).asked == Some(OpView::Finish { total_written: cfg.disk_length }),
        run(cfg, events).image.len() == cfg.disk_length,
        right_bytes(cfg, disk, devices, run(cfg, events).told, 0, run(cfg, events).image),
{
    lemma_run_is_sound(cfg, disk, devices, events);
    let r = run(cfg, events);
    assert(r.state.phase is Finished);
    lemma_sourced_image_is_right(cfg, disk, devices, r.told, r.image);
}

/// The disk holds zeros in the gaps between its partitions, no partition is
/// excluded, and each shadow copy holds what its partition holds on the disk.
pub open spec fn faithful_sources(
    cfg: ImageConfig,
    disk: Seq<u8>,
    devices: Map<Seq<char>, Seq<u8>>,
) -> bool {
    &&& forall|p: int, i: int|
        0 <= p < cfg.disk_length && !in_gpt(cfg.disk_length, p) && #[trigger] holder(
            cfg.partitions,
            p,
            i,
        ) ==> !cfg.excluded.contains(cfg.partitions[i].partition_number)
    &&& forall|p: int|
        0 <= p < cfg.disk_length && !in_gpt(cfg.disk_length, p) && (forall|i: int|
            0 <= i < cfg.partitions.len() ==> !holds(#[trigger] cfg.partitions[i], p))
            ==> #[trigger] disk[p] == 0
    &&& forall|p: int, i: int|
        0 <= p < cfg.disk_length && !in_gpt(cfg.disk_length, p) && #[trigger] holder(
            cfg.partitions,
            p,
            i,
        ) && cfg.shadows.contains_key(cfg.partitions[i].starting_offset) ==> shadow_content(
            cfg,
            devices,
            cfg.partitions[i].starting_offset,
        )[p - cfg.partitions[i].starting_offset] == disk[p]
}

/// Where nothing is left out and the shadow copies hold what the disk holds,
/// a clone that finishes has made an exact copy of the disk.
pub proof fn law_clone_is_exact_copy(
    cfg: ImageConfig,
    disk: Seq<u8>,
    devices: Map<Seq<char>, Seq<u8>>,
    events: Seq<EventView>,
)
    requires
        cfg.valid(),
        disk.len() == cfg.disk_length,
        faithful_sources(cfg, disk, devices),
        possible(cfg, disk, devices, events),
        run(cfg, events).asked matches Some(OpView::Finish { .. }),
    ensures
        run(cfg, events).image == disk,
{
    law_finished_image_is_complete(cfg, disk, devices, events);
    let r = run(cfg, events);
    assert forall|p: int| 0 <= p < disk.len() implies r.image[p] == disk[p] by {
        assert(right_byte(cfg, disk, devices, r.told[p], 0 + p, r.image[p]));
        let i = lemma_covering_is_holder(cfg.partitions, p);
        if first_covering(cfg.partitions, p) is Some {
            assert(holder(cfg.partitions, p, i));
        }
    }
    assert(r.image =~= disk);
}

/// What comes of an operation where every device gives all that it is asked
/// for and the sink takes all that it is given.
pub open spec fn full_answer(disk: Seq<u8>, devices: Map<Seq<char>, Seq<u8>>, r: Run) -> EventView {
    match r.asked {
        None => EventView::Start,
        Some(OpView::ReadDisk { offset, len }) => EventView::Read(
            Ok(disk.subrange(offset, offset + len)),
        ),
        Some(OpView::OpenShadow { .. }) => EventView::Opened(Ok(())),
        Some(OpView::ReadShadow { offset, len }) => EventView::Read(
            Ok(devices[r.open->0].subrange(offset, offset + len)),
        ),
        Some(OpView::Write { data }) => EventView::Wrote(Ok(data.len() as int)),
        _ => EventView::Flushed(Ok(())),
    }
}

/// The first `n` events of an undisturbed clone.
pub open spec fn undisturbed(
    cfg: ImageConfig,
    disk: Seq<u8>,
    devices: Map<Seq<char>, Seq<u8>>,
    n: nat,
) -> Seq<EventView>
    decreases n,
{
    if n == 0 {
        seq![]
    } else {
        let events = undisturbed(cfg, disk, devices, (n - 1) as nat);
        events.push(full_answer(disk, devices, run(cfg, events)))
    }
}

/// The disk is as long as it is said to be, and reaches as far as the first
/// read behind the boot sector that it starts with; the shadow copies reach as
/// far as their partitions do.
pub open spec fn readable_sources(
    cfg: ImageConfig,
    disk: Seq<u8>,
    devices: Map<Seq<char>, Seq<u8>>,
) -> bool {
    &&& disk.len() == cfg.disk_length
    &&& cfg.disk_length >= cfg.buffer_size || cfg.disk_length >= 34 * 512
    &&& disk[510] == 0x55 && disk[511] == 0xAA
    &&& forall|p: int, i: int|
        0 <= p < cfg.disk_length && !in_gpt(cfg.disk_length, p) && #[trigger] holder(
            cfg.partitions,
            p,
            i,
        ) && !cfg.excluded.contains(cfg.partitions[i].partition_number)
            && cfg.shadows.contains_key(cfg.partitions[i].starting_offset) ==> p
            - cfg.partitions[i].starting_offset < shadow_content(
            cfg,
            devices,
            cfg.partitions[i].starting_offset,
        ).len()
}

spec fn after(cfg: ImageConfig, disk: Seq<u8>, devices: Map<Seq<char>, Seq<u8>>, n: nat) -> Run {
    run(cfg, undisturbed(cfg, disk, devices, n))
}

proof fn lemma_after_next(cfg: ImageConfig, disk: Seq<u8>, devices: Map<Seq<char>, Seq<u8>>, n: nat)
    ensures
        after(cfg, disk, devices, n + 1) == run_step(
            cfg,
            after(cfg, disk, devices, n),
            full_answer(disk, devices, after(cfg, disk, devices, n)),
        ),
        possible(cfg, disk, devices, undisturbed(cfg, disk, devices, n)) && possible_event(
            disk,
            devices,
            after(cfg, disk, devices, n),
            full_answer(disk, devices, after(cfg, disk, devices, n)),
        ) ==> possible(cfg, disk, devices, undisturbed(cfg, disk, devices, n + 1)),
{
    let events = undisturbed(cfg, disk, devices, n);
    let ev = full_answer(disk, devices, run(cfg, events));
    assert(events.push(ev).drop_last() =~= events);
}

/// The user was told of no partition whose shadow copy gave no data.
pub open spec fn untold(told: Seq<Option<u32>>) -> bool {
    forall|i: int| 0 <= i < told.len() ==> #[trigger] told[i] is None
}

/// The run was just told what to do at the position it has reached.
spec fn at_chunk(cfg: ImageConfig, r: Run, st: StreamState) -> bool {
    &&& r.state == advancing(cfg, st).0
    &&& r.asked == Some(advancing(cfg, st).1.op)
    &&& st.sector_zero.len() == SECTOR_SIZE
    &&& 0 <= st.pos <= cfg.disk_length
    &&& r.telling is None
    &&& untold(r.told)
}

/// Nothing is taken by the sink unless the event says so.
proof fn lemma_nothing_taken(cfg: ImageConfig, r: Run, ev: EventView)
    requires
        ev !is Wrote,
    ensures
        run_step(cfg, r, ev).image == r.image,
        run_step(cfg, r, ev).told == r.told,
{
    assert(run_step(cfg, r, ev).image =~= r.image);
    assert(run_step(cfg, r, ev).told =~= r.told);
}

proof fn lemma_chunk_is_written(
    cfg: ImageConfig,
    disk: Seq<u8>,
    devices: Map<Seq<char>, Seq<u8>>,
    n: nat,
    st: StreamState,
) -> (m: nat)
    requires
        cfg.valid(),
        readable_sources(cfg, disk, devices),
        st.pos < cfg.disk_length,
        possible(cfg, disk, devices, undisturbed(cfg, disk, devices, n)),
        at_chunk(cfg, after(cfg, disk, devices, n), st),
    ensures
        possible(cfg, disk, devices, undisturbed(cfg, disk, devices, m)),
        after(cfg, disk, devices, m).state.phase is Writing,
        after(cfg, disk, devices, m).state.pos == st.pos,
        after(cfg, disk, devices, m).state.sector_zero == st.sector_zero,
        after(cfg, disk, devices, m).telling is None,
        untold(after(cfg, disk, devices, m).told),
        after(cfg, disk, devices, m).asked matches Some(OpView::Write { data })
            && 0 < data.len() && st.pos + data.len() <= cfg.disk_length,
{
    law_chunk_is_not_empty(cfg, st.pos);
    lemma_first_covering_covers(cfg.partitions, st.pos);
    let end = cfg.chunk_end(st.pos);
    let r0 = after(cfg, disk, devices, n);
    let ev0 = full_answer(disk, devices, r0);
    lemma_after_next(cfg, disk, devices, n);
    match cfg.source_at(st.pos) {
        ChunkSource::Gap | ChunkSource::Excluded { .. } => n,
        ChunkSource::Shadow { number, start } => {
            let r1 = after(cfg, disk, devices, n + 1);
            let ev1 = full_answer(disk, devices, r1);
            lemma_nothing_taken(cfg, r0, ev0);
            lemma_after_next(cfg, disk, devices, n + 1);
            lemma_nothing_taken(cfg, r1, ev1);
            law_chunk_has_one_source(cfg, st.pos, end - 1);
            assert(cfg.source_at(end - 1) == cfg.source_at(st.pos));
            let i = lemma_covering_is_holder(cfg.partitions, end - 1);
            assert(holder(cfg.partitions, end - 1, i));
            law_source_goes_by_holder(cfg, end - 1, i);
            n + 2
        },
        ChunkSource::PrimaryGpt => {
            if st.pos == 0 && behind_sector_zero(cfg) == 0 {
                n
            } else {
                lemma_nothing_taken(cfg, r0, ev0);
                n + 1
            }
        },
        _ => {
            lemma_nothing_taken(cfg, r0, ev0);
            n + 1
        },
    }
}

proof fn lemma_undisturbed_finishes(
    cfg: ImageConfig,
    disk: Seq<u8>,
    devices: Map<Seq<char>, Seq<u8>>,
    n: nat,
    st: StreamState,
) -> (m: nat)
    requires
        cfg.valid(),
        readable_sources(cfg, disk, devices),
        possible(cfg, disk, devices, undisturbed(cfg, disk, devices, n)),
        at_chunk(cfg, after(cfg, disk, devices, n), st),
    ensures
        possible(cfg, disk, devices, undisturbed(cfg, disk, devices, m)),
        after(cfg, disk, devices, m).asked == Some(
            OpView::Finish { total_written: cfg.disk_length },
        ),
        untold(after(cfg, disk, devices, m).told),
    decreases cfg.disk_length - st.pos,
{
    if st.pos < cfg.disk_length {
        let k = lemma_chunk_is_written(cfg, disk, devices, n, st);
        lemma_after_next(cfg, disk, devices, k);
        let r = after(cfg, disk, devices, k);
        let data = r.asked->0->data;
        lemma_undisturbed_finishes(
            cfg,
            disk,
            devices,
            k + 1,
            StreamState { pos: st.pos + data.len(), ..r.state },
        )
    } else {
        lemma_after_next(cfg, disk, devices, n);
        n + 1
    }
}

/// An undisturbed clone of a readable disk finishes, having read every
/// shadow copy that there is.
pub proof fn law_undisturbed_clone_finishes(
    cfg: ImageConfig,
    disk: Seq<u8>,
    devices: Map<Seq<char>, Seq<u8>>,
)
    requires
        cfg.valid(),
        readable_sources(cfg, disk, devices),
    ensures
        exists|n: nat|
            {
                let events = #[trigger] undisturbed(cfg, disk, devices, n);
                let r = run(cfg, events);
                &&& possible(cfg, disk, devices, events)
                &&& r.asked == Some(OpView::Finish { total_written: cfg.disk_length })
                &&& untold(r.told)
            },
{
    reveal_with_fuel(undisturbed, 3);
    assert(possible(cfg, disk, devices, undisturbed(cfg, disk, devices, 0)));
    lemma_after_next(cfg, disk, devices, 0);
    lemma_after_next(cfg, disk, devices, 1);
    let sector = disk.subrange(0, 0 + SECTOR_SIZE);
    assert(boot_signature(sector) == boot_signature(disk));
    let st = StreamState { sector_zero: sector, ..after(cfg, disk, devices, 1).state };
    let m = lemma_undisturbed_finishes(cfg, disk, devices, 2, st);
    assert(after(cfg, disk, devices, m) == run(cfg, undisturbed(cfg, disk, devices, m)));
}

} // verus!

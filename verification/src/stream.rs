//! Streaming of a disk image.
//!
//! The stream decides what is read and written next. Whoever drives it
//! performs one operation at a time and hands back what came of it.

use std::collections::HashSet;

use vstd::prelude::*;

use crate::disk::{device_path, drive_path, physical_drive_path, shadow_device_path, GPT_SIZE, SECTOR_SIZE};
use crate::error::{DiskCloneError, ErrorView};
use crate::image_builder::{excluded_set, min, ChunkSource, ImageBuilder, ImageConfig};
use crate::text::{decimal, hex4, push_decimal, push_hex4};

verus! {

broadcast use vstd::std_specs::hash::group_hash_axioms;

/// Type of data source being streamed.
#[derive(Debug, Clone, Copy, PartialEq, Eq, Structural)]
pub enum StreamSourceType {
    PrimaryGpt,
    BackupGpt,
    Gap,
    PartitionVss,
    PartitionRaw,
    PartitionExcluded,
}

impl Default for StreamSourceType {
    fn default() -> (r: Self)
        ensures
            r == StreamSourceType::PrimaryGpt,
    {
        StreamSourceType::PrimaryGpt
    }
}

/// Current streaming region info for progress display.
#[derive(Debug, Clone)]
pub struct StreamRegionInfo {
    pub partition_num: Option<u32>,
    pub source_type: StreamSourceType,
    pub path: Option<String>,
}

impl Default for StreamRegionInfo {
    fn default() -> (r: Self)
        ensures
            r@ == region(StreamSourceType::PrimaryGpt),
    {
        StreamRegionInfo {
            partition_num: None,
            source_type: StreamSourceType::PrimaryGpt,
            path: None,
        }
    }
}

/// A [`StreamRegionInfo`] over the characters of its path.
pub struct RegionInfoView {
    pub partition_num: Option<u32>,
    pub source_type: StreamSourceType,
    pub path: Option<Seq<char>>,
}

impl View for StreamRegionInfo {
    type V = RegionInfoView;

    open spec fn view(&self) -> RegionInfoView {
        RegionInfoView {
            partition_num: self.partition_num,
            source_type: self.source_type,
            path: match self.path {
                Some(p) => Some(p@),
                None => None,
            },
        }
    }
}

/// One operation that the stream asks for.
#[derive(Debug)]
pub enum StreamOp {
    /// Read up to `len` bytes of the disk from `offset` on.
    ReadDisk { offset: u64, len: usize },
    /// Open the shadow copy at `path`. It takes the place of the one that was
    /// open before.
    OpenShadow { path: String },
    /// Read up to `len` bytes of the open shadow copy from `offset` on.
    ReadShadow { offset: u64, len: usize },
    /// Write `data` to the sink.
    Write { data: Vec<u8> },
    /// Flush the sink.
    Flush,
    /// The image is complete.
    Finish { total_written: u64 },
    /// The clone failed.
    Fail { error: DiskCloneError },
}

/// A [`StreamOp`] over numbers, bytes and characters.
pub enum OpView {
    ReadDisk { offset: int, len: int },
    OpenShadow { path: Seq<char> },
    ReadShadow { offset: int, len: int },
    Write { data: Seq<u8> },
    Flush,
    Finish { total_written: int },
    Fail { error: ErrorView },
}

impl View for StreamOp {
    type V = OpView;

    open spec fn view(&self) -> OpView {
        match self {
            StreamOp::ReadDisk { offset, len } => OpView::ReadDisk {
                offset: *offset as int,
                len: *len as int,
            },
            StreamOp::OpenShadow { path } => OpView::OpenShadow { path: path@ },
            StreamOp::ReadShadow { offset, len } => OpView::ReadShadow {
                offset: *offset as int,
                len: *len as int,
            },
            StreamOp::Write { data } => OpView::Write { data: data@ },
            StreamOp::Flush => OpView::Flush,
            StreamOp::Finish { total_written } => OpView::Finish {
                total_written: *total_written as int,
            },
            StreamOp::Fail { error } => OpView::Fail { error: error@ },
        }
    }
}

/// One step of the stream: what is told to the user, in this order, and then
/// what is done.
#[derive(Debug)]
pub struct StreamStep {
    /// The partition whose shadow copy gave no data and that is now read from
    /// the disk.
    pub fallback: Option<u32>,
    /// The region that is now being streamed.
    pub report: Option<StreamRegionInfo>,
    pub op: StreamOp,
}

/// A [`StreamStep`] over the views of its parts.
pub struct StepView {
    pub fallback: Option<u32>,
    pub report: Option<RegionInfoView>,
    pub op: OpView,
}

impl View for StreamStep {
    type V = StepView;

    open spec fn view(&self) -> StepView {
        StepView {
            fallback: self.fallback,
            report: match self.report {
                Some(r) => Some(r@),
                None => None,
            },
            op: self.op@,
        }
    }
}

/// What came of an operation.
#[derive(Debug)]
pub enum StreamEvent {
    /// Nothing has been asked for yet.
    Start,
    /// The bytes that were read.
    Read(Result<Vec<u8>, DiskCloneError>),
    Opened(Result<(), DiskCloneError>),
    /// The number of bytes that the sink took.
    Wrote(Result<usize, DiskCloneError>),
    Flushed(Result<(), DiskCloneError>),
}

/// A [`StreamEvent`] over numbers, bytes and characters.
pub enum EventView {
    Start,
    Read(Result<Seq<u8>, ErrorView>),
    Opened(Result<(), ErrorView>),
    Wrote(Result<int, ErrorView>),
    Flushed(Result<(), ErrorView>),
}

impl View for StreamEvent {
    type V = EventView;

    open spec fn view(&self) -> EventView {
        match self {
            StreamEvent::Start => EventView::Start,
            StreamEvent::Read(Ok(b)) => EventView::Read(Ok(b@)),
            StreamEvent::Read(Err(e)) => EventView::Read(Err(e@)),
            StreamEvent::Opened(Ok(_)) => EventView::Opened(Ok(())),
            StreamEvent::Opened(Err(e)) => EventView::Opened(Err(e@)),
            StreamEvent::Wrote(Ok(n)) => EventView::Wrote(Ok(*n as int)),
            StreamEvent::Wrote(Err(e)) => EventView::Wrote(Err(e@)),
            StreamEvent::Flushed(Ok(_)) => EventView::Flushed(Ok(())),
            StreamEvent::Flushed(Err(e)) => EventView::Flushed(Err(e@)),
        }
    }
}

/// What the stream waits for.
#[derive(Debug, Clone, Copy, PartialEq, Eq, Structural)]
pub enum Phase {
    /// To be started.
    Ready,
    /// The first sector of the disk.
    SectorZero,
    /// Bytes of the primary GPT.
    Primary,
    /// Bytes of the backup GPT.
    Backup,
    /// The shadow copy of a partition to be opened.
    Opening { number: u32, start: u64 },
    /// Bytes of the shadow copy of a partition.
    Shadow { number: u32, start: u64, retried: bool },
    /// Bytes of the disk where the shadow copy gave none.
    Fallback { number: u32, start: u64 },
    /// Bytes of a partition from the disk.
    Raw { number: u32, start: u64 },
    /// The sink to take bytes.
    Writing,
    /// The sink to be flushed.
    Flushing,
    /// Nothing: the clone is complete or has failed.
    Finished,
}

/// The state of a stream.
pub struct StreamState {
    pub phase: Phase,
    /// How much of the image the sink has taken.
    pub pos: int,
    /// How many bytes were last asked for.
    pub want: int,
    /// The first sector of the disk, once it is read.
    pub sector_zero: Seq<u8>,
}

/// The signature in the last two bytes of a boot sector.
pub open spec fn boot_signature(sector: Seq<u8>) -> u16 {
    (sector[510] + 256 * sector[511]) as u16
}

/// The signature of a valid boot sector.
pub const BOOT_SIGNATURE: u16 = 0xAA55;

pub open spec fn invalid_boot_text(signature: u16) -> Seq<char> {
    "Disk sector 0 invalid MBR (0x"@ + hex4(signature) + "), cannot proceed"@
}

pub open spec fn zero_read_text(pos: int, area: Seq<char>) -> Seq<char> {
    "Zero-byte read at offset "@ + decimal(pos as nat) + area
}

pub open spec fn zero_partition_read_text(pos: int, number: u32, volume_offset: int) -> Seq<char> {
    "Zero-byte read at disk offset "@ + decimal(pos as nat) + " (partition "@ + decimal(
        number as nat,
    ) + ", volume offset "@ + decimal(volume_offset as nat)
        + "). VSS retry and raw fallback both failed."@
}

pub open spec fn incomplete_text(written: int, expected: int) -> Seq<char> {
    "Incomplete clone: wrote "@ + decimal(written as nat) + " bytes ("@ + decimal(
        (written / 1073741824) as nat,
    ) + " GB), expected "@ + decimal(expected as nat) + " bytes ("@ + decimal(
        (expected / 1073741824) as nat,
    ) + " GB)"@
}

/// The report of a region that is no partition.
pub open spec fn region(source_type: StreamSourceType) -> RegionInfoView {
    RegionInfoView { partition_num: None, source_type, path: None }
}

/// The report of a partition.
pub open spec fn partition_region(
    number: u32,
    source_type: StreamSourceType,
    path: Option<Seq<char>>,
) -> RegionInfoView {
    RegionInfoView { partition_num: Some(number), source_type, path }
}

/// A step that tells the user nothing.
pub open spec fn silent(op: OpView) -> StepView {
    StepView { fallback: None, report: None, op }
}

/// A step that reports a region.
pub open spec fn reporting(info: RegionInfoView, op: OpView) -> StepView {
    StepView { fallback: None, report: Some(info), op }
}

/// `n` zeros.
pub open spec fn zeros(n: int) -> Seq<u8> {
    Seq::new(n as nat, |i: int| 0u8)
}

pub open spec fn failing(st: StreamState, error: ErrorView) -> (StreamState, StepView) {
    (StreamState { phase: Phase::Finished, want: 0, ..st }, silent(OpView::Fail { error }))
}

/// Hands `data` to the sink, with what the user is told; where it is empty,
/// fails with `refusal`.
pub open spec fn writing(
    st: StreamState,
    data: Seq<u8>,
    refusal: Seq<char>,
    fallback: Option<u32>,
    report: Option<RegionInfoView>,
) -> (StreamState, StepView) {
    if data.len() == 0 {
        failing(st, ErrorView::Other(refusal))
    } else {
        (
            StreamState { phase: Phase::Writing, want: data.len() as int, ..st },
            StepView { fallback, report, op: OpView::Write { data } },
        )
    }
}

/// How much of the primary GPT is read behind the first sector, which has been
/// read before: as much as the buffer holds.
pub open spec fn behind_sector_zero(cfg: ImageConfig) -> int {
    min(cfg.buffer_size, GPT_SIZE as int) - SECTOR_SIZE
}

/// Turns to what follows the part of the image that is written.
pub open spec fn advancing(cfg: ImageConfig, st: StreamState) -> (StreamState, StepView) {
    let pos = st.pos;
    if pos >= cfg.disk_length {
        (StreamState { phase: Phase::Flushing, want: 0, ..st }, silent(OpView::Flush))
    } else {
        let len = cfg.chunk_end(pos) - pos;
        let zeroed = StreamState { phase: Phase::Writing, want: len, ..st };
        match cfg.source_at(pos) {
            ChunkSource::PrimaryGpt => {
                let (offset, len) = if pos == 0 {
                    (SECTOR_SIZE as int, behind_sector_zero(cfg))
                } else {
                    (pos, len)
                };
                if len == 0 {
                    (
                        StreamState {
                            phase: Phase::Writing,
                            want: st.sector_zero.len() as int,
                            ..st
                        },
                        reporting(
                            region(StreamSourceType::PrimaryGpt),
                            OpView::Write { data: st.sector_zero },
                        ),
                    )
                } else {
                    (
                        StreamState { phase: Phase::Primary, want: len, ..st },
                        reporting(
                            region(StreamSourceType::PrimaryGpt),
                            OpView::ReadDisk { offset, len },
                        ),
                    )
                }
            },
            ChunkSource::BackupGpt => (
                StreamState { phase: Phase::Backup, want: len, ..st },
                reporting(
                    region(StreamSourceType::BackupGpt),
                    OpView::ReadDisk { offset: pos, len },
                ),
            ),
            ChunkSource::Gap => (
                zeroed,
                reporting(region(StreamSourceType::Gap), OpView::Write { data: zeros(len) }),
            ),
            ChunkSource::Excluded { number } => (
                zeroed,
                reporting(
                    partition_region(number, StreamSourceType::PartitionExcluded, None),
                    OpView::Write { data: zeros(len) },
                ),
            ),
            ChunkSource::Shadow { number, start } => (
                StreamState { phase: Phase::Opening { number, start }, want: len, ..st },
                silent(OpView::OpenShadow { path: device_path(cfg.shadows[start]@) }),
            ),
            ChunkSource::Raw { number, start } => (
                StreamState { phase: Phase::Raw { number, start }, want: len, ..st },
                reporting(
                    partition_region(
                        number,
                        StreamSourceType::PartitionRaw,
                        Some(drive_path(cfg.disk_number)),
                    ),
                    OpView::ReadDisk { offset: pos, len },
                ),
            ),
        }
    }
}

/// What the stream does once `bytes` were read.
pub open spec fn after_read(cfg: ImageConfig, st: StreamState, bytes: Seq<u8>) -> (
    StreamState,
    StepView,
) {
    let pos = st.pos;
    match st.phase {
        Phase::SectorZero => if bytes.len() < SECTOR_SIZE {
            failing(st, ErrorView::Other("Failed to read sector 0"@))
        } else if boot_signature(bytes) != BOOT_SIGNATURE {
            failing(st, ErrorView::Other(invalid_boot_text(boot_signature(bytes))))
        } else {
            advancing(cfg, StreamState { sector_zero: bytes, ..st })
        },
        Phase::Primary => writing(
            st,
            if pos == 0 {
                st.sector_zero + bytes
            } else {
                bytes
            },
            zero_read_text(pos, " (primary GPT)"@),
            None,
            None,
        ),
        Phase::Backup => writing(
            st,
            bytes,
            zero_read_text(pos, " (backup GPT)"@),
            None,
            None,
        ),
        Phase::Shadow { number, start, retried } => if bytes.len() > 0 {
            writing(st, bytes, seq![], None, None)
        } else if !retried {
            (
                StreamState { phase: Phase::Shadow { number, start, retried: true }, ..st },
                silent(OpView::ReadShadow { offset: pos - start, len: st.want }),
            )
        } else {
            (
                StreamState { phase: Phase::Fallback { number, start }, ..st },
                silent(OpView::ReadDisk { offset: pos, len: st.want }),
            )
        },
        Phase::Fallback { number, start } => writing(
            st,
            bytes,
            zero_partition_read_text(pos, number, pos - start),
            Some(number),
            Some(
                partition_region(
                    number,
                    StreamSourceType::PartitionRaw,
                    Some(drive_path(cfg.disk_number)),
                ),
            ),
        ),
        Phase::Raw { number, start } => writing(
            st,
            bytes,
            zero_partition_read_text(pos, number, pos),
            None,
            None,
        ),
        _ => arbitrary(),
    }
}

/// The event is an outcome of what the stream last asked for.
pub open spec fn accepts(st: StreamState, ev: EventView) -> bool {
    match ev {
        EventView::Start => st.phase is Ready,
        EventView::Read(r) => {
            &&& st.phase is SectorZero || st.phase is Primary || st.phase is Backup
                || st.phase is Shadow || st.phase is Fallback || st.phase is Raw
            &&& r matches Ok(b) ==> b.len() <= st.want
        },
        EventView::Opened(_) => st.phase is Opening,
        EventView::Wrote(r) => {
            &&& st.phase is Writing
            &&& r matches Ok(n) ==> 0 <= n && st.pos + n <= u64::MAX
        },
        EventView::Flushed(_) => st.phase is Flushing,
    }
}

/// The state and the step that follow an event that the stream accepts.
pub open spec fn next(cfg: ImageConfig, st: StreamState, ev: EventView) -> (StreamState, StepView) {
    match ev {
        EventView::Start => (
            StreamState { phase: Phase::SectorZero, want: SECTOR_SIZE as int, ..st },
            silent(OpView::ReadDisk { offset: 0, len: SECTOR_SIZE as int }),
        ),
        EventView::Read(Ok(bytes)) => after_read(cfg, st, bytes),
        EventView::Opened(Ok(_)) => match st.phase {
            Phase::Opening { number, start } => (
                StreamState { phase: Phase::Shadow { number, start, retried: false }, ..st },
                reporting(
                    partition_region(
                        number,
                        StreamSourceType::PartitionVss,
                        Some(device_path(cfg.shadows[start]@)),
                    ),
                    OpView::ReadShadow { offset: st.pos - start, len: st.want },
                ),
            ),
            _ => arbitrary(),
        },
        EventView::Wrote(Ok(n)) => advancing(cfg, StreamState { pos: st.pos + n, ..st }),
        EventView::Flushed(Ok(_)) => if st.pos == cfg.disk_length {
            (
                StreamState { phase: Phase::Finished, want: 0, ..st },
                silent(OpView::Finish { total_written: st.pos }),
            )
        } else {
            failing(st, ErrorView::Other(incomplete_text(st.pos, cfg.disk_length)))
        },
        EventView::Read(Err(e)) => failing(st, e),
        EventView::Opened(Err(e)) => failing(st, e),
        EventView::Wrote(Err(e)) => failing(st, e),
        EventView::Flushed(Err(e)) => failing(st, e),
    }
}

/// The state of a stream that was not started.
pub open spec fn initial() -> StreamState {
    StreamState { phase: Phase::Ready, pos: 0, want: 0, sector_zero: seq![] }
}

/// What holds of every state that a stream can be in: the phase belongs to
/// the region that is being streamed, and what was asked for fits in memory.
pub open spec fn consistent(cfg: ImageConfig, st: StreamState) -> bool {
    &&& 0 <= st.pos <= u64::MAX
    &&& 0 <= st.want <= usize::MAX
    &&& match st.phase {
        Phase::Ready => st.pos == 0 && st.want == 0,
        Phase::SectorZero => st.pos == 0 && st.want == SECTOR_SIZE,
        Phase::Primary => st.pos < cfg.disk_length && cfg.source_at(st.pos) is PrimaryGpt,
        Phase::Backup => st.pos < cfg.disk_length && cfg.source_at(st.pos) is BackupGpt,
        Phase::Opening { number, start } => st.pos < cfg.disk_length && cfg.source_at(st.pos)
            == (ChunkSource::Shadow { number, start }),
        Phase::Shadow { number, start, retried } => st.pos < cfg.disk_length && cfg.source_at(
            st.pos,
        ) == (ChunkSource::Shadow { number, start }),
        Phase::Fallback { number, start } => st.pos < cfg.disk_length && cfg.source_at(st.pos)
            == (ChunkSource::Shadow { number, start }),
        Phase::Raw { number, start } => st.pos < cfg.disk_length && cfg.source_at(st.pos) == (
        ChunkSource::Raw { number, start }),
        Phase::Writing => true,
        Phase::Flushing => st.pos >= cfg.disk_length,
        Phase::Finished => true,
    }
    &&& !(st.phase is Ready || st.phase is SectorZero || st.phase is Finished)
        ==> st.sector_zero.len() == SECTOR_SIZE
    &&& match st.phase {
        Phase::Primary => st.want == if st.pos == 0 {
            behind_sector_zero(cfg)
        } else {
            cfg.chunk_end(st.pos) - st.pos
        },
        Phase::Backup | Phase::Opening { .. } | Phase::Shadow { .. } | Phase::Fallback { .. }
        | Phase::Raw { .. } => st.want == cfg.chunk_end(st.pos) - st.pos,
        _ => true,
    }
}

/// Every state that a stream reaches is consistent.
pub proof fn law_stream_stays_consistent(cfg: ImageConfig, st: StreamState, ev: EventView)
    requires
        cfg.valid(),
        consistent(cfg, st),
        accepts(st, ev),
    ensures
        consistent(cfg, next(cfg, st, ev).0),
{
    let (st2, step) = next(cfg, st, ev);
    if 0 <= st2.pos < cfg.disk_length {
        crate::image_builder::law_chunk_is_not_empty(cfg, st2.pos);
    }
}

/// A disk image on its way to a sink.
pub struct ImageStream<'a> {
    builder: &'a ImageBuilder,
    excluded: Option<&'a HashSet<u32>>,
    phase: Phase,
    pos: u64,
    want: usize,
    sector_zero: Vec<u8>,
}

/// The signature in the last two bytes of a boot sector.
pub fn mbr_signature(sector: &[u8]) -> (r: u16)
    requires
        sector@.len() >= 512,
    ensures
        r == boot_signature(sector@),
{
    sector[510] as u16 + 256 * sector[511] as u16
}

fn other(text: String) -> (r: DiskCloneError)
    ensures
        r@ == ErrorView::Other(text@),
{
    DiskCloneError::Other(text)
}

fn silent_step(op: StreamOp) -> (r: StreamStep)
    ensures
        r@ == silent(op@),
{
    StreamStep { fallback: None, report: None, op }
}

fn reporting_step(
    partition_num: Option<u32>,
    source_type: StreamSourceType,
    path: Option<String>,
    op: StreamOp,
) -> (r: StreamStep)
    ensures
        r@ == reporting((StreamRegionInfo { partition_num, source_type, path })@, op@),
{
    StreamStep { fallback: None, report: Some(StreamRegionInfo { partition_num, source_type, path }), op }
}

fn invalid_boot_error(signature: u16) -> (r: DiskCloneError)
    ensures
        r@ == ErrorView::Other(invalid_boot_text(signature)),
{
    let mut s = String::new();
    s.append("Disk sector 0 invalid MBR (0x");
    push_hex4(&mut s, signature);
    s.append("), cannot proceed");
    other(s)
}

fn zero_read_error(pos: u64, area: &str) -> (r: DiskCloneError)
    ensures
        r@ == ErrorView::Other(zero_read_text(pos as int, area@)),
{
    let mut s = String::new();
    s.append("Zero-byte read at offset ");
    push_decimal(&mut s, pos);
    s.append(area);
    other(s)
}

fn zero_partition_read_error(pos: u64, number: u32, volume_offset: u64) -> (r: DiskCloneError)
    ensures
        r@ == ErrorView::Other(zero_partition_read_text(pos as int, number, volume_offset as int)),
{
    let mut s = String::new();
    s.append("Zero-byte read at disk offset ");
    push_decimal(&mut s, pos);
    s.append(" (partition ");
    push_decimal(&mut s, number as u64);
    s.append(", volume offset ");
    push_decimal(&mut s, volume_offset);
    s.append("). VSS retry and raw fallback both failed.");
    other(s)
}

fn incomplete_error(written: u64, expected: u64) -> (r: DiskCloneError)
    ensures
        r@ == ErrorView::Other(incomplete_text(written as int, expected as int)),
{
    let mut s = String::new();
    s.append("Incomplete clone: wrote ");
    push_decimal(&mut s, written);
    s.append(" bytes (");
    push_decimal(&mut s, written / 1073741824);
    s.append(" GB), expected ");
    push_decimal(&mut s, expected);
    s.append(" bytes (");
    push_decimal(&mut s, expected / 1073741824);
    s.append(" GB)");
    other(s)
}

impl ImageBuilder {
    /// Starts to stream the full disk image, in the order of the disk: the
    /// primary GPT, partitions and gaps, and the backup GPT. Partitions whose
    /// number is in `excluded_partitions` are written as zeros.
    pub fn stream_to<'a>(&'a self, excluded_partitions: Option<&'a HashSet<u32>>) -> (r: ImageStream<'a>)
        requires
            self.config(excluded_set(excluded_partitions)).valid(),
        ensures
            r.wf(),
            r.config() == self.config(excluded_set(excluded_partitions)),
            r@ == initial(),
    {
        ImageStream {
            builder: self,
            excluded: excluded_partitions,
            phase: Phase::Ready,
            pos: 0,
            want: 0,
            sector_zero: Vec::new(),
        }
    }
}

impl<'a> View for ImageStream<'a> {
    type V = StreamState;

    closed spec fn view(&self) -> StreamState {
        StreamState {
            phase: self.phase,
            pos: self.pos as int,
            want: self.want as int,
            sector_zero: self.sector_zero@,
        }
    }
}

impl<'a> ImageStream<'a> {
    /// What decides the content of the image.
    pub closed spec fn config(self) -> ImageConfig {
        self.builder.config(excluded_set(self.excluded))
    }

    pub open spec fn wf(self) -> bool {
        self.config().valid() && consistent(self.config(), self@)
    }

    /// Takes what came of the last step's operation and gives the next step.
    pub fn step(&mut self, event: StreamEvent) -> (r: StreamStep)
        requires
            old(self).wf(),
            accepts(old(self)@, event@),
        ensures
            final(self).wf(),
            final(self).config() == old(self).config(),
            (final(self)@, r@) == next(old(self).config(), old(self)@, event@),
    {
        proof {
            law_stream_stays_consistent(self.config(), self@, event@);
        }
        match event {
            StreamEvent::Start => {
                self.phase = Phase::SectorZero;
                self.want = 512;
                silent_step(StreamOp::ReadDisk { offset: 0, len: 512 })
            },
            StreamEvent::Read(Ok(bytes)) => self.take_bytes(bytes),
            StreamEvent::Opened(Ok(_)) => self.read_shadow(),
            StreamEvent::Wrote(Ok(n)) => {
                self.pos = self.pos + n as u64;
                self.advance()
            },
            StreamEvent::Flushed(Ok(_)) => {
                if self.pos == self.builder.layout.disk_length {
                    self.phase = Phase::Finished;
                    self.want = 0;
                    silent_step(StreamOp::Finish { total_written: self.pos })
                } else {
                    let e = incomplete_error(self.pos, self.builder.layout.disk_length);
                    self.fail(e)
                }
            },
            StreamEvent::Read(Err(e)) => self.fail(e),
            StreamEvent::Opened(Err(e)) => self.fail(e),
            StreamEvent::Wrote(Err(e)) => self.fail(e),
            StreamEvent::Flushed(Err(e)) => self.fail(e),
        }
    }

    fn fail(&mut self, error: DiskCloneError) -> (r: StreamStep)
        ensures
            final(self).config() == old(self).config(),
            (final(self)@, r@) == failing(old(self)@, error@),
    {
        self.phase = Phase::Finished;
        self.want = 0;
        silent_step(StreamOp::Fail { error })
    }

    fn advance(&mut self) -> (r: StreamStep)
        requires
            old(self).config().valid(),
        ensures
            final(self).config() == old(self).config(),
            (final(self)@, r@) == advancing(old(self).config(), old(self)@),
    {
        let pos = self.pos;
        if pos >= self.builder.layout.disk_length {
            self.phase = Phase::Flushing;
            self.want = 0;
            return silent_step(StreamOp::Flush);
        }
        let end = self.builder.chunk_end(pos);
        let len = (end - pos) as usize;
        self.want = len;
        match self.builder.source_at(pos, self.excluded) {
            ChunkSource::PrimaryGpt => {
                self.phase = Phase::Primary;
                let mut offset = pos;
                if pos == 0 {
                    offset = SECTOR_SIZE;
                    let mut first: usize = self.builder.buffer_size;
                    if first > GPT_SIZE as usize {
                        first = GPT_SIZE as usize;
                    }
                    self.want = first - SECTOR_SIZE as usize;
                    if self.want == 0 {
                        let data = self.sector_zero.clone();
                        self.phase = Phase::Writing;
                        self.want = data.len();
                        return reporting_step(
                            None,
                            StreamSourceType::PrimaryGpt,
                            None,
                            StreamOp::Write { data },
                        );
                    }
                }
                reporting_step(
                    None,
                    StreamSourceType::PrimaryGpt,
                    None,
                    StreamOp::ReadDisk { offset, len: self.want },
                )
            },
            ChunkSource::BackupGpt => {
                self.phase = Phase::Backup;
                reporting_step(
                    None,
                    StreamSourceType::BackupGpt,
                    None,
                    StreamOp::ReadDisk { offset: pos, len },
                )
            },
            ChunkSource::Gap => {
                self.phase = Phase::Writing;
                let data = zeroed(len);
                reporting_step(None, StreamSourceType::Gap, None, StreamOp::Write { data })
            },
            ChunkSource::Excluded { number } => {
                self.phase = Phase::Writing;
                let data = zeroed(len);
                reporting_step(
                    Some(number),
                    StreamSourceType::PartitionExcluded,
                    None,
                    StreamOp::Write { data },
                )
            },
            ChunkSource::Shadow { number, start } => {
                self.phase = Phase::Opening { number, start };
                let path = self.shadow_path(start);
                silent_step(StreamOp::OpenShadow { path })
            },
            ChunkSource::Raw { number, start } => {
                self.phase = Phase::Raw { number, start };
                let path = physical_drive_path(self.builder.disk_number);
                reporting_step(
                    Some(number),
                    StreamSourceType::PartitionRaw,
                    Some(path),
                    StreamOp::ReadDisk { offset: pos, len },
                )
            },
        }
    }

    fn write(
        &mut self,
        data: Vec<u8>,
        fallback: Option<u32>,
        report: Option<StreamRegionInfo>,
    ) -> (r: StreamStep)
        requires
            data@.len() > 0,
        ensures
            final(self).config() == old(self).config(),
            final(self)@ == (StreamState {
                phase: Phase::Writing,
                want: data@.len() as int,
                ..old(self)@
            }),
            r@ == (StepView {
                fallback,
                report: match report {
                    Some(i) => Some(i@),
                    None => None,
                },
                op: OpView::Write { data: data@ },
            }),
    {
        self.phase = Phase::Writing;
        self.want = data.len();
        StreamStep { fallback, report, op: StreamOp::Write { data } }
    }

    fn take_bytes(&mut self, bytes: Vec<u8>) -> (r: StreamStep)
        requires
            old(self).wf(),
            accepts(old(self)@, EventView::Read(Ok(bytes@))),
        ensures
            final(self).config() == old(self).config(),
            (final(self)@, r@) == after_read(old(self).config(), old(self)@, bytes@),
    {
        let pos = self.pos;
        let empty = bytes.len() == 0;
        proof {
            crate::image_builder::lemma_first_covering_covers(self.config().partitions, pos as int);
        }
        match self.phase {
            Phase::SectorZero => {
                if bytes.len() < 512 {
                    let e = other("Failed to read sector 0".to_owned());
                    return self.fail(e);
                }
                let signature = mbr_signature(bytes.as_slice());
                if signature != BOOT_SIGNATURE {
                    let e = invalid_boot_error(signature);
                    return self.fail(e);
                }
                self.sector_zero = bytes;
                self.advance()
            },
            Phase::Primary => {
                if pos == 0 {
                    let mut data = self.sector_zero.clone();
                    let mut rest = bytes;
                    data.append(&mut rest);
                    self.write(data, None, None)
                } else if empty {
                    let e = zero_read_error(pos, " (primary GPT)");
                    self.fail(e)
                } else {
                    self.write(bytes, None, None)
                }
            },
            Phase::Backup => {
                if empty {
                    let e = zero_read_error(pos, " (backup GPT)");
                    self.fail(e)
                } else {
                    self.write(bytes, None, None)
                }
            },
            Phase::Shadow { number, start, retried } => {
                if !empty {
                    self.write(bytes, None, None)
                } else if !retried {
                    self.phase = Phase::Shadow { number, start, retried: true };
                    silent_step(StreamOp::ReadShadow { offset: pos - start, len: self.want })
                } else {
                    self.phase = Phase::Fallback { number, start };
                    silent_step(StreamOp::ReadDisk { offset: pos, len: self.want })
                }
            },
            Phase::Fallback { number, start } => {
                if empty {
                    let e = zero_partition_read_error(pos, number, pos - start);
                    self.fail(e)
                } else {
                    let path = physical_drive_path(self.builder.disk_number);
                    self.write(
                        bytes,
                        Some(number),
                        Some(
                            StreamRegionInfo {
                                partition_num: Some(number),
                                source_type: StreamSourceType::PartitionRaw,
                                path: Some(path),
                            },
                        ),
                    )
                }
            },
            Phase::Raw { number, start } => {
                if empty {
                    let e = zero_partition_read_error(pos, number, pos);
                    self.fail(e)
                } else {
                    self.write(bytes, None, None)
                }
            },
            _ => {
                proof {
                    assert(false);
                }
                silent_step(StreamOp::Flush)
            },
        }
    }

    fn read_shadow(&mut self) -> (r: StreamStep)
        requires
            old(self).wf(),
            accepts(old(self)@, EventView::Opened(Ok(()))),
        ensures
            final(self).config() == old(self).config(),
            (final(self)@, r@) == next(
                old(self).config(),
                old(self)@,
                EventView::Opened(Ok(())),
            ),
    {
        proof {
            crate::image_builder::lemma_first_covering_covers(
                self.config().partitions,
                self.pos as int,
            );
        }
        match self.phase {
            Phase::Opening { number, start } => {
                self.phase = Phase::Shadow { number, start, retried: false };
                let path = self.shadow_path(start);
                reporting_step(
                    Some(number),
                    StreamSourceType::PartitionVss,
                    Some(path),
                    StreamOp::ReadShadow { offset: self.pos - start, len: self.want },
                )
            },
            _ => {
                proof {
                    assert(false);
                }
                silent_step(StreamOp::Flush)
            },
        }
    }

    /// The device path of the shadow copy of the partition that starts at
    /// `start`.
    fn shadow_path(&self, start: u64) -> (r: String)
        requires
            self.config().shadows.contains_key(start),
        ensures
            r@ == device_path(self.config().shadows[start]@),
    {
        match self.builder.shadow_map.get(&start) {
            Some(path) => shadow_device_path(path.as_str()),
            None => String::new(),
        }
    }
}

/// `n` zeros.
fn zeroed(n: usize) -> (r: Vec<u8>)
    ensures
        r@ == zeros(n as int),
{
    let r = vec![0u8; n];
    proof {
        assert(r@ =~= zeros(n as int));
    }
    r
}

} // verus!

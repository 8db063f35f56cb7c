//! A clone that is driven from a window: the work itself runs beside the
//! window, tells it how far it has come, and waits for the user to choose a
//! destination.

use vstd::prelude::*;

use crate::cli::{default_remote_path, text_of};
use crate::diagram::{views, DiagramRegion, RegionView};
use crate::error::{DiskCloneError, ErrorView};
use crate::ssh_sink::{cat_command, dd_command, SshSink};
use crate::text::{decimal, push_decimal};

verus! {

/// Where the user wants the image.
#[derive(Debug, Clone, Copy, PartialEq, Eq, Structural)]
pub enum DestMode {
    Ssh,
    LocalFile,
    LocalDisk,
}

/// The destination that the user has chosen.
#[derive(Debug)]
pub struct DestConfig {
    pub dest_mode: DestMode,
    pub ssh_user: String,
    pub ssh_host: String,
    pub ssh_password: Option<String>,
    pub remote_path: String,
    pub local_file_path: String,
    pub target_disk: Option<u32>,
}

/// A [`DestConfig`] over characters.
pub struct DestView {
    pub dest_mode: DestMode,
    pub ssh_user: Seq<char>,
    pub ssh_host: Seq<char>,
    pub ssh_password: Option<Seq<char>>,
    pub remote_path: Seq<char>,
    pub local_file_path: Seq<char>,
    pub target_disk: Option<u32>,
}

impl View for DestConfig {
    type V = DestView;

    open spec fn view(&self) -> DestView {
        DestView {
            dest_mode: self.dest_mode,
            ssh_user: self.ssh_user@,
            ssh_host: self.ssh_host@,
            ssh_password: text_of(self.ssh_password),
            remote_path: self.remote_path@,
            local_file_path: self.local_file_path@,
            target_disk: self.target_disk,
        }
    }
}

/// What the work tells the window.
#[derive(Debug)]
pub enum WorkerMsg {
    Total(u64),
    /// A text for the status line, and whether all is well.
    Status(String, bool),
    DiagramReady(Vec<DiagramRegion>, u64),
    Done,
    Error(String),
    Cancelled,
}

/// A [`WorkerMsg`] over characters and views.
pub enum MsgView {
    Total(u64),
    Status(Seq<char>, bool),
    DiagramReady(Seq<RegionView>, u64),
    Done,
    Error(Seq<char>),
    Cancelled,
}

impl View for WorkerMsg {
    type V = MsgView;

    open spec fn view(&self) -> MsgView {
        match self {
            WorkerMsg::Total(n) => MsgView::Total(*n),
            WorkerMsg::Status(s, ok) => MsgView::Status(s@, *ok),
            WorkerMsg::DiagramReady(r, n) => MsgView::DiagramReady(views(r@), *n),
            WorkerMsg::Done => MsgView::Done,
            WorkerMsg::Error(s) => MsgView::Error(s@),
            WorkerMsg::Cancelled => MsgView::Cancelled,
        }
    }
}

/// One operation that the work asks for.
#[derive(Debug)]
pub enum JobOp {
    /// Read the layout of the source disk.
    ReadLayout { disk_number: u32 },
    /// Create the VSS snapshot of the source disk.
    CreateSnapshot { disk_number: u32 },
    /// Make the image builder for the source disk.
    BuildImage { disk_number: u32, buffer_size_mb: usize },
    /// Wait for the user to choose a destination.
    AwaitChoice,
    /// Log in on the remote system.
    Connect { user: String, host: String, password: Option<String> },
    /// Run the receive command on the remote system.
    OpenRemote { command: String },
    OpenFile { path: String },
    OpenDisk { number: u32 },
    /// Stream the image to what was opened. The count of bytes starts at 0.
    Stream,
    /// Finish the VSS snapshot.
    FinishSnapshot,
    /// The image is written.
    Finish { bytes: u64 },
    /// There will be no image.
    Abandon,
    Fail { error: DiskCloneError },
}

/// A [`JobOp`] over characters and views.
pub enum JobOpView {
    ReadLayout { disk_number: u32 },
    CreateSnapshot { disk_number: u32 },
    BuildImage { disk_number: u32, buffer_size_mb: int },
    AwaitChoice,
    Connect { user: Seq<char>, host: Seq<char>, password: Option<Seq<char>> },
    OpenRemote { command: Seq<char> },
    OpenFile { path: Seq<char> },
    OpenDisk { number: u32 },
    Stream,
    FinishSnapshot,
    Finish { bytes: u64 },
    Abandon,
    Fail { error: ErrorView },
}

impl View for JobOp {
    type V = JobOpView;

    open spec fn view(&self) -> JobOpView {
        match self {
            JobOp::ReadLayout { disk_number } => JobOpView::ReadLayout {
                disk_number: *disk_number,
            },
            JobOp::CreateSnapshot { disk_number } => JobOpView::CreateSnapshot {
                disk_number: *disk_number,
            },
            JobOp::BuildImage { disk_number, buffer_size_mb } => JobOpView::BuildImage {
                disk_number: *disk_number,
                buffer_size_mb: *buffer_size_mb as int,
            },
            JobOp::AwaitChoice => JobOpView::AwaitChoice,
            JobOp::Connect { user, host, password } => JobOpView::Connect {
                user: user@,
                host: host@,
                password: text_of(*password),
            },
            JobOp::OpenRemote { command } => JobOpView::OpenRemote { command: command@ },
            JobOp::OpenFile { path } => JobOpView::OpenFile { path: path@ },
            JobOp::OpenDisk { number } => JobOpView::OpenDisk { number: *number },
            JobOp::Stream => JobOpView::Stream,
            JobOp::FinishSnapshot => JobOpView::FinishSnapshot,
            JobOp::Finish { bytes } => JobOpView::Finish { bytes: *bytes },
            JobOp::Abandon => JobOpView::Abandon,
            JobOp::Fail { error } => JobOpView::Fail { error: error@ },
        }
    }
}

/// One step of the work: what is told to the window, and then what is done.
#[derive(Debug)]
pub struct JobStep {
    pub message: Option<WorkerMsg>,
    pub op: JobOp,
}

/// A [`JobStep`] over the views of its parts.
pub struct JobStepView {
    pub message: Option<MsgView>,
    pub op: JobOpView,
}

impl View for JobStep {
    type V = JobStepView;

    open spec fn view(&self) -> JobStepView {
        JobStepView {
            message: match self.message {
                Some(m) => Some(m@),
                None => None,
            },
            op: self.op@,
        }
    }
}

/// What came of an operation.
#[derive(Debug)]
pub enum JobEvent {
    /// It succeeded; nothing has been asked for yet at the start.
    Done,
    /// The image builder is made, for a disk of this size.
    Built { regions: Vec<DiagramRegion>, total: u64 },
    /// What the user has chosen, if anything.
    Chosen(Option<DestConfig>),
    /// So many bytes were streamed.
    Streamed(u64),
    Failed(DiskCloneError),
}

/// A [`JobEvent`] over characters and views.
pub enum JobEventView {
    Done,
    Built { regions: Seq<RegionView>, total: u64 },
    Chosen(Option<DestView>),
    Streamed(u64),
    Failed(ErrorView),
}

impl View for JobEvent {
    type V = JobEventView;

    open spec fn view(&self) -> JobEventView {
        match self {
            JobEvent::Done => JobEventView::Done,
            JobEvent::Built { regions, total } => JobEventView::Built {
                regions: views(regions@),
                total: *total,
            },
            JobEvent::Chosen(Some(c)) => JobEventView::Chosen(Some(c@)),
            JobEvent::Chosen(None) => JobEventView::Chosen(None),
            JobEvent::Streamed(n) => JobEventView::Streamed(*n),
            JobEvent::Failed(e) => JobEventView::Failed(e@),
        }
    }
}

/// What the work has asked for last.
#[derive(Debug, Clone, Copy, PartialEq, Eq, Structural)]
pub enum JobPhase {
    /// Nothing yet.
    Ready,
    Layout,
    Snapshot,
    Build,
    Choice,
    Connecting,
    Opening,
    Streaming,
    Finishing,
    Over,
}

/// Where the work stands: the disk that it clones, what it has asked for last,
/// the remote path it will open, and how many bytes it has streamed.
pub struct JobState {
    pub source_disk: u32,
    pub phase: JobPhase,
    pub path: Seq<char>,
    pub bytes: u64,
}

/// The work before its first operation.
pub open spec fn job_initial(source_disk: u32) -> JobState {
    JobState { source_disk, phase: JobPhase::Ready, path: seq![], bytes: 0 }
}

/// A status line that tells of no trouble.
pub open spec fn status(text: Seq<char>) -> Option<MsgView> {
    Some(MsgView::Status(text, true))
}

/// The work goes on with an operation.
pub open spec fn job_step(s: JobState, phase: JobPhase, message: Option<MsgView>, op: JobOpView) -> (
    JobState,
    JobStepView,
) {
    (JobState { phase, ..s }, JobStepView { message, op })
}

/// The remote path that the user has chosen.
pub open spec fn chosen_remote_path(c: DestView) -> Seq<char> {
    if c.remote_path.len() == 0 {
        default_remote_path()
    } else {
        c.remote_path
    }
}

/// The file that the user has chosen.
pub open spec fn chosen_file_path(c: DestView) -> Seq<char> {
    if c.local_file_path.len() == 0 {
        "diskclone.img"@
    } else {
        c.local_file_path
    }
}

/// How the work goes on once the user has chosen a destination.
pub open spec fn after_choice(s: JobState, c: DestView) -> (JobState, JobStepView) {
    match c.dest_mode {
        DestMode::Ssh => job_step(
            JobState { path: chosen_remote_path(c), ..s },
            JobPhase::Connecting,
            status("Connecting to "@ + c.ssh_host + "..."@),
            JobOpView::Connect { user: c.ssh_user, host: c.ssh_host, password: c.ssh_password },
        ),
        DestMode::LocalFile => job_step(
            s,
            JobPhase::Opening,
            status("Writing to "@ + chosen_file_path(c) + "..."@),
            JobOpView::OpenFile { path: chosen_file_path(c) },
        ),
        DestMode::LocalDisk => match c.target_disk {
            Some(number) => job_step(
                s,
                JobPhase::Opening,
                status("Writing to PhysicalDrive"@ + decimal(number as nat) + "..."@),
                JobOpView::OpenDisk { number },
            ),
            None => job_step(
                s,
                JobPhase::Over,
                Some(MsgView::Error("Select a target disk for local disk clone"@)),
                JobOpView::Abandon,
            ),
        },
    }
}

/// What may come of the last operation.
pub open spec fn job_accepts(s: JobState, event: JobEventView) -> bool {
    match event {
        JobEventView::Built { .. } => s.phase == JobPhase::Build,
        JobEventView::Chosen(_) => s.phase == JobPhase::Choice,
        JobEventView::Streamed(_) => s.phase == JobPhase::Streaming,
        JobEventView::Failed(_) => s.phase != JobPhase::Ready && s.phase != JobPhase::Choice
            && s.phase != JobPhase::Over,
        JobEventView::Done => s.phase != JobPhase::Build && s.phase != JobPhase::Choice && s.phase
            != JobPhase::Streaming && s.phase != JobPhase::Over,
    }
}

/// What the work does next.
pub open spec fn job_next(s: JobState, event: JobEventView) -> (JobState, JobStepView) {
    match event {
        JobEventView::Failed(error) => job_step(
            s,
            JobPhase::Over,
            None,
            JobOpView::Fail { error },
        ),
        JobEventView::Built { regions, total } => job_step(
            s,
            JobPhase::Choice,
            Some(MsgView::DiagramReady(regions, total)),
            JobOpView::AwaitChoice,
        ),
        JobEventView::Chosen(None) => job_step(
            s,
            JobPhase::Over,
            Some(MsgView::Cancelled),
            JobOpView::Abandon,
        ),
        JobEventView::Chosen(Some(c)) => after_choice(s, c),
        JobEventView::Streamed(bytes) => job_step(
            JobState { bytes, ..s },
            JobPhase::Finishing,
            None,
            JobOpView::FinishSnapshot,
        ),
        JobEventView::Done => match s.phase {
            JobPhase::Ready => job_step(
                s,
                JobPhase::Layout,
                status("Creating VSS snapshot..."@),
                JobOpView::ReadLayout { disk_number: s.source_disk },
            ),
            JobPhase::Layout => job_step(
                s,
                JobPhase::Snapshot,
                None,
                JobOpView::CreateSnapshot { disk_number: s.source_disk },
            ),
            JobPhase::Snapshot => job_step(
                s,
                JobPhase::Build,
                status("VSS snapshot created"@),
                JobOpView::BuildImage { disk_number: s.source_disk, buffer_size_mb: 16 },
            ),
            JobPhase::Connecting => job_step(
                s,
                JobPhase::Opening,
                status("Streaming to "@ + s.path + "..."@),
                JobOpView::OpenRemote {
                    command: if "/dev/"@.is_prefix_of(s.path) {
                        dd_command(s.path)
                    } else {
                        cat_command(s.path)
                    },
                },
            ),
            JobPhase::Opening => job_step(s, JobPhase::Streaming, None, JobOpView::Stream),
            _ => job_step(s, JobPhase::Over, None, JobOpView::Finish { bytes: s.bytes }),
        },
    }
}

/// A clone at work.
#[derive(Debug)]
pub struct CloneJob {
    source_disk: u32,
    phase: JobPhase,
    path: String,
    bytes: u64,
}

impl View for CloneJob {
    type V = JobState;

    closed spec fn view(&self) -> JobState {
        JobState {
            source_disk: self.source_disk,
            phase: self.phase,
            path: self.path@,
            bytes: self.bytes,
        }
    }
}

/// Starts a clone of the source disk.
pub fn run_clone(source_disk: u32) -> (r: CloneJob)
    ensures
        r@ == job_initial(source_disk),
{
    let path = String::new();
    assert(path@ =~= seq![]);
    CloneJob { source_disk, phase: JobPhase::Ready, path, bytes: 0 }
}

/// A status line with a name in it, which tells of no trouble.
fn status_with(before: &str, name: &str) -> (m: Option<WorkerMsg>)
    ensures
        m is Some,
        status(before@ + name@ + "..."@) == Some(m->0@),
{
    let mut s = before.to_owned();
    s.append(name);
    s.append("...");
    Some(WorkerMsg::Status(s, true))
}

impl CloneJob {
    /// Takes what came of the last operation and gives the next step.
    pub fn step(&mut self, event: JobEvent) -> (r: JobStep)
        requires
            job_accepts(old(self)@, event@),
        ensures
            (final(self)@, r@) == job_next(old(self)@, event@),
    {
        match event {
            JobEvent::Failed(error) => {
                self.phase = JobPhase::Over;
                JobStep { message: None, op: JobOp::Fail { error } }
            },
            JobEvent::Built { regions, total } => {
                self.phase = JobPhase::Choice;
                JobStep {
                    message: Some(WorkerMsg::DiagramReady(regions, total)),
                    op: JobOp::AwaitChoice,
                }
            },
            JobEvent::Chosen(None) => {
                self.phase = JobPhase::Over;
                JobStep { message: Some(WorkerMsg::Cancelled), op: JobOp::Abandon }
            },
            JobEvent::Chosen(Some(config)) => self.open(config),
            JobEvent::Streamed(bytes) => {
                self.bytes = bytes;
                self.phase = JobPhase::Finishing;
                JobStep { message: None, op: JobOp::FinishSnapshot }
            },
            JobEvent::Done => self.go_on(),
        }
    }

    fn open(&mut self, config: DestConfig) -> (r: JobStep)
        ensures
            (final(self)@, r@) == after_choice(old(self)@, config@),
    {
        match config.dest_mode {
            DestMode::Ssh => {
                self.path = if config.remote_path.as_str().unicode_len() == 0 {
                    "/tmp/diskclone.img".to_owned()
                } else {
                    config.remote_path
                };
                self.phase = JobPhase::Connecting;
                let message = status_with("Connecting to ", config.ssh_host.as_str());
                JobStep {
                    message,
                    op: JobOp::Connect {
                        user: config.ssh_user,
                        host: config.ssh_host,
                        password: config.ssh_password,
                    },
                }
            },
            DestMode::LocalFile => {
                let path = if config.local_file_path.as_str().unicode_len() == 0 {
                    "diskclone.img".to_owned()
                } else {
                    config.local_file_path
                };
                self.phase = JobPhase::Opening;
                let message = status_with("Writing to ", path.as_str());
                JobStep { message, op: JobOp::OpenFile { path } }
            },
            DestMode::LocalDisk => match config.target_disk {
                Some(number) => {
                    let mut name = String::new();
                    push_decimal(&mut name, number as u64);
                    assert(name@ =~= decimal(number as nat));
                    self.phase = JobPhase::Opening;
                    let message = status_with("Writing to PhysicalDrive", name.as_str());
                    JobStep { message, op: JobOp::OpenDisk { number } }
                },
                None => {
                    self.phase = JobPhase::Over;
                    let text = "Select a target disk for local disk clone".to_owned();
                    JobStep { message: Some(WorkerMsg::Error(text)), op: JobOp::Abandon }
                },
            },
        }
    }

    fn go_on(&mut self) -> (r: JobStep)
        requires
            job_accepts(old(self)@, JobEventView::Done),
        ensures
            (final(self)@, r@) == job_next(old(self)@, JobEventView::Done),
    {
        match self.phase {
            JobPhase::Ready => {
                self.phase = JobPhase::Layout;
                let text = "Creating VSS snapshot...".to_owned();
                JobStep {
                    message: Some(WorkerMsg::Status(text, true)),
                    op: JobOp::ReadLayout { disk_number: self.source_disk },
                }
            },
            JobPhase::Layout => {
                self.phase = JobPhase::Snapshot;
                JobStep {
                    message: None,
                    op: JobOp::CreateSnapshot { disk_number: self.source_disk },
                }
            },
            JobPhase::Snapshot => {
                self.phase = JobPhase::Build;
                let text = "VSS snapshot created".to_owned();
                JobStep {
                    message: Some(WorkerMsg::Status(text, true)),
                    op: JobOp::BuildImage { disk_number: self.source_disk, buffer_size_mb: 16 },
                }
            },
            JobPhase::Connecting => {
                self.phase = JobPhase::Opening;
                let message = status_with("Streaming to ", self.path.as_str());
                let sink = SshSink::for_path(self.path.as_str());
                JobStep { message, op: JobOp::OpenRemote { command: sink.command } }
            },
            JobPhase::Opening => {
                self.phase = JobPhase::Streaming;
                JobStep { message: None, op: JobOp::Stream }
            },
            _ => {
                self.phase = JobPhase::Over;
                JobStep { message: None, op: JobOp::Finish { bytes: self.bytes } }
            },
        }
    }
}

/// Where the work stands after the events.
pub open spec fn job_after(source_disk: u32, events: Seq<JobEventView>) -> JobState
    decreases events.len(),
{
    if events.len() == 0 {
        job_initial(source_disk)
    } else {
        job_next(job_after(source_disk, events.drop_last()), events.last()).0
    }
}

/// Each event may come of the operation before it.
pub open spec fn job_possible(source_disk: u32, events: Seq<JobEventView>) -> bool
    decreases events.len(),
{
    events.len() == 0 || {
        &&& job_possible(source_disk, events.drop_last())
        &&& job_accepts(job_after(source_disk, events.drop_last()), events.last())
    }
}

/// The event is the choice of a destination.
pub open spec fn is_choice(event: JobEventView) -> bool {
    event matches JobEventView::Chosen(c) && c is Some
}

/// The operation touches the destination.
pub open spec fn touches_destination(op: JobOpView) -> bool {
    op is Connect || op is OpenRemote || op is OpenFile || op is OpenDisk || op is Stream
}

proof fn lemma_destination_was_chosen(source_disk: u32, events: Seq<JobEventView>)
    requires
        job_possible(source_disk, events),
    ensures
        ({
            let p = job_after(source_disk, events).phase;
            p == JobPhase::Connecting || p == JobPhase::Opening || p == JobPhase::Streaming || p
                == JobPhase::Finishing ==> exists|i: int|
                0 <= i < events.len() && is_choice(#[trigger] events[i])
        }),
    decreases events.len(),
{
    if events.len() > 0 {
        let init = events.drop_last();
        lemma_destination_was_chosen(source_disk, init);
        assert(events[events.len() - 1] == events.last());
        if exists|i: int| 0 <= i < init.len() && is_choice(#[trigger] init[i]) {
            let i = choose|i: int| 0 <= i < init.len() && is_choice(#[trigger] init[i]);
            assert(events[i] == init[i]);
        }
    }
}

/// No destination is touched before the user has chosen one.
pub proof fn law_destination_is_chosen_first(source_disk: u32, events: Seq<JobEventView>)
    requires
        job_possible(source_disk, events),
        events.len() > 0,
        touches_destination(job_next(job_after(source_disk, events.drop_last()), events.last()).1.op),
    ensures
        exists|i: int| 0 <= i < events.len() && is_choice(#[trigger] events[i]),
{
    lemma_destination_was_chosen(source_disk, events);
}

/// An operation on a source disk is one on the disk with this number.
pub open spec fn works_on(op: JobOpView, source_disk: u32) -> bool {
    match op {
        JobOpView::ReadLayout { disk_number } => disk_number == source_disk,
        JobOpView::CreateSnapshot { disk_number } => disk_number == source_disk,
        JobOpView::BuildImage { disk_number, .. } => disk_number == source_disk,
        _ => true,
    }
}

/// The layout, the snapshot and the image are all those of the disk that the
/// clone was started for.
pub proof fn law_clone_is_of_its_source(source_disk: u32, events: Seq<JobEventView>)
    requires
        job_possible(source_disk, events),
    ensures
        job_after(source_disk, events).source_disk == source_disk,
        events.len() > 0 ==> works_on(
            job_next(job_after(source_disk, events.drop_last()), events.last()).1.op,
            source_disk,
        ),
    decreases events.len(),
{
    if events.len() > 0 {
        law_clone_is_of_its_source(source_disk, events.drop_last());
    }
}

} // verus!

//! How the snapshots of a disk are taken: the calls to VSS, one by one, and
//! what each outcome leads to.

use vstd::prelude::*;

use crate::error::{DiskCloneError, ErrorView};
use crate::vss::{texts, vss_error, VssSnapshot};
use crate::wide::{encode, has_inner_nul, nul_text, terminated, wide_c_string};

verus! {

/// How long to wait for VSS, in milliseconds.
pub const WAIT_MILLIS: u32 = 300_000;

/// The calls that lead to a snapshot set.
#[derive(Debug, Clone, Copy, PartialEq, Eq, Structural)]
pub enum SetupPhase {
    /// Nothing has been asked for yet.
    Ready,
    InitializeCom,
    ListVolumes,
    NewComponents,
    InitializeForBackup,
    SetContext,
    SetBackupState,
    GatherWriterMetadata,
    WaitForMetadata,
    StartSnapshotSet,
    IsVolumeSupported,
    AddToSnapshotSet,
    PrepareForBackup,
    WaitForPrepare,
    DoSnapshotSet,
    WaitForSnapshot,
    Finished,
}

/// One operation that the setup asks for.
#[derive(Debug)]
pub enum SetupOp {
    /// Initialize COM.
    InitializeCom,
    /// Find the volumes on the disk.
    ListVolumes { disk_number: u32 },
    /// Make the backup components.
    NewComponents,
    /// Initialize them for a backup.
    InitializeForBackup,
    /// Set the context of a backup.
    SetContext,
    /// Set the state of a copy backup that selects no components, saves no
    /// bootable state and supports no partial files.
    SetBackupState,
    GatherWriterMetadata,
    StartSnapshotSet,
    /// Ask whether snapshots of the volume can be taken.
    IsVolumeSupported { volume: Vec<u16> },
    AddToSnapshotSet { volume: Vec<u16> },
    PrepareForBackup,
    DoSnapshotSet,
    /// Wait for what was begun last, for at most [`WAIT_MILLIS`].
    Wait,
    /// The snapshots are taken.
    Finish,
    /// There will be no snapshots.
    Fail { error: DiskCloneError },
}

/// A [`SetupOp`] over code units and characters.
pub enum SetupOpView {
    InitializeCom,
    ListVolumes { disk_number: u32 },
    NewComponents,
    InitializeForBackup,
    SetContext,
    SetBackupState,
    GatherWriterMetadata,
    StartSnapshotSet,
    IsVolumeSupported { volume: Seq<u16> },
    AddToSnapshotSet { volume: Seq<u16> },
    PrepareForBackup,
    DoSnapshotSet,
    Wait,
    Finish,
    Fail { error: ErrorView },
}

impl View for SetupOp {
    type V = SetupOpView;

    open spec fn view(&self) -> SetupOpView {
        match self {
            SetupOp::InitializeCom => SetupOpView::InitializeCom,
            SetupOp::ListVolumes { disk_number } => SetupOpView::ListVolumes {
                disk_number: *disk_number,
            },
            SetupOp::NewComponents => SetupOpView::NewComponents,
            SetupOp::InitializeForBackup => SetupOpView::InitializeForBackup,
            SetupOp::SetContext => SetupOpView::SetContext,
            SetupOp::SetBackupState => SetupOpView::SetBackupState,
            SetupOp::GatherWriterMetadata => SetupOpView::GatherWriterMetadata,
            SetupOp::StartSnapshotSet => SetupOpView::StartSnapshotSet,
            SetupOp::IsVolumeSupported { volume } => SetupOpView::IsVolumeSupported {
                volume: volume@,
            },
            SetupOp::AddToSnapshotSet { volume } => SetupOpView::AddToSnapshotSet {
                volume: volume@,
            },
            SetupOp::PrepareForBackup => SetupOpView::PrepareForBackup,
            SetupOp::DoSnapshotSet => SetupOpView::DoSnapshotSet,
            SetupOp::Wait => SetupOpView::Wait,
            SetupOp::Finish => SetupOpView::Finish,
            SetupOp::Fail { error } => SetupOpView::Fail { error: error@ },
        }
    }
}

/// What came of an operation.
#[derive(Debug)]
pub enum SetupEvent {
    /// It succeeded; nothing has been asked for yet at the start.
    Done,
    /// The names of the volumes on the disk.
    Volumes(Vec<String>),
    /// Whether snapshots of the volume can be taken.
    Supported(bool),
    /// It failed, with this cause.
    Failed(String),
}

/// A [`SetupEvent`] over characters.
pub enum SetupEventView {
    Done,
    Volumes(Seq<Seq<char>>),
    Supported(bool),
    Failed(Seq<char>),
}

impl View for SetupEvent {
    type V = SetupEventView;

    open spec fn view(&self) -> SetupEventView {
        match self {
            SetupEvent::Done => SetupEventView::Done,
            SetupEvent::Volumes(v) => SetupEventView::Volumes(texts(v@)),
            SetupEvent::Supported(b) => SetupEventView::Supported(*b),
            SetupEvent::Failed(m) => SetupEventView::Failed(m@),
        }
    }
}

/// Where the setup stands: its last operation, the volumes on the disk, the
/// one it is at, and how many it has added to the snapshot set.
pub struct SetupState {
    pub disk_number: u32,
    pub phase: SetupPhase,
    pub volumes: Seq<Seq<char>>,
    pub index: int,
    pub added: int,
}

/// The setup before its first operation.
pub open spec fn setup_initial(disk_number: u32) -> SetupState {
    SetupState { disk_number, phase: SetupPhase::Ready, volumes: seq![], index: 0, added: 0 }
}

/// The name that a failed operation has in its error.
pub open spec fn step_name(phase: SetupPhase) -> Seq<char> {
    match phase {
        SetupPhase::InitializeCom => "COM init: "@,
        SetupPhase::NewComponents => "BackupComponents::new: "@,
        SetupPhase::InitializeForBackup => "initialize_for_backup: "@,
        SetupPhase::SetContext => "set_context: "@,
        SetupPhase::SetBackupState => "set_backup_state: "@,
        SetupPhase::GatherWriterMetadata => "gather_writer_metadata: "@,
        SetupPhase::StartSnapshotSet => "start_snapshot_set: "@,
        SetupPhase::IsVolumeSupported => "is_volume_supported: "@,
        SetupPhase::AddToSnapshotSet => "add_to_snapshot_set: "@,
        SetupPhase::PrepareForBackup => "prepare_for_backup: "@,
        SetupPhase::DoSnapshotSet => "do_snapshot_set: "@,
        _ => "VSS async wait: "@,
    }
}

/// The error of a failed operation.
pub open spec fn step_error(phase: SetupPhase, cause: Seq<char>) -> ErrorView {
    if phase == SetupPhase::ListVolumes {
        ErrorView::Io(cause)
    } else {
        ErrorView::Vss(step_name(phase) + cause)
    }
}

/// The setup has failed.
pub open spec fn setup_failing(s: SetupState, error: ErrorView) -> (SetupState, SetupOpView) {
    (SetupState { phase: SetupPhase::Finished, ..s }, SetupOpView::Fail { error })
}

/// The setup goes on with the given operation.
pub open spec fn going_on(s: SetupState, phase: SetupPhase, op: SetupOpView) -> (
    SetupState,
    SetupOpView,
) {
    (SetupState { phase, ..s }, op)
}

/// The setup turns to the volume it is at. Behind the last one it goes on if
/// it has added any.
pub open spec fn at_volume(s: SetupState) -> (SetupState, SetupOpView) {
    if s.index < s.volumes.len() {
        let u = encode(s.volumes[s.index]);
        if has_inner_nul(u) {
            setup_failing(s, ErrorView::Other(nul_text(u)))
        } else {
            going_on(
                s,
                SetupPhase::IsVolumeSupported,
                SetupOpView::IsVolumeSupported { volume: terminated(u) },
            )
        }
    } else if s.added == 0 {
        setup_failing(s, ErrorView::Other("No volumes could be added to snapshot set"@))
    } else {
        going_on(s, SetupPhase::PrepareForBackup, SetupOpView::PrepareForBackup)
    }
}

/// What may come of the last operation.
pub open spec fn setup_accepts(s: SetupState, event: SetupEventView) -> bool {
    match event {
        SetupEventView::Volumes(_) => s.phase == SetupPhase::ListVolumes,
        SetupEventView::Supported(_) => s.phase == SetupPhase::IsVolumeSupported,
        SetupEventView::Failed(_) => s.phase != SetupPhase::Ready && s.phase
            != SetupPhase::Finished,
        SetupEventView::Done => s.phase != SetupPhase::ListVolumes && s.phase
            != SetupPhase::IsVolumeSupported && s.phase != SetupPhase::Finished,
    }
}

/// What the setup does next.
pub open spec fn setup_next(s: SetupState, event: SetupEventView) -> (SetupState, SetupOpView) {
    match event {
        SetupEventView::Failed(cause) => setup_failing(s, step_error(s.phase, cause)),
        SetupEventView::Volumes(volumes) => if volumes.len() == 0 {
            setup_failing(
                s,
                ErrorView::Other("No volumes found on disk - cannot create shadow copy"@),
            )
        } else {
            going_on(
                SetupState { volumes, ..s },
                SetupPhase::NewComponents,
                SetupOpView::NewComponents,
            )
        },
        SetupEventView::Supported(true) => going_on(
            s,
            SetupPhase::AddToSnapshotSet,
            SetupOpView::AddToSnapshotSet { volume: terminated(encode(s.volumes[s.index])) },
        ),
        SetupEventView::Supported(false) => at_volume(SetupState { index: s.index + 1, ..s }),
        SetupEventView::Done => match s.phase {
            SetupPhase::Ready => going_on(
                s,
                SetupPhase::InitializeCom,
                SetupOpView::InitializeCom,
            ),
            SetupPhase::InitializeCom => going_on(
                s,
                SetupPhase::ListVolumes,
                SetupOpView::ListVolumes { disk_number: s.disk_number },
            ),
            SetupPhase::NewComponents => going_on(
                s,
                SetupPhase::InitializeForBackup,
                SetupOpView::InitializeForBackup,
            ),
            SetupPhase::InitializeForBackup => going_on(
                s,
                SetupPhase::SetContext,
                SetupOpView::SetContext,
            ),
            SetupPhase::SetContext => going_on(
                s,
                SetupPhase::SetBackupState,
                SetupOpView::SetBackupState,
            ),
            SetupPhase::SetBackupState => going_on(
                s,
                SetupPhase::GatherWriterMetadata,
                SetupOpView::GatherWriterMetadata,
            ),
            SetupPhase::GatherWriterMetadata => going_on(
                s,
                SetupPhase::WaitForMetadata,
                SetupOpView::Wait,
            ),
            SetupPhase::WaitForMetadata => going_on(
                s,
                SetupPhase::StartSnapshotSet,
                SetupOpView::StartSnapshotSet,
            ),
            SetupPhase::StartSnapshotSet => at_volume(s),
            SetupPhase::AddToSnapshotSet => at_volume(
                SetupState { index: s.index + 1, added: s.added + 1, ..s },
            ),
            SetupPhase::PrepareForBackup => going_on(
                s,
                SetupPhase::WaitForPrepare,
                SetupOpView::Wait,
            ),
            SetupPhase::WaitForPrepare => going_on(
                s,
                SetupPhase::DoSnapshotSet,
                SetupOpView::DoSnapshotSet,
            ),
            SetupPhase::DoSnapshotSet => going_on(
                s,
                SetupPhase::WaitForSnapshot,
                SetupOpView::Wait,
            ),
            _ => going_on(s, SetupPhase::Finished, SetupOpView::Finish),
        },
    }
}

/// What always holds of a setup: it asks only about volumes that are there,
/// and has added none but those it has passed.
pub open spec fn setup_consistent(s: SetupState) -> bool {
    &&& 0 <= s.added <= s.index <= s.volumes.len() <= usize::MAX
    &&& s.phase == SetupPhase::IsVolumeSupported || s.phase == SetupPhase::AddToSnapshotSet
        ==> s.index < s.volumes.len() && !has_inner_nul(encode(s.volumes[s.index]))
    &&& s.phase == SetupPhase::ListVolumes ==> s.index == 0
    &&& s.phase == SetupPhase::Ready || s.phase == SetupPhase::InitializeCom ==> s.index == 0
}

/// The snapshots of a disk while they are being taken.
#[derive(Debug)]
pub struct SnapshotSetup {
    disk_number: u32,
    phase: SetupPhase,
    volumes: Vec<String>,
    index: usize,
    added: usize,
}

impl View for SnapshotSetup {
    type V = SetupState;

    closed spec fn view(&self) -> SetupState {
        SetupState {
            disk_number: self.disk_number,
            phase: self.phase,
            volumes: texts(self.volumes@),
            index: self.index as int,
            added: self.added as int,
        }
    }
}

impl VssSnapshot {
    /// Starts to create a VSS snapshot of all volumes on the given disk.
    pub fn create_for_disk(disk_number: u32) -> (r: SnapshotSetup)
        ensures
            r.wf(),
            r@ == setup_initial(disk_number),
    {
        let volumes: Vec<String> = Vec::new();
        assert(texts(volumes@) =~= Seq::<Seq<char>>::empty());
        SnapshotSetup { disk_number, phase: SetupPhase::Ready, volumes, index: 0, added: 0 }
    }
}

impl SnapshotSetup {
    pub open spec fn wf(self) -> bool {
        setup_consistent(self@)
    }

    /// Takes what came of the last operation and gives the next one.
    pub fn step(&mut self, event: SetupEvent) -> (op: SetupOp)
        requires
            old(self).wf(),
            setup_accepts(old(self)@, event@),
        ensures
            final(self).wf(),
            (final(self)@, op@) == setup_next(old(self)@, event@),
    {
        match event {
            SetupEvent::Failed(cause) => {
                let error = step_failure(self.phase, cause);
                self.fail(error)
            },
            SetupEvent::Volumes(volumes) => {
                let none = volumes.len() == 0;
                if none {
                    let error = DiskCloneError::Other(
                        "No volumes found on disk - cannot create shadow copy".to_owned(),
                    );
                    self.fail(error)
                } else {
                    self.volumes = volumes;
                    self.phase = SetupPhase::NewComponents;
                    SetupOp::NewComponents
                }
            },
            SetupEvent::Supported(supported) => {
                if supported {
                    match wide_c_string(self.volumes[self.index].as_str()) {
                        Ok(volume) => {
                            self.phase = SetupPhase::AddToSnapshotSet;
                            SetupOp::AddToSnapshotSet { volume }
                        },
                        Err(m) => self.fail(DiskCloneError::Other(m)),
                    }
                } else {
                    self.index = self.index + 1;
                    self.ask()
                }
            },
            SetupEvent::Done => self.go_on(),
        }
    }

    fn fail(&mut self, error: DiskCloneError) -> (op: SetupOp)
        ensures
            (final(self)@, op@) == setup_failing(old(self)@, error@),
    {
        self.phase = SetupPhase::Finished;
        SetupOp::Fail { error }
    }

    fn ask(&mut self) -> (op: SetupOp)
        requires
            0 <= old(self)@.added <= old(self)@.index <= old(self)@.volumes.len() <= usize::MAX,
        ensures
            final(self).wf(),
            (final(self)@, op@) == at_volume(old(self)@),
    {
        if self.index < self.volumes.len() {
            match wide_c_string(self.volumes[self.index].as_str()) {
                Ok(volume) => {
                    self.phase = SetupPhase::IsVolumeSupported;
                    SetupOp::IsVolumeSupported { volume }
                },
                Err(m) => self.fail(DiskCloneError::Other(m)),
            }
        } else if self.added == 0 {
            let error = DiskCloneError::Other(
                "No volumes could be added to snapshot set".to_owned(),
            );
            self.fail(error)
        } else {
            self.phase = SetupPhase::PrepareForBackup;
            SetupOp::PrepareForBackup
        }
    }

    fn go_on(&mut self) -> (op: SetupOp)
        requires
            old(self).wf(),
            setup_accepts(old(self)@, SetupEventView::Done),
        ensures
            final(self).wf(),
            (final(self)@, op@) == setup_next(old(self)@, SetupEventView::Done),
    {
        match self.phase {
            SetupPhase::Ready => {
                self.phase = SetupPhase::InitializeCom;
                SetupOp::InitializeCom
            },
            SetupPhase::InitializeCom => {
                self.phase = SetupPhase::ListVolumes;
                SetupOp::ListVolumes { disk_number: self.disk_number }
            },
            SetupPhase::NewComponents => {
                self.phase = SetupPhase::InitializeForBackup;
                SetupOp::InitializeForBackup
            },
            SetupPhase::InitializeForBackup => {
                self.phase = SetupPhase::SetContext;
                SetupOp::SetContext
            },
            SetupPhase::SetContext => {
                self.phase = SetupPhase::SetBackupState;
                SetupOp::SetBackupState
            },
            SetupPhase::SetBackupState => {
                self.phase = SetupPhase::GatherWriterMetadata;
                SetupOp::GatherWriterMetadata
            },
            SetupPhase::GatherWriterMetadata => {
                self.phase = SetupPhase::WaitForMetadata;
                SetupOp::Wait
            },
            SetupPhase::WaitForMetadata => {
                self.phase = SetupPhase::StartSnapshotSet;
                SetupOp::StartSnapshotSet
            },
            SetupPhase::StartSnapshotSet => self.ask(),
            SetupPhase::AddToSnapshotSet => {
                self.index = self.index + 1;
                self.added = self.added + 1;
                self.ask()
            },
            SetupPhase::PrepareForBackup => {
                self.phase = SetupPhase::WaitForPrepare;
                SetupOp::Wait
            },
            SetupPhase::WaitForPrepare => {
                self.phase = SetupPhase::DoSnapshotSet;
                SetupOp::DoSnapshotSet
            },
            SetupPhase::DoSnapshotSet => {
                self.phase = SetupPhase::WaitForSnapshot;
                SetupOp::Wait
            },
            _ => {
                self.phase = SetupPhase::Finished;
                SetupOp::Finish
            },
        }
    }
}

/// The error of a failed operation.
fn step_failure(phase: SetupPhase, cause: String) -> (e: DiskCloneError)
    ensures
        e@ == step_error(phase, cause@),
{
    let name = match phase {
        SetupPhase::ListVolumes => {
            return DiskCloneError::Io(cause);
        },
        SetupPhase::InitializeCom => "COM init: ",
        SetupPhase::NewComponents => "BackupComponents::new: ",
        SetupPhase::InitializeForBackup => "initialize_for_backup: ",
        SetupPhase::SetContext => "set_context: ",
        SetupPhase::SetBackupState => "set_backup_state: ",
        SetupPhase::GatherWriterMetadata => "gather_writer_metadata: ",
        SetupPhase::StartSnapshotSet => "start_snapshot_set: ",
        SetupPhase::IsVolumeSupported => "is_volume_supported: ",
        SetupPhase::AddToSnapshotSet => "add_to_snapshot_set: ",
        SetupPhase::PrepareForBackup => "prepare_for_backup: ",
        SetupPhase::DoSnapshotSet => "do_snapshot_set: ",
        _ => "VSS async wait: ",
    };
    vss_error(name, cause.as_str())
}

/// The operations of a setup that was given the events, and where it stands.
pub struct SetupRun {
    pub state: SetupState,
    pub ops: Seq<SetupOpView>,
}

/// A setup that is given events.
pub open spec fn setup_run(disk_number: u32, events: Seq<SetupEventView>) -> SetupRun
    decreases events.len(),
{
    if events.len() == 0 {
        SetupRun { state: setup_initial(disk_number), ops: seq![] }
    } else {
        let before = setup_run(disk_number, events.drop_last());
        let (state, op) = setup_next(before.state, events.last());
        SetupRun { state, ops: before.ops.push(op) }
    }
}

/// Each event may come of the operation before it.
pub open spec fn setup_possible(disk_number: u32, events: Seq<SetupEventView>) -> bool
    decreases events.len(),
{
    events.len() == 0 || {
        &&& setup_possible(disk_number, events.drop_last())
        &&& setup_accepts(setup_run(disk_number, events.drop_last()).state, events.last())
    }
}

/// Which volumes were said to be supported.
pub open spec fn supports(events: Seq<SetupEventView>) -> Seq<bool>
    decreases events.len(),
{
    if events.len() == 0 {
        seq![]
    } else {
        match events.last() {
            SetupEventView::Supported(b) => supports(events.drop_last()).push(b),
            _ => supports(events.drop_last()),
        }
    }
}

/// The operations before the first volume.
pub open spec fn opening(disk_number: u32) -> Seq<SetupOpView> {
    seq![
        SetupOpView::InitializeCom,
        SetupOpView::ListVolumes { disk_number },
        SetupOpView::NewComponents,
        SetupOpView::InitializeForBackup,
        SetupOpView::SetContext,
        SetupOpView::SetBackupState,
        SetupOpView::GatherWriterMetadata,
        SetupOpView::Wait,
        SetupOpView::StartSnapshotSet,
    ]
}

/// The operations on one volume: it is asked about, and added if it is
/// supported.
pub open spec fn on_volume(volume: Seq<char>, supported: bool) -> Seq<SetupOpView> {
    let w = terminated(encode(volume));
    if supported {
        seq![
            SetupOpView::IsVolumeSupported { volume: w },
            SetupOpView::AddToSnapshotSet { volume: w },
        ]
    } else {
        seq![SetupOpView::IsVolumeSupported { volume: w }]
    }
}

/// The operations on the volumes for which the answers are known.
pub open spec fn on_volumes(volumes: Seq<Seq<char>>, supported: Seq<bool>) -> Seq<SetupOpView>
    decreases supported.len(),
{
    if supported.len() == 0 {
        seq![]
    } else {
        on_volumes(volumes, supported.drop_last()) + on_volume(
            volumes[supported.len() - 1],
            supported.last(),
        )
    }
}

/// The operations behind the last volume.
pub open spec fn closing() -> Seq<SetupOpView> {
    seq![
        SetupOpView::PrepareForBackup,
        SetupOpView::Wait,
        SetupOpView::DoSnapshotSet,
        SetupOpView::Wait,
        SetupOpView::Finish,
    ]
}

/// How many operations of [`opening`] have been asked for.
spec fn opened(phase: SetupPhase) -> int {
    match phase {
        SetupPhase::Ready => 0,
        SetupPhase::InitializeCom => 1,
        SetupPhase::ListVolumes => 2,
        SetupPhase::NewComponents => 3,
        SetupPhase::InitializeForBackup => 4,
        SetupPhase::SetContext => 5,
        SetupPhase::SetBackupState => 6,
        SetupPhase::GatherWriterMetadata => 7,
        SetupPhase::WaitForMetadata => 8,
        _ => 9,
    }
}

/// How many operations of [`closing`] have been asked for.
spec fn closed(phase: SetupPhase) -> int {
    match phase {
        SetupPhase::PrepareForBackup => 1,
        SetupPhase::WaitForPrepare => 2,
        SetupPhase::DoSnapshotSet => 3,
        SetupPhase::WaitForSnapshot => 4,
        SetupPhase::Finished => 5,
        _ => 0,
    }
}

/// What holds of a setup that has not failed.
spec fn on_track(disk_number: u32, r: SetupRun, flags: Seq<bool>) -> bool {
    let s = r.state;
    &&& s.disk_number == disk_number
    &&& s.added > 0 <==> flags.contains(true)
    &&& s.added >= 0
    &&& match s.phase {
        SetupPhase::IsVolumeSupported => flags.len() == s.index && s.index < s.volumes.len()
            && r.ops == (opening(disk_number) + on_volumes(s.volumes, flags)).push(
            SetupOpView::IsVolumeSupported { volume: terminated(encode(s.volumes[s.index])) },
        ),
        SetupPhase::AddToSnapshotSet => true,
        _ if closed(s.phase) > 0 => flags.len() == s.volumes.len() && s.added > 0 && r.ops
            == opening(disk_number) + on_volumes(s.volumes, flags) + closing().take(
            closed(s.phase),
        ),
        _ => flags.len() == 0 && s.index == 0 && s.added == 0 && r.ops == opening(
            disk_number,
        ).take(opened(s.phase)),
    }
}

/// What holds of a setup that has just been told to add a volume.
spec fn adding(disk_number: u32, r: SetupRun, flags: Seq<bool>) -> bool {
    let s = r.state;
    &&& s.disk_number == disk_number
    &&& s.added >= 0
    &&& flags.len() == s.index + 1
    &&& s.index < s.volumes.len()
    &&& flags.contains(true)
    &&& r.ops == opening(disk_number) + on_volumes(s.volumes, flags)
}

proof fn lemma_at_volume(disk_number: u32, s: SetupState, ops: Seq<SetupOpView>, flags: Seq<bool>)
    requires
        s.disk_number == disk_number,
        s.added > 0 <==> flags.contains(true),
        s.added >= 0,
        flags.len() == s.index <= s.volumes.len(),
        ops == opening(disk_number) + on_volumes(s.volumes, flags),
    ensures
        ({
            let (t, op) = at_volume(s);
            op is Fail || (t.phase != SetupPhase::AddToSnapshotSet && on_track(
                disk_number,
                (SetupRun { state: t, ops: ops.push(op) }),
                flags,
            ))
        }),
{
    let (t, op) = at_volume(s);
    if s.index >= s.volumes.len() {
        assert(closing().take(1) =~= seq![SetupOpView::PrepareForBackup]);
        assert(ops.push(SetupOpView::PrepareForBackup) =~= ops + closing().take(1));
    }
}

proof fn lemma_contains_push(flags: Seq<bool>, b: bool)
    ensures
        flags.push(b).contains(true) <==> flags.contains(true) || b,
{
    let r = flags.push(b);
    assert(r[flags.len() as int] == b);
    if flags.contains(true) {
        let i = choose|i: int| 0 <= i < flags.len() && flags[i];
        assert(r[i]);
    }
    if r.contains(true) && !b {
        let i = choose|i: int| 0 <= i < r.len() && r[i];
        assert(flags[i]);
    }
}

proof fn lemma_setup_on_track(disk_number: u32, events: Seq<SetupEventView>)
    requires
        setup_possible(disk_number, events),
    ensures
        ({
            let r = setup_run(disk_number, events);
            ||| r.ops.len() > 0 && r.ops.last() is Fail && r.state.phase == SetupPhase::Finished
            ||| r.state.phase == SetupPhase::AddToSnapshotSet && adding(
                disk_number,
                r,
                supports(events),
            )
            ||| r.state.phase != SetupPhase::AddToSnapshotSet && on_track(
                disk_number,
                r,
                supports(events),
            )
        }),
    decreases events.len(),
{
    if events.len() == 0 {
        assert(opening(disk_number).take(0) =~= seq![]);
        assert(!supports(events).contains(true));
    } else {
        let init = events.drop_last();
        lemma_setup_on_track(disk_number, init);
        let before = setup_run(disk_number, init);
        let s = before.state;
        let flags = supports(init);
        let r = setup_run(disk_number, events);
        match events.last() {
            SetupEventView::Failed(_) => {},
            SetupEventView::Volumes(v) => {
                assert(opening(disk_number).take(3) =~= opening(disk_number).take(2).push(
                    SetupOpView::NewComponents,
                ));
            },
            SetupEventView::Supported(b) => {
                let more = flags.push(b);
                lemma_contains_push(flags, b);
                assert(more.drop_last() =~= flags);
                let w = terminated(encode(s.volumes[s.index]));
                if b {
                    assert(r.ops =~= opening(disk_number) + on_volumes(s.volumes, more));
                } else {
                    assert(before.ops =~= opening(disk_number) + on_volumes(s.volumes, more));
                    lemma_at_volume(
                        disk_number,
                        SetupState { index: s.index + 1, ..s },
                        before.ops,
                        more,
                    );
                }
            },
            SetupEventView::Done => {
                if s.phase == SetupPhase::AddToSnapshotSet {
                    lemma_at_volume(
                        disk_number,
                        SetupState { index: s.index + 1, added: s.added + 1, ..s },
                        before.ops,
                        flags,
                    );
                } else if s.phase == SetupPhase::StartSnapshotSet {
                    assert(opening(disk_number).take(9) =~= opening(disk_number));
                    assert(before.ops =~= opening(disk_number) + on_volumes(s.volumes, flags));
                    lemma_at_volume(disk_number, s, before.ops, flags);
                } else if closed(s.phase) > 0 {
                    let k = closed(s.phase);
                    assert(closing().take(k + 1) =~= closing().take(k).push(closing()[k]));
                    assert(r.ops =~= opening(disk_number) + on_volumes(s.volumes, flags)
                        + closing().take(k + 1));
                } else {
                    let k = opened(s.phase);
                    assert(opening(disk_number).take(k + 1) =~= opening(disk_number).take(k).push(
                        opening(disk_number)[k],
                    ));
                }
            },
        }
    }
}

/// A setup that ends well has asked about each volume on the disk in turn,
/// has added those that are supported and no others, and has added at least
/// one; before and behind that it has done the same calls as every other.
pub proof fn law_finished_setup_added_supported(disk_number: u32, events: Seq<SetupEventView>)
    requires
        setup_possible(disk_number, events),
        events.len() > 0,
        setup_run(disk_number, events).ops.last() is Finish,
    ensures
        ({
            let r = setup_run(disk_number, events);
            let flags = supports(events);
            &&& flags.len() == r.state.volumes.len()
            &&& flags.contains(true)
            &&& r.ops == opening(disk_number) + on_volumes(r.state.volumes, flags) + closing()
        }),
{
    lemma_setup_on_track(disk_number, events);
    let before = setup_run(disk_number, events.drop_last());
    let r = setup_run(disk_number, events);
    assert(r.state.phase == SetupPhase::Finished);
    assert(closing().take(5) =~= closing());
}

} // verus!

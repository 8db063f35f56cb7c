//! Why a setup of snapshots ends without them, and which volumes it is of.

use vstd::prelude::*;

use crate::error::ErrorView;
use crate::snapshot_setup::{setup_accepts, setup_next, setup_possible, setup_run, SetupEvent, SetupEventView, SetupOp, SetupOpView, SetupPhase, SetupState};
use crate::vss::texts;
use crate::wide::{encode, has_inner_nul, nul_text};

verus! {

proof fn lemma_nothing_listed_yet(disk_number: u32, events: Seq<SetupEventView>)
    requires
        setup_possible(disk_number, events),
    ensures
        ({
            let s = setup_run(disk_number, events).state;
            s.phase == SetupPhase::Ready || s.phase == SetupPhase::InitializeCom || s.phase
                == SetupPhase::ListVolumes ==> s.volumes.len() == 0 && forall|i: int|
                0 <= i < events.len() ==> #[trigger] events[i] !is Volumes
        }),
    decreases events.len(),
{
    if events.len() > 0 {
        let init = events.drop_last();
        lemma_nothing_listed_yet(disk_number, init);
        let s = setup_run(disk_number, events).state;
        if s.phase == SetupPhase::Ready || s.phase == SetupPhase::InitializeCom || s.phase
            == SetupPhase::ListVolumes {
            assert forall|i: int| 0 <= i < events.len() implies #[trigger] events[i]
                !is Volumes by {
                if i < init.len() {
                    assert(events[i] == init[i]);
                }
            }
        }
    }
}

/// The volumes that a setup works on are those that were listed for its disk.
pub proof fn law_setup_is_of_listed_volumes(
    disk_number: u32,
    events: Seq<SetupEventView>,
    i: int,
)
    requires
        setup_possible(disk_number, events),
        0 <= i < events.len(),
        events[i] is Volumes,
    ensures
        setup_run(disk_number, events).state.volumes =~= events[i]->Volumes_0,
    decreases events.len(),
{
    let init = events.drop_last();
    lemma_nothing_listed_yet(disk_number, init);
    if i < init.len() {
        assert(events[i] == init[i]);
        law_setup_is_of_listed_volumes(disk_number, init, i);
    }
}

/// An operation that failed ends the setup with an error that names it and
/// gives the cause; no event is taken after that.
pub proof fn law_failed_call_is_named(s: SetupState, cause: Seq<char>, event: SetupEventView)
    ensures
        ({
            let (to, op) = setup_next(s, SetupEventView::Failed(cause));
            &&& !setup_accepts(to, event)
            &&& op is Fail
            &&& s.phase == SetupPhase::InitializeCom ==> op->error == ErrorView::Vss(
                "COM init: "@ + cause,
            )
            &&& s.phase == SetupPhase::ListVolumes ==> op->error == ErrorView::Io(cause)
            &&& s.phase == SetupPhase::NewComponents ==> op->error == ErrorView::Vss(
                "BackupComponents::new: "@ + cause,
            )
            &&& s.phase == SetupPhase::InitializeForBackup ==> op->error == ErrorView::Vss(
                "initialize_for_backup: "@ + cause,
            )
            &&& s.phase == SetupPhase::SetContext ==> op->error == ErrorView::Vss(
                "set_context: "@ + cause,
            )
            &&& s.phase == SetupPhase::SetBackupState ==> op->error == ErrorView::Vss(
                "set_backup_state: "@ + cause,
            )
            &&& s.phase == SetupPhase::GatherWriterMetadata ==> op->error == ErrorView::Vss(
                "gather_writer_metadata: "@ + cause,
            )
            &&& s.phase == SetupPhase::StartSnapshotSet ==> op->error == ErrorView::Vss(
                "start_snapshot_set: "@ + cause,
            )
            &&& s.phase == SetupPhase::IsVolumeSupported ==> op->error == ErrorView::Vss(
                "is_volume_supported: "@ + cause,
            )
            &&& s.phase == SetupPhase::AddToSnapshotSet ==> op->error == ErrorView::Vss(
                "add_to_snapshot_set: "@ + cause,
            )
            &&& s.phase == SetupPhase::PrepareForBackup ==> op->error == ErrorView::Vss(
                "prepare_for_backup: "@ + cause,
            )
            &&& s.phase == SetupPhase::DoSnapshotSet ==> op->error == ErrorView::Vss(
                "do_snapshot_set: "@ + cause,
            )
            &&& s.phase == SetupPhase::WaitForMetadata || s.phase == SetupPhase::WaitForPrepare
                || s.phase == SetupPhase::WaitForSnapshot ==> op->error == ErrorView::Vss(
                "VSS async wait: "@ + cause,
            )
        }),
{
}

/// The volume that a setup turns to after the event, if it turns to one.
pub open spec fn turns_to(s: SetupState, event: SetupEventView) -> Option<int> {
    if event matches SetupEventView::Supported(b) && !b {
        Some(s.index + 1)
    } else if event is Done && s.phase == SetupPhase::AddToSnapshotSet {
        Some(s.index + 1)
    } else if event is Done && s.phase == SetupPhase::StartSnapshotSet {
        Some(s.index)
    } else {
        None
    }
}

/// Where nothing failed, a setup ends without snapshots for three reasons only,
/// and each has its error: no volume is on the disk, the name of the next
/// volume has a nul in it, or no volume could be added.
pub proof fn law_setup_fails_for_a_reason(s: SetupState, event: SetupEventView)
    requires
        event !is Failed,
        s.added >= 0,
        s.index >= 0,
    ensures
        ({
            let op = setup_next(s, event).1;
            let at = turns_to(s, event);
            let none = event matches SetupEventView::Volumes(v) && v.len() == 0;
            let bad = at matches Some(i) && i < s.volumes.len() && has_inner_nul(
                encode(s.volumes[i]),
            );
            let unsupported = at matches Some(i) && i >= s.volumes.len() && s.added == 0
                && !(event is Done && s.phase == SetupPhase::AddToSnapshotSet);
            &&& op is Fail <==> none || bad || unsupported
            &&& none ==> op->error == ErrorView::Other(
                "No volumes found on disk - cannot create shadow copy"@,
            )
            &&& bad ==> op->error == ErrorView::Other(nul_text(encode(s.volumes[at->0])))
            &&& unsupported ==> op->error == ErrorView::Other(
                "No volumes could be added to snapshot set"@,
            )
        }),
{
}

/// Operations and events are seen as they are.
pub proof fn law_view_of_operation_and_event(op: SetupOp, ev: SetupEvent)
    ensures
        match op {
            SetupOp::InitializeCom => op@ is InitializeCom,
            SetupOp::ListVolumes { disk_number } => op@ == (SetupOpView::ListVolumes {
                disk_number,
            }),
            SetupOp::NewComponents => op@ is NewComponents,
            SetupOp::InitializeForBackup => op@ is InitializeForBackup,
            SetupOp::SetContext => op@ is SetContext,
            SetupOp::SetBackupState => op@ is SetBackupState,
            SetupOp::GatherWriterMetadata => op@ is GatherWriterMetadata,
            SetupOp::StartSnapshotSet => op@ is StartSnapshotSet,
            SetupOp::IsVolumeSupported { volume } => op@ == (SetupOpView::IsVolumeSupported {
                volume: volume@,
            }),
            SetupOp::AddToSnapshotSet { volume } => op@ == (SetupOpView::AddToSnapshotSet {
                volume: volume@,
            }),
            SetupOp::PrepareForBackup => op@ is PrepareForBackup,
            SetupOp::DoSnapshotSet => op@ is DoSnapshotSet,
            SetupOp::Wait => op@ is Wait,
            SetupOp::Finish => op@ is Finish,
            SetupOp::Fail { error } => op@ == (SetupOpView::Fail { error: error@ }),
        },
        match ev {
            SetupEvent::Done => ev@ is Done,
            SetupEvent::Volumes(v) => ev@ == SetupEventView::Volumes(
                v@.map_values(|s: String| s@),
            ),
            SetupEvent::Supported(b) => ev@ == SetupEventView::Supported(b),
            SetupEvent::Failed(m) => ev@ == SetupEventView::Failed(m@),
        },
{
    if let SetupEvent::Volumes(v) = ev {
        assert(texts(v@) =~= v@.map_values(|s: String| s@));
    }
}

} // verus!

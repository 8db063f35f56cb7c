//! How a clone that is driven from a window goes from its start to its end.

use vstd::prelude::*;

use crate::clone_job::{job_accepts, job_initial, job_next, DestConfig, DestMode, DestView, JobEvent, JobEventView, JobOp, JobOpView, JobPhase, JobState, JobStep, JobStepView, MsgView, WorkerMsg};
use crate::diagram::{views, DiagramRegion, RegionView};
use crate::error::ErrorView;
use crate::ssh_sink::{cat_command, dd_command};
use crate::text::decimal;

verus! {

/// A step that tells the window nothing.
pub open spec fn quietly(op: JobOpView) -> JobStepView {
    JobStepView { message: None, op }
}

/// A step that changes the status line; all is well.
pub open spec fn saying(text: Seq<char>, op: JobOpView) -> JobStepView {
    JobStepView { message: Some(MsgView::Status(text, true)), op }
}

/// The steps that the work does on the events, and the state it is in then.
pub open spec fn job_steps(from: JobState, events: Seq<JobEventView>) -> (JobState, Seq<JobStepView>)
    decreases events.len(),
{
    if events.len() == 0 {
        (from, seq![])
    } else {
        let (st, steps) = job_steps(from, events.drop_last());
        let (to, step) = job_next(st, events.last());
        (to, steps.push(step))
    }
}

proof fn lemma_job_steps_push(from: JobState, events: Seq<JobEventView>, ev: JobEventView)
    ensures
        ({
            let (st, steps) = job_steps(from, events);
            let (to, step) = job_next(st, ev);
            job_steps(from, events.push(ev)) == (to, steps.push(step))
        }),
{
    assert(events.push(ev).drop_last() =~= events);
}

/// Every clone begins alike: the layout of the disk is read, its snapshot is
/// taken, the image is built with a buffer of 16 MB, the window is shown the
/// diagram of that disk, and the user is asked for a destination.
pub proof fn law_clone_begins_with_snapshot(
    disk: u32,
    regions: Seq<RegionView>,
    total: u64,
)
    ensures
        ({
            let events = seq![
                JobEventView::Done,
                JobEventView::Done,
                JobEventView::Done,
                JobEventView::Built { regions, total },
            ];
            let (st, steps) = job_steps(job_initial(disk), events);
            &&& steps == seq![
                saying("Creating VSS snapshot..."@, JobOpView::ReadLayout { disk_number: disk }),
                quietly(JobOpView::CreateSnapshot { disk_number: disk }),
                saying(
                    "VSS snapshot created"@,
                    JobOpView::BuildImage { disk_number: disk, buffer_size_mb: 16 },
                ),
                JobStepView {
                    message: Some(MsgView::DiagramReady(regions, total)),
                    op: JobOpView::AwaitChoice,
                },
            ]
            &&& st.phase == JobPhase::Choice
        }),
{
    let d = JobEventView::Done;
    let b = JobEventView::Built { regions, total };
    let s = job_initial(disk);
    let e = Seq::<JobEventView>::empty();
    lemma_job_steps_push(s, e, d);
    lemma_job_steps_push(s, e.push(d), d);
    lemma_job_steps_push(s, e.push(d).push(d), d);
    lemma_job_steps_push(s, e.push(d).push(d).push(d), b);
    assert(seq![d, d, d, b] =~= e.push(d).push(d).push(d).push(b));
}

/// Once the user has chosen the remote system, the work logs in there as the
/// user that was chosen, opens the path that was chosen (one of its own only
/// where none was), streams, finishes the snapshot and ends with the count of
/// bytes that were streamed. What lies under `/dev/` is a device.
pub proof fn law_clone_to_remote_system(st: JobState, c: DestView, bytes: u64)
    requires
        st.phase == JobPhase::Choice,
        c.dest_mode == DestMode::Ssh,
    ensures
        ({
            let events = seq![
                JobEventView::Chosen(Some(c)),
                JobEventView::Done,
                JobEventView::Done,
                JobEventView::Streamed(bytes),
                JobEventView::Done,
            ];
            let path = if c.remote_path.len() > 0 {
                c.remote_path
            } else {
                "/tmp/diskclone.img"@
            };
            let (to, steps) = job_steps(st, events);
            &&& steps == seq![
                saying(
                    "Connecting to "@ + c.ssh_host + "..."@,
                    JobOpView::Connect {
                        user: c.ssh_user,
                        host: c.ssh_host,
                        password: c.ssh_password,
                    },
                ),
                saying(
                    "Streaming to "@ + path + "..."@,
                    JobOpView::OpenRemote {
                        command: if "/dev/"@.is_prefix_of(path) {
                            dd_command(path)
                        } else {
                            cat_command(path)
                        },
                    },
                ),
                quietly(JobOpView::Stream),
                quietly(JobOpView::FinishSnapshot),
                quietly(JobOpView::Finish { bytes }),
            ]
            &&& to.phase == JobPhase::Over
        }),
{
    let d = JobEventView::Done;
    let a = JobEventView::Chosen(Some(c));
    let b = JobEventView::Streamed(bytes);
    let e = Seq::<JobEventView>::empty();
    lemma_job_steps_push(st, e, a);
    lemma_job_steps_push(st, e.push(a), d);
    lemma_job_steps_push(st, e.push(a).push(d), d);
    lemma_job_steps_push(st, e.push(a).push(d).push(d), b);
    lemma_job_steps_push(st, e.push(a).push(d).push(d).push(b), d);
    assert(seq![a, d, d, b, d] =~= e.push(a).push(d).push(d).push(b).push(d));
}

/// Once the user has chosen a file or a disk, the work opens what was chosen
/// (a file of its own only where none was named), streams, finishes the
/// snapshot and ends with the count of bytes that were streamed.
pub proof fn law_clone_to_file_or_disk(st: JobState, c: DestView, number: u32, bytes: u64)
    requires
        st.phase == JobPhase::Choice,
        c.dest_mode == DestMode::LocalFile || (c.dest_mode == DestMode::LocalDisk && c.target_disk
            == Some(number)),
    ensures
        ({
            let events = seq![
                JobEventView::Chosen(Some(c)),
                JobEventView::Done,
                JobEventView::Streamed(bytes),
                JobEventView::Done,
            ];
            let path = if c.local_file_path.len() > 0 {
                c.local_file_path
            } else {
                "diskclone.img"@
            };
            let (to, steps) = job_steps(st, events);
            &&& steps == seq![
                if c.dest_mode == DestMode::LocalFile {
                    saying("Writing to "@ + path + "..."@, JobOpView::OpenFile { path })
                } else {
                    saying(
                        "Writing to PhysicalDrive"@ + decimal(number as nat) + "..."@,
                        JobOpView::OpenDisk { number },
                    )
                },
                quietly(JobOpView::Stream),
                quietly(JobOpView::FinishSnapshot),
                quietly(JobOpView::Finish { bytes }),
            ]
            &&& to.phase == JobPhase::Over
        }),
{
    let d = JobEventView::Done;
    let a = JobEventView::Chosen(Some(c));
    let b = JobEventView::Streamed(bytes);
    let e = Seq::<JobEventView>::empty();
    lemma_job_steps_push(st, e, a);
    lemma_job_steps_push(st, e.push(a), d);
    lemma_job_steps_push(st, e.push(a).push(d), b);
    lemma_job_steps_push(st, e.push(a).push(d).push(b), d);
    assert(seq![a, d, b, d] =~= e.push(a).push(d).push(b).push(d));
}

/// A clone is given up where the user cancels, or chooses a disk without saying
/// which; the window is told. No event is taken after that.
pub proof fn law_clone_is_given_up(st: JobState, c: DestView, event: JobEventView)
    requires
        st.phase == JobPhase::Choice,
        c.dest_mode == DestMode::LocalDisk,
        c.target_disk is None,
    ensures
        job_next(st, JobEventView::Chosen(None)).1 == (JobStepView {
            message: Some(MsgView::Cancelled),
            op: JobOpView::Abandon,
        }),
        job_next(st, JobEventView::Chosen(Some(c))).1 == (JobStepView {
            message: Some(MsgView::Error("Select a target disk for local disk clone"@)),
            op: JobOpView::Abandon,
        }),
        !job_accepts(job_next(st, JobEventView::Chosen(None)).0, event),
        !job_accepts(job_next(st, JobEventView::Chosen(Some(c))).0, event),
{
}

/// Whatever fails, the clone ends with that error. No event is taken after
/// that.
pub proof fn law_failure_ends_clone(st: JobState, error: ErrorView, event: JobEventView)
    ensures
        job_next(st, JobEventView::Failed(error)).1 == quietly(JobOpView::Fail { error }),
        !job_accepts(job_next(st, JobEventView::Failed(error)).0, event),
{
}

/// Destinations and messages are seen as they are.
pub proof fn law_view_of_destination_and_message(c: DestConfig, m: WorkerMsg)
    ensures
        c@.dest_mode == c.dest_mode,
        c@.ssh_user == c.ssh_user@,
        c@.ssh_host == c.ssh_host@,
        c.ssh_password matches Some(p) ==> c@.ssh_password == Some(p@),
        c.ssh_password is None ==> c@.ssh_password is None,
        c@.remote_path == c.remote_path@,
        c@.local_file_path == c.local_file_path@,
        c@.target_disk == c.target_disk,
        match m {
            WorkerMsg::Total(n) => m@ == MsgView::Total(n),
            WorkerMsg::Status(s, ok) => m@ == MsgView::Status(s@, ok),
            WorkerMsg::DiagramReady(r, n) => m@ == MsgView::DiagramReady(
                r@.map_values(|x: DiagramRegion| x@),
                n,
            ),
            WorkerMsg::Done => m@ is Done,
            WorkerMsg::Error(s) => m@ == MsgView::Error(s@),
            WorkerMsg::Cancelled => m@ is Cancelled,
        },
{
    if let WorkerMsg::DiagramReady(r, n) = m {
        assert(views(r@) =~= r@.map_values(|x: DiagramRegion| x@));
    }
}

/// Operations are seen as they are.
pub proof fn law_view_of_operation(op: JobOp, step: JobStep)
    ensures
        match op {
            JobOp::ReadLayout { disk_number } => op@ == (JobOpView::ReadLayout { disk_number }),
            JobOp::CreateSnapshot { disk_number } => op@ == (JobOpView::CreateSnapshot {
                disk_number,
            }),
            JobOp::BuildImage { disk_number, buffer_size_mb } => op@ == (JobOpView::BuildImage {
                disk_number,
                buffer_size_mb: buffer_size_mb as int,
            }),
            JobOp::AwaitChoice => op@ is AwaitChoice,
            JobOp::Connect { user, host, password } => op@ == (JobOpView::Connect {
                user: user@,
                host: host@,
                password: match password {
                    Some(p) => Some(p@),
                    None => None,
                },
            }),
            JobOp::OpenRemote { command } => op@ == (JobOpView::OpenRemote { command: command@ }),
            JobOp::OpenFile { path } => op@ == (JobOpView::OpenFile { path: path@ }),
            JobOp::OpenDisk { number } => op@ == (JobOpView::OpenDisk { number }),
            JobOp::Stream => op@ is Stream,
            JobOp::FinishSnapshot => op@ is FinishSnapshot,
            JobOp::Finish { bytes } => op@ == (JobOpView::Finish { bytes }),
            JobOp::Abandon => op@ is Abandon,
            JobOp::Fail { error } => op@ == (JobOpView::Fail { error: error@ }),
        },
        step@.op == step.op@,
        step.message matches Some(m) ==> step@.message == Some(m@),
        step.message is None ==> step@.message is None,
{
}

/// Events are seen as they are.
pub proof fn law_view_of_event(ev: JobEvent)
    ensures
        match ev {
            JobEvent::Done => ev@ is Done,
            JobEvent::Built { regions, total } => ev@ == (JobEventView::Built {
                regions: regions@.map_values(|x: DiagramRegion| x@),
                total,
            }),
            JobEvent::Chosen(Some(c)) => ev@ == JobEventView::Chosen(Some(c@)),
            JobEvent::Chosen(None) => ev@ == JobEventView::Chosen(None),
            JobEvent::Streamed(n) => ev@ == JobEventView::Streamed(n),
            JobEvent::Failed(e) => ev@ == JobEventView::Failed(e@),
        },
{
    if let JobEvent::Built { regions, total } = ev {
        assert(views(regions@) =~= regions@.map_values(|x: DiagramRegion| x@));
    }
}

} // verus!

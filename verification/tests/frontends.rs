//! The command line and the window.

use diskclone::cli::{output_warning, ssh_user_and_host, Args, Command, Destination};
use diskclone::clone_job::{
    run_clone, DestConfig, DestMode, JobEvent, JobOp, JobStep, WorkerMsg,
};
use diskclone::diagram::{DiagramRegion, RegionSource};
use diskclone::disk::PhysicalDiskInfo;
use diskclone::error::DiskCloneError;
use diskclone::visual::{
    blank, drive_label, region_color, region_line, total_line, DiskCloneApp, Phase,
};

fn args() -> Args {
    Args {
        disk: Some(0),
        debug_vss: false,
        debug_image: false,
        output: None,
        target_disk: None,
        ssh: None,
        remote_path: None,
    }
}

#[test]
fn clone_to_a_file() {
    let a = Args { output: Some("C:\\backup\\disk.img".to_string()), ..args() };
    match a.command().unwrap() {
        Command::Clone { disk: 0, destination: Destination::File { path } } => {
            assert_eq!(path, "C:\\backup\\disk.img")
        }
        other => panic!("{:?}", other),
    }
}

#[test]
fn clone_to_a_drive() {
    let a = Args { target_disk: Some(1), ..args() };
    assert!(matches!(
        a.command(),
        Ok(Command::Clone { disk: 0, destination: Destination::Disk { number: 1 } })
    ));
}

#[test]
fn clone_to_a_remote_system() {
    let ssh = |remote_path: Option<&str>| {
        let a = Args {
            ssh: Some("admin@backup-server".to_string()),
            remote_path: remote_path.map(|p| p.to_string()),
            ..args()
        };
        match a.command().unwrap() {
            Command::Clone { destination: Destination::Ssh { target, remote_path }, .. } => {
                assert_eq!(target, "admin@backup-server");
                remote_path
            }
            other => panic!("{:?}", other),
        }
    };
    assert_eq!(ssh(Some("/dev/sdb")), "/dev/sdb");
    assert_eq!(ssh(None), "/tmp/diskclone.img");
}

#[test]
fn exactly_one_output_is_asked_for() {
    let message = "Error: Exactly one of --output, --target-disk, or --ssh must be specified";
    assert_eq!(args().command().unwrap_err(), message);
    let a = Args { output: Some("a".to_string()), target_disk: Some(1), ..args() };
    assert_eq!(a.command().unwrap_err(), message);
    let a = Args { ssh: Some("a".to_string()), target_disk: Some(1), ..args() };
    assert_eq!(a.command().unwrap_err(), message);
    let a = Args {
        output: Some("a".to_string()),
        target_disk: Some(1),
        ssh: Some("a".to_string()),
        ..args()
    };
    assert_eq!(a.command().unwrap_err(), message);
}

#[test]
fn disk_is_always_asked_for() {
    let no_disk = || Args { disk: None, output: Some("a".to_string()), ..args() };
    assert_eq!(no_disk().command().unwrap_err(), "Error: --disk N is required");
    let a = Args { debug_vss: true, debug_image: true, ..no_disk() };
    assert_eq!(a.command().unwrap_err(), "Error: --debug-vss requires --disk N");
    let a = Args { debug_image: true, ..no_disk() };
    assert_eq!(a.command().unwrap_err(), "Error: --debug-image requires --disk N");
}

#[test]
fn diagnostics_come_first() {
    let a = Args { debug_vss: true, debug_image: true, ..args() };
    assert!(matches!(a.command(), Ok(Command::DebugVss { disk: 0 })));
    let a = Args { debug_image: true, ..args() };
    assert!(matches!(a.command(), Ok(Command::DebugImage { disk: 0 })));
}

#[test]
fn ssh_target_is_user_and_host() {
    let split = |t: &str| ssh_user_and_host(t);
    let pair = |u: &str, h: &str| Some((u.to_string(), h.to_string()));
    assert_eq!(split("admin@backup-server"), pair("admin", "backup-server"));
    assert_eq!(split("a@b@c"), pair("a", "b@c"));
    assert_eq!(split("@"), pair("", ""));
    assert_eq!(split("host"), None);
    assert_eq!(split(""), None);
}

#[test]
fn bad_output_is_warned_of() {
    let mut head = [0u8; 512];
    assert_eq!(
        output_warning(&head).unwrap(),
        "WARNING: Output file MBR signature invalid (0x0000), image may be corrupted"
    );
    head[510] = 0x55;
    head[511] = 0xAA;
    assert_eq!(output_warning(&head), None);
    assert_eq!(output_warning(&[0u8; 511]), None);
}

fn config(mode: DestMode) -> DestConfig {
    DestConfig {
        dest_mode: mode,
        ssh_user: "u".to_string(),
        ssh_host: "h".to_string(),
        ssh_password: Some("SECRET".to_string()),
        remote_path: String::new(),
        local_file_path: String::new(),
        target_disk: None,
    }
}

fn told(step: &JobStep) -> String {
    match &step.message {
        Some(WorkerMsg::Status(s, true)) => s.clone(),
        Some(WorkerMsg::Error(s)) => format!("error: {}", s),
        Some(WorkerMsg::Cancelled) => "cancelled".to_string(),
        Some(WorkerMsg::DiagramReady(r, n)) => format!("diagram {} {}", r.len(), n),
        Some(other) => panic!("{:?}", other),
        None => String::new(),
    }
}

/// A clone up to the choice of the destination, and what comes of that.
fn chosen(c: Option<DestConfig>) -> (diskclone::clone_job::CloneJob, JobStep) {
    let mut job = run_clone(5);
    let s = job.step(JobEvent::Done);
    assert_eq!(told(&s), "Creating VSS snapshot...");
    assert!(matches!(s.op, JobOp::ReadLayout { disk_number: 5 }));
    let s = job.step(JobEvent::Done);
    assert_eq!(told(&s), "");
    assert!(matches!(s.op, JobOp::CreateSnapshot { disk_number: 5 }));
    let s = job.step(JobEvent::Done);
    assert_eq!(told(&s), "VSS snapshot created");
    assert!(matches!(s.op, JobOp::BuildImage { disk_number: 5, buffer_size_mb: 16 }));
    let s = job.step(JobEvent::Built { regions: vec![region()], total: 77 });
    assert_eq!(told(&s), "diagram 1 77");
    assert!(matches!(s.op, JobOp::AwaitChoice));
    let s = job.step(JobEvent::Chosen(c));
    (job, s)
}

#[test]
fn job_over_ssh() {
    let (mut job, s) = chosen(Some(config(DestMode::Ssh)));
    assert_eq!(told(&s), "Connecting to h...");
    match s.op {
        JobOp::Connect { user, host, password } => {
            assert_eq!((user.as_str(), host.as_str()), ("u", "h"));
            assert_eq!(password.as_deref(), Some("SECRET"));
        }
        other => panic!("{:?}", other),
    }
    let s = job.step(JobEvent::Done);
    assert_eq!(told(&s), "Streaming to /tmp/diskclone.img...");
    match s.op {
        JobOp::OpenRemote { command } => assert_eq!(command, "cat > \"/tmp/diskclone.img\""),
        other => panic!("{:?}", other),
    }
    assert!(matches!(job.step(JobEvent::Done).op, JobOp::Stream));
    assert!(matches!(job.step(JobEvent::Streamed(77)).op, JobOp::FinishSnapshot));
    assert!(matches!(job.step(JobEvent::Done).op, JobOp::Finish { bytes: 77 }));
}

#[test]
fn job_to_a_remote_device() {
    let c = DestConfig { remote_path: "/dev/sdb".to_string(), ..config(DestMode::Ssh) };
    let (mut job, _) = chosen(Some(c));
    match job.step(JobEvent::Done).op {
        JobOp::OpenRemote { command } => {
            assert_eq!(command, "dd of=\"/dev/sdb\" bs=512 2>/dev/null")
        }
        other => panic!("{:?}", other),
    }
}

#[test]
fn job_to_a_file() {
    let (mut job, s) = chosen(Some(config(DestMode::LocalFile)));
    assert_eq!(told(&s), "Writing to diskclone.img...");
    match s.op {
        JobOp::OpenFile { path } => assert_eq!(path, "diskclone.img"),
        other => panic!("{:?}", other),
    }
    assert!(matches!(job.step(JobEvent::Done).op, JobOp::Stream));
    let c = DestConfig { local_file_path: "D:\\x".to_string(), ..config(DestMode::LocalFile) };
    assert_eq!(told(&chosen(Some(c)).1), "Writing to D:\\x...");
}

#[test]
fn job_to_a_disk() {
    let c = DestConfig { target_disk: Some(2), ..config(DestMode::LocalDisk) };
    let (_, s) = chosen(Some(c));
    assert_eq!(told(&s), "Writing to PhysicalDrive2...");
    assert!(matches!(s.op, JobOp::OpenDisk { number: 2 }));
    let (_, s) = chosen(Some(config(DestMode::LocalDisk)));
    assert_eq!(told(&s), "error: Select a target disk for local disk clone");
    assert!(matches!(s.op, JobOp::Abandon));
}

#[test]
fn job_that_is_given_up() {
    let (_, s) = chosen(None);
    assert_eq!(told(&s), "cancelled");
    assert!(matches!(s.op, JobOp::Abandon));
}

#[test]
fn job_that_fails() {
    let mut job = run_clone(5);
    job.step(JobEvent::Done);
    let s = job.step(JobEvent::Failed(DiskCloneError::Ssh("no".to_string())));
    assert!(s.message.is_none());
    match s.op {
        JobOp::Fail { error } => assert_eq!(error.message(), "SSH error: no"),
        other => panic!("{:?}", other),
    }
}

fn region() -> DiagramRegion {
    DiagramRegion {
        start: 0,
        end: 17408,
        label: "Primary GPT".to_string(),
        source: RegionSource::GptPrimary,
    }
}

fn app() -> DiskCloneApp {
    DiskCloneApp::new(Some("me".to_string()), None)
}

#[test]
fn window_opens_with_the_user() {
    assert_eq!(app().ssh_user, "me");
    assert_eq!(DiskCloneApp::new(None, Some("you".to_string())).ssh_user, "you");
    let a = DiskCloneApp::new(None, None);
    assert_eq!(a.ssh_user, "root");
    assert!(a.offers_disks());
    assert_eq!((a.phase, a.dest_mode, a.status_ok), (Phase::Idle, DestMode::Ssh, true));
}

#[test]
fn window_shows_the_disks() {
    let mut a = app();
    a.load_disks(Ok(vec![
        PhysicalDiskInfo { disk_number: 0, size_bytes: 5 },
        PhysicalDiskInfo { disk_number: 3, size_bytes: 6 },
    ]));
    assert_eq!(a.status, "Found 2 disk(s)");
    assert_eq!((a.phase, a.status_ok), (Phase::Idle, true));
    assert!(!a.offers_disks());
    assert_eq!(a.target_drives(), vec![0, 3]);
    assert!(a.select_source(3));
    assert!(!a.select_source(3));
    assert_eq!(a.target_drives(), vec![0]);
    a.load_disks(Err(DiskCloneError::Io("denied".to_string())));
    assert_eq!(a.status, "Error: I/O error: denied");
    assert_eq!((a.phase, a.status_ok), (Phase::Error, false));
    a.press_retry();
    assert_eq!(a.phase, Phase::Idle);
}

#[test]
fn window_needs_a_source() {
    let mut a = app();
    assert_eq!(a.start_clone(), None);
    assert_eq!(a.error.as_deref(), Some("Select a source disk"));
    assert_eq!(a.phase, Phase::Idle);
    a.select_source(2);
    assert_eq!(a.start_clone(), Some(2));
    assert_eq!(a.error, None);
    assert_eq!(a.phase, Phase::CreatingSnapshot);
    assert_eq!(a.status, "Creating VSS snapshot...");
    assert!(a.listening && a.can_confirm && a.needs_repaint());
}

fn at_confirm() -> DiskCloneApp {
    let mut a = app();
    a.select_source(2);
    a.start_clone();
    a.receive(WorkerMsg::Status("VSS snapshot created".to_string(), true));
    assert_eq!(a.status, "VSS snapshot created");
    a.receive(WorkerMsg::DiagramReady(vec![region()], 99));
    assert_eq!((a.phase, a.total_bytes), (Phase::Confirm, 99));
    assert_eq!(a.status, "Review layout and confirm to start");
    a
}

#[test]
fn window_confirms_the_destination() {
    let mut a = at_confirm();
    a.ssh_host = "h".to_string();
    a.ssh_password = " \u{3000}\t".to_string();
    let c = a.press_start().unwrap();
    assert_eq!((c.ssh_user.as_str(), c.ssh_host.as_str()), ("me", "h"));
    assert_eq!(c.ssh_password, None);
    assert_eq!(a.phase, Phase::Streaming);
    assert_eq!(a.status, "Streaming...");
    assert!(a.press_start().is_none());
    let mut a = at_confirm();
    a.ssh_password = " x ".to_string();
    assert_eq!(a.press_start().unwrap().ssh_password.as_deref(), Some(" x "));
}

#[test]
fn window_asks_for_a_target_disk() {
    let mut a = at_confirm();
    a.dest_mode = DestMode::LocalDisk;
    assert!(a.press_start().is_none());
    assert_eq!(a.error.as_deref(), Some("Select a target disk for local disk clone"));
    assert_eq!(a.phase, Phase::Confirm);
    a.target_disk = Some(1);
    assert_eq!(a.press_start().unwrap().target_disk, Some(1));
    assert_eq!(a.error, None);
}

#[test]
fn window_after_the_clone() {
    let mut a = at_confirm();
    a.press_start();
    a.receive(WorkerMsg::Total(123));
    assert_eq!(a.total_bytes, 123);
    a.receive(WorkerMsg::Status("Done.".to_string(), true));
    a.receive(WorkerMsg::Done);
    assert_eq!((a.phase, a.listening), (Phase::Done, false));
    assert_eq!(a.status, "Done.");
    a.press_clone_another();
    assert_eq!((a.phase, a.status.as_str()), (Phase::Idle, ""));
}

#[test]
fn window_after_an_error() {
    let mut a = at_confirm();
    a.press_start();
    a.receive(WorkerMsg::Error("bad".to_string()));
    assert_eq!((a.phase, a.listening), (Phase::Error, false));
    assert_eq!((a.status.as_str(), a.error.as_deref()), ("bad", Some("bad")));
}

#[test]
fn window_gives_the_clone_up() {
    let mut a = at_confirm();
    a.press_cancel();
    assert_eq!(a.phase, Phase::Idle);
    assert!(a.diagram_regions.is_empty() && !a.can_confirm && a.listening);
    assert!(a.send_confirm_and_start().is_none());
    a.receive(WorkerMsg::Cancelled);
    assert_eq!((a.phase, a.status.as_str()), (Phase::Idle, "Cancelled"));
    assert!(!a.listening && !a.can_confirm && a.error.is_none());
}

#[test]
fn labels_of_the_window() {
    let d = PhysicalDiskInfo { disk_number: 1, size_bytes: 500_107_862_016 };
    assert_eq!(drive_label(&d), "Drive 1 (465.8 GB)");
    assert_eq!(total_line(500_107_862_016), "Total: 465.8 GB");
    assert_eq!(total_line(0), "Total: 0.0 GB");
    assert_eq!(region_line(&region()), "  Primary GPT (0.0 MB)");
    let r = DiagramRegion { start: 1 << 20, end: 104_857_600 + (3 << 19), ..region() };
    assert_eq!(region_line(&r), format!("  Primary GPT ({:.1} MB)", 100.5f64));
}

#[test]
fn colors_of_the_regions() {
    assert_eq!(region_color(&RegionSource::GptPrimary), (80, 120, 180));
    assert_eq!(region_color(&RegionSource::GptBackup), (60, 100, 160));
    assert_eq!(region_color(&RegionSource::Gap), (100, 100, 100));
    assert_eq!(region_color(&RegionSource::PartitionShadow { partition_num: 1 }), (60, 160, 80));
    assert_eq!(region_color(&RegionSource::PartitionRaw { partition_num: 1 }), (180, 120, 60));
}

#[test]
fn blank_text_is_what_trims_to_nothing() {
    for v in 0..=0x10FFFFu32 {
        if let Some(c) = char::from_u32(v) {
            assert_eq!(blank(&c.to_string()), c.is_whitespace(), "{:x}", v);
        }
    }
    assert!(blank(""));
    assert!(!blank(" a "));
}

#[test]
fn messages_of_errors() {
    let text = || "x".to_string();
    assert_eq!(DiskCloneError::Io(text()).message(), "I/O error: x");
    assert_eq!(DiskCloneError::Vss(text()).message(), "VSS error: x");
    assert_eq!(DiskCloneError::Ssh(text()).message(), "SSH error: x");
    assert_eq!(DiskCloneError::Other(text()).message(), "x");
}

//! The window of the program: what it shows, and what its buttons do.

use vstd::prelude::*;

use crate::clone_job::{DestConfig, DestMode, DestView, MsgView, WorkerMsg};
use crate::cli::text_of;
use crate::diagram::{views, DiagramRegion, RegionSource, RegionView};
use crate::disk::PhysicalDiskInfo;
use crate::double::{push_size, size_text};
use crate::error::DiskCloneError;
use crate::text::{chars_of, decimal, push_decimal};

verus! {

/// What the window is about.
#[derive(Debug, Clone, Copy, PartialEq, Eq, Structural)]
pub enum Phase {
    Idle,
    LoadingDisks,
    CreatingSnapshot,
    Confirm,
    Streaming,
    Done,
    Error,
}

/// The state of the window.
#[derive(Debug)]
pub struct DiskCloneApp {
    pub disks: Vec<PhysicalDiskInfo>,
    pub selected_source: Option<u32>,
    pub dest_mode: DestMode,
    pub ssh_user: String,
    pub ssh_host: String,
    pub ssh_password: String,
    pub remote_path: String,
    pub local_file_path: String,
    pub target_disk: Option<u32>,
    pub status: String,
    pub status_ok: bool,
    pub total_bytes: u64,
    pub phase: Phase,
    pub error: Option<String>,
    pub diagram_regions: Vec<DiagramRegion>,
    /// The window listens to the work.
    pub listening: bool,
    /// The work can be told of a destination.
    pub can_confirm: bool,
}

/// A [`DiskCloneApp`] over characters and views.
#[verifier::ext_equal]
pub struct AppView {
    pub disks: Seq<PhysicalDiskInfo>,
    pub selected_source: Option<u32>,
    pub dest_mode: DestMode,
    pub ssh_user: Seq<char>,
    pub ssh_host: Seq<char>,
    pub ssh_password: Seq<char>,
    pub remote_path: Seq<char>,
    pub local_file_path: Seq<char>,
    pub target_disk: Option<u32>,
    pub status: Seq<char>,
    pub status_ok: bool,
    pub total_bytes: u64,
    pub phase: Phase,
    pub error: Option<Seq<char>>,
    pub diagram_regions: Seq<RegionView>,
    pub listening: bool,
    pub can_confirm: bool,
}

impl View for DiskCloneApp {
    type V = AppView;

    open spec fn view(&self) -> AppView {
        AppView {
            disks: self.disks@,
            selected_source: self.selected_source,
            dest_mode: self.dest_mode,
            ssh_user: self.ssh_user@,
            ssh_host: self.ssh_host@,
            ssh_password: self.ssh_password@,
            remote_path: self.remote_path@,
            local_file_path: self.local_file_path@,
            target_disk: self.target_disk,
            status: self.status@,
            status_ok: self.status_ok,
            total_bytes: self.total_bytes,
            phase: self.phase,
            error: text_of(self.error),
            diagram_regions: views(self.diagram_regions@),
            listening: self.listening,
            can_confirm: self.can_confirm,
        }
    }
}

/// The window of a user when it opens.
pub open spec fn first_view(ssh_user: Seq<char>) -> AppView {
    AppView {
        disks: seq![],
        selected_source: None,
        dest_mode: DestMode::Ssh,
        ssh_user,
        ssh_host: seq![],
        ssh_password: seq![],
        remote_path: seq![],
        local_file_path: seq![],
        target_disk: None,
        status: seq![],
        status_ok: true,
        total_bytes: 0,
        phase: Phase::Idle,
        error: None,
        diagram_regions: seq![],
        listening: false,
        can_confirm: false,
    }
}

/// The character is white space.
pub open spec fn is_white(c: char) -> bool {
    '\t' <= c <= '\r' || c == ' ' || c == '\u{85}' || c == '\u{A0}' || c == '\u{1680}'
        || '\u{2000}' <= c <= '\u{200A}' || c == '\u{2028}' || c == '\u{2029}' || c == '\u{202F}'
        || c == '\u{205F}' || c == '\u{3000}'
}

/// The text holds nothing but white space.
pub open spec fn is_blank(s: Seq<char>) -> bool {
    forall|i: int| 0 <= i < s.len() ==> is_white(#[trigger] s[i])
}

/// Whether the text holds nothing but white space.
pub fn blank(s: &str) -> (b: bool)
    ensures
        b == is_blank(s@),
{
    let chars = chars_of(s);
    for i in 0..chars.len()
        invariant
            chars@ == s@,
            forall|k: int| 0 <= k < i ==> is_white(#[trigger] chars@[k]),
    {
        let c: char = chars[i];
        let white = ('\t' <= c && c <= '\r') || c == ' ' || c == '\u{85}' || c == '\u{A0}' || c
            == '\u{1680}' || ('\u{2000}' <= c && c <= '\u{200A}') || c == '\u{2028}' || c
            == '\u{2029}' || c == '\u{202F}' || c == '\u{205F}' || c == '\u{3000}';
        if !white {
            assert(!is_white(s@[i as int]));
            return false;
        }
    }
    true
}

/// The destination that the window shows.
pub open spec fn shown_destination(a: AppView) -> DestView {
    DestView {
        dest_mode: a.dest_mode,
        ssh_user: a.ssh_user,
        ssh_host: a.ssh_host,
        ssh_password: if is_blank(a.ssh_password) {
            None
        } else {
            Some(a.ssh_password)
        },
        remote_path: a.remote_path,
        local_file_path: a.local_file_path,
        target_disk: a.target_disk,
    }
}

/// The window once the work has been told of a destination.
pub open spec fn confirmed(a: AppView) -> AppView {
    if a.can_confirm {
        AppView { can_confirm: false, phase: Phase::Streaming, status: "Streaming..."@, ..a }
    } else {
        a
    }
}

/// The window shows a disk as destination, but not which.
pub open spec fn lacks_target(a: AppView) -> bool {
    a.dest_mode == DestMode::LocalDisk && a.target_disk is None
}

/// The window after a message of the work.
pub open spec fn told(a: AppView, m: MsgView) -> AppView {
    match m {
        MsgView::Total(total_bytes) => AppView { total_bytes, ..a },
        MsgView::Status(status, status_ok) => AppView { status, status_ok, ..a },
        MsgView::DiagramReady(diagram_regions, total_bytes) => AppView {
            diagram_regions,
            total_bytes,
            phase: Phase::Confirm,
            status: "Review layout and confirm to start"@,
            ..a
        },
        MsgView::Done => AppView { phase: Phase::Done, listening: false, ..a },
        MsgView::Error(e) => AppView {
            status: e,
            error: Some(e),
            phase: Phase::Error,
            listening: false,
            ..a
        },
        MsgView::Cancelled => AppView {
            phase: Phase::Idle,
            status: "Cancelled"@,
            diagram_regions: seq![],
            can_confirm: false,
            error: None,
            listening: false,
            ..a
        },
    }
}

/// The window once disks were found.
pub open spec fn with_disks(a: AppView, disks: Seq<PhysicalDiskInfo>) -> AppView {
    AppView {
        disks,
        status: "Found "@ + decimal(disks.len()) + " disk(s)"@,
        status_ok: true,
        phase: Phase::Idle,
        ..a
    }
}

/// The window once no disks could be found.
pub open spec fn without_disks(a: AppView, error: Seq<char>) -> AppView {
    AppView { status: "Error: "@ + error, status_ok: false, phase: Phase::Error, ..a }
}

/// The window once a clone is to be started.
pub open spec fn started(a: AppView) -> AppView {
    if a.selected_source is Some {
        AppView {
            error: None,
            phase: Phase::CreatingSnapshot,
            status: "Creating VSS snapshot..."@,
            listening: true,
            can_confirm: true,
            ..a
        }
    } else {
        AppView { error: Some("Select a source disk"@), ..a }
    }
}

/// The window once the clone was given up before it started.
pub open spec fn cancelled(a: AppView) -> AppView {
    AppView { can_confirm: false, phase: Phase::Idle, diagram_regions: seq![], ..a }
}

impl DiskCloneApp {
    /// The window when it opens. The name of the user is `username` or, where
    /// that is missing, `user`.
    pub fn new(username: Option<String>, user: Option<String>) -> (r: Self)
        ensures
            r@ == first_view(
                match (username, user) {
                    (Some(u), _) => u@,
                    (None, Some(u)) => u@,
                    (None, None) => "root"@,
                },
            ),
    {
        let ssh_user = match (username, user) {
            (Some(u), _) => u,
            (None, Some(u)) => u,
            (None, None) => "root".to_owned(),
        };
        let r = DiskCloneApp {
            disks: Vec::new(),
            selected_source: None,
            dest_mode: DestMode::Ssh,
            ssh_user,
            ssh_host: String::new(),
            ssh_password: String::new(),
            remote_path: String::new(),
            local_file_path: String::new(),
            target_disk: None,
            status: String::new(),
            status_ok: true,
            total_bytes: 0,
            phase: Phase::Idle,
            error: None,
            diagram_regions: Vec::new(),
            listening: false,
            can_confirm: false,
        };
        assert(r@ =~= first_view(ssh_user@));
        r
    }

    /// Takes the disks that were found, or why none could be.
    pub fn load_disks(&mut self, found: Result<Vec<PhysicalDiskInfo>, DiskCloneError>)
        ensures
            final(self)@ == match found {
                Ok(d) => AppView {
                    disks: d@,
                    status: "Found "@ + decimal(d@.len()) + " disk(s)"@,
                    status_ok: true,
                    phase: Phase::Idle,
                    ..old(self)@
                },
                Err(e) => AppView {
                    status: "Error: "@ + e@.text(),
                    status_ok: false,
                    phase: Phase::Error,
                    ..old(self)@
                },
            },
            match found {
                Ok(d) => final(self)@ == with_disks(old(self)@, d@),
                Err(e) => final(self)@ == without_disks(old(self)@, e@.text()),
            },
    {
        match found {
            Ok(d) => {
                let mut status = "Found ".to_owned();
                push_decimal(&mut status, d.len() as u64);
                status.append(" disk(s)");
                self.disks = d;
                self.status = status;
                self.status_ok = true;
                self.phase = Phase::Idle;
            },
            Err(e) => {
                let mut status = "Error: ".to_owned();
                status.append(e.message().as_str());
                self.status = status;
                self.status_ok = false;
                self.phase = Phase::Error;
            },
        }
    }

    /// Selects the source disk. Returns whether it is another than before.
    pub fn select_source(&mut self, disk_number: u32) -> (changed: bool)
        ensures
            changed == (old(self)@.selected_source != Some(disk_number)),
            final(self)@ == (AppView { selected_source: Some(disk_number), ..old(self)@ }),
    {
        let changed = match self.selected_source {
            Some(d) => d != disk_number,
            None => true,
        };
        self.selected_source = Some(disk_number);
        changed
    }

    /// Starts a clone of the selected disk, and gives its number: the work is
    /// begun then.
    pub fn start_clone(&mut self) -> (source: Option<u32>)
        ensures
            source == old(self)@.selected_source,
            final(self)@ == if source is Some {
                AppView {
                    error: None,
                    phase: Phase::CreatingSnapshot,
                    status: "Creating VSS snapshot..."@,
                    listening: true,
                    can_confirm: true,
                    ..old(self)@
                }
            } else {
                AppView { error: Some("Select a source disk"@), ..old(self)@ }
            },
            final(self)@ == started(old(self)@),
    {
        if self.selected_source.is_none() {
            self.error = Some("Select a source disk".to_owned());
            return None;
        }
        self.error = None;
        self.phase = Phase::CreatingSnapshot;
        self.status = "Creating VSS snapshot...".to_owned();
        self.listening = true;
        self.can_confirm = true;
        self.selected_source
    }

    /// Tells the work of the destination that the window shows, if it can be
    /// told.
    pub fn send_confirm_and_start(&mut self) -> (config: Option<DestConfig>)
        ensures
            match config {
                Some(c) => old(self)@.can_confirm && c@ == shown_destination(old(self)@),
                None => !old(self)@.can_confirm,
            },
            final(self)@ == confirmed(old(self)@),
    {
        if !self.can_confirm {
            return None;
        }
        let ssh_password = if blank(self.ssh_password.as_str()) {
            None
        } else {
            Some(self.ssh_password.clone())
        };
        let config = DestConfig {
            dest_mode: self.dest_mode,
            ssh_user: self.ssh_user.clone(),
            ssh_host: self.ssh_host.clone(),
            ssh_password,
            remote_path: self.remote_path.clone(),
            local_file_path: self.local_file_path.clone(),
            target_disk: self.target_disk,
        };
        self.can_confirm = false;
        self.phase = Phase::Streaming;
        self.status = "Streaming...".to_owned();
        Some(config)
    }

    /// The button that starts the clone. It asks for a target disk if one is
    /// needed.
    pub fn press_start(&mut self) -> (config: Option<DestConfig>)
        ensures
            match config {
                Some(c) => old(self)@.can_confirm && !lacks_target(old(self)@) && c@
                    == shown_destination(old(self)@),
                None => !old(self)@.can_confirm || lacks_target(old(self)@),
            },
            final(self)@ == if lacks_target(old(self)@) {
                AppView {
                    error: Some("Select a target disk for local disk clone"@),
                    ..old(self)@
                }
            } else {
                confirmed(AppView { error: None, ..old(self)@ })
            },
    {
        if self.dest_mode == DestMode::LocalDisk && self.target_disk.is_none() {
            self.error = Some("Select a target disk for local disk clone".to_owned());
            return None;
        }
        self.error = None;
        self.send_confirm_and_start()
    }

    /// The button that gives the clone up before it starts.
    pub fn press_cancel(&mut self)
        ensures
            final(self)@ == (AppView {
                can_confirm: false,
                phase: Phase::Idle,
                diagram_regions: seq![],
                ..old(self)@
            }),
            final(self)@ == cancelled(old(self)@),
    {
        self.can_confirm = false;
        self.phase = Phase::Idle;
        self.diagram_regions = Vec::new();
        assert(views(self.diagram_regions@) =~= seq![]);
    }

    /// The button that makes ready for another clone.
    pub fn press_clone_another(&mut self)
        ensures
            final(self)@ == (AppView { phase: Phase::Idle, status: seq![], ..old(self)@ }),
    {
        self.phase = Phase::Idle;
        self.status = String::new();
        assert(self.status@ =~= seq![]);
    }

    /// The button that makes ready after an error.
    pub fn press_retry(&mut self)
        ensures
            final(self)@ == (AppView { phase: Phase::Idle, ..old(self)@ }),
    {
        self.phase = Phase::Idle;
    }

    /// Takes a message of the work.
    pub fn receive(&mut self, message: WorkerMsg)
        ensures
            final(self)@ == told(old(self)@, message@),
    {
        match message {
            WorkerMsg::Total(t) => {
                self.total_bytes = t;
            },
            WorkerMsg::Status(s, ok) => {
                self.status = s;
                self.status_ok = ok;
            },
            WorkerMsg::DiagramReady(regions, total) => {
                self.diagram_regions = regions;
                self.total_bytes = total;
                self.phase = Phase::Confirm;
                self.status = "Review layout and confirm to start".to_owned();
            },
            WorkerMsg::Done => {
                self.phase = Phase::Done;
                self.listening = false;
            },
            WorkerMsg::Error(e) => {
                self.status = e.clone();
                self.error = Some(e);
                self.phase = Phase::Error;
                self.listening = false;
            },
            WorkerMsg::Cancelled => {
                self.phase = Phase::Idle;
                self.status = "Cancelled".to_owned();
                self.diagram_regions = Vec::new();
                assert(views(self.diagram_regions@) =~= seq![]);
                self.can_confirm = false;
                self.error = None;
                self.listening = false;
            },
        }
    }

    /// Whether the window has to be drawn again without being touched.
    pub fn needs_repaint(&self) -> (b: bool)
        ensures
            b == (self@.phase == Phase::Streaming || self@.phase == Phase::CreatingSnapshot
                || self@.phase == Phase::Confirm),
    {
        self.phase == Phase::Streaming || self.phase == Phase::CreatingSnapshot || self.phase
            == Phase::Confirm
    }

    /// Whether the window offers to load the disks, and nothing else.
    pub fn offers_disks(&self) -> (b: bool)
        ensures
            b == (self@.disks.len() == 0 && self@.phase == Phase::Idle),
    {
        self.disks.len() == 0 && self.phase == Phase::Idle
    }

    /// The drives that can be a target: all but the source.
    pub fn target_drives(&self) -> (r: Vec<u32>)
        ensures
            r@ == target_drives_of(self@.disks, self@.selected_source),
    {
        let source = match self.selected_source {
            Some(d) => d,
            None => u32::MAX,
        };
        let mut r: Vec<u32> = Vec::new();
        for i in 0..self.disks.len()
            invariant
                source == (match self.selected_source {
                    Some(d) => d,
                    None => u32::MAX,
                }),
                r@ == target_drives_of(self.disks@.take(i as int), self.selected_source),
        {
            proof {
                assert(self.disks@.take(i + 1).drop_last() =~= self.disks@.take(i as int));
            }
            if self.disks[i].disk_number != source {
                r.push(self.disks[i].disk_number);
            }
        }
        proof {
            assert(self.disks@.take(self.disks@.len() as int) =~= self.disks@);
        }
        r
    }
}

/// The numbers of the disks that are not the source. Where no source is
/// selected, a drive with the largest number is none either.
pub open spec fn target_drives_of(disks: Seq<PhysicalDiskInfo>, source: Option<u32>) -> Seq<u32>
    decreases disks.len(),
{
    if disks.len() == 0 {
        seq![]
    } else {
        let init = target_drives_of(disks.drop_last(), source);
        let number = disks.last().disk_number;
        if number != (match source {
            Some(d) => d,
            None => u32::MAX,
        }) {
            init.push(number)
        } else {
            init
        }
    }
}

/// The source disk is never offered as a target.
pub proof fn law_source_is_no_target(disks: Seq<PhysicalDiskInfo>, source: u32)
    ensures
        !target_drives_of(disks, Some(source)).contains(source),
    decreases disks.len(),
{
    if disks.len() > 0 {
        law_source_is_no_target(disks.drop_last(), source);
        let init = target_drives_of(disks.drop_last(), Some(source));
        let all = target_drives_of(disks, Some(source));
        if all.contains(source) {
            let i = choose|i: int| 0 <= i < all.len() && all[i] == source;
            assert(init[i] == source);
        }
    }
}

/// A clone that the work has given up leaves the window idle, with no diagram
/// and with nothing to confirm.
pub proof fn law_given_up_clone_leaves_nothing(a: AppView)
    ensures
        ({
            let b = told(a, MsgView::Cancelled);
            &&& b.phase == Phase::Idle
            &&& !b.can_confirm
            &&& !b.listening
            &&& b.diagram_regions.len() == 0
            &&& confirmed(b) == b
        }),
{
}

/// How a drive is shown for selection.
pub fn drive_label(d: &PhysicalDiskInfo) -> (s: String)
    ensures
        s@ == "Drive "@ + decimal(d.disk_number as nat) + " ("@ + size_text(d.size_bytes, 30)
            + " GB)"@,
{
    let mut s = "Drive ".to_owned();
    push_decimal(&mut s, d.disk_number as u64);
    s.append(" (");
    push_size(&mut s, d.size_bytes, 30);
    s.append(" GB)");
    s
}

/// How a region of the diagram is listed.
pub fn region_line(r: &DiagramRegion) -> (s: String)
    requires
        r.start <= r.end,
    ensures
        s@ == "  "@ + r.label@ + " ("@ + size_text((r.end - r.start) as u64, 20) + " MB)"@,
{
    let mut s = "  ".to_owned();
    s.append(r.label.as_str());
    s.append(" (");
    push_size(&mut s, r.end - r.start, 20);
    s.append(" MB)");
    s
}

/// How the size of the image is shown.
pub fn total_line(total_bytes: u64) -> (s: String)
    ensures
        s@ == "Total: "@ + size_text(total_bytes, 30) + " GB"@,
{
    let mut s = "Total: ".to_owned();
    push_size(&mut s, total_bytes, 30);
    s.append(" GB");
    s
}

/// The red, green and blue of a region in the diagram.
pub fn region_color(source: &RegionSource) -> (rgb: (u8, u8, u8))
    ensures
        rgb == (match source {
            RegionSource::GptPrimary => (80u8, 120u8, 180u8),
            RegionSource::GptBackup => (60u8, 100u8, 160u8),
            RegionSource::Gap => (100u8, 100u8, 100u8),
            RegionSource::PartitionShadow { .. } => (60u8, 160u8, 80u8),
            RegionSource::PartitionRaw { .. } => (180u8, 120u8, 60u8),
        }),
{
    match source {
        RegionSource::GptPrimary => (80, 120, 180),
        RegionSource::GptBackup => (60, 100, 160),
        RegionSource::Gap => (100, 100, 100),
        RegionSource::PartitionShadow { .. } => (60, 160, 80),
        RegionSource::PartitionRaw { .. } => (180, 120, 60),
    }
}

} // verus!

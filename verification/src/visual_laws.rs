//! What the window shows, and what the work is told of it.

use vstd::prelude::*;

use crate::clone_job::{DestMode, MsgView};
use crate::diagram::{DiagramRegion, RegionSource, RegionView};
use crate::diagram_text_laws::same_kind;
use crate::disk::PhysicalDiskInfo;
use crate::double::size_text;
use crate::text::decimal;
use crate::text_laws::{law_decimal_can_be_read, read_decimal};
use crate::visual::{cancelled, confirmed, drive_label, first_view, is_blank, is_white, lacks_target, region_color, region_line, shown_destination, started, target_drives_of, told, total_line, with_disks, without_disks, AppView, DiskCloneApp, Phase};

verus! {

/// The window opens idle, for the user on a remote system, with everything
/// else empty.
pub proof fn law_window_opens_idle(ssh_user: Seq<char>)
    ensures
        ({
            let a = first_view(ssh_user);
            &&& a.phase == Phase::Idle && a.dest_mode == DestMode::Ssh
            &&& a.ssh_user == ssh_user
            &&& a.disks.len() == 0 && a.diagram_regions.len() == 0 && a.total_bytes == 0
            &&& a.selected_source is None && a.target_disk is None && a.error is None
            &&& a.ssh_host.len() == 0 && a.ssh_password.len() == 0 && a.remote_path.len() == 0
            &&& a.local_file_path.len() == 0 && a.status.len() == 0 && a.status_ok
            &&& !a.listening && !a.can_confirm
        }),
{
}

/// The characters that are white space, by their numbers.
pub proof fn law_white_space(c: char)
    ensures
        is_white(c) <==> {
            let n = c as int;
            9 <= n <= 13 || n == 32 || n == 0x85 || n == 0xA0 || n == 0x1680 || 0x2000 <= n
                <= 0x200A || n == 0x2028 || n == 0x2029 || n == 0x202F || n == 0x205F || n
                == 0x3000
        },
{
}

/// A text is blank if and only if none of its characters can be seen.
pub proof fn law_blank_text(a: Seq<char>, c: char)
    ensures
        is_blank(seq![]),
        is_blank(a.push(c)) <==> is_blank(a) && is_white(c),
{
    let s = a.push(c);
    if is_blank(s) {
        assert forall|i: int| 0 <= i < a.len() implies is_white(#[trigger] a[i]) by {
            assert(s[i] == a[i]);
        }
        assert(is_white(s[a.len() as int]));
    }
}

/// The work is told of the destination as the window shows it. A password of
/// white space is none.
pub proof fn law_work_is_told_what_is_shown(a: AppView)
    ensures
        ({
            let d = shown_destination(a);
            &&& d.dest_mode == a.dest_mode
            &&& d.ssh_user == a.ssh_user
            &&& d.ssh_host == a.ssh_host
            &&& d.remote_path == a.remote_path
            &&& d.local_file_path == a.local_file_path
            &&& d.target_disk == a.target_disk
            &&& (forall|i: int| 0 <= i < a.ssh_password.len() ==> is_white(#[trigger] a.ssh_password[i]))
                ==> d.ssh_password is None
            &&& (exists|i: int| 0 <= i < a.ssh_password.len() && !is_white(#[trigger] a.ssh_password[i]))
                ==> d.ssh_password == Some(a.ssh_password)
        }),
{
}

/// The work is told of a destination once: the window then shows that it is
/// streaming, and has nothing left to confirm. Nothing changes where there was
/// nothing to confirm.
pub proof fn law_destination_is_told_once(a: AppView)
    ensures
        confirmed(confirmed(a)) == confirmed(a),
        !a.can_confirm ==> confirmed(a) == a,
        a.can_confirm ==> confirmed(a) == (AppView {
            can_confirm: false,
            phase: Phase::Streaming,
            status: "Streaming..."@,
            ..a
        }),
{
}

/// A target is missing only where a disk is the destination, and none is
/// selected.
pub proof fn law_target_is_needed_for_disk(a: AppView)
    ensures
        a.dest_mode != DestMode::LocalDisk ==> !lacks_target(a),
        a.dest_mode == DestMode::LocalDisk ==> (lacks_target(a) <==> a.target_disk is None),
{
}

/// What a message of the work changes in the window, and that it changes
/// nothing else.
pub proof fn law_message_is_shown(
    a: AppView,
    total: u64,
    text: Seq<char>,
    ok: bool,
    regions: Seq<RegionView>,
)
    ensures
        told(a, MsgView::Total(total)) == (AppView { total_bytes: total, ..a }),
        told(a, MsgView::Status(text, ok)) == (AppView { status: text, status_ok: ok, ..a }),
        told(a, MsgView::DiagramReady(regions, total)) == (AppView {
            diagram_regions: regions,
            total_bytes: total,
            phase: Phase::Confirm,
            status: "Review layout and confirm to start"@,
            ..a
        }),
        told(a, MsgView::Done) == (AppView { phase: Phase::Done, listening: false, ..a }),
        told(a, MsgView::Error(text)) == (AppView {
            status: text,
            error: Some(text),
            phase: Phase::Error,
            listening: false,
            ..a
        }),
        told(a, MsgView::Cancelled) == (AppView {
            phase: Phase::Idle,
            status: "Cancelled"@,
            diagram_regions: seq![],
            can_confirm: false,
            error: None,
            listening: false,
            ..a
        }),
{
}

/// The target drives are looked for one by one, in the order of the disks: a
/// disk is one of them unless it is the source. Where no source is selected,
/// the largest number is left out.
pub proof fn law_targets_are_all_other_disks(
    a: Seq<PhysicalDiskInfo>,
    b: Seq<PhysicalDiskInfo>,
    d: PhysicalDiskInfo,
    source: Option<u32>,
)
    ensures
        target_drives_of(a + b, source) == target_drives_of(a, source) + target_drives_of(
            b,
            source,
        ),
        source == Some(d.disk_number) ==> target_drives_of(seq![d], source).len() == 0,
        source is Some && source != Some(d.disk_number) ==> target_drives_of(seq![d], source)
            == seq![d.disk_number],
        source is None && d.disk_number < u32::MAX ==> target_drives_of(seq![d], source) == seq![
            d.disk_number,
        ],
        source is None && d.disk_number == u32::MAX ==> target_drives_of(seq![d], source).len()
            == 0,
    decreases b.len(),
{
    reveal_with_fuel(target_drives_of, 2);
    let one = seq![d];
    assert(one.drop_last() =~= Seq::<PhysicalDiskInfo>::empty());
    assert(one.last() == d);
    assert(Seq::<u32>::empty().push(d.disk_number) =~= seq![d.disk_number]);
    if b.len() == 0 {
        assert(a + b =~= a);
        assert(target_drives_of(a, source) + target_drives_of(b, source) =~= target_drives_of(
            a,
            source,
        ));
    } else {
        assert((a + b).drop_last() =~= a + b.drop_last());
        assert((a + b).last() == b.last());
        law_targets_are_all_other_disks(a, b.drop_last(), d, source);
        assert(target_drives_of(a + b, source) =~= target_drives_of(a, source) + target_drives_of(
            b,
            source,
        ));
    }
}

/// The settings of the window are the same: the disks and which of them is the
/// source, and all that is said of the destination.
pub open spec fn same_settings(a: AppView, b: AppView) -> bool {
    &&& a.disks == b.disks
    &&& a.selected_source == b.selected_source
    &&& a.dest_mode == b.dest_mode
    &&& a.ssh_user == b.ssh_user
    &&& a.ssh_host == b.ssh_host
    &&& a.ssh_password == b.ssh_password
    &&& a.remote_path == b.remote_path
    &&& a.local_file_path == b.local_file_path
    &&& a.target_disk == b.target_disk
}

/// A clone keeps the settings, from its start to its end, whatever the work
/// tells the window: what the user confirms is what was chosen before.
pub proof fn law_clone_keeps_settings(a: AppView, m: MsgView)
    ensures
        same_settings(a, started(a)),
        same_settings(a, confirmed(a)),
        same_settings(a, cancelled(a)),
        same_settings(a, told(a, m)),
        shown_destination(told(started(a), m)) == shown_destination(a),
{
}

/// A clone starts if and only if a source disk is selected. The window then
/// listens to the work and has a destination to confirm; else it asks for a
/// source disk, and nothing else changes.
pub proof fn law_clone_needs_source(a: AppView)
    ensures
        ({
            let b = started(a);
            &&& a.selected_source is Some ==> {
                &&& b.phase == Phase::CreatingSnapshot
                &&& b.listening && b.can_confirm
                &&& b.error is None
                &&& b.status == "Creating VSS snapshot..."@
                &&& b.diagram_regions == a.diagram_regions && b.total_bytes == a.total_bytes
                    && b.status_ok == a.status_ok
            }
            &&& a.selected_source is None ==> {
                &&& b.error == Some("Select a source disk"@)
                &&& b == AppView { error: b.error, ..a }
            }
        }),
{
}

/// A clone that the user gives up can no longer be confirmed, and its diagram
/// is gone.
pub proof fn law_cancelled_clone_cannot_be_confirmed(a: AppView)
    ensures
        ({
            let b = cancelled(a);
            &&& confirmed(b) == b
            &&& b.phase == Phase::Idle
            &&& b.diagram_regions.len() == 0
            &&& b.status == a.status && b.status_ok == a.status_ok && b.error == a.error
            &&& b.total_bytes == a.total_bytes && b.listening == a.listening
        }),
{
}

/// The window shows the disks that were found and counts them, or says why
/// there are none; the disks it showed before stay then.
pub proof fn law_found_disks_are_shown(a: AppView, disks: Seq<PhysicalDiskInfo>, error: Seq<char>)
    ensures
        ({
            let b = with_disks(a, disks);
            &&& b.disks == disks
            &&& b.phase == Phase::Idle && b.status_ok
            &&& b.status == "Found "@ + decimal(disks.len()) + " disk(s)"@
            &&& same_settings(AppView { disks, ..a }, b)
            &&& b.diagram_regions == a.diagram_regions && b.total_bytes == a.total_bytes
            &&& b.error == a.error && b.listening == a.listening && b.can_confirm == a.can_confirm
        }),
        ({
            let b = without_disks(a, error);
            &&& same_settings(a, b)
            &&& b.phase == Phase::Error && !b.status_ok
            &&& b.status == "Error: "@ + error
            &&& b.diagram_regions == a.diagram_regions && b.total_bytes == a.total_bytes
            &&& b.error == a.error && b.listening == a.listening && b.can_confirm == a.can_confirm
        }),
{
}

/// Two regions have the same color if and only if their sources are of one
/// kind.
pub proof fn law_colors_tell_kinds_apart(
    a: RegionSource,
    b: RegionSource,
    x: (u8, u8, u8),
    y: (u8, u8, u8),
)
    requires
        call_ensures(region_color, (&a,), x),
        call_ensures(region_color, (&b,), y),
    ensures
        x == y <==> same_kind(a, b),
{
}

/// What is shown of a drive names it and gives its size.
pub proof fn law_drive_label_names_drive(d: PhysicalDiskInfo, s: String) -> (number: Seq<char>)
    requires
        call_ensures(drive_label, (&d,), s),
    ensures
        s@ == "Drive "@ + number + " ("@ + size_text(d.size_bytes, 30) + " GB)"@,
        read_decimal(number) == d.disk_number,
{
    law_decimal_can_be_read(d.disk_number as nat);
    decimal(d.disk_number as nat)
}

/// What is listed of a region is its label and its size, and what is shown of
/// the image is its size.
pub proof fn law_sizes_are_shown(r: DiagramRegion, s: String, total: u64, t: String)
    requires
        r.start <= r.end,
        call_ensures(region_line, (&r,), s),
        call_ensures(total_line, (total,), t),
    ensures
        s@ == "  "@ + r.label@ + " ("@ + size_text((r.end - r.start) as u64, 20) + " MB)"@,
        t@ == "Total: "@ + size_text(total, 30) + " GB"@,
{
}

/// The window is seen as it is.
pub proof fn law_view_of_window(w: DiskCloneApp)
    ensures
        w@.disks == w.disks@,
        w@.selected_source == w.selected_source,
        w@.dest_mode == w.dest_mode,
        w@.ssh_user == w.ssh_user@,
        w@.ssh_host == w.ssh_host@,
        w@.ssh_password == w.ssh_password@,
        w@.remote_path == w.remote_path@,
        w@.local_file_path == w.local_file_path@,
        w@.target_disk == w.target_disk,
        w@.status == w.status@,
        w@.status_ok == w.status_ok,
        w@.total_bytes == w.total_bytes,
        w@.phase == w.phase,
        w.error matches Some(e) ==> w@.error == Some(e@),
        w.error is None ==> w@.error is None,
        w@.diagram_regions.len() == w.diagram_regions@.len(),
        forall|i: int|
            0 <= i < w.diagram_regions@.len() ==> #[trigger] w@.diagram_regions[i]
                == w.diagram_regions@[i]@,
        w@.listening == w.listening,
        w@.can_confirm == w.can_confirm,
{
}

} // verus!

//! What the functions of the library return, stated on what they are given.

use std::collections::{HashMap, HashSet};

use vstd::prelude::*;

use crate::cli::{output_warning, ssh_user_and_host, Args, Command, Destination};
use crate::diagram::{build_diagram_regions, format_diagram_ascii, views, DiagramRegion, RegionSource};
use crate::diagram_text_laws::{law_diagram_is_right, law_lines_are_joined, law_lines_of_diagram, law_mark_agrees_with_legend, legend_entry, right_regions, says};
use crate::disk::{get_disk_layout, get_disk_length, list_physical_disks, open_physical_disk, open_physical_disk_write, open_volume_raw, physical_drive_path, read_sectors, shadow_device_path, windows_path, DiskLayout, OpenFlags, OpenRequest, PhysicalDiskInfo, ReadRequest, Share};
use crate::disk_laws::{describes, holds_number, law_target_disk_is_opened_to_write, law_drive_path_names_drive, law_eight_bytes_are_read_back, law_layout_is_read_back, law_measured_disks_are_listed, law_shadow_is_opened_under_its_name, law_shadow_paths_say_so, law_slashes_become_backslashes, law_sources_are_opened_to_read, names, Described};
use crate::error::DiskCloneError;
use crate::image_builder::{excluded_set, ChunkSource, ImageBuilder};
use crate::image_laws::{holder, holds, in_gpt, law_source_goes_by_holder};
use crate::local_sink::{FileSink, LocalDiskSink};
use crate::sector_laws::law_buffer_is_of_sectors;
use crate::sink_laws::law_image_file_is_made_anew;
use crate::ssh_sink::{create_ssh_session, law_receive_commands_write_to_path, law_ways_to_log_in, quoted_word, LoginMethod, SshLogin, SshSink};
use crate::text::{decimal, hex4};
use crate::text_laws::read_decimal;
use crate::visual::{DiskCloneApp, Phase};
use crate::vss::VssSnapshot;
use crate::wide::law_c_string_holds_text;

verus! {

/// The layout of a disk is that which its bytes describe: each partition with
/// its number, start and length, in use if and only if it has a length.
pub proof fn law_disk_layout(
    disk_length: u64,
    buffer: &[u8],
    parts: Seq<Described>,
    layout: DiskLayout,
)
    requires
        describes(buffer@, parts),
        call_ensures(get_disk_layout, (disk_length, buffer), layout),
    ensures
        layout.disk_length == disk_length,
        layout.partition_count == parts.len(),
        layout.partitions@.len() == parts.len(),
        forall|i: int|
            0 <= i < parts.len() ==> {
                let p = #[trigger] layout.partitions@[i];
                &&& p.partition_number == parts[i].number
                &&& p.starting_offset == parts[i].start
                &&& p.partition_length == parts[i].length
                &&& p.is_used == (parts[i].length > 0)
            },
{
    law_layout_is_read_back(buffer@, parts);
}

/// The length of a disk is the number in the first eight bytes that it gave.
pub proof fn law_disk_length(info: &[u8], length: u64, n: u64)
    requires
        info@.len() >= 8,
        holds_number(info@, 0, 8, length as int),
        call_ensures(get_disk_length, (info,), n),
    ensures
        n == length,
{
    law_eight_bytes_are_read_back(info@, 0, length);
}

/// The disks for selection are those of the first sixteen that have a size, in
/// the order of their numbers.
pub proof fn law_disks_for_selection(
    sizes: &[Option<u64>],
    disks: Vec<PhysicalDiskInfo>,
    d: PhysicalDiskInfo,
)
    requires
        call_ensures(list_physical_disks, (sizes,), disks),
    ensures
        disks@.contains(d) <==> d.disk_number < 16 && d.disk_number < sizes@.len()
            && sizes@[d.disk_number as int] == Some(d.size_bytes),
        forall|i: int, j: int|
            0 <= i < j < disks@.len() ==> (#[trigger] disks@[i]).disk_number < (
            #[trigger] disks@[j]).disk_number,
{
    law_measured_disks_are_listed(sizes@);
    assert(sizes@[d.disk_number as int] == sizes@[d.disk_number as int]);
}

/// No two drives have the same path, and the path of each ends in its number.
pub proof fn law_paths_of_drives(n: u32, m: u32, a: String, b: String)
    requires
        call_ensures(physical_drive_path, (n,), a),
        call_ensures(physical_drive_path, (m,), b),
    ensures
        a@ == b@ ==> n == m,
        "\\\\.\\PhysicalDrive"@.is_prefix_of(a@),
        read_decimal(a@.skip(17)) == n,
{
    law_drive_path_names_drive(n, m);
}

/// A shadow copy is opened under its own name, whichever prefix that has.
pub proof fn law_path_of_shadow(name: Seq<char>, given: &str, r: String)
    requires
        call_ensures(shadow_device_path, (given,), r),
    ensures
        given@ == "\\\\?\\"@ + name || given@ == "\\\\.\\"@ + name ==> r@ == "\\\\.\\"@ + name,
        given@ == name && !"\\\\?\\"@.is_prefix_of(name) && !"\\\\.\\"@.is_prefix_of(name)
            ==> r@ == "\\\\.\\GLOBALROOT\\Device\\"@ + name,
{
    law_shadow_is_opened_under_its_name(name);
}

/// A disk that is opened to be read cannot be written through that; one that is
/// opened to be written can be both. Neither is ever created.
pub proof fn law_opened_disk(n: u32, r: OpenRequest, w: OpenRequest)
    requires
        call_ensures(open_physical_disk, (n,), Ok::<OpenRequest, DiskCloneError>(r)),
        call_ensures(open_physical_disk_write, (n,), Ok::<OpenRequest, DiskCloneError>(w)),
    ensures
        r.read && !r.write && !r.create && r.share == Share::Read && r.flags == OpenFlags::Normal,
        w.read && w.write && !w.create && w.share == Share::Read && w.flags == OpenFlags::Normal,
        r.path@ == w.path@,
        r.path@.len() > 0 && r.path@.last() == 0,
{
}

/// A volume is opened under its path with backslashes, to be read and not
/// written; with backup semantics if and only if it is a shadow copy.
pub proof fn law_opened_volume(path: &str, r: Result<OpenRequest, DiskCloneError>)
    requires
        !path@.contains('\0'),
        call_ensures(open_volume_raw, (path,), r),
    ensures
        r is Ok,
        ({
            let q = r->Ok_0;
            let p = windows_path(path@);
            &&& names(q.path@, p)
            &&& q.read && !q.write && !q.create && q.share == Share::Read
            &&& says(p, "ShadowCopy"@) || says(p, "shadowcopy"@) ==> q.flags
                == OpenFlags::UnbufferedBackup
            &&& !says(p, "ShadowCopy"@) && !says(p, "shadowcopy"@) ==> q.flags
                == OpenFlags::Unbuffered
        }),
{
    let p = windows_path(path@);
    law_slashes_become_backslashes(path@);
    assert forall|i: int| 0 <= i < p.len() implies #[trigger] p[i] != '\0' by {
        assert(path@.contains(path@[i]));
    }
    law_c_string_holds_text(p);
    law_sources_are_opened_to_read(p, OpenFlags::Unbuffered);
    law_sources_are_opened_to_read(p, OpenFlags::UnbufferedBackup);
    law_shadow_paths_say_so(p);
    if says(p, "ShadowCopy"@) {
        let (a, b) = choose|a: Seq<char>, b: Seq<char>| p == #[trigger] (a + "ShadowCopy"@ + b);
        assert(p == a + "ShadowCopy"@ + b);
    }
    if says(p, "shadowcopy"@) {
        let (a, b) = choose|a: Seq<char>, b: Seq<char>| p == #[trigger] (a + "shadowcopy"@ + b);
        assert(a + "ShadowCopy"@ + b == a + "ShadowCopy"@ + b);
    }
    if exists|a: Seq<char>, b: Seq<char>|
        p == #[trigger] (a + "ShadowCopy"@ + b) || p == a + "shadowcopy"@ + b {
        let (a, b) = choose|a: Seq<char>, b: Seq<char>|
            p == #[trigger] (a + "ShadowCopy"@ + b) || p == a + "shadowcopy"@ + b;
        assert(p == a + "ShadowCopy"@ + b || p == a + "shadowcopy"@ + b);
    }
}

/// Sectors are read where they lie, and as many as are asked for.
pub proof fn law_sectors_are_read_in_place(offset: u64, len: usize, r: ReadRequest)
    requires
        call_ensures(read_sectors, (offset, len), r),
    ensures
        offset < 0x8000_0000_0000_0000 ==> r.position == offset,
        len < 0x1_0000_0000 ==> r.length == len,
{
    if len < 0x1_0000_0000 {
        vstd::arithmetic::div_mod::lemma_small_mod(len as nat, 0x1_0000_0000);
    }
}

/// A byte between the GPT areas comes from the first partition that holds it:
/// from nowhere if that is left out, from its shadow copy if there is one, and
/// else from the disk.
pub proof fn law_source_of_byte(
    b: ImageBuilder,
    pos: u64,
    excluded: Option<&HashSet<u32>>,
    r: ChunkSource,
    i: int,
)
    requires
        call_ensures(ImageBuilder::source_at, (&b, pos, excluded), r),
        !in_gpt(b.layout.disk_length as int, pos as int),
        holder(b.layout.partitions@, pos as int, i),
    ensures
        ({
            let q = b.layout.partitions@[i];
            let left_out = excluded matches Some(set) && set@.contains(q.partition_number);
            let shadow = b.shadow_map@.contains_key(q.starting_offset);
            &&& left_out ==> r == (ChunkSource::Excluded { number: q.partition_number })
            &&& !left_out && shadow ==> r == (ChunkSource::Shadow {
                number: q.partition_number,
                start: q.starting_offset,
            })
            &&& !left_out && !shadow ==> r == (ChunkSource::Raw {
                number: q.partition_number,
                start: q.starting_offset,
            })
        }),
{
    law_source_goes_by_holder(b.config(excluded_set(excluded)), pos as int, i);
}

/// The bytes of the GPT areas come from there, and those that no partition holds
/// from nowhere.
pub proof fn law_source_outside_partitions(
    b: ImageBuilder,
    pos: u64,
    excluded: Option<&HashSet<u32>>,
    r: ChunkSource,
)
    requires
        call_ensures(ImageBuilder::source_at, (&b, pos, excluded), r),
    ensures
        pos < 34 * 512 ==> r is PrimaryGpt,
        pos >= 34 * 512 && pos >= b.layout.disk_length - 34 * 512 ==> r is BackupGpt,
        !in_gpt(b.layout.disk_length as int, pos as int) && (forall|j: int|
            0 <= j < b.layout.partitions@.len() ==> !holds(
                #[trigger] b.layout.partitions@[j],
                pos as int,
            )) ==> r is Gap,
{
    law_source_goes_by_holder(b.config(excluded_set(excluded)), pos as int, 0);
}

/// The regions of a diagram are right for the layout and the shadow copies.
pub proof fn law_regions_of_diagram(
    layout: DiskLayout,
    shadow_map: HashMap<u64, String>,
    regions: Vec<DiagramRegion>,
)
    requires
        call_ensures(build_diagram_regions, (&layout, &shadow_map), regions),
    ensures
        right_regions(
            views(regions@),
            layout.disk_length as int,
            layout.partitions@,
            shadow_map@.dom(),
        ),
        regions@.len() > 0 && regions@[0].source is GptPrimary,
{
    law_diagram_is_right(layout.disk_length as int, layout.partitions@, shadow_map@.dom());
    assert(views(regions@)[0] == regions@[0]@);
}

proof fn lemma_says_joined(lines: Seq<Seq<char>>, i: int)
    requires
        0 <= i < lines.len(),
    ensures
        says(crate::diagram::joined(lines), lines[i]),
    decreases lines.len(),
{
    let text = crate::diagram::joined(lines);
    let empty = Seq::<char>::empty();
    if lines.len() == 1 {
        assert(text =~= empty + lines[i] + empty);
    } else {
        let init = lines.drop_last();
        let last = seq![lines.last()];
        assert(lines =~= init + last);
        law_lines_are_joined(init, last, lines.last());
        let before = crate::diagram::joined(init) + seq!['\n'];
        if i < init.len() {
            assert(init[i] == lines[i]);
            lemma_says_joined(init, i);
            let (a, b) = choose|a: Seq<char>, b: Seq<char>|
                crate::diagram::joined(init) == #[trigger] (a + init[i] + b);
            let c = b + seq!['\n'] + lines.last();
            assert(text =~= a + lines[i] + c);
        } else {
            assert(text =~= before + lines[i] + empty);
        }
    }
}

/// A diagram explains every mark, and shows each of its regions.
pub proof fn law_diagram_explains_marks(
    regions: &[DiagramRegion],
    disk_length: u64,
    r: String,
    source: RegionSource,
    i: int,
)
    requires
        call_ensures(format_diagram_ascii, (regions, disk_length), r),
    ensures
        exists|line: Seq<char>| #[trigger] says(r@, line) && says(line, legend_entry(source)),
        0 <= i < regions@.len() ==> says(
            r@,
            crate::diagram::region_line(regions@[i], disk_length),
        ),
{
    let lines = crate::diagram::diagram_lines(regions@, disk_length);
    law_lines_of_diagram(regions@, disk_length);
    law_mark_agrees_with_legend(regions@, disk_length, source);
    lemma_says_joined(lines, regions@.len() as int + 3);
    assert(says(r@, lines[regions@.len() as int + 3]));
    if 0 <= i < regions@.len() {
        lemma_says_joined(lines, 2 + i);
    }
}

/// Whenever the options lead to a clone on the remote system, the image goes to
/// the path that they give, whatever path that is; the default path is for
/// options that give none.
pub proof fn law_remote_path_is_the_given_one(
    a: Args,
    disk: u32,
    target: String,
    remote_path: String,
)
    requires
        call_ensures(
            Args::command,
            (a,),
            Ok::<Command, String>(
                Command::Clone { disk, destination: Destination::Ssh { target, remote_path } },
            ),
        ),
    ensures
        a.remote_path matches Some(given) ==> remote_path@ == given@,
        a.remote_path is None ==> remote_path@ == "/tmp/diskclone.img"@,
        a.ssh matches Some(t) && t@ == target@,
        a.disk == Some(disk),
        a.output is None && a.target_disk is None,
{
}

/// The user and the host put together with an `@` are the target again, and no
/// other split of it is given.
pub proof fn law_target_is_user_and_host(
    target: &str,
    r: Option<(String, String)>,
    user: Seq<char>,
    host: Seq<char>,
)
    requires
        call_ensures(ssh_user_and_host, (target,), r),
        target@ == user + seq!['@'] + host,
        !user.contains('@'),
    ensures
        r matches Some(p) && p.0@ == user && p.1@ == host,
{
    reveal_strlit("@");
    assert(target@[user.len() as int] == '@');
    let p = r->0;
    let u = p.0@;
    assert(target@ == u + "@"@ + p.1@);
    assert(target@[u.len() as int] == '@');
    if u.len() < user.len() {
        assert(user[u.len() as int] == target@[u.len() as int]);
    } else if u.len() > user.len() {
        assert(u[user.len() as int] == target@[user.len() as int]);
    }
    assert(u =~= target@.take(u.len() as int));
    assert(user =~= target@.take(user.len() as int));
    assert(p.1@ =~= target@.skip(u.len() as int + 1));
    assert(host =~= target@.skip(user.len() as int + 1));
}

/// There is a warning on an image file if and only if its first sector could be
/// read and does not end in the bytes 55 and AA.
pub proof fn law_warning_on_image_file(head: &[u8], r: Option<String>)
    requires
        call_ensures(output_warning, (head,), r),
    ensures
        r is Some <==> head@.len() >= 512 && !(head@[510] == 0x55 && head@[511] == 0xAA),
        r matches Some(m) ==> m@ == "WARNING: Output file MBR signature invalid (0x"@ + hex4(
            (256 * head@[511] + head@[510]) as u16,
        ) + "), image may be corrupted"@,
{
}

/// A session is made with the SSH port of the host; the agent is asked first,
/// and the password, if there is one, last.
pub proof fn law_session_is_with_host(host: &str, home: bool, password: bool, r: SshLogin)
    requires
        call_ensures(create_ssh_session, (host, home, password), r),
    ensures
        r.address@ == host@ + ":22"@,
        r.tried == 0,
        r.methods@[0] == LoginMethod::Agent,
        home ==> r.methods@[1] == LoginMethod::Ed25519Key && r.methods@[2] == LoginMethod::RsaKey,
        password <==> r.methods@.last() == LoginMethod::Password,
{
    law_ways_to_log_in(home, password);
}

/// The receive command writes to the path, with `dd` if and only if that lies
/// under `/dev/`, whatever characters the path holds.
pub proof fn law_receive_command_is_for_path(path: &str, r: SshSink) -> (quoted: Seq<char>)
    requires
        call_ensures(SshSink::for_path, (path,), r),
    ensures
        quoted_word(quoted) == Some(path@),
        "/dev/"@.is_prefix_of(path@) ==> r.command@ == "dd of=\""@ + quoted
            + "\" bs=512 2>/dev/null"@,
        !"/dev/"@.is_prefix_of(path@) ==> r.command@ == "cat > \""@ + quoted + "\""@,
{
    law_receive_commands_write_to_path(path@)
}

/// A set of snapshots is finished with an error if and only if it is open and
/// completing the backup failed; the error gives the cause.
pub proof fn law_finished_set(
    set: VssSnapshot,
    completed: Result<(), String>,
    r: Result<(), DiskCloneError>,
)
    requires
        call_ensures(VssSnapshot::finish, (set, completed), r),
    ensures
        r is Err <==> set.snapshots is Some && completed is Err,
        r matches Err(e) ==> e@.text() == "VSS error: "@ + ("backup_complete: "@
            + completed->Err_0@),
{
}

/// A write to a file gives the count of bytes if the file took all, and else an
/// error with both numbers.
pub proof fn law_write_to_file(
    sink: FileSink,
    requested: usize,
    written: u32,
    r: Result<usize, DiskCloneError>,
)
    requires
        call_ensures(FileSink::wrote, (&sink, requested, written), r),
    ensures
        r matches Ok(n) ==> n == requested && n == written,
        r is Ok <==> requested == written,
        r matches Err(e) ==> e@.text() == "Short write: requested "@ + decimal(requested as nat)
            + " bytes, wrote "@ + decimal(written as nat),
{
}

/// An image goes to the file that is named, which is made anew, or to the disk
/// with the number, which has to be there.
pub proof fn law_opened_sinks(
    path: &str,
    f: Result<FileSink, DiskCloneError>,
    number: u32,
    d: Result<LocalDiskSink, DiskCloneError>,
)
    requires
        !path@.contains('\0'),
        call_ensures(FileSink::new, (path,), f),
        call_ensures(LocalDiskSink::new, (number,), d),
    ensures
        f is Ok && d is Ok,
        names(f->Ok_0.request.path@, windows_path(path@)),
        f->Ok_0.request.create && f->Ok_0.request.write && !f->Ok_0.request.read,
        names(d->Ok_0.request.path@, "\\\\.\\PhysicalDrive"@ + decimal(number as nat)),
        !d->Ok_0.request.create && d->Ok_0.request.write && !d->Ok_0.request.read,
{
    law_image_file_is_made_anew(path@);
    law_target_disk_is_opened_to_write(number);
    let p = windows_path(path@);
    law_slashes_become_backslashes(path@);
    assert forall|i: int| 0 <= i < p.len() implies #[trigger] p[i] != '\0' by {
        assert(path@.contains(path@[i]));
    }
    law_c_string_holds_text(p);
}

/// An image builder keeps the disk, the layout and the shadow copies that it is
/// made for, with a buffer of as many MB as are asked for, or of one sector
/// where none are.
pub proof fn law_new_builder(
    disk_number: u32,
    layout: DiskLayout,
    shadow_map: HashMap<u64, String>,
    buffer_size_mb: usize,
    r: ImageBuilder,
)
    requires
        call_ensures(ImageBuilder::new, (disk_number, layout, shadow_map, buffer_size_mb), r),
    ensures
        r.disk_number == disk_number,
        r.layout == layout,
        r.shadow_map@ == shadow_map@,
        buffer_size_mb > 0 ==> r.buffer_size == buffer_size_mb * 1024 * 1024,
        buffer_size_mb == 0 ==> r.buffer_size == 512,
{
    law_buffer_is_of_sectors(buffer_size_mb as int);
}

/// The window opens for the user who is named first, and for root if none is.
pub proof fn law_new_window(username: Option<String>, user: Option<String>, r: DiskCloneApp)
    requires
        call_ensures(DiskCloneApp::new, (username, user), r),
    ensures
        username matches Some(u) ==> r.ssh_user@ == u@,
        username is None ==> (user matches Some(u) ==> r.ssh_user@ == u@),
        username is None && user is None ==> r.ssh_user@ == "root"@,
        r.phase == Phase::Idle,
        r.disks@.len() == 0,
        !r.listening && !r.can_confirm,
{
}

} // verus!

//! Disks, their partitions, and how they are opened and read.

use vstd::prelude::*;

use crate::error::{DiskCloneError, ErrorView};
use crate::text::{contains, decimal, digit_char, occurs_in, push_decimal, replace_char, replaced, starts_with};
use crate::wide::{encode, has_inner_nul, law_c_string_holds_text, nul_text, terminated, wide_c_string};

verus! {

/// Sector size for disk I/O alignment.
pub const SECTOR_SIZE: u64 = 512;

/// GPT header and partition table size in sectors (primary at the start of
/// the disk, backup at its end).
pub const GPT_HEADER_SECTORS: u64 = 34;

/// GPT header and partition table size in bytes.
pub const GPT_SIZE: u64 = GPT_HEADER_SECTORS * SECTOR_SIZE;

/// Information about a single partition.
#[derive(Debug, Clone)]
pub struct PartitionInfo {
    pub partition_number: u32,
    pub starting_offset: u64,
    pub partition_length: u64,
    pub is_used: bool,
    pub volume_guid: Option<String>,
}

impl PartitionInfo {
    /// The partition holds data: its table entry is used and not empty.
    pub open spec fn in_use(self) -> bool {
        self.is_used && self.partition_length > 0
    }

    /// The offset just behind the partition.
    pub open spec fn end(self) -> int {
        self.starting_offset + self.partition_length
    }

    /// The partition holds data and the disk offset `pos` lies in it.
    pub open spec fn covers(self, pos: int) -> bool {
        self.in_use() && self.starting_offset <= pos < self.end()
    }
}

/// Disk layout containing partition information.
#[derive(Debug, Clone)]
pub struct DiskLayout {
    pub disk_length: u64,
    pub partition_count: u32,
    pub partitions: Vec<PartitionInfo>,
}

/// Every partition that holds data ends at an offset of 64 bits.
pub open spec fn ends_fit(parts: Seq<PartitionInfo>) -> bool {
    forall|i: int| 0 <= i < parts.len() && (#[trigger] parts[i]).in_use() ==> parts[i].end() <= u64::MAX
}

/// Where the backup GPT starts on a disk of the given length.
pub open spec fn backup_start(disk_length: int) -> int {
    if disk_length >= GPT_SIZE {
        disk_length - GPT_SIZE
    } else {
        0
    }
}

/// The device path of a physical drive.
pub open spec fn drive_path(disk_number: u32) -> Seq<char> {
    "\\\\.\\PhysicalDrive"@ + decimal(disk_number as nat)
}

/// The device path of a physical drive.
pub fn physical_drive_path(disk_number: u32) -> (r: String)
    ensures
        r@ == drive_path(disk_number),
{
    let mut r = String::new();
    r.append("\\\\.\\PhysicalDrive");
    push_decimal(&mut r, disk_number as u64);
    r
}

/// The path under which a shadow copy is opened as a raw device.
pub open spec fn device_path(shadow_path: Seq<char>) -> Seq<char> {
    if "\\\\?\\"@.is_prefix_of(shadow_path) {
        "\\\\.\\"@ + shadow_path.skip(4)
    } else if "\\\\.\\"@.is_prefix_of(shadow_path) {
        shadow_path
    } else {
        "\\\\.\\GLOBALROOT\\Device\\"@ + shadow_path
    }
}

/// The path under which a shadow copy is opened as a raw device.
pub fn shadow_device_path(shadow_path: &str) -> (r: String)
    ensures
        r@ == device_path(shadow_path@),
{
    let mut r = String::new();
    if starts_with(shadow_path, "\\\\?\\") {
        proof {
            reveal_strlit("\\\\?\\");
        }
        r.append("\\\\.\\");
        r.append(shadow_path.substring_char(4, shadow_path.unicode_len()));
    } else if starts_with(shadow_path, "\\\\.\\") {
        r.append(shadow_path);
    } else {
        r.append("\\\\.\\GLOBALROOT\\Device\\");
        r.append(shadow_path);
    }
    r
}

/// Information about a physical disk for UI selection.
#[derive(Debug, Clone)]
pub struct PhysicalDiskInfo {
    pub disk_number: u32,
    pub size_bytes: u64,
}

/// Number of physical drives that are looked for.
pub const DRIVES: u32 = 16;

/// The disks among the first drives whose size is known.
pub open spec fn disks_of(sizes: Seq<Option<u64>>) -> Seq<PhysicalDiskInfo>
    decreases sizes.len(),
{
    if sizes.len() == 0 {
        seq![]
    } else {
        let n = sizes.len() - 1;
        match sizes[n] {
            Some(size_bytes) if n < DRIVES => disks_of(sizes.drop_last()).push(
                PhysicalDiskInfo { disk_number: n as u32, size_bytes },
            ),
            _ => disks_of(sizes.drop_last()),
        }
    }
}

/// Lists physical disks (0..15) that can be opened. `sizes` holds for each
/// drive number the size of that drive, if it could be opened and measured.
pub fn list_physical_disks(sizes: &[Option<u64>]) -> (disks: Vec<PhysicalDiskInfo>)
    ensures
        disks@ == disks_of(sizes@),
{
    let mut disks: Vec<PhysicalDiskInfo> = Vec::new();
    for i in 0..sizes.len()
        invariant
            disks@ == disks_of(sizes@.take(i as int)),
    {
        proof {
            assert(sizes@.take(i + 1).drop_last() =~= sizes@.take(i as int));
        }
        if i < DRIVES as usize {
            if let Some(size_bytes) = sizes[i] {
                disks.push(PhysicalDiskInfo { disk_number: i as u32, size_bytes });
            }
        }
    }
    proof {
        assert(sizes@.take(sizes@.len() as int) =~= sizes@);
    }
    disks
}

/// What others may do with a file or device while it is open.
#[derive(Debug, Clone, Copy, PartialEq, Eq, Structural)]
pub enum Share {
    Nothing,
    Read,
    Write,
}

/// How a file or device is accessed.
#[derive(Debug, Clone, Copy, PartialEq, Eq, Structural)]
pub enum OpenFlags {
    /// The normal file attribute and nothing else.
    Normal,
    /// Without buffering.
    Unbuffered,
    /// Without buffering and with backup semantics.
    UnbufferedBackup,
}

/// How to open a file or device: the arguments of `CreateFileW`.
#[derive(Debug)]
pub struct OpenRequest {
    /// UTF-16 with a nul at its end.
    pub path: Vec<u16>,
    pub read: bool,
    pub write: bool,
    pub share: Share,
    /// Create the file, or empty the one that is there; else open what is there.
    pub create: bool,
    pub flags: OpenFlags,
}

/// An [`OpenRequest`] over the code units of its path.
pub struct OpenView {
    pub path: Seq<u16>,
    pub read: bool,
    pub write: bool,
    pub share: Share,
    pub create: bool,
    pub flags: OpenFlags,
}

impl View for OpenRequest {
    type V = OpenView;

    open spec fn view(&self) -> OpenView {
        OpenView {
            path: self.path@,
            read: self.read,
            write: self.write,
            share: self.share,
            create: self.create,
            flags: self.flags,
        }
    }
}

/// A device or file that is there, to be read, by one who lets others read.
pub open spec fn read_request(path: Seq<char>, flags: OpenFlags) -> OpenView {
    OpenView {
        path: terminated(encode(path)),
        read: true,
        write: false,
        share: Share::Read,
        create: false,
        flags,
    }
}

/// The path of a physical drive has no nul in it.
pub proof fn lemma_drive_path_without_nul(disk_number: u32)
    ensures
        !drive_path(disk_number).contains('\0'),
        !has_inner_nul(encode(drive_path(disk_number))),
{
    reveal_strlit("\\\\.\\PhysicalDrive");
    let p = "\\\\.\\PhysicalDrive"@;
    let d = decimal(disk_number as nat);
    lemma_decimal_without_nul(disk_number as nat);
    assert forall|i: int| 0 <= i < (p + d).len() implies (#[trigger] (p + d)[i]) != '\0' by {
        if i >= p.len() {
            assert((p + d)[i] == d[i - p.len()]);
        }
    }
    law_c_string_holds_text(drive_path(disk_number));
}

proof fn lemma_decimal_without_nul(n: nat)
    ensures
        forall|i: int| 0 <= i < decimal(n).len() ==> (#[trigger] decimal(n)[i]) != '\0',
    decreases n,
{
    assert forall|d: int| 0 <= d < 10 implies #[trigger] digit_char(d) != '\0' by {
        assert(digit_char(d) as int == 48 + d);
    }
    if n >= 10 {
        let init = decimal(n / 10);
        let last = digit_char((n % 10) as int);
        lemma_decimal_without_nul(n / 10);
        assert(decimal(n) == init.push(last));
        assert forall|i: int| 0 <= i < decimal(n).len() implies (#[trigger] decimal(n)[i])
            != '\0' by {
            if i < init.len() {
                assert(decimal(n)[i] == init[i]);
            } else {
                assert(decimal(n)[i] == last);
            }
        }
    } else {
        assert(decimal(n) == seq![digit_char(n as int)]);
    }
}

/// The path of a physical drive as a wide C string.
fn wide_drive_path(disk_number: u32) -> (r: Result<Vec<u16>, DiskCloneError>)
    ensures
        match r {
            Ok(w) => w@ == terminated(encode(drive_path(disk_number))),
            Err(_) => false,
        },
{
    proof {
        lemma_drive_path_without_nul(disk_number);
    }
    match wide_c_string(physical_drive_path(disk_number).as_str()) {
        Ok(w) => Ok(w),
        Err(m) => Err(DiskCloneError::Io(m)),
    }
}

/// Opens a physical disk for read access.
pub fn open_physical_disk(disk_number: u32) -> (r: Result<OpenRequest, DiskCloneError>)
    ensures
        match r {
            Ok(q) => q@ == read_request(drive_path(disk_number), OpenFlags::Normal),
            Err(_) => false,
        },
{
    match wide_drive_path(disk_number) {
        Ok(path) => Ok(
            OpenRequest {
                path,
                read: true,
                write: false,
                share: Share::Read,
                create: false,
                flags: OpenFlags::Normal,
            },
        ),
        Err(e) => Err(e),
    }
}

/// Opens a physical disk for write access (e.g., for cloning to local disk).
pub fn open_physical_disk_write(disk_number: u32) -> (r: Result<OpenRequest, DiskCloneError>)
    ensures
        match r {
            Ok(q) => q@ == (OpenView {
                write: true,
                ..read_request(drive_path(disk_number), OpenFlags::Normal)
            }),
            Err(_) => false,
        },
{
    match wide_drive_path(disk_number) {
        Ok(path) => Ok(
            OpenRequest {
                path,
                read: true,
                write: true,
                share: Share::Read,
                create: false,
                flags: OpenFlags::Normal,
            },
        ),
        Err(e) => Err(e),
    }
}

/// Opens a physical disk to write an image on it, beside others that write.
pub(crate) fn open_disk_for_image(disk_number: u32) -> (r: Result<OpenRequest, DiskCloneError>)
    ensures
        match r {
            Ok(q) => q@ == disk_image_request(disk_number),
            Err(_) => false,
        },
{
    match wide_drive_path(disk_number) {
        Ok(path) => Ok(
            OpenRequest {
                path,
                read: false,
                write: true,
                share: Share::Write,
                create: false,
                flags: OpenFlags::Normal,
            },
        ),
        Err(e) => Err(e),
    }
}

/// A physical disk to write an image on, beside others that write.
pub open spec fn disk_image_request(disk_number: u32) -> OpenView {
    OpenView {
        path: terminated(encode(drive_path(disk_number))),
        read: false,
        write: true,
        share: Share::Write,
        create: false,
        flags: OpenFlags::Normal,
    }
}

/// The path with backslashes for slashes.
pub open spec fn windows_path(path: Seq<char>) -> Seq<char> {
    replaced(path, '/', "\\"@)
}

/// The path is that of a shadow copy device.
pub open spec fn is_shadow_path(path: Seq<char>) -> bool {
    occurs_in(path, "ShadowCopy"@) || occurs_in(path, "shadowcopy"@)
}

/// Opens a volume or shadow copy for raw read access.
/// Path should be like `\\.\GLOBALROOT\Device\HarddiskVolumeShadowCopy12` or `\\.\C:`.
/// Uses backup semantics for shadow copies (required for VSS device access).
pub fn open_volume_raw(path: &str) -> (r: Result<OpenRequest, DiskCloneError>)
    ensures
        ({
            let p = windows_path(path@);
            match r {
                Ok(q) => !has_inner_nul(encode(p)) && q@ == read_request(
                    p,
                    if is_shadow_path(p) {
                        OpenFlags::UnbufferedBackup
                    } else {
                        OpenFlags::Unbuffered
                    },
                ),
                Err(e) => has_inner_nul(encode(p)) && e@ == ErrorView::Io(nul_text(encode(p))),
            }
        }),
{
    let path_win = replace_char(path, '/', "\\");
    match wide_c_string(path_win.as_str()) {
        Ok(path) => {
            let is_shadow = contains(path_win.as_str(), "ShadowCopy") || contains(
                path_win.as_str(),
                "shadowcopy",
            );
            let flags = if is_shadow {
                OpenFlags::UnbufferedBackup
            } else {
                OpenFlags::Unbuffered
            };
            Ok(
                OpenRequest {
                    path,
                    read: true,
                    write: false,
                    share: Share::Read,
                    create: false,
                    flags,
                },
            )
        },
        Err(m) => Err(DiskCloneError::Io(m)),
    }
}

/// The little-endian number of four bytes at an offset.
pub open spec fn le_u32(b: Seq<u8>, at: int) -> int {
    b[at] + 0x100 * b[at + 1] + 0x1_0000 * b[at + 2] + 0x100_0000 * b[at + 3]
}

/// The little-endian number of eight bytes at an offset.
pub open spec fn le_u64(b: Seq<u8>, at: int) -> int {
    le_u32(b, at) + 0x1_0000_0000 * le_u32(b, at + 4)
}

/// Reads the little-endian number of four bytes at an offset.
pub(crate) fn u32_at(b: &[u8], at: usize) -> (n: u32)
    requires
        at + 4 <= b@.len(),
    ensures
        n == le_u32(b@, at as int),
{
    b[at] as u32 + 0x100 * (b[at + 1] as u32) + 0x1_0000 * (b[at + 2] as u32) + 0x100_0000 * (b[at
        + 3] as u32)
}

/// Reads the little-endian number of eight bytes at an offset.
pub(crate) fn u64_at(b: &[u8], at: usize) -> (n: u64)
    requires
        at + 8 <= b@.len(),
    ensures
        n == le_u64(b@, at as int),
{
    let len: usize = b.len();
    assert(at + 8 <= len);
    u32_at(b, at) as u64 + 0x1_0000_0000 * (u32_at(b, at + 4) as u64)
}

/// Gets the disk length (total size in bytes) out of what
/// `IOCTL_DISK_GET_LENGTH_INFO` gave.
pub fn get_disk_length(info: &[u8]) -> (n: u64)
    requires
        info@.len() >= 8,
    ensures
        n == le_u64(info@, 0),
{
    u64_at(info, 0)
}

/// Maximum partitions we support (GPT allows 128).
pub const MAX_PARTITIONS: usize = 128;

/// Size of a drive layout (`DRIVE_LAYOUT_INFORMATION_EX`) before its first
/// partition entry.
pub const LAYOUT_HEADER_SIZE: usize = 48;

/// Size of a partition entry (`PARTITION_INFORMATION_EX`).
pub const PARTITION_INFO_SIZE: usize = 144;

/// Buffer size for drive layout (header + max partitions).
pub const LAYOUT_BUFFER_SIZE: usize = LAYOUT_HEADER_SIZE + MAX_PARTITIONS * PARTITION_INFO_SIZE;

/// The number of partition entries of a drive layout.
pub open spec fn entry_count(b: Seq<u8>) -> int {
    le_u32(b, 4)
}

/// The bytes hold a drive layout with all its partition entries.
pub open spec fn layout_fits(b: Seq<u8>) -> bool {
    b.len() >= LAYOUT_HEADER_SIZE && LAYOUT_HEADER_SIZE + entry_count(b) * PARTITION_INFO_SIZE
        <= b.len()
}

/// The partition of the entry at an offset. An entry without length stands
/// for no partition.
pub open spec fn partition_entry(b: Seq<u8>, at: int) -> PartitionInfo {
    PartitionInfo {
        partition_number: le_u32(b, at + 24) as u32,
        starting_offset: le_u64(b, at + 8) as u64,
        partition_length: le_u64(b, at + 16) as u64,
        is_used: le_u64(b, at + 16) > 0,
        volume_guid: None,
    }
}

/// The partitions of a drive layout.
pub open spec fn partition_entries(b: Seq<u8>) -> Seq<PartitionInfo> {
    Seq::new(
        entry_count(b) as nat,
        |i: int| partition_entry(b, LAYOUT_HEADER_SIZE + i * PARTITION_INFO_SIZE),
    )
}

/// Whether the bytes hold a drive layout with all its partition entries.
pub fn holds_layout(buffer: &[u8]) -> (b: bool)
    ensures
        b == layout_fits(buffer@),
{
    if buffer.len() < LAYOUT_HEADER_SIZE {
        return false;
    }
    let count = u32_at(buffer, 4) as u64;
    count * (PARTITION_INFO_SIZE as u64) <= (buffer.len() - LAYOUT_HEADER_SIZE) as u64
}

/// Gets the partition layout of a disk out of what
/// `IOCTL_DISK_GET_DRIVE_LAYOUT_EX` gave.
pub fn get_disk_layout(disk_length: u64, buffer: &[u8]) -> (layout: DiskLayout)
    requires
        layout_fits(buffer@),
    ensures
        layout.disk_length == disk_length,
        layout.partition_count == entry_count(buffer@),
        layout.partitions@ == partition_entries(buffer@),
{
    let partition_count = u32_at(buffer, 4);
    let mut partitions: Vec<PartitionInfo> = Vec::new();
    let mut at: usize = LAYOUT_HEADER_SIZE;
    let len: usize = buffer.len();
    for i in 0..partition_count
        invariant
            len == buffer@.len(),
            layout_fits(buffer@),
            partition_count == entry_count(buffer@),
            at == LAYOUT_HEADER_SIZE + i * PARTITION_INFO_SIZE,
            partitions@ == partition_entries(buffer@).take(i as int),
    {
        assert(at + PARTITION_INFO_SIZE <= len) by {
            assert((i + 1) * PARTITION_INFO_SIZE <= partition_count * PARTITION_INFO_SIZE);
        }
        let partition_length = u64_at(buffer, at + 16);
        partitions.push(
            PartitionInfo {
                partition_number: u32_at(buffer, at + 24),
                starting_offset: u64_at(buffer, at + 8),
                partition_length,
                is_used: partition_length > 0,
                volume_guid: None,
            },
        );
        at = at + PARTITION_INFO_SIZE;
        assert(partition_entries(buffer@).take(i + 1) =~= partition_entries(buffer@).take(
            i as int,
        ).push(partition_entries(buffer@)[i as int]));
    }
    assert(partition_entries(buffer@).take(partition_count as int) =~= partition_entries(buffer@));
    DiskLayout { disk_length, partition_count, partitions }
}

/// Where to read a device and how much: the arguments of `SetFilePointerEx`
/// and `ReadFile`.
#[derive(Debug, Clone, Copy, PartialEq, Eq, Structural)]
pub struct ReadRequest {
    pub position: i64,
    pub length: u32,
}

/// The number of bytes that one call of `ReadFile` or `WriteFile` is asked
/// for, which is a number of four bytes.
pub fn call_length(len: usize) -> (n: u32)
    ensures
        n == len as int % 0x1_0000_0000,
{
    let n: u64 = len as u64;
    (n % 0x1_0000_0000) as u32
}

/// Reads sectors at the given offset into a buffer of the given length.
/// Offset and size must be sector-aligned (512 bytes).
pub fn read_sectors(offset: u64, len: usize) -> (r: ReadRequest)
    ensures
        offset <= i64::MAX ==> r.position == offset,
        offset > i64::MAX ==> r.position == offset - 0x1_0000_0000_0000_0000,
        r.length == len as int % 0x1_0000_0000,
{
    assert(offset <= 0x7fff_ffff_ffff_ffff ==> offset as i64 == offset) by (bit_vector);
    assert(offset > 0x7fff_ffff_ffff_ffff ==> offset as i64 == offset - 0x1_0000_0000_0000_0000)
        by (bit_vector);
    #[verifier::truncate]
    let position = offset as i64;
    ReadRequest { position, length: call_length(len) }
}

} // verus!

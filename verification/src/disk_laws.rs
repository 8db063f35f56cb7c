//! What is read off a disk is what was written there, and what is opened is
//! what was named.

use vstd::arithmetic::div_mod::lemma_div_denominator;
use vstd::prelude::*;

use crate::disk::{backup_start, device_path, disk_image_request, disks_of, drive_path, ends_fit, entry_count, is_shadow_path, layout_fits, le_u32, le_u64, lemma_drive_path_without_nul, partition_entries, partition_entry, read_request, windows_path, OpenFlags, PartitionInfo, PhysicalDiskInfo, Share};
use crate::text::{decimal, occurs_at, occurs_in};
use crate::text_laws::{law_decimal_can_be_read, law_replacing_by_one_character, read_decimal};
use crate::wide::{decode, encode, law_decode_of_encode, lemma_encode_without_nul};

verus! {

/// Byte `k` of the number `v`, counted from the lowest.
pub open spec fn byte_of(v: int, k: nat) -> int
    decreases k,
{
    if k == 0 {
        v % 256
    } else {
        byte_of(v / 256, (k - 1) as nat)
    }
}

/// The `n` bytes at `at` hold the number `v`, lowest byte first.
pub open spec fn holds_number(b: Seq<u8>, at: int, n: nat, v: int) -> bool {
    forall|k: nat| k < n ==> b[at + k] == #[trigger] byte_of(v, k)
}

proof fn lemma_bytes(v: int, k: nat)
    requires
        0 <= v,
    ensures
        byte_of(v, 0) == v % 256,
        byte_of(v, 1) == v / 0x100 % 256,
        byte_of(v, 2) == v / 0x1_0000 % 256,
        byte_of(v, 3) == v / 0x100_0000 % 256,
        byte_of(v, k + 4) == byte_of(v / 0x1_0000_0000, k),
{
    assert(byte_of(v, 1) == byte_of(v / 256, 0));
    assert(byte_of(v, 2) == byte_of(v / 256, 1));
    assert(byte_of(v / 256, 1) == byte_of(v / 256 / 256, 0));
    assert(byte_of(v, 3) == byte_of(v / 256, 2));
    assert(byte_of(v / 256, 2) == byte_of(v / 256 / 256, 1));
    assert(byte_of(v / 256 / 256, 1) == byte_of(v / 256 / 256 / 256, 0));
    assert(byte_of(v, k + 4) == byte_of(v / 256, k + 3));
    assert(byte_of(v / 256, k + 3) == byte_of(v / 256 / 256, k + 2));
    assert(byte_of(v / 256 / 256, k + 2) == byte_of(v / 256 / 256 / 256, k + 1));
    assert(byte_of(v / 256 / 256 / 256, k + 1) == byte_of(v / 256 / 256 / 256 / 256, k));
    lemma_div_denominator(v, 256, 256);
    lemma_div_denominator(v, 0x1_0000, 256);
    lemma_div_denominator(v, 0x100_0000, 256);
}

/// A number of four bytes is read as it was written.
pub proof fn law_four_bytes_are_read_back(b: Seq<u8>, at: int, v: u32)
    requires
        holds_number(b, at, 4, v as int),
    ensures
        le_u32(b, at) == v,
{
    lemma_bytes(v as int, 0);
    assert(b[at + 0] == byte_of(v as int, 0));
    assert(b[at + 1] == byte_of(v as int, 1));
    assert(b[at + 2] == byte_of(v as int, 2));
    assert(b[at + 3] == byte_of(v as int, 3));
    assert(v == v % 256 + 0x100 * (v / 0x100 % 256) + 0x1_0000 * (v / 0x1_0000 % 256) + 0x100_0000
        * (v / 0x100_0000 % 256)) by (bit_vector);
}

/// The lower half of a number has the same four bytes.
proof fn lemma_lower_half(w: u64, k: nat)
    requires
        k < 4,
    ensures
        byte_of(w as int % 0x1_0000_0000, k) == byte_of(w as int, k),
{
    lemma_bytes(w as int, 0);
    lemma_bytes(w as int % 0x1_0000_0000, 0);
    assert(w % 0x1_0000_0000 % 256 == w % 256) by (bit_vector);
    assert(w % 0x1_0000_0000 / 0x100 % 256 == w / 0x100 % 256) by (bit_vector);
    assert(w % 0x1_0000_0000 / 0x1_0000 % 256 == w / 0x1_0000 % 256) by (bit_vector);
    assert(w % 0x1_0000_0000 / 0x100_0000 % 256 == w / 0x100_0000 % 256) by (bit_vector);
}

/// The two halves of eight bytes are numbers of four bytes.
proof fn lemma_halves(b: Seq<u8>, at: int, w: int)
    requires
        0 <= w <= u64::MAX,
    ensures
        holds_number(b, at, 8, w) <==> holds_number(b, at, 4, w % 0x1_0000_0000)
            && holds_number(b, at + 4, 4, w / 0x1_0000_0000),
{
    let low = w % 0x1_0000_0000;
    let high = w / 0x1_0000_0000;
    assert forall|k: nat| k < 4 implies #[trigger] byte_of(low, k) == byte_of(w, k) by {
        lemma_lower_half(w as u64, k);
    }
    assert forall|k: nat| k < 4 implies #[trigger] byte_of(high, k) == byte_of(w, k + 4) by {
        lemma_bytes(w, k);
    }
    if holds_number(b, at, 8, w) {
        assert forall|k: nat| k < 4 implies b[at + k] == #[trigger] byte_of(low, k) by {
            assert(b[at + k] == byte_of(w, k));
        }
        assert forall|k: nat| k < 4 implies b[at + 4 + k] == #[trigger] byte_of(high, k) by {
            assert(b[at + (k + 4)] == byte_of(w, k + 4));
        }
    }
    if holds_number(b, at, 4, low) && holds_number(b, at + 4, 4, high) {
        assert forall|k: nat| k < 8 implies b[at + k] == #[trigger] byte_of(w, k) by {
            if k < 4 {
                assert(b[at + k] == byte_of(low, k));
            } else {
                let m = (k - 4) as nat;
                assert(b[at + 4 + m] == byte_of(high, m));
            }
        }
    }
}

/// A number of eight bytes is read as it was written.
pub proof fn law_eight_bytes_are_read_back(b: Seq<u8>, at: int, v: u64)
    requires
        holds_number(b, at, 8, v as int),
    ensures
        le_u64(b, at) == v,
{
    let w = v as int;
    lemma_halves(b, at, w);
    law_four_bytes_are_read_back(b, at, (w % 0x1_0000_0000) as u32);
    law_four_bytes_are_read_back(b, at + 4, (w / 0x1_0000_0000) as u32);
}

/// Each of the bytes counts: what four or eight of them are read as holds them
/// again.
pub proof fn law_number_holds_its_bytes(b: Seq<u8>, at: int)
    ensures
        0 <= le_u32(b, at) <= u32::MAX,
        holds_number(b, at, 4, le_u32(b, at)),
        0 <= le_u64(b, at) <= u64::MAX,
        holds_number(b, at, 8, le_u64(b, at)),
{
    lemma_four_bytes(b, at);
    lemma_four_bytes(b, at + 4);
    let w = le_u64(b, at);
    assert(w % 0x1_0000_0000 == le_u32(b, at));
    assert(w / 0x1_0000_0000 == le_u32(b, at + 4));
    lemma_halves(b, at, w);
}

proof fn lemma_four_bytes(b: Seq<u8>, at: int)
    ensures
        0 <= le_u32(b, at) <= u32::MAX,
        holds_number(b, at, 4, le_u32(b, at)),
{
    let v = le_u32(b, at) as u32;
    let (c0, c1, c2, c3) = (b[at], b[at + 1], b[at + 2], b[at + 3]);
    lemma_bytes(v as int, 0);
    assert(v % 256 == c0 && v / 0x100 % 256 == c1 && v / 0x1_0000 % 256 == c2 && v / 0x100_0000
        % 256 == c3) by (bit_vector)
        requires
            v == c0 + 0x100 * c1 + 0x1_0000 * c2 + 0x100_0000 * c3,
    ;
    assert forall|k: nat| k < 4 implies b[at + k] == #[trigger] byte_of(v as int, k) by {
        assert(k == 0 || k == 1 || k == 2 || k == 3);
    }
}

/// A partition as a drive layout describes it.
pub struct Described {
    pub number: u32,
    pub start: u64,
    pub length: u64,
}

/// The bytes hold the drive layout of these partitions: their number in bytes
/// 4 to 8, and for each of them 144 bytes from byte 48 on, with the start in
/// bytes 8 to 16, the length in bytes 16 to 24 and the number in bytes 24 to
/// 28.
pub open spec fn describes(b: Seq<u8>, parts: Seq<Described>) -> bool {
    &&& parts.len() <= u32::MAX
    &&& b.len() >= 48 + 144 * parts.len()
    &&& holds_number(b, 4, 4, parts.len() as int)
    &&& forall|i: int|
        0 <= i < parts.len() ==> {
            &&& holds_number(b, 48 + 144 * i + 8, 8, (#[trigger] parts[i]).start as int)
            &&& holds_number(b, 48 + 144 * i + 16, 8, parts[i].length as int)
            &&& holds_number(b, 48 + 144 * i + 24, 4, parts[i].number as int)
        }
}

/// A drive layout is read as it was written: each partition with its number,
/// start and length, and in use if and only if it has a length.
pub proof fn law_layout_is_read_back(b: Seq<u8>, parts: Seq<Described>)
    requires
        describes(b, parts),
    ensures
        layout_fits(b),
        entry_count(b) == parts.len(),
        partition_entries(b).len() == parts.len(),
        forall|i: int|
            0 <= i < parts.len() ==> {
                let p = #[trigger] partition_entries(b)[i];
                &&& p.partition_number == parts[i].number
                &&& p.starting_offset == parts[i].start
                &&& p.partition_length == parts[i].length
                &&& p.is_used == (parts[i].length > 0)
                &&& p.volume_guid is None
            },
{
    law_four_bytes_are_read_back(b, 4, parts.len() as u32);
    assert forall|i: int| 0 <= i < parts.len() implies {
        let p = #[trigger] partition_entries(b)[i];
        &&& p.partition_number == parts[i].number
        &&& p.starting_offset == parts[i].start
        &&& p.partition_length == parts[i].length
        &&& p.is_used == (parts[i].length > 0)
        &&& p.volume_guid is None
    } by {
        let at = 48 + 144 * i;
        let q = parts[i];
        law_eight_bytes_are_read_back(b, at + 8, q.start);
        law_eight_bytes_are_read_back(b, at + 16, q.length);
        law_four_bytes_are_read_back(b, at + 24, q.number);
        assert(partition_entries(b)[i] == partition_entry(b, at));
    }
}

/// Every drive layout that fits its bytes is one of partitions that those
/// bytes describe.
pub proof fn law_layout_describes_partitions(b: Seq<u8>) -> (parts: Seq<Described>)
    requires
        layout_fits(b),
    ensures
        describes(b, parts),
{
    law_number_holds_its_bytes(b, 4);
    let parts = Seq::new(
        entry_count(b) as nat,
        |i: int|
            {
                let at = 48 + 144 * i;
                Described {
                    number: le_u32(b, at + 24) as u32,
                    start: le_u64(b, at + 8) as u64,
                    length: le_u64(b, at + 16) as u64,
                }
            },
    );
    assert forall|i: int| 0 <= i < parts.len() implies {
        &&& holds_number(b, 48 + 144 * i + 8, 8, (#[trigger] parts[i]).start as int)
        &&& holds_number(b, 48 + 144 * i + 16, 8, parts[i].length as int)
        &&& holds_number(b, 48 + 144 * i + 24, 4, parts[i].number as int)
    } by {
        law_number_holds_its_bytes(b, 48 + 144 * i + 8);
        law_number_holds_its_bytes(b, 48 + 144 * i + 16);
        law_number_holds_its_bytes(b, 48 + 144 * i + 24);
    }
    parts
}

/// The end of a partition is its start and its length, an offset lies in it if
/// it is neither before the one nor behind the other, and a partition that is
/// not used or has no length holds no offset.
pub proof fn law_offsets_of_partition(p: PartitionInfo, pos: int)
    ensures
        p.covers(pos) <==> p.is_used && p.starting_offset <= pos && pos < p.starting_offset
            + p.partition_length,
        p.in_use() <==> p.is_used && p.partition_length != 0,
        p.end() == p.starting_offset + p.partition_length,
{
}

/// All ends fit if and only if no used partition with a length ends beyond the
/// largest offset.
pub proof fn law_ends_fit(parts: Seq<PartitionInfo>)
    ensures
        ends_fit(parts) <==> forall|i: int|
            0 <= i < parts.len() && (#[trigger] parts[i]).is_used && parts[i].partition_length > 0
                ==> parts[i].starting_offset + parts[i].partition_length <= 0xffff_ffff_ffff_ffff,
{
}

/// The backup GPT is the last 34 sectors of 512 bytes; on a smaller disk it
/// starts where the disk does.
pub proof fn law_backup_is_at_the_end(disk_length: int)
    requires
        disk_length >= 0,
    ensures
        disk_length >= 34 * 512 ==> disk_length - backup_start(disk_length) == 34 * 512,
        disk_length < 34 * 512 ==> backup_start(disk_length) == 0,
{
}

/// The path of a drive names it: the number behind the fixed part is that of
/// the drive, and no two drives have the same path.
pub proof fn law_drive_path_names_drive(n: u32, m: u32)
    ensures
        "\\\\.\\PhysicalDrive"@.is_prefix_of(drive_path(n)),
        "\\\\.\\PhysicalDrive"@.len() == 17,
        read_decimal(drive_path(n).skip(17)) == n,
        drive_path(n) == drive_path(m) ==> n == m,
{
    reveal_strlit("\\\\.\\PhysicalDrive");
    law_decimal_can_be_read(n as nat);
    law_decimal_can_be_read(m as nat);
    assert(drive_path(n).skip(17) =~= decimal(n as nat));
    assert(drive_path(m).skip(17) =~= decimal(m as nat));
}

/// A shadow copy is opened under its own name, as a device: the one prefix is
/// replaced by the other, a device path is left as it is, and a bare name is
/// looked for among the devices.
pub proof fn law_shadow_is_opened_under_its_name(name: Seq<char>)
    ensures
        device_path("\\\\?\\"@ + name) == "\\\\.\\"@ + name,
        device_path("\\\\.\\"@ + name) == "\\\\.\\"@ + name,
        !"\\\\?\\"@.is_prefix_of(name) && !"\\\\.\\"@.is_prefix_of(name) ==> device_path(name)
            == "\\\\.\\GLOBALROOT\\Device\\"@ + name,
{
    reveal_strlit("\\\\?\\");
    reveal_strlit("\\\\.\\");
    let a = "\\\\?\\"@ + name;
    let b = "\\\\.\\"@ + name;
    assert(a.take(4) =~= "\\\\?\\"@);
    assert(b.take(4) =~= "\\\\.\\"@);
    assert("\\\\?\\"@.is_prefix_of(a));
    assert("\\\\.\\"@.is_prefix_of(b));
    assert(b[2] == '.');
    assert(!"\\\\?\\"@.is_prefix_of(b)) by {
        if "\\\\?\\"@.is_prefix_of(b) {
            assert(b.subrange(0, 4)[2] == b[2]);
        }
    }
    assert(a.skip(4) =~= name);
}

/// A disk is listed if and only if it is one of the first sixteen and has a
/// size, with that size, and the list is in the order of the numbers.
pub proof fn law_measured_disks_are_listed(sizes: Seq<Option<u64>>)
    ensures
        forall|d: PhysicalDiskInfo|
            disks_of(sizes).contains(d) <==> (d.disk_number < 16 && d.disk_number < sizes.len()
                && #[trigger] sizes[d.disk_number as int] == Some(d.size_bytes)),
        forall|i: int, j: int|
            0 <= i < j < disks_of(sizes).len() ==> (#[trigger] disks_of(sizes)[i]).disk_number < (
            #[trigger] disks_of(sizes)[j]).disk_number,
    decreases sizes.len(),
{
    let disks = disks_of(sizes);
    if sizes.len() > 0 {
        let init = sizes.drop_last();
        let before = disks_of(init);
        law_measured_disks_are_listed(init);
        let n = sizes.len() - 1;
        if n < 16 && sizes[n] is Some {
            let last = PhysicalDiskInfo { disk_number: n as u32, size_bytes: sizes[n]->0 };
            assert(disks == before.push(last));
            assert forall|d: PhysicalDiskInfo|
                disks.contains(d) <==> (d.disk_number < 16 && d.disk_number < sizes.len()
                    && #[trigger] sizes[d.disk_number as int] == Some(d.size_bytes)) by {
                if disks.contains(d) {
                    let i = choose|i: int| 0 <= i < disks.len() && disks[i] == d;
                    if i < before.len() {
                        assert(before[i] == d);
                        assert(before.contains(d));
                        assert(init[d.disk_number as int] == Some(d.size_bytes));
                    }
                }
                if d.disk_number < 16 && d.disk_number < sizes.len()
                    && sizes[d.disk_number as int] == Some(d.size_bytes) {
                    if d.disk_number < n {
                        assert(init[d.disk_number as int] == Some(d.size_bytes));
                        assert(before.contains(d));
                        let i = choose|i: int| 0 <= i < before.len() && before[i] == d;
                        assert(disks[i] == d);
                    } else {
                        assert(disks[before.len() as int] == d);
                    }
                }
            }
            assert forall|i: int, j: int| 0 <= i < j < disks.len() implies (
            #[trigger] disks[i]).disk_number < (#[trigger] disks[j]).disk_number by {
                assert(before.contains(before[i]));
                assert(init[before[i].disk_number as int] == Some(before[i].size_bytes));
                if j < before.len() {
                    assert(disks[i] == before[i] && disks[j] == before[j]);
                }
            }
        } else {
            assert(disks == before);
            assert forall|d: PhysicalDiskInfo|
                disks.contains(d) <==> (d.disk_number < 16 && d.disk_number < sizes.len()
                    && #[trigger] sizes[d.disk_number as int] == Some(d.size_bytes)) by {
                if before.contains(d) {
                    assert(init[d.disk_number as int] == Some(d.size_bytes));
                }
                if d.disk_number < 16 && d.disk_number < sizes.len()
                    && sizes[d.disk_number as int] == Some(d.size_bytes) {
                    assert(d.disk_number < n);
                    assert(init[d.disk_number as int] == Some(d.size_bytes));
                }
            }
        }
    }
}

/// The units are the path and one nul behind it.
pub open spec fn names(units: Seq<u16>, path: Seq<char>) -> bool {
    &&& units.len() > 0
    &&& units.last() == 0
    &&& forall|i: int| 0 <= i < units.len() - 1 ==> #[trigger] units[i] != 0
    &&& decode(units.drop_last()) == path
}

/// What is to be read is opened under its path, is never created, and can be
/// read by others; it is never written.
pub proof fn law_sources_are_opened_to_read(path: Seq<char>, flags: OpenFlags)
    requires
        !path.contains('\0'),
    ensures
        ({
            let q = read_request(path, flags);
            &&& names(q.path, path)
            &&& q.read && !q.write
            &&& q.share == Share::Read
            &&& !q.create
            &&& q.flags == flags
        }),
{
    lemma_encode_without_nul(path);
    law_decode_of_encode(path);
    let u = encode(path);
    if u.len() > 0 {
        assert(u[u.len() - 1] != 0);
    }
    assert(read_request(path, flags).path == u.push(0));
    assert(u.push(0).drop_last() =~= u);
}

/// A disk that takes an image is opened under its path to be written, beside
/// others that write; it is never created.
pub proof fn law_target_disk_is_opened_to_write(n: u32)
    ensures
        ({
            let q = disk_image_request(n);
            &&& names(q.path, drive_path(n))
            &&& q.write && !q.read
            &&& q.share == Share::Write
            &&& !q.create
            &&& q.flags == OpenFlags::Normal
        }),
{
    lemma_drive_path_without_nul(n);
    law_sources_are_opened_to_read(drive_path(n), OpenFlags::Normal);
}

/// A path has backslashes where it had slashes, and is the same elsewhere.
pub proof fn law_slashes_become_backslashes(path: Seq<char>)
    ensures
        windows_path(path).len() == path.len(),
        forall|i: int|
            0 <= i < path.len() ==> #[trigger] windows_path(path)[i] == if path[i] == '/' {
                '\\'
            } else {
                path[i]
            },
{
    reveal_strlit("\\");
    law_replacing_by_one_character(path, '/', "\\"@);
}

/// A path is that of a shadow copy if and only if the words stand in it, all in
/// lower case or as Windows writes them.
pub proof fn law_shadow_paths_say_so(path: Seq<char>)
    ensures
        is_shadow_path(path) <==> exists|a: Seq<char>, b: Seq<char>|
            path == #[trigger] (a + "ShadowCopy"@ + b) || path == a + "shadowcopy"@ + b,
{
    reveal_strlit("ShadowCopy");
    reveal_strlit("shadowcopy");
    let big = "ShadowCopy"@;
    let small = "shadowcopy"@;
    if is_shadow_path(path) {
        let w = if occurs_in(path, big) {
            big
        } else {
            small
        };
        let i = choose|i: int| #[trigger] occurs_at(path, w, i);
        let a = path.take(i);
        let b = path.skip(i + 10);
        assert(path =~= a + w + b);
        assert(a + big + b == a + big + b);
        assert(path == a + big + b || path == a + small + b);
    }
    if exists|a: Seq<char>, b: Seq<char>|
        path == #[trigger] (a + big + b) || path == a + small + b {
        let (a, b) = choose|a: Seq<char>, b: Seq<char>|
            path == #[trigger] (a + big + b) || path == a + small + b;
        let i = a.len() as int;
        if path == a + big + b {
            assert(path.subrange(i, i + 10) =~= big);
            assert(occurs_at(path, big, i));
        } else {
            assert(path.subrange(i, i + 10) =~= small);
            assert(occurs_at(path, small, i));
        }
    }
}

} // verus!

//! Volume Shadow Copy Service integration for creating consistent disk
//! snapshots: which volumes lie on a disk, which shadow copy belongs to which
//! volume, and where on the disk that volume starts.

use std::collections::HashMap;

use vstd::prelude::*;
use vstd::slice::slice_subrange;

use crate::disk::{le_u32, le_u64, read_request, u32_at, u64_at, OpenFlags, OpenRequest, Share};
use crate::error::{DiskCloneError, ErrorView};
use crate::text::{ascii_upper, chars_of, find, first_at, from_first, is_ascii_text, lemma_from_first, occurs_at, same, starts_with, string_of, trim, trim_end, trimmed, trimmed_end, trimmed_start, upper};
use crate::wide::{decode, encode, first_nul, has_inner_nul, is_high, is_low, law_c_string_holds_text, lossy_text, nul_index, nul_text, wide_c_string};

verus! {

broadcast use vstd::std_specs::hash::group_hash_axioms;

/// What two names of one volume have in common: the part from `VOLUME{` on of
/// the upper case of the name without the separators round it.
pub open spec fn volume_key(name: Seq<char>) -> Seq<char> {
    from_first(upper(trimmed(name, true)), "VOLUME{"@)
}

/// A volume name in upper case from its first `VOLUME{` on; all of it where
/// that is missing.
pub fn key_of_upper(big: &str) -> (r: String)
    ensures
        r@ == from_first(big@, "VOLUME{"@),
{
    let chars = chars_of(big);
    match find(chars.as_slice(), chars_of("VOLUME{").as_slice()) {
        Some(i) => {
            proof {
                lemma_from_first(big@, "VOLUME{"@, i as int);
            }
            string_of(slice_subrange(chars.as_slice(), i, chars.len()))
        },
        None => string_of(chars.as_slice()),
    }
}

/// Normalizes a volume name for comparison. Windows lists `\\?\Volume{guid}\`
/// while VSS may give `\\.\Volume{guid}\` - we compare by the Volume{guid}
/// part only (case-insensitive).
pub fn normalize_volume_name_for_match(name: &str) -> (r: String)
    ensures
        r@ == volume_key(name@),
{
    let chars = chars_of(name);
    let s = string_of(trim(chars.as_slice(), true));
    key_of_upper(s.as_str().to_uppercase().as_str())
}

/// Whatever the case of its letters, a volume name has the same key behind
/// `\\?\` as behind `\\.\`: the upper case of its `Volume{guid}` part.
pub proof fn law_volume_key_is_guid_part(guid: Seq<char>)
    requires
        is_ascii_text(guid),
    ensures
        volume_key("\\\\?\\Volume{"@ + guid + "}\\"@) == "VOLUME{"@ + guid.map_values(
            |c: char| ascii_upper(c),
        ) + "}"@,
        volume_key("\\\\.\\Volume{"@ + guid + "}\\"@) == "VOLUME{"@ + guid.map_values(
            |c: char| ascii_upper(c),
        ) + "}"@,
{
    reveal_strlit("\\\\?\\Volume{");
    reveal_strlit("\\\\.\\Volume{");
    lemma_volume_key("\\\\?\\Volume{"@, '?', guid);
    lemma_volume_key("\\\\.\\Volume{"@, '.', guid);
}

proof fn lemma_volume_key(prefix: Seq<char>, mark: char, guid: Seq<char>)
    requires
        is_ascii_text(guid),
        mark == '?' || mark == '.',
        prefix =~= seq!['\\', '\\', mark, '\\', 'V', 'o', 'l', 'u', 'm', 'e', '{'],
    ensures
        volume_key(prefix + guid + "}\\"@) == "VOLUME{"@ + guid.map_values(
            |c: char| ascii_upper(c),
        ) + "}"@,
{
    reveal_strlit("}\\");
    reveal_strlit("}");
    reveal_strlit("VOLUME{");
    reveal_with_fuel(trimmed_start, 3);
    reveal_with_fuel(trimmed_end, 2);
    let name = prefix + guid + "}\\"@;
    let a = name.drop_first();
    let b = a.drop_first();
    assert(name.first() == '\\' && a.first() == '\\' && b.first() == mark);
    assert(trimmed_start(name, true) == b);
    assert(b.last() == '\\' && b.drop_last().last() == '}');
    let s = b.drop_last();
    assert(trimmed(name, true) == s);
    assert(s =~= prefix.skip(2) + guid + "}"@);
    assert(is_ascii_text(s)) by {
        assert forall|i: int| 0 <= i < s.len() implies (#[trigger] s[i] as int) < 128 by {
            if 9 <= i < 9 + guid.len() {
                assert(s[i] == guid[i - 9]);
            }
        }
    }
    let u = upper(s);
    let p = "VOLUME{"@;
    assert(u.subrange(2, 9) =~= p);
    assert(!occurs_at(u, p, 0)) by {
        assert(u[0] == mark);
        assert(u.subrange(0, 7)[0] == mark && p[0] == 'V');
    }
    assert(!occurs_at(u, p, 1)) by {
        assert(u.subrange(1, 8)[0] == '\\' && p[0] == 'V');
    }
    assert(first_at(u, p, 2));
    lemma_from_first(u, p, 2);
    assert(u.skip(2) =~= p + guid.map_values(|c: char| ascii_upper(c)) + "}"@);
}

/// Size of the answer to `IOCTL_VOLUME_GET_VOLUME_DISK_EXTENTS`: the extents
/// structure with room behind it.
pub const EXTENTS_BUFFER_SIZE: usize = 96;

/// The path under which a volume is opened to ask for its extents.
pub open spec fn volume_path(volume_name: Seq<char>) -> Seq<char> {
    if "\\\\?\\"@.is_prefix_of(volume_name) || "\\\\.\\"@.is_prefix_of(volume_name) {
        "\\\\.\\"@ + trimmed(volume_name.skip(4), false)
    } else {
        "\\\\.\\"@ + trimmed(volume_name, false)
    }
}

/// The path under which a volume is opened to ask for its extents.
fn volume_device_path(volume_name: &str) -> (r: String)
    ensures
        r@ == volume_path(volume_name@),
{
    let v = chars_of(volume_name);
    let mut r = String::new();
    r.append("\\\\.\\");
    if starts_with(volume_name, "\\\\?\\") || starts_with(volume_name, "\\\\.\\") {
        proof {
            reveal_strlit("\\\\?\\");
            reveal_strlit("\\\\.\\");
        }
        let rest = slice_subrange(v.as_slice(), 4, v.len());
        assert(rest@ =~= volume_name@.skip(4));
        r.append(string_of(trim(rest, false)).as_str());
    } else {
        r.append(string_of(trim(v.as_slice(), false)).as_str());
    }
    assert(Seq::<char>::empty() + "\\\\.\\"@ =~= "\\\\.\\"@);
    r
}

/// How to open a volume to ask for its extents.
pub fn open_volume_for_extents(volume_name: &str) -> (r: Result<OpenRequest, DiskCloneError>)
    ensures
        ({
            let p = encode(volume_path(volume_name@));
            match r {
                Ok(q) => !has_inner_nul(p) && q@ == read_request(
                    volume_path(volume_name@),
                    OpenFlags::Normal,
                ),
                Err(e) => has_inner_nul(p) && e@ == ErrorView::Other(nul_text(p)),
            }
        }),
{
    match wide_c_string(volume_device_path(volume_name).as_str()) {
        Ok(path) => Ok(
            OpenRequest {
                path,
                read: true,
                write: false,
                share: Share::Read,
                create: false,
                flags: OpenFlags::Normal,
            },
        ),
        Err(m) => Err(DiskCloneError::Other(m)),
    }
}

/// The disk and the starting offset of the first extent of a volume. There is
/// none if the volume could not be asked, or has no extents.
pub open spec fn first_extent(answer: Option<[u8; EXTENTS_BUFFER_SIZE]>) -> Option<(u32, u64)> {
    match answer {
        Some(b) if le_u32(b@, 0) > 0 => Some((le_u32(b@, 8) as u32, le_u64(b@, 16) as u64)),
        _ => None,
    }
}

/// Gets the disk number and starting offset for a volume. `answer` is what
/// the volume gave when it was asked for its extents, `None` if it could not
/// be opened or did not answer.
pub fn get_volume_disk_extents(volume_name: &str, answer: &Option<[u8; EXTENTS_BUFFER_SIZE]>) -> (r: Result<
    Option<(u32, u64)>,
    DiskCloneError,
>)
    ensures
        ({
            let p = encode(volume_path(volume_name@));
            match r {
                Ok(x) => !has_inner_nul(p) && x == first_extent(*answer),
                Err(e) => has_inner_nul(p) && e@ == ErrorView::Other(nul_text(p)),
            }
        }),
{
    match open_volume_for_extents(volume_name) {
        Ok(_) => match answer {
            Some(b) => {
                let s = b.as_slice();
                if u32_at(s, 0) > 0 {
                    Ok(Some((u32_at(s, 8), u64_at(s, 16))))
                } else {
                    Ok(None)
                }
            },
            None => Ok(None),
        },
        Err(e) => Err(e),
    }
}

/// Where the volume starts on its disk; 0 if that is not known.
pub open spec fn volume_offset(answer: Option<[u8; EXTENTS_BUFFER_SIZE]>) -> u64 {
    match first_extent(answer) {
        Some((_, offset)) => offset,
        None => 0,
    }
}

/// Gets the starting offset for a volume.
pub fn get_volume_disk_offset(volume_name: &str, answer: &Option<[u8; EXTENTS_BUFFER_SIZE]>) -> (r: Result<
    Option<u64>,
    DiskCloneError,
>)
    ensures
        ({
            let p = encode(volume_path(volume_name@));
            match r {
                Ok(x) => !has_inner_nul(p) && x == Some(volume_offset(*answer)),
                Err(e) => has_inner_nul(p) && e@ == ErrorView::Other(nul_text(p)),
            }
        }),
{
    match get_volume_disk_extents(volume_name, answer) {
        Ok(Some((_, offset))) => Ok(Some(offset)),
        Ok(None) => Ok(Some(0)),
        Err(e) => Err(e),
    }
}

/// A volume that Windows lists, in the buffer that its name was given in, and
/// what it gave when it was asked for its extents.
pub struct ListedVolume {
    pub name: Vec<u16>,
    pub answer: Option<[u8; EXTENTS_BUFFER_SIZE]>,
}

/// The name of a listed volume without the separators at its end.
pub open spec fn listed_name(buffer: Seq<u16>) -> Seq<char> {
    trimmed_end(decode(buffer.take(first_nul(buffer))), false)
}

/// The name in the buffer of a listed volume, without the separators at its
/// end.
pub fn listed_volume_name(buffer: &[u16]) -> (r: String)
    ensures
        r@ == listed_name(buffer@),
{
    let len = nul_index(buffer);
    let name = lossy_text(slice_subrange(buffer, 0, len));
    assert(buffer@.subrange(0, len as int) =~= buffer@.take(len as int));
    let chars = chars_of(name.as_str());
    string_of(trim_end(chars.as_slice(), false))
}

/// The volume lies on the disk.
pub open spec fn lies_on(v: ListedVolume, disk_number: u32) -> bool {
    &&& !has_inner_nul(encode(volume_path(listed_name(v.name@))))
    &&& first_extent(v.answer) matches Some((disk, _)) && disk == disk_number
}

/// The names of those of the volumes that lie on the disk.
pub open spec fn volumes_on(volumes: Seq<ListedVolume>, disk_number: u32) -> Seq<Seq<char>>
    decreases volumes.len(),
{
    if volumes.len() == 0 {
        seq![]
    } else if lies_on(volumes.last(), disk_number) {
        volumes_on(volumes.drop_last(), disk_number).push(
            listed_name(volumes.last().name@) + "\\"@,
        )
    } else {
        volumes_on(volumes.drop_last(), disk_number)
    }
}

/// The characters of each text.
pub open spec fn texts(v: Seq<String>) -> Seq<Seq<char>> {
    v.map_values(|s: String| s@)
}

/// Gets volume names (GUID paths) for all volumes on the specified physical
/// disk.
pub fn get_volumes_on_disk(disk_number: u32, volumes: &[ListedVolume]) -> (r: Vec<String>)
    ensures
        texts(r@) == volumes_on(volumes@, disk_number),
{
    let mut r: Vec<String> = Vec::new();
    proof {
        assert(texts(r@) =~= volumes_on(volumes@.take(0), disk_number));
    }
    for i in 0..volumes.len()
        invariant
            texts(r@) == volumes_on(volumes@.take(i as int), disk_number),
    {
        proof {
            assert(volumes@.take(i + 1).drop_last() =~= volumes@.take(i as int));
        }
        let mut name = listed_volume_name(volumes[i].name.as_slice());
        if let Ok(Some((disk, _))) = get_volume_disk_extents(name.as_str(), &volumes[i].answer) {
            if disk == disk_number {
                name.append("\\");
                let ghost before = r@;
                let ghost added = name@;
                r.push(name);
                proof {
                    assert(texts(r@) =~= texts(before).push(added));
                }
            }
        }
    }
    proof {
        assert(volumes@.take(volumes@.len() as int) =~= volumes@);
    }
    r
}

proof fn lemma_decode_without_nul(u: Seq<u16>)
    requires
        forall|i: int| 0 <= i < u.len() ==> #[trigger] u[i] != 0,
    ensures
        !decode(u).contains('\0'),
    decreases u.len(),
{
    if u.len() > 0 {
        let pair = is_high(u[0]) && u.len() > 1 && is_low(u[1]);
        let n: int = if pair {
            2
        } else {
            1
        };
        lemma_decode_without_nul(u.skip(n));
        let rest = decode(u.skip(n));
        let d = decode(u);
        assert(d.len() == 1 + rest.len());
        assert forall|i: int| 0 <= i < d.len() implies #[trigger] d[i] != '\0' by {
            if i > 0 {
                assert(d[i] == rest[i - 1]);
                assert(rest.contains(rest[i - 1]));
            } else if pair {
                let v = 0x10000 + (u[0] - 0xD800) * 0x400 + (u[1] - 0xDC00);
                assert(0x10000 <= v <= 0x10FFFF);
                assert(v as char as int == v);
            } else if is_high(u[0]) || is_low(u[0]) {
            } else {
                assert(u[0] as char as int == u[0]);
            }
        }
    }
}

proof fn lemma_first_nul_bounds(u: Seq<u16>)
    ensures
        0 <= first_nul(u) <= u.len(),
        forall|i: int| 0 <= i < first_nul(u) ==> #[trigger] u[i] != 0,
    decreases u.len(),
{
    if u.len() > 0 && u[0] != 0 {
        lemma_first_nul_bounds(u.skip(1));
        assert forall|i: int| 0 <= i < first_nul(u) implies #[trigger] u[i] != 0 by {
            if i > 0 {
                assert(u[i] == u.skip(1)[i - 1]);
            }
        }
    }
}

proof fn lemma_trimmed_without_nul(s: Seq<char>, slash: bool)
    requires
        !s.contains('\0'),
    ensures
        !trimmed_start(s, slash).contains('\0'),
        !trimmed_end(s, slash).contains('\0'),
    decreases s.len(),
{
    if s.len() > 0 {
        assert forall|i: int| 0 <= i < s.drop_first().len() implies #[trigger] s.drop_first()[i]
            != '\0' by {
            assert(s.contains(s[i + 1]));
        }
        assert forall|i: int| 0 <= i < s.drop_last().len() implies #[trigger] s.drop_last()[i]
            != '\0' by {
            assert(s.contains(s[i]));
        }
        lemma_trimmed_without_nul(s.drop_first(), slash);
        lemma_trimmed_without_nul(s.drop_last(), slash);
    }
}

proof fn lemma_volume_path_without_nul(name: Seq<char>)
    requires
        !name.contains('\0'),
    ensures
        !has_inner_nul(encode(volume_path(name))),
{
    reveal_strlit("\\\\?\\");
    reveal_strlit("\\\\.\\");
    let p = "\\\\.\\"@;
    let rest = if "\\\\?\\"@.is_prefix_of(name) || p.is_prefix_of(name) {
        name.skip(4)
    } else {
        name
    };
    assert forall|i: int| 0 <= i < rest.len() implies #[trigger] rest[i] != '\0' by {
        if rest.len() == name.len() {
            assert(name.contains(name[i]));
        } else {
            assert(name.contains(name[i + 4]));
        }
    }
    lemma_trimmed_without_nul(rest, false);
    lemma_trimmed_without_nul(trimmed_start(rest, false), false);
    let t = trimmed(rest, false);
    let path = volume_path(name);
    assert(path == p + t);
    assert forall|i: int| 0 <= i < path.len() implies #[trigger] path[i] != '\0' by {
        if i >= 4 {
            assert(path[i] == t[i - 4]);
            assert(t.contains(t[i - 4]));
        }
    }
    law_c_string_holds_text(path);
}

/// The name of a listed volume, with or without a separator at its end, always
/// gives a path that can be opened: asking for its extents is no error.
pub proof fn law_listed_volume_can_be_asked(buffer: Seq<u16>)
    ensures
        !has_inner_nul(encode(volume_path(listed_name(buffer)))),
        !has_inner_nul(encode(volume_path(listed_name(buffer) + "\\"@))),
{
    reveal_strlit("\\");
    lemma_first_nul_bounds(buffer);
    let u = buffer.take(first_nul(buffer));
    lemma_decode_without_nul(u);
    lemma_trimmed_without_nul(decode(u), false);
    let name = listed_name(buffer);
    lemma_volume_path_without_nul(name);
    let long = name + "\\"@;
    assert forall|i: int| 0 <= i < long.len() implies #[trigger] long[i] != '\0' by {
        if i < name.len() {
            assert(name.contains(name[i]));
            assert(long[i] == name[i]);
        }
    }
    lemma_volume_path_without_nul(long);
}

/// What VSS knows of one snapshot: the volume it was taken of, and the device
/// that holds it.
pub struct SnapshotProperties {
    pub original_volume_name: Vec<u16>,
    pub snapshot_device_object: Vec<u16>,
}

/// A set of VSS snapshots: what is known of each, in the order in which they
/// were taken, `None` where VSS did not say. Nothing is left of the set once it
/// is finished.
pub struct VssSnapshot {
    pub snapshots: Option<Vec<Option<SnapshotProperties>>>,
}

/// The snapshot was taken of the volume with the key.
pub open spec fn taken_of(s: Option<SnapshotProperties>, key: Seq<char>) -> bool {
    s matches Some(p) && volume_key(decode(p.original_volume_name@)) == key
}

/// The path of the device that holds the snapshot.
pub open spec fn device_of(p: SnapshotProperties) -> Seq<char> {
    trimmed_end(decode(p.snapshot_device_object@), false)
}

/// The device of the first of the snapshots that was taken of the volume with
/// the key.
pub open spec fn first_device(s: Seq<Option<SnapshotProperties>>, key: Seq<char>) -> Option<
    Seq<char>,
>
    decreases s.len(),
{
    if s.len() == 0 {
        None
    } else if taken_of(s[0], key) {
        Some(device_of(s[0]->0))
    } else {
        first_device(s.skip(1), key)
    }
}

impl VssSnapshot {
    /// The shadow copy device path for a volume.
    pub open spec fn shadow_path(&self, volume_name: Seq<char>) -> Option<Seq<char>> {
        match self.snapshots {
            Some(s) => first_device(s@, volume_key(volume_name)),
            None => None,
        }
    }

    /// Gets the shadow copy device path for a volume by its original volume name.
    /// Volume names can differ in prefix (`\\.\` vs `\\?\`) between those that
    /// Windows lists and VSS; we normalize by comparing the Volume{guid} part only.
    pub fn get_shadow_path(&self, volume_name: &str) -> (r: Option<String>)
        ensures
            match r {
                Some(p) => self.shadow_path(volume_name@) == Some(p@),
                None => self.shadow_path(volume_name@) is None,
            },
    {
        match &self.snapshots {
            Some(s) => {
                let wanted = normalize_volume_name_for_match(volume_name);
                assert(s@.skip(0) =~= s@);
                for i in 0..s.len()
                    invariant
                        wanted@ == volume_key(volume_name@),
                        first_device(s@, wanted@) == first_device(
                            s@.skip(i as int),
                            wanted@,
                        ),
                        self.shadow_path(volume_name@) == first_device(s@, wanted@),
                {
                    assert(s@.skip(i as int).skip(1) =~= s@.skip(i + 1));
                    assert(s@.skip(i as int)[0] == s@[i as int]);
                    if let Some(props) = &s[i] {
                        let orig = lossy_text(props.original_volume_name.as_slice());
                        let key = normalize_volume_name_for_match(orig.as_str());
                        if same(key.as_str(), wanted.as_str()) {
                            let device = lossy_text(props.snapshot_device_object.as_slice());
                            let chars = chars_of(device.as_str());
                            return Some(string_of(trim_end(chars.as_slice(), false)));
                        }
                    }
                }
                None
            },
            None => None,
        }
    }
}

/// A volume has a shadow copy device path if and only if a snapshot was taken
/// of it; the path is then that of the first such snapshot.
pub proof fn law_shadow_path_is_of_first_snapshot(s: Seq<Option<SnapshotProperties>>, key: Seq<char>)
    ensures
        match first_device(s, key) {
            Some(path) => exists|i: int|
                {
                    &&& 0 <= i < s.len()
                    &&& #[trigger] taken_of(s[i], key)
                    &&& path == device_of(s[i]->0)
                    &&& forall|j: int| 0 <= j < i ==> !taken_of(#[trigger] s[j], key)
                },
            None => forall|i: int| 0 <= i < s.len() ==> !taken_of(#[trigger] s[i], key),
        },
    decreases s.len(),
{
    if s.len() > 0 {
        let rest = s.skip(1);
        law_shadow_path_is_of_first_snapshot(rest, key);
        if taken_of(s[0], key) {
            assert(taken_of(s[0], key));
        } else if first_device(rest, key) is Some {
            let i = choose|i: int|
                {
                    &&& 0 <= i < rest.len()
                    &&& #[trigger] taken_of(rest[i], key)
                    &&& first_device(rest, key) == Some(device_of(rest[i]->0))
                    &&& forall|j: int| 0 <= j < i ==> !taken_of(#[trigger] rest[j], key)
                };
            assert(s[i + 1] == rest[i]);
            assert(taken_of(s[i + 1], key));
            assert forall|j: int| 0 <= j < i + 1 implies !taken_of(#[trigger] s[j], key) by {
                if j > 0 {
                    assert(s[j] == rest[j - 1]);
                }
            }
        } else {
            assert forall|i: int| 0 <= i < s.len() implies !taken_of(#[trigger] s[i], key) by {
                if i > 0 {
                    assert(s[i] == rest[i - 1]);
                }
            }
        }
    }
}

/// A volume of a disk, and what it gave when it was asked for its extents.
pub struct DiskVolume {
    pub name: String,
    pub answer: Option<[u8; EXTENTS_BUFFER_SIZE]>,
}

impl VssSnapshot {
    /// The mapping from the starting offsets of the volumes to their shadow
    /// paths: a volume without shadow path is left out, and so is one whose
    /// place on the disk is not known; one whose path cannot be opened is an
    /// error.
    pub open spec fn shadow_map(&self, volumes: Seq<DiskVolume>) -> Result<
        Map<u64, Seq<char>>,
        ErrorView,
    >
        decreases volumes.len(),
    {
        if volumes.len() == 0 {
            Ok(Map::empty())
        } else {
            let v = volumes.last();
            let p = encode(volume_path(v.name@));
            match (self.shadow_map(volumes.drop_last()), self.shadow_path(v.name@)) {
                (Ok(_), Some(_)) if has_inner_nul(p) => Err(ErrorView::Other(nul_text(p))),
                (Ok(m), Some(path)) => match first_extent(v.answer) {
                    Some((_, offset)) => Ok(m.insert(offset, path)),
                    None => Ok(m),
                },
                (r, _) => r,
            }
        }
    }

    /// Builds a mapping from partition starting offset to shadow path (if the
    /// partition has one).
    pub fn build_partition_shadow_map(&self, volumes: &[DiskVolume]) -> (r: Result<
        HashMap<u64, String>,
        DiskCloneError,
    >)
        ensures
            match r {
                Ok(m) => self.shadow_map(volumes@) == Ok::<Map<u64, Seq<char>>, ErrorView>(
                    m@.map_values(|s: String| s@),
                ),
                Err(e) => self.shadow_map(volumes@) == Err::<Map<u64, Seq<char>>, ErrorView>(e@),
            },
    {
        let mut offset_to_path: HashMap<u64, String> = HashMap::new();
        assert(offset_to_path@.map_values(|s: String| s@) =~= Map::<u64, Seq<char>>::empty());
        for i in 0..volumes.len()
            invariant
                self.shadow_map(volumes@.take(i as int)) == Ok::<Map<u64, Seq<char>>, ErrorView>(
                    offset_to_path@.map_values(|s: String| s@),
                ),
        {
            let ghost init = volumes@.take(i + 1).drop_last();
            assert(init =~= volumes@.take(i as int));
            let ghost before = offset_to_path@;
            let volume = &volumes[i];
            if let Some(shadow_path) = self.get_shadow_path(volume.name.as_str()) {
                match get_volume_disk_extents(volume.name.as_str(), &volume.answer) {
                    Ok(Some((_, offset))) => {
                        let ghost path = shadow_path@;
                        offset_to_path.insert(offset, shadow_path);
                        assert(offset_to_path@.map_values(|s: String| s@) =~= before.map_values(
                            |s: String| s@,
                        ).insert(offset, path));
                    },
                    Ok(None) => {},
                    Err(e) => {
                        proof {
                            self.lemma_error_stays(volumes@, i + 1);
                        }
                        return Err(e);
                    },
                }
            }
        }
        assert(volumes@.take(volumes@.len() as int) =~= volumes@);
        Ok(offset_to_path)
    }

    /// The offsets in the mapping are those at which a volume with a shadow
    /// copy starts, and each leads to the shadow path of such a volume.
    pub proof fn law_shadow_map_is_of_volumes(&self, volumes: Seq<DiskVolume>, offset: u64)
        requires
            self.shadow_map(volumes) is Ok,
        ensures
            self.shadow_map(volumes)->Ok_0.contains_key(offset) <==> exists|i: int|
                0 <= i < volumes.len() && self.maps(#[trigger] volumes[i], offset),
            self.shadow_map(volumes)->Ok_0.contains_key(offset) ==> exists|i: int|
                0 <= i < volumes.len() && self.maps(#[trigger] volumes[i], offset)
                    && self.shadow_path(volumes[i].name@) == Some(
                    self.shadow_map(volumes)->Ok_0[offset],
                ),
        decreases volumes.len(),
    {
        if volumes.len() > 0 {
            let init = volumes.drop_last();
            let n = volumes.len() - 1;
            self.law_shadow_map_is_of_volumes(init, offset);
            let m = self.shadow_map(init)->Ok_0;
            if exists|i: int| 0 <= i < n && self.maps(#[trigger] volumes[i], offset) {
                let i = choose|i: int| 0 <= i < n && self.maps(#[trigger] volumes[i], offset);
                assert(self.maps(init[i], offset));
            }
            if m.contains_key(offset) {
                let i = choose|i: int|
                    0 <= i < init.len() && self.maps(#[trigger] init[i], offset)
                        && self.shadow_path(init[i].name@) == Some(m[offset]);
                assert(self.maps(volumes[i], offset));
            }
            if self.maps(volumes[n], offset) {
                assert(self.shadow_map(volumes)->Ok_0[offset] == self.shadow_path(
                    volumes[n].name@,
                )->0);
            }
        }
    }

    /// The volume has a shadow copy and starts at the offset.
    pub open spec fn maps(&self, v: DiskVolume, offset: u64) -> bool {
        &&& self.shadow_path(v.name@) is Some
        &&& first_extent(v.answer) matches Some((_, o)) && o == offset
    }

    proof fn lemma_error_stays(&self, volumes: Seq<DiskVolume>, n: int)
        requires
            0 <= n <= volumes.len(),
            self.shadow_map(volumes.take(n)) is Err,
        ensures
            self.shadow_map(volumes) == self.shadow_map(volumes.take(n)),
        decreases volumes.len() - n,
    {
        if n < volumes.len() {
            assert(volumes.take(n + 1).drop_last() =~= volumes.take(n));
            self.lemma_error_stays(volumes, n + 1);
        } else {
            assert(volumes.take(n) =~= volumes);
        }
    }

    /// Whether there is a set of snapshots that has to be finished.
    pub fn is_open(&self) -> (b: bool)
        ensures
            b == (self.snapshots is Some),
    {
        self.snapshots.is_some()
    }

    /// Finishes the backup and releases VSS resources. `completed` is what
    /// completing the backup gave, and is of no account where nothing is open.
    pub fn finish(self, completed: Result<(), String>) -> (r: Result<(), DiskCloneError>)
        ensures
            match r {
                Ok(_) => self.snapshots is None || completed is Ok,
                Err(e) => self.snapshots is Some && (completed matches Err(m) && e@
                    == ErrorView::Vss("backup_complete: "@ + m@)),
            },
    {
        if self.is_open() {
            if let Err(m) = completed {
                return Err(vss_error("backup_complete: ", m.as_str()));
            }
        }
        Ok(())
    }
}

/// The error of a step of VSS.
pub(crate) fn vss_error(step: &str, cause: &str) -> (e: DiskCloneError)
    ensures
        e@ == ErrorView::Vss(step@ + cause@),
{
    let mut m = step.to_owned();
    m.append(cause);
    DiskCloneError::Vss(m)
}

} // verus!

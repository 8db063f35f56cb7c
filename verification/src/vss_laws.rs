//! That volumes, their places on the disk and their shadow copies belong
//! together.

use vstd::prelude::*;

use crate::disk_laws::{holds_number, law_eight_bytes_are_read_back, law_four_bytes_are_read_back};
use crate::error::ErrorView;
use crate::text::{trimmed, trimmed_end, trimmed_start, upper};
use crate::text_laws::{all_slashes, is_slash, law_both_ends_are_trimmed, law_cut_starts_at_first_place, law_end_is_trimmed};
use crate::vss::{device_of, first_device, first_extent, law_listed_volume_can_be_asked, law_shadow_path_is_of_first_snapshot, listed_name, taken_of, texts, volume_key, volume_offset, volume_path, volumes_on, DiskVolume, ListedVolume, SnapshotProperties, VssSnapshot, EXTENTS_BUFFER_SIZE};
use crate::wide::{decode, encode, first_nul, has_inner_nul, law_decode_of_encode, lemma_encode_without_nul, lemma_first_nul, nul_text};

verus! {

proof fn lemma_start_of_longer(s: Seq<char>, c: char)
    requires
        is_slash(c, true),
    ensures
        trimmed_start(s, true).len() > 0 ==> trimmed_start(s.push(c), true) == trimmed_start(
            s,
            true,
        ).push(c),
        trimmed_start(s, true).len() == 0 ==> trimmed_start(s.push(c), true).len() == 0,
    decreases s.len(),
{
    let t = s.push(c);
    if s.len() == 0 {
        assert(t.drop_first().len() == 0);
        assert(trimmed_start(t.drop_first(), true).len() == 0);
    } else {
        assert(t.first() == s.first());
        assert(t.drop_first() =~= s.drop_first().push(c));
        lemma_start_of_longer(s.drop_first(), c);
    }
}

/// Separators round a volume name make no difference to what it is compared
/// by.
pub proof fn law_key_is_without_separators(name: Seq<char>, c: char)
    requires
        c == '\\' || c == '/',
    ensures
        volume_key(seq![c] + name) == volume_key(name),
        volume_key(name.push(c)) == volume_key(name),
{
    let before = seq![c] + name;
    assert(before.drop_first() =~= name);
    assert(before.first() == c);
    assert(trimmed(before, true) == trimmed(name, true));
    lemma_start_of_longer(name, c);
    let s = trimmed_start(name, true);
    if s.len() > 0 {
        assert(s.push(c).drop_last() =~= s);
        assert(s.push(c).last() == c);
        assert(trimmed_end(s.push(c), true) == trimmed_end(s, true));
    } else {
        assert(trimmed_start(name.push(c), true) =~= s);
    }
    assert(trimmed(name.push(c), true) == trimmed(name, true));
}

/// What a volume name is compared by is the upper case of the name without the
/// separators round it. What stands before the first `VOLUME{` is cut off, and
/// nothing else.
pub proof fn law_key_starts_at_guid(name: Seq<char>) -> (r: (Seq<char>, Seq<char>, Seq<char>, Seq<char>))
    ensures
        name == r.0 + r.1 + r.2,
        all_slashes(r.0, true),
        all_slashes(r.2, true),
        r.1.len() > 0 ==> !is_slash(r.1[0], true) && !is_slash(r.1.last(), true),
        upper(r.1) == r.3 + volume_key(name),
        r.3.len() > 0 ==> "VOLUME{"@.is_prefix_of(volume_key(name)),
        forall|i: int|
            0 <= i < r.3.len() && i + "VOLUME{"@.len() <= upper(r.1).len() ==> #[trigger] upper(
                r.1,
            ).subrange(i, i + "VOLUME{"@.len()) != "VOLUME{"@,
        !"VOLUME{"@.is_prefix_of(volume_key(name)) ==> forall|i: int|
            0 <= i && i + "VOLUME{"@.len() <= upper(r.1).len() ==> #[trigger] upper(
                r.1,
            ).subrange(i, i + "VOLUME{"@.len()) != "VOLUME{"@,
{
    reveal_strlit("VOLUME{");
    let (head, tail) = law_both_ends_are_trimmed(name, true);
    let s = trimmed(name, true);
    let cut = law_cut_starts_at_first_place(upper(s), "VOLUME{"@);
    (head, s, tail, cut)
}

/// A volume is opened as a device under its own name, without the backslashes
/// round it, whichever of the two prefixes it is listed with.
pub proof fn law_volume_is_opened_under_its_name(name: Seq<char>) -> (r: (
    Seq<char>,
    Seq<char>,
    Seq<char>,
))
    ensures
        name == r.0 + r.1 + r.2,
        all_slashes(r.0, false),
        all_slashes(r.2, false),
        r.1.len() > 0 ==> r.1[0] != '\\' && r.1.last() != '\\',
        volume_path("\\\\?\\"@ + name) == "\\\\.\\"@ + r.1,
        volume_path("\\\\.\\"@ + name) == "\\\\.\\"@ + r.1,
        !"\\\\?\\"@.is_prefix_of(name) && !"\\\\.\\"@.is_prefix_of(name) ==> volume_path(name)
            == "\\\\.\\"@ + r.1,
{
    reveal_strlit("\\\\?\\");
    reveal_strlit("\\\\.\\");
    let a = "\\\\?\\"@ + name;
    let b = "\\\\.\\"@ + name;
    assert(a.take(4) =~= "\\\\?\\"@);
    assert(b.take(4) =~= "\\\\.\\"@);
    assert("\\\\?\\"@.is_prefix_of(a));
    assert("\\\\.\\"@.is_prefix_of(b));
    assert(a.skip(4) =~= name);
    assert(b.skip(4) =~= name);
    let (head, tail) = law_both_ends_are_trimmed(name, false);
    (head, trimmed(name, false), tail)
}

/// The place of a volume is read out of its answer as it was written there: the
/// number of extents in bytes 0 to 4, the disk in bytes 8 to 12 and the offset
/// in bytes 16 to 24. Without an answer or extents it has none.
pub proof fn law_extent_is_read_back(
    b: [u8; EXTENTS_BUFFER_SIZE],
    extents: u32,
    disk: u32,
    offset: u64,
)
    requires
        holds_number(b@, 0, 4, extents as int),
        holds_number(b@, 8, 4, disk as int),
        holds_number(b@, 16, 8, offset as int),
    ensures
        extents > 0 ==> first_extent(Some(b)) == Some((disk, offset)) && volume_offset(Some(b))
            == offset,
        extents == 0 ==> first_extent(Some(b)) is None && volume_offset(Some(b)) == 0,
        first_extent(None) is None,
        volume_offset(None) == 0,
{
    law_four_bytes_are_read_back(b@, 0, extents);
    law_four_bytes_are_read_back(b@, 8, disk);
    law_eight_bytes_are_read_back(b@, 16, offset);
}

/// The name of a listed volume is what stands in its buffer before the first
/// nul, without the backslashes at its end; what stands behind the nul makes no
/// difference.
pub proof fn law_listed_name_ends_at_nul(u: Seq<u16>, rest: Seq<u16>) -> (tail: Seq<char>)
    requires
        forall|i: int| 0 <= i < u.len() ==> #[trigger] u[i] != 0,
    ensures
        decode(u) == listed_name(u) + tail,
        listed_name(u + seq![0u16] + rest) == listed_name(u),
        all_slashes(tail, false),
        listed_name(u).len() > 0 ==> listed_name(u).last() != '\\',
{
    let long = u + (seq![0u16] + rest);
    lemma_first_nul(u, seq![0u16] + rest);
    lemma_first_nul(u, seq![]);
    assert(u + Seq::<u16>::empty() =~= u);
    assert(u + seq![0u16] + rest =~= long);
    assert(first_nul(seq![0u16] + rest) == 0);
    assert(long.take(u.len() as int) =~= u);
    assert(u.take(u.len() as int) =~= u);
    law_end_is_trimmed(decode(u), false)
}

/// A name that was written to the buffer is read back, without the backslashes
/// at its end.
pub proof fn law_listed_name_is_read_back(name: Seq<char>, rest: Seq<u16>) -> (tail: Seq<char>)
    requires
        !name.contains('\0'),
    ensures
        name == listed_name(encode(name) + seq![0u16] + rest) + tail,
        name == listed_name(encode(name)) + tail,
        all_slashes(tail, false),
        ({
            let r = listed_name(encode(name));
            r.len() > 0 ==> r.last() != '\\'
        }),
{
    lemma_encode_without_nul(name);
    law_decode_of_encode(name);
    law_listed_name_ends_at_nul(encode(name), rest)
}

/// The volumes of a disk are found one by one: the list of them is that of the
/// first volumes and behind it that of the others.
pub proof fn law_volumes_are_found_one_by_one(
    a: Seq<ListedVolume>,
    b: Seq<ListedVolume>,
    disk_number: u32,
)
    ensures
        volumes_on(a + b, disk_number) == volumes_on(a, disk_number) + volumes_on(b, disk_number),
    decreases b.len(),
{
    if b.len() == 0 {
        assert(a + b =~= a);
        assert(volumes_on(a, disk_number) + volumes_on(b, disk_number) =~= volumes_on(
            a,
            disk_number,
        ));
    } else {
        assert((a + b).drop_last() =~= a + b.drop_last());
        assert((a + b).last() == b.last());
        law_volumes_are_found_one_by_one(a, b.drop_last(), disk_number);
        assert(volumes_on(a + b, disk_number) =~= volumes_on(a, disk_number) + volumes_on(
            b,
            disk_number,
        ));
    }
}

/// A volume is one of a disk if and only if its first extent lies there; it is
/// then listed under its name with one backslash behind it.
pub proof fn law_volume_is_on_the_disk_of_its_extent(v: ListedVolume, disk_number: u32)
    ensures
        (exists|offset: u64| #[trigger]
            at_offset(first_extent(v.answer), disk_number, offset)) ==> volumes_on(
            seq![v],
            disk_number,
        ) == seq![listed_name(v.name@).push('\\')],
        !(exists|offset: u64| #[trigger]
            at_offset(first_extent(v.answer), disk_number, offset)) ==> volumes_on(
            seq![v],
            disk_number,
        ).len() == 0,
{
    reveal_strlit("\\");
    reveal_with_fuel(volumes_on, 2);
    let s = seq![v];
    assert(s.drop_last() =~= Seq::<ListedVolume>::empty());
    assert(s.last() == v);
    law_listed_volume_can_be_asked(v.name@);
    assert(listed_name(v.name@) + "\\"@ =~= listed_name(v.name@).push('\\'));
    if let Some((d, o)) = first_extent(v.answer) {
        assert(at_offset(first_extent(v.answer), d, o));
    }
    if exists|offset: u64| #[trigger] at_offset(first_extent(v.answer), disk_number, offset) {
        assert(volumes_on(s, disk_number) =~= seq![listed_name(v.name@).push('\\')]);
    }
}

/// The extent lies on the disk, at the offset.
pub open spec fn at_offset(extent: Option<(u32, u64)>, disk: u32, offset: u64) -> bool {
    extent == Some((disk, offset))
}

/// The snapshot is known, and was taken of a volume that is compared by the
/// same text as the name.
pub open spec fn is_snapshot_of(s: Option<SnapshotProperties>, name: Seq<char>) -> bool {
    match s {
        Some(p) => volume_key(decode(p.original_volume_name@)) == volume_key(name),
        None => false,
    }
}

/// The path is the device of the snapshot, without the backslashes at its end.
pub open spec fn is_device(p: SnapshotProperties, path: Seq<char>) -> bool {
    &&& path.len() > 0 ==> path.last() != '\\'
    &&& exists|tail: Seq<char>|
        decode(p.snapshot_device_object@) == #[trigger] (path + tail) && all_slashes(tail, false)
}

/// The shadow path of a volume is the device of the first snapshot that was
/// taken of it; it has none if there is no such snapshot, or no set of them.
pub proof fn law_shadow_path_is_of_its_volume(set: VssSnapshot, name: Seq<char>)
    ensures
        match (set.shadow_path(name), set.snapshots) {
            (Some(path), Some(s)) => exists|i: int|
                {
                    &&& 0 <= i < s@.len()
                    &&& is_snapshot_of(#[trigger] s@[i], name)
                    &&& is_device(s@[i]->0, path)
                    &&& forall|j: int| 0 <= j < i ==> !is_snapshot_of(#[trigger] s@[j], name)
                },
            (Some(_), None) => false,
            (None, Some(s)) => forall|i: int|
                0 <= i < s@.len() ==> !is_snapshot_of(#[trigger] s@[i], name),
            (None, None) => true,
        },
{
    if let Some(s) = set.snapshots {
        let key = volume_key(name);
        law_shadow_path_is_of_first_snapshot(s@, key);
        match first_device(s@, key) {
            Some(path) => {
                let i = choose|i: int|
                    {
                        &&& 0 <= i < s@.len()
                        &&& #[trigger] taken_of(s@[i], key)
                        &&& path == device_of(s@[i]->0)
                        &&& forall|j: int| 0 <= j < i ==> !taken_of(#[trigger] s@[j], key)
                    };
                let device = decode(s@[i]->0.snapshot_device_object@);
                let tail = law_end_is_trimmed(device, false);
                assert(device == path + tail);
                assert(is_device(s@[i]->0, path));
                assert(is_snapshot_of(s@[i], name));
                assert forall|j: int| 0 <= j < i implies !is_snapshot_of(
                    #[trigger] s@[j],
                    name,
                ) by {
                    assert(!taken_of(s@[j], key));
                }
            },
            None => {
                assert forall|i: int| 0 <= i < s@.len() implies !is_snapshot_of(
                    #[trigger] s@[i],
                    name,
                ) by {
                    assert(!taken_of(s@[i], key));
                }
            },
        }
    }
}

/// The volume has a shadow copy and its first extent starts at the offset.
pub open spec fn copied_at(set: VssSnapshot, v: DiskVolume, offset: u64) -> bool {
    &&& set.shadow_path(v.name@) is Some
    &&& match first_extent(v.answer) {
        Some((_, o)) => o == offset,
        None => false,
    }
}

/// The offset at which a volume with a shadow copy starts leads to the shadow
/// path of that volume; of several at one offset, to that of the last.
pub proof fn law_offset_leads_to_shadow_path(
    set: VssSnapshot,
    volumes: Seq<DiskVolume>,
    i: int,
    offset: u64,
)
    requires
        set.shadow_map(volumes) is Ok,
        0 <= i < volumes.len(),
        copied_at(set, volumes[i], offset),
        forall|j: int| i < j < volumes.len() ==> !copied_at(set, #[trigger] volumes[j], offset),
    ensures
        set.shadow_map(volumes)->Ok_0.contains_key(offset),
        set.shadow_path(volumes[i].name@) == Some(set.shadow_map(volumes)->Ok_0[offset]),
    decreases volumes.len(),
{
    let n = volumes.len() - 1;
    let init = volumes.drop_last();
    if i < n {
        assert forall|j: int| i < j < init.len() implies !copied_at(
            set,
            #[trigger] init[j],
            offset,
        ) by {
            assert(init[j] == volumes[j]);
        }
        assert(init[i] == volumes[i]);
        law_offset_leads_to_shadow_path(set, init, i, offset);
        assert(!copied_at(set, volumes[n], offset));
    }
}

/// Nothing but volumes with a shadow copy is in the mapping.
pub proof fn law_every_offset_is_of_a_volume(
    set: VssSnapshot,
    volumes: Seq<DiskVolume>,
    offset: u64,
)
    requires
        set.shadow_map(volumes) is Ok,
        set.shadow_map(volumes)->Ok_0.contains_key(offset),
    ensures
        exists|i: int| 0 <= i < volumes.len() && copied_at(set, #[trigger] volumes[i], offset),
    decreases volumes.len(),
{
    if volumes.len() > 0 {
        let n = volumes.len() - 1;
        let init = volumes.drop_last();
        if copied_at(set, volumes[n], offset) {
        } else {
            law_every_offset_is_of_a_volume(set, init, offset);
            let i = choose|i: int| 0 <= i < init.len() && copied_at(set, #[trigger] init[i], offset);
            assert(volumes[i] == init[i]);
        }
    }
}

/// The volume has a shadow copy, and a name under which it cannot be opened.
pub open spec fn cannot_be_opened(set: VssSnapshot, v: DiskVolume) -> bool {
    set.shadow_path(v.name@) is Some && has_inner_nul(encode(volume_path(v.name@)))
}

/// There is no mapping if and only if a volume with a shadow copy cannot be
/// opened; the error is that of the first.
pub proof fn law_mapping_fails_on_first_bad_name(set: VssSnapshot, volumes: Seq<DiskVolume>)
    ensures
        match set.shadow_map(volumes) {
            Ok(_) => forall|i: int|
                0 <= i < volumes.len() ==> !cannot_be_opened(set, #[trigger] volumes[i]),
            Err(e) => exists|i: int|
                {
                    &&& 0 <= i < volumes.len()
                    &&& cannot_be_opened(set, #[trigger] volumes[i])
                    &&& e == ErrorView::Other(nul_text(encode(volume_path(volumes[i].name@))))
                    &&& forall|j: int| 0 <= j < i ==> !cannot_be_opened(set, #[trigger] volumes[j])
                },
        },
    decreases volumes.len(),
{
    if volumes.len() > 0 {
        let n = volumes.len() - 1;
        let init = volumes.drop_last();
        law_mapping_fails_on_first_bad_name(set, init);
        match set.shadow_map(init) {
            Ok(_) => {
                assert forall|i: int| 0 <= i < n implies !cannot_be_opened(
                    set,
                    #[trigger] volumes[i],
                ) by {
                    assert(init[i] == volumes[i]);
                }
                assert(volumes.last() == volumes[n]);
            },
            Err(e) => {
                let i = choose|i: int|
                    {
                        &&& 0 <= i < init.len()
                        &&& cannot_be_opened(set, #[trigger] init[i])
                        &&& e == ErrorView::Other(nul_text(encode(volume_path(init[i].name@))))
                        &&& forall|j: int| 0 <= j < i ==> !cannot_be_opened(set, #[trigger] init[j])
                    };
                assert(volumes[i] == init[i]);
                assert forall|j: int| 0 <= j < i implies !cannot_be_opened(
                    set,
                    #[trigger] volumes[j],
                ) by {
                    assert(init[j] == volumes[j]);
                }
                assert(set.shadow_map(volumes) == set.shadow_map(init));
            },
        }
    }
}

/// Each of the texts is seen as it is.
pub proof fn law_view_of_texts(v: Seq<String>)
    ensures
        texts(v).len() == v.len(),
        forall|i: int| 0 <= i < v.len() ==> #[trigger] texts(v)[i] == v[i]@,
{
}

} // verus!

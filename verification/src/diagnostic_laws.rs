//! What the report on an image says, and when it warns.

use vstd::prelude::*;
use vstd::utf8::{decode_utf8, valid_utf8};

use crate::diagnostic::{gpt_lines, gpt_signature, mbr_lines, partition_lines, report, shadow_lines};
use crate::disk::PartitionInfo;
use crate::stream::boot_signature;
use crate::text::{decimal, hex4};

verus! {

broadcast use vstd::seq::group_seq_axioms;

/// The signature of a boot sector is valid if and only if it ends in the bytes
/// 55 and AA; else each of the two shows in it.
pub proof fn law_boot_signature(sector: Seq<u8>)
    requires
        sector.len() >= 512,
    ensures
        boot_signature(sector) == 0xAA55 <==> sector[510] == 0x55 && sector[511] == 0xAA,
        boot_signature(sector) % 256 == sector[510],
        boot_signature(sector) / 256 == sector[511],
{
}

/// The shadow copies are listed in the given order, each that is there on a
/// line of its own with its offset and its path.
pub proof fn law_shadow_copies_are_listed(
    shadows: Map<u64, String>,
    a: Seq<u64>,
    b: Seq<u64>,
    offset: u64,
)
    ensures
        shadow_lines(shadows, a + b) == shadow_lines(shadows, a) + shadow_lines(shadows, b),
        shadows.contains_key(offset) ==> shadow_lines(shadows, seq![offset]) == "  offset "@
            + decimal(offset as nat) + " -> "@ + shadows[offset]@ + "\n"@,
        !shadows.contains_key(offset) ==> shadow_lines(shadows, seq![offset]).len() == 0,
    decreases b.len(),
{
    reveal_with_fuel(shadow_lines, 2);
    let one = seq![offset];
    assert(one.drop_last() =~= Seq::<u64>::empty());
    assert(one.last() == offset);
    if shadows.contains_key(offset) {
        assert(shadow_lines(shadows, one) =~= "  offset "@ + decimal(offset as nat) + " -> "@
            + shadows[offset]@ + "\n"@);
    }
    if b.len() == 0 {
        assert(a + b =~= a);
        assert(shadow_lines(shadows, a) + shadow_lines(shadows, b) =~= shadow_lines(shadows, a));
    } else {
        assert((a + b).drop_last() =~= a + b.drop_last());
        assert((a + b).last() == b.last());
        law_shadow_copies_are_listed(shadows, a, b.drop_last(), offset);
        assert(shadow_lines(shadows, a + b) =~= shadow_lines(shadows, a) + shadow_lines(
            shadows,
            b,
        ));
    }
}

/// The partitions are listed in their order, each that holds data on a line of
/// its own with its number, offset and length, and whether a shadow copy starts
/// where it does.
pub proof fn law_partitions_are_listed(
    shadows: Map<u64, String>,
    a: Seq<PartitionInfo>,
    b: Seq<PartitionInfo>,
    p: PartitionInfo,
)
    ensures
        partition_lines(shadows, a + b) == partition_lines(shadows, a) + partition_lines(
            shadows,
            b,
        ),
        p.is_used && p.partition_length > 0 ==> partition_lines(shadows, seq![p]) == "  Part "@
            + decimal(p.partition_number as nat) + ": offset="@ + decimal(p.starting_offset as nat)
            + " len="@ + decimal(p.partition_length as nat) + " shadow="@ + (
        if shadows.contains_key(p.starting_offset) {
            "true"@
        } else {
            "false"@
        }) + "\n"@,
        !(p.is_used && p.partition_length > 0) ==> partition_lines(shadows, seq![p]).len() == 0,
    decreases b.len(),
{
    reveal_with_fuel(partition_lines, 2);
    let one = seq![p];
    assert(one.drop_last() =~= Seq::<PartitionInfo>::empty());
    assert(one.last() == p);
    if p.is_used && p.partition_length > 0 {
        assert(partition_lines(shadows, one) =~= "  Part "@ + decimal(p.partition_number as nat)
            + ": offset="@ + decimal(p.starting_offset as nat) + " len="@ + decimal(
            p.partition_length as nat,
        ) + " shadow="@ + (if shadows.contains_key(p.starting_offset) {
            "true"@
        } else {
            "false"@
        }) + "\n"@);
    }
    if b.len() == 0 {
        assert(a + b =~= a);
        assert(partition_lines(shadows, a) + partition_lines(shadows, b) =~= partition_lines(
            shadows,
            a,
        ));
    } else {
        assert((a + b).drop_last() =~= a + b.drop_last());
        assert((a + b).last() == b.last());
        law_partitions_are_listed(shadows, a, b.drop_last(), p);
        assert(partition_lines(shadows, a + b) =~= partition_lines(shadows, a) + partition_lines(
            shadows,
            b,
        ));
    }
}

/// The report warns of the first sector if and only if all of it was read and
/// it does not end in the bytes 55 and AA. It says nothing of less than a
/// sector.
pub proof fn law_report_warns_of_boot_sector(mbr: Seq<u8>)
    ensures
        mbr.len() < 512 ==> mbr_lines(mbr).len() == 0,
        mbr.len() >= 512 && mbr[510] == 0x55 && mbr[511] == 0xAA ==> mbr_lines(mbr)
            == "MBR signature: 0x"@ + hex4(0xAA55) + " (expected 0xAA55)\n"@,
        mbr.len() >= 512 && !(mbr[510] == 0x55 && mbr[511] == 0xAA) ==> mbr_lines(mbr)
            == "MBR signature: 0x"@ + hex4((256 * mbr[511] + mbr[510]) as u16)
            + " (expected 0xAA55)\n"@ + "  WARNING: Invalid MBR signature!\n"@,
{
    if mbr.len() >= 512 && mbr[510] == 0x55 && mbr[511] == 0xAA {
        assert(mbr_lines(mbr) =~= "MBR signature: 0x"@ + hex4(0xAA55) + " (expected 0xAA55)\n"@);
    }
}

/// The text of the GPT header is that of its first eight bytes; the report
/// warns of it if and only if eight bytes were read and their text is not `EFI
/// PART`. It says nothing of fewer bytes.
pub proof fn law_report_warns_of_gpt_header(gpt: Seq<u8>)
    ensures
        gpt.len() < 8 ==> gpt_lines(gpt).len() == 0,
        gpt.len() >= 8 && valid_utf8(gpt.take(8)) && decode_utf8(gpt.take(8)) == "EFI PART"@
            ==> gpt_lines(gpt) == "GPT signature: \""@ + "EFI PART"@
            + "\" (expected \"EFI PART\")\n"@,
        gpt.len() >= 8 && valid_utf8(gpt.take(8)) && decode_utf8(gpt.take(8)) != "EFI PART"@
            ==> gpt_lines(gpt) == "GPT signature: \""@ + decode_utf8(gpt.take(8))
            + "\" (expected \"EFI PART\")\n"@ + "  WARNING: Invalid GPT signature!\n"@,
        gpt.len() >= 8 && !valid_utf8(gpt.take(8)) ==> gpt_lines(gpt) == "GPT signature: \""@
            + "???"@ + "\" (expected \"EFI PART\")\n"@ + "  WARNING: Invalid GPT signature!\n"@,
{
    reveal_strlit("???");
    reveal_strlit("EFI PART");
    if gpt.len() >= 8 {
        assert(gpt_signature(gpt) == "EFI PART"@ ==> gpt_lines(gpt) =~= "GPT signature: \""@
            + "EFI PART"@ + "\" (expected \"EFI PART\")\n"@);
        assert("???"@.len() != "EFI PART"@.len());
    }
}

/// The report counts the shadow copies and lists them, lists the partitions,
/// and ends with what there is to say of the first two sectors.
pub proof fn law_report_has_all_parts(
    shadows: Map<u64, String>,
    parts: Seq<PartitionInfo>,
    order: Seq<u64>,
    mbr: Seq<u8>,
    gpt: Seq<u8>,
)
    ensures
        report(shadows, parts, order, mbr, gpt)
            == "=== Image Builder Diagnostic ===\nShadow map ("@ + decimal(shadows.dom().len())
            + " entries):\n"@ + shadow_lines(shadows, order) + "Partitions:\n"@ + partition_lines(
            shadows,
            parts,
        ) + mbr_lines(mbr) + gpt_lines(gpt),
{
}

} // verus!

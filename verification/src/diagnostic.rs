//! A report on what an image is built from: the shadow copies and partitions
//! that are known, and whether the disk starts with a boot sector and a GPT
//! header. It helps to find out why an image shows no partitions.

use std::collections::HashMap;

use vstd::prelude::*;
use vstd::slice::slice_subrange;
use vstd::utf8::{decode_utf8, valid_utf8};

use crate::disk::PartitionInfo;
use crate::image_builder::ImageBuilder;
use crate::stream::{boot_signature, mbr_signature, BOOT_SIGNATURE};
use crate::text::{decimal, hex4, push_decimal, push_hex4, same};

verus! {

broadcast use vstd::std_specs::hash::group_hash_axioms;

/// The lines on the shadow copies at the given offsets.
pub open spec fn shadow_lines(shadows: Map<u64, String>, order: Seq<u64>) -> Seq<char>
    decreases order.len(),
{
    if order.len() == 0 {
        seq![]
    } else {
        let k = order.last();
        let init = shadow_lines(shadows, order.drop_last());
        if shadows.contains_key(k) {
            init + "  offset "@ + decimal(k as nat) + " -> "@ + shadows[k]@ + "\n"@
        } else {
            init
        }
    }
}

/// The word for a truth value.
pub open spec fn truth(b: bool) -> Seq<char> {
    if b {
        "true"@
    } else {
        "false"@
    }
}

/// The line on a partition.
pub open spec fn partition_line(shadows: Map<u64, String>, p: PartitionInfo) -> Seq<char> {
    "  Part "@ + decimal(p.partition_number as nat) + ": offset="@ + decimal(
        p.starting_offset as nat,
    ) + " len="@ + decimal(p.partition_length as nat) + " shadow="@ + truth(
        shadows.contains_key(p.starting_offset),
    ) + "\n"@
}

/// The lines on the partitions that hold data.
pub open spec fn partition_lines(shadows: Map<u64, String>, parts: Seq<PartitionInfo>) -> Seq<char>
    decreases parts.len(),
{
    if parts.len() == 0 {
        seq![]
    } else if parts.last().in_use() {
        partition_lines(shadows, parts.drop_last()) + partition_line(shadows, parts.last())
    } else {
        partition_lines(shadows, parts.drop_last())
    }
}

/// The lines on the first sector of the disk, if all of it was read.
pub open spec fn mbr_lines(mbr: Seq<u8>) -> Seq<char> {
    if mbr.len() < 512 {
        seq![]
    } else {
        let sig = boot_signature(mbr);
        "MBR signature: 0x"@ + hex4(sig) + " (expected 0xAA55)\n"@ + (if sig != BOOT_SIGNATURE {
            "  WARNING: Invalid MBR signature!\n"@
        } else {
            seq![]
        })
    }
}

/// The text that a GPT header starts with.
pub open spec fn gpt_signature(gpt: Seq<u8>) -> Seq<char> {
    let head = gpt.take(8);
    if valid_utf8(head) {
        decode_utf8(head)
    } else {
        "???"@
    }
}

/// The lines on the second sector of the disk, if its start was read.
pub open spec fn gpt_lines(gpt: Seq<u8>) -> Seq<char> {
    if gpt.len() < 8 {
        seq![]
    } else {
        let sig = gpt_signature(gpt);
        "GPT signature: \""@ + sig + "\" (expected \"EFI PART\")\n"@ + (if sig != "EFI PART"@ {
            "  WARNING: Invalid GPT signature!\n"@
        } else {
            seq![]
        })
    }
}

/// The report, with the shadow copies in the given order.
pub open spec fn report(
    shadows: Map<u64, String>,
    parts: Seq<PartitionInfo>,
    order: Seq<u64>,
    mbr: Seq<u8>,
    gpt: Seq<u8>,
) -> Seq<char> {
    "=== Image Builder Diagnostic ===\nShadow map ("@ + decimal(shadows.len()) + " entries):\n"@
        + shadow_lines(shadows, order) + "Partitions:\n"@ + partition_lines(shadows, parts)
        + mbr_lines(mbr) + gpt_lines(gpt)
}

/// `std::str::from_utf8`: the text of the bytes, if they are UTF-8.
#[verifier::external_body]
fn utf8_text(bytes: &[u8]) -> (r: Option<String>)
    ensures
        match r {
            Some(s) => valid_utf8(bytes@) && s@ == decode_utf8(bytes@),
            None => !valid_utf8(bytes@),
        },
{
    match std::str::from_utf8(bytes) {
        Ok(s) => Some(s.to_string()),
        Err(_) => None,
    }
}

fn push_shadow_lines(out: &mut String, shadows: &HashMap<u64, String>, order: &[u64])
    ensures
        final(out)@ == old(out)@ + shadow_lines(shadows@, order@),
{
    proof {
        assert(out@ + shadow_lines(shadows@, order@.take(0)) =~= out@);
    }
    for i in 0..order.len()
        invariant
            out@ == old(out)@ + shadow_lines(shadows@, order@.take(i as int)),
    {
        let ghost init = out@;
        proof {
            assert(order@.take(i + 1).drop_last() =~= order@.take(i as int));
        }
        let k = order[i];
        if let Some(path) = shadows.get(&k) {
            out.append("  offset ");
            push_decimal(out, k);
            out.append(" -> ");
            out.append(path.as_str());
            out.append("\n");
            proof {
                assert(out@ =~= old(out)@ + shadow_lines(shadows@, order@.take(i + 1)));
            }
        }
    }
    proof {
        assert(order@.take(order@.len() as int) =~= order@);
    }
}

fn push_partition_lines(out: &mut String, shadows: &HashMap<u64, String>, parts: &[PartitionInfo])
    ensures
        final(out)@ == old(out)@ + partition_lines(shadows@, parts@),
{
    proof {
        assert(out@ + partition_lines(shadows@, parts@.take(0)) =~= out@);
    }
    for i in 0..parts.len()
        invariant
            out@ == old(out)@ + partition_lines(shadows@, parts@.take(i as int)),
    {
        proof {
            assert(parts@.take(i + 1).drop_last() =~= parts@.take(i as int));
        }
        let p = &parts[i];
        if p.is_used && p.partition_length > 0 {
            out.append("  Part ");
            push_decimal(out, p.partition_number as u64);
            out.append(": offset=");
            push_decimal(out, p.starting_offset);
            out.append(" len=");
            push_decimal(out, p.partition_length);
            out.append(" shadow=");
            if shadows.contains_key(&p.starting_offset) {
                out.append("true");
            } else {
                out.append("false");
            }
            out.append("\n");
            proof {
                assert(out@ =~= old(out)@ + partition_lines(shadows@, parts@.take(i + 1)));
            }
        }
    }
    proof {
        assert(parts@.take(parts@.len() as int) =~= parts@);
    }
}

fn push_mbr_lines(out: &mut String, mbr: &[u8])
    ensures
        final(out)@ == old(out)@ + mbr_lines(mbr@),
{
    if mbr.len() >= 512 {
        let sig = mbr_signature(mbr);
        out.append("MBR signature: 0x");
        push_hex4(out, sig);
        out.append(" (expected 0xAA55)\n");
        if sig != BOOT_SIGNATURE {
            out.append("  WARNING: Invalid MBR signature!\n");
        }
    }
    assert(out@ =~= old(out)@ + mbr_lines(mbr@));
}

fn push_gpt_lines(out: &mut String, gpt: &[u8])
    ensures
        final(out)@ == old(out)@ + gpt_lines(gpt@),
{
    if gpt.len() >= 8 {
        let head = slice_subrange(gpt, 0, 8);
        assert(head@ =~= gpt@.take(8));
        let sig = match utf8_text(head) {
            Some(s) => s,
            None => "???".to_owned(),
        };
        out.append("GPT signature: \"");
        out.append(sig.as_str());
        out.append("\" (expected \"EFI PART\")\n");
        if !same(sig.as_str(), "EFI PART") {
            out.append("  WARNING: Invalid GPT signature!\n");
        }
    }
    assert(out@ =~= old(out)@ + gpt_lines(gpt@));
}

impl ImageBuilder {
    /// The report, with the shadow copies at the given offsets in this order.
    /// `mbr` and `gpt` are the bytes that were read of the first two sectors of
    /// the disk.
    pub fn image_diag(&self, order: &[u64], mbr: &[u8], gpt: &[u8]) -> (out: String)
        ensures
            out@ == report(self.shadow_map@, self.layout.partitions@, order@, mbr@, gpt@),
    {
        let mut out = String::new();
        out.append("=== Image Builder Diagnostic ===\nShadow map (");
        push_decimal(&mut out, self.shadow_map.len() as u64);
        out.append(" entries):\n");
        push_shadow_lines(&mut out, &self.shadow_map, order);
        out.append("Partitions:\n");
        push_partition_lines(&mut out, &self.shadow_map, self.layout.partitions.as_slice());
        push_mbr_lines(&mut out, mbr);
        push_gpt_lines(&mut out, gpt);
        assert(out@ =~= report(
            self.shadow_map@,
            self.layout.partitions@,
            order@,
            mbr@,
            gpt@,
        ));
        out
    }

    /// Diagnostic: shows the shadow map and verifies the GPT that was read from
    /// disk. Every shadow copy is shown once; their order is that of a walk
    /// through the map.
    pub fn debug_image_diag(&self, mbr: &[u8], gpt: &[u8]) -> (out: String)
        ensures
            exists|order: Seq<u64>|
                {
                    &&& order.no_duplicates()
                    &&& order.to_set() == self.shadow_map@.dom()
                    &&& out@ == #[trigger] report(
                        self.shadow_map@,
                        self.layout.partitions@,
                        order,
                        mbr@,
                        gpt@,
                    )
                },
    {
        let mut order: Vec<u64> = Vec::new();
        for k in it: self.shadow_map.keys()
            invariant
                it.seq().unref().to_set() == self.shadow_map@.dom(),
                it.seq().no_duplicates(),
                order@ == it.seq().unref().take(it.index() as int),
                order@.no_duplicates(),
                it.index() == it.seq().len() ==> order@.to_set() == self.shadow_map@.dom(),
        {
            order.push(*k);
            proof {
                let s = it.seq().unref();
                assert(s[it.index() as int] == *k);
                assert(s.take(it.index() + 1) =~= s.take(it.index() as int).push(*k));
                assert(s.no_duplicates()) by {
                    assert forall|i: int, j: int| 0 <= i < s.len() && 0 <= j < s.len() && i
                        != j implies s[i] != s[j] by {
                        assert(it.seq()[i] != it.seq()[j]);
                    }
                }
                assert(s.take(s.len() as int) =~= s);
            }
        }
        self.image_diag(order.as_slice(), mbr, gpt)
    }
}

} // verus!

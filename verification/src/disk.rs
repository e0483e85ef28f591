//! The disk reader: the per-device I/O statistics pseudo-file, one
//! line per block device, no header. Lines shorter than fourteen
//! tokens are skipped silently, never padded with defaults.

use vstd::prelude::*;
use crate::text::{
    byte_views, copy_range, field_value, kept_lines, spec_lines, spec_tokens, split_lines,
    split_ws, parse_field,
};

verus! {

/// One block device's counters: device numbers, name, and ten
/// cumulative 64-bit I/O counters. The device numbers keep the full
/// 64-bit width even though kernel majors and minors are smaller.
#[derive(Clone, PartialEq, Eq, Debug)]
pub struct DiskStats {
    pub major: u64,
    pub minor: u64,
    pub device_name: Vec<u8>,
    pub reads_completed: u64,
    pub reads_merged: u64,
    pub sectors_read: u64,
    pub read_time: u64,
    pub writes_completed: u64,
    pub writes_merged: u64,
    pub sectors_written: u64,
    pub write_time: u64,
    pub io_in_progress: u64,
    pub io_time: u64,
    pub io_weighted_time: u64,
}

/// Whether a record is exactly what one device line denotes: major,
/// minor, name, then the ten counters in the kernel's column order.
pub open spec fn disk_record_matches(rec: DiskStats, line: Seq<u8>) -> bool {
    let toks = spec_tokens(line);
    &&& rec.major == field_value(toks, 0)
    &&& rec.minor == field_value(toks, 1)
    &&& rec.device_name@ == toks[2]
    &&& rec.reads_completed == field_value(toks, 3)
    &&& rec.reads_merged == field_value(toks, 4)
    &&& rec.sectors_read == field_value(toks, 5)
    &&& rec.read_time == field_value(toks, 6)
    &&& rec.writes_completed == field_value(toks, 7)
    &&& rec.writes_merged == field_value(toks, 8)
    &&& rec.sectors_written == field_value(toks, 9)
    &&& rec.write_time == field_value(toks, 10)
    &&& rec.io_in_progress == field_value(toks, 11)
    &&& rec.io_time == field_value(toks, 12)
    &&& rec.io_weighted_time == field_value(toks, 13)
}

/// Whether two records agree in the device identity and every counter.
pub open spec fn disk_fields_agree(a: DiskStats, b: DiskStats) -> bool {
    &&& a.major == b.major
    &&& a.minor == b.minor
    &&& a.device_name@ == b.device_name@
    &&& a.reads_completed == b.reads_completed
    &&& a.reads_merged == b.reads_merged
    &&& a.sectors_read == b.sectors_read
    &&& a.read_time == b.read_time
    &&& a.writes_completed == b.writes_completed
    &&& a.writes_merged == b.writes_merged
    &&& a.sectors_written == b.sectors_written
    &&& a.write_time == b.write_time
    &&& a.io_in_progress == b.io_in_progress
    &&& a.io_time == b.io_time
    &&& a.io_weighted_time == b.io_weighted_time
}

/// Whether a record sequence is exactly the reader's output for a
/// text: one record per line with at least fourteen tokens, in file
/// order.
pub open spec fn disk_records_match(v: Seq<DiskStats>, t: Seq<u8>) -> bool {
    let kept = kept_lines(spec_lines(t), 14);
    v.len() == kept.len() && forall|k: int|
        0 <= k < v.len() ==> disk_record_matches(#[trigger] v[k], kept[k])
}

/// The reader is a function of the text alone: any two record
/// sequences it accepts for the same text agree in every field.
pub proof fn lemma_disk_records_deterministic(v1: Seq<DiskStats>, v2: Seq<DiskStats>, t: Seq<u8>)
    requires
        disk_records_match(v1, t),
        disk_records_match(v2, t),
    ensures
        v1.len() == v2.len(),
        forall|k: int| 0 <= k < v1.len() ==> disk_fields_agree(#[trigger] v1[k], v2[k]),
{
    assert forall|k: int| 0 <= k < v1.len() implies disk_fields_agree(#[trigger] v1[k], v2[k]) by {
        assert(disk_record_matches(v1[k], kept_lines(spec_lines(t), 14)[k]));
        assert(disk_record_matches(v2[k], kept_lines(spec_lines(t), 14)[k]));
    }
}

impl DiskStats {
    /// Parse the disk-statistics text: one record per line with at
    /// least fourteen tokens, in file order. This reader never fails;
    /// a file with no acceptable lines yields an empty sequence.
    pub fn parse_all(text: &Vec<u8>) -> (r: Vec<DiskStats>)
        ensures
            disk_records_match(r@, text@),
    {
        let ghost lseq = spec_lines(text@);
        let lines = split_lines(text);
        let mut out: Vec<DiskStats> = Vec::new();
        let mut j: usize = 0;
        proof {
            assert(lseq.take(0) =~= Seq::<Seq<u8>>::empty());
        }
        while j < lines.len()
            invariant
                j <= lines@.len(),
                byte_views(lines@) == lseq,
                lseq == spec_lines(text@),
                out@.len() == kept_lines(lseq.take(j as int), 14).len(),
                forall|k: int|
                    0 <= k < out@.len() ==> disk_record_matches(
                        #[trigger] out@[k],
                        kept_lines(lseq.take(j as int), 14)[k],
                    ),
            decreases lines@.len() - j,
        {
            let ghost done = lseq.take(j as int);
            let toks = split_ws(&lines[j]);
            proof {
                assert(lines@[j as int]@ == lseq[j as int]);
                assert(byte_views(toks@) == spec_tokens(lseq[j as int]));
                assert(lseq.take(j + 1) =~= done.push(lseq[j as int]));
                assert(lseq.take(j + 1).drop_last() =~= done);
            }
            if toks.len() >= 14 {
                let name_tok = &toks[2];
                let rec = DiskStats {
                    major: parse_field(&toks, 0),
                    minor: parse_field(&toks, 1),
                    device_name: copy_range(name_tok, 0, name_tok.len()),
                    reads_completed: parse_field(&toks, 3),
                    reads_merged: parse_field(&toks, 4),
                    sectors_read: parse_field(&toks, 5),
                    read_time: parse_field(&toks, 6),
                    writes_completed: parse_field(&toks, 7),
                    writes_merged: parse_field(&toks, 8),
                    sectors_written: parse_field(&toks, 9),
                    write_time: parse_field(&toks, 10),
                    io_in_progress: parse_field(&toks, 11),
                    io_time: parse_field(&toks, 12),
                    io_weighted_time: parse_field(&toks, 13),
                };
                proof {
                    assert(rec.device_name@ =~= toks@[2]@);
                    assert(disk_record_matches(rec, lseq[j as int]));
                }
                out.push(rec);
            }
            j = j + 1;
        }
        proof {
            assert(lseq.take(lines@.len() as int) =~= lseq);
        }
        out
    }
}

} // verus!

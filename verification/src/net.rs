//! The network reader: the network-device pseudo-file, two header
//! lines followed by one line per interface. The headers are required;
//! data lines shorter than seventeen tokens are skipped.

use vstd::prelude::*;
use crate::errors::ErrorKind;
use crate::text::{
    byte_views, field_value, kept_lines, spec_lines, spec_tokens, split_lines, split_ws,
    parse_field,
};

verus! {

/// One interface's counters: the name plus twelve cumulative 64-bit
/// counters split across the receive and transmit directions.
#[derive(Clone, PartialEq, Eq, Debug)]
pub struct NetworkInterface {
    pub name: Vec<u8>,
    pub receive_bytes: u64,
    pub transmit_bytes: u64,
    pub receive_packets: u64,
    pub transmit_packets: u64,
    pub receive_errors: u64,
    pub transmit_errors: u64,
    pub receive_dropped: u64,
    pub transmit_dropped: u64,
    pub fifo_errors: u64,
    pub frame_errors: u64,
    pub compressed_packets: u64,
    pub multicast_packets: u64,
}

/// An interface name with its trailing colons removed.
pub open spec fn strip_colons(name: Seq<u8>) -> Seq<u8>
    decreases name.len(),
{
    if name.len() > 0 && name.last() == 58 {
        strip_colons(name.drop_last())
    } else {
        name
    }
}

/// Whether the text has the two mandatory header lines. A shorter file
/// must fail rather than have data lines misread as headers.
pub open spec fn net_header_ok(t: Seq<u8>) -> bool {
    spec_lines(t).len() >= 2
}

/// The data lines: everything after the two headers.
pub open spec fn net_data_lines(t: Seq<u8>) -> Seq<Seq<u8>> {
    spec_lines(t).subrange(2, spec_lines(t).len() as int)
}

/// Whether a record is exactly what one data line denotes. The kernel
/// interleaves the two directions: the receive block sits in columns
/// one to eight, the transmit block in columns nine to sixteen.
pub open spec fn net_record_matches(rec: NetworkInterface, line: Seq<u8>) -> bool {
    let toks = spec_tokens(line);
    &&& rec.name@ == strip_colons(toks[0])
    &&& rec.receive_bytes == field_value(toks, 1)
    &&& rec.receive_packets == field_value(toks, 2)
    &&& rec.receive_errors == field_value(toks, 3)
    &&& rec.receive_dropped == field_value(toks, 4)
    &&& rec.fifo_errors == field_value(toks, 5)
    &&& rec.frame_errors == field_value(toks, 6)
    &&& rec.compressed_packets == field_value(toks, 7)
    &&& rec.multicast_packets == field_value(toks, 8)
    &&& rec.transmit_bytes == field_value(toks, 9)
    &&& rec.transmit_packets == field_value(toks, 10)
    &&& rec.transmit_errors == field_value(toks, 11)
    &&& rec.transmit_dropped == field_value(toks, 12)
}

/// Whether two records agree in the name and every counter.
pub open spec fn net_fields_agree(a: NetworkInterface, b: NetworkInterface) -> bool {
    &&& a.name@ == b.name@
    &&& a.receive_bytes == b.receive_bytes
    &&& a.receive_packets == b.receive_packets
    &&& a.receive_errors == b.receive_errors
    &&& a.receive_dropped == b.receive_dropped
    &&& a.fifo_errors == b.fifo_errors
    &&& a.frame_errors == b.frame_errors
    &&& a.compressed_packets == b.compressed_packets
    &&& a.multicast_packets == b.multicast_packets
    &&& a.transmit_bytes == b.transmit_bytes
    &&& a.transmit_packets == b.transmit_packets
    &&& a.transmit_errors == b.transmit_errors
    &&& a.transmit_dropped == b.transmit_dropped
}

/// Whether a record sequence is exactly the reader's output for a
/// text: one record per kept data line, in file order.
pub open spec fn net_records_match(v: Seq<NetworkInterface>, t: Seq<u8>) -> bool {
    let kept = kept_lines(net_data_lines(t), 17);
    v.len() == kept.len() && forall|k: int|
        0 <= k < v.len() ==> net_record_matches(#[trigger] v[k], kept[k])
}

/// The reader is a function of the text alone: any two record
/// sequences it accepts for the same text agree in every field.
pub proof fn lemma_net_records_deterministic(
    v1: Seq<NetworkInterface>,
    v2: Seq<NetworkInterface>,
    t: Seq<u8>,
)
    requires
        net_records_match(v1, t),
        net_records_match(v2, t),
    ensures
        v1.len() == v2.len(),
        forall|k: int| 0 <= k < v1.len() ==> net_fields_agree(#[trigger] v1[k], v2[k]),
{
    assert forall|k: int| 0 <= k < v1.len() implies net_fields_agree(#[trigger] v1[k], v2[k]) by {
        assert(net_record_matches(v1[k], kept_lines(net_data_lines(t), 17)[k]));
        assert(net_record_matches(v2[k], kept_lines(net_data_lines(t), 17)[k]));
    }
}

/// Copy a token with its trailing colons removed.
fn stripped_name(tok: &Vec<u8>) -> (name: Vec<u8>)
    ensures
        name@ == strip_colons(tok@),
{
    let mut end: usize = tok.len();
    proof {
        assert(tok@.take(end as int) =~= tok@);
    }
    while end > 0 && tok[end - 1] == 58
        invariant
            end <= tok@.len(),
            strip_colons(tok@) == strip_colons(tok@.take(end as int)),
        decreases end,
    {
        proof {
            assert(tok@.take(end as int).last() == 58);
            assert(tok@.take(end as int).drop_last() =~= tok@.take(end - 1));
        }
        end = end - 1;
    }
    let mut name: Vec<u8> = Vec::new();
    let mut m: usize = 0;
    while m < end
        invariant
            m <= end <= tok@.len(),
            name@ == tok@.take(end as int).take(m as int),
        decreases end - m,
    {
        name.push(tok[m]);
        proof {
            assert(tok@.take(end as int).take(m + 1) =~= tok@.take(end as int).take(
                m as int,
            ).push(tok@[m as int]));
        }
        m = m + 1;
    }
    proof {
        assert(name@ =~= tok@.take(end as int));
        if end > 0 {
            assert(tok@.take(end as int).last() != 58);
        }
    }
    name
}

impl NetworkInterface {
    /// Parse the network-device text: require the two header lines,
    /// then one record per data line with at least seventeen tokens,
    /// in file order.
    pub fn parse_all(text: &Vec<u8>) -> (r: Result<Vec<NetworkInterface>, ErrorKind>)
        ensures
            net_header_ok(text@) ==> r is Ok && net_records_match(r.unwrap()@, text@),
            !net_header_ok(text@) ==> r == Err::<Vec<NetworkInterface>, ErrorKind>(
                ErrorKind::MalformedSource,
            ),
    {
        let ghost lseq = spec_lines(text@);
        let lines = split_lines(text);
        if lines.len() < 2 {
            return Err(ErrorKind::MalformedSource);
        }
        let mut out: Vec<NetworkInterface> = Vec::new();
        let mut j: usize = 2;
        proof {
            assert(lseq.subrange(2, 2) =~= Seq::<Seq<u8>>::empty());
        }
        while j < lines.len()
            invariant
                2 <= j <= lines@.len(),
                byte_views(lines@) == lseq,
                lseq == spec_lines(text@),
                out@.len() == kept_lines(lseq.subrange(2, j as int), 17).len(),
                forall|k: int|
                    0 <= k < out@.len() ==> net_record_matches(
                        #[trigger] out@[k],
                        kept_lines(lseq.subrange(2, j as int), 17)[k],
                    ),
            decreases lines@.len() - j,
        {
            let ghost done = lseq.subrange(2, j as int);
            let toks = split_ws(&lines[j]);
            proof {
                assert(lines@[j as int]@ == lseq[j as int]);
                assert(byte_views(toks@) == spec_tokens(lseq[j as int]));
                assert(lseq.subrange(2, j + 1) =~= done.push(lseq[j as int]));
                assert(lseq.subrange(2, j + 1).drop_last() =~= done);
            }
            if toks.len() >= 17 {
                let rec = NetworkInterface {
                    name: stripped_name(&toks[0]),
                    receive_bytes: parse_field(&toks, 1),
                    transmit_bytes: parse_field(&toks, 9),
                    receive_packets: parse_field(&toks, 2),
                    transmit_packets: parse_field(&toks, 10),
                    receive_errors: parse_field(&toks, 3),
                    transmit_errors: parse_field(&toks, 11),
                    receive_dropped: parse_field(&toks, 4),
                    transmit_dropped: parse_field(&toks, 12),
                    fifo_errors: parse_field(&toks, 5),
                    frame_errors: parse_field(&toks, 6),
                    compressed_packets: parse_field(&toks, 7),
                    multicast_packets: parse_field(&toks, 8),
                };
                proof {
                    assert(net_record_matches(rec, lseq[j as int]));
                }
                out.push(rec);
            }
            j = j + 1;
        }
        proof {
            assert(lseq.subrange(2, lines@.len() as int) =~= net_data_lines(text@));
        }
        Ok(out)
    }
}

} // verus!

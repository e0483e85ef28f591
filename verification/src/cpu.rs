//! The CPU reader: the first line of the processor-statistics
//! pseudo-file, which must be the whole-system aggregate row.

use vstd::prelude::*;
use crate::errors::ErrorKind;
use crate::text::{
    byte_views, field_value, spec_lines, spec_tokens, split_lines, split_ws, parse_field,
};

verus! {

/// Ten cumulative tick counters aggregated across all CPUs, in the
/// kernel's column order. Raw values are passed through: no wraparound
/// detection, no unit conversion.
#[derive(Clone, Copy, PartialEq, Eq, Structural, Debug)]
pub struct CpuStats {
    pub user: u64,
    pub nice: u64,
    pub system: u64,
    pub idle: u64,
    pub iowait: u64,
    pub irq: u64,
    pub softirq: u64,
    pub steal: u64,
    pub guest: u64,
    pub guest_nice: u64,
}

/// The bytes of the aggregate row's label, `cpu`.
pub open spec fn cpu_label() -> Seq<u8> {
    seq![99u8, 112u8, 117u8]
}

/// Whether a text's first line is an acceptable aggregate row: present,
/// labelled exactly `cpu`, and at least eleven tokens wide.
pub open spec fn cpu_first_line_ok(t: Seq<u8>) -> bool {
    spec_lines(t).len() > 0 && {
        let toks = spec_tokens(spec_lines(t)[0]);
        toks.len() >= 11 && toks[0] == cpu_label()
    }
}

/// The record an acceptable first line denotes: the ten counters after
/// the label, parsed positionally.
pub open spec fn spec_cpu_stats(t: Seq<u8>) -> CpuStats {
    let toks = spec_tokens(spec_lines(t)[0]);
    CpuStats {
        user: field_value(toks, 1),
        nice: field_value(toks, 2),
        system: field_value(toks, 3),
        idle: field_value(toks, 4),
        iowait: field_value(toks, 5),
        irq: field_value(toks, 6),
        softirq: field_value(toks, 7),
        steal: field_value(toks, 8),
        guest: field_value(toks, 9),
        guest_nice: field_value(toks, 10),
    }
}

fn is_cpu_label(tok: &Vec<u8>) -> (r: bool)
    ensures
        r == (tok@ == cpu_label()),
{
    let r = tok.len() == 3 && tok[0] == 99 && tok[1] == 112 && tok[2] == 117;
    proof {
        if r {
            assert(tok@ =~= cpu_label());
        }
    }
    r
}

impl CpuStats {
    /// Parse the processor-statistics text. Only the first line is
    /// read; it must start with the literal aggregate label `cpu` and
    /// carry at least ten counters after it, or the whole reader fails
    /// with `MalformedSource`.
    pub fn parse(text: &Vec<u8>) -> (r: Result<CpuStats, ErrorKind>)
        ensures
            cpu_first_line_ok(text@) ==> r == Ok::<CpuStats, ErrorKind>(spec_cpu_stats(text@)),
            !cpu_first_line_ok(text@) ==> r == Err::<CpuStats, ErrorKind>(
                ErrorKind::MalformedSource,
            ),
    {
        let lines = split_lines(text);
        assert(lines@.len() == spec_lines(text@).len());
        if lines.len() == 0 {
            return Err(ErrorKind::MalformedSource);
        }
        let toks = split_ws(&lines[0]);
        assert(byte_views(toks@) == spec_tokens(spec_lines(text@)[0]));
        if toks.len() >= 11 && is_cpu_label(&toks[0]) {
            Ok(CpuStats {
                user: parse_field(&toks, 1),
                nice: parse_field(&toks, 2),
                system: parse_field(&toks, 3),
                idle: parse_field(&toks, 4),
                iowait: parse_field(&toks, 5),
                irq: parse_field(&toks, 6),
                softirq: parse_field(&toks, 7),
                steal: parse_field(&toks, 8),
                guest: parse_field(&toks, 9),
                guest_nice: parse_field(&toks, 10),
            })
        } else {
            Err(ErrorKind::MalformedSource)
        }
    }
}

} // verus!

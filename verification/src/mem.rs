//! The memory reader: a label/value pseudo-file. Every line is
//! scanned; a recognized label assigns one field from the line's second
//! token, anything else is ignored, and a label that never occurs
//! leaves its field at zero. This reader cannot fail.

use vstd::prelude::*;
use crate::text::{byte_views, spec_lines, spec_tokens, split_lines, split_ws, token_u64, token_value};

verus! {

/// Seven memory counters in kibibytes, as the kernel reports them.
#[derive(Clone, Copy, PartialEq, Eq, Structural, Debug)]
pub struct MemInfo {
    pub mem_total: u64,
    pub mem_free: u64,
    pub mem_available: u64,
    pub buffers: u64,
    pub cached: u64,
    pub swap_total: u64,
    pub swap_free: u64,
}

/// The bytes of `MemTotal:`.
pub open spec fn label_mem_total() -> Seq<u8> {
    seq![77u8, 101u8, 109u8, 84u8, 111u8, 116u8, 97u8, 108u8, 58u8]
}

/// The bytes of `MemFree:`.
pub open spec fn label_mem_free() -> Seq<u8> {
    seq![77u8, 101u8, 109u8, 70u8, 114u8, 101u8, 101u8, 58u8]
}

/// The bytes of `MemAvailable:`.
pub open spec fn label_mem_available() -> Seq<u8> {
    seq![77u8, 101u8, 109u8, 65u8, 118u8, 97u8, 105u8, 108u8, 97u8, 98u8, 108u8, 101u8, 58u8]
}

/// The bytes of `Buffers:`.
pub open spec fn label_buffers() -> Seq<u8> {
    seq![66u8, 117u8, 102u8, 102u8, 101u8, 114u8, 115u8, 58u8]
}

/// The bytes of `Cached:`.
pub open spec fn label_cached() -> Seq<u8> {
    seq![67u8, 97u8, 99u8, 104u8, 101u8, 100u8, 58u8]
}

/// The bytes of `SwapTotal:`.
pub open spec fn label_swap_total() -> Seq<u8> {
    seq![83u8, 119u8, 97u8, 112u8, 84u8, 111u8, 116u8, 97u8, 108u8, 58u8]
}

/// The bytes of `SwapFree:`.
pub open spec fn label_swap_free() -> Seq<u8> {
    seq![83u8, 119u8, 97u8, 112u8, 70u8, 114u8, 101u8, 101u8, 58u8]
}

/// Whether a line assigns to the given label: it has at least two
/// tokens and its first token is exactly that label.
pub open spec fn line_assigns(line: Seq<u8>, label: Seq<u8>) -> bool {
    let toks = spec_tokens(line);
    toks.len() >= 2 && toks[0] == label
}

/// The value the given label's field ends with after all lines are
/// scanned: the second token of the last assigning line, or zero when
/// no line assigns to the label.
pub open spec fn mem_label_value(lines: Seq<Seq<u8>>, label: Seq<u8>) -> u64
    decreases lines.len(),
{
    if lines.len() == 0 {
        0
    } else if line_assigns(lines.last(), label) {
        token_value(spec_tokens(lines.last())[1])
    } else {
        mem_label_value(lines.drop_last(), label)
    }
}

/// The record a sequence of lines denotes, field by field.
pub open spec fn mem_info_of_lines(lines: Seq<Seq<u8>>) -> MemInfo {
    MemInfo {
        mem_total: mem_label_value(lines, label_mem_total()),
        mem_free: mem_label_value(lines, label_mem_free()),
        mem_available: mem_label_value(lines, label_mem_available()),
        buffers: mem_label_value(lines, label_buffers()),
        cached: mem_label_value(lines, label_cached()),
        swap_total: mem_label_value(lines, label_swap_total()),
        swap_free: mem_label_value(lines, label_swap_free()),
    }
}

/// The record the memory reader produces for a text.
pub open spec fn spec_mem_info(t: Seq<u8>) -> MemInfo {
    mem_info_of_lines(spec_lines(t))
}

/// What one line does to the record: a recognized label replaces
/// exactly its own field with the line's second token's value; a line
/// with fewer than two tokens, or an unrecognized label, changes
/// nothing.
pub open spec fn mem_apply(m: MemInfo, line: Seq<u8>) -> MemInfo {
    let toks = spec_tokens(line);
    if toks.len() < 2 {
        m
    } else if toks[0] == label_mem_total() {
        MemInfo { mem_total: token_value(toks[1]), ..m }
    } else if toks[0] == label_mem_free() {
        MemInfo { mem_free: token_value(toks[1]), ..m }
    } else if toks[0] == label_mem_available() {
        MemInfo { mem_available: token_value(toks[1]), ..m }
    } else if toks[0] == label_buffers() {
        MemInfo { buffers: token_value(toks[1]), ..m }
    } else if toks[0] == label_cached() {
        MemInfo { cached: token_value(toks[1]), ..m }
    } else if toks[0] == label_swap_total() {
        MemInfo { swap_total: token_value(toks[1]), ..m }
    } else if toks[0] == label_swap_free() {
        MemInfo { swap_free: token_value(toks[1]), ..m }
    } else {
        m
    }
}

/// Scanning one more line updates at most one field, and exactly the
/// field of the label the line assigns to.
pub proof fn lemma_mem_line_effect(lines: Seq<Seq<u8>>, line: Seq<u8>)
    ensures
        mem_info_of_lines(lines.push(line)) == mem_apply(mem_info_of_lines(lines), line),
{
    assert(lines.push(line).drop_last() =~= lines);
    assert(lines.push(line).last() == line);
}

/// A label that no line assigns to leaves its field at zero.
pub proof fn lemma_mem_absent_label_zero(lines: Seq<Seq<u8>>, label: Seq<u8>)
    requires
        forall|k: int| 0 <= k < lines.len() ==> !line_assigns(#[trigger] lines[k], label),
    ensures
        mem_label_value(lines, label) == 0,
    decreases lines.len(),
{
    if lines.len() > 0 {
        assert(!line_assigns(lines.last(), label));
        lemma_mem_absent_label_zero(lines.drop_last(), label);
    }
}

fn is_label_mem_total(tok: &Vec<u8>) -> (r: bool)
    ensures
        r == (tok@ == label_mem_total()),
{
    let r = tok.len() == 9 && tok[0] == 77 && tok[1] == 101 && tok[2] == 109 && tok[3] == 84
        && tok[4] == 111 && tok[5] == 116 && tok[6] == 97 && tok[7] == 108 && tok[8] == 58;
    proof {
        if r {
            assert(tok@ =~= label_mem_total());
        }
    }
    r
}

fn is_label_mem_free(tok: &Vec<u8>) -> (r: bool)
    ensures
        r == (tok@ == label_mem_free()),
{
    let r = tok.len() == 8 && tok[0] == 77 && tok[1] == 101 && tok[2] == 109 && tok[3] == 70
        && tok[4] == 114 && tok[5] == 101 && tok[6] == 101 && tok[7] == 58;
    proof {
        if r {
            assert(tok@ =~= label_mem_free());
        }
    }
    r
}

fn is_label_mem_available(tok: &Vec<u8>) -> (r: bool)
    ensures
        r == (tok@ == label_mem_available()),
{
    let r = tok.len() == 13 && tok[0] == 77 && tok[1] == 101 && tok[2] == 109 && tok[3] == 65
        && tok[4] == 118 && tok[5] == 97 && tok[6] == 105 && tok[7] == 108 && tok[8] == 97
        && tok[9] == 98 && tok[10] == 108 && tok[11] == 101 && tok[12] == 58;
    proof {
        if r {
            assert(tok@ =~= label_mem_available());
        }
    }
    r
}

fn is_label_buffers(tok: &Vec<u8>) -> (r: bool)
    ensures
        r == (tok@ == label_buffers()),
{
    let r = tok.len() == 8 && tok[0] == 66 && tok[1] == 117 && tok[2] == 102 && tok[3] == 102
        && tok[4] == 101 && tok[5] == 114 && tok[6] == 115 && tok[7] == 58;
    proof {
        if r {
            assert(tok@ =~= label_buffers());
        }
    }
    r
}

fn is_label_cached(tok: &Vec<u8>) -> (r: bool)
    ensures
        r == (tok@ == label_cached()),
{
    let r = tok.len() == 7 && tok[0] == 67 && tok[1] == 97 && tok[2] == 99 && tok[3] == 104
        && tok[4] == 101 && tok[5] == 100 && tok[6] == 58;
    proof {
        if r {
            assert(tok@ =~= label_cached());
        }
    }
    r
}

fn is_label_swap_total(tok: &Vec<u8>) -> (r: bool)
    ensures
        r == (tok@ == label_swap_total()),
{
    let r = tok.len() == 10 && tok[0] == 83 && tok[1] == 119 && tok[2] == 97 && tok[3] == 112
        && tok[4] == 84 && tok[5] == 111 && tok[6] == 116 && tok[7] == 97 && tok[8] == 108
        && tok[9] == 58;
    proof {
        if r {
            assert(tok@ =~= label_swap_total());
        }
    }
    r
}

fn is_label_swap_free(tok: &Vec<u8>) -> (r: bool)
    ensures
        r == (tok@ == label_swap_free()),
{
    let r = tok.len() == 9 && tok[0] == 83 && tok[1] == 119 && tok[2] == 97 && tok[3] == 112
        && tok[4] == 70 && tok[5] == 114 && tok[6] == 101 && tok[7] == 101 && tok[8] == 58;
    proof {
        if r {
            assert(tok@ =~= label_swap_free());
        }
    }
    r
}

impl MemInfo {
    /// The record with every counter at zero, the state before any
    /// line is scanned.
    pub fn zeroed() -> (m: MemInfo)
        ensures
            m == mem_info_of_lines(Seq::<Seq<u8>>::empty()),
    {
        MemInfo {
            mem_total: 0,
            mem_free: 0,
            mem_available: 0,
            buffers: 0,
            cached: 0,
            swap_total: 0,
            swap_free: 0,
        }
    }

    /// Parse the memory-info text. Malformed lines are ignored and a
    /// missing label leaves its field at zero, so this reader always
    /// produces a record.
    pub fn parse(text: &Vec<u8>) -> (r: MemInfo)
        ensures
            r == spec_mem_info(text@),
    {
        let ghost lseq = spec_lines(text@);
        let lines = split_lines(text);
        let mut m = MemInfo::zeroed();
        proof {
            assert(lseq.take(0) =~= Seq::<Seq<u8>>::empty());
        }
        let mut j: usize = 0;
        while j < lines.len()
            invariant
                j <= lines@.len(),
                byte_views(lines@) == lseq,
                lseq == spec_lines(text@),
                m == mem_info_of_lines(lseq.take(j as int)),
            decreases lines@.len() - j,
        {
            let ghost m_before = m;
            let toks = split_ws(&lines[j]);
            proof {
                assert(lines@[j as int]@ == lseq[j as int]);
                assert(byte_views(toks@) == spec_tokens(lseq[j as int]));
            }
            if toks.len() >= 2 {
                if is_label_mem_total(&toks[0]) {
                    m.mem_total = token_u64(&toks[1]);
                } else if is_label_mem_free(&toks[0]) {
                    m.mem_free = token_u64(&toks[1]);
                } else if is_label_mem_available(&toks[0]) {
                    m.mem_available = token_u64(&toks[1]);
                } else if is_label_buffers(&toks[0]) {
                    m.buffers = token_u64(&toks[1]);
                } else if is_label_cached(&toks[0]) {
                    m.cached = token_u64(&toks[1]);
                } else if is_label_swap_total(&toks[0]) {
                    m.swap_total = token_u64(&toks[1]);
                } else if is_label_swap_free(&toks[0]) {
                    m.swap_free = token_u64(&toks[1]);
                }
            }
            proof {
                assert(m == mem_apply(m_before, lseq[j as int]));
                lemma_mem_line_effect(lseq.take(j as int), lseq[j as int]);
                assert(lseq.take(j as int).push(lseq[j as int]) =~= lseq.take(j + 1));
            }
            j = j + 1;
        }
        proof {
            assert(lseq.take(lines@.len() as int) =~= lseq);
        }
        m
    }
}

} // verus!

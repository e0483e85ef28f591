//! The text model shared by every reader: how a byte text splits into
//! lines, how a line splits into whitespace-separated tokens, and what
//! unsigned decimal value a token denotes.

use vstd::prelude::*;

verus! {

/// A byte this library treats as a token separator: ASCII space, tab,
/// line feed, vertical tab, form feed, carriage return.
pub open spec fn is_space(b: u8) -> bool {
    b == 32 || b == 9 || b == 10 || b == 11 || b == 12 || b == 13
}

/// Length of the leading run of non-separator bytes.
pub open spec fn nonspace_run(s: Seq<u8>) -> nat
    decreases s.len(),
{
    if s.len() == 0 {
        0
    } else if is_space(s[0]) {
        0
    } else {
        1 + nonspace_run(s.skip(1))
    }
}

proof fn lemma_nonspace_run_le(s: Seq<u8>)
    ensures
        nonspace_run(s) <= s.len(),
    decreases s.len(),
{
    if s.len() > 0 && !is_space(s[0]) {
        lemma_nonspace_run_le(s.skip(1));
    }
}

/// The whitespace-separated tokens of a line, in order.
pub open spec fn spec_tokens(s: Seq<u8>) -> Seq<Seq<u8>>
    decreases s.len(),
    via spec_tokens_decreases
{
    if s.len() == 0 {
        Seq::empty()
    } else if is_space(s[0]) {
        spec_tokens(s.skip(1))
    } else {
        seq![s.take(nonspace_run(s) as int)] + spec_tokens(s.skip(nonspace_run(s) as int))
    }
}

#[via_fn]
proof fn spec_tokens_decreases(s: Seq<u8>) {
    if s.len() > 0 && !is_space(s[0]) {
        lemma_nonspace_run_le(s);
    }
}

/// Length of the leading run of bytes that are not a line feed.
pub open spec fn noline_run(s: Seq<u8>) -> nat
    decreases s.len(),
{
    if s.len() == 0 {
        0
    } else if s[0] == 10 {
        0
    } else {
        1 + noline_run(s.skip(1))
    }
}

proof fn lemma_noline_run_le(s: Seq<u8>)
    ensures
        noline_run(s) <= s.len(),
    decreases s.len(),
{
    if s.len() > 0 && s[0] != 10 {
        lemma_noline_run_le(s.skip(1));
    }
}

/// The lines of a text: the pieces between line feeds. A text that ends
/// in a line feed contributes no final empty line, so `"a\n"` has one
/// line and `""` has none.
pub open spec fn spec_lines(t: Seq<u8>) -> Seq<Seq<u8>>
    decreases t.len(),
    via spec_lines_decreases
{
    if t.len() == 0 {
        Seq::empty()
    } else {
        let k = noline_run(t) as int;
        if k == t.len() {
            seq![t]
        } else {
            seq![t.take(k)] + spec_lines(t.skip(k + 1))
        }
    }
}

#[via_fn]
proof fn spec_lines_decreases(t: Seq<u8>) {
    if t.len() > 0 {
        lemma_noline_run_le(t);
    }
}

/// An ASCII decimal digit.
pub open spec fn is_digit(b: u8) -> bool {
    48 <= b && b <= 57
}

pub open spec fn all_digits(s: Seq<u8>) -> bool {
    forall|i: int| 0 <= i < s.len() ==> is_digit(#[trigger] s[i])
}

/// The integer a digit string denotes in base ten.
pub open spec fn dec_val(s: Seq<u8>) -> int
    decreases s.len(),
{
    if s.len() == 0 {
        0
    } else {
        dec_val(s.drop_last()) * 10 + (s.last() - 48)
    }
}

/// The digits of a numeric token: an optional leading plus sign is not
/// part of the value.
pub open spec fn digit_part(tok: Seq<u8>) -> Seq<u8> {
    if tok.len() > 0 && tok[0] == 43 {
        tok.skip(1)
    } else {
        tok
    }
}

/// Whether a token is a valid non-negative 64-bit decimal integer.
pub open spec fn is_u64_token(tok: Seq<u8>) -> bool {
    let d = digit_part(tok);
    d.len() > 0 && all_digits(d) && dec_val(d) <= u64::MAX
}

/// The value a counter token stands for: its decimal value when it is a
/// valid 64-bit integer, and zero otherwise. Malformed counters are
/// absorbed to zero by design, never reported as an error.
pub open spec fn token_value(tok: Seq<u8>) -> u64 {
    if is_u64_token(tok) {
        dec_val(digit_part(tok)) as u64
    } else {
        0
    }
}

/// The value of the token at a position, with the same silent-zero
/// policy when the position is past the end of the line.
pub open spec fn field_value(toks: Seq<Seq<u8>>, i: int) -> u64 {
    if 0 <= i < toks.len() {
        token_value(toks[i])
    } else {
        0
    }
}

/// The views of a sequence of byte vectors.
pub open spec fn byte_views(s: Seq<Vec<u8>>) -> Seq<Seq<u8>> {
    Seq::new(s.len(), |i: int| s[i]@)
}

/// The lines whose token count reaches a minimum, in file order; the
/// others are left out entirely.
pub open spec fn kept_lines(lines: Seq<Seq<u8>>, min: int) -> Seq<Seq<u8>>
    decreases lines.len(),
{
    if lines.len() == 0 {
        Seq::empty()
    } else if spec_tokens(lines.last()).len() >= min {
        kept_lines(lines.drop_last(), min).push(lines.last())
    } else {
        kept_lines(lines.drop_last(), min)
    }
}

/// How many lines fall short of a minimum token count.
pub open spec fn count_short_lines(lines: Seq<Seq<u8>>, min: int) -> nat
    decreases lines.len(),
{
    if lines.len() == 0 {
        0
    } else {
        count_short_lines(lines.drop_last(), min) + if spec_tokens(lines.last()).len() >= min {
            0nat
        } else {
            1nat
        }
    }
}

/// A short line is excluded, never padded: the kept lines number
/// exactly the input lines less the short ones.
pub proof fn lemma_kept_excludes_short(lines: Seq<Seq<u8>>, min: int)
    ensures
        kept_lines(lines, min).len() + count_short_lines(lines, min) == lines.len(),
    decreases lines.len(),
{
    if lines.len() > 0 {
        lemma_kept_excludes_short(lines.drop_last(), min);
    }
}

proof fn lemma_dec_val_nonneg(s: Seq<u8>)
    requires
        all_digits(s),
    ensures
        0 <= dec_val(s),
    decreases s.len(),
{
    if s.len() > 0 {
        assert(all_digits(s.drop_last()));
        lemma_dec_val_nonneg(s.drop_last());
    }
}

/// A digit string's value never shrinks when more digits follow.
proof fn lemma_dec_val_prefix(s: Seq<u8>, m: int)
    requires
        all_digits(s),
        0 <= m <= s.len(),
    ensures
        dec_val(s.take(m)) <= dec_val(s),
    decreases s.len() - m,
{
    if m < s.len() {
        lemma_dec_val_prefix(s, m + 1);
        assert(s.take(m + 1).drop_last() =~= s.take(m));
        assert(all_digits(s.take(m)));
        lemma_dec_val_nonneg(s.take(m));
        assert(dec_val(s.take(m + 1)) == dec_val(s.take(m)) * 10 + (s[m] - 48));
    } else {
        assert(s.take(m) =~= s);
    }
}

/// Parse a token as a non-negative 64-bit decimal integer, substituting
/// zero for anything malformed or out of range.
pub fn token_u64(tok: &Vec<u8>) -> (r: u64)
    ensures
        r == token_value(tok@),
{
    let ghost d = digit_part(tok@);
    let start: usize = if tok.len() > 0 && tok[0] == 43 {
        1
    } else {
        0
    };
    proof {
        assert(d =~= tok@.skip(start as int));
    }
    if start == tok.len() {
        return 0;
    }
    let mut acc: u64 = 0;
    let mut i: usize = start;
    while i < tok.len()
        invariant
            start <= i <= tok.len(),
            start < tok.len(),
            d == tok@.skip(start as int),
            d == digit_part(tok@),
            all_digits(d.take(i - start)),
            acc == dec_val(d.take(i - start)),
        decreases tok.len() - i,
    {
        let b = tok[i];
        assert(d[i - start] == b);
        if b < 48 || b > 57 {
            assert(!all_digits(d));
            return 0;
        }
        let digit: u64 = (b - 48) as u64;
        proof {
            assert(d.take(i - start + 1).drop_last() =~= d.take(i - start));
            assert(d.take(i - start + 1).last() == b);
            assert(dec_val(d.take(i - start + 1)) == acc * 10 + digit);
        }
        if acc > u64::MAX / 10 || (acc == u64::MAX / 10 && digit > u64::MAX % 10) {
            proof {
                if all_digits(d) {
                    lemma_dec_val_prefix(d, i - start + 1);
                }
            }
            return 0;
        }
        acc = acc * 10 + digit;
        i = i + 1;
    }
    proof {
        assert(d.take(i - start) =~= d);
    }
    acc
}

/// The field parser: the value of the token at a zero-based position,
/// zero when the position is out of range or the token is malformed.
pub fn parse_field(toks: &Vec<Vec<u8>>, idx: usize) -> (r: u64)
    ensures
        r == field_value(byte_views(toks@), idx as int),
{
    if idx < toks.len() {
        token_u64(&toks[idx])
    } else {
        0
    }
}

fn is_space_byte(b: u8) -> (r: bool)
    ensures
        r == is_space(b),
{
    b == 32 || b == 9 || b == 10 || b == 11 || b == 12 || b == 13
}

proof fn lemma_nonspace_run_val(s: Seq<u8>, k: int)
    requires
        0 <= k <= s.len(),
        forall|m: int| 0 <= m < k ==> !is_space(#[trigger] s[m]),
        k == s.len() || is_space(s[k]),
    ensures
        nonspace_run(s) == k,
    decreases k,
{
    if k == 0 {
    } else {
        lemma_nonspace_run_val(s.skip(1), k - 1);
    }
}

proof fn lemma_noline_run_val(s: Seq<u8>, k: int)
    requires
        0 <= k <= s.len(),
        forall|m: int| 0 <= m < k ==> #[trigger] s[m] != 10,
        k == s.len() || s[k] == 10,
    ensures
        noline_run(s) == k,
    decreases k,
{
    if k == 0 {
    } else {
        lemma_noline_run_val(s.skip(1), k - 1);
    }
}

/// Copy the bytes of `v` between two positions into a fresh vector.
pub(crate) fn copy_range(v: &Vec<u8>, from: usize, to: usize) -> (out: Vec<u8>)
    requires
        from <= to <= v@.len(),
    ensures
        out@ == v@.subrange(from as int, to as int),
{
    let mut out: Vec<u8> = Vec::new();
    let mut m: usize = from;
    while m < to
        invariant
            from <= m <= to <= v@.len(),
            out@ == v@.subrange(from as int, m as int),
        decreases to - m,
    {
        out.push(v[m]);
        proof {
            assert(v@.subrange(from as int, m + 1) =~= v@.subrange(from as int, m as int).push(
                v@[m as int],
            ));
        }
        m = m + 1;
    }
    out
}

/// Split a line into its whitespace-separated tokens.
pub fn split_ws(line: &Vec<u8>) -> (toks: Vec<Vec<u8>>)
    ensures
        byte_views(toks@) == spec_tokens(line@),
{
    let n = line.len();
    let mut toks: Vec<Vec<u8>> = Vec::new();
    let mut i: usize = 0;
    proof {
        assert(line@.skip(0) =~= line@);
        assert(byte_views(toks@) + spec_tokens(line@) =~= spec_tokens(line@));
    }
    while i < n
        invariant
            i <= n,
            n == line@.len(),
            spec_tokens(line@) == byte_views(toks@) + spec_tokens(line@.skip(i as int)),
        decreases n - i,
    {
        if is_space_byte(line[i]) {
            proof {
                assert(line@.skip(i as int).skip(1) =~= line@.skip(i + 1));
                assert(line@.skip(i as int)[0] == line@[i as int]);
            }
            i = i + 1;
        } else {
            let mut j: usize = i + 1;
            while j < n && !is_space_byte(line[j])
                invariant
                    i < j <= n,
                    n == line@.len(),
                    forall|m: int| i <= m < j ==> !is_space(#[trigger] line@[m]),
                decreases n - j,
            {
                j = j + 1;
            }
            proof {
                let suf = line@.skip(i as int);
                assert(forall|m: int|
                    0 <= m < j - i ==> !is_space(#[trigger] suf[m]) && suf[m] == line@[i + m]);
                if j < n {
                    assert(suf[j - i] == line@[j as int]);
                }
                lemma_nonspace_run_val(suf, j - i);
                assert(suf.take(j - i) =~= line@.subrange(i as int, j as int));
                assert(suf.skip(j - i) =~= line@.skip(j as int));
            }
            let tok = copy_range(line, i, j);
            let ghost before = toks@;
            toks.push(tok);
            proof {
                assert(byte_views(toks@) =~= byte_views(before).push(tok@));
                assert(byte_views(before) + spec_tokens(line@.skip(i as int)) =~= byte_views(
                    toks@,
                ) + spec_tokens(line@.skip(j as int)));
            }
            i = j;
        }
    }
    proof {
        assert(line@.skip(n as int) =~= Seq::<u8>::empty());
        assert(spec_tokens(line@) =~= byte_views(toks@));
    }
    toks
}

/// Split a text into its lines.
pub fn split_lines(t: &Vec<u8>) -> (lines: Vec<Vec<u8>>)
    ensures
        byte_views(lines@) == spec_lines(t@),
{
    let n = t.len();
    let mut lines: Vec<Vec<u8>> = Vec::new();
    let mut i: usize = 0;
    proof {
        assert(t@.skip(0) =~= t@);
        assert(byte_views(lines@) + spec_lines(t@) =~= spec_lines(t@));
    }
    while i < n
        invariant
            i <= n,
            n == t@.len(),
            spec_lines(t@) == byte_views(lines@) + spec_lines(t@.skip(i as int)),
        decreases n - i,
    {
        let mut j: usize = i;
        while j < n && t[j] != 10
            invariant
                i <= j <= n,
                n == t@.len(),
                forall|m: int| i <= m < j ==> #[trigger] t@[m] != 10,
            decreases n - j,
        {
            j = j + 1;
        }
        proof {
            let suf = t@.skip(i as int);
            assert(forall|m: int| 0 <= m < j - i ==> #[trigger] suf[m] == t@[i + m] && suf[m] != 10);
            if j < n {
                assert(suf[j - i] == t@[j as int]);
            }
            lemma_noline_run_val(suf, j - i);
            assert(suf.take(j - i) =~= t@.subrange(i as int, j as int));
            if j < n {
                assert(suf.skip(j - i + 1) =~= t@.skip(j + 1));
            } else {
                assert(suf =~= t@.subrange(i as int, j as int));
            }
        }
        let line = copy_range(t, i, j);
        let ghost before = lines@;
        lines.push(line);
        proof {
            assert(byte_views(lines@) =~= byte_views(before).push(line@));
            if j < n {
                assert(byte_views(before) + spec_lines(t@.skip(i as int)) =~= byte_views(lines@)
                    + spec_lines(t@.skip(j + 1)));
            } else {
                assert(byte_views(before) + spec_lines(t@.skip(i as int)) =~= byte_views(lines@));
                assert(t@.skip(n as int) =~= Seq::<u8>::empty());
                assert(byte_views(lines@) + spec_lines(t@.skip(n as int)) =~= byte_views(lines@));
            }
        }
        if j < n {
            i = j + 1;
        } else {
            i = n;
        }
    }
    proof {
        assert(t@.skip(n as int) =~= Seq::<u8>::empty());
        assert(spec_lines(t@) =~= byte_views(lines@));
    }
    lines
}

} // verus!

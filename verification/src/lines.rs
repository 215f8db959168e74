//! Incremental splitting of a byte stream into newline-delimited lines.
//!
//! Both upstream wire formats are line-oriented: a decoder accumulates raw
//! byte fragments and acts on every complete line, where a line is the run
//! of bytes before a newline byte. The split is defined here as a pure
//! function of the whole byte sequence received so far, so that everything
//! a decoder emits can be stated independently of how the stream was cut
//! into fragments.

use vstd::prelude::*;

verus! {

/// The line separator of both wire formats.
pub const NEWLINE: u8 = 10;

/// The index of the first newline byte of `s`, or `s.len()` if there is none.
pub open spec fn first_newline(s: Seq<u8>) -> int
    decreases s.len(),
{
    if s.len() == 0 {
        0
    } else if s[0] == NEWLINE {
        0
    } else {
        1 + first_newline(s.skip(1))
    }
}

/// `first_newline` points at a newline byte if one exists, and nothing
/// before it is a newline byte.
pub proof fn lemma_first_newline(s: Seq<u8>)
    ensures
        0 <= first_newline(s) <= s.len(),
        first_newline(s) < s.len() ==> s[first_newline(s)] == NEWLINE,
        forall|j: int| 0 <= j < first_newline(s) ==> s[j] != NEWLINE,
    decreases s.len(),
{
    if s.len() > 0 && s[0] != NEWLINE {
        lemma_first_newline(s.skip(1));
        assert forall|j: int| 0 <= j < first_newline(s) implies s[j] != NEWLINE by {
            if j > 0 {
                assert(s.skip(1)[j - 1] == s[j]);
            }
        }
    }
}

/// The first newline of a concatenation lies in the left part exactly where
/// the left part has one, and otherwise past it, where the right part has one.
pub proof fn lemma_first_newline_append(a: Seq<u8>, b: Seq<u8>)
    ensures
        first_newline(a) < a.len() ==> first_newline(a + b) == first_newline(a),
        first_newline(a) == a.len() ==> first_newline(a + b) == a.len() + first_newline(b),
    decreases a.len(),
{
    lemma_first_newline(a);
    if a.len() == 0 {
        assert(a + b =~= b);
    } else if a[0] == NEWLINE {
        assert((a + b)[0] == NEWLINE);
    } else {
        assert((a + b)[0] != NEWLINE);
        lemma_first_newline_append(a.skip(1), b);
        assert((a + b).skip(1) =~= a.skip(1) + b);
    }
}

/// Splits a byte sequence into its complete lines (the runs of bytes before
/// each newline, in order, newline bytes excluded) and the remainder after
/// the last newline.
pub open spec fn line_split(s: Seq<u8>) -> (Seq<Seq<u8>>, Seq<u8>)
    decreases s.len(),
{
    let i = first_newline(s);
    if 0 <= i < s.len() {
        let rest = line_split(s.skip(i + 1));
        (seq![s.take(i)] + rest.0, rest.1)
    } else {
        (seq![], s)
    }
}

/// The remainder of a split never contains a newline byte.
pub proof fn lemma_line_split_rest(s: Seq<u8>)
    ensures
        first_newline(line_split(s).1) == line_split(s).1.len(),
    decreases s.len(),
{
    lemma_first_newline(s);
    let i = first_newline(s);
    if 0 <= i < s.len() {
        lemma_line_split_rest(s.skip(i + 1));
    } else {
        if first_newline(s) < s.len() {
        }
    }
}

/// Splitting a grown stream keeps the lines already split off and splits the
/// rest of the growth against the old remainder: line buffering is insensitive
/// to where the stream was cut.
pub proof fn lemma_line_split_append(a: Seq<u8>, b: Seq<u8>)
    ensures
        line_split(a + b).0 == line_split(a).0 + line_split(line_split(a).1 + b).0,
        line_split(a + b).1 == line_split(line_split(a).1 + b).1,
    decreases a.len(),
{
    lemma_first_newline(a);
    lemma_first_newline_append(a, b);
    let i = first_newline(a);
    if 0 <= i < a.len() {
        assert((a + b).take(i) =~= a.take(i));
        assert((a + b).skip(i + 1) =~= a.skip(i + 1) + b);
        lemma_line_split_append(a.skip(i + 1), b);
        assert(line_split(a + b).0 =~= line_split(a).0 + line_split(line_split(a).1 + b).0);
    } else {
        assert(line_split(a).0 + line_split(line_split(a).1 + b).0 =~= line_split(a + b).0);
        assert(line_split(a).1 + b =~= a + b);
    }
}

/// Whether `b` is an ASCII whitespace byte, the bytes stripped from the ends
/// of a line before it is interpreted.
pub open spec fn is_space(b: u8) -> bool {
    b == 32 || b == 9 || b == 10 || b == 11 || b == 12 || b == 13
}

/// `s` without its leading whitespace bytes.
pub open spec fn trim_start(s: Seq<u8>) -> Seq<u8>
    decreases s.len(),
{
    if s.len() > 0 && is_space(s[0]) {
        trim_start(s.skip(1))
    } else {
        s
    }
}

/// `s` without its trailing whitespace bytes.
pub open spec fn trim_end(s: Seq<u8>) -> Seq<u8>
    decreases s.len(),
{
    if s.len() > 0 && is_space(s.last()) {
        trim_end(s.drop_last())
    } else {
        s
    }
}

/// `s` without leading and trailing whitespace bytes.
pub open spec fn trim(s: Seq<u8>) -> Seq<u8> {
    trim_end(trim_start(s))
}

proof fn lemma_trim_start_skip(s: Seq<u8>, k: int)
    requires
        0 <= k <= s.len(),
        forall|j: int| 0 <= j < k ==> is_space(s[j]),
        k == s.len() || !is_space(s[k]),
    ensures
        trim_start(s) == s.skip(k),
    decreases k,
{
    if k == 0 {
        assert(s.skip(0) =~= s);
    } else {
        lemma_trim_start_skip(s.skip(1), k - 1);
        assert(s.skip(1).skip(k - 1) =~= s.skip(k));
    }
}

proof fn lemma_trim_end_take(s: Seq<u8>, k: int)
    requires
        0 <= k <= s.len(),
        forall|j: int| k <= j < s.len() ==> is_space(s[j]),
        k == 0 || !is_space(s[k - 1]),
    ensures
        trim_end(s) == s.take(k),
    decreases s.len() - k,
{
    if k == s.len() {
        assert(s.take(k) =~= s);
    } else {
        lemma_trim_end_take(s.drop_last(), k);
        assert(s.drop_last().take(k) =~= s.take(k));
    }
}

/// Strips ASCII whitespace from both ends of `line`.
pub fn trim_bytes(line: &Vec<u8>) -> (t: Vec<u8>)
    ensures
        t@ == trim(line@),
{
    let n = line.len();
    let mut lo: usize = 0;
    while lo < n && (line[lo] == 32 || line[lo] == 9 || line[lo] == 10 || line[lo] == 11
        || line[lo] == 12 || line[lo] == 13)
        invariant
            0 <= lo <= n,
            n == line@.len(),
            forall|j: int| 0 <= j < lo ==> is_space(line@[j]),
        decreases n - lo,
    {
        lo += 1;
    }
    proof {
        lemma_trim_start_skip(line@, lo as int);
    }
    let mut hi: usize = n;
    while hi > lo && (line[hi - 1] == 32 || line[hi - 1] == 9 || line[hi - 1] == 10
        || line[hi - 1] == 11 || line[hi - 1] == 12 || line[hi - 1] == 13)
        invariant
            lo <= hi <= n,
            n == line@.len(),
            forall|j: int| hi <= j < n ==> is_space(line@[j]),
        decreases hi,
    {
        hi -= 1;
    }
    proof {
        lemma_trim_end_take(line@.skip(lo as int), hi - lo);
        assert(line@.skip(lo as int).take(hi - lo) =~= line@.subrange(lo as int, hi as int));
    }
    let mut t: Vec<u8> = Vec::new();
    let mut k: usize = lo;
    while k < hi
        invariant
            lo <= k <= hi <= n,
            n == line@.len(),
            t@ == line@.subrange(lo as int, k as int),
        decreases hi - k,
    {
        t.push(line[k]);
        proof {
            assert(line@.subrange(lo as int, k + 1) =~= line@.subrange(lo as int, k as int).push(
                line@[k as int]));
        }
        k += 1;
    }
    t
}

/// Finds the first newline byte of `v`, if any.
pub fn find_newline(v: &Vec<u8>) -> (r: Option<usize>)
    ensures
        match r {
            Some(i) => i == first_newline(v@) && i < v@.len(),
            None => first_newline(v@) == v@.len(),
        },
{
    let mut k: usize = 0;
    while k < v.len()
        invariant
            0 <= k <= v@.len(),
            forall|j: int| 0 <= j < k ==> v@[j] != NEWLINE,
        decreases v@.len() - k,
    {
        if v[k] == NEWLINE {
            proof {
                lemma_first_newline(v@);
            }
            return Some(k);
        }
        k += 1;
    }
    proof {
        lemma_first_newline(v@);
    }
    None
}

/// Removes the first line of `buf` up to the newline at index `i`, returning
/// the line and leaving the bytes after the newline in `buf`.
pub fn take_first_line(buf: &mut Vec<u8>, i: usize) -> (line: Vec<u8>)
    requires
        i < old(buf)@.len(),
    ensures
        line@ == old(buf)@.take(i as int),
        final(buf)@ == old(buf)@.skip(i as int + 1),
{
    let n = buf.len();
    assert(i < n);
    let mut tail = buf.split_off(i + 1);
    buf.truncate(i);
    core::mem::swap(buf, &mut tail);
    proof {
        assert(tail@ =~= old(buf)@.take(i as int));
        assert(buf@ =~= old(buf)@.skip(i as int + 1));
    }
    tail
}

} // verus!

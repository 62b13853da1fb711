//! Newline-delimited byte buffers used as sampling sources: random
//! single-line sampling and a sequential cursor with wraparound.

use vstd::prelude::*;
use vstd::slice::slice_subrange;
use vstd::string::{StrSliceExecFns, StringSliceAdditionalSpecFns};

use crate::rnd::rand_index;
use crate::util::{lemma_rfind, lemma_scan_to, rfind, scan_to};

verus! {

/// True when `s` holds no newline byte.
pub open spec fn no_newline(s: Seq<u8>) -> bool {
    forall|k: int| 0 <= k < s.len() ==> s[k] != 10
}

/// Start of the line of `d` that contains or follows position `off`:
/// one past the previous newline, or the buffer start.
pub open spec fn line_start(d: Seq<u8>, off: int) -> int {
    rfind(d, off, 10) + 1
}

/// End of the line of `d` at position `off`: the next newline at or
/// after `off`, or the buffer end.
pub open spec fn line_end(d: Seq<u8>, off: int) -> int {
    scan_to(d, off, 10)
}

/// The whole line of `d` around position `off`.
pub open spec fn line_at(d: Seq<u8>, off: int) -> Seq<u8> {
    d.subrange(line_start(d, off), line_end(d, off))
}

/// Where the sequential cursor stands after emitting the line at `off`:
/// one past the line's newline, wrapped to the start when it reaches or
/// passes the buffer end.
pub open spec fn next_offset(d: Seq<u8>, off: int) -> int {
    if line_end(d, off) + 1 >= d.len() {
        0
    } else {
        line_end(d, off) + 1
    }
}

pub proof fn lemma_line_at(d: Seq<u8>, off: int)
    requires
        0 <= off <= d.len(),
    ensures
        0 <= line_start(d, off) <= off,
        off <= line_end(d, off) <= d.len(),
        no_newline(d.subrange(line_start(d, off), line_end(d, off))),
        0 <= next_offset(d, off) < d.len() || next_offset(d, off) == 0,
{
    lemma_rfind(d, off, 10);
    lemma_scan_to(d, off, 10);
    let s = line_start(d, off);
    let e = line_end(d, off);
    assert forall|k: int| 0 <= k < e - s implies d.subrange(s, e)[k] != 10 by {
        assert(d.subrange(s, e)[k] == d[s + k]);
        if s + k < off {
            assert(rfind(d, off, 10) < s + k < off);
        }
    }
}

/// Emits the line of `d` that starts at the cursor, then advances the
/// cursor past that line's newline, wrapping to the buffer start when
/// it reaches or passes the buffer end.
pub fn next_line<'a>(data: &'a [u8], offset: &mut usize) -> (r: &'a [u8])
    requires
        *old(offset) <= data@.len(),
    ensures
        r@ == data@.subrange(*old(offset) as int, line_end(data@, *old(offset) as int)),
        no_newline(r@),
        *final(offset) == next_offset(data@, *old(offset) as int),
        *final(offset) <= data@.len(),
{
    let start: usize = *offset;
    let mut end: usize = *offset;
    while end < data.len() && data[end] != 10
        invariant
            start <= data@.len(),
            start <= end <= data@.len(),
            scan_to(data@, start as int, 10) == scan_to(data@, end as int, 10),
        decreases data@.len() - end,
    {
        end = end + 1;
    }
    proof {
        lemma_scan_to(data@, start as int, 10);
        assert(line_end(data@, start as int) == end);
    }
    if end >= data.len() {
        *offset = 0;
    } else {
        let n = end + 1;
        *offset = if n >= data.len() {
            0
        } else {
            n
        };
    }
    let r = slice_subrange(data, start, end);
    proof {
        lemma_line_at(data@, start as int);
        assert forall|k: int| 0 <= k < r@.len() implies r@[k] != 10 by {
            assert(r@[k] == data@[start + k]);
        }
    }
    r
}

/// Emits one uniformly chosen line of `data`: the line around a random
/// position, bounded by the surrounding newlines or the buffer edges.
pub fn random_line(data: &[u8]) -> (r: &[u8])
    requires
        data@.len() > 0,
    ensures
        exists|off: int| 0 <= off < data@.len() && r@ == line_at(data@, off),
        no_newline(r@),
{
    let off = rand_index(data.len());
    let start = line_start_exec(data, off);
    let end = crate::util::scan_to_exec(data, off, 10);
    proof {
        lemma_line_at(data@, off as int);
    }
    let r = slice_subrange(data, start, end);
    proof {
        assert(r@ == line_at(data@, off as int));
        assert forall|k: int| 0 <= k < r@.len() implies r@[k] != 10 by {
            assert(r@[k] == data@[start + k]);
        }
        assert(no_newline(line_at(data@, off as int)));
    }
    r
}

/// Start of the line around `off`, as `line_start` gives it.
fn line_start_exec(d: &[u8], off: usize) -> (r: usize)
    requires
        off <= d@.len(),
    ensures
        r as int == line_start(d@, off as int),
        r <= off,
{
    let mut s: usize = off;
    while s > 0 && d[s - 1] != 10
        invariant
            s <= off <= d@.len(),
            rfind(d@, off as int, 10) == rfind(d@, s as int, 10),
        decreases s,
    {
        s = s - 1;
    }
    proof {
        lemma_rfind(d@, off as int, 10);
    }
    s
}

/// The contents of the built-in corpus of first names.
pub open spec fn first_corpus() -> Seq<u8> {
    "Alice\nBob\nCarol\nDavid\nErin\nFrank\nGrace\nHenry\nIris\nJack\n".spec_bytes()
}

/// The built-in corpus of first names.
pub fn corpus_first() -> (r: Vec<u8>)
    ensures
        r@ == first_corpus(),
{
    "Alice\nBob\nCarol\nDavid\nErin\nFrank\nGrace\nHenry\nIris\nJack\n".as_bytes_vec()
}

/// The contents of the built-in corpus of last names.
pub open spec fn last_corpus() -> Seq<u8> {
    "Smith\nJones\nGarcia\nMiller\nDavis\nWilson\nMoore\nTaylor\nClark\nLewis\n".spec_bytes()
}

/// The built-in corpus of last names.
pub fn corpus_last() -> (r: Vec<u8>)
    ensures
        r@ == last_corpus(),
{
    "Smith\nJones\nGarcia\nMiller\nDavis\nWilson\nMoore\nTaylor\nClark\nLewis\n".as_bytes_vec()
}

/// The contents of the built-in corpus of mail domains.
pub open spec fn domain_corpus() -> Seq<u8> {
    "example.com\nexample.org\nexample.net\nmail.test\npost.test\n".spec_bytes()
}

/// The built-in corpus of mail domains.
pub fn corpus_domain() -> (r: Vec<u8>)
    ensures
        r@ == domain_corpus(),
{
    "example.com\nexample.org\nexample.net\nmail.test\npost.test\n".as_bytes_vec()
}

/// The contents of the built-in corpus of country codes.
pub open spec fn country_code_corpus() -> Seq<u8> {
    "US\nGB\nDE\nFR\nES\nIT\nNL\nSE\nJP\nBR\n".spec_bytes()
}

/// The built-in corpus of country codes.
pub fn corpus_country_code() -> (r: Vec<u8>)
    ensures
        r@ == country_code_corpus(),
{
    "US\nGB\nDE\nFR\nES\nIT\nNL\nSE\nJP\nBR\n".as_bytes_vec()
}

} // verus!

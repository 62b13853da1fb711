//! Byte-level helpers shared by the corpus sources, the number
//! formatter and the template compiler: forward and backward scans
//! for a byte, substring search, whitespace trimming and splitting.

use vstd::prelude::*;

verus! {

/// First index at or after `j` where `b` occurs in `d`; `d.len()` if none.
pub open spec fn scan_to(d: Seq<u8>, j: int, b: u8) -> int
    decreases d.len() - j,
{
    if j < 0 || j >= d.len() {
        d.len() as int
    } else if d[j] == b {
        j
    } else {
        scan_to(d, j + 1, b)
    }
}

pub proof fn lemma_scan_to(d: Seq<u8>, j: int, b: u8)
    requires
        0 <= j <= d.len(),
    ensures
        j <= scan_to(d, j, b) <= d.len(),
        scan_to(d, j, b) < d.len() ==> d[scan_to(d, j, b)] == b,
        forall|k: int| j <= k < scan_to(d, j, b) ==> d[k] != b,
    decreases d.len() - j,
{
    if j < d.len() && d[j] != b {
        lemma_scan_to(d, j + 1, b);
    }
}

/// Greatest index strictly below `j` where `b` occurs in `d`; `-1` if none.
pub open spec fn rfind(d: Seq<u8>, j: int, b: u8) -> int
    decreases j,
{
    if j <= 0 || j > d.len() {
        -1
    } else if d[j - 1] == b {
        j - 1
    } else {
        rfind(d, j - 1, b)
    }
}

pub proof fn lemma_rfind(d: Seq<u8>, j: int, b: u8)
    requires
        0 <= j <= d.len(),
    ensures
        -1 <= rfind(d, j, b) < j,
        rfind(d, j, b) >= 0 ==> d[rfind(d, j, b)] == b,
        forall|k: int| rfind(d, j, b) < k < j ==> d[k] != b,
    decreases j,
{
    if j > 0 && d[j - 1] != b {
        lemma_rfind(d, j - 1, b);
    }
}

/// True when `pat` occurs in `d` starting at `pos`.
pub open spec fn is_at(d: Seq<u8>, pos: int, pat: Seq<u8>) -> bool {
    &&& 0 <= pos
    &&& pos + pat.len() <= d.len()
    &&& d.subrange(pos, pos + pat.len() as int) == pat
}

/// First position at or after `j` where a non-empty `pat` occurs in `d`;
/// `-1` if none.
pub open spec fn find_at(d: Seq<u8>, j: int, pat: Seq<u8>) -> int
    decreases d.len() - j,
{
    if pat.len() == 0 || j < 0 || j + pat.len() > d.len() {
        -1
    } else if is_at(d, j, pat) {
        j
    } else {
        find_at(d, j + 1, pat)
    }
}

pub proof fn lemma_find_at(d: Seq<u8>, j: int, pat: Seq<u8>)
    requires
        0 <= j,
        pat.len() > 0,
    ensures
        find_at(d, j, pat) == -1 || j <= find_at(d, j, pat),
        find_at(d, j, pat) >= 0 ==> is_at(d, find_at(d, j, pat), pat),
        forall|k: int| j <= k < find_at(d, j, pat) ==> !is_at(d, k, pat),
        find_at(d, j, pat) == -1 ==> forall|k: int| j <= k ==> !is_at(d, k, pat),
    decreases d.len() - j,
{
    if j + pat.len() > d.len() {
        assert forall|k: int| j <= k implies !is_at(d, k, pat) by {}
    } else if !is_at(d, j, pat) {
        lemma_find_at(d, j + 1, pat);
    }
}

/// ASCII whitespace, as the argument trimmer understands it.
pub open spec fn is_space(b: u8) -> bool {
    b == 32 || (9 <= b <= 13)
}

/// First index at or after `j` holding a non-space byte; `d.len()` if none.
pub open spec fn skip_spaces(d: Seq<u8>, j: int) -> int
    decreases d.len() - j,
{
    if j < 0 || j >= d.len() {
        d.len() as int
    } else if !is_space(d[j]) {
        j
    } else {
        skip_spaces(d, j + 1)
    }
}

pub proof fn lemma_skip_spaces(d: Seq<u8>, j: int)
    requires
        0 <= j <= d.len(),
    ensures
        j <= skip_spaces(d, j) <= d.len(),
        skip_spaces(d, j) < d.len() ==> !is_space(d[skip_spaces(d, j)]),
        forall|k: int| j <= k < skip_spaces(d, j) ==> is_space(d[k]),
    decreases d.len() - j,
{
    if j < d.len() && is_space(d[j]) {
        lemma_skip_spaces(d, j + 1);
    }
}

/// One past the last non-space byte strictly below `j`; `0` if only spaces.
pub open spec fn rskip_spaces(d: Seq<u8>, j: int) -> int
    decreases j,
{
    if j <= 0 || j > d.len() {
        0
    } else if !is_space(d[j - 1]) {
        j
    } else {
        rskip_spaces(d, j - 1)
    }
}

pub proof fn lemma_rskip_spaces(d: Seq<u8>, j: int)
    requires
        0 <= j <= d.len(),
    ensures
        0 <= rskip_spaces(d, j) <= j,
        rskip_spaces(d, j) > 0 ==> !is_space(d[rskip_spaces(d, j) - 1]),
        forall|k: int| rskip_spaces(d, j) <= k < j ==> is_space(d[k]),
    decreases j,
{
    if j > 0 && is_space(d[j - 1]) {
        lemma_rskip_spaces(d, j - 1);
    }
}

/// `d` with leading and trailing ASCII whitespace removed.
pub open spec fn trim_spec(d: Seq<u8>) -> Seq<u8> {
    let a = skip_spaces(d, 0);
    let z = rskip_spaces(d, d.len() as int);
    if a >= z {
        Seq::empty()
    } else {
        d.subrange(a, z)
    }
}

/// True when `pat` occurs in `d` at position `at`.
pub fn starts_with_at(d: &[u8], at: usize, pat: &[u8]) -> (r: bool)
    requires
        at <= d@.len(),
    ensures
        r == is_at(d@, at as int, pat@),
{
    if pat.len() > d.len() - at {
        proof {
            assert(!is_at(d@, at as int, pat@));
        }
        return false;
    }
    let n = pat.len();
    let dn = d.len();
    let mut k: usize = 0;
    while k < n
        invariant
            k <= n,
            at + n <= dn,
            dn == d@.len(),
            n == pat@.len(),
            forall|j: int| 0 <= j < k ==> d@[at + j] == pat@[j],
        decreases n - k,
    {
        if d[at + k] != pat[k] {
            proof {
                assert(d@.subrange(at as int, at + n) != pat@) by {
                    assert(d@.subrange(at as int, at + n)[k as int] == d@[at + k]);
                }
            }
            return false;
        }
        k = k + 1;
    }
    proof {
        assert(d@.subrange(at as int, at + n) =~= pat@);
    }
    true
}

/// First position at or after `from` where `pat` occurs in `d`, as
/// `find_at` gives it; `None` if it does not occur.
pub fn find_at_exec(d: &[u8], from: usize, pat: &[u8]) -> (r: Option<usize>)
    requires
        from <= d@.len(),
        pat@.len() > 0,
    ensures
        match r {
            Some(p) => p == find_at(d@, from as int, pat@) && from <= p && p + pat@.len()
                <= d@.len(),
            None => find_at(d@, from as int, pat@) == -1,
        },
{
    let dn = d.len();
    let pn = pat.len();
    if pn > dn {
        return None;
    }
    let mut s: usize = from;
    while s <= dn - pn
        invariant
            from <= s,
            pn <= dn,
            s <= dn + 1,
            dn == d@.len(),
            pn == pat@.len(),
            pat@.len() > 0,
            find_at(d@, from as int, pat@) == find_at(d@, s as int, pat@),
        decreases dn - s,
    {
        if starts_with_at(d, s, pat) {
            return Some(s);
        }
        s = s + 1;
    }
    None
}

/// Greatest index strictly below `from` where `b` occurs in `d`, as
/// `rfind` gives it; `None` if it does not occur.
pub fn rfind_exec(d: &[u8], from: usize, b: u8) -> (r: Option<usize>)
    requires
        from <= d@.len(),
    ensures
        match r {
            Some(p) => p == rfind(d@, from as int, b) && p < from,
            None => rfind(d@, from as int, b) == -1,
        },
{
    let mut s: usize = from;
    while s > 0
        invariant
            s <= from <= d@.len(),
            rfind(d@, from as int, b) == rfind(d@, s as int, b),
        decreases s,
    {
        if d[s - 1] == b {
            return Some(s - 1);
        }
        s = s - 1;
    }
    None
}

/// `v` with leading and trailing ASCII whitespace removed, as
/// `trim_spec` gives it.
pub fn trim_exec(v: &[u8]) -> (r: Vec<u8>)
    ensures
        r@ == trim_spec(v@),
{
    let n = v.len();
    let mut a: usize = 0;
    while a < n && (v[a] == 32 || (9 <= v[a] && v[a] <= 13))
        invariant
            a <= n,
            n == v@.len(),
            skip_spaces(v@, 0) == skip_spaces(v@, a as int),
        decreases n - a,
    {
        a = a + 1;
    }
    let mut z: usize = n;
    while z > 0 && (v[z - 1] == 32 || (9 <= v[z - 1] && v[z - 1] <= 13))
        invariant
            z <= n == v@.len(),
            rskip_spaces(v@, n as int) == rskip_spaces(v@, z as int),
        decreases z,
    {
        z = z - 1;
    }
    proof {
        lemma_skip_spaces(v@, 0);
        lemma_rskip_spaces(v@, n as int);
    }
    if a >= z {
        Vec::new()
    } else {
        copy_range(v, a, z)
    }
}

/// True when the byte sequences are equal.
pub fn bytes_eq(a: &[u8], b: &[u8]) -> (r: bool)
    ensures
        r == (a@ == b@),
{
    if a.len() != b.len() {
        proof {
            assert(a@.len() != b@.len());
        }
        return false;
    }
    let n = a.len();
    let mut k: usize = 0;
    while k < n
        invariant
            k <= n,
            n == a@.len() == b@.len(),
            forall|j: int| 0 <= j < k ==> a@[j] == b@[j],
        decreases n - k,
    {
        if a[k] != b[k] {
            return false;
        }
        k = k + 1;
    }
    proof {
        assert(a@ =~= b@);
    }
    true
}

/// Appends every byte of `src` to `out`.
pub fn append_bytes(out: &mut Vec<u8>, src: &[u8])
    ensures
        final(out)@ == old(out)@ + src@,
{
    let mut k: usize = 0;
    while k < src.len()
        invariant
            k <= src@.len(),
            out@ == old(out)@ + src@.subrange(0, k as int),
        decreases src@.len() - k,
    {
        out.push(src[k]);
        k = k + 1;
        assert(src@.subrange(0, k as int) == src@.subrange(0, k - 1) + seq![src@[k - 1]]);
    }
    assert(src@.subrange(0, src@.len() as int) == src@);
}

/// Copies the bytes of `src` between `from` and `to` into a fresh vector.
pub fn copy_range(src: &[u8], from: usize, to: usize) -> (r: Vec<u8>)
    requires
        from <= to <= src@.len(),
    ensures
        r@ == src@.subrange(from as int, to as int),
{
    let mut out: Vec<u8> = Vec::new();
    let mut k: usize = from;
    while k < to
        invariant
            from <= k <= to <= src@.len(),
            out@ == src@.subrange(from as int, k as int),
        decreases to - k,
    {
        out.push(src[k]);
        k = k + 1;
        assert(src@.subrange(from as int, k as int) == src@.subrange(from as int, k - 1).push(
            src@[k - 1],
        ));
    }
    out
}

/// A fresh copy of the byte vector.
pub fn clone_bytes(v: &Vec<u8>) -> (r: Vec<u8>)
    ensures
        r@ == v@,
{
    let r = copy_range(v.as_slice(), 0, v.len());
    proof {
        assert(v@.subrange(0, v@.len() as int) =~= v@);
    }
    r
}

/// The view of a byte vector and its deep view coincide.
pub proof fn lemma_bytes_deep_view(v: Vec<u8>)
    ensures
        v.deep_view() == v@,
{
    assert(v.deep_view() =~= v@);
}

/// First index at or after `from` where `b` occurs in `d`, as `scan_to` gives it.
pub fn scan_to_exec(d: &[u8], from: usize, b: u8) -> (r: usize)
    requires
        from <= d@.len(),
    ensures
        r == scan_to(d@, from as int, b),
        from <= r <= d@.len(),
{
    let mut k: usize = from;
    while k < d.len()
        invariant
            from <= k <= d@.len(),
            scan_to(d@, from as int, b) == scan_to(d@, k as int, b),
        decreases d@.len() - k,
    {
        if d[k] == b {
            return k;
        }
        k = k + 1;
    }
    k
}

} // verus!

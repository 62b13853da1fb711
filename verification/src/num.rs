//! Decimal rendering and decimal parsing on byte sequences, with exact
//! functional specifications.

use vstd::prelude::*;

verus! {

/// The shortest decimal digit string of `n`.
pub open spec fn dec_u64(n: nat) -> Seq<u8>
    decreases n,
{
    if n < 10 {
        seq![(48 + n) as u8]
    } else {
        dec_u64(n / 10).push((48 + n % 10) as u8)
    }
}

/// The decimal digit string of `n`, zero-padded on the left to at least
/// `w` digits.
pub open spec fn dec_pad(n: nat, w: nat) -> Seq<u8>
    decreases n, w,
{
    if n < 10 && w <= 1 {
        seq![(48 + n) as u8]
    } else {
        dec_pad(n / 10, if w == 0 { 0 } else { (w - 1) as nat }).push((48 + n % 10) as u8)
    }
}

/// The decimal form of `v`, with a leading minus sign when negative.
pub open spec fn dec_i64(v: int) -> Seq<u8> {
    if v < 0 {
        seq![45u8] + dec_u64((-v) as nat)
    } else {
        dec_u64(v as nat)
    }
}

/// Appends the decimal digits of `n` to `out`.
pub fn push_dec_u64(out: &mut Vec<u8>, n: u64)
    ensures
        final(out)@ == old(out)@ + dec_u64(n as nat),
    decreases n,
{
    if n >= 10 {
        push_dec_u64(out, n / 10);
    }
    out.push(48 + (n % 10) as u8);
    proof {
        if n >= 10 {
            assert(out@ =~= old(out)@ + dec_u64(n as nat));
        } else {
            assert(out@ =~= old(out)@ + dec_u64(n as nat));
        }
    }
}

/// Appends the decimal digits of `n`, zero-padded to at least `w` digits.
pub fn push_dec_pad(out: &mut Vec<u8>, n: u64, w: u64)
    ensures
        final(out)@ == old(out)@ + dec_pad(n as nat, w as nat),
    decreases n, w,
{
    if n >= 10 || w > 1 {
        push_dec_pad(out, n / 10, if w == 0 { 0 } else { w - 1 });
    }
    out.push(48 + (n % 10) as u8);
    proof {
        assert(out@ =~= old(out)@ + dec_pad(n as nat, w as nat));
    }
}

/// Appends the decimal form of `v`, with a minus sign when negative.
pub fn push_dec_i64(out: &mut Vec<u8>, v: i64)
    ensures
        final(out)@ == old(out)@ + dec_i64(v as int),
{
    if v < 0 {
        out.push(45);
        let m: u64 = ((-(v + 1)) as u64) + 1;
        assert(m == -(v as int));
        push_dec_u64(out, m);
        proof {
            assert(out@ =~= old(out)@ + dec_i64(v as int));
        }
    } else {
        push_dec_u64(out, v as u64);
    }
}

/// An ASCII decimal digit.
pub open spec fn is_digit(b: u8) -> bool {
    48 <= b <= 57
}

pub open spec fn all_digits(s: Seq<u8>) -> bool {
    forall|k: int| 0 <= k < s.len() ==> is_digit(s[k])
}

/// The value of a string of decimal digits.
pub open spec fn digits_val(s: Seq<u8>) -> nat
    decreases s.len(),
{
    if s.len() == 0 {
        0
    } else {
        digits_val(s.drop_last()) * 10 + (if s.last() >= 48 {
            (s.last() - 48) as nat
        } else {
            0
        })
    }
}

/// What parsing `s` as a 32-bit signed decimal integer yields: an
/// optional sign, then one or more digits, valid only within the
/// 32-bit range.
pub open spec fn parse_i32_spec(s: Seq<u8>) -> Option<int> {
    let ds = if s.len() > 0 && (s[0] == 43 || s[0] == 45) {
        s.skip(1)
    } else {
        s
    };
    let sign: int = if s.len() > 0 && s[0] == 45 {
        -1
    } else {
        1
    };
    if ds.len() == 0 || !all_digits(ds) {
        None
    } else {
        let v = sign * digits_val(ds);
        if -0x8000_0000 <= v <= 0x7fff_ffff {
            Some(v)
        } else {
            None
        }
    }
}

proof fn lemma_digits_val_grows(s: Seq<u8>, k: int)
    requires
        0 <= k <= s.len(),
    ensures
        digits_val(s) >= digits_val(s.subrange(0, k)),
    decreases s.len() - k,
{
    if k < s.len() {
        lemma_digits_val_grows(s, k + 1);
        assert(s.subrange(0, k + 1).drop_last() =~= s.subrange(0, k));
    } else {
        assert(s.subrange(0, k) =~= s);
    }
}

/// Parses `s` as a 32-bit signed decimal integer, widened to `i64`.
pub fn parse_i32(s: &[u8]) -> (r: Option<i64>)
    ensures
        r is Some <==> parse_i32_spec(s@) is Some,
        r is Some ==> r.unwrap() as int == parse_i32_spec(s@).unwrap(),
{
    let n = s.len();
    let (start, neg): (usize, bool) = if n > 0 && (s[0] == 43 || s[0] == 45) {
        (1, s[0] == 45)
    } else {
        (0, false)
    };
    let ghost ds = s@.subrange(start as int, n as int);
    proof {
        if start == 1 {
            assert(ds =~= s@.skip(1));
        } else {
            assert(ds =~= s@);
        }
    }
    if n == start {
        assert(ds.len() == 0);
        return None;
    }
    let mut acc: i64 = 0;
    let mut k: usize = start;
    while k < n
        invariant
            start <= k <= n,
            n == s@.len(),
            ds == s@.subrange(start as int, n as int),
            (start == 1) <==> (s@.len() > 0 && (s@[0] == 43 || s@[0] == 45)),
            start == 0 || start == 1,
            neg <==> (s@.len() > 0 && s@[0] == 45),
            acc == digits_val(ds.subrange(0, k - start)),
            0 <= acc <= 0x8000_0000,
            all_digits(ds.subrange(0, k - start)),
        decreases n - k,
    {
        let b = s[k];
        proof {
            assert(ds[k - start] == b);
        }
        if b < 48 || b > 57 {
            assert(!all_digits(ds));
            return None;
        }
        acc = acc * 10 + ((b - 48) as i64);
        k = k + 1;
        proof {
            assert(ds.subrange(0, k - start).drop_last() =~= ds.subrange(0, k - start - 1));
            assert(ds.subrange(0, k - start).last() == b);
        }
        if acc > 0x8000_0000 {
            proof {
                if start == 1 {
                    assert(ds =~= s@.skip(1));
                } else {
                    assert(ds =~= s@);
                }
                lemma_digits_val_grows(ds, k - start);
                assert(ds =~= ds.subrange(0, ds.len() as int));
                assert(digits_val(ds) >= acc);
                let sign: int = if s@.len() > 0 && s@[0] == 45 {
                    -1
                } else {
                    1
                };
                let dv = digits_val(ds) as int;
                assert(sign * dv == if sign == 1 {
                    dv
                } else {
                    -dv
                }) by (nonlinear_arith)
                    requires
                        sign == 1 || sign == -1,
                ;
                assert(parse_i32_spec(s@) is None);
            }
            return None;
        }
    }
    proof {
        assert(ds.subrange(0, ds.len() as int) =~= ds);
        assert(digits_val(ds) == acc);
        let sign: int = if s@.len() > 0 && s@[0] == 45 {
            -1
        } else {
            1
        };
        let dv = digits_val(ds) as int;
        assert(sign * dv == if sign == 1 {
            dv
        } else {
            -dv
        }) by (nonlinear_arith)
            requires
                sign == 1 || sign == -1,
        ;
    }
    if neg {
        Some(-acc)
    } else {
        if acc == 0x8000_0000 {
            None
        } else {
            Some(acc)
        }
    }
}

} // verus!

//! Decimal number tokens: `$var` widths and `#` timestamps are
//! unsigned decimal integers that must fit in a `u64`.

use vstd::prelude::*;

verus! {

/// Whether a byte is an ASCII decimal digit.
pub open spec fn is_digit(b: u8) -> bool {
    48 <= b && b <= 57
}

/// Whether every byte of `s` is a decimal digit.
pub open spec fn all_digits(s: Seq<u8>) -> bool {
    forall|i: int| 0 <= i < s.len() ==> is_digit(s[i])
}

/// The number a digit string denotes in base 10.
pub open spec fn dec_val(s: Seq<u8>) -> int
    decreases s.len(),
{
    if s.len() == 0 {
        0
    } else {
        dec_val(s.subrange(0, s.len() - 1)) * 10 + (s[s.len() - 1] - 48)
    }
}

/// The value of a decimal token: defined when the token is a nonempty
/// run of digits whose value fits in a `u64`.
pub open spec fn spec_u64(s: Seq<u8>) -> Option<u64> {
    if s.len() > 0 && all_digits(s) && dec_val(s) <= u64::MAX {
        Option::Some(dec_val(s) as u64)
    } else {
        Option::None
    }
}

/// A digit string denotes a nonnegative number.
proof fn lemma_dec_val_nonneg(s: Seq<u8>)
    requires
        all_digits(s),
    ensures
        dec_val(s) >= 0,
    decreases s.len(),
{
    if s.len() > 0 {
        let pre = s.subrange(0, s.len() - 1);
        assert(all_digits(pre));
        lemma_dec_val_nonneg(pre);
    }
}

/// Reading more digits never makes the number smaller.
proof fn lemma_dec_val_mono(s: Seq<u8>, k: int)
    requires
        all_digits(s),
        0 <= k <= s.len(),
    ensures
        dec_val(s.subrange(0, k)) <= dec_val(s),
    decreases s.len() - k,
{
    if k == s.len() {
        assert(s.subrange(0, k) =~= s);
    } else {
        let p = s.subrange(0, k);
        let q = s.subrange(0, k + 1);
        assert(q.subrange(0, k) =~= p);
        assert(all_digits(p));
        lemma_dec_val_nonneg(p);
        assert(dec_val(q) == dec_val(p) * 10 + (q[k] - 48));
        assert(dec_val(p) * 10 >= dec_val(p)) by (nonlinear_arith)
            requires
                dec_val(p) >= 0,
        ;
        lemma_dec_val_mono(s, k + 1);
    }
}

/// Parses `t[start..]` as a decimal `u64`: returns the value exactly
/// when the suffix is a nonempty digit string that fits in a `u64`.
pub fn parse_u64_from(t: &Vec<u8>, start: usize) -> (r: Option<u64>)
    requires
        start <= t@.len(),
    ensures
        r == spec_u64(t@.subrange(start as int, t@.len() as int)),
{
    let ghost sub = t@.subrange(start as int, t@.len() as int);
    if start == t.len() {
        return Option::None;
    }
    let mut acc: u64 = 0;
    let mut j: usize = start;
    while j < t.len()
        invariant
            start <= j <= t@.len(),
            sub == t@.subrange(start as int, t@.len() as int),
            forall|k: int| 0 <= k < j - start ==> is_digit(sub[k]),
            acc == dec_val(sub.subrange(0, j - start)),
        decreases t@.len() - j,
    {
        let b = t[j];
        proof {
            assert(sub[j - start] == t@[j as int]);
        }
        if !(48 <= b && b <= 57) {
            proof {
                assert(!all_digits(sub));
            }
            return Option::None;
        }
        let d: u64 = (b - 48) as u64;
        let ghost pre = sub.subrange(0, j - start);
        let ghost cur = sub.subrange(0, j + 1 - start);
        proof {
            assert(cur.subrange(0, cur.len() - 1) =~= pre);
            assert(cur[cur.len() - 1] == b);
            assert(dec_val(cur) == dec_val(pre) * 10 + (b - 48));
        }
        if acc > u64::MAX / 10 {
            proof {
                assert(acc * 10 + d > u64::MAX) by (nonlinear_arith)
                    requires
                        acc > u64::MAX / 10,
                        d >= 0,
                ;
                if all_digits(sub) {
                    lemma_dec_val_mono(sub, j + 1 - start);
                }
            }
            return Option::None;
        }
        let acc2: u64 = acc * 10;
        proof {
            assert(acc * 10 <= (u64::MAX / 10) * 10) by (nonlinear_arith)
                requires
                    acc <= u64::MAX / 10,
            ;
        }
        if acc2 > u64::MAX - d {
            proof {
                if all_digits(sub) {
                    lemma_dec_val_mono(sub, j + 1 - start);
                }
            }
            return Option::None;
        }
        acc = acc2 + d;
        j = j + 1;
    }
    proof {
        assert(sub.subrange(0, sub.len() as int) =~= sub);
        assert(all_digits(sub));
        lemma_dec_val_nonneg(sub);
    }
    Option::Some(acc)
}

} // verus!

use vstd::prelude::*;

verus! {

/// The byte of the decimal point.
pub const POINT: u8 = 46;

/// The number of ten-thousandths in one unit.
pub const SCALE: u64 = 10000;

pub open spec fn is_digit(b: u8) -> bool {
    48 <= b <= 57
}

pub open spec fn all_digits(s: Seq<u8>) -> bool {
    forall|i: int| 0 <= i < s.len() ==> is_digit(#[trigger] s[i])
}

/// The number that a string of decimal digits writes.
pub open spec fn digits_value(s: Seq<u8>) -> int
    decreases s.len(),
{
    if s.len() == 0 {
        0
    } else {
        digits_value(s.drop_last()) * 10 + (s.last() - 48)
    }
}

/// The fraction written by the digits `f` after a point, in ten-thousandths,
/// rounded half up.
pub open spec fn fraction_value(f: Seq<u8>) -> int {
    let padded = f + seq![48u8, 48u8, 48u8, 48u8, 48u8];
    digits_value(padded.take(4)) + if padded[4] >= 53 {
        1int
    } else {
        0int
    }
}

/// `s[k]` is the one decimal point of `s`, with only digits on either side.
pub open spec fn is_point_of(s: Seq<u8>, k: int) -> bool {
    &&& 0 <= k < s.len()
    &&& s[k] == POINT
    &&& all_digits(s.take(k))
    &&& all_digits(s.skip(k + 1))
    &&& s.len() > 1
}

/// The amount that `s` writes, in ten-thousandths: digits, optionally a point
/// and more digits, rounded half up to four fractional digits. The empty
/// string is zero; anything else is not an amount.
pub open spec fn amount_value(s: Seq<u8>) -> Option<int> {
    if all_digits(s) {
        Some(digits_value(s) * 10000)
    } else if exists|k: int| is_point_of(s, k) {
        let k = choose|k: int| is_point_of(s, k);
        Some(digits_value(s.take(k)) * 10000 + fraction_value(s.skip(k + 1)))
    } else {
        None
    }
}

/// The amount written in `s`, where it is one and fits in a `u64`.
pub open spec fn amount_of(s: Seq<u8>) -> Option<u64> {
    match amount_value(s) {
        Some(v) => if v <= u64::MAX {
            Some(v as u64)
        } else {
            None
        },
        None => None,
    }
}

proof fn lemma_digits_value_grows(s: Seq<u8>, i: int)
    requires
        0 <= i <= s.len(),
        all_digits(s),
    ensures
        digits_value(s.take(i)) <= digits_value(s),
    decreases s.len() - i,
{
    if i < s.len() {
        lemma_digits_value_grows(s, i + 1);
        assert(s.take(i + 1).drop_last() =~= s.take(i));
        assert(s.take(i + 1).last() == s[i]);
        assert(is_digit(s[i]));
        assert(all_digits(s.take(i)));
        lemma_digits_value_bounded(s.take(i));
    } else {
        assert(s.take(i) =~= s);
    }
}

proof fn lemma_digits_value_bounded(s: Seq<u8>)
    requires
        all_digits(s),
    ensures
        digits_value(s) >= 0,
        s.len() == 0 ==> digits_value(s) == 0,
        s.len() <= 1 ==> digits_value(s) < 10,
        s.len() <= 2 ==> digits_value(s) < 100,
        s.len() <= 3 ==> digits_value(s) < 1000,
        s.len() <= 4 ==> digits_value(s) < 10000,
    decreases s.len(),
{
    if s.len() > 0 {
        assert(all_digits(s.drop_last()) && is_digit(s.last()));
        lemma_digits_value_bounded(s.drop_last());
    }
}

/// The amount written in `s`, in ten-thousandths; `None` where `s` is not an
/// amount or the amount does not fit in a `u64`.
pub fn parse_amount(s: &[u8]) -> (r: Option<u64>)
    ensures
        r == amount_of(s@),
{
    let n = s.len();
    let mut k: usize = 0;
    while k < n && s[k] != POINT
        invariant
            k <= n == s@.len(),
            forall|j: int| 0 <= j < k ==> s@[j] != POINT,
        decreases n - k,
    {
        k = k + 1;
    }
    // The digits before the point, or of the whole string if it has none.
    let mut whole: u64 = 0;
    let mut i: usize = 0;
    while i < k
        invariant
            k <= n == s@.len(),
            i <= k,
            forall|j: int| 0 <= j < k ==> s@[j] != POINT,
            k < n ==> s@[k as int] == POINT,
            all_digits(s@.take(i as int)),
            whole == digits_value(s@.take(i as int)),
            whole <= u64::MAX / 10000,
        decreases k - i,
    {
        let b = s[i];
        assert(s@.take(i + 1).drop_last() =~= s@.take(i as int));
        if b < 48 || b > 57 {
            proof {
                assert(!all_digits(s@));
                assert forall|p: int| !is_point_of(s@, p) by {
                    if is_point_of(s@, p) {
                        if p < i {
                            assert(s@[p] == POINT);
                        } else {
                            assert(s@.take(p)[i as int] == b);
                        }
                    }
                }
            }
            return None;
        }
        let next = whole as u128 * 10 + (b - 48) as u128;
        if next > (u64::MAX / 10000) as u128 {
            proof {
                assert(all_digits(s@.take(i + 1)));
                if all_digits(s@) {
                    lemma_digits_value_grows(s@, i + 1);
                } else {
                    assert forall|p: int| is_point_of(s@, p) implies digits_value(s@.take(p)) * 10000
                        + fraction_value(s@.skip(p + 1)) > u64::MAX by {
                        if p < i + 1 {
                            assert(s@[p] == POINT);
                        }
                        assert(s@.take(p).take(i + 1) =~= s@.take(i + 1));
                        lemma_digits_value_grows(s@.take(p), i + 1);
                        let padded = s@.skip(p + 1) + seq![48u8, 48u8, 48u8, 48u8, 48u8];
                        assert(all_digits(padded.take(4)));
                        lemma_digits_value_bounded(padded.take(4));
                    }
                }
            }
            return None;
        }
        whole = next as u64;
        i = i + 1;
    }
    if k == n {
        assert(s@.take(k as int) =~= s@);
        return Some(whole * SCALE);
    }
    // A point at `k`: the digits after it.
    let mut j: usize = k + 1;
    while j < n
        invariant
            k < n == s@.len(),
            k + 1 <= j <= n,
            s@[k as int] == POINT,
            forall|q: int| 0 <= q < k ==> s@[q] != POINT,
            forall|q: int| k < q < j ==> is_digit(#[trigger] s@[q]),
        decreases n - j,
    {
        let b = s[j];
        if b < 48 || b > 57 {
            proof {
                assert(!all_digits(s@)) by {
                    assert(s@[k as int] == POINT);
                }
                assert forall|p: int| !is_point_of(s@, p) by {
                    if is_point_of(s@, p) {
                        if p < k {
                            assert(s@[p] == POINT);
                        } else if p == k {
                            assert(s@.skip(p + 1)[j - k - 1] == b);
                        } else {
                            assert(s@.take(p)[k as int] == POINT);
                        }
                    }
                }
            }
            return None;
        }
        j = j + 1;
    }
    if n == 1 {
        proof {
            assert(!all_digits(s@)) by {
                assert(s@[k as int] == POINT);
            }
        }
        return None;
    }
    let ghost f = s@.skip(k + 1);
    let ghost padded = f + seq![48u8, 48u8, 48u8, 48u8, 48u8];
    let rest = n - k - 1;
    let mut frac: u64 = 0;
    let mut d: usize = 0;
    while d < 4
        invariant
            k < n == s@.len(),
            d <= 4,
            f == s@.skip(k + 1),
            rest == n - k - 1,
            s@[k as int] == POINT,
            padded == f + seq![48u8, 48u8, 48u8, 48u8, 48u8],
            forall|q: int| k < q < n ==> is_digit(#[trigger] s@[q]),
            frac == digits_value(padded.take(d as int)),
            frac < 10000,
        decreases 4 - d,
    {
        let digit: u64 = if d < rest {
            (s[k + 1 + d] - 48) as u64
        } else {
            0
        };
        assert(padded.take(d + 1).drop_last() =~= padded.take(d as int));
        assert(padded[d as int] - 48 == digit) by {
            if d < rest {
                assert(f[d as int] == s@[k + 1 + d]);
            }
        }
        proof {
            assert(all_digits(padded.take(d + 1))) by {
                assert forall|q: int| 0 <= q < d + 1 implies is_digit(#[trigger] padded.take(d + 1)[q]) by {
                    if q < f.len() {
                        assert(f[q] == s@[k + 1 + q]);
                    }
                }
            }
            lemma_digits_value_bounded(padded.take(d + 1));
        }
        frac = frac * 10 + digit;
        d = d + 1;
    }
    let rounding: u64 = if 4 < rest && s[k + 5] >= 53 {
        1
    } else {
        0
    };
    assert(padded[4] >= 53 <==> (4 < rest && s@[k + 5] >= 53)) by {
        if 4 < rest {
            assert(f[4] == s@[k + 5]);
        }
    }
    proof {
        assert(s@.take(k as int) =~= s@.take(i as int));
        assert(all_digits(f));
        assert(is_point_of(s@, k as int));
        assert(!all_digits(s@)) by {
            assert(s@[k as int] == POINT);
        }
        let c = choose|c: int| is_point_of(s@, c);
        if c < k {
            assert(s@[c] == POINT);
        } else if c > k {
            assert(s@.take(c)[k as int] == POINT);
        }
    }
    let total = whole as u128 * SCALE as u128 + (frac + rounding) as u128;
    if total > u64::MAX as u128 {
        return None;
    }
    Some(total as u64)
}

} // verus!

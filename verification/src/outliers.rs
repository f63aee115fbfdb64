//! Outlier detection over the paired-difference series.
//!
//! The default filter ([`iqr_variance_thresholds`]) sorts the series, builds
//! Tukey-style fences five interquartile ranges away from the quartiles, and
//! returns a symmetric pair of trim thresholds.  The alternative filter
//! ([`max_variance_thresholds`]) sorts by magnitude and looks for the first
//! value whose inclusion makes the running variance jump by more than a
//! budget, subject to a binomial balance test between negative and positive
//! outliers.

use vstd::prelude::*;

use crate::ratio::frac_lt;
use crate::sort::{abs_i64, sort_i64, sort_i64_by_abs, sorted_by_abs, sorted_i64};
use crate::summary::{bounded_seq, seq_sum, seq_sum_sq, var_num, MAX_ABS_SAMPLE, MAX_SAMPLE_COUNT};

verus! {

/// A permutation of a bounded series is bounded.
pub proof fn lemma_perm_bounded(t: Seq<i64>, s: Seq<i64>, b: int)
    requires
        t.to_multiset() == s.to_multiset(),
        bounded_seq(s, b),
    ensures
        bounded_seq(t, b),
{
    broadcast use vstd::seq_lib::group_to_multiset_ensures;

    assert forall|i: int| 0 <= i < t.len() implies -b <= #[trigger] t[i] <= b by {
        assert(t.to_multiset().contains(t[i]));
        assert(s.contains(t[i]));
    }
}

/// `idx` is the first index in `[lo, hi)` whose element is at least `x`, or
/// `hi` if there is none.
pub open spec fn is_lower_bound_in(t: Seq<i64>, lo: int, hi: int, x: int, idx: int) -> bool {
    &&& lo <= idx <= hi
    &&& forall|j: int| lo <= j < idx ==> #[trigger] t[j] < x
    &&& idx < hi ==> t[idx] >= x
}

/// First index in `[lo, hi)` of `v` whose element is at least `x`, or `hi`.
fn lower_bound(v: &Vec<i64>, lo: usize, hi: usize, x: i64) -> (idx: usize)
    requires
        lo <= hi <= v@.len(),
    ensures
        is_lower_bound_in(v@, lo as int, hi as int, x as int, idx as int),
{
    let mut idx = lo;
    while idx < hi && v[idx] < x
        invariant
            lo <= idx <= hi <= v@.len(),
            forall|j: int| lo <= j < idx ==> #[trigger] v@[j] < x,
        decreases hi - idx,
    {
        idx = idx + 1;
    }
    idx
}

/// What the interquartile-range filter returns for the sorted series `t`.
///
/// With `q1 = n/4` and `q3 = 3n/4`, the filter is defined when the quartile
/// values differ; the fences sit five interquartile ranges outside them.  The
/// count of first-quartile elements below the low fence (`li`) and the count
/// of elements from `q3` on that are below the high fence (`rel`) give the
/// number of observations `k` trimmed from each side; the thresholds are the
/// sorted values at ranks `k` and `n - k`.
pub open spec fn iqr_outcome(t: Seq<i64>, r: Option<(i64, i64)>) -> bool {
    let n = t.len() as int;
    let q1 = n / 4;
    let q3 = n * 3 / 4;
    if !(q1 < q3 && q3 < n && t[q1] < t[q3]) {
        r is None
    } else {
        let iqr = t[q3] - t[q1];
        let low = t[q1] - iqr * 5;
        let high = t[q3] + iqr * 5;
        exists|li: int, hi_abs: int|
            {
                &&& #[trigger] is_lower_bound_in(t, 0, q1, low, li)
                &&& #[trigger] is_lower_bound_in(t, q3, n, high, hi_abs)
                &&& {
                    let rel = hi_abs - q3;
                    if li == 0 || rel >= n {
                        r is None
                    } else {
                        let k = if li < n - rel {
                            li
                        } else {
                            n - rel
                        };
                        r == Some((t[k] as i64, t[n - k] as i64))
                    }
                }
            }
    }
}

/// Interquartile-range outlier thresholds over a paired-difference series.
///
/// Returns `None` when no usable thresholds exist; otherwise a pair
/// `(low, high)` with `low <= high`, the values at symmetric ranks `k` and
/// `n - k` of the sorted series.
pub fn iqr_variance_thresholds(input: Vec<i64>) -> (r: Option<(i64, i64)>)
    requires
        input@.len() <= MAX_SAMPLE_COUNT,
        bounded_seq(input@, MAX_ABS_SAMPLE as int),
    ensures
        exists|t: Seq<i64>|
            {
                &&& #[trigger] sorted_i64(t)
                &&& t.to_multiset() == input@.to_multiset()
                &&& t.len() == input@.len()
                &&& iqr_outcome(t, r)
            },
        r matches Some((low, high)) ==> low <= high,
        // the trim is symmetric by rank: the same number of observations is
        // cut from each end of the sorted series
        r matches Some((low, high)) ==> exists|t: Seq<i64>, k: int|
            {
                &&& sorted_i64(t)
                &&& t.to_multiset() == input@.to_multiset()
                &&& t.len() == input@.len()
                &&& 1 <= k && 2 * k <= t.len()
                &&& low == #[trigger] t[k]
                &&& high == t[t.len() - k]
            },
{
    let ghost orig = input@;
    let n = input.len();
    let sorted = sort_i64(input);
    proof {
        lemma_perm_bounded(sorted@, orig, MAX_ABS_SAMPLE as int);
    }
    let q1 = n / 4;
    let q3 = n * 3 / 4;
    if !(q1 < q3 && q3 < n) {
        proof {
            assert(iqr_outcome(sorted@, None::<(i64, i64)>));
        }
        return None;
    }
    let vq1 = sorted[q1];
    let vq3 = sorted[q3];
    if vq1 >= vq3 {
        proof {
            assert(iqr_outcome(sorted@, None::<(i64, i64)>));
        }
        return None;
    }
    let iqr = vq3 - vq1;
    let low = vq1 - iqr * 5;
    let high = vq3 + iqr * 5;
    let li = lower_bound(&sorted, 0, q1, low);
    let hi_abs = lower_bound(&sorted, q3, n, high);
    let rel = hi_abs - q3;
    if li == 0 || rel >= n {
        proof {
            assert(is_lower_bound_in(sorted@, 0, q1 as int, low as int, li as int));
            assert(is_lower_bound_in(sorted@, q3 as int, n as int, high as int, hi_abs as int));
            assert(iqr_outcome(sorted@, None::<(i64, i64)>));
        }
        return None;
    }
    let k = if li < n - rel {
        li
    } else {
        n - rel
    };
    let r = Some((sorted[k], sorted[n - k]));
    proof {
        assert(is_lower_bound_in(sorted@, 0, q1 as int, low as int, li as int));
        assert(is_lower_bound_in(sorted@, q3 as int, n as int, high as int, hi_abs as int));
        assert(iqr_outcome(sorted@, r));
        assert(k < n - k || k == n - k);
        assert(sorted@[k as int] <= sorted@[n as int - k as int]);
        assert({
            let t = sorted@;
            &&& sorted_i64(t)
            &&& t.to_multiset() == orig.to_multiset()
            &&& t.len() == orig.len()
            &&& 1 <= k as int && 2 * (k as int) <= t.len()
            &&& sorted@[k as int] == t[k as int]
            &&& sorted@[n as int - k as int] == t[t.len() - k as int]
        });
    }
    r
}

/// Count of negative values in a series.
pub open spec fn count_neg(s: Seq<i64>) -> nat
    decreases s.len(),
{
    if s.len() == 0 {
        0
    } else {
        (if s[0] < 0 {
            1nat
        } else {
            0nat
        }) + count_neg(s.drop_first())
    }
}

/// The balance interval the scan consults for `cnt` remaining outliers:
/// the table entry where one exists, otherwise no interval.
pub open spec fn balance_at(balance: Seq<Option<(usize, usize)>>, cnt: int) -> Option<(usize, usize)> {
    if 0 <= cnt < balance.len() {
        balance[cnt]
    } else {
        None
    }
}

/// The variance-jump scan over the magnitude-sorted series `t`.
///
/// Starting at index `first` with `cnt` candidate outliers left, the scan
/// fires at the first index `j` past `first` where including `t[j]` grows the
/// running variance by more than `100 / (n - cnt)` of itself, provided the
/// count of negative values from `j` on lies inside the balance interval for
/// `cnt` (no interval accepts unconditionally).  The thresholds are then
/// `(-|t[j]|, |t[j]|)`.
pub open spec fn max_var_scan(
    t: Seq<i64>,
    j: int,
    cnt: int,
    first: int,
    balance: Seq<Option<(usize, usize)>>,
) -> Option<(i64, i64)>
    decreases t.len() - j,
        when 0 <= j <= t.len()
{
    if j < 0 || j >= t.len() {
        None
    } else {
        let n = t.len() as int;
        let m = n - cnt;
        let nj = var_num(t.take(j));
        let nj1 = var_num(t.take(j + 1));
        let trig = j > first && nj > 0 && m > 0 && nj * ((j + 1) * (m + 100)) < nj1 * ((j - 1)
            * m);
        let neg = count_neg(t.skip(j));
        let aj = abs_i64(t[j]);
        let accept = match balance_at(balance, cnt) {
            None => true,
            Some((mn, mx)) => mn < neg && neg < mx,
        };
        if trig && accept {
            Some((-aj as i64, aj as i64))
        } else {
            max_var_scan(t, j + 1, cnt - 1, first, balance)
        }
    }
}

/// A positive variance numerator needs at least two samples.
proof fn lemma_var_num_positive_len(t: Seq<i64>, j: int)
    requires
        0 <= j <= t.len(),
        var_num(t.take(j)) > 0,
    ensures
        j >= 2,
{
    let p = t.take(j);
    if j == 0 {
        assert(p.len() == 0);
        assert(seq_sum(p) == 0);
        assert(seq_sum_sq(p) == 0);
        assert(var_num(p) == 0);
    } else if j == 1 {
        assert(p.len() == 1);
        let d = p.drop_last();
        assert(d.len() == 0);
        assert(seq_sum(d) == 0);
        assert(seq_sum_sq(d) == 0);
        assert(seq_sum(p) == p[0]);
        assert(seq_sum_sq(p) == p[0] * p[0]);
        assert(var_num(p) == 1 * (p[0] * p[0]) - p[0] * p[0]);
        assert(var_num(p) == 0) by (nonlinear_arith)
            requires
                var_num(p) == 1 * ((p[0] as int) * (p[0] as int)) - (p[0] as int) * (p[0] as int),
        ;
    }
}

/// Prefix sums of a bounded series keep every product of the scan in range.
#[verifier::rlimit(50)]
proof fn lemma_prefix_fits(t: Seq<i64>, j: int)
    requires
        0 <= j <= t.len(),
        t.len() <= MAX_SAMPLE_COUNT,
        bounded_seq(t, MAX_ABS_SAMPLE as int),
    ensures
        -(j * (MAX_ABS_SAMPLE as int)) <= seq_sum(t.take(j)) <= j * (MAX_ABS_SAMPLE as int),
        0 <= seq_sum_sq(t.take(j)) <= j * ((MAX_ABS_SAMPLE as int) * (MAX_ABS_SAMPLE as int)),
        -0x8000_0000_0000_0000 <= seq_sum(t.take(j)) <= 0x8000_0000_0000_0000,
        0 <= seq_sum_sq(t.take(j)) <= 0x40_0000_0000_0000_0000_0000_0000,
        0 <= j * seq_sum_sq(t.take(j)) <= 0x4000_0000_0000_0000_0000_0000_0000_0000,
        0 <= seq_sum(t.take(j)) * seq_sum(t.take(j)) <= 0x4000_0000_0000_0000_0000_0000_0000_0000,
    decreases j,
{
    let a = MAX_ABS_SAMPLE as int;
    let c = MAX_SAMPLE_COUNT as int;
    if j == 0 {
        assert(t.take(0).len() == 0);
        assert(seq_sum(t.take(0)) == 0);
        assert(seq_sum_sq(t.take(0)) == 0);
        assert(seq_sum(t.take(0)) * seq_sum(t.take(0)) == 0) by (nonlinear_arith)
            requires
                seq_sum(t.take(0)) == 0,
        ;
        assert(j * seq_sum_sq(t.take(j)) == 0) by (nonlinear_arith)
            requires
                j == 0,
        ;
    } else {
        lemma_prefix_fits(t, j - 1);
        let p = t.take(j);
        let d = t.take(j - 1);
        assert(p.drop_last() =~= d);
        assert(p.last() == t[j - 1]);
        let x = t[j - 1] as int;
        assert(-a <= x <= a);
        assert(seq_sum(p) == seq_sum(d) + x);
        assert(seq_sum_sq(p) == seq_sum_sq(d) + x * x);
        assert(0 <= x * x <= a * a) by (nonlinear_arith)
            requires
                -a <= x <= a,
                a > 0,
        ;
        // |sum| grows by at most a per element, sum_sq by at most a^2
        assert(-(j * a) <= seq_sum(p) <= j * a) by (nonlinear_arith)
            requires
                seq_sum(p) == seq_sum(d) + x,
                -((j - 1) * a) <= seq_sum(d) <= (j - 1) * a,
                -a <= x <= a,
        ;
        assert(0 <= seq_sum_sq(p) <= j * (a * a)) by (nonlinear_arith)
            requires
                seq_sum_sq(p) == seq_sum_sq(d) + x * x,
                0 <= seq_sum_sq(d) <= (j - 1) * (a * a),
                0 <= x * x <= a * a,
        ;
        assert(-0x8000_0000_0000_0000 <= seq_sum(p) <= 0x8000_0000_0000_0000) by (nonlinear_arith)
            requires
                -(j * a) <= seq_sum(p) <= j * a,
                1 <= j <= c,
                a == 0x80_0000_0000,
                c == 0x100_0000,
        ;
        assert(0 <= seq_sum_sq(p) <= 0x40_0000_0000_0000_0000_0000_0000) by (nonlinear_arith)
            requires
                0 <= seq_sum_sq(p) <= j * (a * a),
                1 <= j <= c,
                a == 0x80_0000_0000,
                c == 0x100_0000,
        ;
    }
    let p = t.take(j);
    assert(0 <= seq_sum(p) * seq_sum(p) <= 0x4000_0000_0000_0000_0000_0000_0000_0000) by (nonlinear_arith)
        requires
            -0x8000_0000_0000_0000 <= seq_sum(p) <= 0x8000_0000_0000_0000,
    ;
    assert(0 <= j * seq_sum_sq(p) <= 0x4000_0000_0000_0000_0000_0000_0000_0000) by (nonlinear_arith)
        requires
            0 <= seq_sum_sq(p) <= 0x40_0000_0000_0000_0000_0000_0000,
            0 <= j <= 0x100_0000,
    ;
}

/// Variance-jump thresholds with an explicit table of binomial balance
/// intervals: `balance[k]` is the interval for `k` remaining outliers, where
/// one is defined.
///
/// Returns the symmetric pair `(-|v|, |v|)` of the first magnitude-sorted
/// value whose inclusion makes the running variance jump past its budget, or
/// `None` when no value does.
pub fn max_variance_thresholds_with_balance(
    input: Vec<i64>,
    outliers_cnt: usize,
    balance: &Vec<Option<(usize, usize)>>,
) -> (r: Option<(i64, i64)>)
    requires
        input@.len() <= MAX_SAMPLE_COUNT,
        bounded_seq(input@, MAX_ABS_SAMPLE as int),
        outliers_cnt <= input@.len(),
    ensures
        exists|t: Seq<i64>|
            {
                &&& #[trigger] sorted_by_abs(t)
                &&& t.to_multiset() == input@.to_multiset()
                &&& t.len() == input@.len()
                &&& r == max_var_scan(
                    t,
                    t.len() - outliers_cnt,
                    outliers_cnt as int,
                    t.len() - outliers_cnt,
                    balance@,
                )
            },
{
    let ghost orig = input@;
    let n = input.len();
    proof {
        assert forall|i: int| 0 <= i < orig.len() implies #[trigger] orig[i] > i64::MIN by {
            assert(-MAX_ABS_SAMPLE <= orig[i]);
        }
    }
    let sorted = sort_i64_by_abs(input);
    let ghost t = sorted@;
    proof {
        lemma_perm_bounded(t, orig, MAX_ABS_SAMPLE as int);
    }
    let skip = n - outliers_cnt;

    // count the negative values in the tail that the scan will walk
    let mut neg: usize = 0;
    let mut i: usize = n;
    proof {
        assert(t.skip(n as int) =~= Seq::<i64>::empty());
    }
    while i > skip
        invariant
            skip <= i <= n,
            sorted@ == t,
            n == t.len(),
            neg as int == count_neg(t.skip(i as int)),
            neg <= n - i,
        decreases i,
    {
        i = i - 1;
        proof {
            assert(t.skip(i as int).drop_first() =~= t.skip(i as int + 1));
            assert(t.skip(i as int)[0] == t[i as int]);
        }
        if sorted[i] < 0 {
            neg = neg + 1;
        }
    }

    // running exact sums over the prefix before the scan window
    let mut s: i128 = 0;
    let mut q: i128 = 0;
    let mut j: usize = 0;
    proof {
        assert(t.take(0).len() == 0);
        assert(seq_sum(t.take(0)) == 0);
        assert(seq_sum_sq(t.take(0)) == 0);
    }
    while j < skip
        invariant
            0 <= j <= skip <= n,
            sorted@ == t,
            n == t.len(),
            n <= MAX_SAMPLE_COUNT,
            bounded_seq(t, MAX_ABS_SAMPLE as int),
            s as int == seq_sum(t.take(j as int)),
            q as int == seq_sum_sq(t.take(j as int)),
        decreases skip - j,
    {
        let x = sorted[j];
        proof {
            lemma_prefix_fits(t, j as int);
            lemma_prefix_fits(t, j as int + 1);
            assert(t.take(j as int + 1).drop_last() =~= t.take(j as int));
            assert(t.take(j as int + 1).last() == t[j as int]);
            assert(-MAX_ABS_SAMPLE <= t[j as int] <= MAX_ABS_SAMPLE);
            assert(0 <= (x as int) * (x as int) <= (MAX_ABS_SAMPLE as int) * (MAX_ABS_SAMPLE
                as int)) by (nonlinear_arith)
                requires
                    -(MAX_ABS_SAMPLE as int) <= x as int <= MAX_ABS_SAMPLE as int,
            ;
        }
        s = s + x as i128;
        q = q + (x as i128) * (x as i128);
        j = j + 1;
    }

    // the scan itself
    let mut cnt = outliers_cnt;
    while j < n
        invariant
            skip <= j <= n,
            skip == n - outliers_cnt,
            sorted@ == t,
            n == t.len(),
            n <= MAX_SAMPLE_COUNT,
            bounded_seq(t, MAX_ABS_SAMPLE as int),
            sorted_by_abs(t),
            orig == input@,
            t.to_multiset() == orig.to_multiset(),
            t.len() == orig.len(),
            cnt as int == outliers_cnt - (j - skip),
            s as int == seq_sum(t.take(j as int)),
            q as int == seq_sum_sq(t.take(j as int)),
            neg as int == count_neg(t.skip(j as int)),
            max_var_scan(t, skip as int, outliers_cnt as int, skip as int, balance@)
                == max_var_scan(t, j as int, cnt as int, skip as int, balance@),
        decreases n - j,
    {
        let ghost ji = j as int;
        let x = sorted[j];
        proof {
            lemma_prefix_fits(t, ji);
            lemma_prefix_fits(t, ji + 1);
            assert(t.take(ji + 1).drop_last() =~= t.take(ji));
            assert(t.take(ji + 1).last() == t[ji]);
            assert(-MAX_ABS_SAMPLE <= t[ji] <= MAX_ABS_SAMPLE);
            assert(0 <= (x as int) * (x as int) <= (MAX_ABS_SAMPLE as int) * (MAX_ABS_SAMPLE
                as int)) by (nonlinear_arith)
                requires
                    -(MAX_ABS_SAMPLE as int) <= x as int <= MAX_ABS_SAMPLE as int,
            ;
            crate::summary::lemma_seq_stats_bounds(t.take(ji + 1));
            if ji >= 1 {
                crate::summary::lemma_seq_stats_bounds(t.take(ji));
            } else {
                assert(seq_sum(t.take(0)) == 0);
                assert(seq_sum_sq(t.take(0)) == 0);
            }
        }
        let nj: i128 = (j as i128) * q - s * s;
        let s1 = s + x as i128;
        let q1 = q + (x as i128) * (x as i128);
        let nj1: i128 = (j as i128 + 1) * q1 - s1 * s1;
        let m = n - cnt;
        proof {
            assert(nj as int == var_num(t.take(ji)));
            assert(nj1 as int == var_num(t.take(ji + 1)));
            assert(nj1 >= 0);
        }
        let ghost spec_trig = ji > skip as int && nj as int > 0 && m as int > 0 && (nj as int) * ((
        ji + 1) * (m as int + 100)) < (nj1 as int) * ((ji - 1) * (m as int));

        let mut fired = false;
        if j > skip && nj > 0 && m > 0 {
            proof {
                lemma_var_num_positive_len(t, ji);
                assert(0 < (ji - 1) * (m as int) <= 0x1_0000_0000_0000) by (nonlinear_arith)
                    requires
                        2 <= ji <= 0x100_0000,
                        1 <= m as int <= 0x100_0000,
                ;
                assert(0 < (ji + 1) * (m as int + 100) <= 0x2_0000_0000_0000) by (nonlinear_arith)
                    requires
                        2 <= ji <= 0x100_0000,
                        1 <= m as int <= 0x100_0000,
                ;
            }
            let b: u128 = (j as u128 - 1) * (m as u128);
            let d: u128 = (j as u128 + 1) * (m as u128 + 100);
            let trig = frac_lt(nj as u128, b, nj1 as u128, d);
            proof {
                assert(nj as u128 == nj as int && nj1 as u128 == nj1 as int);
                assert(b as int == (ji - 1) * (m as int));
                assert(d as int == (ji + 1) * (m as int + 100));
                assert(trig == spec_trig);
            }
            if trig {
                let b_opt = if cnt < balance.len() {
                    balance[cnt]
                } else {
                    None
                };
                proof {
                    assert(b_opt == balance_at(balance@, cnt as int));
                }
                let accept = match b_opt {
                    None => true,
                    Some((mn, mx)) => mn < neg && neg < mx,
                };
                if accept {
                    fired = true;
                }
            }
        }
        if fired {
            let a = if x < 0 {
                -x
            } else {
                x
            };
            let r = Some((-a, a));
            proof {
                assert(a as int == abs_i64(t[ji]));
                assert(max_var_scan(t, ji, cnt as int, skip as int, balance@) == r);
                assert({
                    &&& sorted_by_abs(t)
                    &&& t.to_multiset() == orig.to_multiset()
                    &&& t.len() == orig.len()
                    &&& r == max_var_scan(
                        t,
                        t.len() - outliers_cnt,
                        outliers_cnt as int,
                        t.len() - outliers_cnt,
                        balance@,
                    )
                });
            }
            return r;
        }
        proof {
            // the scan does not fire here, so it advances by one
            assert(!(spec_trig && (match balance_at(balance@, cnt as int) {
                None => true,
                Some((mn, mx)) => mn < count_neg(t.skip(ji)) && count_neg(t.skip(ji)) < mx,
            })));
            assert(max_var_scan(t, ji, cnt as int, skip as int, balance@) == max_var_scan(
                t,
                ji + 1,
                cnt as int - 1,
                skip as int,
                balance@,
            ));
            assert(t.skip(ji).drop_first() =~= t.skip(ji + 1));
            assert(t.skip(ji)[0] == t[ji]);
        }
        s = s1;
        q = q1;
        cnt = cnt - 1;
        if x < 0 {
            neg = neg - 1;
        }
        j = j + 1;
    }
    proof {
        assert(max_var_scan(t, n as int, cnt as int, skip as int, balance@) is None);
        assert({
            &&& sorted_by_abs(t)
            &&& t.to_multiset() == orig.to_multiset()
            &&& t.len() == orig.len()
            &&& None::<(i64, i64)> == max_var_scan(
                t,
                t.len() - outliers_cnt,
                outliers_cnt as int,
                t.len() - outliers_cnt,
                balance@,
            )
        });
    }
    None
}

/// Variance-jump thresholds for up to 19 candidate outliers.
///
/// Below twenty observations the normal approximation of the binomial
/// balance test is undefined (`n * p < 10`), so the scan accepts every
/// variance jump unconditionally and no interval table is needed.
pub fn max_variance_thresholds(input: Vec<i64>, outliers_cnt: usize) -> (r: Option<(i64, i64)>)
    requires
        input@.len() <= MAX_SAMPLE_COUNT,
        bounded_seq(input@, MAX_ABS_SAMPLE as int),
        outliers_cnt <= input@.len(),
        outliers_cnt < 20,
    ensures
        exists|t: Seq<i64>|
            {
                &&& #[trigger] sorted_by_abs(t)
                &&& t.to_multiset() == input@.to_multiset()
                &&& t.len() == input@.len()
                &&& r == max_var_scan(
                    t,
                    t.len() - outliers_cnt,
                    outliers_cnt as int,
                    t.len() - outliers_cnt,
                    Seq::empty(),
                )
            },
{
    let balance: Vec<Option<(usize, usize)>> = Vec::new();
    let r = max_variance_thresholds_with_balance(input, outliers_cnt, &balance);
    proof {
        assert(balance@ =~= Seq::<Option<(usize, usize)>>::empty());
    }
    r
}

} // verus!

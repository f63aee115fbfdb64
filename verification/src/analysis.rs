//! Building the result of one benchmark run.
//!
//! The paired-difference series is optionally trimmed with the
//! interquartile-range filter, summarised, and classified: a difference is
//! significant when its z-score is at least 2.6 (a roughly 99% two-sided
//! normal threshold) and the mean difference is more than 0.5% of the
//! candidate's mean.  Both clauses are decided exactly over the integer
//! statistics: `|z| >= 2.6` is `100 * sum^2 * (n-1) >= 676 * (n*sum_sq -
//! sum^2)`, and the relative-shift clause is `200 * |diff.sum| * cand.n >
//! diff.n * |cand.sum|`.

use vstd::prelude::*;

use crate::outliers::{iqr_outcome, iqr_variance_thresholds};
use crate::ratio::frac_ge;
use crate::sort::sorted_i64;
use crate::summary::{
    bounded_seq, lemma_summary_products_fit, Summary, MAX_ABS_SAMPLE, MAX_SAMPLE_COUNT,
};

verus! {

/// Magnitude of a mathematical integer.
pub open spec fn abs_int(x: int) -> int {
    if x < 0 {
        -x
    } else {
        x
    }
}

/// The z-score of the difference series is at least 2.6 in magnitude.
///
/// With mean `sum / n` and variance `num / (n * (n-1))`, the squared z-score
/// is `sum^2 * (n-1) / num`; the threshold `2.6^2 = 6.76` gives the integer
/// comparison below.  A zero variance numerator makes the z-score infinite
/// for a non-zero mean and undefined (not significant) for a zero mean.
pub open spec fn z_threshold_passed(sum: int, n: int, num: int) -> bool {
    if num == 0 {
        sum != 0
    } else {
        (sum * sum) * (100 * (n - 1)) >= 676 * num
    }
}

/// The mean difference exceeds half a percent of the candidate's mean:
/// `|diff.sum / diff.n| > 0.005 * |cand.sum / cand.n|`, cross-multiplied.
pub open spec fn relative_shift_passed(
    diff_sum: int,
    diff_n: int,
    cand_sum: int,
    cand_n: int,
) -> bool {
    (200 * abs_int(diff_sum)) * cand_n > diff_n * abs_int(cand_sum)
}

/// The variance numerator of a summary: `n * sum_sq - sum^2` for two or more
/// samples, zero for a single sample.
pub open spec fn spec_var_num(s: Summary) -> int {
    if s.n >= 2 {
        s.n * s.sum_sq - s.sum * s.sum
    } else {
        0
    }
}

/// The significance rule over the exact statistics of the difference and
/// candidate series.
pub open spec fn significant_spec(diff: Summary, cand: Summary) -> bool {
    &&& z_threshold_passed(diff.sum as int, diff.n as int, spec_var_num(diff))
    &&& relative_shift_passed(diff.sum as int, diff.n as int, cand.sum as int, cand.n as int)
}

/// Decide significance of a difference summary against the candidate summary.
pub fn is_significant(diff: &Summary, candidate: &Summary) -> (r: bool)
    requires
        diff.wf(),
        candidate.wf(),
    ensures
        r == significant_spec(*diff, *candidate),
{
    proof {
        lemma_summary_products_fit(*diff);
        lemma_summary_products_fit(*candidate);
    }
    let (num, _den) = diff.variance_parts();
    let first: bool;
    if num == 0 {
        first = diff.sum != 0;
    } else {
        let s2: i128 = diff.sum * diff.sum;
        let d: u128 = 100 * (diff.n as u128 - 1);
        first = frac_ge(s2 as u128, num as u128, 676, d);
        proof {
            assert((s2 as int) * (d as int) == (diff.sum * diff.sum) * (100 * (diff.n as int - 1)))
                by (nonlinear_arith)
                requires
                    s2 as int == diff.sum * diff.sum,
                    d as int == 100 * (diff.n as int - 1),
            ;
        }
    }
    let ads: i128 = if diff.sum < 0 {
        -diff.sum
    } else {
        diff.sum
    };
    let acs: i128 = if candidate.sum < 0 {
        -candidate.sum
    } else {
        candidate.sum
    };
    proof {
        assert((200 * ads) * (candidate.n as int) <= 0x10_0000_0000_0000_0000_0000_0000)
            by (nonlinear_arith)
            requires
                0 <= ads <= 0x8000_0000_0000_0000,
                1 <= candidate.n as int <= 0x100_0000,
        ;
        assert((diff.n as int) * acs <= 0x10_0000_0000_0000_0000_0000_0000) by (nonlinear_arith)
            requires
                0 <= acs <= 0x8000_0000_0000_0000,
                1 <= diff.n as int <= 0x100_0000,
        ;
        assert((diff.n as int) * acs >= 0 && (200 * ads) * (candidate.n as int) >= 0)
            by (nonlinear_arith)
            requires
                0 <= acs,
                0 <= ads,
                1 <= diff.n as int,
                1 <= candidate.n as int,
        ;
    }
    let lhs: i128 = (200 * ads) * (candidate.n as i128);
    let rhs: i128 = (diff.n as i128) * acs;
    let second = lhs > rhs;
    first && second
}

/// Describes the results of a single benchmark run.
#[derive(Debug)]
pub struct RunResult {
    /// Name of the comparison: the shared name, or `baseline/candidate`.
    pub name: String,
    /// Statistical summary of the baseline samples.
    pub baseline: Summary,
    /// Statistical summary of the candidate samples.
    pub candidate: Summary,
    /// Statistical summary of the (possibly trimmed) paired differences.
    pub diff: Summary,
    /// Whether the difference is statistically significant.
    pub significant: bool,
    /// Number of filtered outliers.
    pub outliers: usize,
}

/// The values of `s` kept by an open interval `(low, high)`.
pub open spec fn kept_values(s: Seq<i64>, low: int, high: int) -> Seq<i64> {
    s.filter(|v: i64| low < v && v < high)
}

/// When no usable thresholds exist the trim interval is the whole `i64`
/// range, and a bounded difference series passes through it unchanged.
pub proof fn lemma_unbounded_interval_keeps_everything(s: Seq<i64>)
    requires
        bounded_seq(s, MAX_ABS_SAMPLE as int),
    ensures
        kept_values(s, i64::MIN as int, i64::MAX as int) == s,
    decreases s.len(),
{
    reveal(Seq::filter);
    if s.len() == 0 {
        assert(kept_values(s, i64::MIN as int, i64::MAX as int) =~= s);
    } else {
        let d = s.drop_last();
        assert(bounded_seq(d, MAX_ABS_SAMPLE as int)) by {
            assert(forall|i: int| 0 <= i < d.len() ==> d[i] == s[i]);
        }
        lemma_unbounded_interval_keeps_everything(d);
        assert(-MAX_ABS_SAMPLE <= s[s.len() - 1] <= MAX_ABS_SAMPLE);
        assert(kept_values(s, i64::MIN as int, i64::MAX as int) =~= s);
    }
}

/// The trim interval the run uses: the filter's thresholds where they exist,
/// otherwise the whole `i64` range.
pub open spec fn applied_interval(th: Option<(i64, i64)>) -> (int, int) {
    match th {
        Some((lo, hi)) => (lo as int, hi as int),
        None => (i64::MIN as int, i64::MAX as int),
    }
}

/// How a run result relates to the difference series `s` once the trim
/// interval is fixed: an empty trimmed series gives no result; otherwise the
/// difference summary describes the trimmed series, the outlier count is what
/// was trimmed, and the significance rule is applied to it.
pub open spec fn run_result_for(
    s: Seq<i64>,
    th: Option<(i64, i64)>,
    candidate: Summary,
    r: Option<RunResult>,
) -> bool {
    let (lo, hi) = applied_interval(th);
    let kept = kept_values(s, lo, hi);
    if kept.len() == 0 {
        r is None
    } else {
        &&& r is Some
        &&& {
            let rr = r->Some_0;
            &&& rr.diff.is_summary_of(kept)
            &&& rr.outliers == s.len() - kept.len()
            &&& rr.significant == significant_spec(rr.diff, candidate)
        }
    }
}

/// Copy of a sample series.
fn copy_samples(v: &Vec<i64>) -> (r: Vec<i64>)
    ensures
        r@ == v@,
{
    let mut out: Vec<i64> = Vec::new();
    let mut i: usize = 0;
    while i < v.len()
        invariant
            i <= v@.len(),
            out@ == v@.take(i as int),
        decreases v@.len() - i,
    {
        out.push(v[i]);
        proof {
            assert(v@.take(i as int + 1).drop_last() =~= v@.take(i as int));
            assert(v@.take(i as int).push(v@[i as int]) =~= v@.take(i as int + 1));
        }
        i = i + 1;
    }
    proof {
        assert(v@.take(v@.len() as int) =~= v@);
    }
    out
}

/// Relies on the `format!` macro: the result is the concatenation of the
/// three pieces.
#[verifier::external_body]
pub(crate) fn join_names(a: &str, sep: &str, b: &str) -> (r: String)
    ensures
        r@ == a@ + sep@ + b@,
{
    format!("{}{}{}", a, sep, b)
}

/// Build the result of one run from the two sample summaries and the paired
/// difference series.
///
/// With `filter_outliers` set, the interquartile-range thresholds trim the
/// difference series before it is summarised; the trimmed count is reported
/// as `outliers`.  `None` is returned exactly when no samples remain to
/// summarise, which also covers an empty input.
pub fn calculate_run_result(
    baseline_name: &str,
    candidate_name: &str,
    baseline: Summary,
    candidate: Summary,
    diff: Vec<i64>,
    filter_outliers: bool,
) -> (r: Option<RunResult>)
    requires
        baseline.wf(),
        candidate.wf(),
        diff@.len() <= MAX_SAMPLE_COUNT,
        bounded_seq(diff@, MAX_ABS_SAMPLE as int),
    ensures
        r matches Some(rr) ==> {
            &&& rr.baseline == baseline
            &&& rr.candidate == candidate
            &&& rr.diff.wf()
            &&& 1 <= rr.diff.n <= diff@.len()
            &&& rr.name@ == (if baseline_name@ == candidate_name@ {
                baseline_name@
            } else {
                baseline_name@ + "/"@ + candidate_name@
            })
        },
        !filter_outliers ==> ((r is Some <==> diff@.len() > 0) && (r matches Some(rr)
            ==> rr.diff.is_summary_of(diff@) && rr.outliers == 0 && rr.significant
            == significant_spec(rr.diff, candidate))),
        filter_outliers ==> exists|th: Option<(i64, i64)>, t: Seq<i64>|
            {
                &&& sorted_i64(t)
                &&& t.to_multiset() == diff@.to_multiset()
                &&& t.len() == diff@.len()
                &&& #[trigger] iqr_outcome(t, th)
                &&& run_result_for(diff@, th, candidate, r)
            },
{
    let n = diff.len();
    let diff_summary: Summary;
    let outliers: usize;
    let ghost used_threshold: Option<(i64, i64)>;
    let ghost sorted_witness: Seq<i64>;
    if filter_outliers {
        let input = copy_samples(&diff);
        let thresholds = iqr_variance_thresholds(input);
        let (lo, hi) = match thresholds {
            Some(pair) => pair,
            None => (i64::MIN, i64::MAX),
        };
        proof {
            used_threshold = thresholds;
            sorted_witness = choose|t: Seq<i64>|
                {
                    &&& #[trigger] sorted_i64(t)
                    &&& t.to_multiset() == diff@.to_multiset()
                    &&& t.len() == diff@.len()
                    &&& iqr_outcome(t, thresholds)
                };
        }
        let mut kept: Vec<i64> = Vec::new();
        let mut i: usize = 0;
        proof {
            assert(diff@.take(0).len() == 0);
            assert(kept_values(diff@.take(0), lo as int, hi as int) =~= Seq::<i64>::empty()) by {
                reveal(Seq::filter);
            }
        }
        while i < n
            invariant
                i <= n,
                n == diff@.len(),
                bounded_seq(diff@, MAX_ABS_SAMPLE as int),
                kept@ == kept_values(diff@.take(i as int), lo as int, hi as int),
                kept@.len() <= i,
                bounded_seq(kept@, MAX_ABS_SAMPLE as int),
            decreases n - i,
        {
            let x = diff[i];
            proof {
                assert(diff@.take(i as int + 1).drop_last() =~= diff@.take(i as int));
                assert(diff@.take(i as int + 1).last() == diff@[i as int]);
                assert(-MAX_ABS_SAMPLE <= diff@[i as int] <= MAX_ABS_SAMPLE);
                reveal(Seq::filter);
            }
            if lo < x && x < hi {
                kept.push(x);
            }
            i = i + 1;
        }
        proof {
            assert(diff@.take(n as int) =~= diff@);
        }
        if kept.len() == 0 {
            proof {
                assert(run_result_for(diff@, used_threshold, candidate, None::<RunResult>));
            }
            return None;
        }
        outliers = n - kept.len();
        let s = Summary::from(kept.as_slice());
        match s {
            Some(s) => {
                diff_summary = s;
            },
            None => {
                return None;
            },
        }
    } else {
        if n == 0 {
            return None;
        }
        let s = Summary::from(diff.as_slice());
        match s {
            Some(s) => {
                diff_summary = s;
            },
            None => {
                return None;
            },
        }
        outliers = 0;
        proof {
            used_threshold = None;
            sorted_witness = Seq::empty();
        }
    }
    let significant = is_significant(&diff_summary, &candidate);
    let same = baseline_name.to_owned() == candidate_name.to_owned();
    let name = if same {
        baseline_name.to_owned()
    } else {
        join_names(baseline_name, "/", candidate_name)
    };
    let rr = RunResult { name, baseline, candidate, diff: diff_summary, significant, outliers };
    proof {
        if filter_outliers {
            assert(run_result_for(diff@, used_threshold, candidate, Some(rr)));
            assert({
                &&& sorted_i64(sorted_witness)
                &&& sorted_witness.to_multiset() == diff@.to_multiset()
                &&& sorted_witness.len() == diff@.len()
                &&& iqr_outcome(sorted_witness, used_threshold)
                &&& run_result_for(diff@, used_threshold, candidate, Some(rr))
            });
        }
    }
    Some(rr)
}

} // verus!

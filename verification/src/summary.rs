//! Single-pass statistical summary of a series of integer samples.
//!
//! A [`Summary`] records the element count, the minimum, the maximum, the
//! exact sum and the exact sum of squares of a series.  Mean and variance are
//! exposed as exact rational numbers: the mean is `sum / n` and the sample
//! variance is `(n * sum_sq - sum * sum) / (n * (n - 1))` for `n >= 2` and
//! zero for `n == 1`.

use vstd::prelude::*;

verus! {

/// Largest magnitude a single sample may have (2^39 timer ticks).
///
/// Together with [`MAX_SAMPLE_COUNT`] this keeps every product that the exact
/// 128-bit statistics need inside `i128`.
pub const MAX_ABS_SAMPLE: i64 = 0x80_0000_0000;

/// Largest number of samples a single series may hold (2^24).
pub const MAX_SAMPLE_COUNT: usize = 0x100_0000;

/// Exact sum of a series.
pub open spec fn seq_sum(s: Seq<i64>) -> int
    decreases s.len(),
{
    if s.len() == 0 {
        0
    } else {
        seq_sum(s.drop_last()) + s.last()
    }
}

/// Exact sum of the squares of a series.
pub open spec fn seq_sum_sq(s: Seq<i64>) -> int
    decreases s.len(),
{
    if s.len() == 0 {
        0
    } else {
        seq_sum_sq(s.drop_last()) + s.last() * s.last()
    }
}

/// Smallest element of a non-empty series.
pub open spec fn seq_min(s: Seq<i64>) -> int
    decreases s.len(),
{
    if s.len() <= 1 {
        s[0] as int
    } else if s.last() < seq_min(s.drop_last()) {
        s.last() as int
    } else {
        seq_min(s.drop_last())
    }
}

/// Largest element of a non-empty series.
pub open spec fn seq_max(s: Seq<i64>) -> int
    decreases s.len(),
{
    if s.len() <= 1 {
        s[0] as int
    } else if s.last() > seq_max(s.drop_last()) {
        s.last() as int
    } else {
        seq_max(s.drop_last())
    }
}

/// Numerator of the exact sample variance over the denominator
/// `len * (len - 1)`: `n * sum(x^2) - sum(x)^2`.
pub open spec fn var_num(s: Seq<i64>) -> int {
    s.len() * seq_sum_sq(s) - seq_sum(s) * seq_sum(s)
}

/// Every element of `s` lies in `[-b, b]`.
pub open spec fn bounded_seq(s: Seq<i64>, b: int) -> bool {
    forall|i: int| 0 <= i < s.len() ==> -b <= #[trigger] s[i] <= b
}

/// The minimum, maximum, sum and variance numerator of a non-empty series
/// relate as expected: the mean lies between minimum and maximum, and the
/// variance is non-negative.
pub proof fn lemma_seq_stats_bounds(s: Seq<i64>)
    requires
        s.len() >= 1,
    ensures
        seq_min(s) <= seq_max(s),
        s.len() * seq_min(s) <= seq_sum(s),
        seq_sum(s) <= s.len() * seq_max(s),
        var_num(s) >= 0,
        seq_sum_sq(s) >= 0,
    decreases s.len(),
{
    if s.len() == 1 {
        let d = s.drop_last();
        assert(d.len() == 0);
        assert(seq_sum(d) == 0);
        assert(seq_sum_sq(d) == 0);
        assert(s.last() == s[0]);
        assert(seq_sum(s) == s[0]);
        assert(seq_sum_sq(s) == s[0] * s[0]);
        assert(s[0] * s[0] >= 0) by (nonlinear_arith);
        assert(var_num(s) == 1 * (s[0] * s[0]) - s[0] * s[0]);
    } else {
        let d = s.drop_last();
        let x = s.last() as int;
        lemma_seq_stats_bounds(d);
        let m = d.len() as int;
        let mn = seq_min(d);
        let mx = seq_max(d);
        let ss = seq_sum(d);
        assert((m + 1) * seq_min(s) <= ss + x) by (nonlinear_arith)
            requires
                m >= 1,
                m * mn <= ss,
                mn <= mx,
                seq_min(s) <= mn,
                seq_min(s) <= x,
                seq_min(s) == if x < mn { x } else { mn },
                mn <= x || seq_min(s) == x,
        ;
        assert(ss + x <= (m + 1) * seq_max(s)) by (nonlinear_arith)
            requires
                m >= 1,
                ss <= m * mx,
                mn <= mx,
                mx <= seq_max(s),
                x <= seq_max(s),
                seq_max(s) == if x > mx { x } else { mx },
        ;
        let sq = seq_sum_sq(d);
        let t_old = var_num(d);
        let t_new = var_num(s);
        assert(seq_sum(s) == ss + x);
        assert(seq_sum_sq(s) == sq + x * x);
        assert(t_new == (m + 1) * (sq + x * x) - (ss + x) * (ss + x));
        assert(t_new == t_old + sq + m * (x * x) - 2 * (ss * x)) by (nonlinear_arith)
            requires
                t_old == m * sq - ss * ss,
                t_new == (m + 1) * (sq + x * x) - (ss + x) * (ss + x),
        ;
        assert(m * t_new == m * t_old + (m * x - ss) * (m * x - ss) + t_old) by (nonlinear_arith)
            requires
                t_old == m * sq - ss * ss,
                t_new == t_old + sq + m * (x * x) - 2 * (ss * x),
        ;
        assert(t_new >= 0) by (nonlinear_arith)
            requires
                m >= 1,
                t_old >= 0,
                m * t_new == m * t_old + (m * x - ss) * (m * x - ss) + t_old,
        ;
        assert(seq_sum_sq(s) >= 0) by (nonlinear_arith)
            requires
                sq >= 0,
                seq_sum_sq(s) == sq + x * x,
        ;
    }
}

/// Immutable snapshot of the statistics of a series.
#[derive(Clone, Copy, PartialEq, Eq, Structural, Debug)]
pub struct Summary {
    /// Number of samples.
    pub n: usize,
    /// Smallest sample.
    pub min: i64,
    /// Largest sample.
    pub max: i64,
    /// Exact sum of the samples; the mean is `sum / n`.
    pub sum: i128,
    /// Exact sum of the squared samples.
    pub sum_sq: i128,
}

impl Summary {
    /// The summary describes exactly the series `s`.
    pub open spec fn is_summary_of(self, s: Seq<i64>) -> bool {
        &&& s.len() >= 1
        &&& self.n == s.len()
        &&& self.min == seq_min(s)
        &&& self.max == seq_max(s)
        &&& self.sum == seq_sum(s)
        &&& self.sum_sq == seq_sum_sq(s)
    }

    /// Well-formedness: the fields describe some bounded series, so all the
    /// derived quantities fit in 128-bit arithmetic.
    pub open spec fn wf(self) -> bool {
        &&& 1 <= self.n <= MAX_SAMPLE_COUNT
        &&& -MAX_ABS_SAMPLE <= self.min <= self.max <= MAX_ABS_SAMPLE
        &&& self.n * self.min <= self.sum <= self.n * self.max
        &&& 0 <= self.sum_sq <= self.n * (MAX_ABS_SAMPLE as int) * (MAX_ABS_SAMPLE as int)
        &&& self.n * self.sum_sq - self.sum * self.sum >= 0
    }

    /// Single-pass summary of a series; `None` exactly on an empty input.
    ///
    /// The bounds in the precondition are what lets the sums and their later
    /// products stay inside `i128`.
    pub fn from(values: &[i64]) -> (r: Option<Summary>)
        requires
            values@.len() <= MAX_SAMPLE_COUNT,
            bounded_seq(values@, MAX_ABS_SAMPLE as int),
        ensures
            r is Some <==> values@.len() > 0,
            r matches Some(s) ==> s.is_summary_of(values@) && s.wf(),
    {
        let n = values.len();
        if n == 0 {
            return None;
        }
        let x0 = values[0];
        proof {
            let t1 = values@.take(1);
            assert(t1.drop_last() =~= Seq::<i64>::empty());
            assert(t1.last() == values@[0]);
            assert(seq_sum(t1.drop_last()) == 0);
            assert(seq_sum_sq(t1.drop_last()) == 0);
            assert(seq_sum(t1) == values@[0]);
            assert(seq_sum_sq(t1) == values@[0] * values@[0]);
            assert(seq_min(t1) == values@[0]);
            assert(seq_max(t1) == values@[0]);
            assert(-MAX_ABS_SAMPLE <= values@[0] <= MAX_ABS_SAMPLE);
            assert((x0 as int) * (x0 as int)
                <= (MAX_ABS_SAMPLE as int) * (MAX_ABS_SAMPLE as int)) by (nonlinear_arith)
                requires
                    -(MAX_ABS_SAMPLE as int) <= x0 as int <= MAX_ABS_SAMPLE as int,
            ;
            assert((x0 as int) * (x0 as int) >= 0) by (nonlinear_arith);
        }
        let mut min: i64 = x0;
        let mut max: i64 = x0;
        let mut sum: i128 = x0 as i128;
        let mut sum_sq: i128 = (x0 as i128) * (x0 as i128);
        let mut i: usize = 1;
        while i < n
            invariant
                1 <= i <= n,
                n == values@.len(),
                n <= MAX_SAMPLE_COUNT,
                bounded_seq(values@, MAX_ABS_SAMPLE as int),
                min as int == seq_min(values@.take(i as int)),
                max as int == seq_max(values@.take(i as int)),
                sum as int == seq_sum(values@.take(i as int)),
                sum_sq as int == seq_sum_sq(values@.take(i as int)),
                -MAX_ABS_SAMPLE <= min <= max <= MAX_ABS_SAMPLE,
                -((i as int) * (MAX_ABS_SAMPLE as int)) <= sum as int,
                sum as int <= (i as int) * (MAX_ABS_SAMPLE as int),
                0 <= sum_sq as int,
                sum_sq as int <= (i as int) * (MAX_ABS_SAMPLE as int) * (MAX_ABS_SAMPLE as int),
            decreases n - i,
        {
            let x = values[i];
            proof {
                assert(values@.take(i as int + 1).drop_last() =~= values@.take(i as int));
                assert(values@.take(i as int + 1).last() == values@[i as int]);
                assert(-MAX_ABS_SAMPLE <= values@[i as int] <= MAX_ABS_SAMPLE);
                assert((x as int) * (x as int)
                    <= (MAX_ABS_SAMPLE as int) * (MAX_ABS_SAMPLE as int)) by (nonlinear_arith)
                    requires
                        -(MAX_ABS_SAMPLE as int) <= x as int <= MAX_ABS_SAMPLE as int,
                ;
                assert((x as int) * (x as int) >= 0) by (nonlinear_arith);
            }
            if x < min {
                min = x;
            }
            if x > max {
                max = x;
            }
            sum = sum + x as i128;
            sum_sq = sum_sq + (x as i128) * (x as i128);
            i = i + 1;
        }
        proof {
            assert(values@.take(n as int) =~= values@);
            lemma_seq_stats_bounds(values@);
        }
        Some(Summary { n, min, max, sum, sum_sq })
    }

    /// Exact sample variance as a fraction `(numerator, denominator)`.
    ///
    /// For `n == 1` the variance is zero by definition; for `n >= 2` it is
    /// `(n * sum_sq - sum^2) / (n * (n - 1))`.
    pub fn variance_parts(&self) -> (r: (i128, i128))
        requires
            self.wf(),
        ensures
            r.1 > 0,
            r.0 >= 0,
            self.n == 1 ==> r.0 == 0 && r.1 == 1,
            self.n >= 2 ==> r.0 == self.n * self.sum_sq - self.sum * self.sum
                && r.1 == self.n * (self.n - 1),
    {
        proof {
            lemma_summary_products_fit(*self);
        }
        if self.n == 1 {
            (0, 1)
        } else {
            let n = self.n as i128;
            (n * self.sum_sq - self.sum * self.sum, n * (n - 1))
        }
    }

    /// Exact mean as a fraction `(numerator, denominator)`: `sum / n`.
    pub fn mean_parts(&self) -> (r: (i128, i128))
        requires
            self.wf(),
        ensures
            r.0 == self.sum,
            r.1 == self.n,
            r.1 > 0,
    {
        (self.sum, self.n as i128)
    }
}

/// All products the variance computation forms stay inside `i128` for a
/// well-formed summary.
pub proof fn lemma_summary_products_fit(s: Summary)
    requires
        s.wf(),
    ensures
        0 <= s.n * s.sum_sq <= 0x4000_0000_0000_0000_0000_0000_0000_0000,
        0 <= s.sum * s.sum <= 0x4000_0000_0000_0000_0000_0000_0000_0000,
        s.n >= 2 ==> 2 <= s.n * (s.n - 1) <= 0x1_0000_0000_0000,
        -0x8000_0000_0000_0000 <= s.sum <= 0x8000_0000_0000_0000,
{
    let a = MAX_ABS_SAMPLE as int;
    let c = MAX_SAMPLE_COUNT as int;
    assert(0 <= s.n * s.sum_sq <= 0x4000_0000_0000_0000_0000_0000_0000_0000) by (nonlinear_arith)
        requires
            1 <= s.n <= c,
            0 <= s.sum_sq <= s.n * a * a,
            a == 0x80_0000_0000,
            c == 0x100_0000,
    ;
    if s.n >= 2 {
        assert(2 <= s.n * (s.n - 1) <= 0x1_0000_0000_0000) by (nonlinear_arith)
            requires
                2 <= s.n <= c,
                c == 0x100_0000,
        ;
    }
    assert(-0x8000_0000_0000_0000 <= s.sum <= 0x8000_0000_0000_0000) by (nonlinear_arith)
        requires
            1 <= s.n <= c,
            s.n * s.min <= s.sum <= s.n * s.max,
            -a <= s.min <= s.max <= a,
            a == 0x80_0000_0000,
            c == 0x100_0000,
    ;
    assert(0 <= s.sum * s.sum <= 0x4000_0000_0000_0000_0000_0000_0000_0000) by (nonlinear_arith)
        requires
            -0x8000_0000_0000_0000 <= s.sum <= 0x8000_0000_0000_0000,
    ;
}

/// A summary is determined by the series it describes: two summaries of the
/// same series are equal.  Together with the contracts of [`Summary::from`]
/// and [`RunningSummary::push`], this makes running summaries
/// prefix-consistent: the `k`-th emitted snapshot equals the summary built
/// from the first `k + 1` values.
pub proof fn lemma_summary_unique(a: Summary, b: Summary, s: Seq<i64>)
    requires
        a.is_summary_of(s),
        b.is_summary_of(s),
    ensures
        a == b,
{
}

/// Sum of squared deviations, scaled: `sum over i of (a * s[i] - b)^2`.
pub open spec fn sum_sq_dev(s: Seq<i64>, a: int, b: int) -> int
    decreases s.len(),
{
    if s.len() == 0 {
        0
    } else {
        sum_sq_dev(s.drop_last(), a, b) + (a * s.last() - b) * (a * s.last() - b)
    }
}

proof fn lemma_sum_sq_dev_expand(s: Seq<i64>, a: int, b: int)
    ensures
        sum_sq_dev(s, a, b) == (a * a) * seq_sum_sq(s) - 2 * ((a * b) * seq_sum(s)) + s.len() * (b
            * b),
    decreases s.len(),
{
    if s.len() == 0 {
        assert(seq_sum(s) == 0);
        assert(seq_sum_sq(s) == 0);
        assert((a * a) * 0 == 0 && (a * b) * 0 == 0) by (nonlinear_arith);
        assert(s.len() * (b * b) == 0) by (nonlinear_arith)
            requires
                s.len() == 0,
        ;
    } else {
        let d = s.drop_last();
        let x = s.last() as int;
        lemma_sum_sq_dev_expand(d, a, b);
        assert(seq_sum(s) == seq_sum(d) + x);
        assert(seq_sum_sq(s) == seq_sum_sq(d) + x * x);
        assert(sum_sq_dev(s, a, b) == sum_sq_dev(d, a, b) + (a * x - b) * (a * x - b));
        assert((a * x - b) * (a * x - b) == (a * a) * (x * x) - 2 * ((a * b) * x) + b * b)
            by (nonlinear_arith);
        assert((a * a) * (seq_sum_sq(d) + x * x) == (a * a) * seq_sum_sq(d) + (a * a) * (x * x))
            by (nonlinear_arith);
        assert((a * b) * (seq_sum(d) + x) == (a * b) * seq_sum(d) + (a * b) * x)
            by (nonlinear_arith);
        assert(s.len() * (b * b) == d.len() * (b * b) + b * b) by (nonlinear_arith)
            requires
                s.len() == d.len() + 1,
        ;
    }
}

/// The streaming variance equals the naive two-pass variance, exactly.
///
/// `n * var_num(s)` is the sum over the series of the squared deviations
/// `(n * x - sum)^2` of the scaled values from the scaled mean; dividing both
/// sides by `n^2 * (n - 1)` gives the usual two-pass sample variance.
pub proof fn lemma_variance_two_pass(s: Seq<i64>)
    requires
        s.len() >= 1,
    ensures
        s.len() * var_num(s) == sum_sq_dev(s, s.len() as int, seq_sum(s)),
{
    let n = s.len() as int;
    let q = seq_sum_sq(s);
    let ssum = seq_sum(s);
    lemma_sum_sq_dev_expand(s, n, ssum);
    assert((n * n) * q - 2 * ((n * ssum) * ssum) + n * (ssum * ssum) == n * (n * q - ssum * ssum))
        by (nonlinear_arith);
}

/// One step of the exact accumulators: a bounded value keeps the running sum
/// and sum of squares inside their 128-bit ranges.
proof fn lemma_accumulator_step(n: int, sum: int, sum_sq: int, value: int)
    requires
        0 <= n <= MAX_SAMPLE_COUNT,
        -(n * (MAX_ABS_SAMPLE as int)) <= sum <= n * (MAX_ABS_SAMPLE as int),
        0 <= sum_sq <= n * ((MAX_ABS_SAMPLE as int) * (MAX_ABS_SAMPLE as int)),
        -(MAX_ABS_SAMPLE as int) <= value <= MAX_ABS_SAMPLE as int,
    ensures
        0 <= value * value <= 0x4000_0000_0000_0000_0000,
        -0x8000_0000_0000_0000 <= sum <= 0x8000_0000_0000_0000,
        0 <= sum_sq <= 0x40_0000_0000_0000_0000_0000_0000,
        -((n + 1) * (MAX_ABS_SAMPLE as int)) <= sum + value <= (n + 1) * (MAX_ABS_SAMPLE as int),
        0 <= sum_sq + value * value <= (n + 1) * ((MAX_ABS_SAMPLE as int) * (MAX_ABS_SAMPLE
            as int)),
{
    let a = MAX_ABS_SAMPLE as int;
    assert(0 <= value * value <= a * a && a * a == 0x4000_0000_0000_0000_0000)
        by (nonlinear_arith)
        requires
            -a <= value <= a,
            a == 0x80_0000_0000,
    ;
    assert(-0x8000_0000_0000_0000 <= sum <= 0x8000_0000_0000_0000) by (nonlinear_arith)
        requires
            -(n * a) <= sum <= n * a,
            0 <= n <= 0x100_0000,
            a == 0x80_0000_0000,
    ;
    assert(0 <= sum_sq <= 0x40_0000_0000_0000_0000_0000_0000) by (nonlinear_arith)
        requires
            0 <= sum_sq <= n * (a * a),
            0 <= n <= 0x100_0000,
            a == 0x80_0000_0000,
    ;
    assert(-((n + 1) * a) <= sum + value <= (n + 1) * a) by (nonlinear_arith)
        requires
            -(n * a) <= sum <= n * a,
            -a <= value <= a,
    ;
    assert(0 <= sum_sq + value * value <= (n + 1) * (a * a)) by (nonlinear_arith)
        requires
            0 <= sum_sq <= n * (a * a),
            0 <= value * value <= a * a,
    ;
}

/// Streaming summary state: feed values one at a time and get the snapshot
/// after each.
pub struct RunningSummary {
    n: usize,
    min: i64,
    max: i64,
    sum: i128,
    sum_sq: i128,
    values: Ghost<Seq<i64>>,
}

impl RunningSummary {
    /// The values fed so far.
    pub closed spec fn seen(self) -> Seq<i64> {
        self.values@
    }

    /// The accumulators describe exactly the values fed so far.
    pub closed spec fn wf(self) -> bool {
        &&& self.n == self.values@.len()
        &&& self.values@.len() <= MAX_SAMPLE_COUNT
        &&& bounded_seq(self.values@, MAX_ABS_SAMPLE as int)
        &&& self.sum == seq_sum(self.values@)
        &&& self.sum_sq == seq_sum_sq(self.values@)
        &&& self.n > 0 ==> self.min == seq_min(self.values@) && self.max == seq_max(self.values@)
        &&& self.n > 0 ==> -MAX_ABS_SAMPLE <= self.min <= self.max <= MAX_ABS_SAMPLE
        &&& -((self.n as int) * (MAX_ABS_SAMPLE as int)) <= self.sum <= (self.n as int) * (
        MAX_ABS_SAMPLE as int)
        &&& 0 <= self.sum_sq <= (self.n as int) * ((MAX_ABS_SAMPLE as int) * (MAX_ABS_SAMPLE
            as int))
    }

    /// An empty running summary.
    pub fn new() -> (r: RunningSummary)
        ensures
            r.wf(),
            r.seen() == Seq::<i64>::empty(),
    {
        let r = RunningSummary { n: 0, min: 0, max: 0, sum: 0, sum_sq: 0, values: Ghost(Seq::empty()) };
        proof {
            assert(seq_sum(r.values@) == 0);
            assert(seq_sum_sq(r.values@) == 0);
        }
        r
    }

    /// Feed one value and return the snapshot of everything fed so far.
    pub fn push(&mut self, value: i64) -> (s: Summary)
        requires
            old(self).wf(),
            old(self).seen().len() < MAX_SAMPLE_COUNT,
            -MAX_ABS_SAMPLE <= value <= MAX_ABS_SAMPLE,
        ensures
            final(self).wf(),
            final(self).seen() == old(self).seen().push(value),
            s.is_summary_of(final(self).seen()),
            s.wf(),
    {
        let ghost oldseen = self.values@;
        proof {
            assert(oldseen.push(value).drop_last() =~= oldseen);
            assert(oldseen.push(value).last() == value);
            lemma_accumulator_step(self.n as int, self.sum as int, self.sum_sq as int, value as int);
        }
        if self.n == 0 {
            self.min = value;
            self.max = value;
        } else {
            if value < self.min {
                self.min = value;
            }
            if value > self.max {
                self.max = value;
            }
        }
        self.sum = self.sum + value as i128;
        self.sum_sq = self.sum_sq + (value as i128) * (value as i128);
        self.n = self.n + 1;
        self.values = Ghost(oldseen.push(value));
        proof {
            lemma_seq_stats_bounds(self.values@);
        }
        Summary { n: self.n, min: self.min, max: self.max, sum: self.sum, sum_sq: self.sum_sq }
    }
}

impl Summary {
    /// The sequence of running snapshots, one per input value: the `k`-th
    /// snapshot summarises the first `k + 1` values.
    pub fn running(values: &[i64]) -> (r: Vec<Summary>)
        requires
            values@.len() <= MAX_SAMPLE_COUNT,
            bounded_seq(values@, MAX_ABS_SAMPLE as int),
        ensures
            r@.len() == values@.len(),
            forall|k: int| 0 <= k < r@.len() ==> (#[trigger] r@[k]).is_summary_of(
                values@.take(k + 1),
            ) && r@[k].wf(),
    {
        let mut rs = RunningSummary::new();
        let mut out: Vec<Summary> = Vec::new();
        let n = values.len();
        let mut i: usize = 0;
        proof {
            assert(values@.take(0) =~= Seq::<i64>::empty());
        }
        while i < n
            invariant
                i <= n,
                n == values@.len(),
                n <= MAX_SAMPLE_COUNT,
                bounded_seq(values@, MAX_ABS_SAMPLE as int),
                rs.wf(),
                rs.seen() == values@.take(i as int),
                out@.len() == i,
                forall|k: int| 0 <= k < i ==> (#[trigger] out@[k]).is_summary_of(
                    values@.take(k + 1),
                ) && out@[k].wf(),
            decreases n - i,
        {
            let x = values[i];
            proof {
                assert(-MAX_ABS_SAMPLE <= values@[i as int] <= MAX_ABS_SAMPLE);
                assert(values@.take(i as int).push(values@[i as int]) =~= values@.take(i as int + 1));
            }
            let s = rs.push(x);
            out.push(s);
            i = i + 1;
        }
        out
    }
}

/// Streaming variance state: feed values one at a time and get the exact
/// sample variance, as a fraction, after each.
pub struct RunningVariance {
    n: usize,
    sum: i128,
    sum_sq: i128,
    values: Ghost<Seq<i64>>,
}

impl RunningVariance {
    /// The values fed so far.
    pub closed spec fn seen(self) -> Seq<i64> {
        self.values@
    }

    /// The accumulators describe exactly the values fed so far.
    pub closed spec fn wf(self) -> bool {
        &&& self.n == self.values@.len()
        &&& self.values@.len() <= MAX_SAMPLE_COUNT
        &&& bounded_seq(self.values@, MAX_ABS_SAMPLE as int)
        &&& self.sum == seq_sum(self.values@)
        &&& self.sum_sq == seq_sum_sq(self.values@)
        &&& -((self.n as int) * (MAX_ABS_SAMPLE as int)) <= self.sum <= (self.n as int) * (
        MAX_ABS_SAMPLE as int)
        &&& 0 <= self.sum_sq <= (self.n as int) * ((MAX_ABS_SAMPLE as int) * (MAX_ABS_SAMPLE
            as int))
    }

    /// An empty running variance.
    pub fn new() -> (r: RunningVariance)
        ensures
            r.wf(),
            r.seen() == Seq::<i64>::empty(),
    {
        let r = RunningVariance { n: 0, sum: 0, sum_sq: 0, values: Ghost(Seq::empty()) };
        proof {
            assert(seq_sum(r.values@) == 0);
            assert(seq_sum_sq(r.values@) == 0);
        }
        r
    }

    /// Feed one value and return the exact sample variance of everything fed
    /// so far, as a fraction `(numerator, denominator)`; a single value has
    /// variance zero.
    pub fn push(&mut self, value: i64) -> (r: (i128, i128))
        requires
            old(self).wf(),
            old(self).seen().len() < MAX_SAMPLE_COUNT,
            -MAX_ABS_SAMPLE <= value <= MAX_ABS_SAMPLE,
        ensures
            final(self).wf(),
            final(self).seen() == old(self).seen().push(value),
            r.0 == var_num(final(self).seen()),
            r.1 == if final(self).seen().len() == 1 {
                1int
            } else {
                final(self).seen().len() * (final(self).seen().len() - 1)
            },
            r.0 >= 0,
            r.1 > 0,
    {
        let ghost oldseen = self.values@;
        proof {
            assert(oldseen.push(value).drop_last() =~= oldseen);
            assert(oldseen.push(value).last() == value);
            lemma_accumulator_step(self.n as int, self.sum as int, self.sum_sq as int, value as int);
        }
        self.sum = self.sum + value as i128;
        self.sum_sq = self.sum_sq + (value as i128) * (value as i128);
        self.n = self.n + 1;
        self.values = Ghost(oldseen.push(value));
        proof {
            lemma_seq_stats_bounds(self.values@);
            assert(0 <= (self.n as int) * self.sum_sq
                <= 0x4000_0000_0000_0000_0000_0000_0000_0000) by (nonlinear_arith)
                requires
                    1 <= self.n as int <= 0x100_0000,
                    0 <= self.sum_sq <= (self.n as int) * ((MAX_ABS_SAMPLE as int) * (
                    MAX_ABS_SAMPLE as int)),
                    MAX_ABS_SAMPLE == 0x80_0000_0000,
            ;
            assert(-0x8000_0000_0000_0000 <= self.sum <= 0x8000_0000_0000_0000)
                by (nonlinear_arith)
                requires
                    1 <= self.n as int <= 0x100_0000,
                    -((self.n as int) * (MAX_ABS_SAMPLE as int)) <= self.sum <= (self.n as int) * (
                    MAX_ABS_SAMPLE as int),
                    MAX_ABS_SAMPLE == 0x80_0000_0000,
            ;
            assert(0 <= self.sum * self.sum <= 0x4000_0000_0000_0000_0000_0000_0000_0000)
                by (nonlinear_arith)
                requires
                    -0x8000_0000_0000_0000 <= self.sum <= 0x8000_0000_0000_0000,
            ;
            assert(1 <= (self.n as int) * (self.n as int - 1) <= 0x1_0000_0000_0000 || self.n == 1)
                by (nonlinear_arith)
                requires
                    1 <= self.n as int <= 0x100_0000,
            ;
        }
        let num = (self.n as i128) * self.sum_sq - self.sum * self.sum;
        let den = if self.n == 1 {
            1
        } else {
            (self.n as i128) * (self.n as i128 - 1)
        };
        proof {
            if self.n == 1 {
                let p = self.values@;
                let d = p.drop_last();
                assert(d.len() == 0);
                assert(seq_sum(d) == 0);
                assert(seq_sum_sq(d) == 0);
                assert(seq_sum(p) == p[0]);
                assert(seq_sum_sq(p) == p[0] * p[0]);
                assert(var_num(p) == 1 * (p[0] * p[0]) - p[0] * p[0]);
            }
        }
        (num, den)
    }
}

} // verus!

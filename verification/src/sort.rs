//! Verified insertion sorts and the integer median.
//!
//! The outlier filters work on sorted copies of the sample series, and the
//! iteration estimator uses the median of a small set of timings.

use vstd::prelude::*;

verus! {

broadcast use vstd::seq_lib::group_to_multiset_ensures;

/// `s` is sorted in non-decreasing order.
pub open spec fn sorted_i64(s: Seq<i64>) -> bool {
    forall|i: int, j: int| 0 <= i < j < s.len() ==> #[trigger] s[i] <= #[trigger] s[j]
}

/// `s` is sorted in non-decreasing order.
pub open spec fn sorted_u64(s: Seq<u64>) -> bool {
    forall|i: int, j: int| 0 <= i < j < s.len() ==> #[trigger] s[i] <= #[trigger] s[j]
}

/// Magnitude of a sample, as a mathematical integer.
pub open spec fn abs_i64(x: i64) -> int {
    if x < 0 {
        -(x as int)
    } else {
        x as int
    }
}

/// `s` is sorted by magnitude in non-decreasing order.
pub open spec fn sorted_by_abs(s: Seq<i64>) -> bool {
    forall|i: int, j: int| 0 <= i < j < s.len() ==> #[trigger] abs_i64(s[i]) <= #[trigger] abs_i64(s[j])
}

/// Sort a series of samples in non-decreasing order.
pub fn sort_i64(values: Vec<i64>) -> (r: Vec<i64>)
    ensures
        sorted_i64(r@),
        r@.to_multiset() == values@.to_multiset(),
        r@.len() == values@.len(),
{
    let n = values.len();
    let mut out: Vec<i64> = Vec::new();
    let mut i: usize = 0;
    proof {
        assert(values@.take(0) =~= Seq::<i64>::empty());
        assert(Seq::<i64>::empty().to_multiset() =~= out@.to_multiset());
    }
    while i < n
        invariant
            i <= n,
            n == values@.len(),
            out@.len() == i,
            sorted_i64(out@),
            out@.to_multiset() == values@.take(i as int).to_multiset(),
        decreases n - i,
    {
        let x = values[i];
        let mut pos: usize = 0;
        while pos < out.len() && out[pos] <= x
            invariant
                pos <= out@.len(),
                forall|j: int| 0 <= j < pos ==> #[trigger] out@[j] <= x,
            decreases out@.len() - pos,
        {
            pos = pos + 1;
        }
        let ghost old_out = out@;
        out.insert(pos, x);
        proof {
            assert(out@ =~= old_out.take(pos as int) + seq![x] + old_out.skip(pos as int));
            assert forall|a: int, b: int| 0 <= a < b < out@.len() implies out@[a] <= out@[b] by {
                if a < pos && b == pos {
                    assert(out@[a] == old_out[a]);
                } else if a == pos && b > pos {
                    assert(out@[b] == old_out[b - 1]);
                    assert(!(old_out[pos as int] <= x));
                } else if a < pos && b > pos {
                    assert(out@[a] == old_out[a] && out@[b] == old_out[b - 1]);
                } else if a > pos && b > pos {
                    assert(out@[a] == old_out[a - 1] && out@[b] == old_out[b - 1]);
                }
            }
            assert(values@.take(i as int + 1).drop_last() =~= values@.take(i as int));
            assert(values@.take(i as int + 1) =~= values@.take(i as int).push(x));
            assert(out@.to_multiset() == values@.take(i as int + 1).to_multiset());
        }
        i = i + 1;
    }
    proof {
        assert(values@.take(n as int) =~= values@);
    }
    out
}

/// Sort a series of samples by magnitude in non-decreasing order.
///
/// Ties between magnitudes keep their original relative order.
pub fn sort_i64_by_abs(values: Vec<i64>) -> (r: Vec<i64>)
    requires
        forall|i: int| 0 <= i < values@.len() ==> #[trigger] values@[i] > i64::MIN,
    ensures
        sorted_by_abs(r@),
        r@.to_multiset() == values@.to_multiset(),
        r@.len() == values@.len(),
{
    let n = values.len();
    let mut out: Vec<i64> = Vec::new();
    let mut i: usize = 0;
    proof {
        assert(values@.take(0) =~= Seq::<i64>::empty());
        assert(Seq::<i64>::empty().to_multiset() =~= out@.to_multiset());
    }
    while i < n
        invariant
            i <= n,
            n == values@.len(),
            out@.len() == i,
            sorted_by_abs(out@),
            out@.to_multiset() == values@.take(i as int).to_multiset(),
            forall|j: int| 0 <= j < values@.len() ==> #[trigger] values@[j] > i64::MIN,
        decreases n - i,
    {
        let x = values[i];
        proof {
            assert(values@[i as int] > i64::MIN);
        }
        let ax = if x < 0 { -x } else { x };
        let mut pos: usize = 0;
        loop
            invariant
                i < n,
                n == values@.len(),
                pos <= out@.len(),
                out@.to_multiset() == values@.take(i as int).to_multiset(),
                forall|j: int| 0 <= j < values@.len() ==> #[trigger] values@[j] > i64::MIN,
                ax == abs_i64(x),
                forall|j: int| 0 <= j < pos ==> #[trigger] abs_i64(out@[j]) <= ax,
            ensures
                pos <= out@.len(),
                forall|j: int| 0 <= j < pos ==> #[trigger] abs_i64(out@[j]) <= ax,
                pos < out@.len() ==> abs_i64(out@[pos as int]) > ax,
            decreases out@.len() - pos,
        {
            if pos >= out.len() {
                break;
            }
            proof {
                assert(out@.to_multiset().contains(out@[pos as int]));
                assert(values@.take(i as int).contains(out@[pos as int]));
            }
            let v = out[pos];
            let av = if v < 0 { -v } else { v };
            if av > ax {
                break;
            }
            pos = pos + 1;
        }
        let ghost old_out = out@;
        out.insert(pos, x);
        proof {
            assert(out@ =~= old_out.take(pos as int) + seq![x] + old_out.skip(pos as int));
            assert forall|a: int, b: int| 0 <= a < b < out@.len()
                implies abs_i64(out@[a]) <= abs_i64(out@[b]) by {
                if a < pos && b == pos {
                    assert(out@[a] == old_out[a]);
                } else if a == pos && b > pos {
                    assert(out@[b] == old_out[b - 1]);
                    assert(!(abs_i64(old_out[pos as int]) <= ax));
                } else if a < pos && b > pos {
                    assert(out@[a] == old_out[a] && out@[b] == old_out[b - 1]);
                } else if a > pos && b > pos {
                    assert(out@[a] == old_out[a - 1] && out@[b] == old_out[b - 1]);
                }
            }
            assert(values@.take(i as int + 1).drop_last() =~= values@.take(i as int));
            assert(values@.take(i as int + 1) =~= values@.take(i as int).push(x));
            assert(out@.to_multiset() == values@.take(i as int + 1).to_multiset());
        }
        i = i + 1;
    }
    proof {
        assert(values@.take(n as int) =~= values@);
    }
    out
}

/// Sort a series of timings in non-decreasing order.
pub fn sort_u64(values: Vec<u64>) -> (r: Vec<u64>)
    ensures
        sorted_u64(r@),
        r@.to_multiset() == values@.to_multiset(),
        r@.len() == values@.len(),
{
    let n = values.len();
    let mut out: Vec<u64> = Vec::new();
    let mut i: usize = 0;
    proof {
        assert(values@.take(0) =~= Seq::<u64>::empty());
        assert(Seq::<u64>::empty().to_multiset() =~= out@.to_multiset());
    }
    while i < n
        invariant
            i <= n,
            n == values@.len(),
            out@.len() == i,
            sorted_u64(out@),
            out@.to_multiset() == values@.take(i as int).to_multiset(),
        decreases n - i,
    {
        let x = values[i];
        let mut pos: usize = 0;
        while pos < out.len() && out[pos] <= x
            invariant
                pos <= out@.len(),
                forall|j: int| 0 <= j < pos ==> #[trigger] out@[j] <= x,
            decreases out@.len() - pos,
        {
            pos = pos + 1;
        }
        let ghost old_out = out@;
        out.insert(pos, x);
        proof {
            assert(out@ =~= old_out.take(pos as int) + seq![x] + old_out.skip(pos as int));
            assert forall|a: int, b: int| 0 <= a < b < out@.len() implies out@[a] <= out@[b] by {
                if a < pos && b == pos {
                    assert(out@[a] == old_out[a]);
                } else if a == pos && b > pos {
                    assert(out@[b] == old_out[b - 1]);
                    assert(!(old_out[pos as int] <= x));
                } else if a < pos && b > pos {
                    assert(out@[a] == old_out[a] && out@[b] == old_out[b - 1]);
                } else if a > pos && b > pos {
                    assert(out@[a] == old_out[a - 1] && out@[b] == old_out[b - 1]);
                }
            }
            assert(values@.take(i as int + 1).drop_last() =~= values@.take(i as int));
            assert(values@.take(i as int + 1) =~= values@.take(i as int).push(x));
            assert(out@.to_multiset() == values@.take(i as int + 1).to_multiset());
        }
        i = i + 1;
    }
    proof {
        assert(values@.take(n as int) =~= values@);
    }
    out
}

/// The median of a sorted series: the middle element, or for an even length
/// the floor of the average of the two middle elements.
pub open spec fn median_of_sorted(t: Seq<u64>) -> int {
    if t.len() % 2 == 0 {
        (t[t.len() as int / 2 - 1] + t[t.len() as int / 2]) / 2
    } else {
        t[t.len() as int / 2] as int
    }
}

/// Median of a series of timings.
pub fn median(measures: Vec<u64>) -> (r: u64)
    requires
        measures@.len() >= 1,
    ensures
        exists|t: Seq<u64>|
            t.to_multiset() == measures@.to_multiset() && sorted_u64(t) && t.len()
                == measures@.len() && r == median_of_sorted(t),
{
    let ghost orig = measures@;
    let sorted = sort_u64(measures);
    let n = sorted.len();
    if n % 2 == 0 {
        let a = sorted[n / 2 - 1];
        let b = sorted[n / 2];
        let r = a / 2 + b / 2 + (a % 2 + b % 2) / 2;
        proof {
            let t = sorted@;
            assert(r == median_of_sorted(t));
        }
        r
    } else {
        sorted[n / 2]
    }
}

} // verus!

//! Robustness of the clock offset estimate: outliers that lie well away from
//! a majority of exact samples do not move the estimate.
use vstd::multiset::Multiset;
use vstd::prelude::*;
use vstd::relations::sorted_by;

use crate::clock::{
    is_floor_sqrt, lemma_div_trunc_bound, lemma_sample_leq_total, lemma_sum_bound, mean_of,
    median_of, near, offset_estimate, retained_of, sample_leq, sq_dev_sum, std_dev_of, sum_of,
    valid_samples, div_trunc, SAMPLE_LIMIT,
};

verus! {

/// Number of samples equal to `v`.
pub open spec fn count_equal(s: Seq<i64>, v: int) -> nat
    decreases s.len(),
{
    if s.len() == 0 {
        0
    } else {
        count_equal(s.drop_last(), v) + if s.last() == v {
            1nat
        } else {
            0nat
        }
    }
}

proof fn lemma_count_equal_le_len(s: Seq<i64>, v: int)
    ensures
        count_equal(s, v) <= s.len(),
    decreases s.len(),
{
    if s.len() > 0 {
        lemma_count_equal_le_len(s.drop_last(), v);
    }
}

proof fn lemma_count_equal_multiset(s: Seq<i64>, v: i64)
    ensures
        count_equal(s, v as int) == s.to_multiset().count(v),
    decreases s.len(),
{
    broadcast use vstd::multiset::group_multiset_axioms;

    if s.len() == 0 {
        vstd::seq_lib::to_multiset_len(s);
        assert(s.to_multiset().len() == 0);
        assert(s.to_multiset() =~= Multiset::empty());
    } else {
        let p = s.drop_last();
        lemma_count_equal_multiset(p, v);
        assert(s =~= p.push(s.last()));
        vstd::seq_lib::to_multiset_build(p, s.last());
    }
}

proof fn lemma_count_equal_none(s: Seq<i64>, v: int)
    requires
        forall|j: int| 0 <= j < s.len() ==> s[j] != v,
    ensures
        count_equal(s, v) == 0,
    decreases s.len(),
{
    if s.len() > 0 {
        lemma_count_equal_none(s.drop_last(), v);
    }
}

/// In sorted samples, an element below `v` at index `i` leaves room for at
/// most `len - i - 1` copies of `v`.
proof fn lemma_sorted_below(r: Seq<i64>, v: int, i: int)
    requires
        sorted_by(r, sample_leq()),
        0 <= i < r.len(),
        r[i] < v,
    ensures
        count_equal(r, v) + i + 1 <= r.len(),
    decreases r.len(),
{
    let p = r.drop_last();
    if i == r.len() - 1 {
        assert forall|j: int| 0 <= j < r.len() implies r[j] != v by {
            if j < i {
                assert(sample_leq()(r[j], r[i]));
            }
        }
        lemma_count_equal_none(r, v);
    } else {
        assert(sorted_by(p, sample_leq())) by {
            assert forall|a: int, b: int| 0 <= a < b < p.len() implies #[trigger] sample_leq()(
                p[a],
                p[b],
            ) by {
                assert(sample_leq()(r[a], r[b]));
            }
        }
        lemma_sorted_below(p, v, i);
    }
}

/// In sorted samples, an element above `v` at index `i` leaves room for at
/// most `i` copies of `v`.
proof fn lemma_sorted_above(r: Seq<i64>, v: int, i: int)
    requires
        sorted_by(r, sample_leq()),
        0 <= i < r.len(),
        r[i] > v,
    ensures
        count_equal(r, v) <= i,
    decreases r.len(),
{
    let p = r.drop_last();
    if i < r.len() - 1 {
        assert(sample_leq()(r[i], r[r.len() - 1]));
    }
    if i == r.len() - 1 {
        lemma_count_equal_le_len(p, v);
    } else {
        assert(sorted_by(p, sample_leq())) by {
            assert forall|a: int, b: int| 0 <= a < b < p.len() implies #[trigger] sample_leq()(
                p[a],
                p[b],
            ) by {
                assert(sample_leq()(r[a], r[b]));
            }
        }
        lemma_sorted_above(p, v, i);
    }
}

/// Samples that are `t` or `t ± m`.
pub open spec fn on_grid(s: Seq<i64>, t: int, m: int) -> bool {
    forall|i: int| 0 <= i < s.len() ==> #[trigger] s[i] == t || s[i] == t + m || s[i] == t - m
}

proof fn lemma_grid_prefix(s: Seq<i64>, t: int, m: int)
    requires
        s.len() > 0,
        on_grid(s, t, m),
    ensures
        on_grid(s.drop_last(), t, m),
{
    assert forall|i: int| 0 <= i < s.drop_last().len() implies #[trigger] s.drop_last()[i] == t
        || s.drop_last()[i] == t + m || s.drop_last()[i] == t - m by {
        assert(s.drop_last()[i] == s[i]);
    }
}

/// The sum of squared distances from `c`, split into the part due to the
/// samples off `t` and the part due to `c` missing `t`.
proof fn lemma_sq_dev_split(s: Seq<i64>, t: int, m: int, c: int)
    requires
        on_grid(s, t, m),
    ensures
        sq_dev_sum(s, c) == (s.len() - count_equal(s, t)) * (m * m) - 2 * ((c - t) * (sum_of(s)
            - s.len() * t)) + s.len() * ((c - t) * (c - t)),
    decreases s.len(),
{
    let mm = m * m;
    let e = c - t;
    let ee = e * e;
    let len = s.len() as int;
    let ks = count_equal(s, t) as int;
    let ds = sum_of(s) - len * t;
    if s.len() > 0 {
        let p = s.drop_last();
        let x = s.last() as int;
        lemma_grid_prefix(s, t, m);
        lemma_sq_dev_split(p, t, m, c);
        assert(x == t || x == t + m || x == t - m) by {
            assert(s[s.len() - 1] == s.last());
        }
        let n0 = p.len() as int;
        let k0 = count_equal(p, t) as int;
        let dp = sum_of(p) - n0 * t;
        let d = x - t;
        assert(len * t == n0 * t + t) by (nonlinear_arith)
            requires
                len == n0 + 1,
        ;
        assert(ds == dp + d);
        assert(e * ds == e * dp + e * d) by (nonlinear_arith)
            requires
                ds == dp + d,
        ;
        assert(len * ee == n0 * ee + ee) by (nonlinear_arith)
            requires
                len == n0 + 1,
        ;
        assert((x - c) * (x - c) == d * d - 2 * (e * d) + ee) by (nonlinear_arith)
            requires
                d == x - t,
                e == c - t,
                ee == e * e,
        ;
        if x == t {
            assert(d * d == 0 && e * d == 0) by (nonlinear_arith)
                requires
                    d == 0,
            ;
            assert((len - ks) * mm == (n0 - k0) * mm) by (nonlinear_arith)
                requires
                    len - ks == n0 - k0,
            ;
        } else {
            assert(d * d == mm) by (nonlinear_arith)
                requires
                    d == m || d == -m,
                    mm == m * m,
            ;
            assert((len - ks) * mm == (n0 - k0) * mm + mm) by (nonlinear_arith)
                requires
                    len - ks == n0 - k0 + 1,
            ;
        }
    } else {
        assert(len * t == 0 && ks * mm == 0 && len * mm == 0 && e * ds == 0 && len * ee == 0)
            by (nonlinear_arith)
            requires
                len == 0,
                ks == 0,
                ds == 0,
        ;
    }
}

proof fn lemma_sq_dev_nonneg(s: Seq<i64>, c: int)
    ensures
        sq_dev_sum(s, c) >= 0,
    decreases s.len(),
{
    if s.len() > 0 {
        lemma_sq_dev_nonneg(s.drop_last(), c);
        let d = s.last() - c;
        assert(d * d >= 0) by (nonlinear_arith);
    }
}

proof fn lemma_sum_on_grid_filter(s: Seq<i64>, t: int, m: int, spread: int)
    requires
        on_grid(s, t, m),
        0 <= spread < m,
    ensures
        s.filter(near(t, spread)).len() == count_equal(s, t),
        sum_of(s.filter(near(t, spread))) == count_equal(s, t) * t,
    decreases s.len(),
{
    if s.len() > 0 {
        let p = s.drop_last();
        let x = s.last();
        lemma_grid_prefix(s, t, m);
        lemma_sum_on_grid_filter(p, t, m, spread);
        assert(s =~= p.push(x));
        p.lemma_filter_push(x, near(t, spread));
        assert(s[s.len() - 1] == x);
        let f = p.filter(near(t, spread));
        if x == t {
            assert(near(t, spread)(x));
            assert(s.filter(near(t, spread)) == f.push(x));
            assert(f.push(x).drop_last() =~= f);
            assert(sum_of(f.push(x)) == sum_of(f) + x);
            assert(count_equal(s, t) == count_equal(p, t) + 1);
            let cs = count_equal(s, t) as int;
            let cp = count_equal(p, t) as int;
            assert(cs * t == cp * t + t) by (nonlinear_arith)
                requires
                    cs == cp + 1,
            ;
        } else {
            assert(!near(t, spread)(x));
            assert(s.filter(near(t, spread)) == f);
            let cs = count_equal(s, t) as int;
            let cp = count_equal(p, t) as int;
            assert(cs == cp);
            assert(cs * t == cp * t) by (nonlinear_arith)
                requires
                    cs == cp,
            ;
        }
    } else {
        s.lemma_filter_len(near(t, spread));
        let cs = count_equal(s, t) as int;
        assert(cs * t == 0) by (nonlinear_arith)
            requires
                cs == 0,
        ;
    }
}

/// Outliers are rejected: when every sample is either the true offset `t` or
/// lies exactly `m` away from it (`m` at least 2), and at most `k` samples,
/// fewer than half of them, are off, the estimate is `t` itself, and so lies
/// within `m / n` of it.
pub proof fn lemma_outliers_rejected(s: Seq<i64>, t: int, m: int, k: nat)
    requires
        valid_samples(s),
        m >= 2,
        on_grid(s, t, m),
        s.len() <= count_equal(s, t) + k,
        2 * k < s.len(),
    ensures
        offset_estimate(s) == t,
        (s.len() as int) * (offset_estimate(s) - t) <= m,
        (s.len() as int) * (t - offset_estimate(s)) <= m,
{
    lemma_estimate_is_exact(s, t, m, k);
    let n = s.len() as int;
    assert(n * (offset_estimate(s) - t) == 0) by (nonlinear_arith)
        requires
            offset_estimate(s) == t,
    ;
}

/// Under the same conditions the estimate equals `t` exactly.
proof fn lemma_estimate_is_exact(s: Seq<i64>, t: int, m: int, k: nat)
    requires
        valid_samples(s),
        m >= 2,
        on_grid(s, t, m),
        s.len() <= count_equal(s, t) + k,
        2 * k < s.len(),
    ensures
        offset_estimate(s) == t,
{
    let n = s.len() as int;
    let c = count_equal(s, t) as int;
    lemma_count_equal_le_len(s, t);
    // some sample equals t, so t is an i64
    assert(exists|i: int| 0 <= i < n && s[i] == t) by {
        if forall|i: int| 0 <= i < n ==> s[i] != t {
            lemma_count_equal_none(s, t);
        }
    }
    let i0 = choose|i: int| 0 <= i < n && s[i] == t;
    let tv = s[i0];
    // the median is t
    let r = s.sort_by(sample_leq());
    lemma_sample_leq_total();
    s.lemma_sort_by_ensures(sample_leq());
    vstd::seq_lib::to_multiset_len(s);
    vstd::seq_lib::to_multiset_len(r);
    lemma_count_equal_multiset(s, tv);
    lemma_count_equal_multiset(r, tv);
    let h = n / 2;
    if r[h] < t {
        lemma_sorted_below(r, t, h);
    } else if r[h] > t {
        lemma_sorted_above(r, t, h);
    }
    assert(median_of(s) == t);
    // the spread stays below m
    let a = mean_of(s);
    lemma_sum_bound(s);
    lemma_div_trunc_bound(sum_of(s), n, SAMPLE_LIMIT as int);
    lemma_sq_dev_split(s, t, m, a);
    let ss = sq_dev_sum(s, a);
    let dd = sum_of(s) - n * t;
    let e = a - t;
    assert(sum_of(s) - n * a == dd - n * e) by (nonlinear_arith)
        requires
            dd == sum_of(s) - n * t,
            e == a - t,
    ;
    let mm = m * m;
    let ee = e * e;
    let big = n * e;
    let off = n - c;
    assert(ss == off * mm - 2 * (e * dd) + n * ee);
    assert(n * ss == n * (off * mm) - 2 * (n * (e * dd)) + n * (n * ee)) by (nonlinear_arith)
        requires
            ss == off * mm - 2 * (e * dd) + n * ee,
    ;
    assert((big - dd) * (big - dd) == big * big - 2 * (big * dd) + dd * dd) by (nonlinear_arith);
    assert(big * big == n * (n * ee)) by (nonlinear_arith)
        requires
            big == n * e,
            ee == e * e,
    ;
    assert(big * dd == n * (e * dd)) by (nonlinear_arith)
        requires
            big == n * e,
    ;
    assert(n * ss == n * (off * mm) + (big - dd) * (big - dd) - dd * dd);
    assert((big - dd) * (big - dd) < n * n) by (nonlinear_arith)
        requires
            -n < dd - big < n,
    ;
    assert(dd * dd >= 0) by (nonlinear_arith);
    assert(n <= c * mm) by (nonlinear_arith)
        requires
            2 * c > n,
            m >= 2,
            mm == m * m,
            c >= 0,
    ;
    assert(n * (off * mm) + n * n <= n * (n * mm)) by (nonlinear_arith)
        requires
            n <= c * mm,
            off == n - c,
            n >= 1,
    ;
    assert(n * ss < n * (n * mm));
    assert(ss < n * mm) by (nonlinear_arith)
        requires
            n * ss < n * (n * mm),
            n >= 1,
    ;
    let var = ss / n;
    assert(var < m * m) by (nonlinear_arith)
        requires
            ss < n * (m * m),
            n >= 1,
            var == ss / n,
    ;
    lemma_sq_dev_nonneg(s, a);
    assert(var >= 0) by (nonlinear_arith)
        requires
            ss >= 0,
            n >= 1,
            var == ss / n,
    ;
    let sd = std_dev_of(s);
    assert(exists|q: int| is_floor_sqrt(var, q)) by {
        floor_sqrt_exists(var, 0);
    }
    assert(is_floor_sqrt(var, sd));
    assert(sd < m) by (nonlinear_arith)
        requires
            sd * sd <= var,
            var < m * m,
            sd >= 0,
            m >= 2,
    ;
    // exactly the samples equal to t are kept
    lemma_sum_on_grid_filter(s, t, m, sd);
    let kept = retained_of(s);
    assert(kept == s.filter(near(t, sd)));
    assert(kept.len() == c);
    assert(sum_of(kept) == c * t);
    if c >= 2 {
        assert(div_trunc(c * t, c) == t) by (nonlinear_arith)
            requires
                c >= 2,
        ;
        assert(mean_of(kept) == t);
        assert(offset_estimate(s) == mean_of(kept));
    } else {
        assert(n == 1);
        assert(s[0] == t) by {
            if s[0] != t {
                lemma_count_equal_none(s, t);
            }
        }
        assert(s.drop_last().len() == 0);
        assert(s.last() == s[0]);
        assert(sum_of(s.drop_last()) == 0);
        assert(sum_of(s) == t);
        assert(mean_of(s) == t);
        assert(offset_estimate(s) == mean_of(s));
    }
}

/// Some `q >= lo` is a floor square root of `v`, given `lo * lo <= v`.
proof fn floor_sqrt_exists(v: int, lo: int)
    requires
        0 <= lo,
        lo * lo <= v,
    ensures
        exists|q: int| is_floor_sqrt(v, q),
    decreases v - lo,
{
    if (lo + 1) * (lo + 1) > v {
        assert(is_floor_sqrt(v, lo));
    } else {
        assert(lo < v) by (nonlinear_arith)
            requires
                (lo + 1) * (lo + 1) <= v,
                lo >= 0,
        ;
        floor_sqrt_exists(v, lo + 1);
    }
}

} // verus!

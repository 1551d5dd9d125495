use vstd::prelude::*;

verus! {

/// Sum of the samples.
pub open spec fn sum(s: Seq<u64>) -> int
    decreases s.len(),
{
    if s.len() == 0 {
        0
    } else {
        sum(s.drop_last()) + s.last()
    }
}

/// Sum of the squares of the samples.
pub open spec fn sum_sq(s: Seq<u64>) -> int
    decreases s.len(),
{
    if s.len() == 0 {
        0
    } else {
        sum_sq(s.drop_last()) + s.last() * s.last()
    }
}

/// Sum of the squared distances of the samples from `c`.
pub open spec fn dev_sq(s: Seq<u64>, c: int) -> int
    decreases s.len(),
{
    if s.len() == 0 {
        0
    } else {
        dev_sq(s.drop_last(), c) + (s.last() - c) * (s.last() - c)
    }
}

/// `n * n` times the population variance of the samples, `n` being their number.
pub open spec fn spread(s: Seq<u64>) -> int {
    s.len() * sum_sq(s) - sum(s) * sum(s)
}

/// The population standard deviation of the samples exceeds `k`.
pub open spec fn std_dev_exceeds(s: Seq<u64>, k: int) -> bool {
    spread(s) > k * k * (s.len() * s.len())
}

/// The population mean of the samples exceeds `t` (never, for no samples).
pub open spec fn mean_exceeds(s: Seq<u64>, t: int) -> bool {
    sum(s) > t * s.len()
}

proof fn lemma_sum_bounds(s: Seq<u64>)
    ensures
        0 <= sum(s) <= s.len() * (u64::MAX as int),
    decreases s.len(),
{
    if s.len() > 0 {
        lemma_sum_bounds(s.drop_last());
        assert(sum(s) <= s.len() * (u64::MAX as int)) by (nonlinear_arith)
            requires
                sum(s) == sum(s.drop_last()) + s.last(),
                sum(s.drop_last()) <= s.drop_last().len() * (u64::MAX as int),
                s.drop_last().len() + 1 == s.len(),
                s.last() <= u64::MAX,
        ;
    }
}

proof fn lemma_dev_sq_expand(s: Seq<u64>, c: int)
    ensures
        dev_sq(s, c) == sum_sq(s) - 2 * c * sum(s) + s.len() * c * c,
    decreases s.len(),
{
    if s.len() > 0 {
        lemma_dev_sq_expand(s.drop_last(), c);
        let x = s.last() as int;
        let n = s.len() as int;
        assert((x - c) * (x - c) == x * x - 2 * c * x + c * c) by (nonlinear_arith);
        assert(n * c * c == (n - 1) * c * c + c * c) by (nonlinear_arith);
        assert(2 * c * sum(s) == 2 * c * sum(s.drop_last()) + 2 * c * x) by (nonlinear_arith)
            requires
                sum(s) == sum(s.drop_last()) + x,
        ;
    }
}

proof fn lemma_dev_sq_nonneg(s: Seq<u64>, c: int)
    ensures
        dev_sq(s, c) >= 0,
    decreases s.len(),
{
    if s.len() > 0 {
        lemma_dev_sq_nonneg(s.drop_last(), c);
        let d = s.last() - c;
        assert(d * d >= 0) by (nonlinear_arith);
    }
}

/// The spread equals `n * dev_sq(s, c) - (sum(s) - n * c)^2` for any centre `c`.
proof fn lemma_spread_shift(s: Seq<u64>, c: int)
    ensures
        spread(s) == s.len() * dev_sq(s, c) - (sum(s) - s.len() * c) * (sum(s) - s.len() * c),
{
    lemma_dev_sq_expand(s, c);
    let n = s.len() as int;
    let q = sum_sq(s);
    let t = sum(s);
    assert(n * (q - 2 * c * t + n * c * c) - (t - n * c) * (t - n * c) == n * q - t * t)
        by (nonlinear_arith);
}

proof fn lemma_spread_nonneg(s: Seq<u64>)
    ensures
        spread(s) >= 0,
    decreases s.len(),
{
    if s.len() > 0 {
        let t = s.drop_last();
        let x = s.last() as int;
        let n = t.len() as int;
        lemma_spread_nonneg(t);
        lemma_dev_sq_expand(t, x);
        lemma_dev_sq_nonneg(t, x);
        assert(spread(s) == spread(t) + dev_sq(t, x)) by (nonlinear_arith)
            requires
                spread(s) == (n + 1) * (sum_sq(t) + x * x) - (sum(t) + x) * (sum(t) + x),
                spread(t) == n * sum_sq(t) - sum(t) * sum(t),
                dev_sq(t, x) == sum_sq(t) - 2 * x * sum(t) + n * x * x,
        ;
    }
}

proof fn lemma_single_dev_sq(s: Seq<u64>)
    requires
        s.len() == 1,
    ensures
        sum(s) == s[0],
        dev_sq(s, s[0] as int) == 0,
{
    let t = s.drop_last();
    assert(t.len() == 0);
    assert(s.last() == s[0]);
    assert(sum(t) == 0);
    assert(dev_sq(t, s[0] as int) == 0);
    assert(sum(s) == sum(t) + s.last());
    assert(dev_sq(s, s[0] as int) == dev_sq(t, s[0] as int) + (s.last() - s[0]) * (s.last() - s[0]));
}

/// Summary statistics of a series of non-negative samples, enough to decide exactly
/// how their mean and population standard deviation compare with integer thresholds.
pub struct Dispersion {
    /// Number of samples.
    pub count: u64,
    /// Sum of the samples.
    pub total: u128,
    /// Mean of the samples, rounded down (0 for no samples).
    pub mean_floor: u64,
    /// Sum of the squared distances of the samples from `mean_floor`, saturated at `u128::MAX`.
    pub deviation_square_sum: u128,
    /// The samples themselves.
    pub samples: Ghost<Seq<u64>>,
}

impl Dispersion {
    /// The fields describe `samples` exactly.
    pub open spec fn wf(&self) -> bool {
        let s = self.samples@;
        &&& self.count == s.len()
        &&& self.total == sum(s)
        &&& (s.len() > 0 ==> self.mean_floor == sum(s) / (s.len() as int))
        &&& (s.len() == 0 ==> self.mean_floor == 0)
        &&& self.deviation_square_sum == (if dev_sq(s, self.mean_floor as int) > u128::MAX {
            u128::MAX as int
        } else {
            dev_sq(s, self.mean_floor as int)
        })
    }

    /// Computes the statistics of `samples`.
    pub fn of_samples(samples: &Vec<u64>) -> (r: Dispersion)
        ensures
            r.wf(),
            r.samples@ == samples@,
    {
        let n = samples.len();
        let mut total: u128 = 0;
        let mut i: usize = 0;
        while i < n
            invariant
                n == samples@.len(),
                i <= n,
                total == sum(samples@.take(i as int)),
                total <= i * (u64::MAX as int),
            decreases n - i,
        {
            proof {
                assert(samples@.take(i as int + 1).drop_last() == samples@.take(i as int));
                assert((i + 1) * (u64::MAX as int) == i * (u64::MAX as int) + u64::MAX) by (nonlinear_arith);
                assert((i + 1) * (u64::MAX as int) <= u128::MAX) by (nonlinear_arith)
                    requires i < n, n <= usize::MAX, usize::MAX <= u64::MAX;
            }
            total = total + samples[i] as u128;
            i = i + 1;
        }
        assert(samples@.take(n as int) == samples@);
        let count = n as u64;
        let mean_floor: u64 = if n == 0 {
            0
        } else {
            proof {
                assert((total as int) / (count as int) <= u64::MAX) by (nonlinear_arith)
                    requires total <= count * (u64::MAX as int), count > 0;
            }
            (total / (count as u128)) as u64
        };
        let mut acc: u128 = 0;
        let mut j: usize = 0;
        while j < n
            invariant
                n == samples@.len(),
                j <= n,
                acc == (if dev_sq(samples@.take(j as int), mean_floor as int) > u128::MAX {
                    u128::MAX as int
                } else {
                    dev_sq(samples@.take(j as int), mean_floor as int)
                }),
            decreases n - j,
        {
            let x = samples[j];
            let d: u64 = if x >= mean_floor { x - mean_floor } else { mean_floor - x };
            proof {
                assert(samples@.take(j as int + 1).drop_last() == samples@.take(j as int));
                assert((d as int) * (d as int) == (x - mean_floor) * (x - mean_floor)) by (nonlinear_arith)
                    requires d == x - mean_floor || d == mean_floor - x;
                assert((d as int) * (d as int) <= u128::MAX) by (nonlinear_arith)
                    requires d <= u64::MAX;
                lemma_dev_sq_nonneg(samples@.take(j as int), mean_floor as int);
            }
            let t: u128 = (d as u128) * (d as u128);
            acc = if acc > u128::MAX - t { u128::MAX } else { acc + t };
            j = j + 1;
        }
        assert(samples@.take(n as int) == samples@);
        Dispersion {
            count,
            total,
            mean_floor,
            deviation_square_sum: acc,
            samples: Ghost(samples@),
        }
    }

    /// Whether the population standard deviation of the samples exceeds `k`.
    pub fn std_dev_exceeds(&self, k: u32) -> (r: bool)
        requires
            self.wf(),
        ensures
            r == std_dev_exceeds(self.samples@, k as int),
    {
        let ghost s = self.samples@;
        let n = self.count;
        if n == 0 {
            proof {
                assert(sum(s) == 0) by {
                    lemma_sum_bounds(s);
                }
            }
            return false;
        }
        let m = self.mean_floor;
        proof {
            lemma_sum_bounds(s);
            assert((m as int) * (n as int) <= sum(s)) by (nonlinear_arith)
                requires m == sum(s) / (n as int), n > 0, sum(s) >= 0;
        }
        let r: u128 = self.total - (m as u128) * (n as u128);
        proof {
            assert((k as int) * (k as int) <= u64::MAX) by (nonlinear_arith)
                requires k <= u32::MAX;
        }
        let kk: u128 = (k as u128) * (k as u128);
        let d = self.deviation_square_sum;
        proof {
            lemma_spread_shift(s, m as int);
            lemma_dev_sq_nonneg(s, m as int);
            let t = sum(s);
            assert(t == (n as int) * (m as int) + r);
            assert(0 <= r < n) by (nonlinear_arith)
                requires m == t / (n as int), n > 0, t >= 0, r == t - (n as int) * (m as int);
            assert(kk <= u64::MAX);
            assert((kk + 1) * n <= u128::MAX) by (nonlinear_arith)
                requires kk <= u64::MAX, n <= u64::MAX;
        }
        let bound: u128 = (kk + 1) * (n as u128);
        if d >= bound {
            proof {
                let dt = dev_sq(s, m as int);
                assert(dt >= d);
                assert((n as int) * dt - (r as int) * (r as int) > (kk as int) * ((n as int) * (n as int)))
                    by (nonlinear_arith)
                    requires dt >= (kk + 1) * (n as int), 0 <= r < n, n > 0;
            }
            true
        } else {
            proof {
                assert(bound == (kk as int) * (n as int) + n) by (nonlinear_arith)
                    requires bound == (kk + 1) * (n as int);
            }
            let kn: u128 = kk * (n as u128);
            if d <= kn {
                proof {
                    let dt = dev_sq(s, m as int);
                    assert(dt == d);
                    assert((n as int) * dt - (r as int) * (r as int) <= (kk as int) * ((n as int) * (n as int)))
                        by (nonlinear_arith)
                        requires dt <= (kk as int) * (n as int), n > 0;
                }
                false
            } else {
                let e: u128 = d - kn;
                proof {
                    assert(e * (n as int) < (n as int) * (n as int)) by (nonlinear_arith)
                        requires e < n, n > 0;
                    assert((n as int) * (n as int) <= u128::MAX) by (nonlinear_arith)
                        requires n <= u64::MAX;
                    assert((r as int) * (r as int) <= (n as int) * (n as int)) by (nonlinear_arith)
                        requires 0 <= r < n;
                    let dt = dev_sq(s, m as int);
                    assert(dt == d);
                    assert(((n as int) * dt - (r as int) * (r as int) > (kk as int) * ((n as int) * (n as int)))
                        == (e * (n as int) > (r as int) * (r as int))) by (nonlinear_arith)
                        requires dt == kk * (n as int) + e;
                }
                e * (n as u128) > r * r
            }
        }
    }

    /// `n * n` times the population variance of the samples, when it fits in 128 bits.
    pub fn spread_exact(&self) -> (r: Option<u128>)
        requires
            self.wf(),
        ensures
            r.is_some() <==> spread(self.samples@) <= u128::MAX,
            r.is_some() ==> r.unwrap() == spread(self.samples@),
    {
        let ghost s = self.samples@;
        proof {
            lemma_spread_nonneg(s);
        }
        let n = self.count;
        if n == 0 {
            proof {
                lemma_sum_bounds(s);
            }
            return Some(0);
        }
        let m = self.mean_floor;
        proof {
            lemma_sum_bounds(s);
            assert((m as int) * (n as int) <= sum(s)) by (nonlinear_arith)
                requires m == sum(s) / (n as int), n > 0, sum(s) >= 0;
        }
        let r: u128 = self.total - (m as u128) * (n as u128);
        let d = self.deviation_square_sum;
        let nn = n as u128;
        proof {
            lemma_spread_shift(s, m as int);
            lemma_dev_sq_nonneg(s, m as int);
            let t = sum(s);
            assert(0 <= r < n) by (nonlinear_arith)
                requires m == t / (n as int), n > 0, t >= 0, r == t - (n as int) * (m as int);
            assert((n as int) * (n as int) <= u128::MAX) by (nonlinear_arith)
                requires n <= u64::MAX;
            assert((r as int) * (r as int) < (n as int) * (n as int)) by (nonlinear_arith)
                requires 0 <= r < n;
            assert(r * (n - r) <= (n as int) * (n as int)) by (nonlinear_arith)
                requires 0 <= r < n;
        }
        if d == u128::MAX {
            proof {
                let dt = dev_sq(s, m as int);
                if n == 1 {
                    lemma_single_dev_sq(s);
                    assert(sum(s) / 1 == sum(s));
                    assert(m == s[0]);
                }
                assert(n >= 2);
                assert((n as int) * dt - (r as int) * (r as int) > u128::MAX) by (nonlinear_arith)
                    requires dt >= u128::MAX, n >= 2, 0 <= r < n, n <= u64::MAX;
            }
            return None;
        }
        proof {
            assert(dev_sq(s, m as int) == d);
        }
        if d < r {
            proof {
                assert(nn * d < (n as int) * (n as int)) by (nonlinear_arith)
                    requires d < r, r < n, n > 0, nn == n;
            }
            Some(nn * d - r * r)
        } else {
            let b: u128 = r * (nn - r);
            proof {
                assert((n as int) * (d as int) - (r as int) * (r as int) == (n as int) * (d - r) + r * (n - r))
                    by (nonlinear_arith);
                assert((n as int) * (d - r) >= 0) by (nonlinear_arith)
                    requires d >= r, n > 0;
            }
            match nn.checked_mul(d - r) {
                Some(a) => b.checked_add(a),
                None => None,
            }
        }
    }

    /// Whether the mean of the samples exceeds `t` (never, for no samples).
    pub fn mean_exceeds(&self, t: u32) -> (r: bool)
        requires
            self.wf(),
        ensures
            r == mean_exceeds(self.samples@, t as int),
    {
        proof {
            assert((t as int) * (self.count as int) <= u128::MAX) by (nonlinear_arith)
                requires t <= u32::MAX, self.count <= u64::MAX;
        }
        self.total > (t as u128) * (self.count as u128)
    }
}

} // verus!

//! Running sums of the sampled magnetizations and the estimates drawn from them.
use vstd::prelude::*;

verus! {

/// The most sites a lattice can have: `MAX_SIZE²`.
pub const MAX_SITES: u64 = 268435456;

/// The most samples one accumulator takes.
pub const MAX_SAMPLES: u64 = 0xffff_ffff;

/// The sum of the values of `s`.
pub open spec fn seq_sum(s: Seq<int>) -> int
    decreases s.len(),
{
    if s.len() == 0 { 0 } else { seq_sum(s.drop_last()) + s.last() }
}

/// The sum of the squares of the values of `s`.
pub open spec fn seq_sum_sq(s: Seq<int>) -> int
    decreases s.len(),
{
    if s.len() == 0 { 0 } else { seq_sum_sq(s.drop_last()) + s.last() * s.last() }
}

/// The sum of the squared distances of the values of `s` from `x`.
pub open spec fn seq_dev(s: Seq<int>, x: int) -> int
    decreases s.len(),
{
    if s.len() == 0 { 0 } else { seq_dev(s.drop_last(), x) + (s.last() - x) * (s.last() - x) }
}

/// Running sums of magnetization samples on a lattice of `sites` sites. Each
/// sample is the absolute spin sum `|Σ spins|` of one lattice state, that is
/// the magnetization per site times `sites`.
pub struct Accumulator {
    pub sites: u64,
    pub count: u64,
    pub sum_abs: u64,
    pub sum_sq: u128,
    pub samples: Ghost<Seq<int>>,
}

impl Accumulator {
    pub open spec fn wf(&self) -> bool {
        &&& 0 < self.sites <= MAX_SITES
        &&& self.count <= MAX_SAMPLES
        &&& self.count == self.samples@.len()
        &&& self.sum_abs == seq_sum(self.samples@)
        &&& self.sum_sq == seq_sum_sq(self.samples@)
        &&& forall|i: int| 0 <= i < self.samples@.len() ==> 0 <= #[trigger] self.samples@[i] <= self.sites
        &&& self.sum_abs <= self.count * self.sites
        &&& self.sum_sq <= self.count * (self.sites * self.sites)
    }

    /// An accumulator with no samples yet.
    pub fn new(sites: u64) -> (r: Accumulator)
        requires
            0 < sites <= MAX_SITES,
        ensures
            r.wf(),
            r.sites == sites,
            r.samples@ == Seq::<int>::empty(),
    {
        Accumulator { sites, count: 0, sum_abs: 0, sum_sq: 0, samples: Ghost(Seq::empty()) }
    }

    /// Adds the sample `abs_sum` (an absolute spin sum) and its square.
    pub fn add_sample(&mut self, abs_sum: u64)
        requires
            old(self).wf(),
            old(self).count < MAX_SAMPLES,
            abs_sum <= old(self).sites,
        ensures
            final(self).wf(),
            final(self).sites == old(self).sites,
            final(self).samples@ == old(self).samples@.push(abs_sum as int),
    {
        let ghost s = self.samples@;
        let ghost n = self.sites as int;
        let ghost c = self.count as int;
        proof {
            let x = abs_sum as int;
            assert(x * x <= n * n) by (nonlinear_arith)
                requires 0 <= x <= n;
            assert(self.sum_abs + x <= (c + 1) * n) by (nonlinear_arith)
                requires self.sum_abs <= c * n, x <= n;
            assert(self.sum_sq + x * x <= (c + 1) * (n * n)) by (nonlinear_arith)
                requires self.sum_sq <= c * (n * n), x * x <= n * n;
            assert((c + 1) * n <= MAX_SAMPLES * MAX_SITES) by (nonlinear_arith)
                requires c + 1 <= MAX_SAMPLES, n <= MAX_SITES, 0 <= n;
            assert((c + 1) * (n * n) <= MAX_SAMPLES * (MAX_SITES * MAX_SITES)) by (nonlinear_arith)
                requires c + 1 <= MAX_SAMPLES, n <= MAX_SITES, 0 <= n;
            assert(s.push(x).drop_last() =~= s);
        }
        self.count = self.count + 1;
        self.sum_abs = self.sum_abs + abs_sum;
        self.sum_sq = self.sum_sq + (abs_sum as u128) * (abs_sum as u128);
        self.samples = Ghost(s.push(abs_sum as int));
        proof {
            let t = self.samples@;
            assert forall|i: int| 0 <= i < t.len() implies 0 <= #[trigger] t[i] <= n by {
                if i < s.len() {
                    assert(t[i] == s[i]);
                }
            }
        }
    }

    /// The mean magnetization per site, as the exact ratio `(num, den)`:
    /// the mean of the samples divided by the number of sites,
    /// `sum_abs / (count · sites)`.
    pub fn magnetization(&self) -> (r: (u128, u128))
        requires
            self.wf(),
            self.count > 0,
        ensures
            r.0 == self.sum_abs,
            r.1 == self.count * self.sites,
            r.1 > 0,
    {
        proof {
            assert(self.count * self.sites <= MAX_SAMPLES * MAX_SITES) by (nonlinear_arith)
                requires self.count <= MAX_SAMPLES, self.sites <= MAX_SITES;
            assert(self.count * self.sites > 0) by (nonlinear_arith)
                requires self.count > 0, self.sites > 0;
        }
        (self.sum_abs as u128, (self.count as u128) * (self.sites as u128))
    }

    /// The susceptibility at the temperature `temp_centi / 100`, as the exact
    /// ratio `(num, den)`. With `m = sum_abs / (count · N)` the mean
    /// magnetization, `q = sum_sq / (count · N²)` the mean squared magnetization
    /// and `N` the number of sites, it is `(N / T) · (q - m²)`, which is
    /// `100 · (count · sum_sq - sum_abs²) / (temp_centi · count² · N)`.
    pub fn susceptibility(&self, temp_centi: u32) -> (r: (u128, u128))
        requires
            self.wf(),
            self.count > 0,
            temp_centi > 0,
        ensures
            r.0 == 100 * (self.count * self.sum_sq - self.sum_abs * self.sum_abs),
            r.1 == temp_centi * (self.count * self.count) * self.sites,
            r.1 > 0,
    {
        let c = self.count as u128;
        let q = self.sum_sq;
        let a = self.sum_abs as u128;
        let n = self.sites as u128;
        let t = temp_centi as u128;
        proof {
            lemma_spread_nonneg(self.samples@);
            let cc = c as int;
            let qq = q as int;
            let nn = n as int;
            let tt = t as int;
            lemma_mul_le(nn, nn, MAX_SITES as int, MAX_SITES as int);
            lemma_mul_le(cc, nn * nn, MAX_SAMPLES as int, MAX_SITES * MAX_SITES);
            lemma_mul_le(cc, qq, MAX_SAMPLES as int, MAX_SAMPLES * (MAX_SITES * MAX_SITES));
            lemma_mul_le(cc, cc, MAX_SAMPLES as int, MAX_SAMPLES as int);
            lemma_mul_le(tt, cc * cc, 0xffff_ffff, MAX_SAMPLES * MAX_SAMPLES);
            lemma_mul_le(
                tt * (cc * cc),
                nn,
                0xffff_ffff * (MAX_SAMPLES * MAX_SAMPLES),
                MAX_SITES as int,
            );
            assert(tt * (cc * cc) * nn > 0) by (nonlinear_arith)
                requires tt > 0, cc > 0, nn > 0;
        }
        (100 * (c * q - a * a), t * (c * c) * n)
    }
}

proof fn lemma_mul_le(a: int, b: int, x: int, y: int)
    requires
        0 <= a <= x,
        0 <= b <= y,
    ensures
        0 <= a * b <= x * y,
{
    assert(0 <= a * b <= x * y) by (nonlinear_arith)
        requires 0 <= a <= x, 0 <= b <= y;
}

/// The squared distances from `x` add up to `Σs² - 2·x·Σs + len·x²`, and so
/// are never negative.
proof fn lemma_dev(s: Seq<int>, x: int)
    ensures
        seq_dev(s, x) == seq_sum_sq(s) - 2 * x * seq_sum(s) + s.len() * x * x,
        seq_dev(s, x) >= 0,
    decreases s.len(),
{
    if s.len() > 0 {
        let p = s.drop_last();
        let l = s.last();
        lemma_dev(p, x);
        assert((l - x) * (l - x) >= 0) by (nonlinear_arith);
        assert(seq_sum_sq(p) - 2 * x * seq_sum(p) + p.len() * x * x + (l - x) * (l - x)
            == (seq_sum_sq(p) + l * l) - 2 * x * (seq_sum(p) + l) + (p.len() + 1) * x * x)
            by (nonlinear_arith);
    }
}

/// Susceptibility sign: for any samples, `count · Σs² ≥ (Σs)²` (the
/// Cauchy–Schwarz inequality), so the mean squared magnetization is never
/// below the squared mean magnetization and the susceptibility estimate is
/// never negative.
pub proof fn lemma_spread_nonneg(s: Seq<int>)
    ensures
        s.len() * seq_sum_sq(s) >= seq_sum(s) * seq_sum(s),
    decreases s.len(),
{
    if s.len() > 0 {
        let p = s.drop_last();
        let l = s.last();
        let c = p.len() as int;
        let a = seq_sum(p);
        let q = seq_sum_sq(p);
        lemma_spread_nonneg(p);
        lemma_dev(p, l);
        assert((c + 1) * (q + l * l) - (a + l) * (a + l) == (c * q - a * a) + (q - 2 * l * a + c * l
            * l)) by (nonlinear_arith);
    }
}

} // verus!

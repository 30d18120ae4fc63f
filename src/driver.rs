//! The sweep over every combination of lattice size and temperature.
use crate::lattice::MAX_SIZE;
use crate::metropolis::TransitionTable;
use crate::observables::Accumulator;
use crate::random::seeded_rng;
use crate::simulation::{is_sample_count, iteration, run_outcome, Config};
use vstd::arithmetic::div_mod::lemma_fundamental_div_mod;
use vstd::prelude::*;

verus! {

/// The temperatures, in hundredths, from `start` up to and not including
/// `end`, in steps of `step`.
pub fn temperature_grid(start: u32, end: u32, step: u32) -> (r: Vec<u32>)
    requires
        step > 0,
    ensures
        forall|k: int| 0 <= k < r@.len() ==> #[trigger] r@[k] == start + k * step && r@[k] < end,
        start + r@.len() * step >= end,
{
    let mut r: Vec<u32> = Vec::new();
    let mut t: u64 = start as u64;
    assert(r@.len() * step == 0);
    while t < end as u64
        invariant
            step > 0,
            t == start + r@.len() * step,
            r@.len() > 0 ==> t < end + step,
            forall|k: int| 0 <= k < r@.len() ==> #[trigger] r@[k] == start + k * step && r@[k] < end,
        decreases end as int + step as int - t as int,
    {
        let ghost n = r@.len() as int;
        r.push(t as u32);
        assert(start + (n + 1) * step == start + n * step + step) by (nonlinear_arith);
        t = t + step as u64;
    }
    r
}

/// One combination of lattice size and temperature (in hundredths).
#[derive(Clone, Copy, Debug, PartialEq, Eq)]
pub struct ParameterPoint {
    pub size: usize,
    pub temp_centi: u32,
}

/// The points of the row for one size: that size with each temperature in turn.
pub open spec fn grid_row(size: usize, temps: Seq<u32>) -> Seq<ParameterPoint> {
    temps.map_values(|t: u32| ParameterPoint { size, temp_centi: t })
}

/// All combinations, size by size, each size with every temperature in order.
pub open spec fn grid(sizes: Seq<usize>, temps: Seq<u32>) -> Seq<ParameterPoint>
    decreases sizes.len(),
{
    if sizes.len() == 0 {
        Seq::empty()
    } else {
        grid(sizes.drop_last(), temps) + grid_row(sizes.last(), temps)
    }
}

/// Where each combination stands in the grid.
proof fn lemma_grid_index(sizes: Seq<usize>, temps: Seq<u32>)
    ensures
        grid(sizes, temps).len() == sizes.len() * temps.len(),
        forall|i: int, j: int|
            0 <= i < sizes.len() && 0 <= j < temps.len() ==> #[trigger] grid(sizes, temps)[i
                * temps.len() + j] == (ParameterPoint { size: sizes[i], temp_centi: temps[j] }),
    decreases sizes.len(),
{
    if sizes.len() > 0 {
        let p = sizes.drop_last();
        let m = p.len() as int;
        let tl = temps.len() as int;
        lemma_grid_index(p, temps);
        assert((m + 1) * tl == m * tl + tl) by (nonlinear_arith);
        assert forall|i: int, j: int| 0 <= i < sizes.len() && 0 <= j < temps.len() implies #[trigger] grid(
            sizes,
            temps,
        )[i * temps.len() + j] == (ParameterPoint { size: sizes[i], temp_centi: temps[j] }) by {
            if i < m {
                assert(i * tl + j < m * tl) by (nonlinear_arith)
                    requires 0 <= i < m, 0 <= j < tl;
                assert(0 <= i * tl) by (nonlinear_arith)
                    requires 0 <= i, 0 <= tl;
                assert(sizes[i] == p[i]);
            }
        }
    }
}

/// Grid coverage: the grid of `sizes` and `temps` has `|sizes| · |temps|`
/// points; the combination of the `i`-th size and the `j`-th temperature
/// stands at index `i · |temps| + j`, so each combination appears; and when
/// neither list repeats a value, no point appears twice, so each combination
/// appears exactly once.
pub proof fn lemma_grid(sizes: Seq<usize>, temps: Seq<u32>)
    ensures
        grid(sizes, temps).len() == sizes.len() * temps.len(),
        forall|i: int, j: int|
            0 <= i < sizes.len() && 0 <= j < temps.len() ==> #[trigger] grid(sizes, temps)[i
                * temps.len() + j] == (ParameterPoint { size: sizes[i], temp_centi: temps[j] }),
        sizes.no_duplicates() && temps.no_duplicates() ==> forall|k1: int, k2: int|
            0 <= k1 < grid(sizes, temps).len() && 0 <= k2 < grid(sizes, temps).len()
                && #[trigger] grid(sizes, temps)[k1] == #[trigger] grid(sizes, temps)[k2] ==> k1
                == k2,
{
    lemma_grid_index(sizes, temps);
    let g = grid(sizes, temps);
    let tl = temps.len() as int;
    if sizes.no_duplicates() && temps.no_duplicates() {
        assert forall|k1: int, k2: int|
            0 <= k1 < g.len() && 0 <= k2 < g.len() && #[trigger] g[k1] == #[trigger] g[k2] implies k1
            == k2 by {
            assert(tl > 0) by (nonlinear_arith)
                requires 0 <= k1 < sizes.len() * tl, tl >= 0;
            lemma_fundamental_div_mod(k1, tl);
            lemma_fundamental_div_mod(k2, tl);
            let i1 = k1 / tl;
            let j1 = k1 % tl;
            let i2 = k2 / tl;
            let j2 = k2 % tl;
            assert(0 <= i1 < sizes.len()) by (nonlinear_arith)
                requires k1 == tl * i1 + j1, 0 <= j1 < tl, 0 <= k1 < sizes.len() * tl;
            assert(0 <= i2 < sizes.len()) by (nonlinear_arith)
                requires k2 == tl * i2 + j2, 0 <= j2 < tl, 0 <= k2 < sizes.len() * tl;
            assert(tl * i1 == i1 * tl && tl * i2 == i2 * tl) by (nonlinear_arith);
            assert(g[i1 * tl + j1] == g[k1]);
            assert(g[i2 * tl + j2] == g[k2]);
        }
    }
}

/// Every combination of the given sizes and temperatures, size by size.
pub fn get_params(sizes: &Vec<usize>, temps: &Vec<u32>) -> (r: Vec<ParameterPoint>)
    ensures
        r@ == grid(sizes@, temps@),
{
    let mut r: Vec<ParameterPoint> = Vec::new();
    let mut i: usize = 0;
    while i < sizes.len()
        invariant
            i <= sizes@.len(),
            r@ == grid(sizes@.take(i as int), temps@),
        decreases sizes@.len() - i,
    {
        let ghost before = r@;
        let mut j: usize = 0;
        while j < temps.len()
            invariant
                i < sizes@.len(),
                j <= temps@.len(),
                r@ == before + grid_row(sizes@[i as int], temps@.take(j as int)),
            decreases temps@.len() - j,
        {
            r.push(ParameterPoint { size: sizes[i], temp_centi: temps[j] });
            j += 1;
            assert(r@ =~= before + grid_row(sizes@[i as int], temps@.take(j as int)));
        }
        assert(temps@.take(j as int) =~= temps@);
        assert(sizes@.take(i as int + 1).drop_last() =~= sizes@.take(i as int));
        i += 1;
    }
    assert(sizes@.take(i as int) =~= sizes@);
    r
}

/// The outcome of one simulation run: its lattice size, its temperature in
/// hundredths, and the samples it took.
pub struct ResultRecord {
    pub size: usize,
    pub temp_centi: u32,
    pub sums: Accumulator,
}

impl ResultRecord {
    pub open spec fn wf(&self) -> bool {
        &&& self.sums.wf()
        &&& self.sums.count > 0
        &&& self.temp_centi > 0
        &&& self.sums.sites == self.size * self.size
    }

    /// The parameter point this record answers.
    pub open spec fn point(&self) -> ParameterPoint {
        ParameterPoint { size: self.size, temp_centi: self.temp_centi }
    }

    /// The mean magnetization per site as the ratio `(num, den)`; see
    /// `Accumulator::magnetization`.
    pub fn magnetization(&self) -> (r: (u128, u128))
        requires
            self.wf(),
        ensures
            r.0 == self.sums.sum_abs,
            r.1 == self.sums.count * self.sums.sites,
            r.1 > 0,
    {
        self.sums.magnetization()
    }

    /// The susceptibility at this record's temperature as the ratio
    /// `(num, den)`; see `Accumulator::susceptibility`.
    pub fn susceptibility(&self) -> (r: (u128, u128))
        requires
            self.wf(),
        ensures
            r.0 == 100 * (self.sums.count * self.sums.sum_sq - self.sums.sum_abs * self.sums.sum_abs),
            r.1 == self.temp_centi * (self.sums.count * self.sums.count) * self.sums.sites,
            r.1 > 0,
    {
        self.sums.susceptibility(self.temp_centi)
    }
}

/// One simulation run for `point`, with the acceptance table of its
/// temperature and a random source seeded with `seed`. Its samples are those
/// of `run_outcome` for the bits and draws that the seeded source produced.
pub fn run_point(point: ParameterPoint, table: &TransitionTable, config: &Config, seed: u64) -> (r:
    ResultRecord)
    requires
        0 < point.size <= MAX_SIZE,
        point.temp_centi > 0,
        table.wf(),
        config.magn_calc_step > 0,
        config.later_steps > 0,
    ensures
        r.wf(),
        r.point() == point,
        is_sample_count(r.sums.count as int, config.later_steps as int, config.magn_calc_step as int),
        exists|bits: Seq<bool>, draws: Seq<Seq<u64>>|
            #[trigger] run_outcome(
                r.sums.samples@,
                bits,
                draws,
                point.size as int,
                *table,
                config.initial_steps as int,
                config.later_steps as int,
                config.magn_calc_step as int,
            ),
{
    let mut rng = seeded_rng(seed);
    let sums = iteration(
        point.size,
        table,
        config.initial_steps,
        config.later_steps,
        config.magn_calc_step,
        &mut rng,
    );
    proof {
        let c = sums.count as int;
        let p = config.magn_calc_step as int;
        assert(c > 0) by (nonlinear_arith)
            requires 0 < config.later_steps <= c * p, p > 0, c >= 0;
    }
    ResultRecord { size: point.size, temp_centi: point.temp_centi, sums }
}

/// The parameter points of a sequence of records.
pub open spec fn points_of(rs: Seq<ResultRecord>) -> Seq<ParameterPoint> {
    rs.map_values(|x: ResultRecord| x.point())
}

/// Runs the whole sweep: one simulation for each combination of the
/// configured sizes and the temperatures `temps`, size by size, with
/// `tables[j]` the acceptance table of `temps[j]`. The `k`-th run is seeded
/// with `seed + k` (wrapping), so that no two runs share a random stream.
pub fn run_sweep(config: &Config, temps: &Vec<u32>, tables: &Vec<TransitionTable>, seed: u64) -> (r:
    Vec<ResultRecord>)
    requires
        config.valid(),
        tables@.len() == temps@.len(),
        forall|j: int| 0 <= j < tables@.len() ==> (#[trigger] tables@[j]).wf(),
        forall|j: int| 0 <= j < temps@.len() ==> #[trigger] temps@[j] > 0,
    ensures
        points_of(r@) == grid(config.lattice_sizes@, temps@),
        forall|k: int|
            0 <= k < r@.len() ==> (#[trigger] r@[k]).wf() && is_sample_count(
                r@[k].sums.count as int,
                config.later_steps as int,
                config.magn_calc_step as int,
            ),
{
    let sizes = &config.lattice_sizes;
    let mut r: Vec<ResultRecord> = Vec::new();
    let mut i: usize = 0;
    while i < sizes.len()
        invariant
            config.valid(),
            sizes == &config.lattice_sizes,
            tables@.len() == temps@.len(),
            forall|j: int| 0 <= j < tables@.len() ==> (#[trigger] tables@[j]).wf(),
            forall|j: int| 0 <= j < temps@.len() ==> #[trigger] temps@[j] > 0,
            i <= sizes@.len(),
            points_of(r@) == grid(sizes@.take(i as int), temps@),
            forall|k: int|
                0 <= k < r@.len() ==> (#[trigger] r@[k]).wf() && is_sample_count(
                    r@[k].sums.count as int,
                    config.later_steps as int,
                    config.magn_calc_step as int,
                ),
        decreases sizes@.len() - i,
    {
        let ghost before = points_of(r@);
        let size = sizes[i];
        assert(size != 0 && size <= MAX_SIZE) by {
            if size == 0 {
                assert(sizes@[i as int] == 0);
            }
            if size > MAX_SIZE {
                assert(sizes@[i as int] > MAX_SIZE);
            }
        }
        let mut j: usize = 0;
        while j < temps.len()
            invariant
                config.valid(),
                sizes == &config.lattice_sizes,
                0 < size <= MAX_SIZE,
                size == sizes@[i as int],
                tables@.len() == temps@.len(),
                forall|j: int| 0 <= j < tables@.len() ==> (#[trigger] tables@[j]).wf(),
                forall|j: int| 0 <= j < temps@.len() ==> #[trigger] temps@[j] > 0,
                i < sizes@.len(),
                j <= temps@.len(),
                points_of(r@) == before + grid_row(size, temps@.take(j as int)),
                forall|k: int|
                    0 <= k < r@.len() ==> (#[trigger] r@[k]).wf() && is_sample_count(
                        r@[k].sums.count as int,
                        config.later_steps as int,
                        config.magn_calc_step as int,
                    ),
            decreases temps@.len() - j,
        {
            let point = ParameterPoint { size, temp_centi: temps[j] };
            let run_seed = seed.wrapping_add(r.len() as u64);
            let record = run_point(point, &tables[j], config, run_seed);
            let ghost old_r = r@;
            r.push(record);
            assert(points_of(r@) =~= points_of(old_r).push(point));
            j += 1;
            assert(points_of(r@) =~= before + grid_row(size, temps@.take(j as int)));
        }
        assert(temps@.take(j as int) =~= temps@);
        assert(sizes@.take(i as int + 1).drop_last() =~= sizes@.take(i as int));
        i += 1;
    }
    assert(sizes@.take(i as int) =~= sizes@);
    r
}

} // verus!

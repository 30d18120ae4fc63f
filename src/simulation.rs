//! One simulation run: equilibration sweeps, then sampling sweeps.
use crate::lattice::{abs, generate_lattice, spin_total, spins_of_bits, MAX_SIZE};
use crate::metropolis::{recalc_lattice, sweep_spins, sweeps, TransitionTable};
use crate::observables::Accumulator;
use rand::rngs::StdRng;
use vstd::prelude::*;

verus! {

/// Why a configuration is refused.
#[derive(Clone, Copy, Debug, PartialEq, Eq)]
pub enum ConfigError {
    /// A lattice size is zero.
    ZeroSize,
    /// A lattice size is above `MAX_SIZE`.
    SizeTooLarge,
    /// The lowest temperature is zero.
    ZeroTemperature,
    /// The temperature range is empty: its lowest value is not below its bound.
    EmptyTemperatureRange,
    /// The temperature step is zero.
    ZeroTemperatureStep,
    /// The sampling period is zero.
    ZeroSamplePeriod,
    /// There are no sampling sweeps, so no sample would be taken.
    NoSamplingSteps,
}

/// The parameters of a sweep over lattice sizes and temperatures. Temperatures
/// are counted in hundredths: the range runs from `temp_min / 100` up to, and
/// not including, `temp_max / 100` in steps of `temp_step / 100`.
#[derive(Debug)]
pub struct Config {
    /// Sweeps applied before sampling starts.
    pub initial_steps: u32,
    /// Sweeps applied while sampling.
    pub later_steps: u32,
    /// A sample is taken after every sampling sweep whose index is a multiple
    /// of this period.
    pub magn_calc_step: u32,
    pub lattice_sizes: Vec<usize>,
    pub temp_min: u32,
    pub temp_max: u32,
    pub temp_step: u32,
}

/// The first thing wrong with a configuration, if any.
pub open spec fn config_error(c: Config) -> Option<ConfigError> {
    if exists|i: int| 0 <= i < c.lattice_sizes@.len() && c.lattice_sizes@[i] == 0 {
        Some(ConfigError::ZeroSize)
    } else if exists|i: int| 0 <= i < c.lattice_sizes@.len() && c.lattice_sizes@[i] > MAX_SIZE {
        Some(ConfigError::SizeTooLarge)
    } else if c.temp_min == 0 {
        Some(ConfigError::ZeroTemperature)
    } else if c.temp_min >= c.temp_max {
        Some(ConfigError::EmptyTemperatureRange)
    } else if c.temp_step == 0 {
        Some(ConfigError::ZeroTemperatureStep)
    } else if c.magn_calc_step == 0 {
        Some(ConfigError::ZeroSamplePeriod)
    } else if c.later_steps == 0 {
        Some(ConfigError::NoSamplingSteps)
    } else {
        None
    }
}

impl Config {
    pub open spec fn valid(&self) -> bool {
        config_error(*self).is_none()
    }

    /// The standard sweep: 30 000 equilibration sweeps, 200 000 sampling sweeps
    /// with a sample every 100th, sizes 6, 15, 40 and 70, temperatures from
    /// 1.00 up to 5.00 (excluded) in steps of 0.05.
    pub fn standard() -> (r: Config)
        ensures
            r.initial_steps == 30_000,
            r.later_steps == 200_000,
            r.magn_calc_step == 100,
            r.lattice_sizes@ == seq![6usize, 15, 40, 70],
            r.temp_min == 100,
            r.temp_max == 500,
            r.temp_step == 5,
            r.valid(),
    {
        let r = Config {
            initial_steps: 30_000,
            later_steps: 200_000,
            magn_calc_step: 100,
            lattice_sizes: vec![6, 15, 40, 70],
            temp_min: 100,
            temp_max: 500,
            temp_step: 5,
        };
        assert(r.lattice_sizes@ == seq![6usize, 15, 40, 70]);
        r
    }

    /// `Ok` exactly when the configuration is valid; otherwise the first
    /// error in the order of `ConfigError`'s variants.
    pub fn validate(&self) -> (r: Result<(), ConfigError>)
        ensures
            r.is_ok() <==> self.valid(),
            r.is_err() ==> config_error(*self) == Some(r.unwrap_err()),
    {
        let mut i: usize = 0;
        while i < self.lattice_sizes.len()
            invariant
                i <= self.lattice_sizes@.len(),
                forall|j: int| 0 <= j < i ==> #[trigger] self.lattice_sizes@[j] != 0,
            decreases self.lattice_sizes@.len() - i,
        {
            if self.lattice_sizes[i] == 0 {
                return Err(ConfigError::ZeroSize);
            }
            i += 1;
        }
        let mut i: usize = 0;
        while i < self.lattice_sizes.len()
            invariant
                i <= self.lattice_sizes@.len(),
                forall|j: int| 0 <= j < self.lattice_sizes@.len() ==> #[trigger] self.lattice_sizes@[j] != 0,
                forall|j: int| 0 <= j < i ==> #[trigger] self.lattice_sizes@[j] <= MAX_SIZE,
            decreases self.lattice_sizes@.len() - i,
        {
            if self.lattice_sizes[i] > MAX_SIZE {
                return Err(ConfigError::SizeTooLarge);
            }
            i += 1;
        }
        if self.temp_min == 0 {
            Err(ConfigError::ZeroTemperature)
        } else if self.temp_min >= self.temp_max {
            Err(ConfigError::EmptyTemperatureRange)
        } else if self.temp_step == 0 {
            Err(ConfigError::ZeroTemperatureStep)
        } else if self.magn_calc_step == 0 {
            Err(ConfigError::ZeroSamplePeriod)
        } else if self.later_steps == 0 {
            Err(ConfigError::NoSamplingSteps)
        } else {
            Ok(())
        }
    }
}

/// The number of samples taken over `later` sampling sweeps with a sample at
/// every index that is a multiple of `period`: `⌈later / period⌉`, the `c`
/// with `(c - 1) · period < later <= c · period`.
pub open spec fn is_sample_count(c: int, later: int, period: int) -> bool {
    (c - 1) * period < later <= c * period
}

/// What a run yields from given randomness: the starting lattice holds the
/// spins of `bits`; `initial` equilibration sweeps and then `later` sampling
/// sweeps are applied in order, sweep `k` with the draws `draws[k]`; and
/// sample `j` is the absolute spin sum of the lattice right after sampling
/// sweep `j · period` (counted from zero), that is after
/// `initial + j · period + 1` sweeps in all. Every multiple of `period` below
/// `later` gives one sample.
pub open spec fn run_outcome(
    samples: Seq<int>,
    bits: Seq<bool>,
    draws: Seq<Seq<u64>>,
    n: int,
    t: TransitionTable,
    initial: int,
    later: int,
    period: int,
) -> bool {
    &&& bits.len() == n * n
    &&& draws.len() == initial + later
    &&& forall|k: int| 0 <= k < draws.len() ==> (#[trigger] draws[k]).len() == n * n
    &&& is_sample_count(samples.len() as int, later, period)
    &&& forall|j: int|
        0 <= j < samples.len() ==> #[trigger] samples[j] == abs(
            spin_total(sweeps(spins_of_bits(bits), n, t, draws.take(initial + j * period + 1))),
        )
}

/// Run determinism: the samples of a run are fixed by its starting bits, its
/// draws, its size, its table and its step counts; two runs that agree on
/// these (such as two runs from one seed) take the same samples.
pub proof fn lemma_run_determined(
    s1: Seq<int>,
    s2: Seq<int>,
    bits: Seq<bool>,
    draws: Seq<Seq<u64>>,
    n: int,
    t: TransitionTable,
    initial: int,
    later: int,
    period: int,
)
    requires
        period > 0,
        run_outcome(s1, bits, draws, n, t, initial, later, period),
        run_outcome(s2, bits, draws, n, t, initial, later, period),
    ensures
        s1 == s2,
{
    let c1 = s1.len() as int;
    let c2 = s2.len() as int;
    assert(c1 == c2) by (nonlinear_arith)
        requires
            (c1 - 1) * period < later <= c1 * period,
            (c2 - 1) * period < later <= c2 * period,
            period > 0,
    ;
    assert(s1 =~= s2);
}

/// One simulation run on a fresh lattice of side `size` drawn from `rng`:
/// `initial_steps` sweeps, then `later_steps` sweeps, sampling the absolute
/// spin sum after each sampling sweep whose index is a multiple of
/// `magn_calc_step`. Returns the accumulated samples, which are those of
/// `run_outcome` for the bits and draws that came from `rng`.
pub fn iteration(
    size: usize,
    table: &TransitionTable,
    initial_steps: u32,
    later_steps: u32,
    magn_calc_step: u32,
    rng: &mut StdRng,
) -> (r: Accumulator)
    requires
        0 < size <= MAX_SIZE,
        table.wf(),
        magn_calc_step > 0,
    ensures
        r.wf(),
        r.sites == size * size,
        is_sample_count(r.count as int, later_steps as int, magn_calc_step as int),
        exists|bits: Seq<bool>, draws: Seq<Seq<u64>>|
            #[trigger] run_outcome(
                r.samples@,
                bits,
                draws,
                size as int,
                *table,
                initial_steps as int,
                later_steps as int,
                magn_calc_step as int,
            ),
{
    let n = Ghost(size as int);
    let mut lattice = generate_lattice(size, rng);
    let ghost bits = choose|bits: Seq<bool>|
        bits.len() == size * size && lattice.spins@ == #[trigger] spins_of_bits(bits);
    let ghost s0 = lattice.spins@;
    let ghost mut ds: Seq<Seq<u64>> = Seq::empty();
    let mut step: u32 = 0;
    while step < initial_steps
        invariant
            lattice.wf(),
            lattice.size == size,
            n@ == size,
            table.wf(),
            step <= initial_steps,
            ds.len() == step,
            forall|k: int| 0 <= k < ds.len() ==> (#[trigger] ds[k]).len() == size * size,
            lattice.spins@ == sweeps(s0, n@, *table, ds),
        decreases initial_steps - step,
    {
        let ghost prev = lattice.spins@;
        recalc_lattice(&mut lattice, table, rng);
        proof {
            let d = choose|d: Seq<u64>|
                d.len() == size * size && lattice.spins@ == #[trigger] sweep_spins(
                    prev,
                    size as int,
                    *table,
                    d,
                );
            let old_ds = ds;
            ds = ds.push(d);
            assert(ds.drop_last() =~= old_ds);
        }
        step += 1;
    }
    assert(0 < size * size <= MAX_SIZE * MAX_SIZE) by (nonlinear_arith)
        requires 0 < size <= MAX_SIZE;
    let mut acc = Accumulator::new((size * size) as u64);
    let ghost p = magn_calc_step as int;
    let ghost init = initial_steps as int;
    let mut i: u32 = 0;
    while i < later_steps
        invariant
            lattice.wf(),
            lattice.size == size,
            n@ == size,
            table.wf(),
            acc.wf(),
            acc.sites == size * size,
            p == magn_calc_step,
            p > 0,
            init == initial_steps,
            i <= later_steps,
            acc.count <= i,
            i <= acc.count * p < i + p,
            ds.len() == init + i,
            forall|k: int| 0 <= k < ds.len() ==> (#[trigger] ds[k]).len() == size * size,
            lattice.spins@ == sweeps(s0, n@, *table, ds),
            forall|j: int|
                0 <= j < acc.samples@.len() ==> #[trigger] acc.samples@[j]
                    == abs(spin_total(sweeps(s0, n@, *table, ds.take(init + j * p + 1)))),
        decreases later_steps - i,
    {
        let ghost prev = lattice.spins@;
        recalc_lattice(&mut lattice, table, rng);
        proof {
            let d = choose|d: Seq<u64>|
                d.len() == size * size && lattice.spins@ == #[trigger] sweep_spins(
                    prev,
                    size as int,
                    *table,
                    d,
                );
            let old_ds = ds;
            ds = ds.push(d);
            assert(ds.drop_last() =~= old_ds);
            assert forall|j: int| 0 <= j < acc.samples@.len() implies #[trigger] acc.samples@[j] == abs(
                spin_total(sweeps(s0, n@, *table, ds.take(init + j * p + 1))),
            ) by {
                assert(acc.samples@[j] == acc.samples@[j]);
                let cc = acc.count as int;
                assert(j * p < i) by (nonlinear_arith)
                    requires 0 <= j < cc, cc * p < i + p, p > 0;
                assert(ds.take(init + j * p + 1) =~= old_ds.take(init + j * p + 1));
            }
        }
        let ghost c = acc.count as int;
        let ghost before = acc.samples@;
        proof {
            vstd::arithmetic::div_mod::lemma_fundamental_div_mod(i as int, p);
        }
        if i % magn_calc_step == 0 {
            proof {
                let k = i as int / p;
                assert(c == k) by (nonlinear_arith)
                    requires p * k <= c * p < p * k + p, p > 0;
                assert(c * p == i) by (nonlinear_arith)
                    requires c == k, i == p * k;
            }
            let abs_sum = lattice.abs_spin_sum();
            acc.add_sample(abs_sum);
            proof {
                assert((c + 1) * p == c * p + p) by (nonlinear_arith);
                assert(acc.count * p == c * p + p);
                assert(ds.take(init + c * p + 1) =~= ds);
                assert forall|j: int| 0 <= j < acc.samples@.len() implies #[trigger] acc.samples@[j] == abs(
                    spin_total(sweeps(s0, n@, *table, ds.take(init + j * p + 1))),
                ) by {
                    if j < c {
                        assert(acc.samples@[j] == before[j]);
                    }
                }
            }
        } else {
            proof {
                vstd::arithmetic::div_mod::lemma_mod_multiples_basic(c, p);
                assert(c * p != i);
                assert(acc.count * p == c * p);
            }
        }
        i += 1;
    }
    proof {
        let c = acc.count as int;
        assert((c - 1) * p == c * p - p) by (nonlinear_arith);
        assert(run_outcome(
            acc.samples@,
            bits,
            ds,
            size as int,
            *table,
            init,
            later_steps as int,
            p,
        ));
    }
    acc
}

} // verus!

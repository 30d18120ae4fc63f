use ising::driver::{get_params, run_point, run_sweep, temperature_grid, ParameterPoint};
use ising::lattice::{generate_lattice, get_adjacent_indices, lattice_from_bits, Lattice};
use ising::metropolis::{apply_sweep, recalc_lattice, TransitionTable, SCALE};
use ising::observables::Accumulator;
use ising::simulation::{iteration, Config, ConfigError};
use rand::rngs::StdRng;
use rand::SeedableRng;

/// The acceptance weight `2^64 · min(1, exp(-delta / T))` at `T = temp_centi / 100`.
fn weight(delta: f64, temp_centi: u32) -> u128 {
    let p = (-delta / (temp_centi as f64 / 100.0)).exp().min(1.0);
    if p >= 1.0 {
        SCALE
    } else {
        (p * 18446744073709551616.0) as u128
    }
}

fn table_for(temp_centi: u32) -> TransitionTable {
    TransitionTable::from_weights(weight(4.0, temp_centi), weight(8.0, temp_centi)).unwrap()
}

fn small_config(sizes: Vec<usize>, initial: u32, later: u32, period: u32) -> Config {
    Config {
        initial_steps: initial,
        later_steps: later,
        magn_calc_step: period,
        lattice_sizes: sizes,
        temp_min: 100,
        temp_max: 105,
        temp_step: 5,
    }
}

fn ratio(r: (u128, u128)) -> f64 {
    r.0 as f64 / r.1 as f64
}

#[test]
fn neighbors_of_corners() {
    assert_eq!(get_adjacent_indices(0, 6), [5, 30, 1, 6]);
    assert_eq!(get_adjacent_indices(5, 6), [4, 35, 0, 11]);
    assert_eq!(get_adjacent_indices(30, 6), [35, 24, 31, 0]);
    assert_eq!(get_adjacent_indices(35, 6), [34, 29, 30, 5]);
    assert_eq!(get_adjacent_indices(14, 6), [13, 8, 15, 20]);
}

#[test]
fn neighbors_in_range_distinct_and_inverse() {
    for n in 3..9usize {
        for i in 0..n * n {
            let a = get_adjacent_indices(i, n);
            for k in 0..4 {
                assert!(a[k] < n * n);
                for l in 0..k {
                    assert_ne!(a[k], a[l]);
                }
            }
            assert_eq!(get_adjacent_indices(a[2], n)[0], i);
            assert_eq!(get_adjacent_indices(a[0], n)[2], i);
            assert_eq!(get_adjacent_indices(a[3], n)[1], i);
            assert_eq!(get_adjacent_indices(a[1], n)[3], i);
        }
    }
}

#[test]
fn neighbors_of_tiny_lattices() {
    assert_eq!(get_adjacent_indices(0, 1), [0, 0, 0, 0]);
    assert_eq!(get_adjacent_indices(0, 2), [1, 2, 1, 2]);
}

#[test]
fn aligned_lattice_is_fully_magnetized() {
    let up = Lattice::from_spins(6, vec![1; 36]).unwrap();
    assert_eq!(up.abs_spin_sum(), 36);
    let down = Lattice::from_spins(6, vec![-1; 36]).unwrap();
    assert_eq!(down.abs_spin_sum(), 36);
}

#[test]
fn balanced_lattice_has_no_magnetization() {
    let spins: Vec<i8> = (0..36).map(|i| if i % 2 == 0 { 1 } else { -1 }).collect();
    let l = Lattice::from_spins(6, spins).unwrap();
    assert_eq!(l.abs_spin_sum(), 0);
    let mut half = vec![1i8; 18];
    half.extend(vec![-1i8; 18]);
    assert_eq!(Lattice::from_spins(6, half).unwrap().abs_spin_sum(), 0);
}

#[test]
fn partial_magnetization() {
    let mut spins = vec![-1i8; 9];
    spins[0] = 1;
    spins[4] = 1;
    let l = Lattice::from_spins(3, spins).unwrap();
    assert_eq!(l.abs_spin_sum(), 5);
}

#[test]
fn from_spins_rejects_bad_input() {
    assert!(Lattice::from_spins(0, vec![]).is_none());
    assert!(Lattice::from_spins(2, vec![1, 1, 1]).is_none());
    assert!(Lattice::from_spins(2, vec![1, 0, 1, -1]).is_none());
    assert!(Lattice::from_spins(16385, vec![]).is_none());
    assert!(Lattice::from_spins(2, vec![1, -1, 1, -1]).is_some());
}

#[test]
fn lattice_from_bits_maps_each_bit() {
    let l = lattice_from_bits(2, &vec![true, false, false, true]);
    assert_eq!(l.size, 2);
    assert_eq!(l.spins, vec![1, -1, -1, 1]);
}

#[test]
fn generated_lattice_holds_spins() {
    let mut rng = StdRng::seed_from_u64(7);
    let l = generate_lattice(15, &mut rng);
    assert_eq!(l.size, 15);
    assert_eq!(l.spins.len(), 225);
    assert!(l.spins.iter().all(|s| *s == 1 || *s == -1));
    let ups = l.spins.iter().filter(|s| **s == 1).count();
    assert!(ups > 0 && ups < 225);
}

#[test]
fn table_weights() {
    let t = TransitionTable::from_weights(100, 10).unwrap();
    assert_eq!(t.weight(-8), SCALE);
    assert_eq!(t.weight(-4), SCALE);
    assert_eq!(t.weight(0), SCALE);
    assert_eq!(t.weight(4), 100);
    assert_eq!(t.weight(8), 10);
    assert!(t.accepts(0, u64::MAX));
    assert!(t.accepts(-8, u64::MAX));
    assert!(t.accepts(4, 99));
    assert!(!t.accepts(4, 100));
    assert!(!t.accepts(8, 10));
}

#[test]
fn table_rejects_bad_weights() {
    assert!(TransitionTable::from_weights(10, 100).is_none());
    assert!(TransitionTable::from_weights(SCALE + 1, 0).is_none());
    assert!(TransitionTable::from_weights(SCALE, SCALE).is_some());
}

#[test]
fn table_from_temperatures() {
    let cold = table_for(1);
    assert_eq!(cold.weight4, 0);
    assert_eq!(cold.weight8, 0);
    let t1 = table_for(100);
    assert!(t1.weight8 <= t1.weight4 && t1.weight4 <= SCALE);
    let hot = table_for(10000);
    assert!(hot.weight4 as f64 / SCALE as f64 > 0.95);
    assert!(hot.weight8 as f64 / SCALE as f64 > 0.9);
}

#[test]
fn cold_sweep_heals_single_defect() {
    let mut spins = vec![1i8; 9];
    spins[4] = -1;
    let mut l = Lattice::from_spins(3, spins).unwrap();
    let t = TransitionTable::from_weights(0, 0).unwrap();
    apply_sweep(&mut l, &t, &vec![0u64; 9]);
    assert_eq!(l.spins, vec![1i8; 9]);
}

#[test]
fn sweep_sees_earlier_flips() {
    // Every flip accepted: cell 0 flips first, and later cells see it.
    let mut l = Lattice::from_spins(3, vec![1i8; 9]).unwrap();
    let t = TransitionTable::from_weights(SCALE, SCALE).unwrap();
    apply_sweep(&mut l, &t, &vec![0u64; 9]);
    assert_eq!(l.spins, vec![-1i8; 9]);
    // Only flips that do not raise the energy: an all-up lattice stays.
    let mut m = Lattice::from_spins(3, vec![1i8; 9]).unwrap();
    let u = TransitionTable::from_weights(0, 0).unwrap();
    apply_sweep(&mut m, &u, &vec![0u64; 9]);
    assert_eq!(m.spins, vec![1i8; 9]);
}

#[test]
fn sweep_with_draws_between_weights() {
    let mut spins = vec![1i8; 9];
    spins[0] = -1;
    let mut l = Lattice::from_spins(3, spins).unwrap();
    // Cell 0 (ΔE = -8) flips back up; every later cell has ΔE = 8 and a draw
    // of 5 against weight8 = 5, so none flips.
    let t = TransitionTable::from_weights(SCALE, 5).unwrap();
    apply_sweep(&mut l, &t, &vec![5u64; 9]);
    assert_eq!(l.spins, vec![1i8; 9]);
}

#[test]
fn recalc_keeps_spins() {
    let mut rng = StdRng::seed_from_u64(3);
    let mut l = generate_lattice(6, &mut rng);
    let t = table_for(227);
    for _ in 0..10 {
        recalc_lattice(&mut l, &t, &mut rng);
    }
    assert_eq!(l.spins.len(), 36);
    assert!(l.spins.iter().all(|s| *s == 1 || *s == -1));
}

#[test]
fn accumulator_estimates() {
    let mut a = Accumulator::new(4);
    a.add_sample(2);
    a.add_sample(4);
    assert_eq!(a.count, 2);
    assert_eq!(a.sum_abs, 6);
    assert_eq!(a.sum_sq, 20);
    assert_eq!(a.magnetization(), (6, 8));
    assert_eq!(a.susceptibility(100), (400, 1600));
    assert!((ratio(a.susceptibility(100)) - 0.25).abs() < 1e-12);
    assert!((ratio(a.susceptibility(200)) - 0.125).abs() < 1e-12);
}

#[test]
fn constant_samples_have_zero_susceptibility() {
    let mut a = Accumulator::new(36);
    for _ in 0..5 {
        a.add_sample(36);
    }
    assert_eq!(a.magnetization(), (180, 180));
    assert_eq!(a.susceptibility(150).0, 0);
}

#[test]
fn standard_config() {
    let c = Config::standard();
    assert_eq!(c.initial_steps, 30_000);
    assert_eq!(c.later_steps, 200_000);
    assert_eq!(c.magn_calc_step, 100);
    assert_eq!(c.lattice_sizes, vec![6, 15, 40, 70]);
    assert_eq!((c.temp_min, c.temp_max, c.temp_step), (100, 500, 5));
    assert_eq!(c.validate(), Ok(()));
}

#[test]
fn config_errors() {
    let ok = || small_config(vec![6], 1, 2, 1);
    assert_eq!(ok().validate(), Ok(()));
    let mut c = ok();
    c.lattice_sizes = vec![6, 0];
    assert_eq!(c.validate(), Err(ConfigError::ZeroSize));
    let mut c = ok();
    c.lattice_sizes = vec![16385];
    assert_eq!(c.validate(), Err(ConfigError::SizeTooLarge));
    let mut c = ok();
    c.temp_min = 0;
    assert_eq!(c.validate(), Err(ConfigError::ZeroTemperature));
    let mut c = ok();
    c.temp_max = 100;
    assert_eq!(c.validate(), Err(ConfigError::EmptyTemperatureRange));
    let mut c = ok();
    c.temp_step = 0;
    assert_eq!(c.validate(), Err(ConfigError::ZeroTemperatureStep));
    let mut c = ok();
    c.magn_calc_step = 0;
    assert_eq!(c.validate(), Err(ConfigError::ZeroSamplePeriod));
    let mut c = ok();
    c.later_steps = 0;
    assert_eq!(c.validate(), Err(ConfigError::NoSamplingSteps));
}

#[test]
fn standard_temperature_grid() {
    let g = temperature_grid(100, 500, 5);
    assert_eq!(g.len(), 80);
    assert_eq!(g[0], 100);
    assert_eq!(g[1], 105);
    assert_eq!(g[79], 495);
    assert_eq!(temperature_grid(100, 105, 5), vec![100]);
    assert_eq!(temperature_grid(100, 111, 5), vec![100, 105, 110]);
    assert!(temperature_grid(500, 100, 5).is_empty());
}

#[test]
fn params_cover_grid() {
    let p = get_params(&vec![6, 15], &vec![100, 105, 110]);
    assert_eq!(p.len(), 6);
    assert_eq!(p[0], ParameterPoint { size: 6, temp_centi: 100 });
    assert_eq!(p[2], ParameterPoint { size: 6, temp_centi: 110 });
    assert_eq!(p[3], ParameterPoint { size: 15, temp_centi: 100 });
    assert_eq!(p[5], ParameterPoint { size: 15, temp_centi: 110 });
    let std = Config::standard();
    let all = get_params(&std.lattice_sizes, &temperature_grid(100, 500, 5));
    assert_eq!(all.len(), 4 * 80);
}

#[test]
fn sample_count_is_ceiling() {
    let mut rng = StdRng::seed_from_u64(11);
    let a = iteration(4, &table_for(200), 5, 25, 10, &mut rng);
    assert_eq!(a.count, 3);
    assert_eq!(a.sites, 16);
    let b = iteration(4, &table_for(200), 0, 20, 10, &mut rng);
    assert_eq!(b.count, 2);
}

#[test]
fn cold_run_orders() {
    let c = Config::standard();
    let r = run_point(ParameterPoint { size: 6, temp_centi: 1 }, &table_for(1), &c, 1);
    let m = ratio(r.magnetization());
    assert!(m > 0.9, "magnetization {}", m);
}

#[test]
fn hot_run_is_disordered() {
    let c = small_config(vec![6], 1000, 20_000, 10);
    let r = run_point(ParameterPoint { size: 6, temp_centi: 10000 }, &table_for(10000), &c, 5);
    let m = ratio(r.magnetization());
    assert!(m < 0.2, "magnetization {}", m);
}

#[test]
fn same_seed_same_run() {
    let c = small_config(vec![6], 50, 300, 10);
    let p = ParameterPoint { size: 6, temp_centi: 230 };
    let t = table_for(230);
    let a = run_point(p, &t, &c, 42);
    let b = run_point(p, &t, &c, 42);
    assert_eq!(a.sums.count, b.sums.count);
    assert_eq!(a.sums.sum_abs, b.sums.sum_abs);
    assert_eq!(a.sums.sum_sq, b.sums.sum_sq);
    assert_eq!(a.magnetization(), b.magnetization());
    assert_eq!(a.susceptibility(), b.susceptibility());
}

#[test]
fn sweep_gives_one_record_per_combination() {
    let mut c = small_config(vec![3, 4], 5, 20, 5);
    c.temp_min = 100;
    c.temp_max = 250;
    c.temp_step = 50;
    let temps = temperature_grid(c.temp_min, c.temp_max, c.temp_step);
    assert_eq!(temps, vec![100, 150, 200]);
    let tables: Vec<TransitionTable> = temps.iter().map(|t| table_for(*t)).collect();
    let r = run_sweep(&c, &temps, &tables, 9);
    assert_eq!(r.len(), 6);
    for s in [3usize, 4] {
        for t in [100u32, 150, 200] {
            assert_eq!(r.iter().filter(|x| x.size == s && x.temp_centi == t).count(), 1);
        }
    }
    assert!(r.iter().all(|x| x.sums.count == 4));
}

#[test]
fn end_to_end_small_scenario() {
    let c = small_config(vec![6], 100, 200, 10);
    assert_eq!(c.validate(), Ok(()));
    let temps = temperature_grid(c.temp_min, c.temp_max, c.temp_step);
    let tables: Vec<TransitionTable> = temps.iter().map(|t| table_for(*t)).collect();
    let r = run_sweep(&c, &temps, &tables, 2024);
    assert_eq!(r.len(), 1);
    assert_eq!(r[0].size, 6);
    assert_eq!(format!("{:.2}", r[0].temp_centi as f64 / 100.0), "1.00");
    let m = ratio(r[0].magnetization());
    let s = ratio(r[0].susceptibility());
    assert!(m.is_finite() && m >= 0.0 && m <= 1.0);
    assert!(s.is_finite() && s >= 0.0);
    assert_eq!(r[0].sums.count, 20);
}

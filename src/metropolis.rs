//! The Metropolis acceptance table and the sequential full-lattice sweep.
use crate::lattice::{
    all_spins, bottom_of, get_adjacent_indices, is_spin, left_of, right_of, top_of, Lattice,
    MAX_SIZE,
};
use crate::random::draw_u64;
use rand::rngs::StdRng;
use vstd::prelude::*;

verus! {

/// Probability one, as a fraction of `2^64`: a draw of 64 bits is always below it.
pub const SCALE: u128 = 0x1_0000_0000_0000_0000;

/// Acceptance probabilities of spin flips, as fractions of `2^64`, keyed by
/// the energy change `ΔE ∈ {-8, -4, 0, 4, 8}` of the flip. A flip that does not
/// raise the energy is always accepted; `weight4` and `weight8` are the
/// weights `2^64 · exp(-ΔE / T)` of the two raising changes at temperature `T`.
#[derive(Clone, Copy, Debug, PartialEq, Eq)]
pub struct TransitionTable {
    pub weight4: u128,
    pub weight8: u128,
}

impl TransitionTable {
    /// Both weights are probabilities, and the larger rise is no likelier.
    pub open spec fn wf(&self) -> bool {
        self.weight8 <= self.weight4 <= SCALE
    }

    /// The acceptance weight of a flip that changes the energy by `delta`.
    pub open spec fn weight_of(&self, delta: int) -> int {
        if delta <= 0 {
            SCALE as int
        } else if delta <= 4 {
            self.weight4 as int
        } else {
            self.weight8 as int
        }
    }

    /// A flip that changes the energy by `delta` is accepted on the uniform
    /// draw `draw` when the draw falls below the flip's weight.
    pub open spec fn accepts_spec(&self, delta: int, draw: u64) -> bool {
        (draw as int) < self.weight_of(delta)
    }

    /// The table with the given weights for `ΔE = 4` and `ΔE = 8`; `None`
    /// unless `weight8 <= weight4 <= 2^64`.
    pub fn from_weights(weight4: u128, weight8: u128) -> (r: Option<TransitionTable>)
        ensures
            r.is_some() <==> weight8 <= weight4 <= SCALE,
            r.is_some() ==> r.unwrap().weight4 == weight4 && r.unwrap().weight8 == weight8,
    {
        if weight8 <= weight4 && weight4 <= SCALE {
            Some(TransitionTable { weight4, weight8 })
        } else {
            None
        }
    }

    /// The acceptance weight of a flip that changes the energy by `delta`.
    pub fn weight(&self, delta: i8) -> (r: u128)
        ensures
            r == self.weight_of(delta as int),
    {
        if delta <= 0 {
            SCALE
        } else if delta <= 4 {
            self.weight4
        } else {
            self.weight8
        }
    }

    /// Whether a flip that changes the energy by `delta` is accepted on `draw`.
    pub fn accepts(&self, delta: i8, draw: u64) -> (r: bool)
        ensures
            r == self.accepts_spec(delta as int, draw),
    {
        (draw as u128) < self.weight(delta)
    }
}

/// Acceptance table: every weight of a well-formed table is a probability in
/// `[0, 2^64]`; the weight of `ΔE = 0` is exactly `2^64` (probability one), so
/// no flip that keeps or lowers the energy is refused; and the weight does not
/// increase with `ΔE`.
pub proof fn lemma_table(t: TransitionTable)
    requires
        t.wf(),
    ensures
        forall|d: int| 0 <= #[trigger] t.weight_of(d) <= SCALE,
        t.weight_of(0) == SCALE,
        forall|d: int, draw: u64| d <= 0 ==> #[trigger] t.accepts_spec(d, draw),
        forall|d1: int, d2: int|
            d1 <= d2 ==> #[trigger] t.weight_of(d2) <= #[trigger] t.weight_of(d1),
{
}

/// The energy change of flipping cell `i`: twice its spin times the sum of its
/// four neighbours.
pub open spec fn delta_e(s: Seq<i8>, n: int, i: int) -> int {
    2 * s[i] * (s[left_of(i, n)] + s[top_of(i, n)] + s[right_of(i, n)] + s[bottom_of(i, n)])
}

/// Visiting cell `i` with the uniform draw `draw`: its spin flips when the
/// table accepts the energy change.
pub open spec fn visit(s: Seq<i8>, n: int, t: TransitionTable, i: int, draw: u64) -> Seq<i8> {
    if t.accepts_spec(delta_e(s, n, i), draw) {
        s.update(i, (-s[i]) as i8)
    } else {
        s
    }
}

/// The lattice after visiting cells `0 .. k` in order, cell `i` with `draws[i]`,
/// each visit seeing the flips made before it.
pub open spec fn sweep_prefix(
    s: Seq<i8>,
    n: int,
    t: TransitionTable,
    draws: Seq<u64>,
    k: nat,
) -> Seq<i8>
    decreases k,
{
    if k == 0 {
        s
    } else {
        let k1 = (k - 1) as nat;
        visit(sweep_prefix(s, n, t, draws, k1), n, t, k1 as int, draws[k1 as int])
    }
}

/// One full sweep: every cell visited once, in row-major order.
pub open spec fn sweep_spins(s: Seq<i8>, n: int, t: TransitionTable, draws: Seq<u64>) -> Seq<i8> {
    sweep_prefix(s, n, t, draws, (n * n) as nat)
}

/// The lattice after one full sweep for each entry of `ds`, in order, the
/// `k`-th sweep using the draws `ds[k]`.
pub open spec fn sweeps(s: Seq<i8>, n: int, t: TransitionTable, ds: Seq<Seq<u64>>) -> Seq<i8>
    decreases ds.len(),
{
    if ds.len() == 0 {
        s
    } else {
        sweep_spins(sweeps(s, n, t, ds.drop_last()), n, t, ds.last())
    }
}

/// Applies one sequential sweep to `lattice`, visiting cell `i` with the uniform
/// draw `draws[i]`. Cells are visited in fixed row-major order, updated in
/// place, rather than picked at random: a deliberate approximation of
/// single-spin-flip Metropolis whose correlation time the results depend on.
pub fn apply_sweep(lattice: &mut Lattice, table: &TransitionTable, draws: &Vec<u64>)
    requires
        old(lattice).wf(),
        table.wf(),
        draws@.len() == old(lattice).size * old(lattice).size,
    ensures
        final(lattice).wf(),
        final(lattice).size == old(lattice).size,
        final(lattice).spins@ == sweep_spins(
            old(lattice).spins@,
            old(lattice).size as int,
            *table,
            draws@,
        ),
{
    let ghost s0 = lattice.spins@;
    let size = lattice.size;
    assert(size * size <= MAX_SIZE * MAX_SIZE) by (nonlinear_arith)
        requires size <= MAX_SIZE;
    let cells = size * size;
    let mut index: usize = 0;
    while index < cells
        invariant
            lattice.wf(),
            lattice.size == size,
            cells == size * size,
            cells <= MAX_SIZE * MAX_SIZE,
            draws@.len() == cells,
            index <= cells,
            lattice.spins@ == sweep_prefix(s0, size as int, *table, draws@, index as nat),
        decreases cells - index,
    {
        let ghost before = lattice.spins@;
        let adj = get_adjacent_indices(index, size);
        proof {
            crate::lattice::lemma_neighbors(index as int, size as int);
            assert(is_spin(before[index as int]));
            assert(is_spin(before[adj[0] as int]));
            assert(is_spin(before[adj[1] as int]));
            assert(is_spin(before[adj[2] as int]));
            assert(is_spin(before[adj[3] as int]));
        }
        let spin = lattice.spins[index];
        let around = lattice.spins[adj[0]] + lattice.spins[adj[1]] + lattice.spins[adj[2]]
            + lattice.spins[adj[3]];
        assert(-4 <= around <= 4);
        let energy_change: i8 = if spin == 1 { 2 * around } else { 0 - 2 * around };
        assert(energy_change as int == delta_e(before, size as int, index as int));
        if table.accepts(energy_change, draws[index]) {
            lattice.spins.set(index, -spin);
        }
        proof {
            let after = lattice.spins@;
            assert(all_spins(after)) by {
                assert forall|j: int| 0 <= j < after.len() implies is_spin(#[trigger] after[j]) by {
                    assert(is_spin(before[j]));
                }
            }
        }
        index += 1;
    }
}

/// Applies one sequential sweep to `lattice`, drawing one uniform 64-bit
/// number per cell from `rng`.
pub fn recalc_lattice(lattice: &mut Lattice, table: &TransitionTable, rng: &mut StdRng)
    requires
        old(lattice).wf(),
        table.wf(),
    ensures
        final(lattice).wf(),
        final(lattice).size == old(lattice).size,
        exists|draws: Seq<u64>|
            #![trigger sweep_spins(old(lattice).spins@, old(lattice).size as int, *table, draws)]
            draws.len() == old(lattice).size * old(lattice).size && final(lattice).spins@
                == sweep_spins(old(lattice).spins@, old(lattice).size as int, *table, draws),
{
    let size = lattice.size;
    assert(size * size <= MAX_SIZE * MAX_SIZE) by (nonlinear_arith)
        requires size <= MAX_SIZE;
    let cells = size * size;
    let mut draws: Vec<u64> = Vec::new();
    let mut i: usize = 0;
    while i < cells
        invariant
            i <= cells,
            draws@.len() == i,
        decreases cells - i,
    {
        draws.push(draw_u64(rng));
        i += 1;
    }
    apply_sweep(lattice, table, &draws);
}

} // verus!

//! The spin lattice, its periodic neighbourhood and its magnetization.
use crate::random::draw_bool;
use rand::rngs::StdRng;
use vstd::arithmetic::div_mod::lemma_fundamental_div_mod;
use vstd::arithmetic::div_mod::lemma_fundamental_div_mod_converse;
use vstd::prelude::*;

verus! {

/// The largest side length a lattice may have: `2^14`, so `2^28` sites. It is
/// the largest power of two for which every count of a run (the sum of up to
/// `2^32` sampled magnetizations in 64 bits, and the numerator and denominator
/// of the susceptibility in 128 bits) stays exact.
pub const MAX_SIZE: usize = 16384;

/// The left neighbour of cell `i` on an `n × n` torus stored row by row (cell
/// `i` lies in row `i / n`, column `i % n`), wrapping from the first column to
/// the last.
pub open spec fn left_of(i: int, n: int) -> int {
    if i % n == 0 { i + n - 1 } else { i - 1 }
}

/// The neighbour above cell `i`, wrapping from the top row to the bottom row.
pub open spec fn top_of(i: int, n: int) -> int {
    if i < n { i + (n * n - n) } else { i - n }
}

/// The right neighbour of cell `i`, wrapping from the last column to the first.
pub open spec fn right_of(i: int, n: int) -> int {
    if i % n == n - 1 { i + 1 - n } else { i + 1 }
}

/// The neighbour below cell `i`, wrapping from the bottom row to the top row.
pub open spec fn bottom_of(i: int, n: int) -> int {
    if i >= n * n - n { i - (n * n - n) } else { i + n }
}

/// Returns the four neighbours of cell `index` on a `size × size` torus stored
/// row by row, in the order left, top, right, bottom.
pub fn get_adjacent_indices(index: usize, size: usize) -> (r: [usize; 4])
    requires
        size > 0,
        size * size <= usize::MAX,
        index < size * size,
    ensures
        r[0] as int == left_of(index as int, size as int),
        r[1] as int == top_of(index as int, size as int),
        r[2] as int == right_of(index as int, size as int),
        r[3] as int == bottom_of(index as int, size as int),
{
    proof {
        let n = size as int;
        lemma_cell(index as int, n);
        let r = index as int / n;
        assert(n <= n * n) by (nonlinear_arith) requires n > 0;
        assert(r <= n - 1);
        assert(n * r <= n * (n - 1)) by (nonlinear_arith) requires 0 <= r <= n - 1, n > 0;
        assert(n * (n - 1) == n * n - n) by (nonlinear_arith);
    }
    let bottom_left = size * size - size;
    let left = if index % size == 0 { index + size - 1 } else { index - 1 };
    let top = if index < size { index + bottom_left } else { index - size };
    let right = if index % size == size - 1 { index + 1 - size } else { index + 1 };
    let bottom = if index >= bottom_left { index - bottom_left } else { index + size };
    [left, top, right, bottom]
}

/// Row and column of a cell: `i == n * (i / n) + i % n` with the column below
/// `n` and the row below `n`.
pub proof fn lemma_cell(i: int, n: int)
    requires
        n > 0,
        0 <= i < n * n,
    ensures
        i == n * (i / n) + i % n,
        0 <= i % n < n,
        0 <= i / n < n,
{
    lemma_fundamental_div_mod(i, n);
    assert(0 <= i % n < n);
    let r = i / n;
    let c = i % n;
    assert(0 <= r < n) by (nonlinear_arith)
        requires i == n * r + c, 0 <= c < n, 0 <= i < n * n, n > 0;
}

/// The cell at row `r`, column `c` has that row and that column.
proof fn lemma_cell_of(n: int, r: int, c: int)
    requires
        n > 0,
        0 <= c < n,
    ensures
        (n * r + c) % n == c,
        (n * r + c) / n == r,
{
    assert(n * r + c == r * n + c) by (nonlinear_arith);
    lemma_fundamental_div_mod_converse(n * r + c, n, r, c);
}

/// The neighbours of the cell at row `r`, column `c`, by row and column.
proof fn lemma_neighbor_cells(n: int, r: int, c: int)
    requires
        n > 0,
        0 <= r < n,
        0 <= c < n,
    ensures
        0 <= n * r + c < n * n,
        left_of(n * r + c, n) == n * r + (if c == 0 { n - 1 } else { c - 1 }),
        right_of(n * r + c, n) == n * r + (if c == n - 1 { 0 } else { c + 1 }),
        top_of(n * r + c, n) == n * (if r == 0 { n - 1 } else { r - 1 }) + c,
        bottom_of(n * r + c, n) == n * (if r == n - 1 { 0 } else { r + 1 }) + c,
{
    lemma_cell_of(n, r, c);
    assert(0 <= n * r + c < n * n) by (nonlinear_arith)
        requires 0 <= r < n, 0 <= c < n;
    assert((n * r + c < n) == (r == 0)) by (nonlinear_arith)
        requires 0 <= r < n, 0 <= c < n;
    assert((n * r + c >= n * n - n) == (r == n - 1)) by (nonlinear_arith)
        requires 0 <= r < n, 0 <= c < n;
    if r == 0 {
        assert(n * r + c + (n * n - n) == n * (n - 1) + c) by (nonlinear_arith)
            requires r == 0;
    }
    assert(n * r + c - n == n * (r - 1) + c) by (nonlinear_arith);
    if r == n - 1 {
        assert(n * r + c - (n * n - n) == n * 0 + c) by (nonlinear_arith)
            requires r == n - 1;
    }
    assert(n * r + c + n == n * (r + 1) + c) by (nonlinear_arith);
}

/// Two cells are the same only when their rows and their columns are.
proof fn lemma_cell_injective(n: int, r1: int, c1: int, r2: int, c2: int)
    requires
        n > 0,
        0 <= c1 < n,
        0 <= c2 < n,
        n * r1 + c1 == n * r2 + c2,
    ensures
        r1 == r2,
        c1 == c2,
{
    lemma_cell_of(n, r1, c1);
    lemma_cell_of(n, r2, c2);
}

/// Neighbourhood on the torus: each of the four neighbours of a cell is a cell
/// of the lattice; stepping right then left, left then right, down then up or
/// up then down comes back to the cell; on a lattice of side two or more no
/// neighbour is the cell itself; and on a lattice of side three or more the
/// four neighbours are four different cells.
pub proof fn lemma_neighbors(i: int, n: int)
    requires
        n > 0,
        0 <= i < n * n,
    ensures
        0 <= left_of(i, n) < n * n,
        0 <= top_of(i, n) < n * n,
        0 <= right_of(i, n) < n * n,
        0 <= bottom_of(i, n) < n * n,
        left_of(right_of(i, n), n) == i,
        right_of(left_of(i, n), n) == i,
        top_of(bottom_of(i, n), n) == i,
        bottom_of(top_of(i, n), n) == i,
        n >= 2 ==> {
            &&& left_of(i, n) != i
            &&& top_of(i, n) != i
            &&& right_of(i, n) != i
            &&& bottom_of(i, n) != i
        },
        n >= 3 ==> {
            &&& left_of(i, n) != top_of(i, n)
            &&& left_of(i, n) != right_of(i, n)
            &&& left_of(i, n) != bottom_of(i, n)
            &&& top_of(i, n) != right_of(i, n)
            &&& top_of(i, n) != bottom_of(i, n)
            &&& right_of(i, n) != bottom_of(i, n)
        },
{
    lemma_cell(i, n);
    let r = i / n;
    let c = i % n;
    lemma_neighbor_cells(n, r, c);
    let cl = if c == 0 { n - 1 } else { c - 1 };
    let cr = if c == n - 1 { 0 } else { c + 1 };
    let rt = if r == 0 { n - 1 } else { r - 1 };
    let rb = if r == n - 1 { 0 } else { r + 1 };
    lemma_neighbor_cells(n, r, cl);
    lemma_neighbor_cells(n, r, cr);
    lemma_neighbor_cells(n, rt, c);
    lemma_neighbor_cells(n, rb, c);
    if n >= 2 {
        if left_of(i, n) == i {
            lemma_cell_injective(n, r, cl, r, c);
        }
        if right_of(i, n) == i {
            lemma_cell_injective(n, r, cr, r, c);
        }
        if top_of(i, n) == i {
            lemma_cell_injective(n, rt, c, r, c);
        }
        if bottom_of(i, n) == i {
            lemma_cell_injective(n, rb, c, r, c);
        }
    }
    if n >= 3 {
        if left_of(i, n) == top_of(i, n) {
            lemma_cell_injective(n, r, cl, rt, c);
        }
        if left_of(i, n) == right_of(i, n) {
            lemma_cell_injective(n, r, cl, r, cr);
        }
        if left_of(i, n) == bottom_of(i, n) {
            lemma_cell_injective(n, r, cl, rb, c);
        }
        if top_of(i, n) == right_of(i, n) {
            lemma_cell_injective(n, rt, c, r, cr);
        }
        if top_of(i, n) == bottom_of(i, n) {
            lemma_cell_injective(n, rt, c, rb, c);
        }
        if right_of(i, n) == bottom_of(i, n) {
            lemma_cell_injective(n, r, cr, rb, c);
        }
    }
}

/// A spin value: up (`1`) or down (`-1`).
pub open spec fn is_spin(x: i8) -> bool {
    x == 1 || x == -1
}

/// Every value of `s` is a spin.
pub open spec fn all_spins(s: Seq<i8>) -> bool {
    forall|i: int| 0 <= i < s.len() ==> is_spin(#[trigger] s[i])
}

/// The spin that a drawn bit stands for: up for `true`, down for `false`.
pub open spec fn spin_of_bit(b: bool) -> i8 {
    if b { 1i8 } else { -1i8 }
}

/// The spins that a sequence of drawn bits stands for.
pub open spec fn spins_of_bits(bits: Seq<bool>) -> Seq<i8> {
    bits.map_values(|b: bool| spin_of_bit(b))
}

/// The sum of the spins of `s`.
pub open spec fn spin_total(s: Seq<i8>) -> int
    decreases s.len(),
{
    if s.len() == 0 { 0 } else { spin_total(s.drop_last()) + s.last() }
}

/// The number of up spins in `s`.
pub open spec fn count_up(s: Seq<i8>) -> int
    decreases s.len(),
{
    if s.len() == 0 { 0 } else { count_up(s.drop_last()) + if s.last() == 1 { 1int } else { 0 } }
}

/// The absolute value of `x`.
pub open spec fn abs(x: int) -> int {
    if x < 0 { -x } else { x }
}

/// A square lattice of spins with periodic boundaries, stored row by row.
pub struct Lattice {
    pub size: usize,
    pub spins: Vec<i8>,
}

impl Lattice {
    /// `size × size` cells, each holding a spin, with a side between one
    /// and `MAX_SIZE`.
    pub open spec fn wf(&self) -> bool {
        &&& 0 < self.size <= MAX_SIZE
        &&& self.spins@.len() == self.size * self.size
        &&& all_spins(self.spins@)
    }

    /// Builds a lattice from given spins; `None` unless the side is between one
    /// and `MAX_SIZE`, there are `size × size` values and each is `1` or `-1`.
    pub fn from_spins(size: usize, spins: Vec<i8>) -> (r: Option<Lattice>)
        ensures
            r.is_some() <==> (0 < size <= MAX_SIZE && spins@.len() == size * size && all_spins(
                spins@,
            )),
            r.is_some() ==> r.unwrap().size == size && r.unwrap().spins@ == spins@,
    {
        if size == 0 || size > MAX_SIZE {
            return None;
        }
        assert(size * size <= MAX_SIZE * MAX_SIZE) by (nonlinear_arith)
            requires size <= MAX_SIZE;
        if spins.len() != size * size {
            return None;
        }
        let mut i: usize = 0;
        while i < spins.len()
            invariant
                i <= spins@.len(),
                forall|j: int| 0 <= j < i ==> is_spin(#[trigger] spins@[j]),
            decreases spins@.len() - i,
        {
            if spins[i] != 1 && spins[i] != -1 {
                return None;
            }
            i += 1;
        }
        Some(Lattice { size, spins })
    }

    /// The absolute value of the sum of the spins: the magnetization per site
    /// times the number of sites.
    pub fn abs_spin_sum(&self) -> (r: u64)
        requires
            self.wf(),
        ensures
            r == abs(spin_total(self.spins@)),
            r <= self.spins@.len(),
    {
        let ghost s = self.spins@;
        let n = self.spins.len();
        assert(self.size * self.size <= MAX_SIZE * MAX_SIZE) by (nonlinear_arith)
            requires self.size <= MAX_SIZE;
        let mut sum: i64 = 0;
        let mut i: usize = 0;
        assert(s.take(0) =~= Seq::<i8>::empty());
        while i < n
            invariant
                s == self.spins@,
                n == s.len(),
                n <= MAX_SIZE * MAX_SIZE,
                all_spins(s),
                i <= n,
                sum == spin_total(s.take(i as int)),
                -(i as int) <= sum <= i,
            decreases n - i,
        {
            assert(s.take(i as int + 1).drop_last() =~= s.take(i as int));
            assert(is_spin(s[i as int]));
            sum = sum + self.spins[i] as i64;
            i += 1;
        }
        assert(s.take(n as int) =~= s);
        if sum < 0 {
            (-sum) as u64
        } else {
            sum as u64
        }
    }
}

/// Builds the lattice whose cell `i` holds the spin that `bits[i]` stands for.
pub fn lattice_from_bits(size: usize, bits: &Vec<bool>) -> (r: Lattice)
    requires
        0 < size <= MAX_SIZE,
        bits@.len() == size * size,
    ensures
        r.wf(),
        r.size == size,
        r.spins@ == spins_of_bits(bits@),
{
    let mut spins: Vec<i8> = Vec::new();
    let mut i: usize = 0;
    while i < bits.len()
        invariant
            i <= bits@.len(),
            spins@ == bits@.take(i as int).map_values(|b: bool| spin_of_bit(b)),
        decreases bits@.len() - i,
    {
        spins.push(if bits[i] { 1 } else { -1 });
        i += 1;
        assert(spins@ =~= bits@.take(i as int).map_values(|b: bool| spin_of_bit(b)));
    }
    assert(bits@.take(i as int) =~= bits@);
    Lattice { size, spins }
}

/// A fresh lattice of side `size` whose spins are drawn independently and
/// uniformly from `rng`.
pub fn generate_lattice(size: usize, rng: &mut StdRng) -> (r: Lattice)
    requires
        0 < size <= MAX_SIZE,
    ensures
        r.wf(),
        r.size == size,
        exists|bits: Seq<bool>|
            bits.len() == size * size && r.spins@ == #[trigger] spins_of_bits(bits),
{
    assert(size * size <= MAX_SIZE * MAX_SIZE) by (nonlinear_arith)
        requires size <= MAX_SIZE;
    let cells = size * size;
    let mut bits: Vec<bool> = Vec::new();
    let mut i: usize = 0;
    while i < cells
        invariant
            i <= cells,
            bits@.len() == i,
        decreases cells - i,
    {
        bits.push(draw_bool(rng));
        i += 1;
    }
    lattice_from_bits(size, &bits)
}

/// The sum of the spins is the number of up spins less the number of down
/// spins, so its absolute value never exceeds the number of sites.
proof fn lemma_total_from_up(s: Seq<i8>)
    requires
        all_spins(s),
    ensures
        spin_total(s) == 2 * count_up(s) - s.len(),
        0 <= count_up(s) <= s.len(),
    decreases s.len(),
{
    if s.len() > 0 {
        let p = s.drop_last();
        assert(all_spins(p)) by {
            assert forall|i: int| 0 <= i < p.len() implies is_spin(#[trigger] p[i]) by {
                assert(p[i] == s[i]);
            }
        }
        assert(is_spin(s[s.len() - 1]));
        lemma_total_from_up(p);
    }
}

/// Magnetization bounds: for any lattice of spins the absolute spin sum lies
/// between zero and the number of sites, so the magnetization per site lies in
/// `[0, 1]`. It is the number of sites when all spins are aligned, and zero
/// when exactly half of the spins point up.
pub proof fn lemma_magnetization_bounds(s: Seq<i8>)
    requires
        all_spins(s),
    ensures
        0 <= abs(spin_total(s)) <= s.len(),
        (forall|i: int| 0 <= i < s.len() ==> s[i] == 1) ==> abs(spin_total(s)) == s.len(),
        (forall|i: int| 0 <= i < s.len() ==> s[i] == -1) ==> abs(spin_total(s)) == s.len(),
        2 * count_up(s) == s.len() ==> spin_total(s) == 0,
{
    lemma_total_from_up(s);
    lemma_uniform_count(s);
}

/// On a lattice with all spins up every spin counts as up; with all spins down
/// none does.
proof fn lemma_uniform_count(s: Seq<i8>)
    ensures
        (forall|i: int| 0 <= i < s.len() ==> s[i] == 1) ==> count_up(s) == s.len(),
        (forall|i: int| 0 <= i < s.len() ==> s[i] == -1) ==> count_up(s) == 0,
    decreases s.len(),
{
    if s.len() > 0 {
        let p = s.drop_last();
        lemma_uniform_count(p);
        if forall|i: int| 0 <= i < s.len() ==> s[i] == 1 {
            assert forall|i: int| 0 <= i < p.len() implies p[i] == 1 by {
                assert(p[i] == s[i]);
            }
        }
        if forall|i: int| 0 <= i < s.len() ==> s[i] == -1 {
            assert forall|i: int| 0 <= i < p.len() implies p[i] == -1 by {
                assert(p[i] == s[i]);
            }
        }
    }
}

} // verus!

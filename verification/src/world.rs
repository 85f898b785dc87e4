use vstd::prelude::*;

verus! {

/// A square, non-wrapping grid of cells; each cell is alive (`true`) or dead.
#[derive(Clone, Debug, PartialEq, Eq)]
pub struct Grid {
    pub cells: Vec<Vec<bool>>,
}

impl View for Grid {
    type V = Seq<Seq<bool>>;

    open spec fn view(&self) -> Seq<Seq<bool>> {
        Seq::new(self.cells@.len(), |y: int| self.cells@[y]@)
    }
}

/// A well-formed grid is square, with at least one cell per side.
pub open spec fn grid_wf(s: Seq<Seq<bool>>) -> bool {
    &&& s.len() >= 1
    &&& forall|y: int| 0 <= y < s.len() ==> (#[trigger] s[y]).len() == s.len()
}

/// The state of cell `(x, y)`: positions outside the grid read as dead, so
/// the neighborhood of an edge cell is reduced, never wrapped.
pub open spec fn cell_at(s: Seq<Seq<bool>>, x: int, y: int) -> bool {
    0 <= y < s.len() && 0 <= x < s.len() && s[y][x]
}

/// 1 for a live cell, 0 for a dead one.
pub open spec fn bit(b: bool) -> int {
    if b {
        1
    } else {
        0
    }
}

/// Number of live cells among the up-to-8 neighbors of `(x, y)`;
/// positions outside the grid contribute nothing.
pub open spec fn live_neighbor_count(s: Seq<Seq<bool>>, x: int, y: int) -> int {
    bit(cell_at(s, x - 1, y - 1)) + bit(cell_at(s, x, y - 1)) + bit(cell_at(s, x + 1, y - 1))
        + bit(cell_at(s, x - 1, y)) + bit(cell_at(s, x + 1, y)) + bit(cell_at(s, x - 1, y + 1))
        + bit(cell_at(s, x, y + 1)) + bit(cell_at(s, x + 1, y + 1))
}

/// The B3/S23 rule for one cell: a live cell survives with 2 or 3 live
/// neighbors, a dead cell is born with exactly 3, every other cell is dead.
pub open spec fn next_cell(s: Seq<Seq<bool>>, x: int, y: int) -> bool {
    if cell_at(s, x, y) {
        live_neighbor_count(s, x, y) == 2 || live_neighbor_count(s, x, y) == 3
    } else {
        live_neighbor_count(s, x, y) == 3
    }
}

/// One generation: every cell of the square grid moves to its B3/S23 successor.
pub open spec fn step_spec(s: Seq<Seq<bool>>) -> Seq<Seq<bool>> {
    Seq::new(s.len(), |y: int| Seq::new(s.len(), |x: int| next_cell(s, x, y)))
}

/// `k` generations in a row.
pub open spec fn iter_step(s: Seq<Seq<bool>>, k: nat) -> Seq<Seq<bool>>
    decreases k,
{
    if k == 0 {
        s
    } else {
        step_spec(iter_step(s, (k - 1) as nat))
    }
}

/// Law: for every grid and every cell, the live-neighbor count lies in `[0, 8]`.
pub proof fn lemma_neighbor_count_bound(s: Seq<Seq<bool>>, x: int, y: int)
    ensures
        0 <= live_neighbor_count(s, x, y) <= 8,
{
}

/// Law: the corner cell `(0, 0)` counts only its three in-grid neighbors
/// `(1, 0)`, `(0, 1)` and `(1, 1)`; no coordinate wraps to the far edge.
pub proof fn lemma_corner_counts_no_wrapped_neighbor(s: Seq<Seq<bool>>)
    ensures
        live_neighbor_count(s, 0, 0) == bit(cell_at(s, 1, 0)) + bit(cell_at(s, 0, 1)) + bit(
            cell_at(s, 1, 1),
        ),
{
}

/// Law: the transition is a pure function of the grid alone, so equal grids
/// have equal successors for any number of generations.
pub proof fn lemma_step_deterministic(s1: Seq<Seq<bool>>, s2: Seq<Seq<bool>>, k: nat)
    requires
        s1 == s2,
    ensures
        iter_step(s1, k) == iter_step(s2, k),
{
}

/// Count the live neighbors of `cell_pos == (x, y)`; cells on the boundary
/// get a reduced, never a wrapped, neighborhood.
pub fn get_live_neighbor_count(cell_pos: (usize, usize), world: &Grid) -> (r: u8)
    requires
        world.wf(),
    ensures
        r as int == live_neighbor_count(world@, cell_pos.0 as int, cell_pos.1 as int),
        r <= 8,
{
    let (x, y) = cell_pos;
    let n = world.dim();
    let mut count: u8 = 0;
    if x > 0 && y > 0 && world.is_live(x - 1, y - 1) {
        count += 1;
    }
    if y > 0 && world.is_live(x, y - 1) {
        count += 1;
    }
    if x < n - 1 && y > 0 && world.is_live(x + 1, y - 1) {
        count += 1;
    }
    if x > 0 && world.is_live(x - 1, y) {
        count += 1;
    }
    if x < n - 1 && world.is_live(x + 1, y) {
        count += 1;
    }
    if x > 0 && y < n - 1 && world.is_live(x - 1, y + 1) {
        count += 1;
    }
    if y < n - 1 && world.is_live(x, y + 1) {
        count += 1;
    }
    if x < n - 1 && y < n - 1 && world.is_live(x + 1, y + 1) {
        count += 1;
    }
    count
}

/// The next generation: a fresh grid is computed while the input is only
/// read, so no cell flipped this tick can skew another cell's count.
pub fn get_updated_world(world: &Grid) -> (r: Grid)
    requires
        world.wf(),
    ensures
        r.wf(),
        r@.len() == world@.len(),
        r@ == step_spec(world@),
{
    let n = world.dim();
    let mut cells: Vec<Vec<bool>> = Vec::new();
    let mut y: usize = 0;
    while y < n
        invariant
            world.wf(),
            n == world@.len(),
            y <= n,
            cells@.len() == y,
            forall|yy: int| 0 <= yy < y ==> (#[trigger] cells@[yy])@.len() == n,
            forall|yy: int, xx: int|
                0 <= yy < y && 0 <= xx < n ==> (#[trigger] cells@[yy]@[xx]) == next_cell(
                    world@,
                    xx,
                    yy,
                ),
        decreases n - y,
    {
        let mut row: Vec<bool> = Vec::new();
        let mut x: usize = 0;
        while x < n
            invariant
                world.wf(),
                n == world@.len(),
                x <= n,
                y < n,
                row@.len() == x,
                forall|xx: int|
                    0 <= xx < x ==> (#[trigger] row@[xx]) == next_cell(world@, xx, y as int),
            decreases n - x,
        {
            let cnt = get_live_neighbor_count((x, y), world);
            let here = world.is_live(x, y);
            let next = if here {
                cnt == 2 || cnt == 3
            } else {
                cnt == 3
            };
            row.push(next);
            x += 1;
        }
        cells.push(row);
        y += 1;
    }
    let r = Grid { cells };
    proof {
        assert(r@ =~~= step_spec(world@));
    }
    r
}

impl Grid {
    /// Whether the grid is square and non-empty.
    pub open spec fn wf(&self) -> bool {
        grid_wf(self@)
    }

    /// Cells per side.
    pub fn dim(&self) -> (n: usize)
        ensures
            n == self@.len(),
    {
        self.cells.len()
    }

    /// The state of cell `(x, y)`; out-of-range positions read as dead.
    pub fn is_live(&self, x: usize, y: usize) -> (r: bool)
        requires
            self.wf(),
        ensures
            r == cell_at(self@, x as int, y as int),
    {
        if y < self.cells.len() && x < self.cells.len() {
            proof {
                assert(self@[y as int] == self.cells@[y as int]@);
            }
            self.cells[y][x]
        } else {
            false
        }
    }

    /// An all-dead square grid of side `n`; `None` exactly when `n == 0`.
    pub fn new(n: usize) -> (r: Option<Grid>)
        ensures
            r is Some <==> n >= 1,
            r matches Some(g) ==> g.wf() && g@.len() == n
                && (forall|x: int, y: int| !cell_at(g@, x, y)),
    {
        if n == 0 {
            None
        } else {
            let mut cells: Vec<Vec<bool>> = Vec::new();
            let mut y: usize = 0;
            while y < n
                invariant
                    y <= n,
                    cells@.len() == y,
                    forall|yy: int| 0 <= yy < y ==> (#[trigger] cells@[yy])@.len() == n,
                    forall|yy: int, xx: int| 0 <= yy < y && 0 <= xx < n ==> !(#[trigger] cells@[yy]@[xx]),
                decreases n - y,
            {
                let mut row: Vec<bool> = Vec::new();
                let mut x: usize = 0;
                while x < n
                    invariant
                        x <= n,
                        row@.len() == x,
                        forall|xx: int| 0 <= xx < x ==> !(#[trigger] row@[xx]),
                    decreases n - x,
                {
                    row.push(false);
                    x += 1;
                }
                cells.push(row);
                y += 1;
            }
            Some(Grid { cells })
        }
    }

    /// A grid of side `n` whose live cells are exactly those listed in
    /// `live`; `None` exactly when `n == 0` or a listed position lies
    /// outside the grid.
    pub fn from_cells(n: usize, live: &Vec<(usize, usize)>) -> (r: Option<Grid>)
        ensures
            r is Some <==> (n >= 1 && forall|j: int|
                0 <= j < live@.len() ==> (#[trigger] live@[j]).0 < n && live@[j].1 < n),
            r matches Some(g) ==> g.wf() && g@.len() == n && (forall|x: int, y: int|
                cell_at(g@, x, y) <==> listed(live@, x, y)),
    {
        if n == 0 {
            return None;
        }
        let mut j: usize = 0;
        while j < live.len()
            invariant
                j <= live@.len(),
                forall|jj: int| 0 <= jj < j ==> (#[trigger] live@[jj]).0 < n && live@[jj].1 < n,
            decreases live@.len() - j,
        {
            let (cx, cy) = live[j];
            if cx >= n || cy >= n {
                return None;
            }
            j += 1;
        }
        let mut cells: Vec<Vec<bool>> = Vec::new();
        let mut y: usize = 0;
        while y < n
            invariant
                y <= n,
                cells@.len() == y,
                forall|yy: int| 0 <= yy < y ==> (#[trigger] cells@[yy])@.len() == n,
                forall|yy: int, xx: int|
                    0 <= yy < y && 0 <= xx < n ==> ((#[trigger] cells@[yy]@[xx]) <==> listed(
                        live@,
                        xx,
                        yy,
                    )),
            decreases n - y,
        {
            let mut row: Vec<bool> = Vec::new();
            let mut x: usize = 0;
            while x < n
                invariant
                    x <= n,
                    y < n,
                    row@.len() == x,
                    forall|xx: int|
                        0 <= xx < x ==> ((#[trigger] row@[xx]) <==> listed(live@, xx, y as int)),
                decreases n - x,
            {
                row.push(contains_pos(live, x, y));
                x += 1;
            }
            cells.push(row);
            y += 1;
        }
        let g = Grid { cells };
        proof {
            assert forall|x: int, y: int| cell_at(g@, x, y) <==> listed(live@, x, y) by {
                if listed(live@, x, y) {
                    let jj = choose|jj: int|
                        0 <= jj < live@.len() && (#[trigger] live@[jj]).0 == x && live@[jj].1 == y;
                    assert(live@[jj].0 < n && live@[jj].1 < n);
                }
            }
        }
        Some(g)
    }
}

/// Whether the position `(x, y)` occurs in `live`.
pub open spec fn listed(live: Seq<(usize, usize)>, x: int, y: int) -> bool {
    exists|j: int| 0 <= j < live.len() && (#[trigger] live[j]).0 == x && live[j].1 == y
}

/// Whether `live` contains the position `(x, y)`.
fn contains_pos(live: &Vec<(usize, usize)>, x: usize, y: usize) -> (r: bool)
    ensures
        r == listed(live@, x as int, y as int),
{
    let mut j: usize = 0;
    while j < live.len()
        invariant
            j <= live@.len(),
            forall|jj: int| 0 <= jj < j ==> !((#[trigger] live@[jj]).0 == x && live@[jj].1 == y),
        decreases live@.len() - j,
    {
        let (cx, cy) = live[j];
        if cx == x && cy == y {
            return true;
        }
        j += 1;
    }
    false
}

} // verus!

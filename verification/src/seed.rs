use vstd::prelude::*;
use crate::world::Grid;
use crate::world::cell_at;
use crate::world::listed;

verus! {

/// How the first generation is chosen.
pub enum SeedStrategy {
    /// All cells dead except those listed.
    Fixed(Vec<(usize, usize)>),
    /// Every cell drawn independently at random.
    Random,
}

/// Relies on rand's thread-local generator, `rand::thread_rng`, and
/// `rand::Rng::gen::<bool>`: one draw of a boolean, independent per call.
/// Nothing is promised of the value drawn.
#[verifier::external_body]
fn random_bool() -> bool {
    rand::Rng::gen(&mut rand::thread_rng())
}

/// A grid of side `n` with every cell drawn independently at random;
/// `None` exactly when `n == 0`.
pub fn random_grid(n: usize) -> (r: Option<Grid>)
    ensures
        r is Some <==> n >= 1,
        r matches Some(g) ==> g.wf() && g@.len() == n,
{
    if n == 0 {
        return None;
    }
    let mut cells: Vec<Vec<bool>> = Vec::new();
    let mut y: usize = 0;
    while y < n
        invariant
            y <= n,
            cells@.len() == y,
            forall|yy: int| 0 <= yy < y ==> (#[trigger] cells@[yy])@.len() == n,
        decreases n - y,
    {
        let mut row: Vec<bool> = Vec::new();
        let mut x: usize = 0;
        while x < n
            invariant
                x <= n,
                row@.len() == x,
            decreases n - x,
        {
            row.push(random_bool());
            x += 1;
        }
        cells.push(row);
        y += 1;
    }
    Some(Grid { cells })
}

/// The first generation for side `n` under `strategy`; `None` exactly when
/// `n == 0` or a fixed cell lies off the grid.
pub fn seed_grid(n: usize, strategy: &SeedStrategy) -> (r: Option<Grid>)
    ensures
        r matches Some(g) ==> g.wf() && g@.len() == n,
        strategy is Random ==> (r is Some <==> n >= 1),
        strategy matches SeedStrategy::Fixed(live) ==> (r is Some <==> (n >= 1 && forall|j: int|
            0 <= j < live@.len() ==> (#[trigger] live@[j]).0 < n && live@[j].1 < n)),
        strategy matches SeedStrategy::Fixed(live) ==> (r matches Some(g) ==> (forall|
            x: int,
            y: int,
        |
            cell_at(g@, x, y) <==> listed(live@, x, y))),
{
    match strategy {
        SeedStrategy::Fixed(live) => Grid::from_cells(n, live),
        SeedStrategy::Random => random_grid(n),
    }
}

} // verus!

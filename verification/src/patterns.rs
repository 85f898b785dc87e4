use vstd::prelude::*;
use crate::world::iter_step;
use crate::world::next_cell;
use crate::world::step_spec;

verus! {

/// Whether `(x, y)` belongs to the 2x2 block whose top-left cell is `(bx, by)`.
pub open spec fn block_cell(bx: int, by: int, x: int, y: int) -> bool {
    bx <= x <= bx + 1 && by <= y <= by + 1
}

/// A grid of side `n` whose only live cells form a 2x2 block at `(bx, by)`.
pub open spec fn block_grid(n: int, bx: int, by: int) -> Seq<Seq<bool>> {
    Seq::new(n as nat, |y: int| Seq::new(n as nat, |x: int| block_cell(bx, by, x, y)))
}

/// Law: a grid that the rule maps to itself stays itself for any number of
/// generations.
pub proof fn lemma_still_life_forever(s: Seq<Seq<bool>>, k: nat)
    requires
        step_spec(s) == s,
    ensures
        iter_step(s, k) == s,
    decreases k,
{
    if k > 0 {
        lemma_still_life_forever(s, (k - 1) as nat);
    }
}

/// Law: a 2x2 live block wholly inside the grid is a still life: one step
/// returns the grid unchanged.
pub proof fn lemma_block_still_life(n: int, bx: int, by: int)
    requires
        0 <= bx,
        bx + 1 < n,
        0 <= by,
        by + 1 < n,
    ensures
        step_spec(block_grid(n, bx, by)) == block_grid(n, bx, by),
{
    let s = block_grid(n, bx, by);
    assert forall|x: int, y: int| 0 <= x < n && 0 <= y < n implies next_cell(s, x, y)
        == block_cell(bx, by, x, y) by {
        assert(next_cell(s, x, y) == block_cell(bx, by, x, y));
    }
    assert(step_spec(s) =~~= s);
}

/// Law: a 2x2 live block wholly inside the grid remains fully alive and
/// unchanged after any number of generations.
pub proof fn lemma_block_forever(n: int, bx: int, by: int, k: nat)
    requires
        0 <= bx,
        bx + 1 < n,
        0 <= by,
        by + 1 < n,
    ensures
        iter_step(block_grid(n, bx, by), k) == block_grid(n, bx, by),
{
    lemma_block_still_life(n, bx, by);
    lemma_still_life_forever(block_grid(n, bx, by), k);
}

/// Whether `(u, v)`, relative to the pattern origin, is live in phase `p` of
/// the standard 5-cell glider; phase 4 is phase 0 shifted by `(1, 1)`.
pub open spec fn glider_cell(p: int, u: int, v: int) -> bool {
    if p <= 0 {
        (u == 1 && v == 0) || (u == 2 && v == 1) || (u == 0 && v == 2) || (u == 1 && v == 2) || (u
            == 2 && v == 2)
    } else if p == 1 {
        (u == 0 && v == 1) || (u == 2 && v == 1) || (u == 1 && v == 2) || (u == 2 && v == 2) || (u
            == 1 && v == 3)
    } else if p == 2 {
        (u == 2 && v == 1) || (u == 0 && v == 2) || (u == 2 && v == 2) || (u == 1 && v == 3) || (u
            == 2 && v == 3)
    } else if p == 3 {
        (u == 1 && v == 1) || (u == 2 && v == 2) || (u == 3 && v == 2) || (u == 1 && v == 3) || (u
            == 2 && v == 3)
    } else {
        (u == 2 && v == 1) || (u == 3 && v == 2) || (u == 1 && v == 3) || (u == 2 && v == 3) || (u
            == 3 && v == 3)
    }
}

/// A grid of side `n` whose only live cells form glider phase `p`, with the
/// pattern origin at `(ox, oy)`.
pub open spec fn glider_grid(n: int, ox: int, oy: int, p: int) -> Seq<Seq<bool>> {
    Seq::new(n as nat, |y: int| Seq::new(n as nat, |x: int| glider_cell(p, x - ox, y - oy)))
}

/// One generation carries the glider from phase `p` to phase `p + 1`,
/// provided the pattern's 4x4 track stays inside the grid.
pub proof fn lemma_glider_step(n: int, ox: int, oy: int, p: int)
    requires
        0 <= p < 4,
        0 <= ox,
        0 <= oy,
        ox + 3 < n,
        oy + 3 < n,
    ensures
        step_spec(glider_grid(n, ox, oy, p)) == glider_grid(n, ox, oy, p + 1),
{
    let s = glider_grid(n, ox, oy, p);
    assert forall|x: int, y: int| 0 <= x < n && 0 <= y < n implies next_cell(s, x, y)
        == glider_cell(p + 1, x - ox, y - oy) by {
        assert(next_cell(s, x, y) == glider_cell(p + 1, x - ox, y - oy));
    }
    assert(step_spec(s) =~~= glider_grid(n, ox, oy, p + 1));
}

/// Law: the standard 5-cell glider, far enough from the grid edges,
/// reproduces its shape translated one cell diagonally after exactly 4 steps.
pub proof fn lemma_glider_translation(n: int, ox: int, oy: int)
    requires
        0 <= ox,
        0 <= oy,
        ox + 3 < n,
        oy + 3 < n,
    ensures
        iter_step(glider_grid(n, ox, oy, 0), 4) == glider_grid(n, ox + 1, oy + 1, 0),
{
    let s0 = glider_grid(n, ox, oy, 0);
    lemma_glider_step(n, ox, oy, 0);
    lemma_glider_step(n, ox, oy, 1);
    lemma_glider_step(n, ox, oy, 2);
    lemma_glider_step(n, ox, oy, 3);
    assert(iter_step(s0, 0) == s0);
    assert(iter_step(s0, 1) == step_spec(iter_step(s0, 0)));
    assert(iter_step(s0, 2) == step_spec(iter_step(s0, 1)));
    assert(iter_step(s0, 3) == step_spec(iter_step(s0, 2)));
    assert(iter_step(s0, 4) == step_spec(iter_step(s0, 3)));
    assert(glider_grid(n, ox, oy, 4) =~~= glider_grid(n, ox + 1, oy + 1, 0));
}

} // verus!

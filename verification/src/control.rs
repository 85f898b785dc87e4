use vstd::prelude::*;
use crate::render::Palette;
use crate::render::render;
use crate::render::render_spec;
use crate::world::Grid;
use crate::world::get_updated_world;
use crate::world::grid_wf;
use crate::world::step_spec;

verus! {

/// The run/pause state of the control loop. It starts `Running`; a pause
/// press edge moves it to `Paused`, and nothing moves it back.
#[derive(Clone, Copy, Debug, PartialEq, Eq, Structural)]
pub enum ControllerState {
    Running,
    Paused,
}

/// The real-time loop's state: the current generation, the run/pause flag,
/// and the fixed presentation parameters. The front end feeds it input
/// edges, asks for ticks and frames, and presents the frames.
pub struct Controller {
    pub grid: Grid,
    pub state: ControllerState,
    pub block_size: usize,
    pub run_palette: Palette,
    pub pause_palette: Palette,
}

impl Controller {
    /// The grid is well formed, the block side is positive, and the pixel
    /// buffer's size fits the machine.
    pub open spec fn wf(&self) -> bool {
        &&& grid_wf(self.grid@)
        &&& self.block_size >= 1
        &&& (self.grid@.len() * self.block_size) * (self.grid@.len() * self.block_size)
            <= usize::MAX
    }

    /// The palette the next frame will use: the paused palette exactly in
    /// the paused state.
    pub open spec fn active_palette(&self) -> Palette {
        if self.state is Paused {
            self.pause_palette
        } else {
            self.run_palette
        }
    }

    /// A controller in the running state; `None` exactly when `block_size`
    /// is zero or the pixel buffer would overflow the machine's sizes.
    pub fn new(grid: Grid, block_size: usize, run_palette: Palette, pause_palette: Palette) -> (r:
        Option<Controller>)
        requires
            grid.wf(),
        ensures
            r is Some <==> (block_size >= 1 && (grid@.len() * block_size) * (grid@.len()
                * block_size) <= usize::MAX),
            r matches Some(c) ==> c.wf() && c.grid == grid && c.state == ControllerState::Running
                && c.block_size == block_size && c.run_palette == run_palette && c.pause_palette
                == pause_palette,
    {
        if block_size == 0 {
            return None;
        }
        let n = grid.dim();
        match n.checked_mul(block_size) {
            None => {
                proof {
                    assert((grid@.len() * block_size) * (grid@.len() * block_size)
                        > usize::MAX) by (nonlinear_arith)
                        requires
                            grid@.len() * block_size > usize::MAX,
                            grid@.len() >= 1,
                            block_size >= 1,
                    ;
                }
                None
            },
            Some(w) => match w.checked_mul(w) {
                None => None,
                Some(_) => Some(
                    Controller {
                        grid,
                        state: ControllerState::Running,
                        block_size,
                        run_palette,
                        pause_palette,
                    },
                ),
            },
        }
    }

    /// Record this tick's input: a pause press edge moves the controller to
    /// `Paused`; everything else, grid included, is left as it was.
    pub fn apply_pause_input(&mut self, pause_edge: bool)
        requires
            old(self).wf(),
        ensures
            final(self).wf(),
            final(self).grid == old(self).grid,
            final(self).block_size == old(self).block_size,
            final(self).run_palette == old(self).run_palette,
            final(self).pause_palette == old(self).pause_palette,
            final(self).state == (if pause_edge {
                ControllerState::Paused
            } else {
                old(self).state
            }),
    {
        if pause_edge {
            self.state = ControllerState::Paused;
        }
    }

    /// One simulation tick. While running, the grid advances one generation
    /// and the caller must pace the frame (`true`); while paused, the grid
    /// is left untouched and no pacing is asked for.
    pub fn tick(&mut self) -> (pace: bool)
        requires
            old(self).wf(),
        ensures
            final(self).wf(),
            final(self).state == old(self).state,
            final(self).block_size == old(self).block_size,
            final(self).run_palette == old(self).run_palette,
            final(self).pause_palette == old(self).pause_palette,
            old(self).state is Running ==> final(self).grid@ == step_spec(old(self).grid@) && pace,
            old(self).state is Paused ==> final(self).grid == old(self).grid && !pace,
    {
        match self.state {
            ControllerState::Running => {
                self.grid = get_updated_world(&self.grid);
                true
            },
            ControllerState::Paused => false,
        }
    }

    /// Render the current generation with the palette of the current state.
    pub fn frame(&self) -> (r: Vec<u32>)
        requires
            self.wf(),
        ensures
            r@ == render_spec(
                self.grid@,
                self.block_size as int,
                self.active_palette().alive,
                self.active_palette().dead,
            ),
            r@.len() == (self.grid@.len() * self.block_size) * (self.grid@.len()
                * self.block_size),
    {
        match self.state {
            ControllerState::Paused => render(&self.grid, self.block_size, &self.pause_palette),
            ControllerState::Running => render(&self.grid, self.block_size, &self.run_palette),
        }
    }
}

} // verus!

use vstd::prelude::*;
use vstd::arithmetic::div_mod::lemma_fundamental_div_mod_converse;
use crate::world::Grid;
use crate::world::cell_at;

verus! {

/// The two colors of one presentation mode, packed as 0xRRGGBB.
#[derive(Clone, Copy, Debug, PartialEq, Eq, Structural)]
pub struct Palette {
    pub alive: u32,
    pub dead: u32,
}

/// Pack three 8-bit channels as a single 0xRRGGBB value, red highest.
pub fn pack_rgb(r: u8, g: u8, b: u8) -> (c: u32)
    ensures
        c == r as int * 0x10000 + g as int * 0x100 + b as int,
{
    (r as u32) * 0x10000 + (g as u32) * 0x100 + (b as u32)
}

/// Side of the pixel buffer, in pixels: cells per side times block side.
pub open spec fn buffer_side(s: Seq<Seq<bool>>, bs: int) -> int {
    s.len() * bs
}

/// The color one frame gives pixel `(px, py)`: the palette color of the
/// cell whose `bs`-sided block covers that pixel.
pub open spec fn pixel_color(
    s: Seq<Seq<bool>>,
    bs: int,
    alive: u32,
    dead: u32,
    px: int,
    py: int,
) -> u32 {
    if cell_at(s, px / bs, py / bs) {
        alive
    } else {
        dead
    }
}

/// A full frame: a dense row-major buffer of `(n * bs) * (n * bs)` pixels.
pub open spec fn render_spec(s: Seq<Seq<bool>>, bs: int, alive: u32, dead: u32) -> Seq<u32> {
    Seq::new(
        (buffer_side(s, bs) * buffer_side(s, bs)) as nat,
        |i: int|
            pixel_color(s, bs, alive, dead, i % buffer_side(s, bs), i / buffer_side(s, bs)),
    )
}

/// Repaint `buffer` as one full frame of `world`: each cell shows as a
/// solid square of side `block_size`, live cells in `alive`, dead cells in
/// `dead`. Every pixel is overwritten; nothing of the old image survives.
pub fn draw_world(buffer: &mut Vec<u32>, world: &Grid, block_size: usize, alive: u32, dead: u32)
    requires
        world.wf(),
        block_size >= 1,
        (world@.len() * block_size) * (world@.len() * block_size) <= usize::MAX,
    ensures
        final(buffer)@ == render_spec(world@, block_size as int, alive, dead),
        final(buffer)@.len() == (world@.len() * block_size) * (world@.len() * block_size),
{
    let n = world.dim();
    proof {
        assert(world@.len() * block_size >= 1) by (nonlinear_arith)
            requires
                world@.len() >= 1,
                block_size >= 1,
        ;
        assert(world@.len() * block_size <= (world@.len() * block_size) * (world@.len()
            * block_size)) by (nonlinear_arith)
            requires
                world@.len() * block_size >= 1,
        ;
    }
    let w = n * block_size;
    buffer.clear();
    let mut py: usize = 0;
    while py < w
        invariant
            world.wf(),
            n == world@.len(),
            block_size >= 1,
            w == n * block_size,
            w >= 1,
            w * w <= usize::MAX,
            py <= w,
            buffer@.len() == py * w,
            forall|i: int|
                0 <= i < py * w ==> buffer@[i] == pixel_color(
                    world@,
                    block_size as int,
                    alive,
                    dead,
                    i % (w as int),
                    i / (w as int),
                ),
        decreases w - py,
    {
        let mut px: usize = 0;
        proof {
            assert((py + 1) * w <= w * w) by (nonlinear_arith)
                requires
                    py < w,
            ;
            assert(py * w + w == (py + 1) * w) by (nonlinear_arith);
        }
        while px < w
            invariant
                world.wf(),
                n == world@.len(),
                block_size >= 1,
                w == n * block_size,
                w >= 1,
                w * w <= usize::MAX,
                py < w,
                px <= w,
                py * w + w <= w * w,
                buffer@.len() == py * w + px,
                forall|i: int|
                    0 <= i < py * w + px ==> buffer@[i] == pixel_color(
                        world@,
                        block_size as int,
                        alive,
                        dead,
                        i % (w as int),
                        i / (w as int),
                    ),
            decreases w - px,
        {
            let cx = px / block_size;
            let cy = py / block_size;
            let color = if world.is_live(cx, cy) {
                alive
            } else {
                dead
            };
            proof {
                lemma_fundamental_div_mod_converse(
                    (py * w + px) as int,
                    w as int,
                    py as int,
                    px as int,
                );
            }
            buffer.push(color);
            px += 1;
        }
        py += 1;
    }
    proof {
        assert(py * w == w * w) by (nonlinear_arith)
            requires
                py == w,
        ;
        assert(buffer@ =~= render_spec(world@, block_size as int, alive, dead));
    }
}

/// One frame of `world` as a fresh buffer of exactly `(n * block_size)^2`
/// packed-RGB pixels, row-major.
pub fn render(world: &Grid, block_size: usize, palette: &Palette) -> (r: Vec<u32>)
    requires
        world.wf(),
        block_size >= 1,
        (world@.len() * block_size) * (world@.len() * block_size) <= usize::MAX,
    ensures
        r@ == render_spec(world@, block_size as int, palette.alive, palette.dead),
        r@.len() == (world@.len() * block_size) * (world@.len() * block_size),
{
    let mut buffer: Vec<u32> = Vec::new();
    draw_world(&mut buffer, world, block_size, palette.alive, palette.dead);
    buffer
}

/// Law: two frames of the same grid under two palettes mark exactly the
/// same pixels as live; the images differ only in palette.
pub proof fn lemma_palette_swap_keeps_cells(s: Seq<Seq<bool>>, bs: int, p1: Palette, p2: Palette)
    requires
        p1.alive != p1.dead,
        p2.alive != p2.dead,
    ensures
        render_spec(s, bs, p1.alive, p1.dead).len() == render_spec(s, bs, p2.alive, p2.dead).len(),
        forall|i: int|
            0 <= i < render_spec(s, bs, p1.alive, p1.dead).len() ==> ((render_spec(
                s,
                bs,
                p1.alive,
                p1.dead,
            )[i] == p1.alive) <==> (render_spec(s, bs, p2.alive, p2.dead)[i] == p2.alive)),
{
}

} // verus!

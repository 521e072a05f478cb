//! 64x32 monochrome framebuffer with XOR-toggle pixels.

use vstd::prelude::*;

verus! {

/// Pixels per row.
pub const GRID_WIDTH: usize = 64;

/// Number of rows.
pub const GRID_HEIGHT: usize = 32;

/// Total number of pixels.
pub const GRID_SIZE: usize = 2048;

/// Position of pixel `(x, y)` in the flattened grid.
pub open spec fn pixel_index(x: int, y: int) -> int {
    y * GRID_WIDTH + x
}

/// The all-off grid.
pub open spec fn blank_grid() -> Seq<bool> {
    Seq::new(GRID_SIZE as nat, |i: int| false)
}

/// A 64x32 grid of on/off pixels, stored row by row. Pixels are mutated only
/// by XOR toggling or by clearing the whole grid.
pub struct GraphicsBuffer {
    pub pixels: [bool; 2048],
}

impl View for GraphicsBuffer {
    type V = Seq<bool>;

    open spec fn view(&self) -> Seq<bool> {
        self.pixels@
    }
}

impl GraphicsBuffer {
    /// A fresh grid with every pixel off.
    pub fn new() -> (r: GraphicsBuffer)
        ensures
            r@ == blank_grid(),
    {
        let gfx = GraphicsBuffer { pixels: [false; 2048] };
        assert(gfx@ =~= blank_grid());
        gfx
    }

    /// Whether pixel `(x, y)` is on.
    pub fn get(&self, x: u8, y: u8) -> (r: bool)
        requires
            x < GRID_WIDTH,
            y < GRID_HEIGHT,
        ensures
            r == self@[pixel_index(x as int, y as int)],
    {
        self.pixels[y as usize * GRID_WIDTH + x as usize]
    }

    /// Flip pixel `(x, y)`: the XOR primitive underlying all drawing.
    pub fn toggle(&mut self, x: u8, y: u8)
        requires
            x < GRID_WIDTH,
            y < GRID_HEIGHT,
        ensures
            final(self)@ == old(self)@.update(
                pixel_index(x as int, y as int),
                !old(self)@[pixel_index(x as int, y as int)],
            ),
    {
        let idx: usize = y as usize * GRID_WIDTH + x as usize;
        self.pixels[idx] = !self.pixels[idx];
    }

    /// Turn every pixel off: afterwards `get` is false at every coordinate
    /// of the 64x32 grid.
    pub fn clear(&mut self)
        ensures
            final(self)@ == blank_grid(),
            forall|x: int, y: int|
                0 <= x < GRID_WIDTH && 0 <= y < GRID_HEIGHT ==> !final(self)@[pixel_index(x, y)],
    {
        for i in 0..GRID_SIZE
            invariant
                forall|j: int| 0 <= j < i ==> !self.pixels@[j],
        {
            self.pixels[i] = false;
        }
        assert(self@ =~= blank_grid());
        assert(forall|x: int, y: int|
            0 <= x < GRID_WIDTH && 0 <= y < GRID_HEIGHT ==> 0 <= #[trigger] pixel_index(x, y)
                < GRID_SIZE);
    }
}

} // verus!

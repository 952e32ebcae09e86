use vstd::prelude::*;

verus! {

/// The grid of blocks of the city.
#[derive(Clone, Copy, Debug)]
pub struct Grid {
    pub rows: u32,
    pub cols: u32,
}

impl Grid {
    pub fn new(rows: u32, cols: u32) -> (g: Self)
        ensures
            g.rows == rows,
            g.cols == cols,
    {
        Grid { rows, cols }
    }

    /// The number of blocks, `rows * cols`, saturating at `u32::MAX`.
    pub fn size(&self) -> (n: u32)
        ensures
            n == if self.rows * self.cols > u32::MAX { u32::MAX as int } else { self.rows * self.cols },
    {
        proof {
            assert(self.rows * self.cols <= u32::MAX * u32::MAX) by (nonlinear_arith)
                requires
                    self.rows <= u32::MAX,
                    self.cols <= u32::MAX,
            ;
        }
        let wide: u64 = self.rows as u64 * self.cols as u64;
        if wide > u32::MAX as u64 {
            u32::MAX
        } else {
            wide as u32
        }
    }
}

} // verus!

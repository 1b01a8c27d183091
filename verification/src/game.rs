//! A bare cell-grid game shell: it owns a grid of cells and a frame
//! counter, scans each interior cell's neighbourhood once per frame, and
//! leaves rendering and pacing to the layer around it.

use vstd::prelude::*;

use crate::cell_sim::{cell_at, Cell, Material};
use crate::vec2::{vec2, RenderSpace, Vec2};

verus! {

pub struct Game {
    pub cells: Vec<Cell>,
    pub grid_scale: i64,
    pub grid_size: Vec2<i64, RenderSpace>,
    pub max_fps: i64,
    pub frame_count: u64,
    pub running: bool,
}

impl Game {
    pub open spec fn wf(self) -> bool {
        &&& 1 <= self.grid_size.x <= 16384
        &&& 1 <= self.grid_size.y <= 16384
        &&& self.cells@.len() == self.grid_size.x * self.grid_size.y
        &&& 1 <= self.grid_scale
    }

    /// A grid sized from the window divided by the cell scale, every cell
    /// dead.
    pub fn new(window_w: i64, window_h: i64, scale: i64, max_fps: i64) -> (out: Self)
        requires
            1 <= scale <= 64,
            1 <= window_w <= 0x10000000,
            1 <= window_h <= 0x10000000,
            1 <= window_w / scale <= 16384,
            1 <= window_h / scale <= 16384,
        ensures
            out.wf(),
            out.grid_size.x == window_w as int / scale as int,
            out.grid_size.y == window_h as int / scale as int,
            out.grid_scale == scale,
            out.max_fps == max_fps,
            out.running,
            out.frame_count == 0,
            forall|k: int|
                0 <= k < out.cells@.len() ==> (#[trigger] out.cells@[k]).mat == Material::Dead,
    {
        let w = window_w / scale;
        let h = window_h / scale;
        proof {
            assert(0 < (w as int) * (h as int) <= 16384 * 16384) by (nonlinear_arith)
                requires
                    1 <= w <= 16384 && 1 <= h <= 16384,
            ;
        }
        let count: usize = (w * h) as usize;
        let mut cells: Vec<Cell> = Vec::new();
        let mut i: usize = 0;
        while i < count
            invariant
                i <= count,
                cells@.len() == i,
                forall|k: int| 0 <= k < i ==> (#[trigger] cells@[k]).mat == Material::Dead,
            decreases count - i,
        {
            cells.push(Cell { mat: Material::Dead, updated: false, mat_to: Material::Dead });
            i = i + 1;
        }
        Game {
            cells,
            grid_scale: scale,
            grid_size: vec2(w, h),
            max_fps,
            frame_count: 0,
            running: true,
        }
    }

    /// Whether the shell should keep stepping.
    pub fn is_running(&self) -> (out: bool)
        ensures
            out == self.running,
    {
        self.running
    }

    /// The linear index of a grid position.
    pub fn get_index(&self, x: i64, y: i64) -> (out: usize)
        requires
            self.wf(),
            0 <= x < self.grid_size.x,
            0 <= y < self.grid_size.y,
        ensures
            out == y * self.grid_size.x + x,
            out < self.cells@.len(),
    {
        proof {
            assert(0 <= (y as int) * self.grid_size.x && (y as int) * self.grid_size.x + x <= (
            self.grid_size.y - 1) * self.grid_size.x + (self.grid_size.x - 1) && (self.grid_size.y
                - 1) * self.grid_size.x + (self.grid_size.x - 1) < self.grid_size.x
                * self.grid_size.y && self.grid_size.x * self.grid_size.y <= 16384 * 16384)
                by (nonlinear_arith)
                requires
                    0 <= x < self.grid_size.x <= 16384 && 0 <= y < self.grid_size.y <= 16384,
            ;
        }
        (y * self.grid_size.x + x) as usize
    }

    pub fn get_cell(&self, x: i64, y: i64) -> (out: Cell)
        requires
            self.wf(),
            0 <= x < self.grid_size.x,
            0 <= y < self.grid_size.y,
        ensures
            out == cell_at(self.cells@, self.grid_size.x as int, x as int, y as int),
    {
        let idx = self.get_index(x, y);
        self.cells[idx]
    }

    /// Overwrites one cell.
    pub fn set_cell(&mut self, x: i64, y: i64, cell: Cell)
        requires
            old(self).wf(),
            0 <= x < old(self).grid_size.x,
            0 <= y < old(self).grid_size.y,
        ensures
            final(self).wf(),
            final(self).cells@ == old(self).cells@.update(y * old(self).grid_size.x + x, cell),
            final(self).grid_size == old(self).grid_size,
            final(self).running == old(self).running,
            final(self).frame_count == old(self).frame_count,
    {
        let idx = self.get_index(x, y);
        self.cells[idx] = cell;
    }

    /// One frame: scans every interior cell's neighbourhood and advances
    /// the frame counter; the grid itself is left as it is.
    pub fn update(&mut self)
        requires
            old(self).wf(),
        ensures
            final(self).wf(),
            final(self).cells == old(self).cells,
            final(self).grid_size == old(self).grid_size,
            final(self).running == old(self).running,
            final(self).frame_count == old(self).frame_count as int + 1 || final(self).frame_count == 0,
    {
        if !self.running {
            proof {
                assert(self.frame_count == old(self).frame_count);
            }
            self.frame_count = self.frame_count.wrapping_add(1);
            return ;
        }
        let w = self.grid_size.x;
        let h = self.grid_size.y;
        let mut y: i64 = 1;
        while y < h
            invariant
                self.wf(),
                *self == *old(self),
                w == self.grid_size.x,
                h == self.grid_size.y,
                1 <= y <= h || h < 1 && y == 1,
            decreases h - y,
        {
            let mut x: i64 = 1;
            while x < w
                invariant
                    self.wf(),
                    *self == *old(self),
                    w == self.grid_size.x,
                    h == self.grid_size.y,
                    1 <= y < h,
                    1 <= x <= w || w < 1 && x == 1,
                decreases w - x,
            {
                let mut alive_neighbours: i64 = 0;
                if x >= 1 && y >= 1 {
                    if self.get_cell(x - 1, y - 1).mat == Material::Alive {
                        alive_neighbours = alive_neighbours + 1;
                    }
                    if self.get_cell(x - 1, y).mat == Material::Alive {
                        alive_neighbours = alive_neighbours + 1;
                    }
                    if self.get_cell(x, y - 1).mat == Material::Alive {
                        alive_neighbours = alive_neighbours + 1;
                    }
                }
                // The census gates nothing yet: the grid rule is owned by
                // the cell simulation, and this shell only paces frames.
                let _ = alive_neighbours;
                x = x + 1;
            }
            y = y + 1;
        }
        self.frame_count = self.frame_count.wrapping_add(1);
    }
}

} // verus!

//! A cellular-automaton front end over the same pixel-buffer machinery: a
//! grid of cells stepped by the classic two-state neighbourhood rule, with
//! the brush painting cells alive.

use vstd::prelude::*;

use crate::colour::{gray, green, Rgba};
use crate::vec2::{vec2, RenderSpace, Vec2};

verus! {

/// What a cell can hold. `Count` closes the list and is never a cell state.
#[derive(Clone, Copy, Debug, PartialEq, Eq, Structural)]
pub enum Material {
    Dead,
    Alive,
    Count,
}

impl Material {
    /// The colour a cell state shows. `Count` is not a state and has no
    /// colour.
    pub fn get_rgb(self) -> (out: Rgba)
        requires
            self != Material::Count,
        ensures
            self == Material::Dead ==> out == crate::colour::spec_gray(),
            self == Material::Alive ==> out == crate::colour::spec_green(),
    {
        match self {
            Material::Dead => gray(),
            Material::Alive => green(),
            Material::Count => gray(),
        }
    }
}

/// One grid cell: its current state, and the state it changes to at the
/// next commit when `updated` is set.
#[derive(Clone, Copy, Debug, PartialEq, Eq, Structural)]
pub struct Cell {
    pub mat: Material,
    pub updated: bool,
    pub mat_to: Material,
}

/// 1 for a live cell, 0 otherwise.
pub open spec fn alive1(c: Cell) -> int {
    if c.mat == Material::Alive {
        1int
    } else {
        0int
    }
}

/// The cell at column `x`, row `y` of a row-major grid `sx` wide.
pub open spec fn cell_at(s: Seq<Cell>, sx: int, x: int, y: int) -> Cell {
    s[y * sx + x]
}

/// How many of the eight neighbours of `(x, y)` are alive.
pub open spec fn alive_neighbours(s: Seq<Cell>, sx: int, x: int, y: int) -> int {
    alive1(cell_at(s, sx, x - 1, y - 1)) + alive1(cell_at(s, sx, x, y - 1)) + alive1(
        cell_at(s, sx, x + 1, y - 1),
    ) + alive1(cell_at(s, sx, x - 1, y)) + alive1(cell_at(s, sx, x + 1, y)) + alive1(
        cell_at(s, sx, x - 1, y + 1),
    ) + alive1(cell_at(s, sx, x, y + 1)) + alive1(cell_at(s, sx, x + 1, y + 1))
}

/// The neighbourhood rule: a live cell without two or three live
/// neighbours marks itself to die; a dead cell with exactly three marks
/// itself to come alive; every other cell is untouched.
pub open spec fn gol_next(c: Cell, n: int) -> Cell {
    if c.mat == Material::Alive && n != 2 && n != 3 {
        Cell { mat: c.mat, updated: true, mat_to: Material::Dead }
    } else if c.mat == Material::Dead && n == 3 {
        Cell { mat: c.mat, updated: true, mat_to: Material::Alive }
    } else {
        c
    }
}

/// Two row-major positions with in-range columns index the same slot only
/// when they are the same position.
proof fn lemma_index_unique(sx: int, a: int, b: int, x: int, y: int)
    requires
        0 <= a < sx,
        0 <= x < sx,
        b >= 0,
        y >= 0,
        b * sx + a == y * sx + x,
    ensures
        a == x && b == y,
{
    assert(a == x && b == y) by (nonlinear_arith)
        requires
            0 <= a < sx && 0 <= x < sx && b >= 0 && y >= 0 && b * sx + a == y * sx + x,
    ;
}

/// A row-major position indexes inside the grid.
proof fn lemma_index_bound(sx: int, sy: int, x: int, y: int)
    requires
        0 <= x < sx <= 16384,
        0 <= y < sy <= 16384,
    ensures
        0 <= y * sx + x < sx * sy,
        sx * sy <= 0x10000000,
{
    assert(0 <= y * sx && y * sx + x <= (sy - 1) * sx + (sx - 1) && (sy - 1) * sx + (sx - 1) < sx
        * sy && sx * sy <= 16384 * 16384) by (nonlinear_arith)
        requires
            0 <= x < sx <= 16384 && 0 <= y < sy <= 16384,
    ;
}

pub struct CellSim {
    pub state: crate::gravity_sim::FrontendState,
    pub prev_state: crate::gravity_sim::FrontendState,
    pub window_size: Vec2<i64, crate::vec2::ScreenSpace>,
    pub sim_size: Vec2<i64, RenderSpace>,
    pub sim_buf: Vec<Cell>,
    pub buf: Vec<u8>,
}

impl CellSim {
    pub open spec fn wf(self) -> bool {
        &&& self.state.wf()
        &&& self.prev_state.wf()
        &&& 3 <= self.sim_size.x <= 16384
        &&& 3 <= self.sim_size.y <= 16384
        &&& self.sim_buf.len() == self.sim_size.x * self.sim_size.y
        &&& self.buf.len() == 4 * self.sim_size.x * self.sim_size.y
        &&& self.window_size.abs_le(0x10000000int)
        &&& forall|k: int|
            0 <= k < self.sim_buf@.len() ==> (#[trigger] self.sim_buf@[k]).mat != Material::Count
                && self.sim_buf@[k].mat_to != Material::Count
    }

    /// The linear index of a grid position.
    pub fn get_index(&self, pos: Vec2<i64, RenderSpace>) -> (out: usize)
        requires
            self.wf(),
            0 <= pos.x < self.sim_size.x,
            0 <= pos.y < self.sim_size.y,
        ensures
            out == pos.y * self.sim_size.x + pos.x,
            out < self.sim_buf.len(),
    {
        proof {
            lemma_index_bound(self.sim_size.x as int, self.sim_size.y as int, pos.x as int,
                pos.y as int);
        }
        (pos.y * self.sim_size.x + pos.x) as usize
    }

    /// The byte index of a grid position in the RGBA buffer.
    pub fn get_index_texture(&self, pos: Vec2<i64, RenderSpace>) -> (out: usize)
        requires
            self.wf(),
            0 <= pos.x < self.sim_size.x,
            0 <= pos.y < self.sim_size.y,
        ensures
            out == 4 * (pos.y * self.sim_size.x + pos.x),
            out + 3 < self.buf.len(),
    {
        proof {
            lemma_index_bound(self.sim_size.x as int, self.sim_size.y as int, pos.x as int,
                pos.y as int);
            assert(4 * ((pos.y as int) * self.sim_size.x + pos.x) + 3 < 4 * (self.sim_size.x
                * self.sim_size.y) && 4 * ((self.sim_size.x as int) * self.sim_size.y) == 4
                * self.sim_size.x * self.sim_size.y) by (nonlinear_arith)
                requires
                    0 <= (pos.y as int) * self.sim_size.x + pos.x < self.sim_size.x
                        * self.sim_size.y,
            ;
        }
        (4 * (pos.y * self.sim_size.x + pos.x)) as usize
    }

    /// Whether a position misses the grid. Negative positions are the
    /// caller's error and excluded by precondition throughout.
    pub fn out_of_bounds(&self, pos: Vec2<i64, RenderSpace>) -> (out: bool)
        ensures
            out == (pos.x >= self.sim_size.x || pos.y >= self.sim_size.y),
    {
        pos.x >= self.sim_size.x || pos.y >= self.sim_size.y
    }

    pub fn get_cell(&self, pos: Vec2<i64, RenderSpace>) -> (out: Cell)
        requires
            self.wf(),
            0 <= pos.x < self.sim_size.x,
            0 <= pos.y < self.sim_size.y,
        ensures
            out == cell_at(self.sim_buf@, self.sim_size.x as int, pos.x as int, pos.y as int),
    {
        let idx = self.get_index(pos);
        self.sim_buf[idx]
    }

    /// Overwrites one cell's state and its pixel, clearing its change flag.
    pub fn update_cell(&mut self, pos: Vec2<i64, RenderSpace>, mat: Material)
        requires
            old(self).wf(),
            0 <= pos.x < old(self).sim_size.x,
            0 <= pos.y < old(self).sim_size.y,
            mat != Material::Count,
        ensures
            final(self).wf(),
            final(self).sim_buf@ == old(self).sim_buf@.update(
                pos.y * old(self).sim_size.x + pos.x,
                Cell { mat, updated: false, mat_to: mat },
            ),
            final(self).sim_size == old(self).sim_size,
            final(self).state == old(self).state,
            final(self).prev_state == old(self).prev_state,
            final(self).buf.len() == old(self).buf.len(),
            final(self).window_size == old(self).window_size,
    {
        let idx = self.get_index(pos);
        self.sim_buf[idx] = Cell { mat, updated: false, mat_to: mat };
        self.update_rgba(pos, mat);
    }

    /// Writes a cell state's colour channels at its pixel; the alpha byte
    /// keeps its value.
    pub fn update_rgba(&mut self, pos: Vec2<i64, RenderSpace>, mat: Material)
        requires
            old(self).wf(),
            0 <= pos.x < old(self).sim_size.x,
            0 <= pos.y < old(self).sim_size.y,
            mat != Material::Count,
        ensures
            final(self).wf(),
            final(self).sim_buf == old(self).sim_buf,
            final(self).sim_size == old(self).sim_size,
            final(self).state == old(self).state,
            final(self).prev_state == old(self).prev_state,
            final(self).buf.len() == old(self).buf.len(),
            final(self).window_size == old(self).window_size,
    {
        let rgba = mat.get_rgb();
        let index = self.get_index_texture(pos);
        self.buf[index] = rgba.r;
        self.buf[index + 1] = rgba.g;
        self.buf[index + 2] = rgba.b;
    }

    /// Kills every cell.
    pub fn clear_sim(&mut self)
        requires
            old(self).wf(),
        ensures
            final(self).wf(),
            final(self).sim_size == old(self).sim_size,
            final(self).sim_buf.len() == old(self).sim_buf.len(),
            final(self).state == old(self).state,
            final(self).prev_state == old(self).prev_state,
            forall|k: int|
                0 <= k < final(self).sim_buf@.len() ==> (#[trigger] final(self).sim_buf@[k]).mat
                    == Material::Dead,
    {
        let ghost pre = *self;
        let sy = self.sim_size.y;
        let sx = self.sim_size.x;
        let mut y: i64 = 0;
        while y < sy
            invariant
                self.wf(),
                self.sim_size == pre.sim_size,
                self.state == pre.state,
                self.prev_state == pre.prev_state,
                sx == self.sim_size.x,
                sy == self.sim_size.y,
                0 <= y <= sy,
                forall|k: int|
                    0 <= k < y * sx ==> (#[trigger] self.sim_buf@[k]).mat == Material::Dead,
            decreases sy - y,
        {
            let mut x: i64 = 0;
            while x < sx
                invariant
                    self.wf(),
                    self.sim_size == pre.sim_size,
                    self.state == pre.state,
                    self.prev_state == pre.prev_state,
                    sx == self.sim_size.x,
                    sy == self.sim_size.y,
                    0 <= y < sy,
                    0 <= x <= sx,
                    forall|k: int|
                        0 <= k < y * sx + x ==> (#[trigger] self.sim_buf@[k]).mat
                            == Material::Dead,
                decreases sx - x,
            {
                proof {
                    lemma_index_bound(sx as int, sy as int, x as int, y as int);
                }
                self.update_cell(vec2(x, y), Material::Dead);
                x = x + 1;
            }
            proof {
                assert((y + 1) * sx == y * sx + sx) by (nonlinear_arith);
            }
            y = y + 1;
        }
        proof {
            assert forall|k: int|
                0 <= k < self.sim_buf@.len() implies (#[trigger] self.sim_buf@[k]).mat
                == Material::Dead by {
                assert(self.sim_buf@.len() == sx * sy && (sy as int) * (sx as int) == sx * sy)
                    by (nonlinear_arith)
                    requires
                        self.sim_buf@.len() == self.sim_size.x * self.sim_size.y && sx
                            == self.sim_size.x && sy == self.sim_size.y,
                ;
            }
        }
    }
}

/// `(x, y)` has a full neighbourhood inside the grid.
pub open spec fn interior(sx: int, sy: int, x: int, y: int) -> bool {
    1 <= x < sx - 1 && 1 <= y < sy - 1
}

impl CellSim {
    /// Counts the live neighbours of an interior cell; the current states
    /// agree with the pass's starting states because the rule never touches
    /// a cell's current state.
    #[verifier::rlimit(100)]
    fn count_neighbours(&self, x: i64, y: i64, Ghost(s0): Ghost<Seq<Cell>>) -> (n: i64)
        requires
            self.wf(),
            1 <= x < self.sim_size.x - 1,
            1 <= y < self.sim_size.y - 1,
            s0.len() == self.sim_buf@.len(),
            forall|a: int, b: int|
                0 <= a < self.sim_size.x && 0 <= b < self.sim_size.y ==> (#[trigger] cell_at(
                    self.sim_buf@,
                    self.sim_size.x as int,
                    a,
                    b,
                )).mat == cell_at(s0, self.sim_size.x as int, a, b).mat,
        ensures
            n == alive_neighbours(s0, self.sim_size.x as int, x as int, y as int),
    {
        let mut neighbours: i64 = 0;
        if self.get_cell(vec2(x - 1, y - 1)).mat == Material::Alive {
            neighbours = neighbours + 1;
        }
        if self.get_cell(vec2(x, y - 1)).mat == Material::Alive {
            neighbours = neighbours + 1;
        }
        if self.get_cell(vec2(x + 1, y - 1)).mat == Material::Alive {
            neighbours = neighbours + 1;
        }
        if self.get_cell(vec2(x - 1, y)).mat == Material::Alive {
            neighbours = neighbours + 1;
        }
        if self.get_cell(vec2(x + 1, y)).mat == Material::Alive {
            neighbours = neighbours + 1;
        }
        if self.get_cell(vec2(x - 1, y + 1)).mat == Material::Alive {
            neighbours = neighbours + 1;
        }
        if self.get_cell(vec2(x, y + 1)).mat == Material::Alive {
            neighbours = neighbours + 1;
        }
        if self.get_cell(vec2(x + 1, y + 1)).mat == Material::Alive {
            neighbours = neighbours + 1;
        }
        neighbours
    }

    /// Marks one interior cell by the rule, leaving every other cell alone.
    #[verifier::rlimit(100)]
    fn gol_step_cell(&mut self, x: i64, y: i64, Ghost(s0): Ghost<Seq<Cell>>)
        requires
            old(self).wf(),
            1 <= x < old(self).sim_size.x - 1,
            1 <= y < old(self).sim_size.y - 1,
            s0.len() == old(self).sim_buf@.len(),
            forall|a: int, b: int|
                0 <= a < old(self).sim_size.x && 0 <= b < old(self).sim_size.y
                    ==> #[trigger] cell_at(old(self).sim_buf@, old(self).sim_size.x as int, a, b)
                    == (if interior(old(self).sim_size.x as int, old(self).sim_size.y as int, a, b)
                    && (b < y || b == y && a < x) {
                    gol_next(
                        cell_at(s0, old(self).sim_size.x as int, a, b),
                        alive_neighbours(s0, old(self).sim_size.x as int, a, b),
                    )
                } else {
                    cell_at(s0, old(self).sim_size.x as int, a, b)
                }),
        ensures
            final(self).wf(),
            final(self).sim_size == old(self).sim_size,
            final(self).state == old(self).state,
            final(self).prev_state == old(self).prev_state,
            final(self).buf == old(self).buf,
            final(self).window_size == old(self).window_size,
            final(self).sim_buf@.len() == old(self).sim_buf@.len(),
            forall|a: int, b: int|
                0 <= a < old(self).sim_size.x && 0 <= b < old(self).sim_size.y
                    ==> #[trigger] cell_at(final(self).sim_buf@, old(self).sim_size.x as int, a, b)
                    == (if interior(old(self).sim_size.x as int, old(self).sim_size.y as int, a, b)
                    && (b < y || b == y && a < x + 1) {
                    gol_next(
                        cell_at(s0, old(self).sim_size.x as int, a, b),
                        alive_neighbours(s0, old(self).sim_size.x as int, a, b),
                    )
                } else {
                    cell_at(s0, old(self).sim_size.x as int, a, b)
                }),
    {
        let sx = self.sim_size.x;
        let sy = self.sim_size.y;
        let neighbours = self.count_neighbours(x, y, Ghost(s0));
        let c = self.get_cell(vec2(x, y));
        let idx = self.get_index(vec2(x, y));
        let ghost before = self.sim_buf@;
        if c.mat == Material::Alive && neighbours != 2 && neighbours != 3 {
            self.sim_buf[idx] = Cell { mat: c.mat, updated: true, mat_to: Material::Dead };
        } else if c.mat == Material::Dead && neighbours == 3 {
            self.sim_buf[idx] = Cell { mat: c.mat, updated: true, mat_to: Material::Alive };
        }
        proof {
            assert forall|a: int, b: int| 0 <= a < sx && 0 <= b < sy implies #[trigger] cell_at(
                self.sim_buf@,
                sx as int,
                a,
                b,
            ) == (if interior(sx as int, sy as int, a, b) && (b < y || b == y && a < x + 1) {
                gol_next(cell_at(s0, sx as int, a, b), alive_neighbours(s0, sx as int, a, b))
            } else {
                cell_at(s0, sx as int, a, b)
            }) by {
                if a == x && b == y {
                    lemma_index_bound(sx as int, sy as int, a, b);
                } else {
                    lemma_index_bound(sx as int, sy as int, a, b);
                    lemma_index_bound(sx as int, sy as int, x as int, y as int);
                    if b * sx + a == y * sx + x {
                        lemma_index_unique(sx as int, a, b, x as int, y as int);
                    }
                    assert(cell_at(self.sim_buf@, sx as int, a, b) == cell_at(
                        before,
                        sx as int,
                        a,
                        b,
                    ));
                }
            }
        }
    }
}

impl CellSim {
    /// One automaton step: every interior cell with a full neighbourhood
    /// marks its next state by the rule; border cells and every cell's
    /// current state are untouched. The marks are committed by `update`.
    pub fn update_gol(&mut self)
        requires
            old(self).wf(),
        ensures
            final(self).wf(),
            final(self).sim_size == old(self).sim_size,
            final(self).state == old(self).state,
            final(self).prev_state == old(self).prev_state,
            final(self).buf == old(self).buf,
            final(self).sim_buf@.len() == old(self).sim_buf@.len(),
            forall|a: int, b: int|
                0 <= a < old(self).sim_size.x && 0 <= b < old(self).sim_size.y
                    ==> #[trigger] cell_at(final(self).sim_buf@, old(self).sim_size.x as int, a, b)
                    == (if interior(old(self).sim_size.x as int, old(self).sim_size.y as int, a, b) {
                    gol_next(
                        cell_at(old(self).sim_buf@, old(self).sim_size.x as int, a, b),
                        alive_neighbours(old(self).sim_buf@, old(self).sim_size.x as int, a, b),
                    )
                } else {
                    cell_at(old(self).sim_buf@, old(self).sim_size.x as int, a, b)
                }),
    {
        let sx = self.sim_size.x;
        let sy = self.sim_size.y;
        let ghost s0 = old(self).sim_buf@;
        let mut y: i64 = 1;
        while y < sy - 1
            invariant
                self.wf(),
                sx == self.sim_size.x,
                sy == self.sim_size.y,
                self.sim_size == old(self).sim_size,
                self.state == old(self).state,
                self.prev_state == old(self).prev_state,
                self.buf == old(self).buf,
                self.window_size == old(self).window_size,
                self.sim_buf@.len() == s0.len(),
                s0.len() == old(self).sim_buf@.len(),
                s0 == old(self).sim_buf@,
                1 <= y <= sy - 1,
                forall|a: int, b: int|
                    0 <= a < sx && 0 <= b < sy ==> #[trigger] cell_at(self.sim_buf@, sx as int, a, b)
                        == (if interior(sx as int, sy as int, a, b) && b < y {
                        gol_next(
                            cell_at(s0, sx as int, a, b),
                            alive_neighbours(s0, sx as int, a, b),
                        )
                    } else {
                        cell_at(s0, sx as int, a, b)
                    }),
            decreases sy - y,
        {
            let mut x: i64 = 1;
            while x < sx - 1
                invariant
                    self.wf(),
                    sx == self.sim_size.x,
                    sy == self.sim_size.y,
                    self.sim_size == old(self).sim_size,
                    self.state == old(self).state,
                    self.prev_state == old(self).prev_state,
                    self.buf == old(self).buf,
                    self.window_size == old(self).window_size,
                    self.sim_buf@.len() == s0.len(),
                    s0.len() == old(self).sim_buf@.len(),
                    s0 == old(self).sim_buf@,
                    1 <= y < sy - 1,
                    1 <= x <= sx - 1,
                    forall|a: int, b: int|
                        0 <= a < sx && 0 <= b < sy ==> #[trigger] cell_at(
                            self.sim_buf@,
                            sx as int,
                            a,
                            b,
                        ) == (if interior(sx as int, sy as int, a, b) && (b < y || b == y && a
                            < x) {
                            gol_next(
                                cell_at(s0, sx as int, a, b),
                                alive_neighbours(s0, sx as int, a, b),
                            )
                        } else {
                            cell_at(s0, sx as int, a, b)
                        }),
                decreases sx - x,
            {
                self.gol_step_cell(x, y, Ghost(s0));
                x = x + 1;
            }
            y = y + 1;
        }
    }
}

impl CellSim {
    /// A fresh grid: every cell dead, the buffer showing the background.
    pub fn new(window: Vec2<i64, crate::vec2::ScreenSpace>, scale: i64) -> (out: Self)
        requires
            1 <= scale <= 64,
            1 <= window.x <= 0x10000000,
            1 <= window.y <= 0x10000000,
            3 <= window.x / scale <= 16384,
            3 <= window.y / scale <= 16384,
        ensures
            out.wf(),
            out.sim_size.x == window.x as int / scale as int,
            out.sim_size.y == window.y as int / scale as int,
            out.state.scale == scale,
            out.state.running == false,
            forall|k: int|
                0 <= k < out.sim_buf@.len() ==> (#[trigger] out.sim_buf@[k]).mat
                    == Material::Dead,
    {
        let sx = window.x / scale;
        let sy = window.y / scale;
        proof {
            assert((sx as int) * (sy as int) <= 16384 * 16384 && 0 < (sx as int) * (sy as int))
                by (nonlinear_arith)
                requires
                    3 <= sx <= 16384 && 3 <= sy <= 16384,
            ;
        }
        let count: usize = (sx * sy) as usize;
        let mut sim_buf: Vec<Cell> = Vec::new();
        let mut i: usize = 0;
        while i < count
            invariant
                i <= count,
                sim_buf@.len() == i,
                forall|k: int|
                    0 <= k < i ==> sim_buf@[k] == (Cell {
                        mat: Material::Dead,
                        updated: false,
                        mat_to: Material::Alive,
                    }),
            decreases count - i,
        {
            sim_buf.push(Cell { mat: Material::Dead, updated: false, mat_to: Material::Alive });
            i = i + 1;
        }
        let mut buf: Vec<u8> = Vec::new();
        let mut j: usize = 0;
        while j < count
            invariant
                j <= count,
                buf@.len() == 4 * j,
            decreases count - j,
        {
            buf.push(44);
            buf.push(44);
            buf.push(44);
            buf.push(255);
            j = j + 1;
        }
        let state = crate::gravity_sim::FrontendState {
            frame: 0,
            draw_size: 8,
            draw_shape: crate::raster::Shape::CircleFill,
            scale,
            running: false,
            step_sim: false,
            mouse: vec2(0, 0),
        };
        proof {
            assert(4 * ((sx as int) * sy) == 4 * sx * sy && (sx as int) * sy == sx * sy)
                by (nonlinear_arith);
        }
        CellSim {
            state,
            prev_state: state,
            window_size: window.cast_unit(),
            sim_size: vec2(sx, sy),
            sim_buf,
            buf,
        }
    }

    /// Adopts a new window size: cells inside both the old and the new grid
    /// keep their state, newly exposed cells start dead, and the pixels are
    /// redrawn from the cells.
    pub fn resize_sim(&mut self, window_size: Vec2<i64, crate::vec2::ScreenSpace>)
        requires
            old(self).wf(),
            1 <= window_size.x <= 0x10000000,
            1 <= window_size.y <= 0x10000000,
            3 <= window_size.x / old(self).state.scale <= 16384,
            3 <= window_size.y / old(self).state.scale <= 16384,
        ensures
            final(self).wf(),
            final(self).sim_size.x == window_size.x as int / old(self).state.scale as int,
            final(self).sim_size.y == window_size.y as int / old(self).state.scale as int,
            final(self).state == old(self).state,
            old(self).sim_size.x == window_size.x as int / old(self).state.scale as int && old(self).sim_size.y == window_size.y as int / old(self).state.scale as int ==> *final(self) == *old(self),
    {
        let sx = window_size.x / self.state.scale;
        let sy = window_size.y / self.state.scale;
        if sx == self.sim_size.x && sy == self.sim_size.y {
            return ;
        }
        proof {
            assert((sx as int) * (sy as int) <= 16384 * 16384 && 0 < (sx as int) * (sy as int)
                && 4 * ((sx as int) * sy) == 4 * sx * sy) by (nonlinear_arith)
                requires
                    3 <= sx <= 16384 && 3 <= sy <= 16384,
            ;
        }
        let mut new_buf: Vec<Cell> = Vec::new();
        let mut y: i64 = 0;
        while y < sy
            invariant
                self.wf(),
                *self == *old(self),
                3 <= sx <= 16384,
                3 <= sy <= 16384,
                0 <= y <= sy,
                new_buf@.len() == y * sx,
                forall|k: int|
                    0 <= k < new_buf@.len() ==> (#[trigger] new_buf@[k]).mat != Material::Count
                        && new_buf@[k].mat_to != Material::Count,
            decreases sy - y,
        {
            let mut x: i64 = 0;
            while x < sx
                invariant
                    self.wf(),
                    *self == *old(self),
                    3 <= sx <= 16384,
                    3 <= sy <= 16384,
                    0 <= y < sy,
                    0 <= x <= sx,
                    new_buf@.len() == y * sx + x,
                    forall|k: int|
                        0 <= k < new_buf@.len() ==> (#[trigger] new_buf@[k]).mat
                            != Material::Count && new_buf@[k].mat_to != Material::Count,
                decreases sx - x,
            {
                if x < self.sim_size.x && y < self.sim_size.y {
                    let c = self.get_cell(vec2(x, y));
                    proof {
                        lemma_index_bound(self.sim_size.x as int, self.sim_size.y as int,
                            x as int, y as int);
                        assert(self.sim_buf@[(y as int) * self.sim_size.x + x].mat
                            != Material::Count && self.sim_buf@[(y as int) * self.sim_size.x
                            + x].mat_to != Material::Count);
                    }
                    new_buf.push(c);
                } else {
                    new_buf.push(
                        Cell { mat: Material::Dead, updated: false, mat_to: Material::Dead },
                    );
                }
                x = x + 1;
            }
            proof {
                assert((y + 1) * sx == y * sx + sx) by (nonlinear_arith);
            }
            y = y + 1;
        }
        let mut pix: Vec<u8> = Vec::new();
        let count: usize = (sx * sy) as usize;
        let mut j: usize = 0;
        while j < count
            invariant
                j <= count,
                pix@.len() == 4 * j,
            decreases count - j,
        {
            pix.push(44);
            pix.push(44);
            pix.push(44);
            pix.push(255);
            j = j + 1;
        }
        proof {
            assert(new_buf@.len() == (sy as int) * sx && (sy as int) * sx == sx * sy && 4 * ((
            sx as int) * sy) == 4 * sx * sy) by (nonlinear_arith)
                requires
                    new_buf@.len() == (sy as int) * sx,
            ;
        }
        self.window_size = window_size.cast_unit();
        self.sim_size = vec2(sx, sy);
        self.sim_buf = new_buf;
        self.buf = pix;
        self.redraw_cells();
    }

    /// Changes the scale, rebuilding the grid when the size changes.
    pub fn rescale_sim(&mut self, scale: i64)
        requires
            old(self).wf(),
            1 <= scale <= 64,
            1 <= old(self).window_size.x <= 0x10000000,
            1 <= old(self).window_size.y <= 0x10000000,
            3 <= old(self).window_size.x / scale <= 16384,
            3 <= old(self).window_size.y / scale <= 16384,
        ensures
            final(self).wf(),
            final(self).state.scale == scale,
    {
        self.state.scale = scale;
        let ws: Vec2<i64, crate::vec2::ScreenSpace> = vec2(self.window_size.x, self.window_size.y);
        self.resize_sim(ws);
    }

    /// Repaints every pixel from its cell's state.
    fn redraw_cells(&mut self)
        requires
            old(self).wf(),
        ensures
            final(self).wf(),
            final(self).sim_buf == old(self).sim_buf,
            final(self).sim_size == old(self).sim_size,
            final(self).state == old(self).state,
            final(self).prev_state == old(self).prev_state,
    {
        let sx = self.sim_size.x;
        let sy = self.sim_size.y;
        let mut y: i64 = 0;
        while y < sy
            invariant
                self.wf(),
                self.sim_buf == old(self).sim_buf,
                self.sim_size == old(self).sim_size,
                self.state == old(self).state,
                self.prev_state == old(self).prev_state,
                self.window_size == old(self).window_size,
                sx == self.sim_size.x,
                sy == self.sim_size.y,
                0 <= y <= sy,
            decreases sy - y,
        {
            let mut x: i64 = 0;
            while x < sx
                invariant
                    self.wf(),
                    self.sim_buf == old(self).sim_buf,
                    self.sim_size == old(self).sim_size,
                    self.state == old(self).state,
                    self.prev_state == old(self).prev_state,
                    self.window_size == old(self).window_size,
                    sx == self.sim_size.x,
                    sy == self.sim_size.y,
                    0 <= y < sy,
                    0 <= x <= sx,
                decreases sx - x,
            {
                let c = self.get_cell(vec2(x, y));
                proof {
                    lemma_index_bound(sx as int, sy as int, x as int, y as int);
                }
                self.update_rgba(vec2(x, y), c.mat);
                x = x + 1;
            }
            y = y + 1;
        }
    }

    /// Paints the brush at a window position: every covered cell marks
    /// itself to come alive at the next commit.
    pub fn draw_pressed(&mut self, pos: Vec2<i64, crate::vec2::ScreenSpace>)
        requires
            old(self).wf(),
            pos.abs_le(0x10000000int),
        ensures
            final(self).wf(),
            final(self).sim_size == old(self).sim_size,
            final(self).state == old(self).state,
            final(self).prev_state == old(self).prev_state,
    {
        let cx = crate::intmath::div_i64(pos.x, self.state.scale);
        let cy = crate::intmath::div_i64(pos.y, self.state.scale);
        proof {
            crate::intmath::lemma_div_towards_zero_bound(pos.x as int, self.state.scale as int);
            crate::intmath::lemma_div_towards_zero_bound(pos.y as int, self.state.scale as int);
        }
        let offsets = self.state.draw_shape.draw(self.state.draw_size);
        let ghost pre = *self;
        let mut k: usize = 0;
        while k < offsets.len()
            invariant
                self.wf(),
                -0x10000000 <= cx <= 0x10000000,
                -0x10000000 <= cy <= 0x10000000,
                crate::raster::offsets_within(offsets@, crate::gravity_sim::MAX_DRAW_SIZE as int),
                self.sim_size == pre.sim_size,
                self.state == pre.state,
                self.prev_state == pre.prev_state,
                self.window_size == pre.window_size,
                self.buf.len() == pre.buf.len(),
            decreases offsets.len() - k,
        {
            let off = offsets[k];
            let tx = crate::intmath::clamp_i64(cx + off.0, 0, self.sim_size.x - 1);
            let ty = crate::intmath::clamp_i64(cy + off.1, 0, self.sim_size.y - 1);
            let idx = self.get_index(vec2(tx, ty));
            let c = self.sim_buf[idx];
            self.sim_buf[idx] = Cell { mat: c.mat, updated: true, mat_to: Material::Alive };
            k = k + 1;
        }
    }

    /// Paints the brush while the button is held.
    pub fn draw_held(&mut self, pos: Vec2<i64, crate::vec2::ScreenSpace>)
        requires
            old(self).wf(),
            pos.abs_le(0x10000000int),
        ensures
            final(self).wf(),
            final(self).sim_size == old(self).sim_size,
            final(self).state == old(self).state,
            final(self).prev_state == old(self).prev_state,
    {
        self.draw_pressed(pos);
    }

    /// One frame: when running or single-stepping, mark the next states and
    /// commit every marked interior cell; then retire the frame state.
    pub fn update(&mut self)
        requires
            old(self).wf(),
        ensures
            final(self).wf(),
            final(self).state.step_sim == false,
            final(self).prev_state.frame == old(self).state.frame,
            final(self).state.frame == old(self).state.frame as int + 1 || final(self).state.frame
                == 0,
    {
        if self.state.running || self.state.step_sim {
            self.update_gol();
        }
        let sx = self.sim_size.x;
        let sy = self.sim_size.y;
        let mut y: i64 = 1;
        while y < sy - 1
            invariant
                self.wf(),
                sx == self.sim_size.x,
                sy == self.sim_size.y,
                self.state == old(self).state,
                self.prev_state == old(self).prev_state,
                1 <= y <= sy - 1,
            decreases sy - y,
        {
            let mut x: i64 = 1;
            while x < sx - 1
                invariant
                    self.wf(),
                    sx == self.sim_size.x,
                    sy == self.sim_size.y,
                    self.state == old(self).state,
                    self.prev_state == old(self).prev_state,
                    1 <= y < sy - 1,
                    1 <= x <= sx - 1,
                decreases sx - x,
            {
                let c = self.get_cell(vec2(x, y));
                proof {
                    lemma_index_bound(sx as int, sy as int, x as int, y as int);
                    assert(self.sim_buf@[(y as int) * sx + x].mat_to != Material::Count);
                }
                if c.updated {
                    self.update_cell(vec2(x, y), c.mat_to);
                }
                x = x + 1;
            }
            y = y + 1;
        }
        self.prev_state = self.state;
        self.state.step_sim = false;
        self.state.frame = self.state.frame.wrapping_add(1);
    }
}

/// The frame a renderer reads from the cell grid.
pub struct CellSimData<'a> {
    pub buf: &'a Vec<u8>,
    pub size: Vec2<i64, RenderSpace>,
    pub frame: u64,
}

impl CellSim {
    /// The finished frame for upload.
    pub fn get_sim_data(&self) -> (out: CellSimData<'_>)
        ensures
            out.buf@ == self.buf@,
            out.size == self.sim_size,
            out.frame == self.state.frame,
    {
        CellSimData { buf: &self.buf, size: self.sim_size, frame: self.state.frame }
    }

    pub fn get_scale(&self) -> (out: i64)
        ensures
            out == self.state.scale,
    {
        self.state.scale
    }

    /// Draws the brush outline at the cursor without touching the cells.
    pub fn render_mouse_outline(&mut self, colour: crate::colour::Rgba)
        requires
            old(self).wf(),
        ensures
            final(self).wf(),
            final(self).sim_buf == old(self).sim_buf,
            final(self).sim_size == old(self).sim_size,
            final(self).state == old(self).state,
            final(self).prev_state == old(self).prev_state,
    {
        let mx = crate::intmath::div_i64(self.state.mouse.x, self.state.scale);
        let my = crate::intmath::div_i64(self.state.mouse.y, self.state.scale);
        proof {
            crate::intmath::lemma_div_towards_zero_bound(self.state.mouse.x as int,
                self.state.scale as int);
            crate::intmath::lemma_div_towards_zero_bound(self.state.mouse.y as int,
                self.state.scale as int);
        }
        let offsets = self.state.draw_shape.draw(self.state.draw_size);
        let ghost pre = *self;
        let mut k: usize = 0;
        while k < offsets.len()
            invariant
                self.wf(),
                -0x10000000 <= mx <= 0x10000000,
                -0x10000000 <= my <= 0x10000000,
                crate::raster::offsets_within(offsets@, crate::gravity_sim::MAX_DRAW_SIZE as int),
                self.sim_buf == pre.sim_buf,
                self.sim_size == pre.sim_size,
                self.state == pre.state,
                self.prev_state == pre.prev_state,
                self.window_size == pre.window_size,
                self.buf.len() == pre.buf.len(),
            decreases offsets.len() - k,
        {
            let off = offsets[k];
            let tx = crate::intmath::clamp_i64(mx + off.0, 0, self.sim_size.x - 1);
            let ty = crate::intmath::clamp_i64(my + off.1, 0, self.sim_size.y - 1);
            let index = self.get_index_texture(vec2(tx, ty));
            self.buf[index] = colour.r;
            self.buf[index + 1] = colour.g;
            self.buf[index + 2] = colour.b;
            self.buf[index + 3] = colour.a;
            k = k + 1;
        }
    }

    /// Restores the pixels the previous frame's brush outline covered:
    /// wherever the outline colour still shows, the cell's own colour is
    /// painted back.
    pub fn clear_last_mouse_outline(&mut self, colour: crate::colour::Rgba)
        requires
            old(self).wf(),
        ensures
            final(self).wf(),
            final(self).sim_buf == old(self).sim_buf,
            final(self).sim_size == old(self).sim_size,
            final(self).state == old(self).state,
            final(self).prev_state == old(self).prev_state,
    {
        let mx = crate::intmath::div_i64(self.prev_state.mouse.x, self.prev_state.scale);
        let my = crate::intmath::div_i64(self.prev_state.mouse.y, self.prev_state.scale);
        proof {
            crate::intmath::lemma_div_towards_zero_bound(self.prev_state.mouse.x as int,
                self.prev_state.scale as int);
            crate::intmath::lemma_div_towards_zero_bound(self.prev_state.mouse.y as int,
                self.prev_state.scale as int);
        }
        let offsets = self.prev_state.draw_shape.draw(self.prev_state.draw_size);
        let ghost pre = *self;
        let mut k: usize = 0;
        while k < offsets.len()
            invariant
                self.wf(),
                -0x10000000 <= mx <= 0x10000000,
                -0x10000000 <= my <= 0x10000000,
                crate::raster::offsets_within(offsets@, crate::gravity_sim::MAX_DRAW_SIZE as int),
                self.sim_buf == pre.sim_buf,
                self.sim_size == pre.sim_size,
                self.state == pre.state,
                self.prev_state == pre.prev_state,
                self.window_size == pre.window_size,
                self.buf.len() == pre.buf.len(),
            decreases offsets.len() - k,
        {
            let off = offsets[k];
            let tx = crate::intmath::clamp_i64(mx + off.0, 0, self.sim_size.x - 1);
            let ty = crate::intmath::clamp_i64(my + off.1, 0, self.sim_size.y - 1);
            let index = self.get_index_texture(vec2(tx, ty));
            let covered = self.buf[index] == colour.r && self.buf[index + 1] == colour.g
                && self.buf[index + 2] == colour.b && self.buf[index + 3] == colour.a;
            if covered {
                let c = self.get_cell(vec2(tx, ty));
                proof {
                    lemma_index_bound(self.sim_size.x as int, self.sim_size.y as int, tx as int,
                        ty as int);
                    assert(self.sim_buf@[(ty as int) * self.sim_size.x + tx].mat
                        != Material::Count);
                }
                self.update_rgba(vec2(tx, ty), c.mat);
            }
            k = k + 1;
        }
    }

    /// Digests one frame of input: the brush paints while the button is
    /// down, the pause, step, clear and brush keys act, and the cursor
    /// position is remembered for the overlay.
    pub fn handle_inputs(&mut self, inputs: &crate::inputs::InputData)
        requires
            old(self).wf(),
            inputs.wf(),
            inputs.mouse_released.time_ms >= inputs.mouse_pressed.time_ms,
        ensures
            final(self).wf(),
            final(self).state.running == (if inputs.key_space_pressed {
                !old(self).state.running
            } else {
                old(self).state.running
            }),
            final(self).state.step_sim == (inputs.key_right_pressed && !final(self).state.running),
            final(self).state.mouse.x == inputs.mouse_pos.x && final(self).state.mouse.y
                == inputs.mouse_pos.y,
    {
        self.state.mouse = inputs.mouse_pos.cast_unit();
        if inputs.is_mouse_held() {
            let m = self.state.mouse;
            self.draw_held(m);
        } else if inputs.was_mouse_pressed() {
            let m = self.state.mouse;
            self.draw_pressed(m);
        }
        if inputs.key_space_pressed {
            self.state.running = !self.state.running;
        }
        self.state.step_sim = inputs.key_right_pressed && !self.state.running;
        if inputs.key_c_pressed {
            self.clear_sim();
        }
        let mut ds: i64 = self.state.draw_size;
        if inputs.key_up_pressed {
            ds = ds + 1;
        }
        if inputs.key_down_pressed {
            ds = ds - 1;
        }
        self.state.draw_size = crate::intmath::clamp_i64(
            ds,
            1,
            crate::gravity_sim::MAX_DRAW_SIZE,
        );
        if inputs.key_tab_pressed {
            self.state.draw_shape = match self.state.draw_shape {
                crate::raster::Shape::CircleOutline => crate::raster::Shape::CircleFill,
                crate::raster::Shape::CircleFill => crate::raster::Shape::SquareCentered,
                crate::raster::Shape::SquareCentered => crate::raster::Shape::CircleOutline,
            };
        }
    }
}

} // verus!

//! The visible world: an RGBA viewport buffer, a damped camera, and the
//! drawing operations that rasterize entities into the buffer. Out-of-view
//! writes are silently dropped, never an error.

use vstd::prelude::*;

use crate::colour::Rgba;
use crate::intmath::{clamp_i64, clamped, div_i64, div_towards_zero};
use crate::raster::{circle_fill_offsets, circle_outline_offsets, line_path, mirror_closed,
    offsets_within, oset, rows_contiguous, sym8_closed, Shape, RASTER_MAX};
use crate::vec2::{vec2, TextureSpace, Vec2, WorldSpace};
use crate::FP;

verus! {

/// Widest viewport edge the buffer accepts, in pixels.
pub const MAX_VIEWPORT: u32 = 16384;

/// How far from the origin the camera may wander, in fixed-point units.
pub const CAM_POS_MAX: i64 = 0x4000000000000;

/// The camera's top speed, in fixed-point units per frame.
pub const CAM_VEL_MAX: i64 = 0x10000000000;

/// Largest per-frame camera acceleration accepted, in fixed-point units.
pub const CAM_ACC_MAX: i64 = 0x40000000;

/// Largest magnitude of a world position handed to a drawing call, in pixels.
pub const WORLD_PX_MAX: i64 = 0x10000000;

pub struct World {
    /// Top-left of the viewport in the world, fixed-point world units.
    pub camera_pos: Vec2<i64, WorldSpace>,
    /// Camera velocity, fixed-point world units per frame.
    pub camera_vel: Vec2<i64, WorldSpace>,
    /// Viewport width and height in texture pixels.
    pub viewport_size: Vec2<u32, TextureSpace>,
    /// Row-major RGBA bytes, `4 * width * height` of them.
    pub viewport_texture: Vec<u8>,
}

impl World {
    /// The structural invariant: a non-degenerate bounded viewport whose
    /// byte buffer has exactly four bytes per pixel, and a camera within the
    /// world's bounds.
    pub open spec fn wf(self) -> bool {
        &&& 1 <= self.viewport_size.x <= MAX_VIEWPORT
        &&& 1 <= self.viewport_size.y <= MAX_VIEWPORT
        &&& self.viewport_texture.len() == 4 * self.viewport_size.x * self.viewport_size.y
        &&& self.camera_pos.abs_le(CAM_POS_MAX as int)
        &&& self.camera_vel.abs_le(CAM_VEL_MAX as int)
    }

    /// Where a world-pixel point lands in the texture: the camera's
    /// whole-pixel offset is subtracted on the x axis and added on the y
    /// axis.
    pub open spec fn spec_tex(self, wx: int, wy: int) -> (int, int) {
        (
            wx - div_towards_zero(self.camera_pos.x as int, FP as int),
            wy + div_towards_zero(self.camera_pos.y as int, FP as int),
        )
    }

    /// The same mapping on a vector position.
    pub open spec fn spec_texture_coord(self, pos: Vec2<i64, WorldSpace>) -> (int, int) {
        self.spec_tex(pos.x as int, pos.y as int)
    }

    /// Byte index `j` belongs to the in-view pixel that world point
    /// `(wx, wy)` maps to: the footprint one `draw_cell` call may touch.
    pub open spec fn pixel_byte_of(self, wx: int, wy: int, j: int) -> bool {
        let t = self.spec_tex(wx, wy);
        let w = self.viewport_size.x as int;
        let h = self.viewport_size.y as int;
        0 <= t.0 < w && 0 <= t.1 < h && 4 * (t.1 * w + t.0) <= j < 4 * (t.1 * w + t.0) + 4
    }

    /// The world point's pixel is either out of view or shows `colour` in
    /// `buf`: what one drawing call guarantees for each covered point.
    pub open spec fn cell_painted(self, buf: Seq<u8>, wx: int, wy: int, colour: Rgba) -> bool {
        let t = self.spec_tex(wx, wy);
        let w = self.viewport_size.x as int;
        let h = self.viewport_size.y as int;
        !(0 <= t.0 < w && 0 <= t.1 < h) || {
            let base = 4 * (t.1 * w + t.0);
            &&& buf[base] == colour.r
            &&& buf[base + 1] == colour.g
            &&& buf[base + 2] == colour.b
            &&& buf[base + 3] == colour.a
        }
    }

    pub fn new(viewport_size: Vec2<u32, TextureSpace>) -> (out: Self)
        requires
            1 <= viewport_size.x <= MAX_VIEWPORT,
            1 <= viewport_size.y <= MAX_VIEWPORT,
        ensures
            out.wf(),
            out.viewport_size == viewport_size,
            out.camera_pos.x == 0 && out.camera_pos.y == 0,
            out.camera_vel.x == 0 && out.camera_vel.y == 0,
            out.viewport_texture@ == Seq::new((4 * viewport_size.x * viewport_size.y) as nat,
                |i: int| 0u8,
            ),
    {
        proof {
            assert(4 * (viewport_size.x as int) * (viewport_size.y as int) <= 0x40000000int)
                by (nonlinear_arith)
                requires
                    1 <= viewport_size.x <= 16384 && 1 <= viewport_size.y <= 16384,
            ;
        }
        let len: usize = 4 * (viewport_size.x as usize) * (viewport_size.y as usize);
        let mut texture: Vec<u8> = Vec::new();
        let mut i: usize = 0;
        while i < len
            invariant
                i <= len,
                texture@.len() == i,
                forall|j: int| 0 <= j < i ==> texture@[j] == 0u8,
            decreases len - i,
        {
            texture.push(0);
            i = i + 1;
        }
        proof {
            assert(texture@ =~= Seq::new((4 * viewport_size.x * viewport_size.y) as nat,
                |i: int| 0u8,
            ));
        }
        World {
            camera_pos: vec2(0, 0),
            camera_vel: vec2(0, 0),
            viewport_size,
            viewport_texture: texture,
        }
    }

    /// True when the texture-space position misses the viewport.
    pub fn is_out_of_bounds(&self, pos: Vec2<i64, TextureSpace>) -> (out: bool)
        ensures
            out == !(0 <= pos.x < self.viewport_size.x && 0 <= pos.y < self.viewport_size.y),
    {
        pos.x >= self.viewport_size.x as i64 || pos.y >= self.viewport_size.y as i64 || pos.x < 0
            || pos.y < 0
    }

    /// The finished frame, for the upload layer to read.
    pub fn get_viewport_texture(&self) -> (out: &Vec<u8>)
        ensures
            out@ == self.viewport_texture@,
    {
        &self.viewport_texture
    }

    /// Drops any camera motion and recentres on the origin.
    pub fn reset_viewport(&mut self)
        ensures
            final(self).camera_pos.x == 0 && final(self).camera_pos.y == 0,
            final(self).camera_vel.x == 0 && final(self).camera_vel.y == 0,
            final(self).viewport_size == old(self).viewport_size,
            final(self).viewport_texture == old(self).viewport_texture,
            old(self).wf() ==> final(self).wf(),
    {
        self.camera_pos = vec2(0, 0);
        self.camera_vel = vec2(0, 0);
    }

    /// One camera integration step: the velocity takes the acceleration,
    /// decays by `res_num / res_den`, and moves the position, both clamped
    /// into the world's bounds so motion always stays representable.
    pub fn update_camera(
        &mut self,
        acceleration: Vec2<i64, WorldSpace>,
        res_num: i64,
        res_den: i64,
    )
        requires
            old(self).wf(),
            acceleration.abs_le(CAM_ACC_MAX as int),
            0 < res_num <= res_den <= 0x100000,
        ensures
            final(self).wf(),
            final(self).camera_vel.x == clamped(
                div_towards_zero((old(self).camera_vel.x + acceleration.x) * res_num,
                    res_den as int,
                ),
                -CAM_VEL_MAX as int,
                CAM_VEL_MAX as int,
            ),
            final(self).camera_vel.y == clamped(
                div_towards_zero((old(self).camera_vel.y + acceleration.y) * res_num,
                    res_den as int,
                ),
                -CAM_VEL_MAX as int,
                CAM_VEL_MAX as int,
            ),
            final(self).camera_pos.x == clamped(
                old(self).camera_pos.x + final(self).camera_vel.x,
                -CAM_POS_MAX as int,
                CAM_POS_MAX as int,
            ),
            final(self).camera_pos.y == clamped(
                old(self).camera_pos.y + final(self).camera_vel.y,
                -CAM_POS_MAX as int,
                CAM_POS_MAX as int,
            ),
            final(self).viewport_size == old(self).viewport_size,
            final(self).viewport_texture == old(self).viewport_texture,
    {
        let vx = Self::damp_component(self.camera_vel.x, acceleration.x, res_num, res_den);
        let vy = Self::damp_component(self.camera_vel.y, acceleration.y, res_num, res_den);
        self.camera_vel = vec2(vx, vy);
        let px = clamp_i64(self.camera_pos.x + vx, -CAM_POS_MAX, CAM_POS_MAX);
        let py = clamp_i64(self.camera_pos.y + vy, -CAM_POS_MAX, CAM_POS_MAX);
        self.camera_pos = vec2(px, py);
    }

    /// One damped velocity component: `(v + a) * res_num / res_den`, clamped.
    fn damp_component(v: i64, a: i64, res_num: i64, res_den: i64) -> (out: i64)
        requires
            -CAM_VEL_MAX <= v <= CAM_VEL_MAX,
            -CAM_ACC_MAX <= a <= CAM_ACC_MAX,
            0 < res_num <= res_den <= 0x100000,
        ensures
            out == clamped(
                div_towards_zero((v + a) * res_num, res_den as int),
                -CAM_VEL_MAX as int,
                CAM_VEL_MAX as int,
            ),
    {
        let sum: i128 = v as i128 + a as i128;
        proof {
            assert(-(0x80000000000000000000int) <= (sum as int) * (res_num as int)
                <= 0x80000000000000000000int) by (nonlinear_arith)
                requires
                    -0x20000000000 <= sum <= 0x20000000000 && 0 < res_num <= 0x100000,
            ;
        }
        let scaled: i128 = crate::intmath::div_i128(sum * res_num as i128, res_den as i128);
        proof {
            crate::intmath::lemma_div_towards_zero_bound(sum as int * res_num as int,
                res_den as int,
            );
            assert(sum * res_num == (v + a) * res_num) by (nonlinear_arith)
                requires
                    sum == v + a,
            ;
        }
        clamp_i64(
            if scaled > i64::MAX as i128 {
                i64::MAX
            } else if scaled < i64::MIN as i128 {
                i64::MIN
            } else {
                scaled as i64
            },
            -CAM_VEL_MAX,
            CAM_VEL_MAX,
        )
    }
}

/// The Bresenham point sequence of the world-space segment between two
/// positions.
pub open spec fn seg_of(start: Vec2<i64, WorldSpace>, end: Vec2<i64, WorldSpace>) -> Seq<
    (i64, i64),
> {
    crate::raster::spec_line_points(start.x as int, start.y as int, end.x as int, end.y as int)
}

/// Edge `k` of a closed polygon: the Bresenham segment from vertex `k` to
/// the next vertex, wrapping back to the first.
pub open spec fn poly_edge(vs: Seq<Vec2<i64, WorldSpace>>, k: int) -> Seq<(i64, i64)> {
    seg_of(
        vs[k],
        vs[if k + 1 == vs.len() {
            0int
        } else {
            k + 1
        }],
    )
}

/// The channel byte a background fill writes at byte offset `j`.
pub open spec fn fill_byte(colour: Rgba, j: int) -> u8 {
    if j % 4 == 0 {
        colour.r
    } else if j % 4 == 1 {
        colour.g
    } else if j % 4 == 2 {
        colour.b
    } else {
        colour.a
    }
}

impl World {
    /// Adopts a new viewport size. Nothing happens when the size and the
    /// buffer already match; growing keeps the old bytes and appends zeroes;
    /// shrinking truncates. Degenerate sizes are rejected at the boundary,
    /// before this call.
    pub fn resize(&mut self, new_size: Vec2<u32, TextureSpace>)
        requires
            old(self).wf(),
            1 <= new_size.x <= MAX_VIEWPORT,
            1 <= new_size.y <= MAX_VIEWPORT,
        ensures
            final(self).wf(),
            final(self).viewport_size == new_size,
            final(self).viewport_texture.len() == 4 * new_size.x * new_size.y,
            final(self).camera_pos == old(self).camera_pos,
            final(self).camera_vel == old(self).camera_vel,
            old(self).viewport_size.x == new_size.x && old(self).viewport_size.y == new_size.y
                ==> final(self).viewport_texture == old(self).viewport_texture,
            forall|j: int|
                0 <= j < old(self).viewport_texture.len() && j < 4 * new_size.x * new_size.y
                    ==> final(self).viewport_texture[j] == old(self).viewport_texture[j],
            forall|j: int|
                old(self).viewport_texture.len() <= j < 4 * new_size.x * new_size.y
                    ==> final(self).viewport_texture[j] == 0u8,
    {
        proof {
            assert(4 * (new_size.x as int) * (new_size.y as int) <= 0x40000000int
                && 1 * 1 <= (new_size.x as int) * (new_size.y as int)) by (nonlinear_arith)
                requires
                    1 <= new_size.x <= 16384 && 1 <= new_size.y <= 16384,
            ;
        }
        let needed: usize = 4 * (new_size.x as usize) * (new_size.y as usize);
        if new_size.x == self.viewport_size.x && new_size.y == self.viewport_size.y
            && self.viewport_texture.len() == needed {
            let keep: Vec2<u32, TextureSpace> = vec2(new_size.x, new_size.y);
            self.viewport_size = keep;
            return ;
        }
        if self.viewport_texture.len() < needed {
            self.viewport_texture.resize(needed, 0);
        } else {
            self.viewport_texture.truncate(needed);
        }
        self.viewport_size = vec2(new_size.x, new_size.y);
    }

    /// Writes one world pixel through the camera. A position that maps
    /// outside the viewport is dropped without a trace.
    pub fn draw_cell(&mut self, position: Vec2<i64, WorldSpace>, colour: Rgba)
        requires
            old(self).wf(),
            position.abs_le(0x40000000int),
        ensures
            final(self).wf(),
            final(self).viewport_size == old(self).viewport_size,
            final(self).camera_pos == old(self).camera_pos,
            final(self).camera_vel == old(self).camera_vel,
            ({
                let (tx, ty) = old(self).spec_texture_coord(position);
                let w = old(self).viewport_size.x as int;
                let h = old(self).viewport_size.y as int;
                if 0 <= tx < w && 0 <= ty < h {
                    final(self).viewport_texture@ == old(self).viewport_texture@.update(
                        4 * (ty * w + tx),
                        colour.r,
                    ).update(4 * (ty * w + tx) + 1, colour.g).update(
                        4 * (ty * w + tx) + 2,
                        colour.b,
                    ).update(4 * (ty * w + tx) + 3, colour.a)
                } else {
                    final(self).viewport_texture == old(self).viewport_texture
                }
            }),
    {
        let camx = div_i64(self.camera_pos.x, FP);
        let camy = div_i64(self.camera_pos.y, FP);
        proof {
            crate::intmath::lemma_div_towards_zero_bound(self.camera_pos.x as int, FP as int);
            crate::intmath::lemma_div_towards_zero_bound(self.camera_pos.y as int, FP as int);
            crate::intmath::lemma_div_towards_zero_mono(self.camera_pos.x as int, FP as int, 1);
            crate::intmath::lemma_div_towards_zero_mono(self.camera_pos.y as int, FP as int, 1);
        }
        let t: Vec2<i64, TextureSpace> = vec2(position.x - camx, position.y + camy);
        if self.is_out_of_bounds(t) {
            return ;
        }
        let w = self.viewport_size.x as i64;
        let h = self.viewport_size.y as i64;
        proof {
            assert((t.y as int) * (w as int) + t.x <= (h - 1) * w + (w - 1) && 0 <= (t.y as int) * (
            w as int)) by (nonlinear_arith)
                requires
                    0 <= t.x < w && 0 <= t.y < h,
            ;
            assert((h - 1) * w + (w - 1) < h * w && 4 * (h * w) == 4 * (w as int) * (h as int)
                && h * w <= 16384 * 16384) by (nonlinear_arith)
                requires
                    1 <= w <= 16384 && 1 <= h <= 16384,
            ;
            assert(4 * ((t.y as int) * (w as int) + t.x) + 3 < self.viewport_texture.len());
        }
        let index: usize = (4 * (t.y * w + t.x)) as usize;
        self.viewport_texture[index] = colour.r;
        self.viewport_texture[index + 1] = colour.g;
        self.viewport_texture[index + 2] = colour.b;
        self.viewport_texture[index + 3] = colour.a;
    }

    /// The once-per-frame background clear: every pixel becomes `colour`.
    pub fn draw_all(&mut self, colour: Rgba)
        requires
            old(self).wf(),
        ensures
            final(self).wf(),
            final(self).viewport_size == old(self).viewport_size,
            final(self).camera_pos == old(self).camera_pos,
            final(self).camera_vel == old(self).camera_vel,
            final(self).viewport_texture.len() == old(self).viewport_texture.len(),
            forall|j: int|
                0 <= j < final(self).viewport_texture.len() ==> final(self).viewport_texture[j]
                    == fill_byte(colour, j),
    {
        proof {
            let w = self.viewport_size.x as int;
            let h = self.viewport_size.y as int;
            assert(4 * w * h <= 0x40000000int && 4 * w * h == (w * h) * 4) by (nonlinear_arith)
                requires
                    1 <= w <= 16384 && 1 <= h <= 16384,
            ;
            vstd::arithmetic::div_mod::lemma_mod_multiples_basic(w * h, 4);
        }
        let len: usize = self.viewport_texture.len();
        let mut i: usize = 0;
        while i + 4 <= len
        invariant
            old(self).wf(),
            self.viewport_size == old(self).viewport_size,
            self.camera_pos == old(self).camera_pos,
            self.camera_vel == old(self).camera_vel,
            self.viewport_texture.len() == len,
            len == old(self).viewport_texture.len(),
            i % 4 == 0,
            i <= len,
            len % 4 == 0,
            len <= 0x40000000,
            forall|j: int| 0 <= j < i ==> self.viewport_texture[j] == fill_byte(colour, j),
        decreases len - i,
        {
            self.viewport_texture[i] = colour.r;
            self.viewport_texture[i + 1] = colour.g;
            self.viewport_texture[i + 2] = colour.b;
            self.viewport_texture[i + 3] = colour.a;
            proof {
                assert((i as int) % 4 == 0 && (i + 1) % 4 == 1 && (i + 2) % 4 == 2 && (i + 3) % 4
                    == 3 && (i + 4) % 4 == 0);
            }
            i = i + 4;
        }
    }

    /// Rasterizes a world-space line segment with Bresenham's walk: every
    /// in-view pixel of the walked path shows the colour afterwards, the
    /// two endpoints included, and no byte outside those writes changed.
    pub fn draw_line(
        &mut self,
        start: Vec2<i64, WorldSpace>,
        end: Vec2<i64, WorldSpace>,
        colour: Rgba,
    )
        requires
            old(self).wf(),
            start.abs_le(WORLD_PX_MAX as int),
            end.abs_le(WORLD_PX_MAX as int),
        ensures
            final(self).wf(),
            final(self).viewport_size == old(self).viewport_size,
            final(self).camera_pos == old(self).camera_pos,
            final(self).camera_vel == old(self).camera_vel,
            final(self).viewport_texture.len() == old(self).viewport_texture.len(),
            forall|j: int|
                0 <= j < final(self).viewport_texture.len() ==> final(self).viewport_texture[j]
                    == old(self).viewport_texture[j] || (final(self).viewport_texture[j]
                    == fill_byte(colour, j) && exists|m: int|
                    0 <= m < seg_of(start, end).len() && old(self).pixel_byte_of(
                        (#[trigger] seg_of(start, end)[m]).0 as int,
                        seg_of(start, end)[m].1 as int,
                        j,
                    )),
            forall|m: int|
                0 <= m < seg_of(start, end).len() ==> old(self).cell_painted(
                    final(self).viewport_texture@,
                    (#[trigger] seg_of(start, end)[m]).0 as int,
                    seg_of(start, end)[m].1 as int,
                    colour,
                ),
            old(self).cell_painted(
                final(self).viewport_texture@,
                start.x as int,
                start.y as int,
                colour,
            ),
            old(self).cell_painted(
                final(self).viewport_texture@,
                end.x as int,
                end.y as int,
                colour,
            ),
    {
        let pts = Shape::draw_line(start, end);
        proof {
            assert(pts@ == seg_of(start, end));
            assert forall|m: int|
                0 <= m < pts@.len() implies -RASTER_MAX <= (#[trigger] pts@[m]).0 <= RASTER_MAX
                && -RASTER_MAX <= pts@[m].1 <= RASTER_MAX by {}
        }
        let origin: Vec2<i64, WorldSpace> = vec2(0, 0);
        self.draw_offsets(&pts, origin, RASTER_MAX, colour);
        proof {
            assert(seg_of(start, end)[0].0 == start.x && seg_of(start, end)[0].1 == start.y);
            assert(seg_of(start, end)[seg_of(start, end).len() - 1].0 == end.x && seg_of(
                start,
                end,
            )[seg_of(start, end).len() - 1].1 == end.y);
            assert(old(self).cell_painted(self.viewport_texture@, 0 + seg_of(start, end)[0].0,
                0 + seg_of(start, end)[0].1, colour));
            assert(old(self).cell_painted(
                self.viewport_texture@,
                0 + seg_of(start, end)[seg_of(start, end).len() - 1].0,
                0 + seg_of(start, end)[seg_of(start, end).len() - 1].1,
                colour,
            ));
        }
    }

    /// Rasterizes a circle outline around a world-space centre: every
    /// in-view pixel of the eight-way-symmetric offset set shows the
    /// colour afterwards (witnessed here by the topmost point), and no byte
    /// outside those writes changed.
    #[verifier::rlimit(100)]
    pub fn draw_circle_outline(&mut self, centre: Vec2<i64, WorldSpace>, radius: i64, colour: Rgba)
        requires
            old(self).wf(),
            centre.abs_le(WORLD_PX_MAX as int),
            0 <= radius <= RASTER_MAX,
        ensures
            final(self).wf(),
            final(self).viewport_size == old(self).viewport_size,
            final(self).camera_pos == old(self).camera_pos,
            final(self).camera_vel == old(self).camera_vel,
            final(self).viewport_texture.len() == old(self).viewport_texture.len(),
            forall|j: int|
                0 <= j < final(self).viewport_texture.len() ==> final(self).viewport_texture[j]
                    == old(self).viewport_texture[j] || final(self).viewport_texture[j]
                    == fill_byte(colour, j),
            old(self).cell_painted(
                final(self).viewport_texture@,
                centre.x as int,
                centre.y + radius,
                colour,
            ),
            exists|offs: Seq<(i64, i64)>|
                sym8_closed(oset(offs)) && offsets_within(offs, radius as int) && oset(
                    offs,
                ).contains((0, radius as int)) && (forall|m: int|
                    0 <= m < offs.len() ==> old(self).cell_painted(
                        final(self).viewport_texture@,
                        centre.x + (#[trigger] offs[m]).0,
                        centre.y + offs[m].1,
                        colour,
                    )) && (forall|j: int|
                    0 <= j < final(self).viewport_texture.len()
                        ==> final(self).viewport_texture[j] == old(self).viewport_texture[j] || (
                    final(self).viewport_texture[j] == fill_byte(colour, j) && exists|m: int|
                        0 <= m < offs.len() && old(self).pixel_byte_of(
                            centre.x + (#[trigger] offs[m]).0,
                            centre.y + offs[m].1,
                            j,
                        ))),
    {
        let offsets = circle_outline_offsets(radius);
        let ghost offs = offsets@;
        self.draw_offsets(&offsets, centre, radius, colour);
        proof {
            assert(oset(offs).contains((0int, radius as int)));
            let m = choose|m: int| 0 <= m < offs.len() && offs[m].0 == 0 && offs[m].1 == radius;
            assert(old(self).cell_painted(
                self.viewport_texture@,
                centre.x + offs[m].0,
                centre.y + offs[m].1,
                colour,
            ));
        }
    }

    /// Rasterizes a filled circle around a world-space centre: every
    /// in-view pixel of the filled offset set shows the colour afterwards
    /// (witnessed here by the centre, for a positive radius), and no byte
    /// outside those writes changed.
    #[verifier::rlimit(100)]
    pub fn draw_circle_fill(&mut self, centre: Vec2<i64, WorldSpace>, radius: i64, colour: Rgba)
        requires
            old(self).wf(),
            centre.abs_le(WORLD_PX_MAX as int),
            0 <= radius <= RASTER_MAX,
        ensures
            final(self).wf(),
            final(self).viewport_size == old(self).viewport_size,
            final(self).camera_pos == old(self).camera_pos,
            final(self).camera_vel == old(self).camera_vel,
            final(self).viewport_texture.len() == old(self).viewport_texture.len(),
            forall|j: int|
                0 <= j < final(self).viewport_texture.len() ==> final(self).viewport_texture[j]
                    == old(self).viewport_texture[j] || final(self).viewport_texture[j]
                    == fill_byte(colour, j),
            radius >= 1 ==> old(self).cell_painted(
                final(self).viewport_texture@,
                centre.x as int,
                centre.y as int,
                colour,
            ),
            exists|offs: Seq<(i64, i64)>|
                mirror_closed(oset(offs)) && rows_contiguous(oset(offs)) && offsets_within(
                    offs,
                    radius as int,
                ) && (radius >= 1 ==> oset(offs).contains((0, 0))) && (forall|m: int|
                    0 <= m < offs.len() ==> old(self).cell_painted(
                        final(self).viewport_texture@,
                        centre.x + (#[trigger] offs[m]).0,
                        centre.y + offs[m].1,
                        colour,
                    )) && (forall|j: int|
                    0 <= j < final(self).viewport_texture.len()
                        ==> final(self).viewport_texture[j] == old(self).viewport_texture[j] || (
                    final(self).viewport_texture[j] == fill_byte(colour, j) && exists|m: int|
                        0 <= m < offs.len() && old(self).pixel_byte_of(
                            centre.x + (#[trigger] offs[m]).0,
                            centre.y + offs[m].1,
                            j,
                        ))),
    {
        let offsets = circle_fill_offsets(radius);
        let ghost offs = offsets@;
        self.draw_offsets(&offsets, centre, radius, colour);
        proof {
            assert(mirror_closed(oset(offs)) && rows_contiguous(oset(offs)) && offsets_within(
                offs,
                radius as int,
            ) && (radius >= 1 ==> oset(offs).contains((0, 0))) && (forall|m: int|
                0 <= m < offs.len() ==> old(self).cell_painted(
                    self.viewport_texture@,
                    centre.x + (#[trigger] offs[m]).0,
                    centre.y + offs[m].1,
                    colour,
                )) && (forall|j: int|
                0 <= j < self.viewport_texture.len() ==> self.viewport_texture[j] == old(
                    self,
                ).viewport_texture[j] || (self.viewport_texture[j] == fill_byte(colour, j)
                    && exists|m: int|
                    0 <= m < offs.len() && old(self).pixel_byte_of(
                        centre.x + (#[trigger] offs[m]).0,
                        centre.y + offs[m].1,
                        j,
                    ))));
            if radius >= 1 {
                assert(oset(offs).contains((0int, 0int)));
                let m = choose|m: int| 0 <= m < offs.len() && offs[m].0 == 0 && offs[m].1 == 0;
                assert(old(self).cell_painted(
                    self.viewport_texture@,
                    centre.x + offs[m].0,
                    centre.y + offs[m].1,
                    colour,
                ));
            }
        }
    }

    /// Writes every offset of a shape, translated to `origin`: afterwards
    /// each covered in-view pixel shows the colour, and no byte outside
    /// those writes has changed.
    #[verifier::rlimit(100)]
    #[verifier::spinoff_prover]
    fn draw_offsets(
        &mut self,
        offsets: &Vec<(i64, i64)>,
        origin: Vec2<i64, WorldSpace>,
        bound: i64,
        colour: Rgba,
    )
        requires
            old(self).wf(),
            origin.abs_le(WORLD_PX_MAX as int),
            0 <= bound <= RASTER_MAX,
            offsets_within(offsets@, bound as int),
        ensures
            final(self).wf(),
            final(self).viewport_size == old(self).viewport_size,
            final(self).camera_pos == old(self).camera_pos,
            final(self).camera_vel == old(self).camera_vel,
            final(self).viewport_texture.len() == old(self).viewport_texture.len(),
            forall|j: int|
                0 <= j < final(self).viewport_texture.len() ==> final(self).viewport_texture[j]
                    == old(self).viewport_texture[j] || (final(self).viewport_texture[j]
                    == fill_byte(colour, j) && exists|m: int|
                    0 <= m < offsets@.len() && old(self).pixel_byte_of(
                        origin.x + (#[trigger] offsets@[m]).0,
                        origin.y + offsets@[m].1,
                        j,
                    )),
            forall|m: int|
                0 <= m < offsets@.len() ==> old(self).cell_painted(
                    final(self).viewport_texture@,
                    origin.x + (#[trigger] offsets@[m]).0,
                    origin.y + offsets@[m].1,
                    colour,
                ),
    {
        let mut i: usize = 0;
        while i < offsets.len()
            invariant
                self.wf(),
                self.viewport_size == old(self).viewport_size,
                self.camera_pos == old(self).camera_pos,
                self.camera_vel == old(self).camera_vel,
                self.viewport_texture.len() == old(self).viewport_texture.len(),
                origin.abs_le(WORLD_PX_MAX as int),
                0 <= bound <= RASTER_MAX,
                offsets_within(offsets@, bound as int),
                forall|j: int|
                    0 <= j < self.viewport_texture.len() ==> self.viewport_texture[j] == old(
                        self,
                    ).viewport_texture[j] || (self.viewport_texture[j] == fill_byte(colour, j)
                        && exists|m: int|
                        0 <= m < offsets@.len() && old(self).pixel_byte_of(
                            origin.x + (#[trigger] offsets@[m]).0,
                            origin.y + offsets@[m].1,
                            j,
                        )),
                forall|m: int|
                    0 <= m < i ==> old(self).cell_painted(
                        self.viewport_texture@,
                        origin.x + (#[trigger] offsets@[m]).0,
                        origin.y + offsets@[m].1,
                        colour,
                    ),
            decreases offsets.len() - i,
        {
            let ghost pre = self.viewport_texture@;
            proof {
                assert(forall|j: int|
                    0 <= j < pre.len() ==> #[trigger] pre[j] == old(self).viewport_texture[j] || (
                    pre[j] == fill_byte(colour, j) && exists|m: int|
                        0 <= m < offsets@.len() && old(self).pixel_byte_of(
                            origin.x + (#[trigger] offsets@[m]).0,
                            origin.y + offsets@[m].1,
                            j,
                        )));
            }
            let off = offsets[i];
            self.draw_cell(vec2(origin.x + off.0, origin.y + off.1), colour);
            proof {
                lemma_paint_step(
                    *old(self),
                    pre,
                    self.viewport_texture@,
                    origin.x + off.0,
                    origin.y + off.1,
                    colour,
                );
                lemma_paint_footprint(
                    *old(self),
                    pre,
                    self.viewport_texture@,
                    origin.x + off.0,
                    origin.y + off.1,
                    colour,
                );
                assert forall|j: int|
                    0 <= j < self.viewport_texture.len() implies self.viewport_texture[j] == old(
                    self,
                ).viewport_texture[j] || (self.viewport_texture[j] == fill_byte(colour, j)
                    && exists|m: int|
                    0 <= m < offsets@.len() && old(self).pixel_byte_of(
                        origin.x + (#[trigger] offsets@[m]).0,
                        origin.y + offsets@[m].1,
                        j,
                    )) by {
                    if self.viewport_texture[j] != pre[j] {
                        assert(old(self).pixel_byte_of(origin.x + off.0, origin.y + off.1, j));
                        assert(offsets@[i as int] == off);
                        assert(old(self).pixel_byte_of(
                            origin.x + (offsets@[i as int]).0,
                            origin.y + offsets@[i as int].1,
                            j,
                        ));
                        assert(exists|m: int|
                            0 <= m < offsets@.len() && old(self).pixel_byte_of(
                                origin.x + (#[trigger] offsets@[m]).0,
                                origin.y + offsets@[m].1,
                                j,
                            ));
                    } else {
                        assert(pre[j] == old(self).viewport_texture[j] || (pre[j] == fill_byte(
                            colour,
                            j,
                        ) && exists|m: int|
                            0 <= m < offsets@.len() && old(self).pixel_byte_of(
                                origin.x + (#[trigger] offsets@[m]).0,
                                origin.y + offsets@[m].1,
                                j,
                            )));
                    }
                }
                assert forall|m: int| 0 <= m < i + 1 implies old(self).cell_painted(
                    self.viewport_texture@,
                    origin.x + (#[trigger] offsets@[m]).0,
                    origin.y + offsets@[m].1,
                    colour,
                ) by {
                    if m < i {
                        lemma_painted_persists(
                            *old(self),
                            pre,
                            self.viewport_texture@,
                            origin.x + offsets@[m].0,
                            origin.y + offsets@[m].1,
                            colour,
                        );
                    }
                }
            }
            i = i + 1;
        }
    }

    /// Rasterizes a closed polygon outline: one Bresenham segment per edge,
    /// the last vertex joined back to the first. Afterwards every in-view
    /// vertex pixel shows the colour, and no byte outside the edge writes
    /// changed.
    pub fn draw_polygon(&mut self, vertices: &Vec<Vec2<i64, WorldSpace>>, colour: Rgba)
        requires
            old(self).wf(),
            forall|i: int|
                0 <= i < vertices@.len() ==> (#[trigger] vertices@[i]).abs_le(WORLD_PX_MAX as int),
        ensures
            final(self).wf(),
            final(self).viewport_size == old(self).viewport_size,
            final(self).camera_pos == old(self).camera_pos,
            final(self).camera_vel == old(self).camera_vel,
            final(self).viewport_texture.len() == old(self).viewport_texture.len(),
            forall|j: int|
                0 <= j < final(self).viewport_texture.len() ==> final(self).viewport_texture[j]
                    == old(self).viewport_texture[j] || final(self).viewport_texture[j]
                    == fill_byte(colour, j),
            forall|k: int|
                0 <= k < vertices@.len() ==> old(self).cell_painted(
                    final(self).viewport_texture@,
                    (#[trigger] vertices@[k]).x as int,
                    vertices@[k].y as int,
                    colour,
                ),
    {
        let n = vertices.len();
        let mut i: usize = 0;
        while i < n
            invariant
                self.wf(),
                self.viewport_size == old(self).viewport_size,
                self.camera_pos == old(self).camera_pos,
                self.camera_vel == old(self).camera_vel,
                self.viewport_texture.len() == old(self).viewport_texture.len(),
                n == vertices@.len(),
                forall|k: int|
                    0 <= k < vertices@.len() ==> (#[trigger] vertices@[k]).abs_le(
                        WORLD_PX_MAX as int,
                    ),
                forall|j: int|
                    0 <= j < self.viewport_texture.len() ==> self.viewport_texture[j] == old(
                        self,
                    ).viewport_texture[j] || self.viewport_texture[j] == fill_byte(colour, j),
                forall|k: int|
                    0 <= k < i ==> old(self).cell_painted(
                        self.viewport_texture@,
                        (#[trigger] vertices@[k]).x as int,
                        vertices@[k].y as int,
                        colour,
                    ),
            decreases n - i,
        {
            let j: usize = if i + 1 == n {
                0
            } else {
                i + 1
            };
            let a = vertices[i];
            let b = vertices[j];
            let ghost pre = self.viewport_texture@;
            self.draw_line(a, b, colour);
            proof {
                assert forall|k: int| 0 <= k < i + 1 implies old(self).cell_painted(
                    self.viewport_texture@,
                    (#[trigger] vertices@[k]).x as int,
                    vertices@[k].y as int,
                    colour,
                ) by {
                    if k < i {
                        lemma_painted_persists(*old(self), pre, self.viewport_texture@,
                            vertices@[k].x as int, vertices@[k].y as int, colour);
                    }
                }
            }
            i = i + 1;
        }
    }
}

/// One `draw_cell` call paints its target and only rewrites bytes with the
/// colour's own channel values.
proof fn lemma_paint_step(
    w0: World,
    pre: Seq<u8>,
    post: Seq<u8>,
    wx: int,
    wy: int,
    colour: Rgba,
)
    requires
        w0.wf(),
        pre.len() == 4 * w0.viewport_size.x * w0.viewport_size.y,
        post.len() == pre.len(),
        ({
            let t = w0.spec_tex(wx, wy);
            let w = w0.viewport_size.x as int;
            let h = w0.viewport_size.y as int;
            if 0 <= t.0 < w && 0 <= t.1 < h {
                post == pre.update(4 * (t.1 * w + t.0), colour.r).update(
                    4 * (t.1 * w + t.0) + 1,
                    colour.g,
                ).update(4 * (t.1 * w + t.0) + 2, colour.b).update(
                    4 * (t.1 * w + t.0) + 3,
                    colour.a,
                )
            } else {
                post == pre
            }
        }),
    ensures
        w0.cell_painted(post, wx, wy, colour),
        forall|j: int| 0 <= j < post.len() ==> post[j] == pre[j] || post[j] == fill_byte(
            colour,
            j,
        ),
{
    let t = w0.spec_tex(wx, wy);
    let w = w0.viewport_size.x as int;
    let h = w0.viewport_size.y as int;
    if 0 <= t.0 < w && 0 <= t.1 < h {
        let base = 4 * (t.1 * w + t.0);
        assert(0 <= t.1 * w + t.0 < w * h) by (nonlinear_arith)
            requires
                0 <= t.0 < w && 0 <= t.1 < h,
        ;
        assert(4 * (t.1 * w + t.0) + 3 < 4 * (w * h) && 4 * (w * h) == 4 * w * h)
            by (nonlinear_arith)
            requires
                0 <= t.1 * w + t.0 < w * h,
        ;
        assert(base % 4 == 0) by (nonlinear_arith)
            requires
                base == 4 * (t.1 * w + t.0),
        ;
        assert(fill_byte(colour, base) == colour.r && fill_byte(colour, base + 1) == colour.g
            && fill_byte(colour, base + 2) == colour.b && fill_byte(colour, base + 3)
            == colour.a);
    }
}

/// One `draw_cell` call changes bytes only inside its target pixel's
/// four-byte footprint.
proof fn lemma_paint_footprint(
    w0: World,
    pre: Seq<u8>,
    post: Seq<u8>,
    wx: int,
    wy: int,
    colour: Rgba,
)
    requires
        w0.wf(),
        pre.len() == 4 * w0.viewport_size.x * w0.viewport_size.y,
        post.len() == pre.len(),
        ({
            let t = w0.spec_tex(wx, wy);
            let w = w0.viewport_size.x as int;
            let h = w0.viewport_size.y as int;
            if 0 <= t.0 < w && 0 <= t.1 < h {
                post == pre.update(4 * (t.1 * w + t.0), colour.r).update(
                    4 * (t.1 * w + t.0) + 1,
                    colour.g,
                ).update(4 * (t.1 * w + t.0) + 2, colour.b).update(
                    4 * (t.1 * w + t.0) + 3,
                    colour.a,
                )
            } else {
                post == pre
            }
        }),
    ensures
        forall|j: int| 0 <= j < post.len() && post[j] != pre[j] ==> w0.pixel_byte_of(wx, wy, j),
{
    let t = w0.spec_tex(wx, wy);
    let w = w0.viewport_size.x as int;
    let h = w0.viewport_size.y as int;
    if 0 <= t.0 < w && 0 <= t.1 < h {
        assert(0 <= t.1 * w + t.0 < w * h) by (nonlinear_arith)
            requires
                0 <= t.0 < w && 0 <= t.1 < h,
        ;
        assert(4 * (t.1 * w + t.0) + 3 < 4 * (w * h) && 4 * (w * h) == 4 * w * h)
            by (nonlinear_arith)
            requires
                0 <= t.1 * w + t.0 < w * h,
        ;
    }
}

/// A painted pixel stays painted when later writes only deposit the same
/// colour's channel bytes.
proof fn lemma_painted_persists(
    w0: World,
    pre: Seq<u8>,
    post: Seq<u8>,
    wx: int,
    wy: int,
    colour: Rgba,
)
    requires
        w0.wf(),
        pre.len() == 4 * w0.viewport_size.x * w0.viewport_size.y,
        post.len() == pre.len(),
        w0.cell_painted(pre, wx, wy, colour),
        forall|j: int| 0 <= j < post.len() ==> post[j] == pre[j] || post[j] == fill_byte(
            colour,
            j,
        ),
    ensures
        w0.cell_painted(post, wx, wy, colour),
{
    let t = w0.spec_tex(wx, wy);
    let w = w0.viewport_size.x as int;
    let h = w0.viewport_size.y as int;
    if 0 <= t.0 < w && 0 <= t.1 < h {
        let base = 4 * (t.1 * w + t.0);
        assert(0 <= t.1 * w + t.0 < w * h) by (nonlinear_arith)
            requires
                0 <= t.0 < w && 0 <= t.1 < h,
        ;
        assert(4 * (t.1 * w + t.0) + 3 < 4 * (w * h) && 4 * (w * h) == 4 * w * h)
            by (nonlinear_arith)
            requires
                0 <= t.1 * w + t.0 < w * h,
        ;
        assert(base % 4 == 0) by (nonlinear_arith)
            requires
                base == 4 * (t.1 * w + t.0),
        ;
        assert(fill_byte(colour, base) == colour.r && fill_byte(colour, base + 1) == colour.g
            && fill_byte(colour, base + 2) == colour.b && fill_byte(colour, base + 3)
            == colour.a);
    }
}

} // verus!

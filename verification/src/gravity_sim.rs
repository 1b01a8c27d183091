//! The interactive front end of the particle gravity engine: it owns the
//! RGBA frame buffer, a damped camera, the brush state, and the simulation,
//! and it turns one input snapshot per frame into spawns, camera motion and
//! drawing.

use vstd::prelude::*;

use crate::colour::{gray, green, red, white, Rgba};
use crate::inputs::InputData;
use crate::intmath::{clamp_i64, clamped, div_i64, div_towards_zero};
use crate::particle::{
    live, valid_particle, Particle, Simulation, PART_N_MAX, PART_DT_MAX, PART_POS_MAX,
    PART_VEL_MAX, RAD_MIN, RAD_MAX,
};
use crate::raster::{offsets_within, Shape, RASTER_MAX};
use crate::vec2::{vec2, RenderSpace, ScreenSpace, Vec2, WorldSpace};
use crate::FP;

verus! {

/// Largest simulation edge, in render pixels.
pub const SIM_EDGE_MAX: i64 = 16384;

/// Largest window-to-render scale factor.
pub const SCALE_MAX: i64 = 64;

/// The brush radius range, in pixels.
pub const MAX_DRAW_SIZE: i64 = 500;

/// Slingshot launches scale the drag vector by this factor.
pub const MOUSE_DRAWBACK_MULTIPLIER: i64 = 10;

/// Camera acceleration per held key, fixed-point pixels per frame squared.
pub const CAMERA_SPEED_FP: i64 = 6554;

/// Camera damping per frame, as the ratio `CAM_RES_NUM / CAM_RES_DEN`.
pub const CAM_RES_NUM: i64 = 97;

pub const CAM_RES_DEN: i64 = 100;

/// How far the gravity camera may wander, fixed-point units.
pub const GRAV_CAM_MAX: i64 = 0x10000000000;

/// The camera's top speed, fixed-point units per frame.
pub const GRAV_CAM_VEL_MAX: i64 = 0x100000000;

/// The per-frame interactive state: brush, scale, pause flag and cursor.
#[derive(Clone, Copy, Debug)]
pub struct FrontendState {
    pub frame: u64,
    pub draw_size: i64,
    pub draw_shape: Shape,
    pub scale: i64,
    pub running: bool,
    pub step_sim: bool,
    pub mouse: Vec2<i64, ScreenSpace>,
}

impl FrontendState {
    pub open spec fn wf(self) -> bool {
        &&& 1 <= self.draw_size <= MAX_DRAW_SIZE
        &&& 1 <= self.scale <= SCALE_MAX
        &&& self.mouse.abs_le(0x10000000int)
    }
}

/// The frame the renderer reads back: the finished pixels, their size, and
/// the frame counter.
pub struct SimData<'a> {
    pub buf: &'a Vec<u8>,
    pub size: Vec2<i64, RenderSpace>,
    pub frame: u64,
}

pub struct GravitySim {
    pub state: FrontendState,
    pub prev_state: FrontendState,
    pub window_size: Vec2<i64, ScreenSpace>,
    pub sim_size: Vec2<i64, RenderSpace>,
    /// Top left of the viewport in the world, fixed-point units.
    pub camera: Vec2<i64, WorldSpace>,
    pub camera_vel: Vec2<i64, WorldSpace>,
    /// Row-major RGBA bytes, four per simulation pixel.
    pub buf: Vec<u8>,
    pub simulation: Simulation,
}

/// The shape after one brush-cycling key: outline, fill, square, and back.
pub open spec fn next_shape(s: Shape) -> Shape {
    match s {
        Shape::CircleOutline => Shape::CircleFill,
        Shape::CircleFill => Shape::SquareCentered,
        Shape::SquareCentered => Shape::CircleOutline,
    }
}

impl GravitySim {
    pub open spec fn wf(self) -> bool {
        &&& self.state.wf()
        &&& self.prev_state.wf()
        &&& 1 <= self.sim_size.x <= SIM_EDGE_MAX
        &&& 1 <= self.sim_size.y <= SIM_EDGE_MAX
        &&& self.window_size.abs_le(0x10000000int)
        &&& self.buf.len() == 4 * self.sim_size.x * self.sim_size.y
        &&& self.camera.abs_le(GRAV_CAM_MAX as int)
        &&& self.camera_vel.abs_le(GRAV_CAM_VEL_MAX as int)
        &&& self.simulation.wf()
    }

    pub fn new(window_size: Vec2<i64, ScreenSpace>, scale: i64) -> (out: Self)
        requires
            1 <= scale <= SCALE_MAX,
            1 <= window_size.x <= 0x10000000,
            1 <= window_size.y <= 0x10000000,
            window_size.x / scale >= 1,
            window_size.y / scale >= 1,
            window_size.x / scale <= SIM_EDGE_MAX,
            window_size.y / scale <= SIM_EDGE_MAX,
        ensures
            out.wf(),
            out.sim_size.x == window_size.x as int / scale as int,
            out.sim_size.y == window_size.y as int / scale as int,
            out.state.scale == scale,
            out.state.running == false,
            out.simulation.particles@.len() == 0,
            out.state.frame == 0,
    {
        let sx = window_size.x / scale;
        let sy = window_size.y / scale;
        let buf = background_buffer(sx, sy);
        let state = FrontendState {
            frame: 0,
            draw_size: 8,
            draw_shape: Shape::CircleFill,
            scale,
            running: false,
            step_sim: false,
            mouse: vec2(0, 0),
        };
        GravitySim {
            state,
            prev_state: state,
            window_size,
            sim_size: vec2(sx, sy),
            camera: vec2(0, 0),
            camera_vel: vec2(0, 0),
            buf,
            simulation: Simulation::new(),
        }
    }

    /// The finished frame for upload.
    pub fn get_sim_data(&self) -> (out: SimData<'_>)
        ensures
            out.buf@ == self.buf@,
            out.size == self.sim_size,
            out.frame == self.state.frame,
    {
        SimData { buf: &self.buf, size: self.sim_size, frame: self.state.frame }
    }

    pub fn get_scale(&self) -> (out: i64)
        ensures
            out == self.state.scale,
    {
        self.state.scale
    }

    /// Adopts a new window size: the simulation buffer is rebuilt at the
    /// scaled-down size unless it already matches.
    pub fn resize_sim(&mut self, window_size: Vec2<i64, ScreenSpace>)
        requires
            old(self).wf(),
            1 <= window_size.x <= 0x10000000,
            1 <= window_size.y <= 0x10000000,
            window_size.x / old(self).state.scale >= 1,
            window_size.y / old(self).state.scale >= 1,
            window_size.x / old(self).state.scale <= SIM_EDGE_MAX,
            window_size.y / old(self).state.scale <= SIM_EDGE_MAX,
        ensures
            final(self).wf(),
            final(self).sim_size.x == window_size.x as int / old(self).state.scale as int,
            final(self).sim_size.y == window_size.y as int / old(self).state.scale as int,
            final(self).window_size == window_size,
            final(self).simulation == old(self).simulation,
            final(self).state == old(self).state,
            old(self).sim_size.x == window_size.x as int / old(self).state.scale as int && old(self).sim_size.y == window_size.y as int / old(self).state.scale as int ==> final(self).buf
                == old(self).buf,
    {
        let sx = window_size.x / self.state.scale;
        let sy = window_size.y / self.state.scale;
        if sx == self.sim_size.x && sy == self.sim_size.y {
            self.window_size = window_size;
            return ;
        }
        self.buf = background_buffer(sx, sy);
        self.window_size = window_size;
        self.sim_size = vec2(sx, sy);
    }

    /// Changes the window-to-simulation scale and rebuilds the buffer.
    pub fn rescale_sim(&mut self, new_scale: i64)
        requires
            old(self).wf(),
            1 <= new_scale <= SCALE_MAX,
            1 <= old(self).window_size.x,
            1 <= old(self).window_size.y,
            old(self).window_size.x / new_scale >= 1,
            old(self).window_size.y / new_scale >= 1,
            old(self).window_size.x / new_scale <= SIM_EDGE_MAX,
            old(self).window_size.y / new_scale <= SIM_EDGE_MAX,
        ensures
            final(self).wf(),
            final(self).state.scale == new_scale,
            final(self).sim_size.x == old(self).window_size.x as int / new_scale as int,
            final(self).sim_size.y == old(self).window_size.y as int / new_scale as int,
    {
        self.state.scale = new_scale;
        let ws = self.window_size;
        self.resize_sim(ws);
    }

    /// Fills the whole frame with one byte value, the per-frame background
    /// clear.
    pub fn clear_buffer(&mut self, val: u8)
        requires
            old(self).wf(),
        ensures
            final(self).wf(),
            final(self).buf.len() == old(self).buf.len(),
            forall|j: int| 0 <= j < final(self).buf.len() ==> final(self).buf[j] == val,
            final(self).window_size == old(self).window_size,
            final(self).state == old(self).state,
            final(self).prev_state == old(self).prev_state,
            final(self).sim_size == old(self).sim_size,
            final(self).camera == old(self).camera,
            final(self).camera_vel == old(self).camera_vel,
            final(self).simulation == old(self).simulation,
    {
        let len = self.buf.len();
        let mut i: usize = 0;
        while i < len
            invariant
                i <= len,
                self.buf.len() == len,
                forall|j: int| 0 <= j < i ==> self.buf[j] == val,
                self.window_size == old(self).window_size,
                self.state == old(self).state,
                self.prev_state == old(self).prev_state,
                self.sim_size == old(self).sim_size,
                self.camera == old(self).camera,
                self.camera_vel == old(self).camera_vel,
                self.simulation == old(self).simulation,
            decreases len - i,
        {
            self.buf[i] = val;
            i = i + 1;
        }
    }
}

/// A fresh frame buffer at the background gray.
fn background_buffer(sx: i64, sy: i64) -> (out: Vec<u8>)
    requires
        1 <= sx <= SIM_EDGE_MAX,
        1 <= sy <= SIM_EDGE_MAX,
    ensures
        out.len() == 4 * sx * sy,
        forall|j: int| 0 <= j < out.len() ==> out[j] == 44u8,
{
    proof {
        assert(4 * (sx as int) * (sy as int) <= 0x40000000int && 0 < (sx as int) * (sy as int))
            by (nonlinear_arith)
            requires
                1 <= sx <= 16384 && 1 <= sy <= 16384,
        ;
    }
    let len: usize = (4 * sx * sy) as usize;
    let mut out: Vec<u8> = Vec::new();
    let mut i: usize = 0;
    while i < len
        invariant
            i <= len,
            out.len() == i,
            forall|j: int| 0 <= j < i ==> out[j] == 44u8,
        decreases len - i,
    {
        out.push(44);
        i = i + 1;
    }
    out
}

impl GravitySim {
    /// Where a window-space point lands in the world: scaled down to
    /// simulation pixels, widened to fixed point, offset by the camera, and
    /// held inside the particle world.
    pub open spec fn spec_spawn_pos(self, p: Vec2<i64, crate::vec2::WindowSpace>) -> (int, int) {
        (
            clamped(
                div_towards_zero(p.x as int, self.state.scale as int) * FP + self.camera.x,
                -PART_POS_MAX as int,
                PART_POS_MAX as int,
            ),
            clamped(
                div_towards_zero(p.y as int, self.state.scale as int) * FP + self.camera.y,
                -PART_POS_MAX as int,
                PART_POS_MAX as int,
            ),
        )
    }

    /// The slingshot velocity of a drag from `released` back to `pressed`:
    /// the drag vector in simulation pixels, scaled by the drawback factor
    /// and divided by the viewport size, in fixed point.
    pub open spec fn spec_drag_vel(
        self,
        pressed: Vec2<i64, crate::vec2::WindowSpace>,
        released: Vec2<i64, crate::vec2::WindowSpace>,
    ) -> (int, int) {
        (
            clamped(
                div_towards_zero(
                    div_towards_zero(pressed.x - released.x, self.state.scale as int)
                        * MOUSE_DRAWBACK_MULTIPLIER * FP,
                    self.sim_size.x as int,
                ),
                -PART_VEL_MAX as int,
                PART_VEL_MAX as int,
            ),
            clamped(
                div_towards_zero(
                    div_towards_zero(pressed.y - released.y, self.state.scale as int)
                        * MOUSE_DRAWBACK_MULTIPLIER * FP,
                    self.sim_size.y as int,
                ),
                -PART_VEL_MAX as int,
                PART_VEL_MAX as int,
            ),
        )
    }

    /// The spawned particle's radius: the brush size in pixels, at least
    /// the minimum particle radius.
    pub open spec fn spec_brush_radius(self) -> int {
        if self.state.draw_size < 2 {
            2 * FP
        } else {
            self.state.draw_size * FP
        }
    }

    /// One camera velocity component after key acceleration and damping.
    pub open spec fn spec_cam_vel(v: int, neg_held: bool, pos_held: bool) -> int {
        let acc = v + (if pos_held {
            CAMERA_SPEED_FP as int
        } else {
            0
        }) - (if neg_held {
            CAMERA_SPEED_FP as int
        } else {
            0
        });
        clamped(
            div_towards_zero(acc * CAM_RES_NUM, CAM_RES_DEN as int),
            -GRAV_CAM_VEL_MAX as int,
            GRAV_CAM_VEL_MAX as int,
        )
    }

    /// The particle list after one frame of input handling, as a function
    /// of the incoming state: the clear key empties it, the reset key
    /// replaces it with the two demonstration particles, and otherwise a
    /// drag-release or a click appends one spawned particle when there is
    /// room.
    pub open spec fn spec_input_particles(self, inputs: InputData) -> Seq<Particle> {
        if inputs.key_c_pressed {
            Seq::<Particle>::empty()
        } else if inputs.key_r_pressed {
            Seq::<Particle>::empty().push(
                crate::particle::spec_new_particle(
                    Vec2 { x: (120 * FP) as i64, y: (120 * FP) as i64, space: core::marker::PhantomData },
                    crate::particle::vec2_zero(),
                    crate::particle::vec2_zero(),
                    (60 * FP) as i64,
                ),
            ).push(
                crate::particle::spec_new_particle(
                    Vec2 { x: (320 * FP) as i64, y: (320 * FP) as i64, space: core::marker::PhantomData },
                    crate::particle::vec2_zero(),
                    crate::particle::vec2_zero(),
                    (60 * FP) as i64,
                ),
            )
        } else {
            let dragged = inputs.mouse_released.state && crate::inputs::spec_dragged(
                inputs.mouse_pressed.pos,
                inputs.mouse_released.pos,
            );
            let clicked = inputs.mouse_released.state && inputs.mouse_released.time_ms
                - inputs.mouse_pressed.time_ms < crate::inputs::MOUSE_HOLD_THRESHOLD_MS;
            let room = self.simulation.particles@.len() < PART_N_MAX;
            if dragged && room {
                self.simulation.particles@.push(
                    crate::particle::spec_new_particle(
                        vec2_from(self.spec_spawn_pos(inputs.mouse_pressed.pos)),
                        vec2_from(
                            self.spec_drag_vel(inputs.mouse_pressed.pos, inputs.mouse_released.pos),
                        ),
                        crate::particle::vec2_zero(),
                        self.spec_brush_radius() as i64,
                    ),
                )
            } else if !dragged && clicked && room {
                self.simulation.particles@.push(
                    crate::particle::spec_new_particle(
                        vec2_from(self.spec_spawn_pos(inputs.mouse_pressed.pos)),
                        crate::particle::vec2_zero(),
                        crate::particle::vec2_zero(),
                        self.spec_brush_radius() as i64,
                    ),
                )
            } else {
                self.simulation.particles@
            }
        }
    }

    /// The render-space pixel a particle's centre maps to through the
    /// camera.
    pub open spec fn spec_px(self, p: Particle) -> (int, int) {
        (
            div_towards_zero(p.pos.x - self.camera.x, FP as int),
            div_towards_zero(p.pos.y - self.camera.y, FP as int),
        )
    }

    /// The particle's disk touches the viewport, so the renderer does not
    /// skip it.
    pub open spec fn spec_visible(self, p: Particle) -> bool {
        let px = self.spec_px(p).0;
        let py = self.spec_px(p).1;
        let pr = div_towards_zero(p.radius as int, FP as int);
        !(px + pr < 0 || py + pr < 0 || px - pr >= self.sim_size.x || py - pr >= self.sim_size.y)
    }

    /// The render-space pixel is either out of view or shows `colour` in
    /// `buf`.
    pub open spec fn pix_painted(self, buf: Seq<u8>, tx: int, ty: int, colour: Rgba) -> bool {
        let w = self.sim_size.x as int;
        let h = self.sim_size.y as int;
        !(0 <= tx < w && 0 <= ty < h) || {
            let base = 4 * (ty * w + tx);
            &&& buf[base] == colour.r
            &&& buf[base + 1] == colour.g
            &&& buf[base + 2] == colour.b
            &&& buf[base + 3] == colour.a
        }
    }

    /// Digests one frame of input: click or drag-release spawns a particle
    /// (a slingshot launch on a drag), the pause, step, clear and reset keys
    /// act, the brush resizes and cycles, and the held movement keys
    /// accelerate the damped camera.
    #[verifier::rlimit(100)]
    pub fn handle_input_state(&mut self, inputs: &InputData)
        requires
            old(self).wf(),
            inputs.wf(),
            inputs.mouse_released.time_ms >= inputs.mouse_pressed.time_ms,
        ensures
            final(self).wf(),
            final(self).state.running == (if inputs.key_space_pressed {
                !old(self).state.running
            } else {
                old(self).state.running
            }),
            final(self).state.step_sim == inputs.key_right_pressed,
            final(self).state.draw_size == clamped(
                old(self).state.draw_size + (if inputs.key_up_pressed {
                    1int
                } else {
                    0int
                }) - (if inputs.key_down_pressed {
                    1int
                } else {
                    0int
                }),
                1,
                MAX_DRAW_SIZE as int,
            ),
            final(self).state.draw_shape == (if inputs.key_tab_pressed {
                next_shape(old(self).state.draw_shape)
            } else {
                old(self).state.draw_shape
            }),
            final(self).state.mouse.x == inputs.mouse_pos.x && final(self).state.mouse.y
                == inputs.mouse_pos.y,
            final(self).camera_vel.x == Self::spec_cam_vel(
                old(self).camera_vel.x as int,
                inputs.key_a_held,
                inputs.key_d_held,
            ),
            final(self).camera_vel.y == Self::spec_cam_vel(
                old(self).camera_vel.y as int,
                inputs.key_w_held,
                inputs.key_s_held,
            ),
            final(self).camera.x == clamped(
                old(self).camera.x + final(self).camera_vel.x,
                -GRAV_CAM_MAX as int,
                GRAV_CAM_MAX as int,
            ),
            final(self).camera.y == clamped(
                old(self).camera.y + final(self).camera_vel.y,
                -GRAV_CAM_MAX as int,
                GRAV_CAM_MAX as int,
            ),
            final(self).simulation.particles@ == old(self).spec_input_particles(*inputs),
            final(self).buf == old(self).buf,
            final(self).sim_size == old(self).sim_size,
            final(self).window_size == old(self).window_size,
            final(self).prev_state == old(self).prev_state,
            final(self).state.frame == old(self).state.frame,
            final(self).state.scale == old(self).state.scale,
    {
        let pressed = inputs.mouse_pressed.pos;
        let released = inputs.mouse_released.pos;
        // Spawning: a drag-release launches, a click drops a resting
        // particle at the cursor.
        if inputs.was_mouse_dragging() {
            if self.simulation.particles.len() < PART_N_MAX {
                let pos = self.spawn_pos_exec(pressed);
                let vel = self.drag_vel_exec(pressed, released);
                let radius = self.brush_radius_exec();
                self.simulation.spawn_particle(pos, vel, vec2(0, 0), radius);
            }
        } else if inputs.was_mouse_pressed() {
            if self.simulation.particles.len() < PART_N_MAX {
                let pos = self.spawn_pos_exec(pressed);
                let radius = self.brush_radius_exec();
                self.simulation.spawn_particle(pos, vec2(0, 0), vec2(0, 0), radius);
            }
        }
        // Pause toggle and single-step request.
        if inputs.key_space_pressed {
            self.state.running = !self.state.running;
        }
        self.state.step_sim = inputs.key_right_pressed;
        // Clear or reset the particle list.
        if inputs.key_c_pressed {
            self.simulation.clear();
        } else if inputs.key_r_pressed {
            self.simulation.reset();
        }
        // Held movement keys accelerate the camera.
        let mut vy: i64 = self.camera_vel.y;
        if inputs.key_w_held {
            vy = vy - CAMERA_SPEED_FP;
        }
        if inputs.key_s_held {
            vy = vy + CAMERA_SPEED_FP;
        }
        let mut vx: i64 = self.camera_vel.x;
        if inputs.key_d_held {
            vx = vx + CAMERA_SPEED_FP;
        }
        if inputs.key_a_held {
            vx = vx - CAMERA_SPEED_FP;
        }
        // Brush size, held to its range.
        let mut ds: i64 = self.state.draw_size;
        if inputs.key_up_pressed {
            ds = ds + 1;
        }
        if inputs.key_down_pressed {
            ds = ds - 1;
        }
        self.state.draw_size = clamp_i64(ds, 1, MAX_DRAW_SIZE);
        // Brush shape cycling.
        if inputs.key_tab_pressed {
            self.state.draw_shape = match self.state.draw_shape {
                Shape::CircleOutline => Shape::CircleFill,
                Shape::CircleFill => Shape::SquareCentered,
                Shape::SquareCentered => Shape::CircleOutline,
            };
        }
        // Damp the camera velocity and move the camera; the equilibrium of
        // acceleration against damping bounds the speed.
        let dvx = clamp_i64(div_i64(vx * CAM_RES_NUM, CAM_RES_DEN), -GRAV_CAM_VEL_MAX,
            GRAV_CAM_VEL_MAX);
        let dvy = clamp_i64(div_i64(vy * CAM_RES_NUM, CAM_RES_DEN), -GRAV_CAM_VEL_MAX,
            GRAV_CAM_VEL_MAX);
        self.camera_vel = vec2(dvx, dvy);
        let cx = clamp_i64(self.camera.x + dvx, -GRAV_CAM_MAX, GRAV_CAM_MAX);
        let cy = clamp_i64(self.camera.y + dvy, -GRAV_CAM_MAX, GRAV_CAM_MAX);
        self.camera = vec2(cx, cy);
        self.state.mouse = inputs.mouse_pos.cast_unit();
    }

    /// The world position a spawn at window point `p` gets.
    fn spawn_pos_exec(&self, p: Vec2<i64, crate::vec2::WindowSpace>) -> (out: Vec2<
        i64,
        WorldSpace,
    >)
        requires
            self.wf(),
            p.abs_le(0x10000000int),
        ensures
            (out.x as int, out.y as int) == self.spec_spawn_pos(p),
            out.abs_le(PART_POS_MAX as int),
    {
        proof {
            crate::intmath::lemma_div_towards_zero_bound(p.x as int, self.state.scale as int);
            crate::intmath::lemma_div_towards_zero_bound(p.y as int, self.state.scale as int);
        }
        let px = div_i64(p.x, self.state.scale);
        let py = div_i64(p.y, self.state.scale);
        let x = clamp_i64(px * FP + self.camera.x, -PART_POS_MAX, PART_POS_MAX);
        let y = clamp_i64(py * FP + self.camera.y, -PART_POS_MAX, PART_POS_MAX);
        vec2(x, y)
    }

    /// The slingshot velocity of a drag.
    fn drag_vel_exec(
        &self,
        pressed: Vec2<i64, crate::vec2::WindowSpace>,
        released: Vec2<i64, crate::vec2::WindowSpace>,
    ) -> (out: Vec2<i64, WorldSpace>)
        requires
            self.wf(),
            pressed.abs_le(0x10000000int),
            released.abs_le(0x10000000int),
        ensures
            (out.x as int, out.y as int) == self.spec_drag_vel(pressed, released),
            out.abs_le(PART_VEL_MAX as int),
    {
        proof {
            crate::intmath::lemma_div_towards_zero_bound(
                pressed.x - released.x,
                self.state.scale as int,
            );
            crate::intmath::lemma_div_towards_zero_bound(
                pressed.y - released.y,
                self.state.scale as int,
            );
        }
        let dx = div_i64(pressed.x - released.x, self.state.scale);
        let dy = div_i64(pressed.y - released.y, self.state.scale);
        proof {
            crate::intmath::lemma_div_towards_zero_bound(
                (dx as int) * MOUSE_DRAWBACK_MULTIPLIER * FP,
                self.sim_size.x as int,
            );
            crate::intmath::lemma_div_towards_zero_bound(
                (dy as int) * MOUSE_DRAWBACK_MULTIPLIER * FP,
                self.sim_size.y as int,
            );
        }
        let vx = clamp_i64(div_i64(dx * MOUSE_DRAWBACK_MULTIPLIER * FP, self.sim_size.x),
            -PART_VEL_MAX, PART_VEL_MAX);
        let vy = clamp_i64(div_i64(dy * MOUSE_DRAWBACK_MULTIPLIER * FP, self.sim_size.y),
            -PART_VEL_MAX, PART_VEL_MAX);
        vec2(vx, vy)
    }

    /// The brush radius in fixed point, never below the engine's minimum.
    fn brush_radius_exec(&self) -> (out: i64)
        requires
            self.wf(),
        ensures
            out == self.spec_brush_radius(),
            RAD_MIN <= out <= RAD_MAX,
    {
        if self.state.draw_size < 2 {
            2 * FP
        } else {
            self.state.draw_size * FP
        }
    }
}

/// A world vector from a pair of components.
pub open spec fn vec2_from(p: (int, int)) -> Vec2<i64, WorldSpace> {
    Vec2 { x: p.0 as i64, y: p.1 as i64, space: core::marker::PhantomData }
}

impl GravitySim {
    /// Writes one colour at a byte index, four channel bytes in a row.
    fn write_colour(&mut self, index: usize, col: Rgba)
        requires
            old(self).wf(),
            index + 3 < old(self).buf.len(),
        ensures
            final(self).wf(),
            final(self).buf@ == old(self).buf@.update(index as int, col.r).update(
                index + 1,
                col.g,
            ).update(index + 2, col.b).update(index + 3, col.a),
            final(self).buf.len() == old(self).buf.len(),
            final(self).state == old(self).state,
            final(self).prev_state == old(self).prev_state,
            final(self).sim_size == old(self).sim_size,
            final(self).window_size == old(self).window_size,
            final(self).camera == old(self).camera,
            final(self).camera_vel == old(self).camera_vel,
            final(self).simulation == old(self).simulation,
    {
        self.buf[index] = col.r;
        self.buf[index + 1] = col.g;
        self.buf[index + 2] = col.b;
        self.buf[index + 3] = col.a;
    }

    /// Writes one simulation pixel.
    fn write_to_buf(&mut self, pos: Vec2<i64, RenderSpace>, col: Rgba)
        requires
            old(self).wf(),
            0 <= pos.x < old(self).sim_size.x,
            0 <= pos.y < old(self).sim_size.y,
        ensures
            final(self).wf(),
            final(self).buf.len() == old(self).buf.len(),
            final(self).buf@ == old(self).buf@.update(
                4 * (pos.y * old(self).sim_size.x + pos.x),
                col.r,
            ).update(4 * (pos.y * old(self).sim_size.x + pos.x) + 1, col.g).update(
                4 * (pos.y * old(self).sim_size.x + pos.x) + 2,
                col.b,
            ).update(4 * (pos.y * old(self).sim_size.x + pos.x) + 3, col.a),
            final(self).state == old(self).state,
            final(self).prev_state == old(self).prev_state,
            final(self).sim_size == old(self).sim_size,
            final(self).window_size == old(self).window_size,
            final(self).camera == old(self).camera,
            final(self).camera_vel == old(self).camera_vel,
            final(self).simulation == old(self).simulation,
    {
        proof {
            let w = self.sim_size.x as int;
            let h = self.sim_size.y as int;
            assert(0 <= (pos.y as int) * w && (pos.y as int) * w + pos.x <= (h - 1) * w + (w - 1)
                && (h - 1) * w + (w - 1) < h * w && 4 * (h * w) == 4 * w * h && h * w
                <= 16384 * 16384) by (nonlinear_arith)
                requires
                    0 <= pos.x < w && 0 <= pos.y < h && 1 <= w <= 16384 && 1 <= h <= 16384,
            ;
        }
        let index: usize = (4 * (pos.y * self.sim_size.x + pos.x)) as usize;
        self.write_colour(index, col);
    }

    /// Draws every live particle as a filled white disk through the camera:
    /// afterwards each live, visible particle of at least unit radius shows
    /// white at its centre pixel, and every changed byte is a white channel
    /// byte.
    pub fn render_particles(&mut self)
        requires
            old(self).wf(),
        ensures
            final(self).wf(),
            final(self).buf.len() == old(self).buf.len(),
            final(self).state == old(self).state,
            final(self).prev_state == old(self).prev_state,
            final(self).sim_size == old(self).sim_size,
            final(self).window_size == old(self).window_size,
            final(self).camera == old(self).camera,
            final(self).camera_vel == old(self).camera_vel,
            final(self).simulation == old(self).simulation,
            forall|j: int|
                0 <= j < final(self).buf.len() ==> final(self).buf[j] == old(self).buf[j]
                    || final(self).buf[j] == crate::world::fill_byte(
                    crate::colour::spec_white(),
                    j,
                ),
            forall|k: int|
                0 <= k < old(self).simulation.particles@.len() && live(
                    #[trigger] old(self).simulation.particles@[k],
                ) && old(self).simulation.particles@[k].radius >= FP && old(self).spec_visible(
                    old(self).simulation.particles@[k],
                ) ==> old(self).pix_painted(
                    final(self).buf@,
                    old(self).spec_px(old(self).simulation.particles@[k]).0,
                    old(self).spec_px(old(self).simulation.particles@[k]).1,
                    crate::colour::spec_white(),
                ),
    {
        let n = self.simulation.particles.len();
        let mut i: usize = 0;
        while i < n
            invariant
                self.wf(),
                n == self.simulation.particles@.len(),
                self.buf.len() == old(self).buf.len(),
                self.state == old(self).state,
                self.prev_state == old(self).prev_state,
                self.sim_size == old(self).sim_size,
                self.window_size == old(self).window_size,
                self.camera == old(self).camera,
                self.camera_vel == old(self).camera_vel,
                self.simulation == old(self).simulation,
                forall|j: int|
                    0 <= j < self.buf.len() ==> self.buf[j] == old(self).buf[j] || self.buf[j]
                        == crate::world::fill_byte(crate::colour::spec_white(), j),
                forall|k: int|
                    0 <= k < i && live(#[trigger] old(self).simulation.particles@[k]) && old(self).simulation.particles@[k].radius >= FP && old(self).spec_visible(
                        old(self).simulation.particles@[k],
                    ) ==> old(self).pix_painted(
                        self.buf@,
                        old(self).spec_px(old(self).simulation.particles@[k]).0,
                        old(self).spec_px(old(self).simulation.particles@[k]).1,
                        crate::colour::spec_white(),
                    ),
            decreases n - i,
        {
            let ghost pre_particle = self.buf@;
            let p = self.simulation.particles[i];
            if p.mass > 0 {
                let px = div_i64(p.pos.x - self.camera.x, FP);
                let py = div_i64(p.pos.y - self.camera.y, FP);
                let pr = div_i64(p.radius, FP);
                proof {
                    crate::intmath::lemma_div_towards_zero_bound(
                        p.pos.x - self.camera.x,
                        FP as int,
                    );
                    crate::intmath::lemma_div_towards_zero_bound(
                        p.pos.y - self.camera.y,
                        FP as int,
                    );
                    crate::intmath::lemma_div_towards_zero_bound(p.radius as int, FP as int);
                    crate::intmath::lemma_div_towards_zero_mono(
                        p.pos.x - self.camera.x,
                        FP as int,
                        FP as int,
                    );
                    crate::intmath::lemma_div_towards_zero_mono(
                        p.pos.y - self.camera.y,
                        FP as int,
                        FP as int,
                    );
                    crate::intmath::lemma_div_towards_zero_mono(p.radius as int, FP as int,
                        FP as int);
                    assert((0x20000000000int + 0x10000000000int) / 0x10000int == 0x3000000int);
                    assert(0x2000000int / 0x10000int == 0x200int);
                }
                // Skip particles wholly outside the viewport.
                if !(px + pr < 0 || py + pr < 0 || px - pr >= self.sim_size.x || py - pr
                    >= self.sim_size.y) {
                    let offsets = crate::raster::circle_fill_offsets(pr);
                    let ghost offs = offsets@;
                    self.draw_offsets_white(&offsets, px, py, pr);
                    proof {
                        if pr >= 1 {
                            assert(crate::raster::oset(offs).contains((0int, 0int)));
                            let m = choose|m: int|
                                0 <= m < offs.len() && offs[m].0 == 0 && offs[m].1 == 0;
                            assert(old(self).pix_painted(
                                self.buf@,
                                px + offs[m].0,
                                py + offs[m].1,
                                crate::colour::spec_white(),
                            ));
                        }
                    }
                }
            }
            proof {
                assert forall|k: int|
                    0 <= k < i + 1 && live(#[trigger] old(self).simulation.particles@[k]) && old(self).simulation.particles@[k].radius >= FP && old(self).spec_visible(
                        old(self).simulation.particles@[k],
                    ) implies old(self).pix_painted(
                    self.buf@,
                    old(self).spec_px(old(self).simulation.particles@[k]).0,
                    old(self).spec_px(old(self).simulation.particles@[k]).1,
                    crate::colour::spec_white(),
                ) by {
                    if k < i {
                        lemma_gpainted_persists(
                            self.sim_size.x as int,
                            self.sim_size.y as int,
                            pre_particle,
                            self.buf@,
                            old(self).spec_px(old(self).simulation.particles@[k]).0,
                            old(self).spec_px(old(self).simulation.particles@[k]).1,
                            crate::colour::spec_white(),
                        );
                    }
                }
            }
            i = i + 1;
        }
    }

    /// Writes a shape's offsets around an origin, dropping out-of-view
    /// pixels.
    fn draw_offsets_white(&mut self, offsets: &Vec<(i64, i64)>, px: i64, py: i64, bound: i64)
        requires
            old(self).wf(),
            -0x4000000 <= px <= 0x4000000,
            -0x4000000 <= py <= 0x4000000,
            0 <= bound <= RASTER_MAX,
            offsets_within(offsets@, bound as int),
        ensures
            final(self).wf(),
            final(self).buf.len() == old(self).buf.len(),
            final(self).state == old(self).state,
            final(self).prev_state == old(self).prev_state,
            final(self).sim_size == old(self).sim_size,
            final(self).window_size == old(self).window_size,
            final(self).camera == old(self).camera,
            final(self).camera_vel == old(self).camera_vel,
            final(self).simulation == old(self).simulation,
            forall|j: int|
                0 <= j < final(self).buf.len() ==> final(self).buf[j] == old(self).buf[j]
                    || final(self).buf[j] == crate::world::fill_byte(crate::colour::spec_white(), j),
            forall|m: int|
                0 <= m < offsets@.len() ==> old(self).pix_painted(
                    final(self).buf@,
                    px + (#[trigger] offsets@[m]).0,
                    py + offsets@[m].1,
                    crate::colour::spec_white(),
                ),
    {
        let mut k: usize = 0;
        while k < offsets.len()
            invariant
                self.wf(),
                -0x4000000 <= px <= 0x4000000,
                -0x4000000 <= py <= 0x4000000,
                0 <= bound <= RASTER_MAX,
                offsets_within(offsets@, bound as int),
                self.buf.len() == old(self).buf.len(),
                self.state == old(self).state,
                self.prev_state == old(self).prev_state,
                self.sim_size == old(self).sim_size,
                self.window_size == old(self).window_size,
                self.camera == old(self).camera,
                self.camera_vel == old(self).camera_vel,
                self.simulation == old(self).simulation,
                forall|j: int|
                    0 <= j < self.buf.len() ==> self.buf[j] == old(self).buf[j] || self.buf[j]
                        == crate::world::fill_byte(crate::colour::spec_white(), j),
                forall|m: int|
                    0 <= m < k ==> old(self).pix_painted(
                        self.buf@,
                        px + (#[trigger] offsets@[m]).0,
                        py + offsets@[m].1,
                        crate::colour::spec_white(),
                    ),
            decreases offsets.len() - k,
        {
            let ghost pre = self.buf@;
            let off = offsets[k];
            let tx = px + off.0;
            let ty = py + off.1;
            if tx >= 0 && ty >= 0 && tx < self.sim_size.x && ty < self.sim_size.y {
                self.write_to_buf(vec2(tx, ty), white());
                proof {
                    lemma_gpaint_step(
                        self.sim_size.x as int,
                        self.sim_size.y as int,
                        pre,
                        self.buf@,
                        tx as int,
                        ty as int,
                        crate::colour::spec_white(),
                    );
                }
            }
            proof {
                assert forall|m: int| 0 <= m < k + 1 implies old(self).pix_painted(
                    self.buf@,
                    px + (#[trigger] offsets@[m]).0,
                    py + offsets@[m].1,
                    crate::colour::spec_white(),
                ) by {
                    if m < k {
                        lemma_gpainted_persists(
                            self.sim_size.x as int,
                            self.sim_size.y as int,
                            pre,
                            self.buf@,
                            px + offsets@[m].0,
                            py + offsets@[m].1,
                            crate::colour::spec_white(),
                        );
                    }
                }
            }
            k = k + 1;
        }
    }

    /// The render-space pixel the brush paints for offset `(ox, oy)`:
    /// the scaled cursor plus the offset, clamped into the viewport.
    pub open spec fn spec_brush_px(self, ox: int, oy: int) -> (int, int) {
        let mx = div_towards_zero(self.state.mouse.x as int, self.state.scale as int);
        let my = div_towards_zero(self.state.mouse.y as int, self.state.scale as int);
        (
            clamped(mx + ox, 0, self.sim_size.x - 1),
            clamped(my + oy, 0, self.sim_size.y - 1),
        )
    }

    /// Draws the brush outline at the cursor, clamped into the viewport:
    /// afterwards a known pixel of the brush shows the colour — the topmost
    /// outline point, the fill's centre, or the square's corner — and every
    /// changed byte is one of the colour's channel bytes.
    #[verifier::rlimit(100)]
    pub fn render_mouse_outline(&mut self, colour: Rgba)
        requires
            old(self).wf(),
        ensures
            final(self).wf(),
            final(self).buf.len() == old(self).buf.len(),
            final(self).state == old(self).state,
            final(self).prev_state == old(self).prev_state,
            final(self).sim_size == old(self).sim_size,
            final(self).window_size == old(self).window_size,
            final(self).camera == old(self).camera,
            final(self).camera_vel == old(self).camera_vel,
            final(self).simulation == old(self).simulation,
            forall|j: int|
                0 <= j < final(self).buf.len() ==> final(self).buf[j] == old(self).buf[j]
                    || final(self).buf[j] == crate::world::fill_byte(colour, j),
            old(self).state.draw_shape == Shape::CircleOutline ==> old(self).pix_painted(
                final(self).buf@,
                old(self).spec_brush_px(0, old(self).state.draw_size as int).0,
                old(self).spec_brush_px(0, old(self).state.draw_size as int).1,
                colour,
            ),
            old(self).state.draw_shape == Shape::CircleFill ==> old(self).pix_painted(
                final(self).buf@,
                old(self).spec_brush_px(0, 0).0,
                old(self).spec_brush_px(0, 0).1,
                colour,
            ),
    {
        let mx = div_i64(self.state.mouse.x, self.state.scale);
        let my = div_i64(self.state.mouse.y, self.state.scale);
        proof {
            crate::intmath::lemma_div_towards_zero_bound(self.state.mouse.x as int,
                self.state.scale as int);
            crate::intmath::lemma_div_towards_zero_bound(self.state.mouse.y as int,
                self.state.scale as int);
        }
        let offsets = self.state.draw_shape.draw(self.state.draw_size);
        let ghost pre = *self;
        let mut k: usize = 0;
        while k < offsets.len()
            invariant
                self.wf(),
                mx == div_towards_zero(old(self).state.mouse.x as int,
                    old(self).state.scale as int),
                my == div_towards_zero(old(self).state.mouse.y as int,
                    old(self).state.scale as int),
                -0x10000000 <= mx <= 0x10000000,
                -0x10000000 <= my <= 0x10000000,
                offsets_within(offsets@, MAX_DRAW_SIZE as int),
                self.buf.len() == pre.buf.len(),
                self.state == pre.state,
                self.prev_state == pre.prev_state,
                self.sim_size == pre.sim_size,
                self.window_size == pre.window_size,
                self.camera == pre.camera,
                self.camera_vel == pre.camera_vel,
                self.simulation == pre.simulation,
                pre == *old(self),
                forall|j: int|
                    0 <= j < self.buf.len() ==> self.buf[j] == old(self).buf[j] || self.buf[j]
                        == crate::world::fill_byte(colour, j),
                forall|m: int|
                    0 <= m < k ==> old(self).pix_painted(
                        self.buf@,
                        old(self).spec_brush_px(
                            (#[trigger] offsets@[m]).0 as int,
                            offsets@[m].1 as int,
                        ).0,
                        old(self).spec_brush_px(offsets@[m].0 as int, offsets@[m].1 as int).1,
                        colour,
                    ),
            decreases offsets.len() - k,
        {
            let ghost prebuf = self.buf@;
            let off = offsets[k];
            let tx = clamp_i64(mx + off.0, 0, self.sim_size.x - 1);
            let ty = clamp_i64(my + off.1, 0, self.sim_size.y - 1);
            self.write_to_buf(vec2(tx, ty), colour);
            proof {
                lemma_gpaint_step(
                    self.sim_size.x as int,
                    self.sim_size.y as int,
                    prebuf,
                    self.buf@,
                    tx as int,
                    ty as int,
                    colour,
                );
                assert forall|m: int| 0 <= m < k + 1 implies old(self).pix_painted(
                    self.buf@,
                    old(self).spec_brush_px(
                        (#[trigger] offsets@[m]).0 as int,
                        offsets@[m].1 as int,
                    ).0,
                    old(self).spec_brush_px(offsets@[m].0 as int, offsets@[m].1 as int).1,
                    colour,
                ) by {
                    if m < k {
                        lemma_gpainted_persists(
                            self.sim_size.x as int,
                            self.sim_size.y as int,
                            prebuf,
                            self.buf@,
                            old(self).spec_brush_px(offsets@[m].0 as int, offsets@[m].1 as int).0,
                            old(self).spec_brush_px(offsets@[m].0 as int, offsets@[m].1 as int).1,
                            colour,
                        );
                    }
                }
            }
            k = k + 1;
        }
        proof {
            let ghost offs = offsets@;
            if old(self).state.draw_shape == Shape::CircleOutline {
                assert(crate::raster::oset(offs).contains(
                    (0int, old(self).state.draw_size as int),
                ));
                let m = choose|m: int|
                    0 <= m < offs.len() && offs[m].0 == 0 && offs[m].1 == old(self).state.draw_size;
                assert(old(self).pix_painted(
                    self.buf@,
                    old(self).spec_brush_px(offs[m].0 as int, offs[m].1 as int).0,
                    old(self).spec_brush_px(offs[m].0 as int, offs[m].1 as int).1,
                    colour,
                ));
            }
            if old(self).state.draw_shape == Shape::CircleFill {
                assert(crate::raster::oset(offs).contains((0int, 0int)));
                let m = choose|m: int| 0 <= m < offs.len() && offs[m].0 == 0 && offs[m].1 == 0;
                assert(old(self).pix_painted(
                    self.buf@,
                    old(self).spec_brush_px(offs[m].0 as int, offs[m].1 as int).0,
                    old(self).spec_brush_px(offs[m].0 as int, offs[m].1 as int).1,
                    colour,
                ));
            }
        }
    }

    /// Repaints the previous frame's brush outline with the background
    /// wherever it still shows the outline colour: every changed byte is a
    /// background channel byte.
    pub fn clear_mouse_outline(&mut self, colour: Rgba)
        requires
            old(self).wf(),
        ensures
            final(self).wf(),
            final(self).buf.len() == old(self).buf.len(),
            final(self).state == old(self).state,
            final(self).prev_state == old(self).prev_state,
            final(self).sim_size == old(self).sim_size,
            final(self).window_size == old(self).window_size,
            final(self).camera == old(self).camera,
            final(self).camera_vel == old(self).camera_vel,
            final(self).simulation == old(self).simulation,
            forall|j: int|
                0 <= j < final(self).buf.len() ==> final(self).buf[j] == old(self).buf[j]
                    || final(self).buf[j] == crate::world::fill_byte(
                    crate::colour::spec_gray(),
                    j,
                ),
    {
        let mx = div_i64(self.prev_state.mouse.x, self.prev_state.scale);
        let my = div_i64(self.prev_state.mouse.y, self.prev_state.scale);
        proof {
            crate::intmath::lemma_div_towards_zero_bound(self.prev_state.mouse.x as int,
                self.prev_state.scale as int);
            crate::intmath::lemma_div_towards_zero_bound(self.prev_state.mouse.y as int,
                self.prev_state.scale as int);
        }
        let offsets = self.prev_state.draw_shape.draw(self.prev_state.draw_size);
        let ghost pre = *self;
        let mut k: usize = 0;
        while k < offsets.len()
            invariant
                self.wf(),
                -0x10000000 <= mx <= 0x10000000,
                -0x10000000 <= my <= 0x10000000,
                offsets_within(offsets@, MAX_DRAW_SIZE as int),
                self.buf.len() == pre.buf.len(),
                self.state == pre.state,
                self.prev_state == pre.prev_state,
                self.sim_size == pre.sim_size,
                self.window_size == pre.window_size,
                self.camera == pre.camera,
                self.camera_vel == pre.camera_vel,
                self.simulation == pre.simulation,
                pre == *old(self),
                forall|j: int|
                    0 <= j < self.buf.len() ==> self.buf[j] == old(self).buf[j] || self.buf[j]
                        == crate::world::fill_byte(crate::colour::spec_gray(), j),
            decreases offsets.len() - k,
        {
            let ghost prebuf = self.buf@;
            let off = offsets[k];
            let tx = clamp_i64(mx + off.0, 0, self.sim_size.x - 1);
            let ty = clamp_i64(my + off.1, 0, self.sim_size.y - 1);
            proof {
                let w = self.sim_size.x as int;
                let h = self.sim_size.y as int;
                assert(0 <= (ty as int) * w && (ty as int) * w + tx <= (h - 1) * w + (w - 1) && (h
                    - 1) * w + (w - 1) < h * w && 4 * (h * w) == 4 * w * h && h * w
                    <= 16384 * 16384) by (nonlinear_arith)
                    requires
                        0 <= tx < w && 0 <= ty < h && 1 <= w <= 16384 && 1 <= h <= 16384,
                ;
            }
            let index: usize = (4 * (ty * self.sim_size.x + tx)) as usize;
            let same = self.buf[index] == colour.r && self.buf[index + 1] == colour.g
                && self.buf[index + 2] == colour.b && self.buf[index + 3] == colour.a;
            if same {
                self.write_colour(index, gray());
                proof {
                    lemma_gpaint_step(
                        self.sim_size.x as int,
                        self.sim_size.y as int,
                        prebuf,
                        self.buf@,
                        tx as int,
                        ty as int,
                        crate::colour::spec_gray(),
                    );
                }
            }
            k = k + 1;
        }
    }

    /// The overlay for the frame: a drag shows the slingshot line from the
    /// press point to the cursor (its press-point pixel ends up highlighted);
    /// otherwise the previous brush outline is cleared back to the
    /// background and the brush outline follows the cursor. Every changed
    /// byte carries the highlight, brush or background colour.
    pub fn handle_input_renders(&mut self, inputs: &InputData)
        requires
            old(self).wf(),
            inputs.wf(),
        ensures
            final(self).wf(),
            final(self).buf.len() == old(self).buf.len(),
            final(self).state == old(self).state,
            final(self).prev_state == old(self).prev_state,
            final(self).sim_size == old(self).sim_size,
            final(self).window_size == old(self).window_size,
            final(self).camera == old(self).camera,
            final(self).camera_vel == old(self).camera_vel,
            final(self).simulation == old(self).simulation,
            forall|j: int|
                0 <= j < final(self).buf.len() ==> final(self).buf[j] == old(self).buf[j]
                    || final(self).buf[j] == crate::world::fill_byte(crate::colour::spec_red(), j)
                    || final(self).buf[j] == crate::world::fill_byte(
                    crate::colour::spec_green(),
                    j,
                ) || final(self).buf[j] == crate::world::fill_byte(crate::colour::spec_gray(), j),
            inputs.mouse_down && crate::inputs::spec_dragged(
                inputs.mouse_pressed.pos,
                inputs.mouse_pos,
            ) ==> old(self).pix_painted(
                final(self).buf@,
                clamped(
                    div_towards_zero(
                        inputs.mouse_pressed.pos.x as int,
                        old(self).state.scale as int,
                    ),
                    0,
                    old(self).sim_size.x - 1,
                ),
                clamped(
                    div_towards_zero(
                        inputs.mouse_pressed.pos.y as int,
                        old(self).state.scale as int,
                    ),
                    0,
                    old(self).sim_size.y - 1,
                ),
                crate::colour::spec_red(),
            ),
            !(inputs.mouse_down && crate::inputs::spec_dragged(
                inputs.mouse_pressed.pos,
                inputs.mouse_pos,
            )) && old(self).state.draw_shape == Shape::CircleFill ==> old(self).pix_painted(
                final(self).buf@,
                old(self).spec_brush_px(0, 0).0,
                old(self).spec_brush_px(0, 0).1,
                crate::colour::spec_green(),
            ),
    {
        if inputs.is_mouse_dragging() {
            let ax = div_i64(inputs.mouse_pressed.pos.x, self.state.scale);
            let ay = div_i64(inputs.mouse_pressed.pos.y, self.state.scale);
            let bx = div_i64(inputs.mouse_pos.x, self.state.scale);
            let by = div_i64(inputs.mouse_pos.y, self.state.scale);
            proof {
                crate::intmath::lemma_div_towards_zero_bound(inputs.mouse_pressed.pos.x as int,
                    self.state.scale as int);
                crate::intmath::lemma_div_towards_zero_bound(inputs.mouse_pressed.pos.y as int,
                    self.state.scale as int);
                crate::intmath::lemma_div_towards_zero_bound(inputs.mouse_pos.x as int,
                    self.state.scale as int);
                crate::intmath::lemma_div_towards_zero_bound(inputs.mouse_pos.y as int,
                    self.state.scale as int);
            }
            let pts = Shape::draw_arrow::<RenderSpace>(vec2(ax, ay), vec2(bx, by));
            let ghost pre = *self;
            let mut k: usize = 0;
            while k < pts.len()
                invariant
                    self.wf(),
                    self.buf.len() == pre.buf.len(),
                    self.state == pre.state,
                    self.prev_state == pre.prev_state,
                    self.sim_size == pre.sim_size,
                    self.window_size == pre.window_size,
                    self.camera == pre.camera,
                    self.camera_vel == pre.camera_vel,
                    self.simulation == pre.simulation,
                    pre == *old(self),
                    pts@.len() >= 1,
                    pts@[0].0 == ax && pts@[0].1 == ay,
                    forall|j: int|
                        0 <= j < self.buf.len() ==> self.buf[j] == old(self).buf[j] || self.buf[j]
                            == crate::world::fill_byte(crate::colour::spec_red(), j),
                    k >= 1 ==> old(self).pix_painted(
                        self.buf@,
                        clamped(ax as int, 0, old(self).sim_size.x - 1),
                        clamped(ay as int, 0, old(self).sim_size.y - 1),
                        crate::colour::spec_red(),
                    ),
                decreases pts.len() - k,
            {
                let ghost prebuf = self.buf@;
                let pnt = pts[k];
                let tx = clamp_i64(pnt.0, 0, self.sim_size.x - 1);
                let ty = clamp_i64(pnt.1, 0, self.sim_size.y - 1);
                self.write_to_buf(vec2(tx, ty), red());
                proof {
                    lemma_gpaint_step(
                        self.sim_size.x as int,
                        self.sim_size.y as int,
                        prebuf,
                        self.buf@,
                        tx as int,
                        ty as int,
                        crate::colour::spec_red(),
                    );
                    if k >= 1 {
                        lemma_gpainted_persists(
                            self.sim_size.x as int,
                            self.sim_size.y as int,
                            prebuf,
                            self.buf@,
                            clamped(ax as int, 0, old(self).sim_size.x - 1),
                            clamped(ay as int, 0, old(self).sim_size.y - 1),
                            crate::colour::spec_red(),
                        );
                    }
                }
                k = k + 1;
            }
        } else {
            self.clear_mouse_outline(green());
            self.render_mouse_outline(green());
        }
    }

    /// One whole frame: digest the input, clear to the background, step the
    /// physics when running or single-stepping, draw the particles and the
    /// cursor overlay, then retire the frame state. The resulting particle
    /// list is pinned exactly: the input-driven list, put through one
    /// physics tick when the simulation ran this frame. Every buffer byte
    /// is the background or a channel byte of something drawn this frame.
    pub fn update(&mut self, inputs: &InputData, dt: i64)
        requires
            old(self).wf(),
            inputs.wf(),
            inputs.mouse_released.time_ms >= inputs.mouse_pressed.time_ms,
            1 <= dt <= PART_DT_MAX,
        ensures
            final(self).wf(),
            final(self).state.step_sim == false,
            final(self).prev_state.frame == old(self).state.frame,
            final(self).state.frame == old(self).state.frame as int + 1
                || final(self).state.frame == 0,
            final(self).state.running == (if inputs.key_space_pressed {
                !old(self).state.running
            } else {
                old(self).state.running
            }),
            ({
                let after_input = old(self).spec_input_particles(*inputs);
                let ran = (if inputs.key_space_pressed {
                    !old(self).state.running
                } else {
                    old(self).state.running
                }) || inputs.key_right_pressed;
                final(self).simulation.particles@ == (if ran {
                    crate::particle::live_filter(
                        crate::particle::pass_from(after_input, 0, dt as int),
                    )
                } else {
                    after_input
                })
            }),
            final(self).buf.len() == old(self).buf.len(),
            forall|j: int|
                0 <= j < final(self).buf.len() ==> final(self).buf[j] == 44 || final(self).buf[j]
                    == crate::world::fill_byte(crate::colour::spec_white(), j) || final(self).buf[j] == crate::world::fill_byte(crate::colour::spec_red(), j) || final(self).buf[j] == crate::world::fill_byte(crate::colour::spec_green(), j) || final(self).buf[j] == crate::world::fill_byte(crate::colour::spec_gray(), j),
    {
        self.handle_input_state(inputs);
        self.clear_buffer(44);
        if self.state.running || self.state.step_sim {
            self.simulation.update(dt);
        }
        self.render_particles();
        self.handle_input_renders(inputs);
        self.prev_state = self.state;
        self.state.step_sim = false;
        self.state.frame = self.state.frame.wrapping_add(1);
    }
}

/// One pixel write paints its target and only deposits the colour's own
/// channel bytes.
proof fn lemma_gpaint_step(
    w: int,
    h: int,
    pre: Seq<u8>,
    post: Seq<u8>,
    tx: int,
    ty: int,
    colour: Rgba,
)
    requires
        1 <= w <= 16384,
        1 <= h <= 16384,
        pre.len() == 4 * w * h,
        post.len() == pre.len(),
        0 <= tx < w,
        0 <= ty < h,
        post == pre.update(4 * (ty * w + tx), colour.r).update(4 * (ty * w + tx) + 1,
            colour.g,
        ).update(4 * (ty * w + tx) + 2, colour.b).update(4 * (ty * w + tx) + 3, colour.a),
    ensures
        ({
            let base = 4 * (ty * w + tx);
            post[base] == colour.r && post[base + 1] == colour.g && post[base + 2] == colour.b
                && post[base + 3] == colour.a
        }),
        forall|j: int| 0 <= j < post.len() ==> post[j] == pre[j] || post[j] == crate::world::fill_byte(
            colour,
            j,
        ),
{
    let base = 4 * (ty * w + tx);
    assert(0 <= ty * w + tx < w * h) by (nonlinear_arith)
        requires
            0 <= tx < w && 0 <= ty < h,
    ;
    assert(4 * (ty * w + tx) + 3 < 4 * (w * h) && 4 * (w * h) == 4 * w * h) by (nonlinear_arith)
        requires
            0 <= ty * w + tx < w * h,
    ;
    assert(base % 4 == 0) by (nonlinear_arith)
        requires
            base == 4 * (ty * w + tx),
    ;
    assert(crate::world::fill_byte(colour, base) == colour.r && crate::world::fill_byte(colour,
        base + 1) == colour.g && crate::world::fill_byte(colour, base + 2) == colour.b
        && crate::world::fill_byte(colour, base + 3) == colour.a);
}

/// A painted render pixel stays painted while later writes only deposit the
/// same colour's channel bytes.
proof fn lemma_gpainted_persists(
    w: int,
    h: int,
    pre: Seq<u8>,
    post: Seq<u8>,
    tx: int,
    ty: int,
    colour: Rgba,
)
    requires
        1 <= w <= 16384,
        1 <= h <= 16384,
        pre.len() == 4 * w * h,
        post.len() == pre.len(),
        !(0 <= tx < w && 0 <= ty < h) || ({
            let base = 4 * (ty * w + tx);
            pre[base] == colour.r && pre[base + 1] == colour.g && pre[base + 2] == colour.b
                && pre[base + 3] == colour.a
        }),
        forall|j: int| 0 <= j < post.len() ==> post[j] == pre[j] || post[j] == crate::world::fill_byte(
            colour,
            j,
        ),
    ensures
        !(0 <= tx < w && 0 <= ty < h) || ({
            let base = 4 * (ty * w + tx);
            post[base] == colour.r && post[base + 1] == colour.g && post[base + 2] == colour.b
                && post[base + 3] == colour.a
        }),
{
    if 0 <= tx < w && 0 <= ty < h {
        let base = 4 * (ty * w + tx);
        assert(0 <= ty * w + tx < w * h) by (nonlinear_arith)
            requires
                0 <= tx < w && 0 <= ty < h,
        ;
        assert(4 * (ty * w + tx) + 3 < 4 * (w * h) && 4 * (w * h) == 4 * w * h)
            by (nonlinear_arith)
            requires
                0 <= ty * w + tx < w * h,
        ;
        assert(base % 4 == 0) by (nonlinear_arith)
            requires
                base == 4 * (ty * w + tx),
        ;
        assert(crate::world::fill_byte(colour, base) == colour.r && crate::world::fill_byte(
            colour, base + 1) == colour.g && crate::world::fill_byte(colour, base + 2) == colour.b
            && crate::world::fill_byte(colour, base + 3) == colour.a);
    }
}

} // verus!

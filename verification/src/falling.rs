//! The interactive front end of the rigid square engine: it owns the world
//! buffer and the body list, spawns bodies from clicks and drag-releases,
//! steps the physics, and rasterizes each body, highlighted when it
//! collided this frame.

use vstd::prelude::*;

use crate::colour::{green, light_gray, red};
use crate::inputs::InputData;
use crate::intmath::{clamp_i64, clamped, div_i64, div_towards_zero};
use crate::rigid::{RigidBody, Square, CENTRE_MAX, RB_IMPULSE_MAX, RB_DT_MAX, RB_VEL_MAX, VERT_R};
use crate::vec2::{vec2, TextureSpace, Vec2, WindowSpace, WorldSpace};
use crate::world::{World, MAX_VIEWPORT, WORLD_PX_MAX};
use crate::FP;

verus! {

/// The factor a collision impulse applies along the returned normal.
pub const COLLISION_KICK: i64 = 15;

/// The side length of a spawned square, in fixed-point world units.
pub const SPAWN_SIDE: i64 = 0x120000;

/// The camera damping the frontend passes to the world, as a ratio.
pub const FALL_CAM_RES_NUM: i64 = 115;

pub const FALL_CAM_RES_DEN: i64 = 120;

/// Camera acceleration per held key, fixed-point units per frame squared.
pub const FALL_CAM_SPEED: i64 = 0x10000;

/// The frame pacing and pause flags of the rigid frontend.
#[derive(Clone, Copy, Debug)]
pub struct GameState {
    pub frame: u64,
    pub texture_scale: i64,
    pub window_size: Vec2<i64, WindowSpace>,
    pub is_running: bool,
}

/// What the upload layer reads back each frame.
pub struct TextureData<'a> {
    pub texture_buffer: &'a Vec<u8>,
    pub texture_size: Vec2<u32, TextureSpace>,
}

pub struct FallingEverything {
    pub state: GameState,
    pub prev_state: GameState,
    pub objects: Vec<RigidBody>,
    pub world: World,
}

impl GameState {
    pub open spec fn wf(self) -> bool {
        &&& 1 <= self.texture_scale <= 64
        &&& 1 <= self.window_size.x <= 0x100000
        &&& 1 <= self.window_size.y <= 0x100000
    }
}

impl FallingEverything {
    pub open spec fn wf(self) -> bool {
        &&& self.state.wf()
        &&& self.prev_state.wf()
        &&& self.world.wf()
        &&& self.objects@.len() <= 0x10000
        &&& forall|k: int| 0 <= k < self.objects@.len() ==> (#[trigger] self.objects@[k]).wf()
    }

    pub fn new(window_size: Vec2<i64, WindowSpace>, init_scale_factor: i64) -> (out: Self)
        requires
            1 <= init_scale_factor <= 64,
            1 <= window_size.x <= 0x100000,
            1 <= window_size.y <= 0x100000,
            1 <= window_size.x / init_scale_factor <= MAX_VIEWPORT,
            1 <= window_size.y / init_scale_factor <= MAX_VIEWPORT,
        ensures
            out.wf(),
            out.objects@.len() == 0,
            out.state.frame == 0,
            out.state.is_running == false,
            out.state.texture_scale == init_scale_factor,
    {
        let state = GameState {
            frame: 0,
            texture_scale: init_scale_factor,
            window_size,
            is_running: false,
        };
        let vx = window_size.x / init_scale_factor;
        let vy = window_size.y / init_scale_factor;
        let world = World::new(vec2(vx as u32, vy as u32));
        FallingEverything { state, prev_state: state, objects: Vec::new(), world }
    }

    pub fn get_texture_data(&self) -> (out: TextureData<'_>)
        ensures
            out.texture_buffer@ == self.world.viewport_texture@,
            out.texture_size == self.world.viewport_size,
    {
        TextureData {
            texture_buffer: self.world.get_viewport_texture(),
            texture_size: self.world.viewport_size,
        }
    }

    pub fn get_texture_scale(&self) -> (out: i64)
        ensures
            out == self.state.texture_scale,
    {
        self.state.texture_scale
    }

    /// Adopts a new window size: the world viewport becomes the scaled-down
    /// size.
    pub fn resize_texture(&mut self, window_size: Vec2<i64, WindowSpace>)
        requires
            old(self).wf(),
            1 <= window_size.x <= 0x100000,
            1 <= window_size.y <= 0x100000,
            1 <= window_size.x / old(self).state.texture_scale <= MAX_VIEWPORT,
            1 <= window_size.y / old(self).state.texture_scale <= MAX_VIEWPORT,
        ensures
            final(self).wf(),
            final(self).state.window_size == window_size,
            final(self).world.viewport_size.x == window_size.x as int / old(self).state.texture_scale as int,
            final(self).world.viewport_size.y == window_size.y as int / old(self).state.texture_scale as int,
            final(self).objects == old(self).objects,
            final(self).state.texture_scale == old(self).state.texture_scale,
            final(self).state.frame == old(self).state.frame,
            final(self).state.is_running == old(self).state.is_running,
            final(self).prev_state == old(self).prev_state,
    {
        self.state.window_size = window_size;
        let vx = window_size.x / self.state.texture_scale;
        let vy = window_size.y / self.state.texture_scale;
        self.world.resize(vec2(vx as u32, vy as u32));
    }

    /// Changes the pixel scale and resizes to match.
    pub fn rescale_texture(&mut self, scale: i64)
        requires
            old(self).wf(),
            1 <= scale <= 64,
            1 <= old(self).state.window_size.x / scale <= MAX_VIEWPORT,
            1 <= old(self).state.window_size.y / scale <= MAX_VIEWPORT,
        ensures
            final(self).wf(),
            final(self).state.texture_scale == scale,
    {
        self.state.texture_scale = scale;
        let ws = self.state.window_size;
        self.resize_texture(ws);
    }

    /// Where a window point lands in the rigid world, in fixed point:
    /// scaled down to texture pixels, widened, offset by the camera and
    /// held inside the world.
    pub open spec fn spec_cursor_world(self, p: Vec2<i64, WindowSpace>) -> (int, int) {
        (
            clamped(
                div_towards_zero(p.x as int, self.state.texture_scale as int) * FP
                    + self.world.camera_pos.x,
                -CENTRE_MAX as int,
                CENTRE_MAX as int,
            ),
            clamped(
                div_towards_zero(p.y as int, self.state.texture_scale as int) * FP
                    - self.world.camera_pos.y,
                -CENTRE_MAX as int,
                CENTRE_MAX as int,
            ),
        )
    }

    /// The slingshot force of a drag from `released` back to `pressed`, in
    /// world units, capped at the impulse limit.
    pub open spec fn spec_drag_force(
        self,
        pressed: Vec2<i64, WindowSpace>,
        released: Vec2<i64, WindowSpace>,
    ) -> (int, int) {
        let pw = self.spec_cursor_world(pressed);
        let rw = self.spec_cursor_world(released);
        (
            clamped(
                div_towards_zero(
                    (pw.0 - rw.0) * crate::gravity_sim::MOUSE_DRAWBACK_MULTIPLIER,
                    FP as int,
                ),
                -RB_IMPULSE_MAX as int,
                RB_IMPULSE_MAX as int,
            ),
            clamped(
                div_towards_zero(
                    (pw.1 - rw.1) * crate::gravity_sim::MOUSE_DRAWBACK_MULTIPLIER,
                    FP as int,
                ),
                -RB_IMPULSE_MAX as int,
                RB_IMPULSE_MAX as int,
            ),
        )
    }

    /// The body a spawn call appends: a fresh unrotated square with unit
    /// inertia and no spin.
    pub open spec fn spec_spawned_body(
        position: Vec2<i64, WorldSpace>,
        mass: i64,
        velocity: Vec2<i64, WorldSpace>,
        force: Vec2<i64, WorldSpace>,
    ) -> RigidBody {
        RigidBody {
            object: crate::rigid::spec_square(position, SPAWN_SIDE),
            force,
            velocity,
            angular_velocity: 0,
            rotation: 0,
            mass,
            inertia: 1,
            torque: 0,
        }
    }

    /// The camera acceleration one frame of held keys produces, scaled up
    /// when the view is zoomed out.
    pub open spec fn spec_cam_acc(self, inputs: InputData) -> (int, int) {
        let ax = (if inputs.key_d_held {
            1int
        } else {
            0int
        }) - (if inputs.key_a_held {
            1int
        } else {
            0int
        });
        let ay = (if inputs.key_w_held {
            1int
        } else {
            0int
        }) - (if inputs.key_s_held {
            1int
        } else {
            0int
        });
        let factor = FALL_CAM_SPEED * clamped(
            10 - self.state.texture_scale + 1,
            1,
            10,
        );
        (ax * factor, ay * factor)
    }

    /// The camera and clear-key handling: held movement keys accelerate the
    /// world camera, scaled up when the view is zoomed out, and the reset
    /// key recentres it.
    pub fn handle_camera_inputs(&mut self, inputs: &InputData)
        requires
            old(self).wf(),
            inputs.wf(),
        ensures
            final(self).wf(),
            final(self).objects == old(self).objects,
            final(self).state == old(self).state,
            final(self).prev_state == old(self).prev_state,
            inputs.key_r_pressed ==> final(self).world.camera_pos.x == 0 && final(self).world.camera_pos.y == 0 && final(self).world.camera_vel.x == 0 && final(self).world.camera_vel.y == 0,
            !inputs.key_r_pressed ==> ({
                let acc = old(self).spec_cam_acc(*inputs);
                &&& final(self).world.camera_vel.x == clamped(
                    div_towards_zero(
                        (old(self).world.camera_vel.x + acc.0) * FALL_CAM_RES_NUM,
                        FALL_CAM_RES_DEN as int,
                    ),
                    -crate::world::CAM_VEL_MAX as int,
                    crate::world::CAM_VEL_MAX as int,
                )
                &&& final(self).world.camera_vel.y == clamped(
                    div_towards_zero(
                        (old(self).world.camera_vel.y + acc.1) * FALL_CAM_RES_NUM,
                        FALL_CAM_RES_DEN as int,
                    ),
                    -crate::world::CAM_VEL_MAX as int,
                    crate::world::CAM_VEL_MAX as int,
                )
                &&& final(self).world.camera_pos.x == clamped(
                    old(self).world.camera_pos.x + final(self).world.camera_vel.x,
                    -crate::world::CAM_POS_MAX as int,
                    crate::world::CAM_POS_MAX as int,
                )
                &&& final(self).world.camera_pos.y == clamped(
                    old(self).world.camera_pos.y + final(self).world.camera_vel.y,
                    -crate::world::CAM_POS_MAX as int,
                    crate::world::CAM_POS_MAX as int,
                )
            }),
            final(self).world.viewport_size == old(self).world.viewport_size,
            final(self).world.viewport_texture == old(self).world.viewport_texture,
    {
        let mut ax: i64 = 0;
        let mut ay: i64 = 0;
        if inputs.key_w_held {
            ay = ay + 1;
        }
        if inputs.key_s_held {
            ay = ay - 1;
        }
        if inputs.key_d_held {
            ax = ax + 1;
        }
        if inputs.key_a_held {
            ax = ax - 1;
        }
        let boost = 10 - self.state.texture_scale + 1;
        let factor = FALL_CAM_SPEED * (if boost < 1 {
            1
        } else if boost > 10 {
            10
        } else {
            boost
        });
        proof {
            assert(-0xA0000int <= (ax as int) * (factor as int) <= 0xA0000int && -0xA0000int <= (
            ay as int) * (factor as int) <= 0xA0000int) by (nonlinear_arith)
                requires
                    -1 <= ax <= 1 && -1 <= ay <= 1 && 0 < factor <= 0xA0000int,
            ;
        }
        self.world.update_camera(
            vec2(ax * factor, ay * factor),
            FALL_CAM_RES_NUM,
            FALL_CAM_RES_DEN,
        );
        if inputs.key_r_pressed {
            self.world.reset_viewport();
        }
    }

    /// Where a window point lands in the rigid world, in fixed point.
    fn cursor_world(&self, p: Vec2<i64, WindowSpace>) -> (out: Vec2<i64, WorldSpace>)
        requires
            self.wf(),
            p.abs_le(0x10000000int),
        ensures
            out.abs_le(CENTRE_MAX as int),
            (out.x as int, out.y as int) == self.spec_cursor_world(p),
    {
        proof {
            crate::intmath::lemma_div_towards_zero_bound(p.x as int,
                self.state.texture_scale as int);
            crate::intmath::lemma_div_towards_zero_bound(p.y as int,
                self.state.texture_scale as int);
            crate::intmath::lemma_div_towards_zero_bound(self.world.camera_pos.x as int,
                FP as int);
            crate::intmath::lemma_div_towards_zero_bound(self.world.camera_pos.y as int,
                FP as int);
        }
        let px = div_i64(p.x, self.state.texture_scale);
        let py = div_i64(p.y, self.state.texture_scale);
        let x = clamp_i64(px * FP + self.world.camera_pos.x, -CENTRE_MAX, CENTRE_MAX);
        let y = clamp_i64(py * FP - self.world.camera_pos.y, -CENTRE_MAX, CENTRE_MAX);
        vec2(x, y)
    }

    /// Spawning: the clear key empties the body list; a drag-release spawns
    /// a square at the press point with a slingshot force; a click spawns a
    /// resting square at the cursor.
    pub fn handle_object_spawning(&mut self, inputs: &InputData)
        requires
            old(self).wf(),
            inputs.wf(),
            inputs.mouse_released.time_ms >= inputs.mouse_pressed.time_ms,
        ensures
            final(self).wf(),
            final(self).world == old(self).world,
            final(self).state == old(self).state,
            inputs.key_c_pressed ==> final(self).objects@ == Seq::<RigidBody>::empty(),
            !inputs.key_c_pressed ==> ({
                let dragged = inputs.mouse_released.state && crate::inputs::spec_dragged(
                    inputs.mouse_pressed.pos,
                    inputs.mouse_released.pos,
                );
                let clicked = inputs.mouse_released.state && inputs.mouse_released.time_ms
                    - inputs.mouse_pressed.time_ms < crate::inputs::MOUSE_HOLD_THRESHOLD_MS;
                let room = old(self).objects@.len() < 0x10000;
                if dragged && room {
                    final(self).objects@ == old(self).objects@.push(
                        Self::spec_spawned_body(
                            vec2_from_pair(old(self).spec_cursor_world(inputs.mouse_pressed.pos)),
                            3,
                            crate::particle::vec2_zero(),
                            vec2_from_pair(
                                old(self).spec_drag_force(
                                    inputs.mouse_pressed.pos,
                                    inputs.mouse_released.pos,
                                ),
                            ),
                        ),
                    )
                } else if !dragged && clicked && room {
                    final(self).objects@ == old(self).objects@.push(
                        Self::spec_spawned_body(
                            vec2_from_pair(old(self).spec_cursor_world(inputs.mouse_pos)),
                            3,
                            crate::particle::vec2_zero(),
                            crate::particle::vec2_zero(),
                        ),
                    )
                } else {
                    final(self).objects == old(self).objects
                }
            }),
    {
        if inputs.key_c_pressed {
            self.objects.clear();
            return ;
        }
        let mass: i64 = 3;
        if inputs.was_mouse_dragging() {
            if self.objects.len() < 0x10000 {
                let pressed_pos = self.cursor_world(inputs.mouse_pressed.pos);
                let released_pos = self.cursor_world(inputs.mouse_released.pos);
                let fx = clamp_i64(
                    div_i64(
                        (pressed_pos.x - released_pos.x) * crate::gravity_sim::MOUSE_DRAWBACK_MULTIPLIER,
                        FP,
                    ),
                    -RB_IMPULSE_MAX,
                    RB_IMPULSE_MAX,
                );
                let fy = clamp_i64(
                    div_i64(
                        (pressed_pos.y - released_pos.y) * crate::gravity_sim::MOUSE_DRAWBACK_MULTIPLIER,
                        FP,
                    ),
                    -RB_IMPULSE_MAX,
                    RB_IMPULSE_MAX,
                );
                self.spawn_rigidbody(pressed_pos, mass, vec2(0, 0), vec2(fx, fy));
            }
        } else if inputs.was_mouse_pressed() {
            if self.objects.len() < 0x10000 {
                let pos = self.cursor_world(inputs.mouse_pos);
                self.spawn_rigidbody(pos, mass, vec2(0, 0), vec2(0, 0));
            }
        }
    }

    /// Appends one square body with unit-plate inertia.
    pub fn spawn_rigidbody(
        &mut self,
        position: Vec2<i64, WorldSpace>,
        mass: i64,
        velocity: Vec2<i64, WorldSpace>,
        force: Vec2<i64, WorldSpace>,
    )
        requires
            old(self).wf(),
            old(self).objects@.len() < 0x10000,
            position.abs_le(CENTRE_MAX as int),
            1 <= mass <= 0x10000,
            velocity.abs_le(RB_VEL_MAX as int),
            force.abs_le(RB_IMPULSE_MAX as int),
        ensures
            final(self).wf(),
            final(self).objects@ == old(self).objects@.push(
                Self::spec_spawned_body(position, mass, velocity, force),
            ),
            final(self).world == old(self).world,
            final(self).state == old(self).state,
            final(self).prev_state == old(self).prev_state,
    {
        let object = Square::new(position, SPAWN_SIDE);
        let body = RigidBody::new(object, mass, 1, velocity, force);
        self.objects.push(body);
    }
}

impl FallingEverything {
    /// The pause toggle, camera keys and spawning for one frame.
    pub fn handle_inputs(&mut self, inputs: &InputData)
        requires
            old(self).wf(),
            inputs.wf(),
            inputs.mouse_released.time_ms >= inputs.mouse_pressed.time_ms,
        ensures
            final(self).wf(),
            final(self).state.is_running == (if inputs.key_space_pressed {
                !old(self).state.is_running
            } else {
                old(self).state.is_running
            }),
            final(self).state.frame == old(self).state.frame,
            inputs.key_c_pressed ==> final(self).objects@.len() == 0,
            !inputs.key_c_pressed && !inputs.mouse_released.state ==> final(self).objects == old(self).objects,
    {
        if inputs.key_space_pressed {
            self.state.is_running = !self.state.is_running;
        }
        self.handle_camera_inputs(inputs);
        self.handle_object_spawning(inputs);
    }

    /// The rotation pair supplied for body `k`: the identity rotation when
    /// the list runs short.
    pub open spec fn rot_of(rotations: Seq<(i64, i64)>, k: int) -> (int, int) {
        if 0 <= k < rotations.len() {
            (rotations[k].0 as int, rotations[k].1 as int)
        } else {
            (0int, FP as int)
        }
    }

    /// The kinematic half of one body step: exactly what `RigidBody::update`
    /// does to velocity, spin, centre, rotation and vertices. The force and
    /// torque registers are left out: the collision pass refills them.
    pub open spec fn kinematics_stepped(b: RigidBody, nb: RigidBody, dt: int, rot: (int, int)) -> bool {
        &&& nb.velocity.x == crate::rigid::integ_step(
            b.velocity.x as int,
            b.force.x as int,
            dt,
            b.mass as int,
            crate::rigid::RB_VEL_MAX as int,
        )
        &&& nb.velocity.y == crate::rigid::integ_step(
            b.velocity.y as int,
            b.force.y as int,
            dt,
            b.mass as int,
            crate::rigid::RB_VEL_MAX as int,
        )
        &&& nb.angular_velocity == crate::rigid::integ_step(
            b.angular_velocity as int,
            b.torque as int,
            dt,
            b.inertia as int,
            crate::rigid::RB_ANG_MAX as int,
        )
        &&& nb.rotation == clamped(
            b.rotation + clamped(
                div_towards_zero(nb.angular_velocity * dt, FP as int),
                -CENTRE_MAX as int,
                CENTRE_MAX as int,
            ),
            -crate::rigid::RB_ROT_MAX as int,
            crate::rigid::RB_ROT_MAX as int,
        )
        &&& nb.object.centre.x == clamped(
            b.object.centre.x + clamped(
                div_towards_zero(nb.velocity.x * dt, FP as int),
                -CENTRE_MAX as int,
                CENTRE_MAX as int,
            ),
            -CENTRE_MAX as int,
            CENTRE_MAX as int,
        )
        &&& nb.object.centre.y == clamped(
            b.object.centre.y + clamped(
                div_towards_zero(nb.velocity.y * dt, FP as int),
                -CENTRE_MAX as int,
                CENTRE_MAX as int,
            ),
            -CENTRE_MAX as int,
            CENTRE_MAX as int,
        )
        &&& forall|m: int|
            0 <= m < 4 ==> (#[trigger] nb.object.local_vertices[m].x) == div_towards_zero(
                rot.1 * b.object.local_vertices[m].x - rot.0 * b.object.local_vertices[m].y,
                FP as int,
            ) && nb.object.local_vertices[m].y == div_towards_zero(
                rot.0 * b.object.local_vertices[m].x + rot.1 * b.object.local_vertices[m].y,
                FP as int,
            )
        &&& nb.mass == b.mass
        &&& nb.inertia == b.inertia
    }

    /// One frame: clear the background, digest the input, and when running
    /// (or single-stepping) integrate every body with its supplied per-step
    /// rotation pair, resolve pairwise collisions with an impulse along the
    /// reported normal, and rasterize each body, highlighted when it
    /// collided. Paused frames draw the bodies as resting markers only.
    ///
    /// `rotations` holds, for each body, the fixed-point sine and cosine of
    /// the angle it turns this step; trigonometry stays outside the engine.
    pub fn update(&mut self, inputs: &InputData, dt: i64, rotations: &Vec<(i64, i64)>)
        requires
            old(self).wf(),
            inputs.wf(),
            inputs.mouse_released.time_ms >= inputs.mouse_pressed.time_ms,
            1 <= dt <= RB_DT_MAX,
            forall|k: int|
                0 <= k < rotations@.len() ==> (#[trigger] rotations@[k].0) * rotations@[k].0
                    + rotations@[k].1 * rotations@[k].1 <= FP * FP,
        ensures
            final(self).wf(),
            final(self).state.frame == old(self).state.frame as int + 1 || final(self).state.frame
                == 0,
            final(self).prev_state.frame == old(self).state.frame,
            final(self).state.is_running == (if inputs.key_space_pressed {
                !old(self).state.is_running
            } else {
                old(self).state.is_running
            }),
            ({
                // On a frame without spawning or clearing, the body list is
                // pinned: when the simulation ran, every body moved exactly
                // as its integration contract says, with its supplied
                // rotation pair; otherwise nothing moved.
                let ran = (if inputs.key_space_pressed {
                    !old(self).state.is_running
                } else {
                    old(self).state.is_running
                }) || inputs.key_right_pressed;
                let quiet = !inputs.key_c_pressed && !inputs.mouse_released.state;
                &&& (ran && quiet ==> final(self).objects@.len() == old(self).objects@.len()
                    && forall|k: int|
                    0 <= k < old(self).objects@.len() ==> Self::kinematics_stepped(
                        #[trigger] old(self).objects@[k],
                        final(self).objects@[k],
                        dt as int,
                        Self::rot_of(rotations@, k),
                    ))
                &&& (!ran && quiet ==> final(self).objects == old(self).objects)
            }),
    {
        self.world.draw_all(light_gray());
        self.handle_inputs(inputs);
        let ghost mid = *self;
        if self.state.is_running || inputs.key_right_pressed {
            let n = self.objects.len();
            let mut i: usize = 0;
            while i < n
                invariant
                    self.wf(),
                    n == self.objects@.len(),
                    n == mid.objects@.len(),
                    1 <= dt <= RB_DT_MAX,
                    forall|k: int|
                        0 <= k < rotations@.len() ==> (#[trigger] rotations@[k].0)
                            * rotations@[k].0 + rotations@[k].1 * rotations@[k].1 <= FP * FP,
                    self.state == mid.state,
                    self.prev_state == mid.prev_state,
                    forall|k: int| i <= k < n ==> #[trigger] self.objects@[k] == mid.objects@[k],
                    forall|k: int|
                        0 <= k < i ==> Self::kinematics_stepped(
                            #[trigger] mid.objects@[k],
                            self.objects@[k],
                            dt as int,
                            Self::rot_of(rotations@, k),
                        ),
                decreases n - i,
            {
                let mut body = self.objects[i];
                let rot: (i64, i64) = if i < rotations.len() {
                    rotations[i]
                } else {
                    (0, FP)
                };
                proof {
                    if i >= rotations@.len() {
                        assert((0int) * 0 + (FP as int) * (FP as int) <= FP * FP);
                    }
                    assert((rot.0 as int, rot.1 as int) == Self::rot_of(rotations@, i as int));
                }
                body.update(dt, rot.0, rot.1);
                let ghost bstep = body;
                let mut collided = false;
                let mut j: usize = 0;
                while j < n
                    invariant
                        self.wf(),
                        n == self.objects@.len(),
                        n == mid.objects@.len(),
                        j <= n,
                        i < n,
                        body.wf(),
                        body.object == bstep.object,
                        body.velocity == bstep.velocity,
                        body.angular_velocity == bstep.angular_velocity,
                        body.rotation == bstep.rotation,
                        body.mass == bstep.mass,
                        body.inertia == bstep.inertia,
                        self.state == mid.state,
                        self.prev_state == mid.prev_state,
                        forall|k: int|
                            i <= k < n ==> #[trigger] self.objects@[k] == mid.objects@[k],
                        forall|k: int|
                            0 <= k < i ==> Self::kinematics_stepped(
                                #[trigger] mid.objects@[k],
                                self.objects@[k],
                                dt as int,
                                Self::rot_of(rotations@, k),
                            ),
                    decreases n - j,
                {
                    if j != i {
                        let other = self.objects[j];
                        let hit = body.object.does_collide(&other.object);
                        match hit {
                            Option::Some(col) => {
                                proof {
                                    assert(-0x100000000000000000000int <= -(col.normal.x as int)
                                        * (COLLISION_KICK as int) <= 0x100000000000000000000int
                                        && -0x100000000000000000000int <= -(col.normal.y as int)
                                        * (COLLISION_KICK as int) <= 0x100000000000000000000int)
                                        by (nonlinear_arith)
                                        requires
                                            -0x8000000000000000int <= col.normal.x
                                                <= 0x8000000000000000int
                                                && -0x8000000000000000int <= col.normal.y
                                                <= 0x8000000000000000int && COLLISION_KICK
                                                == 15i64,
                                    ;
                                }
                                let ix = crate::intmath::clamp_i128_to(
                                    -(col.normal.x as i128) * COLLISION_KICK as i128,
                                    RB_IMPULSE_MAX,
                                );
                                let iy = crate::intmath::clamp_i128_to(
                                    -(col.normal.y as i128) * COLLISION_KICK as i128,
                                    RB_IMPULSE_MAX,
                                );
                                let at = body.object.centre;
                                body.apply_force(vec2(ix, iy), at);
                                collided = true;
                            },
                            Option::None => {},
                        }
                    }
                    j = j + 1;
                }
                self.objects[i] = body;
                proof {
                    assert(Self::kinematics_stepped(
                        mid.objects@[i as int],
                        self.objects@[i as int],
                        dt as int,
                        Self::rot_of(rotations@, i as int),
                    ));
                }
                // Rasterize: a collided body shows its outline highlighted,
                // a free body its centre marker.
                if collided {
                    self.draw_body_outline(i, red());
                } else {
                    self.draw_body_marker(i, green());
                }
                i = i + 1;
            }
        } else {
            let n = self.objects.len();
            let mut i: usize = 0;
            while i < n
                invariant
                    self.wf(),
                    n == self.objects@.len(),
                    self.objects == mid.objects,
                    self.state == mid.state,
                    self.prev_state == mid.prev_state,
                decreases n - i,
            {
                self.draw_body_marker(i, green());
                i = i + 1;
            }
        }
        self.prev_state = self.state;
        self.state.frame = self.state.frame.wrapping_add(1);
    }

    /// Draws body `k`'s polygon outline into the world buffer.
    fn draw_body_outline(&mut self, k: usize, colour: crate::colour::Rgba)
        requires
            old(self).wf(),
            k < old(self).objects@.len(),
        ensures
            final(self).wf(),
            final(self).objects == old(self).objects,
            final(self).state == old(self).state,
            final(self).prev_state == old(self).prev_state,
    {
        let body = self.objects[k];
        proof {
            crate::rigid::lemma_vert_bounds(body.object);
        }
        let verts = body.object.world_verts();
        let mut px: Vec<Vec2<i64, WorldSpace>> = Vec::new();
        let mut m: usize = 0;
        while m < 4
            invariant
                m <= 4,
                px@.len() == m,
                body.object.wf(),
                forall|q: int|
                    0 <= q < 4 ==> -(CENTRE_MAX + VERT_R) <= (#[trigger] verts[q].x) <= CENTRE_MAX
                        + VERT_R && -(CENTRE_MAX + VERT_R) <= verts[q].y <= CENTRE_MAX + VERT_R,
                forall|q: int|
                    0 <= q < m ==> (#[trigger] px@[q]).abs_le(WORLD_PX_MAX as int),
            decreases 4 - m,
        {
            let v = verts[m];
            proof {
                crate::intmath::lemma_div_towards_zero_bound(v.x as int, FP as int);
                crate::intmath::lemma_div_towards_zero_bound(v.y as int, FP as int);
                crate::intmath::lemma_div_towards_zero_mono(v.x as int, FP as int, FP as int);
                crate::intmath::lemma_div_towards_zero_mono(v.y as int, FP as int, FP as int);
                assert((0x80000000int + 0x400000int) / 0x10000int <= 0x10000000int);
            }
            let wx = div_i64(v.x, FP);
            let wy = div_i64(v.y, FP);
            px.push(vec2(wx, wy));
            m = m + 1;
        }
        self.world.draw_polygon(&px, colour);
    }

    /// Draws body `k`'s centre marker.
    fn draw_body_marker(&mut self, k: usize, colour: crate::colour::Rgba)
        requires
            old(self).wf(),
            k < old(self).objects@.len(),
        ensures
            final(self).wf(),
            final(self).objects == old(self).objects,
            final(self).state == old(self).state,
            final(self).prev_state == old(self).prev_state,
    {
        let body = self.objects[k];
        let c = body.object.centre;
        proof {
            crate::intmath::lemma_div_towards_zero_bound(c.x as int, FP as int);
            crate::intmath::lemma_div_towards_zero_bound(c.y as int, FP as int);
            crate::intmath::lemma_div_towards_zero_mono(c.x as int, FP as int, FP as int);
            crate::intmath::lemma_div_towards_zero_mono(c.y as int, FP as int, FP as int);
            assert(0x80000000int / 0x10000int <= 0x10000000int);
        }
        let cx = div_i64(c.x, FP);
        let cy = div_i64(c.y, FP);
        self.world.draw_circle_fill(vec2(cx, cy), 4, colour);
    }
}

/// A world vector from a pair of components.
pub open spec fn vec2_from_pair(p: (int, int)) -> Vec2<i64, WorldSpace> {
    Vec2 { x: p.0 as i64, y: p.1 as i64, space: core::marker::PhantomData }
}

} // verus!

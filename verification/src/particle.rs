//! The particle gravity engine: point masses under pairwise inverse-square
//! attraction. Overlapping particles merge, the heavier absorbing the
//! lighter with momentum, mass and disk area conserved; the absorbed one is
//! marked dead and culled before the next pass.

use vstd::prelude::*;

use crate::intmath::{clamp_i64, clamped, div_i128, div_towards_zero, isqrt_i128, sqrt_floor};
use crate::vec2::{vec2, Vec2, WorldSpace};
use crate::FP;

verus! {

/// How far a particle may sit from the origin, fixed-point units.
pub const PART_POS_MAX: i64 = 0x10000000000;

/// A particle's top speed, fixed-point units per tick.
pub const PART_VEL_MAX: i64 = 0x100000000;

/// The force accumulator's cap.
pub const PART_FORCE_MAX: i64 = 0x1000000000000000;

/// The cap on a single pairwise force contribution.
pub const PAIR_FORCE_MAX: i64 = 0x10000000000;

/// An intermediate cap inside the force law, before the direction factor.
pub const GRAV_SCALE_MAX: i64 = 0x1000000000000000;

/// The smallest radius a live particle can have: two whole pixels.
pub const RAD_MIN: i64 = 0x20000;

/// The largest radius a live particle can reach.
pub const RAD_MAX: i64 = 0x2000000;

/// The heaviest particle the engine accepts.
pub const PART_MASS_MAX: i64 = 0x40000000;

/// The gravitational constant, tuned for visible motion rather than
/// physical accuracy; one mass unit stands for 1e20 kg.
pub const GRAV_NUM: i64 = 64;

/// Mass per cubic pixel of radius, as the ratio `MASS_NUM / MASS_DEN`.
pub const MASS_NUM: i64 = 277;

pub const MASS_DEN: i64 = 1000;

/// Per-tick velocity damping, as the ratio `RES_NUM / RES_DEN`.
pub const RES_NUM: i64 = 999;

pub const RES_DEN: i64 = 1000;

/// Most particles a simulation will hold.
pub const PART_N_MAX: usize = 0x100000;

/// Longest tick accepted, fixed-point seconds.
pub const PART_DT_MAX: i64 = 0x100000;

/// A point mass: position, velocity and an accumulated-force register, all
/// fixed-point world values, plus its mass and disk radius. A particle with
/// zero mass is dead and waits to be culled.
#[derive(Clone, Copy, Debug)]
pub struct Particle {
    pub pos: Vec2<i64, WorldSpace>,
    pub vel: Vec2<i64, WorldSpace>,
    pub force: Vec2<i64, WorldSpace>,
    pub mass: i64,
    pub radius: i64,
}

/// A particle that still takes part in the simulation.
pub open spec fn live(p: Particle) -> bool {
    p.mass > 0
}

/// Field bounds every particle keeps, dead or alive; a live one also has
/// its mass and radius within the engine's range.
pub open spec fn valid_particle(p: Particle) -> bool {
    &&& p.pos.abs_le(PART_POS_MAX as int)
    &&& p.vel.abs_le(PART_VEL_MAX as int)
    &&& p.force.abs_le(PART_FORCE_MAX as int)
    &&& (p.mass == 0 && p.radius == 0) || (1 <= p.mass <= PART_MASS_MAX && RAD_MIN <= p.radius
        <= RAD_MAX)
}

/// The squared distance between two particles.
pub open spec fn dist2(p1: Particle, p2: Particle) -> int {
    (p2.pos.x - p1.pos.x) * (p2.pos.x - p1.pos.x) + (p2.pos.y - p1.pos.y) * (p2.pos.y
        - p1.pos.y)
}

/// Two particles collide when their disks overlap.
pub open spec fn colliding(p1: Particle, p2: Particle) -> bool {
    dist2(p1, p2) < (p1.radius + p2.radius) * (p1.radius + p2.radius)
}

/// The scalar part of the inverse-square law, widened for the direction
/// factor that follows: `G * m1 * m2 * FP^3 / d^2`, carried out in two
/// fixed-point division stages so that every intermediate value stays
/// representable, then capped. Multiplying by the unit direction
/// `delta / d` afterwards gives a force register value of
/// `G * m1 * m2 * FP / D^2` along each axis, with `D = d / FP` the distance
/// in pixels: the inverse-square law.
pub open spec fn grav_scale(m1: int, m2: int, d: int) -> int
    recommends
        d > 0,
{
    let t = GRAV_NUM * m1 * m2;
    let a = div_towards_zero(t * FP * FP, d);
    let b = div_towards_zero(a * FP, d);
    clamped(b, -GRAV_SCALE_MAX as int, GRAV_SCALE_MAX as int)
}

/// One component of the pairwise force: the scalar law times the unit
/// direction `delta / d`, capped at the pair limit.
pub open spec fn grav_component(m1: int, m2: int, delta: int, d: int) -> int
    recommends
        d > 0,
{
    clamped(
        div_towards_zero(grav_scale(m1, m2, d) * delta, d),
        -PAIR_FORCE_MAX as int,
        PAIR_FORCE_MAX as int,
    )
}

/// A force register after one more contribution, capped.
pub open spec fn force_acc(f: int, g: int) -> int {
    clamped(f + g, -PART_FORCE_MAX as int, PART_FORCE_MAX as int)
}

/// What one gravitational exchange does: the same force, capped, is added
/// to one register and subtracted from the other, and nothing else moves.
/// When neither register hits its cap, the sum of the two registers is
/// untouched: Newton's third law, and with it conservation of the momentum
/// the integration step later imparts.
pub open spec fn grav_applied(o1: Particle, o2: Particle, n1: Particle, n2: Particle) -> bool {
    let d = sqrt_floor(dist2(o1, o2));
    let gx = grav_component(o1.mass as int, o2.mass as int, o2.pos.x - o1.pos.x, d);
    let gy = grav_component(o1.mass as int, o2.mass as int, o2.pos.y - o1.pos.y, d);
    &&& n1.force.x == force_acc(o1.force.x as int, gx)
    &&& n1.force.y == force_acc(o1.force.y as int, gy)
    &&& n2.force.x == force_acc(o2.force.x as int, -gx)
    &&& n2.force.y == force_acc(o2.force.y as int, -gy)
    &&& (-PART_FORCE_MAX <= o1.force.x + gx <= PART_FORCE_MAX && -PART_FORCE_MAX <= o2.force.x
        - gx <= PART_FORCE_MAX) ==> n1.force.x + n2.force.x == o1.force.x + o2.force.x
    &&& (-PART_FORCE_MAX <= o1.force.y + gy <= PART_FORCE_MAX && -PART_FORCE_MAX <= o2.force.y
        - gy <= PART_FORCE_MAX) ==> n1.force.y + n2.force.y == o1.force.y + o2.force.y
    &&& n1.pos == o1.pos && n1.vel == o1.vel && n1.mass == o1.mass && n1.radius == o1.radius
    &&& n2.pos == o2.pos && n2.vel == o2.vel && n2.mass == o2.mass && n2.radius == o2.radius
}

/// What a mass merge does: the heavier particle keeps its position, the
/// masses add, momentum is conserved in the velocity average, the disk
/// areas add in the new radius, and the absorbed particle is left dead.
pub open spec fn merge_applied(o1: Particle, o2: Particle, n1: Particle, n2: Particle) -> bool {
    let msum = o1.mass + o2.mass;
    &&& n1.mass == msum
    &&& n1.radius == sqrt_floor(o1.radius * o1.radius + o2.radius * o2.radius)
    &&& n1.pos == (if o1.mass > o2.mass {
        o1.pos
    } else {
        o2.pos
    })
    &&& n1.vel.x == div_towards_zero(o1.vel.x * o1.mass + o2.vel.x * o2.mass, msum)
    &&& n1.vel.y == div_towards_zero(o1.vel.y * o1.mass + o2.vel.y * o2.mass, msum)
    &&& n1.force.x == 0 && n1.force.y == 0
    &&& n2.mass == 0 && n2.radius == 0
    &&& n2.vel.x == 0 && n2.vel.y == 0 && n2.force.x == 0 && n2.force.y == 0
    &&& n2.pos.x == -PART_POS_MAX && n2.pos.y == -PART_POS_MAX
}

/// Whether a merge of these two particles stays within the engine's mass
/// and radius range.
pub open spec fn merge_fits(o1: Particle, o2: Particle) -> bool {
    o1.mass + o2.mass <= PART_MASS_MAX && o1.radius * o1.radius + o2.radius * o2.radius
        <= RAD_MAX * RAD_MAX
}

/// The pair after one gravitational exchange, as a function of the inputs:
/// the relation `grav_applied` pins exactly these two particles.
pub open spec fn grav_pull(o1: Particle, o2: Particle) -> (Particle, Particle) {
    let d = sqrt_floor(dist2(o1, o2));
    let gx = grav_component(o1.mass as int, o2.mass as int, o2.pos.x - o1.pos.x, d);
    let gy = grav_component(o1.mass as int, o2.mass as int, o2.pos.y - o1.pos.y, d);
    (
        Particle {
            force: Vec2 {
                x: force_acc(o1.force.x as int, gx) as i64,
                y: force_acc(o1.force.y as int, gy) as i64,
                space: o1.force.space,
            },
            ..o1
        },
        Particle {
            force: Vec2 {
                x: force_acc(o2.force.x as int, -gx) as i64,
                y: force_acc(o2.force.y as int, -gy) as i64,
                space: o2.force.space,
            },
            ..o2
        },
    )
}

/// The surviving particle of a merge, as a function of the inputs.
pub open spec fn merged(o1: Particle, o2: Particle) -> Particle {
    let msum = o1.mass + o2.mass;
    Particle {
        pos: if o1.mass > o2.mass {
            o1.pos
        } else {
            o2.pos
        },
        vel: Vec2 {
            x: div_towards_zero(o1.vel.x * o1.mass + o2.vel.x * o2.mass, msum) as i64,
            y: div_towards_zero(o1.vel.y * o1.mass + o2.vel.y * o2.mass, msum) as i64,
            space: o1.vel.space,
        },
        force: Vec2 { x: 0, y: 0, space: o1.force.space },
        mass: msum as i64,
        radius: sqrt_floor(o1.radius * o1.radius + o2.radius * o2.radius) as i64,
    }
}

/// The dead husk a merge leaves behind, parked at the world's corner until
/// the cull.
pub open spec fn absorbed(o2: Particle) -> Particle {
    Particle {
        pos: Vec2 {
            x: (-(PART_POS_MAX as int)) as i64,
            y: (-(PART_POS_MAX as int)) as i64,
            space: o2.pos.space,
        },
        vel: Vec2 { x: 0, y: 0, space: o2.vel.space },
        force: Vec2 { x: 0, y: 0, space: o2.force.space },
        mass: 0,
        radius: 0,
    }
}

/// What one pairwise interaction does, as a function: dead partners are
/// skipped, overlapping live pairs merge when the result stays in range,
/// and separated live pairs exchange gravity.
pub open spec fn pair_step(p: Particle, q: Particle) -> (Particle, Particle) {
    if !live(p) || !live(q) {
        (p, q)
    } else if colliding(p, q) {
        if merge_fits(p, q) {
            (merged(p, q), absorbed(q))
        } else {
            (p, q)
        }
    } else {
        grav_pull(p, q)
    }
}

impl Particle {
    /// Accumulates the gravitational pull between two non-overlapping
    /// particles: `self` is pulled towards `p2` and `p2` towards `self` by
    /// the same force, so the sum of the two force registers is unchanged
    /// whenever neither register is at its cap (Newton's third law).
    pub fn gravitate(&mut self, p2: &mut Particle)
        requires
            valid_particle(*old(self)),
            valid_particle(*old(p2)),
            live(*old(self)),
            live(*old(p2)),
            !colliding(*old(self), *old(p2)),
        ensures
            valid_particle(*final(self)),
            valid_particle(*final(p2)),
            grav_applied(*old(self), *old(p2), *final(self), *final(p2)),
            (*final(self), *final(p2)) == grav_pull(*old(self), *old(p2)),
    {
        let dx = p2.pos.x - self.pos.x;
        let dy = p2.pos.y - self.pos.y;
        proof {
            assert(0 <= (dx as int) * (dx as int) <= 0x400000000000000000000int && 0 <= (
            dy as int) * (dy as int) <= 0x400000000000000000000int) by (nonlinear_arith)
                requires
                    -0x20000000000int <= dx <= 0x20000000000int && -0x20000000000int <= dy
                        <= 0x20000000000int,
            ;
        }
        let d2: i128 = dx as i128 * dx as i128 + dy as i128 * dy as i128;
        let d: i64 = isqrt_i128(d2);
        proof {
            // The disks do not overlap, so the distance is at least the two
            // radii, which are at least a pixel scale each.
            crate::intmath::lemma_sqrt_floor(d2 as int);
            let rsum = old(self).radius + old(p2).radius;
            assert(d2 >= rsum * rsum);
            assert(d >= rsum) by (nonlinear_arith)
                requires
                    (d as int) * (d as int) <= d2 && ((d as int) + 1) * ((d as int) + 1) > d2 && d2
                        >= rsum * rsum && rsum >= 0 && d >= 0,
            ;
        }
        let gx = grav_force_component(self.mass, p2.mass, dx, d);
        let gy = grav_force_component(self.mass, p2.mass, dy, d);
        let sfx = clamp_i64(self.force.x + gx, -PART_FORCE_MAX, PART_FORCE_MAX);
        let sfy = clamp_i64(self.force.y + gy, -PART_FORCE_MAX, PART_FORCE_MAX);
        let pfx = clamp_i64(p2.force.x - gx, -PART_FORCE_MAX, PART_FORCE_MAX);
        let pfy = clamp_i64(p2.force.y - gy, -PART_FORCE_MAX, PART_FORCE_MAX);
        self.force = vec2(sfx, sfy);
        p2.force = vec2(pfx, pfy);
    }
}

/// One component of the pairwise gravitational force.
fn grav_force_component(m1: i64, m2: i64, delta: i64, d: i64) -> (g: i64)
    requires
        1 <= m1 <= PART_MASS_MAX,
        1 <= m2 <= PART_MASS_MAX,
        -0x20000000000 <= delta <= 0x20000000000,
        d >= 2 * RAD_MIN,
    ensures
        g == grav_component(m1 as int, m2 as int, delta as int, d as int),
        -PAIR_FORCE_MAX <= g <= PAIR_FORCE_MAX,
{
    proof {
        assert(0 < (GRAV_NUM as int) * m1 <= 64 * 0x40000000int && 0 < ((GRAV_NUM as int) * m1)
            * m2 <= (64 * 0x40000000int) * 0x40000000int) by (nonlinear_arith)
            requires
                1 <= m1 <= 0x40000000int && 1 <= m2 <= 0x40000000int && GRAV_NUM == 64i64,
        ;
    }
    let t: i128 = GRAV_NUM as i128 * m1 as i128 * m2 as i128;
    proof {
        lemma_stage_bound(t as int * FP as int * FP as int, d as int,
            0x400000000000000000000000000int);
    }
    let a: i128 = div_i128(t * FP as i128 * FP as i128, d as i128);
    proof {
        assert(0x400000000000000000000000000int / 0x40000 == 0x10000000000000000000000int);
        assert(-0x100000000000000000000000000int <= (a as int) * (FP as int)
            <= 0x100000000000000000000000000int) by (nonlinear_arith)
            requires
                -0x10000000000000000000000int <= a <= 0x10000000000000000000000int && FP
                    == 65536i64,
        ;
        lemma_stage_bound(a as int * FP as int, d as int, 0x100000000000000000000000000int);
    }
    let b128: i128 = div_i128(a * FP as i128, d as i128);
    let c: i64 = crate::intmath::clamp_i128_to(b128, GRAV_SCALE_MAX);
    proof {
        assert(-0x20000000000000000000000000int <= (c as int) * (delta as int)
            <= 0x20000000000000000000000000int) by (nonlinear_arith)
            requires
                -0x1000000000000000int <= c <= 0x1000000000000000int && -0x20000000000int <= delta
                    <= 0x20000000000int,
        ;
        crate::intmath::lemma_div_towards_zero_bound(c as int * delta as int, d as int);
    }
    let g128: i128 = div_i128(c as i128 * delta as i128, d as i128);
    crate::intmath::clamp_i128_to(g128, PAIR_FORCE_MAX)
}

/// One fixed-point stage of the force law shrinks by at least the minimum
/// distance: a value of magnitude at most `m` divided by `d` stays within
/// `m / 0x40000` when `d` is at least two minimum radii.
proof fn lemma_stage_bound(x: int, d: int, m: int)
    requires
        d >= 0x40000,
        -m <= x <= m,
        m >= 0,
    ensures
        -(m / 0x40000) <= div_towards_zero(x, d) <= m / 0x40000,
{
    crate::intmath::lemma_div_towards_zero_mono(x, d, 0x40000);
    if x >= 0 {
        assert(x / 0x40000 <= m / 0x40000) by (nonlinear_arith)
            requires
                0 <= x <= m,
        ;
        crate::intmath::lemma_div_towards_zero_bound(x, d);
        assert(div_towards_zero(x, d) >= 0);
        assert(m / 0x40000 >= 0) by (nonlinear_arith)
            requires
                m >= 0,
        ;
    } else {
        assert((-x) / 0x40000 <= m / 0x40000) by (nonlinear_arith)
            requires
                0 <= -x <= m,
        ;
        crate::intmath::lemma_div_towards_zero_bound(x, d);
        assert(m / 0x40000 >= 0) by (nonlinear_arith)
            requires
                m >= 0,
        ;
    }
}

impl Particle {
    /// Merges another particle into this one: masses add, momentum carries
    /// over into the averaged velocity, disk area is conserved in the new
    /// radius, and the absorbed particle is zeroed out to be culled.
    pub fn combine_particles(&mut self, p2: &mut Particle)
        requires
            valid_particle(*old(self)),
            valid_particle(*old(p2)),
            live(*old(self)),
            live(*old(p2)),
            merge_fits(*old(self), *old(p2)),
        ensures
            valid_particle(*final(self)),
            valid_particle(*final(p2)),
            live(*final(self)),
            !live(*final(p2)),
            merge_applied(*old(self), *old(p2), *final(self), *final(p2)),
            *final(self) == merged(*old(self), *old(p2)),
            *final(p2) == absorbed(*old(p2)),
    {
        let m1 = self.mass;
        let m2 = p2.mass;
        let msum = m1 + m2;
        let consumer_pos = if m1 > m2 {
            self.pos
        } else {
            p2.pos
        };
        proof {
            assert(-0x4000000000000000int <= (self.vel.x as int) * m1 <= 0x4000000000000000int
                && -0x4000000000000000int <= (p2.vel.x as int) * m2 <= 0x4000000000000000int
                && -0x4000000000000000int <= (self.vel.y as int) * m1 <= 0x4000000000000000int
                && -0x4000000000000000int <= (p2.vel.y as int) * m2 <= 0x4000000000000000int)
                by (nonlinear_arith)
                requires
                    -0x100000000int <= self.vel.x <= 0x100000000int && -0x100000000int
                        <= self.vel.y <= 0x100000000int && -0x100000000int <= p2.vel.x
                        <= 0x100000000int && -0x100000000int <= p2.vel.y <= 0x100000000int && 0
                        < m1 <= 0x40000000int && 0 < m2 <= 0x40000000int,
            ;
            lemma_weighted_avg_bound(
                self.vel.x as int,
                p2.vel.x as int,
                m1 as int,
                m2 as int,
                PART_VEL_MAX as int,
            );
            lemma_weighted_avg_bound(
                self.vel.y as int,
                p2.vel.y as int,
                m1 as int,
                m2 as int,
                PART_VEL_MAX as int,
            );
        }
        let vx = div_i128(
            self.vel.x as i128 * m1 as i128 + p2.vel.x as i128 * m2 as i128,
            msum as i128,
        ) as i64;
        let vy = div_i128(
            self.vel.y as i128 * m1 as i128 + p2.vel.y as i128 * m2 as i128,
            msum as i128,
        ) as i64;
        let r1 = self.radius;
        let r2 = p2.radius;
        proof {
            assert(0 < (r1 as int) * (r1 as int) <= 0x4000000000000int && 0 < (r2 as int) * (
            r2 as int) <= 0x4000000000000int) by (nonlinear_arith)
                requires
                    0 < r1 <= 0x2000000i64 && 0 < r2 <= 0x2000000i64,
            ;
        }
        let rsq: i128 = r1 as i128 * r1 as i128 + r2 as i128 * r2 as i128;
        let new_radius = isqrt_i128(rsq);
        proof {
            crate::intmath::lemma_sqrt_floor(rsq as int);
            let snew = sqrt_floor(rsq as int);
            assert(RAD_MIN <= snew <= RAD_MAX) by (nonlinear_arith)
                requires
                    snew >= 0 && snew * snew <= rsq && (snew + 1) * (snew + 1) > rsq && rsq >= (
                    r1 as int) * (r1 as int) && RAD_MIN <= r1 && rsq
                        <= (RAD_MAX as int) * (RAD_MAX as int) && RAD_MIN == 0x20000i64 && RAD_MAX
                        == 0x2000000i64,
            ;
        }
        *self = Particle {
            pos: consumer_pos,
            vel: vec2(vx, vy),
            force: vec2(0, 0),
            mass: msum,
            radius: new_radius,
        };
        *p2 = Particle {
            pos: vec2(-PART_POS_MAX, -PART_POS_MAX),
            vel: vec2(0, 0),
            force: vec2(0, 0),
            mass: 0,
            radius: 0,
        };
    }

    /// One pairwise interaction: overlapping particles merge when the
    /// result stays in range (an astronomically heavy pair is left alone
    /// for this tick); separated particles attract.
    pub fn apply_physics(&mut self, p2: &mut Particle)
        requires
            valid_particle(*old(self)),
            valid_particle(*old(p2)),
            live(*old(self)),
            live(*old(p2)),
        ensures
            valid_particle(*final(self)),
            valid_particle(*final(p2)),
            live(*final(self)),
            !colliding(*old(self), *old(p2)) ==> grav_applied(
                *old(self),
                *old(p2),
                *final(self),
                *final(p2),
            ) && live(*final(p2)),
            colliding(*old(self), *old(p2)) && merge_fits(*old(self), *old(p2))
                ==> merge_applied(*old(self), *old(p2), *final(self), *final(p2)),
            colliding(*old(self), *old(p2)) && !merge_fits(*old(self), *old(p2)) ==> *final(self)
                == *old(self) && *final(p2) == *old(p2),
            (*final(self), *final(p2)) == pair_step(*old(self), *old(p2)),
    {
        let dx = p2.pos.x - self.pos.x;
        let dy = p2.pos.y - self.pos.y;
        proof {
            assert(0 <= (dx as int) * (dx as int) <= 0x400000000000000000000int && 0 <= (
            dy as int) * (dy as int) <= 0x400000000000000000000int) by (nonlinear_arith)
                requires
                    -0x20000000000int <= dx <= 0x20000000000int && -0x20000000000int <= dy
                        <= 0x20000000000int,
            ;
            assert(0 < (self.radius + p2.radius) * (self.radius + p2.radius)
                <= 0x10000000000000int) by (nonlinear_arith)
                requires
                    0 < self.radius + p2.radius <= 0x4000000i64,
            ;
        }
        let d2: i128 = dx as i128 * dx as i128 + dy as i128 * dy as i128;
        let min_dist = self.radius + p2.radius;
        let min2: i128 = min_dist as i128 * min_dist as i128;
        if d2 < min2 {
            let fits_mass = self.mass <= PART_MASS_MAX - p2.mass;
            proof {
                assert(0 <= (self.radius as int) * (self.radius as int) <= 0x4000000000000int
                    && 0 <= (p2.radius as int) * (p2.radius as int) <= 0x4000000000000int)
                    by (nonlinear_arith)
                    requires
                        0 <= self.radius <= 0x2000000i64 && 0 <= p2.radius <= 0x2000000i64,
                ;
                assert(0 < (RAD_MAX as int) * (RAD_MAX as int)) by (nonlinear_arith)
                    requires
                        RAD_MAX == 0x2000000i64,
                ;
            }
            let rsq: i128 = self.radius as i128 * self.radius as i128 + p2.radius as i128
                * p2.radius as i128;
            let fits_rad = rsq <= RAD_MAX as i128 * RAD_MAX as i128;
            if fits_mass && fits_rad {
                self.combine_particles(p2);
            }
        } else {
            self.gravitate(p2);
        }
    }
}

/// A momentum-weighted average of two bounded velocities stays bounded.
proof fn lemma_weighted_avg_bound(v1: int, v2: int, m1: int, m2: int, lim: int)
    requires
        1 <= m1,
        1 <= m2,
        0 < lim,
        -lim <= v1 <= lim,
        -lim <= v2 <= lim,
    ensures
        -lim <= div_towards_zero(v1 * m1 + v2 * m2, m1 + m2) <= lim,
{
    let n = v1 * m1 + v2 * m2;
    let m = m1 + m2;
    assert(-(lim * m) <= n <= lim * m) by (nonlinear_arith)
        requires
            1 <= m1 && 1 <= m2 && -lim <= v1 <= lim && -lim <= v2 <= lim && n == v1 * m1 + v2 * m2
                && m == m1 + m2,
    ;
    if n >= 0 {
        assert(n / m <= lim) by (nonlinear_arith)
            requires
                0 <= n <= lim * m && m > 0,
        ;
        crate::intmath::lemma_div_towards_zero_bound(n, m);
    } else {
        assert((-n) / m <= lim) by (nonlinear_arith)
            requires
                0 <= -n <= lim * m && m > 0,
        ;
        crate::intmath::lemma_div_towards_zero_bound(n, m);
    }
}

/// A velocity after one force kick: `v + f * dt / (m * FP)`, capped.
pub open spec fn vel_kick(v: int, f: int, dt: int, m: int) -> int {
    clamped(
        v + div_towards_zero(f * dt, m * FP),
        -PART_VEL_MAX as int,
        PART_VEL_MAX as int,
    )
}

/// The per-tick damping: `v * RES_NUM / RES_DEN`.
pub open spec fn damped(v: int) -> int {
    div_towards_zero(v * RES_NUM, RES_DEN as int)
}

/// The particle after one integration step, as a function of the input:
/// the relation `integrated` pins exactly this particle.
pub open spec fn integrated_particle(o: Particle, dt: int) -> Particle {
    let vx = damped(vel_kick(o.vel.x as int, o.force.x as int, dt, o.mass as int)) as i64;
    let vy = damped(vel_kick(o.vel.y as int, o.force.y as int, dt, o.mass as int)) as i64;
    Particle {
        pos: Vec2 {
            x: clamped(o.pos.x + vx, -PART_POS_MAX as int, PART_POS_MAX as int) as i64,
            y: clamped(o.pos.y + vy, -PART_POS_MAX as int, PART_POS_MAX as int) as i64,
            space: o.pos.space,
        },
        vel: Vec2 { x: vx, y: vy, space: o.vel.space },
        force: Vec2 { x: 0, y: 0, space: o.force.space },
        ..o
    }
}

/// What one integration step does to a particle: the accumulated force
/// kicks the velocity, damping shaves it, the velocity moves the position
/// (capped at the world bound), and the force register resets.
pub open spec fn integrated(o: Particle, n: Particle, dt: int) -> bool {
    &&& n.vel.x == damped(vel_kick(o.vel.x as int, o.force.x as int, dt, o.mass as int))
    &&& n.vel.y == damped(vel_kick(o.vel.y as int, o.force.y as int, dt, o.mass as int))
    &&& n.pos.x == clamped(o.pos.x + n.vel.x, -PART_POS_MAX as int, PART_POS_MAX as int)
    &&& n.pos.y == clamped(o.pos.y + n.vel.y, -PART_POS_MAX as int, PART_POS_MAX as int)
    &&& n.force.x == 0 && n.force.y == 0
    &&& n.mass == o.mass && n.radius == o.radius
}

/// Damping a bounded velocity keeps it bounded.
proof fn lemma_damp_bound(v: int, lim: int)
    requires
        0 < lim,
        -lim <= v <= lim,
    ensures
        -lim <= damped(v) <= lim,
{
    if v * RES_NUM >= 0 {
        assert((v * RES_NUM) / (RES_DEN as int) <= lim) by (nonlinear_arith)
            requires
                0 <= v * RES_NUM <= lim * 1000 && RES_DEN == 1000i64,
        ;
        assert(v * RES_NUM <= lim * 1000) by (nonlinear_arith)
            requires
                -lim <= v <= lim && RES_NUM == 999i64,
        ;
        crate::intmath::lemma_div_towards_zero_bound(v * RES_NUM, RES_DEN as int);
    } else {
        assert((-(v * RES_NUM)) / (RES_DEN as int) <= lim) by (nonlinear_arith)
            requires
                0 <= -(v * RES_NUM) <= lim * 1000 && RES_DEN == 1000i64,
        ;
        assert(-(v * RES_NUM) <= lim * 1000) by (nonlinear_arith)
            requires
                -lim <= v <= lim && RES_NUM == 999i64,
        ;
        crate::intmath::lemma_div_towards_zero_bound(v * RES_NUM, RES_DEN as int);
    }
}

impl Particle {
    /// One integration step, consuming the force register.
    pub fn integrate(&mut self, dt: i64)
        requires
            valid_particle(*old(self)),
            live(*old(self)),
            1 <= dt <= PART_DT_MAX,
        ensures
            valid_particle(*final(self)),
            live(*final(self)),
            integrated(*old(self), *final(self), dt as int),
            *final(self) == integrated_particle(*old(self), dt as int),
    {
        let vx = integrate_component(self.vel.x, self.force.x, dt, self.mass);
        let vy = integrate_component(self.vel.y, self.force.y, dt, self.mass);
        let px = clamp_i64(self.pos.x + vx, -PART_POS_MAX, PART_POS_MAX);
        let py = clamp_i64(self.pos.y + vy, -PART_POS_MAX, PART_POS_MAX);
        self.vel = vec2(vx, vy);
        self.pos = vec2(px, py);
        self.force = vec2(0, 0);
    }
}

/// One velocity component through the kick and the damping.
fn integrate_component(v: i64, f: i64, dt: i64, m: i64) -> (out: i64)
    requires
        -PART_VEL_MAX <= v <= PART_VEL_MAX,
        -PART_FORCE_MAX <= f <= PART_FORCE_MAX,
        1 <= dt <= PART_DT_MAX,
        1 <= m <= PART_MASS_MAX,
    ensures
        out == damped(vel_kick(v as int, f as int, dt as int, m as int)),
        -PART_VEL_MAX <= out <= PART_VEL_MAX,
{
    proof {
        assert(-0x100000000000000000000int <= (f as int) * (dt as int)
            <= 0x100000000000000000000int && 0 < (m as int) * (FP as int)
            <= 0x400000000000int) by (nonlinear_arith)
            requires
                -0x1000000000000000int <= f <= 0x1000000000000000int && 1 <= dt <= 0x100000 && 1
                    <= m <= 0x40000000int && FP == 65536i64,
        ;
        crate::intmath::lemma_div_towards_zero_bound((f as int) * (dt as int),
            (m as int) * (FP as int),
        );
    }
    let q: i128 = div_i128(f as i128 * dt as i128, m as i128 * FP as i128);
    let kicked: i64 = crate::intmath::clamp_i128_to(v as i128 + q, PART_VEL_MAX);
    proof {
        lemma_damp_bound(kicked as int, PART_VEL_MAX as int);
        assert(-0x200000000000int <= (kicked as int) * (RES_NUM as int) <= 0x200000000000int)
            by (nonlinear_arith)
            requires
                -0x100000000int <= kicked <= 0x100000000int && RES_NUM == 999i64,
        ;
    }
    div_i128(kicked as i128 * RES_NUM as i128, RES_DEN as i128) as i64
}

/// The truncating quotient leaves a remainder smaller than the divisor.
proof fn lemma_div_remainder(a: int, b: int)
    requires
        b > 0,
    ensures
        -b < a - b * div_towards_zero(a, b) < b,
{
    if a >= 0 {
        assert(a == b * (a / b) + a % b && 0 <= a % b < b) by (nonlinear_arith)
            requires
                a >= 0 && b > 0,
        ;
    } else {
        let n = -a;
        assert(n == b * (n / b) + n % b && 0 <= n % b < b) by (nonlinear_arith)
            requires
                n > 0 && b > 0,
        ;
        assert(b * (-(n / b)) == -(b * (n / b))) by (nonlinear_arith);
    }
}

/// Momentum conservation through one gravitational tick, up to truncation:
/// when a pair exchanges the equal-and-opposite force `f` and neither
/// velocity hits its cap, the change of total momentum `m1*v1 + m2*v2` from
/// the force kicks is smaller than one fixed-point unit per unit of mass.
/// The damping that follows scales each velocity by the same factor and is
/// the only other change a tick makes.
pub proof fn lemma_momentum_drift(m1: int, m2: int, v1: int, v2: int, f: int, dt: int)
    requires
        1 <= m1,
        1 <= m2,
        1 <= dt,
        -PART_VEL_MAX <= v1 + div_towards_zero(f * dt, m1 * FP) <= PART_VEL_MAX,
        -PART_VEL_MAX <= v2 + div_towards_zero(-f * dt, m2 * FP) <= PART_VEL_MAX,
    ensures
        -(m1 + m2) < m1 * (vel_kick(v1, f, dt, m1) - v1) + m2 * (vel_kick(v2, -f, dt, m2) - v2)
            < m1 + m2,
{
    let b1 = m1 * FP;
    let b2 = m2 * FP;
    assert(b1 > 0 && b2 > 0) by (nonlinear_arith)
        requires
            m1 >= 1 && m2 >= 1 && b1 == m1 * FP && b2 == m2 * FP && FP == 65536i64,
    ;
    let q1 = div_towards_zero(f * dt, b1);
    let q2 = div_towards_zero(-f * dt, b2);
    assert(vel_kick(v1, f, dt, m1) - v1 == q1);
    assert(vel_kick(v2, -f, dt, m2) - v2 == q2);
    lemma_div_remainder(f * dt, b1);
    lemma_div_remainder(-f * dt, b2);
    // b1*q1 is within b1 of f*dt, and b2*q2 within b2 of -(f*dt); the two
    // remainders bound the drift of m1*q1 + m2*q2 by (m1 + m2) in
    // fixed-point units.
    let x1 = f * dt - b1 * div_towards_zero(f * dt, b1);
    let x2 = -f * dt - b2 * div_towards_zero(-f * dt, b2);
    assert((-f) * dt == -(f * dt)) by (nonlinear_arith);
    assert(-b1 < x1 < b1 && -b2 < x2 < b2);
    assert(b1 * q1 == b1 * div_towards_zero(f * dt, b1));
    assert(b2 * q2 == b2 * div_towards_zero(-f * dt, b2));
    assert(x1 + x2 == -(b1 * q1) - (b2 * q2));
    assert(m1 * q1 * FP == b1 * q1 && m2 * q2 * FP == b2 * q2) by (nonlinear_arith)
        requires
            b1 == m1 * FP && b2 == m2 * FP,
    ;
    assert(-(b1 + b2) < b1 * q1 + b2 * q2 < b1 + b2);
    assert((m1 * q1 + m2 * q2) * FP == m1 * q1 * FP + m2 * q2 * FP) by (nonlinear_arith);
    assert(-(m1 + m2) < m1 * q1 + m2 * q2 < m1 + m2) by (nonlinear_arith)
        requires
            -((m1 + m2) * FP) < (m1 * q1 + m2 * q2) * FP < (m1 + m2) * FP && FP == 65536i64,
    ;
    assert(-((m1 + m2) * FP) == -(b1 + b2) && (m1 + m2) * FP == b1 + b2) by (nonlinear_arith)
        requires
            b1 == m1 * FP && b2 == m2 * FP,
    ;
}

/// The particle a spawn call creates: mass follows from the radius by the
/// engine's density, `MASS_NUM / MASS_DEN` mass units per cubic pixel.
pub open spec fn spec_new_particle(
    pos: Vec2<i64, WorldSpace>,
    vel: Vec2<i64, WorldSpace>,
    force: Vec2<i64, WorldSpace>,
    radius: i64,
) -> Particle {
    Particle {
        pos,
        vel,
        force,
        mass: div_towards_zero(
            radius * radius * radius * MASS_NUM,
            MASS_DEN * 0x1000000000000,
        ) as i64,
        radius,
    }
}

/// Builds a particle of the given radius; its mass follows from the
/// engine's density.
pub fn create_particle(
    pos: Vec2<i64, WorldSpace>,
    vel: Vec2<i64, WorldSpace>,
    force: Vec2<i64, WorldSpace>,
    radius: i64,
) -> (out: Particle)
    requires
        pos.abs_le(PART_POS_MAX as int),
        vel.abs_le(PART_VEL_MAX as int),
        force.abs_le(PART_FORCE_MAX as int),
        RAD_MIN <= radius <= RAD_MAX,
    ensures
        out == spec_new_particle(pos, vel, force, radius),
        valid_particle(out),
        live(out),
{
    proof {
        let r = radius as int;
        assert(0 < r * r <= 0x2000000int * 0x2000000int && 0x20000int * 0x20000int * 0x20000int
            <= r * r * r <= 0x2000000int * 0x2000000int * 0x2000000int) by (nonlinear_arith)
            requires
                0x20000int <= r <= 0x2000000int,
        ;
        assert(0 < (r * r * r) * (MASS_NUM as int)
            <= 0x2000000int * 0x2000000int * 0x2000000int * 277) by (nonlinear_arith)
            requires
                0 < r * r * r <= 0x2000000int * 0x2000000int * 0x2000000int && MASS_NUM == 277i64,
        ;
        assert(r * r * r * (MASS_NUM as int) >= 0x20000int * 0x20000int * 0x20000int * 277)
            by (nonlinear_arith)
            requires
                r * r * r >= 0x20000int * 0x20000int * 0x20000int && MASS_NUM == 277i64,
        ;
        assert((r * r * r * (MASS_NUM as int)) / (MASS_DEN as int * 0x1000000000000)
            >= 1 && (r * r * r * (MASS_NUM as int)) / (MASS_DEN as int * 0x1000000000000)
            <= 0x40000000int) by (nonlinear_arith)
            requires
                0x20000int * 0x20000int * 0x20000int * 277 <= r * r * r * (MASS_NUM as int)
                    <= 0x2000000int * 0x2000000int * 0x2000000int * 277 && MASS_DEN == 1000i64,
        ;
        crate::intmath::lemma_div_towards_zero_bound(
            r * r * r * (MASS_NUM as int),
            MASS_DEN as int * 0x1000000000000,
        );
    }
    let num: i128 = radius as i128 * radius as i128 * radius as i128 * MASS_NUM as i128;
    let mass: i64 = div_i128(num, MASS_DEN as i128 * 0x1000000000000) as i64;
    Particle { pos, vel, force, mass, radius }
}

/// The particle list after the pairs `(i, j), (i, j+1), ...` of one tick's
/// pairwise pass have interacted, in order.
pub open spec fn pass_pair_row(s: Seq<Particle>, i: int, j: int) -> Seq<Particle>
    decreases s.len() - j,
{
    if j < 0 || j >= s.len() || !(0 <= i < s.len()) {
        s
    } else {
        let r = pair_step(s[i], s[j]);
        pass_pair_row(s.update(i, r.0).update(j, r.1), i, j + 1)
    }
}

/// The particle list after the tick has processed indices `i, i+1, ...`:
/// each index interacts with every later one, then integrates its
/// accumulated force if it is still alive.
pub open spec fn pass_from(s: Seq<Particle>, i: int, dt: int) -> Seq<Particle>
    decreases s.len() - i
        via pass_from_decreases
{
    if i < 0 || i >= s.len() {
        s
    } else {
        let s1 = pass_pair_row(s, i, i + 1);
        let s2 = if live(s1[i]) {
            s1.update(i, integrated_particle(s1[i], dt))
        } else {
            s1
        };
        pass_from(s2, i + 1, dt)
    }
}

#[via_fn]
proof fn pass_from_decreases(s: Seq<Particle>, i: int, dt: int) {
    if !(i < 0 || i >= s.len()) {
        lemma_row_len(s, i, i + 1);
    }
}

/// The pairwise pass never changes the list's length.
pub proof fn lemma_row_len(s: Seq<Particle>, i: int, j: int)
    ensures
        pass_pair_row(s, i, j).len() == s.len(),
    decreases s.len() - j,
{
    if !(j < 0 || j >= s.len() || !(0 <= i < s.len())) {
        let r = pair_step(s[i], s[j]);
        lemma_row_len(s.update(i, r.0).update(j, r.1), i, j + 1);
    }
}

/// Neither does the whole tick pass.
pub proof fn lemma_pass_len(s: Seq<Particle>, i: int, dt: int)
    ensures
        pass_from(s, i, dt).len() == s.len(),
    decreases s.len() - i,
{
    if !(i < 0 || i >= s.len()) {
        lemma_row_len(s, i, i + 1);
        let s1 = pass_pair_row(s, i, i + 1);
        let s2 = if live(s1[i]) {
            s1.update(i, integrated_particle(s1[i], dt))
        } else {
            s1
        };
        lemma_pass_len(s2, i + 1, dt);
    }
}

/// A dead particle interacts with nobody: its row of the pass is a no-op.
proof fn lemma_row_dead(s: Seq<Particle>, i: int, j: int)
    requires
        0 <= i < s.len(),
        !live(s[i]),
    ensures
        pass_pair_row(s, i, j) == s,
    decreases s.len() - j,
{
    if !(j < 0 || j >= s.len()) {
        let r = pair_step(s[i], s[j]);
        assert(r == (s[i], s[j]));
        let s2 = s.update(i, r.0).update(j, r.1);
        assert(s2 =~= s);
        lemma_row_dead(s, i, j + 1);
    }
}

/// The particles of `s` that are still alive, in order: the cull's result.
pub open spec fn live_filter(s: Seq<Particle>) -> Seq<Particle>
    decreases s.len(),
{
    if s.len() == 0 {
        s
    } else {
        let rest = live_filter(s.drop_last());
        if live(s.last()) {
            rest.push(s.last())
        } else {
            rest
        }
    }
}

/// The cull keeps at most as many particles as it is given.
pub proof fn lemma_filter_len(s: Seq<Particle>)
    ensures
        live_filter(s).len() <= s.len(),
    decreases s.len(),
{
    if s.len() > 0 {
        lemma_filter_len(s.drop_last());
    }
}

/// The particle list the gravity engine owns.
pub struct Simulation {
    pub particles: Vec<Particle>,
}

impl Simulation {
    /// Every stored particle is in range, and the list is not over-full.
    pub open spec fn wf(self) -> bool {
        &&& self.particles@.len() <= PART_N_MAX
        &&& forall|k: int|
            0 <= k < self.particles@.len() ==> valid_particle(#[trigger] self.particles@[k])
    }

    pub fn new() -> (out: Self)
        ensures
            out.wf(),
            out.particles@.len() == 0,
    {
        Simulation { particles: Vec::new() }
    }

    /// The live particles, for rendering.
    pub fn get_particles(&self) -> (out: &Vec<Particle>)
        ensures
            out@ == self.particles@,
    {
        &self.particles
    }

    /// Removes every particle.
    pub fn clear(&mut self)
        ensures
            final(self).wf(),
            final(self).particles@.len() == 0,
    {
        self.particles.clear();
    }

    /// Replaces the contents with the two standard demonstration particles.
    pub fn reset(&mut self)
        ensures
            final(self).wf(),
            final(self).particles@.len() == 2,
            final(self).particles@[0] == spec_new_particle(
                Vec2 { x: (120 * FP) as i64, y: (120 * FP) as i64, space: core::marker::PhantomData },
                vec2_zero(),
                vec2_zero(),
                (60 * FP) as i64,
            ),
            final(self).particles@[1] == spec_new_particle(
                Vec2 { x: (320 * FP) as i64, y: (320 * FP) as i64, space: core::marker::PhantomData },
                vec2_zero(),
                vec2_zero(),
                (60 * FP) as i64,
            ),
    {
        self.clear();
        self.spawn_particle(
            vec2(120 * FP, 120 * FP),
            vec2(0, 0),
            vec2(0, 0),
            60 * FP,
        );
        self.spawn_particle(
            vec2(320 * FP, 320 * FP),
            vec2(0, 0),
            vec2(0, 0),
            60 * FP,
        );
    }

    /// Appends a particle whose mass follows from its radius.
    pub fn spawn_particle(
        &mut self,
        pos: Vec2<i64, WorldSpace>,
        vel: Vec2<i64, WorldSpace>,
        force: Vec2<i64, WorldSpace>,
        radius: i64,
    )
        requires
            old(self).wf(),
            old(self).particles@.len() < PART_N_MAX,
            pos.abs_le(PART_POS_MAX as int),
            vel.abs_le(PART_VEL_MAX as int),
            force.abs_le(PART_FORCE_MAX as int),
            RAD_MIN <= radius <= RAD_MAX,
        ensures
            final(self).wf(),
            final(self).particles@ == old(self).particles@.push(
                spec_new_particle(pos, vel, force, radius),
            ),
    {
        let p = create_particle(pos, vel, force, radius);
        self.particles.push(p);
    }

    /// Appends a particle with an explicit mass, for setting up exact
    /// scenarios.
    pub fn spawn_particle_with_mass(
        &mut self,
        pos: Vec2<i64, WorldSpace>,
        vel: Vec2<i64, WorldSpace>,
        mass: i64,
        radius: i64,
    )
        requires
            old(self).wf(),
            old(self).particles@.len() < PART_N_MAX,
            pos.abs_le(PART_POS_MAX as int),
            vel.abs_le(PART_VEL_MAX as int),
            1 <= mass <= PART_MASS_MAX,
            RAD_MIN <= radius <= RAD_MAX,
        ensures
            final(self).wf(),
            final(self).particles@ == old(self).particles@.push(
                Particle { pos, vel, force: vec2_zero(), mass, radius },
            ),
    {
        let p = Particle { pos, vel, force: vec2(0, 0), mass, radius };
        self.particles.push(p);
        proof {
            assert(final(self).particles@ =~= old(self).particles@.push(
                Particle { pos, vel, force: vec2_zero(), mass, radius },
            ));
        }
    }

    /// One physics tick: every unordered pair interacts in index order
    /// (merge on overlap, gravity otherwise), every live particle then
    /// integrates its accumulated force and resets it, and dead particles
    /// are culled. The result is exactly `live_filter(pass_from(...))`:
    /// the sequential pairwise pass over the old list, with the dead
    /// filtered out.
    pub fn update(&mut self, dt: i64)
        requires
            old(self).wf(),
            1 <= dt <= PART_DT_MAX,
        ensures
            final(self).wf(),
            final(self).particles@ == live_filter(
                pass_from(old(self).particles@, 0, dt as int),
            ),
            final(self).particles@.len() <= old(self).particles@.len(),
            forall|k: int|
                0 <= k < final(self).particles@.len() ==> live(
                    #[trigger] final(self).particles@[k],
                ) && final(self).particles@[k].force.x == 0 && final(self).particles@[k].force.y
                    == 0,
    {
        let ghost s0 = old(self).particles@;
        let n = self.particles.len();
        let mut i: usize = 0;
        while i < n
            invariant
                self.particles@.len() == n,
                n == s0.len(),
                n <= PART_N_MAX,
                1 <= dt <= PART_DT_MAX,
                i <= n,
                pass_from(self.particles@, i as int, dt as int) == pass_from(s0, 0, dt as int),
                forall|k: int| 0 <= k < n ==> valid_particle(#[trigger] self.particles@[k]),
                forall|k: int|
                    0 <= k < i && live(#[trigger] self.particles@[k]) ==> self.particles@[k].force.x
                        == 0 && self.particles@[k].force.y == 0,
            decreases n - i,
        {
            let ghost s_head = self.particles@;
            let mut a = self.particles[i];
            if a.mass > 0 {
                let mut j: usize = i + 1;
                proof {
                    assert(s_head.update(i as int, a) =~= s_head);
                }
                while j < n
                    invariant
                        self.particles@.len() == n,
                        n <= PART_N_MAX,
                        i < n,
                        i < j <= n,
                        1 <= dt <= PART_DT_MAX,
                        valid_particle(a),
                        live(a),
                        s_head.len() == n,
                        pass_pair_row(self.particles@.update(i as int, a), i as int, j as int)
                            == pass_pair_row(s_head, i as int, i + 1),
                        forall|k: int|
                            0 <= k <= i ==> #[trigger] self.particles@[k] == s_head[k],
                        forall|k: int| 0 <= k < n ==> valid_particle(#[trigger] self.particles@[k]),
                    decreases n - j,
                {
                    let ghost g = self.particles@.update(i as int, a);
                    let mut b = self.particles[j];
                    proof {
                        assert(g[i as int] == a && g[j as int] == b);
                    }
                    if b.mass > 0 {
                        let ghost a_in = a;
                        let ghost b_in = b;
                        a.apply_physics(&mut b);
                        self.particles[j] = b;
                        proof {
                            assert(pair_step(g[i as int], g[j as int]) == (a, b));
                            let g2 = g.update(i as int, a).update(j as int, b);
                            assert(self.particles@.update(i as int, a) =~= g2);
                        }
                    } else {
                        proof {
                            assert(pair_step(g[i as int], g[j as int]) == (a, b));
                            let g2 = g.update(i as int, a).update(j as int, b);
                            assert(g2 =~= g);
                        }
                    }
                    j = j + 1;
                }
                proof {
                    let g = self.particles@.update(i as int, a);
                    assert(pass_pair_row(g, i as int, n as int) == g);
                    assert(g == pass_pair_row(s_head, i as int, i + 1));
                    assert(live(g[i as int]));
                }
                let ghost a_row = a;
                a.integrate(dt);
                self.particles[i] = a;
                proof {
                    let s1 = pass_pair_row(s_head, i as int, i + 1);
                    assert(s1[i as int] == a_row);
                    assert(a == integrated_particle(a_row, dt as int));
                    assert(self.particles@ =~= s1.update(i as int, a));
                    assert(pass_from(s_head, i as int, dt as int) == pass_from(
                        self.particles@,
                        i + 1,
                        dt as int,
                    ));
                }
            } else {
                proof {
                    lemma_row_dead(s_head, i as int, i + 1);
                    let s1 = pass_pair_row(s_head, i as int, i + 1);
                    assert(s1 == s_head);
                    assert(!live(s1[i as int]));
                    assert(pass_from(s_head, i as int, dt as int) == pass_from(
                        s_head,
                        i + 1,
                        dt as int,
                    ));
                }
            }
            i = i + 1;
        }
        proof {
            assert(pass_from(self.particles@, n as int, dt as int) == self.particles@);
        }
        let ghost s_pass = pass_from(s0, 0, dt as int);
        // Cull: keep exactly the live particles, in order.
        let mut kept: Vec<Particle> = Vec::new();
        let mut k: usize = 0;
        proof {
            assert(s_pass.take(0) =~= Seq::<Particle>::empty());
            assert(live_filter(s_pass.take(0)) =~= kept@);
        }
        while k < n
            invariant
                self.particles@ == s_pass,
                self.particles@.len() == n,
                n <= PART_N_MAX,
                k <= n,
                kept@.len() <= k,
                kept@ == live_filter(s_pass.take(k as int)),
                forall|q: int| 0 <= q < n ==> valid_particle(#[trigger] self.particles@[q]),
                forall|q: int|
                    0 <= q < n && live(#[trigger] self.particles@[q]) ==> self.particles@[q].force.x
                        == 0 && self.particles@[q].force.y == 0,
                forall|q: int|
                    0 <= q < kept@.len() ==> valid_particle(#[trigger] kept@[q]) && live(kept@[q])
                        && kept@[q].force.x == 0 && kept@[q].force.y == 0,
            decreases n - k,
        {
            let c = self.particles[k];
            proof {
                let t = s_pass.take(k + 1);
                assert(t.drop_last() =~= s_pass.take(k as int));
                assert(t.last() == c);
            }
            if c.mass > 0 {
                kept.push(c);
            }
            k = k + 1;
        }
        proof {
            assert(s_pass.take(n as int) =~= s_pass);
        }
        self.particles = kept;
    }
}

/// The zero vector, for stating spawn results.
pub open spec fn vec2_zero() -> Vec2<i64, WorldSpace> {
    Vec2 { x: 0, y: 0, space: core::marker::PhantomData }
}

} // verus!

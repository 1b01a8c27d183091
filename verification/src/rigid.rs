//! The rigid square engine: square bodies with linear and angular state,
//! and pairwise collision detection by the separating-axis test.
//!
//! The candidate axes are the outward edge normals of both squares,
//! normalised to fixed-point unit length, so the reported penetration is
//! the world-space overlap depth along the least-overlap axis.

use vstd::prelude::*;

use crate::intmath::{clamp_i64, clamped, div_i128, div_towards_zero, sqrt_floor};
use crate::vec2::{vec2, Vec2, WorldSpace};
use crate::FP;

verus! {

/// Largest squared norm of a local vertex: squares up to 128 pixels across.
pub const VERT_R: i64 = 0x400000;

/// How far a body's centre may sit from the origin, fixed-point units.
pub const CENTRE_MAX: i64 = 0x80000000;

/// Stands in for an overlap along an axis that exists on no axis at all:
/// larger than any real overlap can get.
pub const NO_OVERLAP: i64 = 0x7FFFFFFFFFFFFFFF;

/// An axis-aligned square is stored as four rotated local vertices around a
/// translated centre: the vertices carry the rotation, the centre the
/// translation.
#[derive(Clone, Copy, Debug)]
pub struct Square {
    pub local_vertices: [Vec2<i64, WorldSpace>; 4],
    pub centre: Vec2<i64, WorldSpace>,
}

/// What a positive separating-axis test reports.
#[derive(Clone, Copy, Debug)]
pub struct Collision {
    /// The fixed-point unit axis of least overlap, oriented from the first
    /// body towards the second.
    pub normal: Vec2<i64, WorldSpace>,
    /// The world-space overlap depth along that axis, fixed-point units.
    pub penetration: i64,
}

impl Square {
    /// Vertices stay within the vertex radius and the centre within the
    /// world.
    pub open spec fn wf(self) -> bool {
        &&& forall|k: int|
            0 <= k < 4 ==> (#[trigger] self.local_vertices[k].x) * self.local_vertices[k].x
                + self.local_vertices[k].y * self.local_vertices[k].y <= VERT_R * VERT_R
        &&& self.centre.abs_le(CENTRE_MAX as int)
    }

    /// The world position of vertex `k`.
    pub open spec fn wv(self, k: int) -> (int, int) {
        (
            self.local_vertices[k].x + self.centre.x,
            self.local_vertices[k].y + self.centre.y,
        )
    }

    /// The outward (unnormalised) normal of edge `k`: the edge vector
    /// rotated a quarter turn. The centre cancels, so only local vertices
    /// enter.
    pub open spec fn spec_axis(self, k: int) -> (int, int) {
        (
            -(self.local_vertices[add4(k, 1)].y - self.local_vertices[k].y),
            self.local_vertices[add4(k, 1)].x - self.local_vertices[k].x,
        )
    }
}

/// Vertex index arithmetic modulo four.
pub open spec fn add4(k: int, d: int) -> int {
    (k + d) % 4
}

/// The dot product of a point and an axis.
pub open spec fn sdot(p: (int, int), u: (int, int)) -> int {
    p.0 * u.0 + p.1 * u.1
}

/// An axis brought to fixed-point unit length: each component times `FP`,
/// divided by the axis length, rounded towards zero. The zero axis has no
/// direction and stays zero.
pub open spec fn unit_axis(u: (int, int)) -> (int, int) {
    let len = sqrt_floor(u.0 * u.0 + u.1 * u.1);
    if len <= 0 {
        (0int, 0int)
    } else {
        (div_towards_zero(u.0 * FP, len), div_towards_zero(u.1 * FP, len))
    }
}

/// The projection of a point onto a fixed-point unit axis, in world
/// (fixed-point) units: the dot product scaled back down by `FP`.
pub open spec fn proj(p: (int, int), n: (int, int)) -> int {
    div_towards_zero(sdot(p, n), FP as int)
}

/// The unit axis of `u`, oriented so that `u` points with `ab` rather than
/// against it.
pub open spec fn oriented_unit(u: (int, int), ab: (int, int)) -> (int, int) {
    let n = unit_axis(u);
    if sdot(u, ab) < 0 {
        (-n.0, -n.1)
    } else {
        n
    }
}

pub open spec fn min2(a: int, b: int) -> int {
    if a <= b {
        a
    } else {
        b
    }
}

pub open spec fn max2(a: int, b: int) -> int {
    if a >= b {
        a
    } else {
        b
    }
}

/// The least projection of a square's vertices onto the unit axis `n`.
pub open spec fn pmin(sq: Square, n: (int, int)) -> int {
    min2(
        min2(proj(sq.wv(0), n), proj(sq.wv(1), n)),
        min2(proj(sq.wv(2), n), proj(sq.wv(3), n)),
    )
}

/// The greatest projection of a square's vertices onto the unit axis `n`.
pub open spec fn pmax(sq: Square, n: (int, int)) -> int {
    max2(
        max2(proj(sq.wv(0), n), proj(sq.wv(1), n)),
        max2(proj(sq.wv(2), n), proj(sq.wv(3), n)),
    )
}

/// The one-dimensional overlap of the two squares' projection intervals on
/// the unit axis `n`; positive when the intervals properly intersect.
pub open spec fn overlap_n(n: (int, int), a: Square, b: Square) -> int {
    min2(pmax(a, n), pmax(b, n)) - max2(pmin(a, n), pmin(b, n))
}

/// The overlap of the two squares along axis `u`, measured in world units
/// on its fixed-point unit version: the penetration depth for that axis.
pub open spec fn overlap_on(u: (int, int), a: Square, b: Square) -> int {
    overlap_n(unit_axis(u), a, b)
}

/// Candidate axis `k` of the pair: the four edge normals of `a`, then the
/// four of `b`.
pub open spec fn axis_of(a: Square, b: Square, k: int) -> (int, int) {
    if k < 4 {
        a.spec_axis(k)
    } else {
        b.spec_axis(k - 4)
    }
}

/// The overlap the test sees on axis `k`: a degenerate zero axis separates
/// nothing and is skipped by standing in as no overlap at all.
pub open spec fn axis_val(a: Square, b: Square, k: int) -> int {
    if axis_of(a, b, k) == ((0int, 0int)) {
        NO_OVERLAP as int
    } else {
        overlap_on(axis_of(a, b, k), a, b)
    }
}

/// The separating-axis outcome: the squares collide exactly when every
/// tested axis shows a positive overlap.
pub open spec fn sat_colliding(a: Square, b: Square) -> bool {
    axis_val(a, b, 0) > 0 && axis_val(a, b, 1) > 0 && axis_val(a, b, 2) > 0 && axis_val(a, b, 3)
        > 0 && axis_val(a, b, 4) > 0 && axis_val(a, b, 5) > 0 && axis_val(a, b, 6) > 0 && axis_val(
        a,
        b,
        7,
    ) > 0
}

/// The least overlap over all candidate axes: the penetration depth.
pub open spec fn min_overlap(a: Square, b: Square) -> int {
    min2(
        min2(
            min2(axis_val(a, b, 0), axis_val(a, b, 1)),
            min2(axis_val(a, b, 2), axis_val(a, b, 3)),
        ),
        min2(
            min2(axis_val(a, b, 4), axis_val(a, b, 5)),
            min2(axis_val(a, b, 6), axis_val(a, b, 7)),
        ),
    )
}

/// Swapping the argument order swaps the roles of each square's axes but
/// tests the same eight axes against the same two squares, so the verdict
/// and the penetration depth are the same either way.
pub proof fn lemma_sat_symmetry(a: Square, b: Square)
    ensures
        sat_colliding(a, b) == sat_colliding(b, a),
        min_overlap(a, b) == min_overlap(b, a),
{
    assert forall|k: int| 0 <= k < 4 implies #[trigger] axis_val(a, b, k) == axis_val(b, a, k + 4)
        && axis_val(a, b, k + 4) == axis_val(b, a, k) by {
        assert(axis_of(a, b, k) == axis_of(b, a, k + 4));
        assert(axis_of(a, b, k + 4) == axis_of(b, a, k));
    }
    assert(axis_val(a, b, 0) == axis_val(b, a, 4) && axis_val(a, b, 4) == axis_val(b, a, 0));
    assert(axis_val(a, b, 1) == axis_val(b, a, 5) && axis_val(a, b, 5) == axis_val(b, a, 1));
    assert(axis_val(a, b, 2) == axis_val(b, a, 6) && axis_val(a, b, 6) == axis_val(b, a, 2));
    assert(axis_val(a, b, 3) == axis_val(b, a, 7) && axis_val(a, b, 7) == axis_val(b, a, 3));
}

/// A well-formed square's vertex components are bounded by the vertex
/// radius.
pub proof fn lemma_vert_bounds(sq: Square)
    requires
        sq.wf(),
    ensures
        forall|k: int|
            0 <= k < 4 ==> -VERT_R <= (#[trigger] sq.local_vertices[k].x) <= VERT_R && -VERT_R
                <= sq.local_vertices[k].y <= VERT_R,
{
    assert forall|k: int|
        0 <= k < 4 implies -VERT_R <= (#[trigger] sq.local_vertices[k].x) <= VERT_R && -VERT_R
        <= sq.local_vertices[k].y <= VERT_R by {
        let x = sq.local_vertices[k].x as int;
        let y = sq.local_vertices[k].y as int;
        assert(x * x + y * y <= VERT_R * VERT_R);
        assert(x * x + y * y <= VERT_R * VERT_R ==> -VERT_R <= x <= VERT_R && -VERT_R <= y
            <= VERT_R) by (nonlinear_arith);
    }
}

/// Reversing an axis reverses each projection, so the interval overlap is
/// unchanged.
proof fn lemma_sdot_neg(p: (int, int), u: (int, int))
    ensures
        sdot(p, (-u.0, -u.1)) == -sdot(p, u),
{
    assert(p.0 * (-u.0) == -(p.0 * u.0) && p.1 * (-u.1) == -(p.1 * u.1)) by (nonlinear_arith);
}

proof fn lemma_proj_neg(p: (int, int), n: (int, int))
    ensures
        proj(p, (-n.0, -n.1)) == -proj(p, n),
{
    lemma_sdot_neg(p, n);
    crate::intmath::lemma_div_towards_zero_neg(sdot(p, n), FP as int);
}

#[verifier::rlimit(50)]
proof fn lemma_overlap_flip_n(n: (int, int), a: Square, b: Square)
    ensures
        overlap_n((-n.0, -n.1), a, b) == overlap_n(n, a, b),
{
    lemma_proj_neg(a.wv(0), n);
    lemma_proj_neg(a.wv(1), n);
    lemma_proj_neg(a.wv(2), n);
    lemma_proj_neg(a.wv(3), n);
    lemma_proj_neg(b.wv(0), n);
    lemma_proj_neg(b.wv(1), n);
    lemma_proj_neg(b.wv(2), n);
    lemma_proj_neg(b.wv(3), n);
}

/// A unit axis component never exceeds `FP` in magnitude.
proof fn lemma_unit_comp_bound(ui: int, len: int)
    requires
        1 <= len,
        -len <= ui <= len,
    ensures
        -FP <= div_towards_zero(ui * FP, len) <= FP,
{
    crate::intmath::lemma_div_towards_zero_mono(ui * FP, len, len);
    crate::intmath::lemma_div_towards_zero_bound(ui * FP, len);
    if ui >= 0 {
        assert(0 <= ui * FP <= len * FP) by (nonlinear_arith)
            requires
                0 <= ui <= len && FP == 65536i64,
        ;
        assert((ui * FP) / len <= (len * FP) / len && (len * FP) / len == FP)
            by (nonlinear_arith)
            requires
                0 <= ui * FP <= len * FP && len >= 1 && FP == 65536i64,
        ;
    } else {
        assert(0 <= (-ui) * FP <= len * FP && (-ui) * FP == -(ui * FP)) by (nonlinear_arith)
            requires
                0 <= -ui <= len && FP == 65536i64,
        ;
        assert((-(ui * FP)) / len <= (len * FP) / len && (len * FP) / len == FP)
            by (nonlinear_arith)
            requires
                0 <= -(ui * FP) <= len * FP && len >= 1 && FP == 65536i64,
        ;
    }
}

impl Square {
    /// The world-space vertices: each local vertex translated by the centre.
    pub fn world_verts(&self) -> (out: [Vec2<i64, WorldSpace>; 4])
        requires
            self.wf(),
        ensures
            forall|k: int|
                0 <= k < 4 ==> ((#[trigger] out[k].x) as int, out[k].y as int) == self.wv(k),
    {
        proof {
            lemma_vert_bounds(*self);
        }
        let c = self.centre;
        [
            vec2(self.local_vertices[0].x + c.x, self.local_vertices[0].y + c.y),
            vec2(self.local_vertices[1].x + c.x, self.local_vertices[1].y + c.y),
            vec2(self.local_vertices[2].x + c.x, self.local_vertices[2].y + c.y),
            vec2(self.local_vertices[3].x + c.x, self.local_vertices[3].y + c.y),
        ]
    }

    /// The unnormalised outward normal of edge `k`.
    fn axis_pair(&self, k: usize) -> (u: (i64, i64))
        requires
            self.wf(),
            k < 4,
        ensures
            (u.0 as int, u.1 as int) == self.spec_axis(k as int),
            -2 * VERT_R <= u.0 <= 2 * VERT_R,
            -2 * VERT_R <= u.1 <= 2 * VERT_R,
    {
        proof {
            lemma_vert_bounds(*self);
        }
        let j: usize = if k == 3 {
            0
        } else {
            k + 1
        };
        proof {
            assert(add4(k as int, 1) == j as int);
        }
        let vk = self.local_vertices[k];
        let vj = self.local_vertices[j];
        proof {
            assert(-VERT_R <= self.local_vertices[k as int].x <= VERT_R);
            assert(-VERT_R <= self.local_vertices[j as int].x <= VERT_R);
        }
        (-(vj.y - vk.y), vj.x - vk.x)
    }
}

/// The interval `[pmin, pmax]` that a square's vertices project to on a
/// fixed-point unit axis.
fn project_axis(sq: &Square, nx: i64, ny: i64) -> (mm: (i64, i64))
    requires
        sq.wf(),
        -2 * FP <= nx <= 2 * FP,
        -2 * FP <= ny <= 2 * FP,
    ensures
        mm.0 == pmin(*sq, (nx as int, ny as int)),
        mm.1 == pmax(*sq, (nx as int, ny as int)),
        -0x400000000000 <= mm.0 <= 0x400000000000,
        -0x400000000000 <= mm.1 <= 0x400000000000,
{
    let d0 = proj_pt(sq, 0, nx, ny);
    let d1 = proj_pt(sq, 1, nx, ny);
    let d2 = proj_pt(sq, 2, nx, ny);
    let d3 = proj_pt(sq, 3, nx, ny);
    let mut lo: i64 = d0;
    let mut hi: i64 = d0;
    if d1 < lo {
        lo = d1;
    }
    if d2 < lo {
        lo = d2;
    }
    if d3 < lo {
        lo = d3;
    }
    if d1 > hi {
        hi = d1;
    }
    if d2 > hi {
        hi = d2;
    }
    if d3 > hi {
        hi = d3;
    }
    (lo, hi)
}

/// The projection of world vertex `k` onto a fixed-point unit axis, in
/// world units.
fn proj_pt(sq: &Square, k: usize, nx: i64, ny: i64) -> (d: i64)
    requires
        sq.wf(),
        k < 4,
        -2 * FP <= nx <= 2 * FP,
        -2 * FP <= ny <= 2 * FP,
    ensures
        d == proj(sq.wv(k as int), (nx as int, ny as int)),
        -0x400000000000 <= d <= 0x400000000000,
{
    proof {
        lemma_vert_bounds(*sq);
    }
    let px = sq.local_vertices[k].x + sq.centre.x;
    let py = sq.local_vertices[k].y + sq.centre.y;
    proof {
        assert(-0x4000000000000int <= (px as int) * (nx as int) <= 0x4000000000000int
            && -0x4000000000000int <= (py as int) * (ny as int) <= 0x4000000000000int)
            by (nonlinear_arith)
            requires
                -0x80400000int <= px <= 0x80400000int && -0x80400000int <= py <= 0x80400000int
                    && -0x20000int <= nx <= 0x20000int && -0x20000int <= ny <= 0x20000int,
        ;
        crate::intmath::lemma_div_towards_zero_bound(
            (px as int) * (nx as int) + (py as int) * (ny as int),
            FP as int,
        );
    }
    crate::intmath::div_i64(px * nx + py * ny, FP)
}

/// The overlap the test records for one candidate axis: no overlap at all
/// for a degenerate axis, else the world-space interval overlap along the
/// axis's unit version, oriented from `a` towards `b`.
fn check_axis(a: &Square, b: &Square, ux: i64, uy: i64, abx: i64, aby: i64) -> (out: (
    i64,
    i64,
    i64,
))
    requires
        a.wf(),
        b.wf(),
        -2 * VERT_R <= ux <= 2 * VERT_R,
        -2 * VERT_R <= uy <= 2 * VERT_R,
        -2 * CENTRE_MAX <= abx <= 2 * CENTRE_MAX,
        -2 * CENTRE_MAX <= aby <= 2 * CENTRE_MAX,
    ensures
        out.0 == (if (ux as int, uy as int) == ((0int, 0int)) {
            NO_OVERLAP as int
        } else {
            overlap_on((ux as int, uy as int), *a, *b)
        }),
        (ux as int, uy as int) != ((0int, 0int)) ==> (out.1 as int, out.2 as int)
            == oriented_unit((ux as int, uy as int), (abx as int, aby as int)),
{
    if ux == 0 && uy == 0 {
        return (NO_OVERLAP, 0, 0);
    }
    proof {
        assert(0 < (ux as int) * (ux as int) + (uy as int) * (uy as int)
            <= 0x800000000000int && 0 <= (ux as int) * (ux as int) <= 0x400000000000int && 0 <= (
        uy as int) * (uy as int) <= 0x400000000000int) by (nonlinear_arith)
            requires
                -0x800000int <= ux <= 0x800000int && -0x800000int <= uy <= 0x800000int && !(ux
                    == 0 && uy == 0),
        ;
    }
    let d2: i128 = ux as i128 * ux as i128 + uy as i128 * uy as i128;
    let len: i64 = crate::intmath::isqrt_i128(d2);
    proof {
        crate::intmath::lemma_sqrt_floor(d2 as int);
        assert(len >= 1 && -len <= ux <= len && -len <= uy <= len) by (nonlinear_arith)
            requires
                (len as int) * (len as int) <= d2 && ((len as int) + 1) * ((len as int) + 1) > d2
                    && d2 == (ux as int) * (ux as int) + (uy as int) * (uy as int) && d2 > 0 && len
                    >= 0 && 0 <= (ux as int) * (ux as int) && 0 <= (uy as int) * (uy as int),
        ;
        lemma_unit_comp_bound(ux as int, len as int);
        lemma_unit_comp_bound(uy as int, len as int);
    }
    let nx: i64 = crate::intmath::div_i64(ux * FP, len);
    let ny: i64 = crate::intmath::div_i64(uy * FP, len);
    proof {
        assert(-0x800000000000000int <= (ux as int) * (abx as int) <= 0x800000000000000int
            && -0x800000000000000int <= (uy as int) * (aby as int) <= 0x800000000000000int)
            by (nonlinear_arith)
            requires
                -0x800000int <= ux <= 0x800000int && -0x800000int <= uy <= 0x800000int
                    && -0x100000000int <= abx <= 0x100000000int && -0x100000000int <= aby
                    <= 0x100000000int,
        ;
    }
    let dot_ab = ux * abx + uy * aby;
    let onx: i64 = if dot_ab < 0 {
        -nx
    } else {
        nx
    };
    let ony: i64 = if dot_ab < 0 {
        -ny
    } else {
        ny
    };
    let pa = project_axis(a, onx, ony);
    let pb = project_axis(b, onx, ony);
    let hi = if pa.1 <= pb.1 {
        pa.1
    } else {
        pb.1
    };
    let lo = if pa.0 >= pb.0 {
        pa.0
    } else {
        pb.0
    };
    proof {
        assert((nx as int, ny as int) == unit_axis((ux as int, uy as int)));
        if dot_ab < 0 {
            lemma_overlap_flip_n((nx as int, ny as int), *a, *b);
            assert((onx as int, ony as int) == (-(nx as int), -(ny as int)));
        }
    }
    (hi - lo, onx, ony)
}

impl Square {
    /// The separating-axis test against another square. `None` exactly when
    /// some candidate axis separates the two; otherwise the least overlap
    /// and its axis, oriented from `self` towards `other`.
    pub fn does_collide(&self, other: &Square) -> (out: Option<Collision>)
        requires
            self.wf(),
            other.wf(),
        ensures
            out.is_some() == sat_colliding(*self, *other),
            out.is_some() ==> out.unwrap().penetration == min_overlap(*self, *other)
                && out.unwrap().penetration > 0,
            out.is_some() && min_overlap(*self, *other) < NO_OVERLAP ==> exists|k: int|
                0 <= k < 8 && #[trigger] axis_val(*self, *other, k) == min_overlap(
                    *self,
                    *other,
                ) && axis_of(*self, *other, k) != ((0int, 0int)) && (
                out.unwrap().normal.x as int,
                out.unwrap().normal.y as int,
            ) == oriented_unit(
                axis_of(*self, *other, k),
                (other.centre.x - self.centre.x, other.centre.y - self.centre.y),
            ),
            out.is_some() && min_overlap(*self, *other) == NO_OVERLAP ==> out.unwrap().normal.x
                == 0 && out.unwrap().normal.y == 0,
    {
        let abx = other.centre.x - self.centre.x;
        let aby = other.centre.y - self.centre.y;
        let mut best: i64 = NO_OVERLAP;
        let mut bnx: i64 = 0;
        let mut bny: i64 = 0;
        let ghost mut bk: int = -1;

        let u0 = self.axis_pair(0);
        let r0 = check_axis(self, other, u0.0, u0.1, abx, aby);
        if r0.0 <= 0 {
            return None;
        }
        if r0.0 < best {
            best = r0.0;
            bnx = r0.1;
            bny = r0.2;
            proof {
                bk = 0;
            }
        }
        let u1 = self.axis_pair(1);
        let r1 = check_axis(self, other, u1.0, u1.1, abx, aby);
        if r1.0 <= 0 {
            return None;
        }
        if r1.0 < best {
            best = r1.0;
            bnx = r1.1;
            bny = r1.2;
            proof {
                bk = 1;
            }
        }
        let u2 = self.axis_pair(2);
        let r2 = check_axis(self, other, u2.0, u2.1, abx, aby);
        if r2.0 <= 0 {
            return None;
        }
        if r2.0 < best {
            best = r2.0;
            bnx = r2.1;
            bny = r2.2;
            proof {
                bk = 2;
            }
        }
        let u3 = self.axis_pair(3);
        let r3 = check_axis(self, other, u3.0, u3.1, abx, aby);
        if r3.0 <= 0 {
            return None;
        }
        if r3.0 < best {
            best = r3.0;
            bnx = r3.1;
            bny = r3.2;
            proof {
                bk = 3;
            }
        }
        let u4 = other.axis_pair(0);
        let r4 = check_axis(self, other, u4.0, u4.1, abx, aby);
        if r4.0 <= 0 {
            return None;
        }
        if r4.0 < best {
            best = r4.0;
            bnx = r4.1;
            bny = r4.2;
            proof {
                bk = 4;
            }
        }
        let u5 = other.axis_pair(1);
        let r5 = check_axis(self, other, u5.0, u5.1, abx, aby);
        if r5.0 <= 0 {
            return None;
        }
        if r5.0 < best {
            best = r5.0;
            bnx = r5.1;
            bny = r5.2;
            proof {
                bk = 5;
            }
        }
        let u6 = other.axis_pair(2);
        let r6 = check_axis(self, other, u6.0, u6.1, abx, aby);
        if r6.0 <= 0 {
            return None;
        }
        if r6.0 < best {
            best = r6.0;
            bnx = r6.1;
            bny = r6.2;
            proof {
                bk = 6;
            }
        }
        let u7 = other.axis_pair(3);
        let r7 = check_axis(self, other, u7.0, u7.1, abx, aby);
        if r7.0 <= 0 {
            return None;
        }
        if r7.0 < best {
            best = r7.0;
            bnx = r7.1;
            bny = r7.2;
            proof {
                bk = 7;
            }
        }
        proof {
            if best < NO_OVERLAP {
                assert(0 <= bk < 8 && best == axis_val(*self, *other, bk) && (
                bnx as int,
                bny as int,
                ) == oriented_unit(
                    axis_of(*self, *other, bk),
                    (other.centre.x - self.centre.x, other.centre.y - self.centre.y),
                ));
                assert(axis_of(*self, *other, bk) != ((0int, 0int)));
            }
        }
        Some(Collision { normal: vec2(bnx, bny), penetration: best })
    }
}

/// The four vertices of an unrotated square of half-extent `h`, in the
/// order `new` creates them.
pub open spec fn axis_aligned(sq: Square, h: int) -> bool {
    &&& sq.local_vertices[0].x == -h && sq.local_vertices[0].y == -h
    &&& sq.local_vertices[1].x == h && sq.local_vertices[1].y == -h
    &&& sq.local_vertices[2].x == h && sq.local_vertices[2].y == h
    &&& sq.local_vertices[3].x == -h && sq.local_vertices[3].y == h
}

/// The exact square `new` builds: unrotated, with half the side on each
/// side of the centre.
pub open spec fn spec_square(centre: Vec2<i64, WorldSpace>, size: i64) -> Square {
    let h = (size as int / 2) as i64;
    Square {
        local_vertices: [
            Vec2 { x: (-h) as i64, y: (-h) as i64, space: core::marker::PhantomData },
            Vec2 { x: h, y: (-h) as i64, space: core::marker::PhantomData },
            Vec2 { x: h, y: h, space: core::marker::PhantomData },
            Vec2 { x: (-h) as i64, y: h, space: core::marker::PhantomData },
        ],
        centre,
    }
}

impl Square {
    /// An unrotated square of the given side length around `centre`.
    pub fn new(centre: Vec2<i64, WorldSpace>, size: i64) -> (out: Self)
        requires
            2 <= size <= VERT_R,
            centre.abs_le(CENTRE_MAX as int),
        ensures
            out.wf(),
            axis_aligned(out, size as int / 2),
            out.centre == centre,
            out == spec_square(centre, size),
    {
        let half: i64 = size / 2;
        let out = Square {
            local_vertices: [
                vec2(-half, -half),
                vec2(half, -half),
                vec2(half, half),
                vec2(-half, half),
            ],
            centre,
        };
        proof {
            assert(2 * ((half as int) * (half as int)) <= VERT_R * VERT_R) by (nonlinear_arith)
                requires
                    0 <= half <= VERT_R / 2,
            ;
            assert forall|k: int|
                0 <= k < 4 implies (#[trigger] out.local_vertices[k].x) * out.local_vertices[k].x
                + out.local_vertices[k].y * out.local_vertices[k].y <= VERT_R * VERT_R by {
                assert(out.local_vertices[k].x == half || out.local_vertices[k].x == -half);
                assert((half as int) * (half as int) == (-(half as int)) * (-(half as int)))
                    by (nonlinear_arith);
            }
        }
        out
    }

    /// Moves the centre by `offset`, held inside the world's bounds.
    pub fn translate(&mut self, offset: Vec2<i64, WorldSpace>)
        requires
            old(self).wf(),
            offset.abs_le(CENTRE_MAX as int),
        ensures
            final(self).wf(),
            final(self).local_vertices == old(self).local_vertices,
            final(self).centre.x == clamped(
                old(self).centre.x + offset.x,
                -CENTRE_MAX as int,
                CENTRE_MAX as int,
            ),
            final(self).centre.y == clamped(
                old(self).centre.y + offset.y,
                -CENTRE_MAX as int,
                CENTRE_MAX as int,
            ),
    {
        let cx = clamp_i64(self.centre.x + offset.x, -CENTRE_MAX, CENTRE_MAX);
        let cy = clamp_i64(self.centre.y + offset.y, -CENTRE_MAX, CENTRE_MAX);
        self.centre = vec2(cx, cy);
    }

    /// Rotates the stored local vertices by the angle whose sine and cosine
    /// the caller supplies in fixed point. Trigonometry is irrational, so
    /// the pair comes from outside; any pair with `s*s + c*c <= FP*FP` keeps
    /// the vertices inside the vertex radius.
    pub fn rotate(&mut self, sin_fp: i64, cos_fp: i64)
        requires
            old(self).wf(),
            sin_fp * sin_fp + cos_fp * cos_fp <= FP * FP,
        ensures
            final(self).wf(),
            final(self).centre == old(self).centre,
            forall|k: int|
                0 <= k < 4 ==> (#[trigger] final(self).local_vertices[k].x) == div_towards_zero(
                    cos_fp * old(self).local_vertices[k].x - sin_fp * old(
                        self,
                    ).local_vertices[k].y,
                    FP as int,
                ) && final(self).local_vertices[k].y == div_towards_zero(
                    sin_fp * old(self).local_vertices[k].x + cos_fp * old(
                        self,
                    ).local_vertices[k].y,
                    FP as int,
                ),
    {
        let v0 = rotate_vert(self.local_vertices[0], sin_fp, cos_fp);
        let v1 = rotate_vert(self.local_vertices[1], sin_fp, cos_fp);
        let v2 = rotate_vert(self.local_vertices[2], sin_fp, cos_fp);
        let v3 = rotate_vert(self.local_vertices[3], sin_fp, cos_fp);
        self.local_vertices = [v0, v1, v2, v3];
    }

    /// Translation and rotation in one call.
    pub fn transform(&mut self, translation: Vec2<i64, WorldSpace>, sin_fp: i64, cos_fp: i64)
        requires
            old(self).wf(),
            translation.abs_le(CENTRE_MAX as int),
            sin_fp * sin_fp + cos_fp * cos_fp <= FP * FP,
        ensures
            final(self).wf(),
            final(self).centre.x == clamped(
                old(self).centre.x + translation.x,
                -CENTRE_MAX as int,
                CENTRE_MAX as int,
            ),
            final(self).centre.y == clamped(
                old(self).centre.y + translation.y,
                -CENTRE_MAX as int,
                CENTRE_MAX as int,
            ),
    {
        self.translate(translation);
        self.rotate(sin_fp, cos_fp);
    }
}

/// One vertex rotated by a supplied fixed-point sine/cosine pair. The pair's
/// squared norm may not exceed `FP * FP`, which keeps the rotated vertex
/// inside the vertex radius.
fn rotate_vert(v: Vec2<i64, WorldSpace>, sin_fp: i64, cos_fp: i64) -> (out: Vec2<i64, WorldSpace>)
    requires
        v.x * v.x + v.y * v.y <= VERT_R * VERT_R,
        sin_fp * sin_fp + cos_fp * cos_fp <= FP * FP,
    ensures
        out.x == div_towards_zero(cos_fp * v.x - sin_fp * v.y, FP as int),
        out.y == div_towards_zero(sin_fp * v.x + cos_fp * v.y, FP as int),
        out.x * out.x + out.y * out.y <= VERT_R * VERT_R,
{
    let s = sin_fp;
    let c = cos_fp;
    proof {
        assert(-VERT_R <= v.x <= VERT_R && -VERT_R <= v.y <= VERT_R) by (nonlinear_arith)
            requires
                v.x * v.x + v.y * v.y <= VERT_R * VERT_R && VERT_R == 0x400000i64,
        ;
        assert(-FP <= s <= FP && -FP <= c <= FP) by (nonlinear_arith)
            requires
                s * s + c * c <= FP * FP && FP == 65536i64,
        ;
        assert(-0x4000000000int <= (c as int) * (v.x as int) <= 0x4000000000int
            && -0x4000000000int <= (s as int) * (v.y as int) <= 0x4000000000int
            && -0x4000000000int <= (s as int) * (v.x as int) <= 0x4000000000int
            && -0x4000000000int <= (c as int) * (v.y as int) <= 0x4000000000int)
            by (nonlinear_arith)
            requires
                -0x400000i64 <= v.x <= 0x400000i64 && -0x400000i64 <= v.y <= 0x400000i64
                    && -65536i64 <= s <= 65536i64 && -65536i64 <= c <= 65536i64,
        ;
    }
    let ax: i64 = c * v.x - s * v.y;
    let ay: i64 = s * v.x + c * v.y;
    let nx: i64 = crate::intmath::div_i64(ax, FP);
    let ny: i64 = crate::intmath::div_i64(ay, FP);
    proof {
        lemma_rotation_norm(v.x as int, v.y as int, s as int, c as int, ax as int, ay as int,
            nx as int, ny as int);
    }
    vec2(nx, ny)
}

/// A rotation by a unit-or-shorter sine/cosine pair, followed by the
/// truncating fixed-point division, cannot grow a vertex's norm.
proof fn lemma_rotation_norm(x: int, y: int, s: int, c: int, ax: int, ay: int, nx: int, ny: int)
    requires
        x * x + y * y <= VERT_R * VERT_R,
        s * s + c * c <= FP * FP,
        ax == c * x - s * y,
        ay == s * x + c * y,
        nx == div_towards_zero(ax, FP as int),
        ny == div_towards_zero(ay, FP as int),
    ensures
        nx * nx + ny * ny <= VERT_R * VERT_R,
{
    crate::intmath::lemma_div_towards_zero_bound(ax, FP as int);
    crate::intmath::lemma_div_towards_zero_bound(ay, FP as int);
    assert(s * s >= 0 && c * c >= 0 && x * x >= 0 && y * y >= 0) by (nonlinear_arith);
    // The truncating division never grows a magnitude past the exact
    // quotient, so its square is bounded by the exact square over FP^2.
    assert(nx * nx * (FP * FP) <= ax * ax) by (nonlinear_arith)
        requires
            nx == div_towards_zero(ax, FP as int) && FP == 65536i64 && (ax >= 0
                ==> 0 <= nx <= ax / (FP as int)) && (ax < 0 ==> 0 <= -nx <= (-ax) / (FP as int)),
    ;
    assert(ny * ny * (FP * FP) <= ay * ay) by (nonlinear_arith)
        requires
            ny == div_towards_zero(ay, FP as int) && FP == 65536i64 && (ay >= 0
                ==> 0 <= ny <= ay / (FP as int)) && (ay < 0 ==> 0 <= -ny <= (-ay) / (FP as int)),
    ;
    let p = c * x;
    let q = s * y;
    let r = s * x;
    let t = c * y;
    assert(ax * ax == p * p - 2 * (p * q) + q * q) by (nonlinear_arith)
        requires
            ax == p - q,
    ;
    assert(ay * ay == r * r + 2 * (r * t) + t * t) by (nonlinear_arith)
        requires
            ay == r + t,
    ;
    assert(p * q == r * t) by (nonlinear_arith)
        requires
            p == c * x && q == s * y && r == s * x && t == c * y,
    ;
    assert(p * p == (c * c) * (x * x)) by (nonlinear_arith)
        requires
            p == c * x,
    ;
    assert(q * q == (s * s) * (y * y)) by (nonlinear_arith)
        requires
            q == s * y,
    ;
    assert(r * r == (s * s) * (x * x)) by (nonlinear_arith)
        requires
            r == s * x,
    ;
    assert(t * t == (c * c) * (y * y)) by (nonlinear_arith)
        requires
            t == c * y,
    ;
    assert((c * c) * (x * x) + (s * s) * (y * y) + (s * s) * (x * x) + (c * c) * (y * y) == (s * s
        + c * c) * (x * x + y * y)) by (nonlinear_arith);
    assert(ax * ax + ay * ay == (s * s + c * c) * (x * x + y * y));
    assert((s * s + c * c) * (x * x + y * y) <= (FP * FP) * (VERT_R * VERT_R))
        by (nonlinear_arith)
        requires
            0 <= s * s + c * c <= FP * FP && 0 <= x * x + y * y <= VERT_R * VERT_R,
    ;
    assert(nx * nx + ny * ny <= VERT_R * VERT_R) by (nonlinear_arith)
        requires
            nx * nx * (FP * FP) + ny * ny * (FP * FP) <= (FP * FP) * (VERT_R * VERT_R) && FP * FP
                > 0,
    ;
}

/// Multiplying by a positive factor keeps an order.
proof fn lemma_mul_le(m: int, a: int, b: int)
    requires
        m > 0,
        a <= b,
    ensures
        m * a <= m * b,
{
    assert(m * a <= m * b) by (nonlinear_arith)
        requires
            m > 0 && a <= b,
    ;
}

/// On the horizontal unit axis `(FP, 0)` an unrotated square of
/// half-extent `h` projects exactly to `[cx - h, cx + h]`.
proof fn lemma_proj_x_axis(sq: Square, h: int)
    requires
        axis_aligned(sq, h),
        h >= 0,
    ensures
        pmin(sq, (FP as int, 0)) == sq.centre.x - h,
        pmax(sq, (FP as int, 0)) == sq.centre.x + h,
{
    let cx = sq.centre.x as int;
    let cy = sq.centre.y as int;
    assert((cy - h) * 0 == 0 && (cy + h) * 0 == 0) by (nonlinear_arith);
    assert(sdot(sq.wv(0), (FP as int, 0)) == (cx - h) * FP + (cy - h) * 0);
    assert(sdot(sq.wv(1), (FP as int, 0)) == (cx + h) * FP + (cy - h) * 0);
    assert(sdot(sq.wv(2), (FP as int, 0)) == (cx + h) * FP + (cy + h) * 0);
    assert(sdot(sq.wv(3), (FP as int, 0)) == (cx - h) * FP + (cy + h) * 0);
    crate::intmath::lemma_div_exact(cx - h, FP as int);
    crate::intmath::lemma_div_exact(cx + h, FP as int);
    assert(proj(sq.wv(0), (FP as int, 0)) == cx - h);
    assert(proj(sq.wv(1), (FP as int, 0)) == cx + h);
    assert(proj(sq.wv(2), (FP as int, 0)) == cx + h);
    assert(proj(sq.wv(3), (FP as int, 0)) == cx - h);
}

/// On the vertical unit axis `(0, FP)` the square projects to
/// `[cy - h, cy + h]`.
proof fn lemma_proj_y_axis(sq: Square, h: int)
    requires
        axis_aligned(sq, h),
        h >= 0,
    ensures
        pmin(sq, (0, FP as int)) == sq.centre.y - h,
        pmax(sq, (0, FP as int)) == sq.centre.y + h,
{
    let cx = sq.centre.x as int;
    let cy = sq.centre.y as int;
    assert((cx - h) * 0 == 0 && (cx + h) * 0 == 0) by (nonlinear_arith);
    assert(sdot(sq.wv(0), (0, FP as int)) == (cx - h) * 0 + (cy - h) * FP);
    assert(sdot(sq.wv(1), (0, FP as int)) == (cx + h) * 0 + (cy - h) * FP);
    assert(sdot(sq.wv(2), (0, FP as int)) == (cx + h) * 0 + (cy + h) * FP);
    assert(sdot(sq.wv(3), (0, FP as int)) == (cx - h) * 0 + (cy + h) * FP);
    crate::intmath::lemma_div_exact(cy - h, FP as int);
    crate::intmath::lemma_div_exact(cy + h, FP as int);
    assert(proj(sq.wv(0), (0, FP as int)) == cy - h);
    assert(proj(sq.wv(1), (0, FP as int)) == cy - h);
    assert(proj(sq.wv(2), (0, FP as int)) == cy + h);
    assert(proj(sq.wv(3), (0, FP as int)) == cy + h);
}

/// The unit version of the scaled coordinate axis `(m, 0)` or `(0, m)` is
/// the fixed-point coordinate axis itself.
proof fn lemma_unit_of_scaled_x(m: int)
    requires
        m >= 1,
    ensures
        unit_axis((m, 0)) == (FP as int, 0int),
{
    assert(m * m > 0 && 0 * 0 == 0) by (nonlinear_arith)
        requires
            m >= 1,
    ;
    crate::intmath::lemma_sqrt_perfect(m);
    assert(sqrt_floor(m * m + 0 * 0) == m);
    crate::intmath::lemma_div_exact(FP as int, m);
    assert(m * FP == FP * m && 0 * FP == 0) by (nonlinear_arith);
    assert(div_towards_zero(0, m) == 0);
}

proof fn lemma_unit_of_scaled_y(m: int)
    requires
        m >= 1,
    ensures
        unit_axis((0, m)) == (0int, FP as int),
{
    assert(m * m > 0 && 0 * 0 == 0) by (nonlinear_arith)
        requires
            m >= 1,
    ;
    crate::intmath::lemma_sqrt_perfect(m);
    assert(sqrt_floor(0 * 0 + m * m) == m);
    crate::intmath::lemma_div_exact(FP as int, m);
    assert(m * FP == FP * m && 0 * FP == 0) by (nonlinear_arith);
    assert(div_towards_zero(0, m) == 0);
}

/// Two unrotated squares whose centres sit farther apart along an axis than
/// their half-extents (and so than their half-diagonals) can reach never
/// collide: the first square's own edge normal on that axis separates them.
pub proof fn lemma_sat_separated(a: Square, b: Square, ha: int, hb: int)
    requires
        axis_aligned(a, ha),
        axis_aligned(b, hb),
        1 <= ha,
        1 <= hb,
        (a.centre.x - b.centre.x > ha + hb) || (b.centre.x - a.centre.x > ha + hb) || (a.centre.y
            - b.centre.y > ha + hb) || (b.centre.y - a.centre.y > ha + hb),
    ensures
        !sat_colliding(a, b),
{
    let cx = a.centre.x as int;
    let cy = a.centre.y as int;
    let bx = b.centre.x as int;
    let by = b.centre.y as int;
    if cx - bx > ha + hb || bx - cx > ha + hb {
        // Axis 3 of `a` is the horizontal normal (2*ha, 0).
        let u = a.spec_axis(3);
        assert(add4(3, 1) == 0);
        assert(u == (2 * ha, 0int));
        lemma_unit_of_scaled_x(2 * ha);
        lemma_proj_x_axis(a, ha);
        lemma_proj_x_axis(b, hb);
        assert(overlap_on(u, a, b) <= 0);
        assert(axis_val(a, b, 3) <= 0);
    } else {
        // Axis 0 of `a` is the vertical normal (0, 2*ha).
        let u = a.spec_axis(0);
        assert(add4(0, 1) == 1);
        assert(u == (0int, 2 * ha));
        lemma_unit_of_scaled_y(2 * ha);
        lemma_proj_y_axis(a, ha);
        lemma_proj_y_axis(b, hb);
        assert(overlap_on(u, a, b) <= 0);
        assert(axis_val(a, b, 0) <= 0);
    }
}

/// The per-frame velocity cap of a rigid body, fixed-point units.
pub const RB_VEL_MAX: i64 = 0x100000000;

/// The force accumulator's cap.
pub const RB_FORCE_MAX: i64 = 0x10000000000;

/// The angular velocity cap, fixed-point radians per frame.
pub const RB_ANG_MAX: i64 = 0x100000000;

/// The accumulated rotation cap, fixed-point radians.
pub const RB_ROT_MAX: i64 = 0x1000000000000;

/// The torque accumulator's cap.
pub const RB_TORQUE_MAX: i64 = 0x100000000000000;

/// Heaviest body and largest moment of inertia accepted.
pub const RB_MASS_MAX: i64 = 0x10000000000;

/// Longest frame time accepted, fixed-point seconds.
pub const RB_DT_MAX: i64 = 0x100000;

/// Largest impulse a collision response may apply.
pub const RB_IMPULSE_MAX: i64 = 0x400000;

/// One integration step of a velocity-like quantity: the accumulated
/// force divided by the mass, times the time step, added and capped.
pub open spec fn integ_step(v: int, f: int, dt: int, m: int, lim: int) -> int {
    clamped(v + div_towards_zero(f * dt, m * FP), -lim, lim)
}

/// A square body: its shape plus linear and angular state. Mass and inertia
/// are fixed at creation; forces and torques accumulate until the next
/// integration step consumes them.
#[derive(Clone, Copy, Debug)]
pub struct RigidBody {
    pub object: Square,
    pub force: Vec2<i64, WorldSpace>,
    pub velocity: Vec2<i64, WorldSpace>,
    pub angular_velocity: i64,
    pub rotation: i64,
    pub mass: i64,
    pub inertia: i64,
    pub torque: i64,
}

impl RigidBody {
    pub open spec fn wf(self) -> bool {
        &&& self.object.wf()
        &&& 1 <= self.mass <= RB_MASS_MAX
        &&& 1 <= self.inertia <= RB_MASS_MAX
        &&& self.velocity.abs_le(RB_VEL_MAX as int)
        &&& self.force.abs_le(RB_FORCE_MAX as int)
        &&& -RB_ANG_MAX <= self.angular_velocity <= RB_ANG_MAX
        &&& -RB_ROT_MAX <= self.rotation <= RB_ROT_MAX
        &&& -RB_TORQUE_MAX <= self.torque <= RB_TORQUE_MAX
    }

    /// A body at rest in rotation, with the given shape and initial linear
    /// state. Mass and inertia must be positive.
    pub fn new(
        object: Square,
        mass: i64,
        inertia: i64,
        velocity: Vec2<i64, WorldSpace>,
        force: Vec2<i64, WorldSpace>,
    ) -> (out: Self)
        requires
            object.wf(),
            1 <= mass <= RB_MASS_MAX,
            1 <= inertia <= RB_MASS_MAX,
            velocity.abs_le(RB_VEL_MAX as int),
            force.abs_le(RB_FORCE_MAX as int),
        ensures
            out.wf(),
            out.object == object,
            out.mass == mass,
            out.inertia == inertia,
            out.velocity == velocity,
            out.force == force,
            out.rotation == 0 && out.angular_velocity == 0 && out.torque == 0,
    {
        RigidBody {
            object,
            velocity,
            rotation: 0,
            mass,
            inertia,
            angular_velocity: 0,
            torque: 0,
            force,
        }
    }

    /// A rectangle's body: the moment of inertia of a uniform plate,
    /// `mass * w * h / 12`.
    pub fn new_rect(
        shape: Square,
        mass: i64,
        size: Vec2<i64, WorldSpace>,
        velocity: Vec2<i64, WorldSpace>,
        force: Vec2<i64, WorldSpace>,
    ) -> (out: Self)
        requires
            shape.wf(),
            1 <= mass <= 0x2000,
            1 <= size.x <= 0x2000,
            1 <= size.y <= 0x2000,
            mass * size.x * size.y >= 12,
            velocity.abs_le(RB_VEL_MAX as int),
            force.abs_le(RB_FORCE_MAX as int),
        ensures
            out.wf(),
            out.object == shape,
            out.mass == mass,
            out.inertia == mass * size.x * size.y / 12,
            out.velocity == velocity,
            out.force == force,
    {
        proof {
            assert(1 <= (mass as int) * (size.x as int) <= 0x4000000int && 12 <= ((mass as int) * (
            size.x as int)) * (size.y as int) <= 0x8000000000int) by (nonlinear_arith)
                requires
                    1 <= mass <= 0x2000 && 1 <= size.x <= 0x2000 && 1 <= size.y <= 0x2000 && mass
                        * size.x * size.y >= 12,
            ;
            assert(1 <= ((mass as int) * (size.x as int)) * (size.y as int) / 12
                <= 0x8000000000int / 12) by (nonlinear_arith)
                requires
                    12 <= ((mass as int) * (size.x as int)) * (size.y as int) <= 0x8000000000int,
            ;
        }
        let prod: i128 = mass as i128 * size.x as i128 * size.y as i128;
        let inertia: i64 = div_i128(prod, 12) as i64;
        RigidBody::new(shape, mass, inertia, velocity, force)
    }

    /// Accumulates an impulse at a point: the force register takes the
    /// impulse and the torque register the lever-arm cross product, both
    /// capped; the next integration step consumes and zeroes them.
    pub fn apply_force(&mut self, impulse: Vec2<i64, WorldSpace>, point: Vec2<i64, WorldSpace>)
        requires
            old(self).wf(),
            impulse.abs_le(RB_IMPULSE_MAX as int),
            point.abs_le(CENTRE_MAX as int),
        ensures
            final(self).wf(),
            final(self).force.x == clamped(
                old(self).force.x + impulse.x,
                -RB_FORCE_MAX as int,
                RB_FORCE_MAX as int,
            ),
            final(self).force.y == clamped(
                old(self).force.y + impulse.y,
                -RB_FORCE_MAX as int,
                RB_FORCE_MAX as int,
            ),
            final(self).torque == clamped(
                old(self).torque + ((point.x - old(self).object.centre.x) * impulse.y - (point.y
                    - old(self).object.centre.y) * impulse.x),
                -RB_TORQUE_MAX as int,
                RB_TORQUE_MAX as int,
            ),
            final(self).object == old(self).object,
            final(self).velocity == old(self).velocity,
            final(self).mass == old(self).mass,
            final(self).inertia == old(self).inertia,
            final(self).angular_velocity == old(self).angular_velocity,
            final(self).rotation == old(self).rotation,
    {
        let rx = point.x - self.object.centre.x;
        let ry = point.y - self.object.centre.y;
        proof {
            assert(-0x80000000000000int <= (rx as int) * (impulse.y as int) - (ry as int) * (
            impulse.x as int) <= 0x80000000000000int && -0x40000000000000int <= (rx as int) * (
            impulse.y as int) <= 0x40000000000000int && -0x40000000000000int <= (ry as int) * (
            impulse.x as int) <= 0x40000000000000int) by (nonlinear_arith)
                requires
                    -0x100000000int <= rx <= 0x100000000int && -0x100000000int <= ry
                        <= 0x100000000int && -0x400000int <= impulse.x <= 0x400000int
                        && -0x400000int <= impulse.y <= 0x400000int,
            ;
        }
        let fx = clamp_i64(self.force.x + impulse.x, -RB_FORCE_MAX, RB_FORCE_MAX);
        let fy = clamp_i64(self.force.y + impulse.y, -RB_FORCE_MAX, RB_FORCE_MAX);
        self.force = vec2(fx, fy);
        let cross: i64 = rx * impulse.y - ry * impulse.x;
        self.torque = clamp_i64(
            crate::intmath::clamp_i128_to(
                self.torque as i128 + cross as i128,
                RB_TORQUE_MAX,
            ),
            -RB_TORQUE_MAX,
            RB_TORQUE_MAX,
        );
    }

    /// One integration step: the accumulated force and torque move the
    /// linear and angular velocities, those move the centre and the
    /// rotation, the local vertices turn by the supplied sine/cosine of
    /// this step's rotation angle, and both accumulators reset.
    pub fn update(&mut self, dt: i64, sin_fp: i64, cos_fp: i64)
        requires
            old(self).wf(),
            1 <= dt <= RB_DT_MAX,
            sin_fp * sin_fp + cos_fp * cos_fp <= FP * FP,
        ensures
            final(self).wf(),
            final(self).velocity.x == integ_step(
                old(self).velocity.x as int,
                old(self).force.x as int,
                dt as int,
                old(self).mass as int,
                RB_VEL_MAX as int,
            ),
            final(self).velocity.y == integ_step(
                old(self).velocity.y as int,
                old(self).force.y as int,
                dt as int,
                old(self).mass as int,
                RB_VEL_MAX as int,
            ),
            final(self).angular_velocity == integ_step(
                old(self).angular_velocity as int,
                old(self).torque as int,
                dt as int,
                old(self).inertia as int,
                RB_ANG_MAX as int,
            ),
            final(self).rotation == clamped(
                old(self).rotation + clamped(
                    div_towards_zero(final(self).angular_velocity * dt, FP as int),
                    -CENTRE_MAX as int,
                    CENTRE_MAX as int,
                ),
                -RB_ROT_MAX as int,
                RB_ROT_MAX as int,
            ),
            final(self).object.centre.x == clamped(
                old(self).object.centre.x + clamped(
                    div_towards_zero(final(self).velocity.x * dt, FP as int),
                    -CENTRE_MAX as int,
                    CENTRE_MAX as int,
                ),
                -CENTRE_MAX as int,
                CENTRE_MAX as int,
            ),
            final(self).object.centre.y == clamped(
                old(self).object.centre.y + clamped(
                    div_towards_zero(final(self).velocity.y * dt, FP as int),
                    -CENTRE_MAX as int,
                    CENTRE_MAX as int,
                ),
                -CENTRE_MAX as int,
                CENTRE_MAX as int,
            ),
            forall|k: int|
                0 <= k < 4 ==> (#[trigger] final(self).object.local_vertices[k].x)
                    == div_towards_zero(
                    cos_fp * old(self).object.local_vertices[k].x - sin_fp * old(
                        self,
                    ).object.local_vertices[k].y,
                    FP as int,
                ) && final(self).object.local_vertices[k].y == div_towards_zero(
                    sin_fp * old(self).object.local_vertices[k].x + cos_fp * old(
                        self,
                    ).object.local_vertices[k].y,
                    FP as int,
                ),
            final(self).force.x == 0 && final(self).force.y == 0,
            final(self).torque == 0,
            final(self).mass == old(self).mass,
            final(self).inertia == old(self).inertia,
    {
        let vx = Self::integrate(self.velocity.x, self.force.x, dt, self.mass, RB_VEL_MAX);
        let vy = Self::integrate(self.velocity.y, self.force.y, dt, self.mass, RB_VEL_MAX);
        self.velocity = vec2(vx, vy);

        let ox = Self::scale_dt(vx, dt);
        let oy = Self::scale_dt(vy, dt);
        self.object.translate(vec2(ox, oy));

        let av = Self::integrate(self.angular_velocity, self.torque, dt, self.inertia, RB_ANG_MAX);
        self.angular_velocity = av;
        let dr = Self::scale_dt(av, dt);
        proof {
            assert(-0x1000000000000int - 0x80000000int <= old(self).rotation + dr
                <= 0x1000000000000int + 0x80000000int);
        }
        self.rotation = clamp_i64(self.rotation + dr, -RB_ROT_MAX, RB_ROT_MAX);
        self.object.rotate(sin_fp, cos_fp);

        self.force = vec2(0, 0);
        self.torque = 0;
    }

    /// `v + f * dt / (m * FP)`, capped at the given limit.
    fn integrate(v: i64, f: i64, dt: i64, m: i64, lim: i64) -> (out: i64)
        requires
            -RB_VEL_MAX <= v <= RB_VEL_MAX,
            -RB_TORQUE_MAX <= f <= RB_TORQUE_MAX,
            1 <= dt <= RB_DT_MAX,
            1 <= m <= RB_MASS_MAX,
            0 < lim <= RB_VEL_MAX,
        ensures
            out == integ_step(v as int, f as int, dt as int, m as int, lim as int),
    {
        proof {
            assert(-0x10000000000000000000int <= (f as int) * (dt as int)
                <= 0x10000000000000000000int) by (nonlinear_arith)
                requires
                    -0x100000000000000int <= f <= 0x100000000000000int && 1 <= dt <= 0x100000,
            ;
            assert(0 < (m as int) * (FP as int) <= 0x100000000000000int) by (nonlinear_arith)
                requires
                    1 <= m <= 0x10000000000 && FP == 65536i64,
            ;
            crate::intmath::lemma_div_towards_zero_bound((f as int) * (dt as int),
                (m as int) * (FP as int),
            );
        }
        let q: i128 = div_i128(f as i128 * dt as i128, m as i128 * FP as i128);
        crate::intmath::clamp_i128_to(v as i128 + q, lim)
    }

    /// `v * dt / FP`, capped at the world bound so it can translate a
    /// centre.
    fn scale_dt(v: i64, dt: i64) -> (out: i64)
        requires
            -RB_VEL_MAX <= v <= RB_VEL_MAX,
            1 <= dt <= RB_DT_MAX,
        ensures
            out == clamped(
                div_towards_zero((v as int) * (dt as int), FP as int),
                -CENTRE_MAX as int,
                CENTRE_MAX as int,
            ),
    {
        proof {
            assert(-0x10000000000000int <= (v as int) * (dt as int) <= 0x10000000000000int)
                by (nonlinear_arith)
                requires
                    -0x100000000int <= v <= 0x100000000int && 1 <= dt <= 0x100000,
            ;
            crate::intmath::lemma_div_towards_zero_bound((v as int) * (dt as int), FP as int);
        }
        let q: i128 = div_i128(v as i128 * dt as i128, FP as i128);
        crate::intmath::clamp_i128_to(q, CENTRE_MAX)
    }
}

} // verus!

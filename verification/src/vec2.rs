//! A 2D vector tagged with a compile-time coordinate space, so that values
//! from different frames (window, texture, world) cannot be mixed without an
//! explicit conversion.

use vstd::prelude::*;

verus! {

/// Marker trait for the coordinate space a vector lives in.
pub trait CoordSpace: Copy {}

/// Raw window pixels, as input events report them.
#[derive(Clone, Copy, Debug, PartialEq, Eq, Structural)]
pub struct WindowSpace;

impl CoordSpace for WindowSpace {}

/// Window pixels; the gravity engine's name for the same frame.
#[derive(Clone, Copy, Debug, PartialEq, Eq, Structural)]
pub struct ScreenSpace;

impl CoordSpace for ScreenSpace {}

/// Pixels of the simulation's own texture buffer.
#[derive(Clone, Copy, Debug, PartialEq, Eq, Structural)]
pub struct TextureSpace;

impl CoordSpace for TextureSpace {}

/// Texture pixels; the gravity engine's name for the same frame.
#[derive(Clone, Copy, Debug, PartialEq, Eq, Structural)]
pub struct RenderSpace;

impl CoordSpace for RenderSpace {}

/// The unscaled simulation frame entities live in; may extend offscreen.
#[derive(Clone, Copy, Debug, PartialEq, Eq, Structural)]
pub struct WorldSpace;

impl CoordSpace for WorldSpace {}

/// A 2D vector of `T` values in coordinate space `U`. The space costs
/// nothing at run time; it only keeps frames apart in signatures.
#[derive(Copy, Debug)]
pub struct Vec2<T: Copy, U: CoordSpace> {
    pub x: T,
    pub y: T,
    pub space: core::marker::PhantomData<U>,
}

impl<T: Copy, U: CoordSpace> Clone for Vec2<T, U> {
    fn clone(&self) -> (out: Self)
        ensures
            out == *self,
    {
        Vec2 { x: self.x, y: self.y, space: core::marker::PhantomData }
    }
}

/// Builds a vector from its two components.
#[inline]
pub fn vec2<T: Copy, U: CoordSpace>(p1: T, p2: T) -> (v: Vec2<T, U>)
    ensures
        v.x == p1,
        v.y == p2,
{
    Vec2 { x: p1, y: p2, space: core::marker::PhantomData }
}

impl<T: Copy, U: CoordSpace> Vec2<T, U> {
    /// Applies `f` to both components.
    pub fn map<T2: Copy, F: Fn(T) -> T2>(self, f: F) -> (out: Vec2<T2, U>)
        requires
            call_requires(f, (self.x,)),
            call_requires(f, (self.y,)),
        ensures
            call_ensures(f, (self.x,), out.x),
            call_ensures(f, (self.y,), out.y),
    {
        Vec2 { x: f(self.x), y: f(self.y), space: core::marker::PhantomData }
    }

    /// Reinterprets the space tag without touching the values. The caller
    /// must have accounted for any scaling between the two frames already.
    pub fn cast_unit<DstU: CoordSpace>(self) -> (out: Vec2<T, DstU>)
        ensures
            out.x == self.x,
            out.y == self.y,
    {
        Vec2 { x: self.x, y: self.y, space: core::marker::PhantomData }
    }

    pub fn to_array(self) -> (out: [T; 2])
        ensures
            out[0] == self.x,
            out[1] == self.y,
    {
        [self.x, self.y]
    }
}

impl<U: CoordSpace> Vec2<i64, U> {
    /// Both components within `bound` in magnitude.
    pub open spec fn abs_le(self, bound: int) -> bool {
        -bound <= self.x <= bound && -bound <= self.y <= bound
    }

    /// Component-wise sum.
    pub fn add(self, rhs: Vec2<i64, U>) -> (out: Vec2<i64, U>)
        requires
            i64::MIN <= self.x + rhs.x <= i64::MAX,
            i64::MIN <= self.y + rhs.y <= i64::MAX,
        ensures
            out.x == self.x + rhs.x,
            out.y == self.y + rhs.y,
    {
        Vec2 { x: self.x + rhs.x, y: self.y + rhs.y, space: core::marker::PhantomData }
    }

    /// Component-wise difference.
    pub fn sub(self, rhs: Vec2<i64, U>) -> (out: Vec2<i64, U>)
        requires
            i64::MIN <= self.x - rhs.x <= i64::MAX,
            i64::MIN <= self.y - rhs.y <= i64::MAX,
        ensures
            out.x == self.x - rhs.x,
            out.y == self.y - rhs.y,
    {
        Vec2 { x: self.x - rhs.x, y: self.y - rhs.y, space: core::marker::PhantomData }
    }

    /// Component-wise negation.
    pub fn neg(self) -> (out: Vec2<i64, U>)
        requires
            self.x > i64::MIN,
            self.y > i64::MIN,
        ensures
            out.x == -self.x,
            out.y == -self.y,
    {
        Vec2 { x: -self.x, y: -self.y, space: core::marker::PhantomData }
    }

    /// Rotation by a quarter turn: `(x, y) -> (-y, x)`.
    pub fn perpendicular(self) -> (out: Vec2<i64, U>)
        requires
            self.y > i64::MIN,
        ensures
            out.x == -self.y,
            out.y == self.x,
    {
        Vec2 { x: -self.y, y: self.x, space: core::marker::PhantomData }
    }

    /// The scalar `x*ox + y*oy`, the projection of `self` onto `other`.
    pub fn dot_product(self, other: Vec2<i64, U>) -> (out: i64)
        requires
            i64::MIN <= self.x * other.x + self.y * other.y <= i64::MAX,
            i64::MIN <= self.x * other.x <= i64::MAX,
            i64::MIN <= self.y * other.y <= i64::MAX,
        ensures
            out == self.x * other.x + self.y * other.y,
    {
        self.x * other.x + self.y * other.y
    }

    /// The 2D cross product `x*oy - y*ox`, a scalar.
    pub fn cross_product(self, other: Vec2<i64, U>) -> (out: i64)
        requires
            i64::MIN <= self.x * other.y - self.y * other.x <= i64::MAX,
            i64::MIN <= self.x * other.y <= i64::MAX,
            i64::MIN <= self.y * other.x <= i64::MAX,
        ensures
            out == self.x * other.y - self.y * other.x,
    {
        self.x * other.y - self.y * other.x
    }

    /// `x*x + y*y`.
    pub fn length_squared(self) -> (out: i64)
        requires
            self.x * self.x + self.y * self.y <= i64::MAX,
        ensures
            out == self.x * self.x + self.y * self.y,
            out >= 0,
    {
        proof {
            assert(self.x * self.x >= 0 && self.y * self.y >= 0) by (nonlinear_arith);
        }
        self.x * self.x + self.y * self.y
    }

    /// Clamps both components into `[min, max]` component-wise.
    pub fn clamp(self, min: Vec2<i64, U>, max: Vec2<i64, U>) -> (out: Vec2<i64, U>)
        requires
            min.x <= max.x,
            min.y <= max.y,
        ensures
            out.x == crate::intmath::clamped(self.x as int, min.x as int, max.x as int),
            out.y == crate::intmath::clamped(self.y as int, min.y as int, max.y as int),
    {
        Vec2 {
            x: crate::intmath::clamp_i64(self.x, min.x, max.x),
            y: crate::intmath::clamp_i64(self.y, min.y, max.y),
            space: core::marker::PhantomData,
        }
    }
}

/// A pixels-per-unit conversion factor between two coordinate spaces. The
/// tags record which way the factor converts; the value itself is a plain
/// positive integer.
#[derive(Copy, Debug)]
pub struct Scale<Src: CoordSpace, Dst: CoordSpace> {
    pub value: i64,
    pub spaces: core::marker::PhantomData<(Src, Dst)>,
}

impl<Src: CoordSpace, Dst: CoordSpace> Clone for Scale<Src, Dst> {
    fn clone(&self) -> (out: Self)
        ensures
            out == *self,
    {
        Scale { value: self.value, spaces: core::marker::PhantomData }
    }
}

impl<Src: CoordSpace, Dst: CoordSpace> Scale<Src, Dst> {
    pub fn new(val: i64) -> (out: Self)
        ensures
            out.value == val,
    {
        Scale { value: val, spaces: core::marker::PhantomData }
    }

    pub fn get(&self) -> (out: i64)
        ensures
            out == self.value,
    {
        self.value
    }
}

impl<U: CoordSpace> Vec2<i64, U> {
    /// Converts into the scale's destination space by dividing both
    /// components by the factor.
    pub fn scale<Dst: CoordSpace>(self, scale: Scale<U, Dst>) -> (out: Vec2<i64, Dst>)
        requires
            scale.value > 0,
        ensures
            out.x == crate::intmath::div_towards_zero(self.x as int, scale.value as int),
            out.y == crate::intmath::div_towards_zero(self.y as int, scale.value as int),
    {
        let x = crate::intmath::div_i64(self.x, scale.value);
        let y = crate::intmath::div_i64(self.y, scale.value);
        Vec2 { x, y, space: core::marker::PhantomData }
    }

    /// The Euclidean length, rounded down.
    pub fn length(self) -> (out: i64)
        requires
            self.abs_le(0x20000000000int),
        ensures
            out == crate::intmath::sqrt_floor(self.x * self.x + self.y * self.y),
            out >= 0,
    {
        proof {
            assert(0 <= (self.x as int) * (self.x as int) <= 0x400000000000000000000int && 0 <= (
            self.y as int) * (self.y as int) <= 0x400000000000000000000int) by (nonlinear_arith)
                requires
                    -0x20000000000int <= self.x <= 0x20000000000int && -0x20000000000int <= self.y
                        <= 0x20000000000int,
            ;
        }
        let n: i128 = self.x as i128 * self.x as i128 + self.y as i128 * self.y as i128;
        crate::intmath::isqrt_i128(n)
    }

    /// The direction of the vector at fixed-point unit length: each
    /// component times `FP`, divided by the length. The zero vector has no
    /// direction and stays the zero vector, by definition rather than by
    /// error.
    pub fn normalise(self) -> (out: Vec2<i64, U>)
        requires
            self.abs_le(0x20000000000int),
        ensures
            ({
                let len = crate::intmath::sqrt_floor(self.x * self.x + self.y * self.y);
                if len == 0 {
                    out.x == 0 && out.y == 0
                } else {
                    out.x == crate::intmath::div_towards_zero(self.x * crate::FP, len) && out.y
                        == crate::intmath::div_towards_zero(self.y * crate::FP, len)
                }
            }),
    {
        let len = self.length();
        if len > 0 {
            proof {
                assert(-0x200000000000000000000int <= (self.x as int) * (crate::FP as int)
                    <= 0x200000000000000000000int && -0x200000000000000000000int <= (self.y as int)
                    * (crate::FP as int) <= 0x200000000000000000000int) by (nonlinear_arith)
                    requires
                        -0x20000000000int <= self.x <= 0x20000000000int && -0x20000000000int
                            <= self.y <= 0x20000000000int && crate::FP == 65536i64,
                ;
                crate::intmath::lemma_div_towards_zero_bound(
                    (self.x as int) * (crate::FP as int),
                    len as int,
                );
                crate::intmath::lemma_div_towards_zero_bound(
                    (self.y as int) * (crate::FP as int),
                    len as int,
                );
            }
            let x = crate::intmath::div_i128(self.x as i128 * crate::FP as i128, len as i128);
            let y = crate::intmath::div_i128(self.y as i128 * crate::FP as i128, len as i128);
            proof {
                crate::intmath::lemma_div_towards_zero_mono(
                    (self.x as int) * (crate::FP as int),
                    len as int,
                    1,
                );
                crate::intmath::lemma_div_towards_zero_mono(
                    (self.y as int) * (crate::FP as int),
                    len as int,
                    1,
                );
            }
            Vec2 { x: x as i64, y: y as i64, space: core::marker::PhantomData }
        } else {
            Vec2 { x: 0, y: 0, space: core::marker::PhantomData }
        }
    }
}

impl Vec2<i64, WindowSpace> {
    /// Window pixels to texture pixels: both components shrink by the
    /// texture scale.
    pub fn to_texture_space(self, texture_scale: i64) -> (out: Vec2<i64, TextureSpace>)
        requires
            texture_scale > 0,
        ensures
            out.x == crate::intmath::div_towards_zero(self.x as int, texture_scale as int),
            out.y == crate::intmath::div_towards_zero(self.y as int, texture_scale as int),
    {
        let x = crate::intmath::div_i64(self.x, texture_scale);
        let y = crate::intmath::div_i64(self.y, texture_scale);
        Vec2 { x, y, space: core::marker::PhantomData }
    }

    /// Window pixels straight into the world: scaled down, then offset by
    /// the camera (added on x, subtracted on y).
    pub fn to_world_space(self, texture_scale: i64, camera: Vec2<i64, WorldSpace>) -> (out: Vec2<
        i64,
        WorldSpace,
    >)
        requires
            texture_scale > 0,
            self.abs_le(0x1000000000000int),
            camera.abs_le(0x1000000000000int),
        ensures
            out.x == crate::intmath::div_towards_zero(self.x as int, texture_scale as int)
                + camera.x,
            out.y == crate::intmath::div_towards_zero(self.y as int, texture_scale as int)
                - camera.y,
    {
        proof {
            crate::intmath::lemma_div_towards_zero_bound(self.x as int, texture_scale as int);
            crate::intmath::lemma_div_towards_zero_bound(self.y as int, texture_scale as int);
        }
        let x = crate::intmath::div_i64(self.x, texture_scale) + camera.x;
        let y = crate::intmath::div_i64(self.y, texture_scale) - camera.y;
        Vec2 { x, y, space: core::marker::PhantomData }
    }
}

impl Vec2<i64, TextureSpace> {
    /// Texture pixels into the world: the camera offset is added on x and
    /// subtracted on y.
    pub fn to_world_space(self, camera: Vec2<i64, WorldSpace>) -> (out: Vec2<i64, WorldSpace>)
        requires
            self.abs_le(0x1000000000000int),
            camera.abs_le(0x1000000000000int),
        ensures
            out.x == self.x + camera.x,
            out.y == self.y - camera.y,
    {
        Vec2 { x: self.x + camera.x, y: self.y - camera.y, space: core::marker::PhantomData }
    }

    /// Texture pixels re-expressed around a viewport centre, with y turned
    /// to point upwards.
    pub fn to_centred_texture(self, viewport_centre: Vec2<i64, TextureSpace>) -> (out: Vec2<
        i64,
        TextureSpace,
    >)
        requires
            self.abs_le(0x1000000000000int),
            viewport_centre.abs_le(0x1000000000000int),
        ensures
            out.x == viewport_centre.x + self.x,
            out.y == viewport_centre.y - self.y,
    {
        Vec2 {
            x: viewport_centre.x + self.x,
            y: viewport_centre.y - self.y,
            space: core::marker::PhantomData,
        }
    }
}

impl Vec2<i64, WorldSpace> {
    /// World coordinates into texture pixels: the camera offset is
    /// subtracted on x and added on y, the inverse of `to_world_space`.
    pub fn to_texture_space(self, camera: Vec2<i64, WorldSpace>) -> (out: Vec2<i64, TextureSpace>)
        requires
            self.abs_le(0x1000000000000int),
            camera.abs_le(0x1000000000000int),
        ensures
            out.x == self.x - camera.x,
            out.y == self.y + camera.y,
    {
        Vec2 { x: self.x - camera.x, y: self.y + camera.y, space: core::marker::PhantomData }
    }
}

/// The two texture/world conversions undo one another.
pub proof fn lemma_world_texture_round_trip(
    p: Vec2<i64, TextureSpace>,
    w: Vec2<i64, WorldSpace>,
    camera: Vec2<i64, WorldSpace>,
)
    requires
        w.x == p.x + camera.x,
        w.y == p.y - camera.y,
    ensures
        w.x - camera.x == p.x,
        w.y + camera.y == p.y,
{
}

} // verus!

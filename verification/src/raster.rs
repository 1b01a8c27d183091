//! Rasterization primitives. Each shape yields integer offsets relative to
//! an implicit origin; the caller translates them into buffer coordinates and
//! bounds-checks before writing, so the same primitive serves both world
//! entities and screen overlays.

use vstd::prelude::*;

use crate::vec2::{CoordSpace, Vec2};

verus! {

/// Largest magnitude a coordinate handed to a rasterizer may have; keeps all
/// internal decision variables comfortably inside `i64`.
pub const RASTER_MAX: i64 = 0x10000000;

/// The set of points a list of emitted offsets covers.
pub open spec fn oset(s: Seq<(i64, i64)>) -> Set<(int, int)> {
    Set::new(|q: (int, int)| exists|i: int| 0 <= i < s.len() && s[i].0 == q.0 && s[i].1 == q.1)
}

/// Closure under the three reflections that generate the dihedral group of
/// the square: together they give all eight images `(+-a, +-b)`, `(+-b, +-a)`.
pub open spec fn sym8_closed(s: Set<(int, int)>) -> bool {
    forall|p: (int, int)| #[trigger]
        s.contains(p) ==> s.contains((-p.0, p.1)) && s.contains((p.0, -p.1)) && s.contains(
            (p.1, p.0),
        )
}

/// Every offset lies within `bound` of the origin in both axes.
pub open spec fn offsets_within(s: Seq<(i64, i64)>, bound: int) -> bool {
    forall|i: int| 0 <= i < s.len() ==> -bound <= #[trigger] s[i].0 <= bound && -bound <= s[i].1
        <= bound
}

/// In a closed set, a member's whole eight-image orbit is present.
pub proof fn lemma_sym8_all_reflections(s: Set<(int, int)>, a: int, b: int)
    requires
        sym8_closed(s),
        s.contains((a, b)),
    ensures
        s.contains((-a, b)),
        s.contains((a, -b)),
        s.contains((-a, -b)),
        s.contains((b, a)),
        s.contains((-b, a)),
        s.contains((b, -a)),
        s.contains((-b, -a)),
{
    assert(s.contains((-a, b)));
    assert(s.contains((a, -b)));
    assert(s.contains((-a, -b)));
    assert(s.contains((b, a)));
    assert(s.contains((b, -a)));
    assert(s.contains((-b, a)));
    assert(s.contains((-b, -a)));
}

proof fn lemma_oset_push(s: Seq<(i64, i64)>, e: (i64, i64))
    ensures
        oset(s.push(e)) =~= oset(s).insert((e.0 as int, e.1 as int)),
{
    assert forall|q: (int, int)| oset(s.push(e)).contains(q) implies oset(s).insert(
        (e.0 as int, e.1 as int),
    ).contains(q) by {
        let i = choose|i: int| 0 <= i < s.push(e).len() && s.push(e)[i].0 == q.0 && s.push(e)[i].1
            == q.1;
        if i < s.len() {
            assert(s[i].0 == q.0 && s[i].1 == q.1);
        }
    }
    assert forall|q: (int, int)| oset(s).insert((e.0 as int, e.1 as int)).contains(q) implies oset(
        s.push(e),
    ).contains(q) by {
        if oset(s).contains(q) {
            let i = choose|i: int| 0 <= i < s.len() && s[i].0 == q.0 && s[i].1 == q.1;
            assert(s.push(e)[i].0 == q.0 && s.push(e)[i].1 == q.1);
        } else {
            let i = s.len() as int;
            assert(s.push(e)[i].0 == q.0 && s.push(e)[i].1 == q.1);
        }
    }
}

/// `q` is one of the eight reflections of `(a, b)`.
pub open spec fn in_orbit(q: (int, int), a: int, b: int) -> bool {
    ||| q == (a, b)
    ||| q == (-a, b)
    ||| q == (a, -b)
    ||| q == (-a, -b)
    ||| q == (b, a)
    ||| q == (-b, a)
    ||| q == (b, -a)
    ||| q == (-b, -a)
}

/// `s` with the eight reflections of `(a, b)` added.
pub open spec fn with_orbit(s: Set<(int, int)>, a: int, b: int) -> Set<(int, int)> {
    Set::new(|q: (int, int)| s.contains(q) || in_orbit(q, a, b))
}

proof fn lemma_orbit_closed(s: Set<(int, int)>, a: int, b: int)
    requires
        sym8_closed(s),
    ensures
        sym8_closed(with_orbit(s, a, b)),
{
    let t = with_orbit(s, a, b);
    assert forall|p: (int, int)| #[trigger] t.contains(p) implies t.contains((-p.0, p.1))
        && t.contains((p.0, -p.1)) && t.contains((p.1, p.0)) by {
        if s.contains(p) {
            assert(s.contains((-p.0, p.1)) && s.contains((p.0, -p.1)) && s.contains((p.1, p.0)));
        } else {
            assert(in_orbit(p, a, b));
            assert(in_orbit((-p.0, p.1), a, b) && in_orbit((p.0, -p.1), a, b) && in_orbit(
                (p.1, p.0),
                a,
                b,
            ));
        }
    }
}

/// Pushes the eight reflections of `(x, y)` onto `v`.
fn push_orbit(v: &mut Vec<(i64, i64)>, x: i64, y: i64)
    requires
        0 <= x <= RASTER_MAX,
        0 <= y <= RASTER_MAX,
    ensures
        oset(final(v)@) =~= with_orbit(oset(old(v)@), x as int, y as int),
        final(v)@.len() == old(v)@.len() + 8,
        forall|i: int| 0 <= i < old(v)@.len() ==> final(v)@[i] == old(v)@[i],
        forall|i: int|
            old(v)@.len() <= i < final(v)@.len() ==> (-y <= #[trigger] final(v)@[i].0 <= y || -x
                <= final(v)@[i].0 <= x) && (-y <= final(v)@[i].1 <= y || -x <= final(v)@[i].1 <= x),
{
    let nx: i64 = -x;
    let ny: i64 = -y;
    let ghost s0 = v@;
    v.push((x, y));
    proof {
        lemma_oset_push(s0, (x, y));
    }
    let ghost s1 = v@;
    v.push((nx, y));
    proof {
        lemma_oset_push(s1, (nx, y));
    }
    let ghost s2 = v@;
    v.push((x, ny));
    proof {
        lemma_oset_push(s2, (x, ny));
    }
    let ghost s3 = v@;
    v.push((nx, ny));
    proof {
        lemma_oset_push(s3, (nx, ny));
    }
    let ghost s4 = v@;
    v.push((y, x));
    proof {
        lemma_oset_push(s4, (y, x));
    }
    let ghost s5 = v@;
    v.push((ny, x));
    proof {
        lemma_oset_push(s5, (ny, x));
    }
    let ghost s6 = v@;
    v.push((y, nx));
    proof {
        lemma_oset_push(s6, (y, nx));
    }
    let ghost s7 = v@;
    v.push((ny, nx));
    proof {
        lemma_oset_push(s7, (ny, nx));
        assert(oset(v@) =~= with_orbit(oset(s0), x as int, y as int));
    }
}

/// The exact relation the midpoint stepping keeps between the decision
/// variable and the current octant position.
pub open spec fn circle_inv(x: int, y: int, d: int, size: int) -> bool {
    0 <= x <= size && 0 <= y <= size && x <= y + 1 && d == 2 * x * x + 4 * x + 2 * y * y - 6 * y
        + 3 + 4 * size - 2 * size * size
}

proof fn lemma_circle_d_bound(x: int, y: int, d: int, size: int)
    requires
        circle_inv(x, y, d, size),
        size <= RASTER_MAX,
    ensures
        -(0x1000000000000000int) <= d <= 0x1000000000000000int,
{
    assert(-(0x1000000000000000int) <= 2 * x * x + 4 * x + 2 * y * y - 6 * y + 3 + 4 * size - 2
        * size * size <= 0x1000000000000000int) by (nonlinear_arith)
        requires
            0 <= x <= size && 0 <= y <= size && size <= 0x10000000int,
    ;
}

/// One step of the shared midpoint circle walk.
fn circle_step(x: &mut i64, y: &mut i64, d: &mut i64, size: i64)
    requires
        circle_inv(*old(x) as int, *old(y) as int, *old(d) as int, size as int),
        *old(x) < *old(y),
        0 <= size <= RASTER_MAX,
    ensures
        circle_inv(*final(x) as int, *final(y) as int, *final(d) as int, size as int),
        *final(x) == *old(x) + 1,
        *final(y) == *old(y) || *final(y) == *old(y) - 1,
        *old(d) < 0 ==> *final(y) == *old(y),
        *old(d) >= 0 ==> *final(y) == *old(y) - 1,
{
    proof {
        lemma_circle_d_bound(*x as int, *y as int, *d as int, size as int);
    }
    let ghost (x0, y0, d0) = (*x as int, *y as int, *d as int);
    if *d < 0 {
        *d = *d + 4 * *x + 6;
    } else {
        *y = *y - 1;
        *d = *d + 4 * (*x - *y) + 10;
    }
    *x = *x + 1;
    proof {
        if d0 < 0 {
            assert(2 * (x0 + 1) * (x0 + 1) + 4 * (x0 + 1) + 2 * y0 * y0 - 6 * y0 + 3 + 4 * size
                - 2 * size * size == d0 + 4 * x0 + 6) by (nonlinear_arith)
                requires
                    d0 == 2 * x0 * x0 + 4 * x0 + 2 * y0 * y0 - 6 * y0 + 3 + 4 * size - 2 * size
                        * size,
            ;
        } else {
            assert(2 * (x0 + 1) * (x0 + 1) + 4 * (x0 + 1) + 2 * (y0 - 1) * (y0 - 1) - 6 * (y0 - 1)
                + 3 + 4 * size - 2 * size * size == d0 + 4 * (x0 - (y0 - 1)) + 10)
                by (nonlinear_arith)
                requires
                    d0 == 2 * x0 * x0 + 4 * x0 + 2 * y0 * y0 - 6 * y0 + 3 + 4 * size - 2 * size
                        * size,
            ;
        }
    }
}

/// The offsets of a midpoint circle outline of the given radius.
///
/// The emitted set is closed under all eight reflections
/// `(a, b) -> (+-a, +-b), (+-b, +-a)`: each step emits a whole orbit.
#[verifier::rlimit(30)]
pub fn circle_outline_offsets(size: i64) -> (out: Vec<(i64, i64)>)
    requires
        0 <= size <= RASTER_MAX,
    ensures
        sym8_closed(oset(out@)),
        offsets_within(out@, size as int),
        oset(out@).contains((0, size as int)),
{
    let mut out: Vec<(i64, i64)> = Vec::new();
    let mut x: i64 = 0;
    let mut y: i64 = size;
    let mut d: i64 = 3 - 2 * size;
    proof {
        assert(sym8_closed(oset(out@)));
    }
    push_orbit(&mut out, x, y);
    proof {
        lemma_orbit_closed(Set::<(int, int)>::empty(), 0, size as int);
        assert(oset(out@).contains((0int, size as int)));
    }
    while x < y
        invariant
            circle_inv(x as int, y as int, d as int, size as int),
            size <= RASTER_MAX,
            sym8_closed(oset(out@)),
            offsets_within(out@, size as int),
            oset(out@).contains((0, size as int)),
        decreases y - x + 1,
    {
        circle_step(&mut x, &mut y, &mut d, size);
        let ghost before = oset(out@);
        push_orbit(&mut out, x, y);
        proof {
            lemma_orbit_closed(before, x as int, y as int);
        }
    }
    out
}

/// The emitted point set is symmetric about the horizontal axis.
pub open spec fn mirror_closed(s: Set<(int, int)>) -> bool {
    forall|p: (int, int)| #[trigger] s.contains(p) ==> s.contains((p.0, -p.1))
}

/// Every emitted row is contiguous towards the vertical axis: stepping a
/// point one pixel closer to column zero stays inside the set, so a filled
/// disk has no horizontal gaps.
pub open spec fn rows_contiguous(s: Set<(int, int)>) -> bool {
    forall|p: (int, int)| #[trigger]
        s.contains(p) ==> (p.0 > 0 ==> s.contains((p.0 - 1, p.1))) && (p.0 < 0 ==> s.contains(
            (p.0 + 1, p.1),
        ))
}

/// The offsets of a filled midpoint circle: horizontal spans `[-x, x)` at
/// each step's two heights, plus the transposed spans, so the disk has no
/// gaps. The result is mirror-symmetric about the horizontal axis and each
/// of its rows is contiguous towards the centre column.
pub fn circle_fill_offsets(size: i64) -> (out: Vec<(i64, i64)>)
    requires
        0 <= size <= RASTER_MAX,
    ensures
        offsets_within(out@, size as int),
        size >= 1 ==> oset(out@).contains((0, 0)),
        mirror_closed(oset(out@)),
        rows_contiguous(oset(out@)),
{
    let mut out: Vec<(i64, i64)> = Vec::new();
    let mut x: i64 = 0;
    let mut y: i64 = size;
    let mut d: i64 = 3 - 2 * size;
    let ghost pre0 = oset(out@);
    push_spans(&mut out, x, y, size);
    proof {
        if size >= 1 {
            assert(oset(out@).contains((0, 0)));
        }
        lemma_spans_keep_shape(pre0, oset(out@), x as int, y as int);
    }
    while x < y
        invariant
            circle_inv(x as int, y as int, d as int, size as int),
            size <= RASTER_MAX,
            offsets_within(out@, size as int),
            size >= 1 ==> oset(out@).contains((0, 0)),
            mirror_closed(oset(out@)),
            rows_contiguous(oset(out@)),
        decreases y - x + 1,
    {
        circle_step(&mut x, &mut y, &mut d, size);
        let ghost pre = oset(out@);
        push_spans(&mut out, x, y, size);
        proof {
            lemma_spans_keep_shape(pre, oset(out@), x as int, y as int);
        }
    }
    out
}

/// Adding one step's spans keeps the mirror symmetry and the row
/// contiguity: the spans themselves are mirrored pairs of full intervals.
proof fn lemma_spans_keep_shape(pre: Set<(int, int)>, post: Set<(int, int)>, x: int, y: int)
    requires
        mirror_closed(pre),
        rows_contiguous(pre),
        forall|q: (int, int)| #[trigger] post.contains(q) <==> pre.contains(q) || in_spans(q, x, y),
    ensures
        mirror_closed(post),
        rows_contiguous(post),
{
    assert forall|p: (int, int)| #[trigger] post.contains(p) implies post.contains((p.0, -p.1))
        && (p.0 > 0 ==> post.contains((p.0 - 1, p.1))) && (p.0 < 0 ==> post.contains(
        (p.0 + 1, p.1),
    )) by {
        if pre.contains(p) {
            assert(pre.contains((p.0, -p.1)));
            if p.0 > 0 {
                assert(pre.contains((p.0 - 1, p.1)));
            }
            if p.0 < 0 {
                assert(pre.contains((p.0 + 1, p.1)));
            }
        } else {
            assert(in_spans(p, x, y));
            assert(in_spans((p.0, -p.1), x, y));
            if p.0 > 0 {
                assert(in_spans((p.0 - 1, p.1), x, y));
            }
            if p.0 < 0 {
                assert(in_spans((p.0 + 1, p.1), x, y));
            }
        }
    }
}

/// The points one fill step covers: rows `[-x, x)` at heights `+-y` and
/// rows `[-y, y)` at heights `+-x`.
pub open spec fn in_spans(q: (int, int), x: int, y: int) -> bool {
    (-x <= q.0 < x && (q.1 == y || q.1 == -y)) || (-y <= q.0 < y && (q.1 == x || q.1 == -x))
}

/// Pushes the four spans of one fill step, and nothing else.
fn push_spans(v: &mut Vec<(i64, i64)>, x: i64, y: i64, bound: i64)
    requires
        0 <= x <= bound,
        0 <= y <= bound,
        bound <= RASTER_MAX,
        offsets_within(old(v)@, bound as int),
    ensures
        offsets_within(final(v)@, bound as int),
        forall|q: (int, int)| #[trigger]
            oset(final(v)@).contains(q) <==> oset(old(v)@).contains(q) || in_spans(
                q,
                x as int,
                y as int,
            ),
        y >= 1 ==> oset(final(v)@).contains((0, x as int)),
{
    push_row(v, -x, x, y, bound);
    push_row(v, -x, x, -y, bound);
    push_row(v, -y, y, x, bound);
    push_row(v, -y, y, -x, bound);
}

/// Pushes `(i, y)` for every `i` in `[x1, x2)`, and nothing else.
fn push_row(v: &mut Vec<(i64, i64)>, x1: i64, x2: i64, y: i64, bound: i64)
    requires
        -bound <= x1 <= bound,
        -bound <= x2 <= bound,
        -bound <= y <= bound,
        bound <= RASTER_MAX,
        offsets_within(old(v)@, bound as int),
    ensures
        offsets_within(final(v)@, bound as int),
        forall|q: (int, int)| #[trigger]
            oset(final(v)@).contains(q) <==> oset(old(v)@).contains(q) || (x1 <= q.0 < x2 && q.1
                == y),
{
    let ghost start = v@;
    let mut i: i64 = x1;
    if x1 >= x2 {
        return ;
    }
    while i < x2
        invariant
            x1 <= i <= x2,
            x2 <= bound,
            -bound <= x1,
            -bound <= y <= bound,
            bound <= RASTER_MAX,
            offsets_within(v@, bound as int),
            forall|q: (int, int)| #[trigger]
                oset(v@).contains(q) <==> oset(start).contains(q) || (x1 <= q.0 < i && q.1 == y),
        decreases x2 - i,
    {
        let ghost s0 = v@;
        v.push((i, y));
        proof {
            lemma_oset_push(s0, (i, y));
        }
        i = i + 1;
    }
}

/// The square's offsets in the order the walk emits them: row-major from
/// the bottom-left corner, `2*half` offsets per row.
pub open spec fn square_order(size: int) -> Seq<(i64, i64)> {
    let half = size / 2;
    Seq::new(
        (4 * half * half) as nat,
        |k: int| (((k % (2 * half)) - half) as i64, ((k / (2 * half)) - half) as i64),
    )
}

/// The offsets of a square centred on the origin: every point of
/// `[-size/2, size/2) x [-size/2, size/2)` exactly once, emitted row-major
/// from the bottom-left corner.
pub fn square_offsets(size: i64) -> (out: Vec<(i64, i64)>)
    requires
        0 <= size <= RASTER_MAX,
    ensures
        oset(out@) =~= Set::new(
            |q: (int, int)|
                -((size as int) / 2) <= q.0 < (size as int) / 2 && -((size as int) / 2) <= q.1 < (
                size as int) / 2,
        ),
        offsets_within(out@, size as int),
        out@.len() == 4 * ((size as int) / 2) * ((size as int) / 2),
        out@ == square_order(size as int),
{
    let half: i64 = size / 2;
    let mut out: Vec<(i64, i64)> = Vec::new();
    let mut y_off: i64 = -half;
    proof {
        assert(((y_off + half) as int) * (2 * (half as int)) == 0) by (nonlinear_arith)
            requires
                y_off == -half,
        ;
    }
    while y_off < half
        invariant
            -half <= y_off <= half,
            0 <= half <= size <= RASTER_MAX,
            half == size as int / 2,
            offsets_within(out@, size as int),
            out@.len() == (y_off + half) * (2 * half),
            forall|k: int|
                0 <= k < out@.len() ==> #[trigger] out@[k] == (((k % (2 * (half as int))) - half)
                    as i64, ((k / (2 * (half as int))) - half) as i64),
            forall|q: (int, int)| #[trigger]
                oset(out@).contains(q) <==> (-half <= q.0 < half && -half <= q.1 < y_off),
        decreases half - y_off,
    {
        let mut x_off: i64 = -half;
        while x_off < half
            invariant
                -half <= x_off <= half,
                -half <= y_off < half,
                0 <= half <= size <= RASTER_MAX,
                offsets_within(out@, size as int),
                out@.len() == (y_off + half) * (2 * half) + (x_off + half),
                forall|k: int|
                    0 <= k < out@.len() ==> #[trigger] out@[k] == (((k % (2 * (half as int)))
                        - half) as i64, ((k / (2 * (half as int))) - half) as i64),
                forall|q: (int, int)| #[trigger]
                    oset(out@).contains(q) <==> (-half <= q.0 < half && -half <= q.1 < y_off || (
                    -half <= q.0 < x_off && q.1 == y_off)),
            decreases half - x_off,
        {
            let ghost s0 = out@;
            out.push((x_off, y_off));
            proof {
                lemma_oset_push(s0, (x_off, y_off));
                let k = out@.len() - 1;
                assert(k == ((y_off as int) + half) * (2 * (half as int)) + (x_off + half));
                assert(k % (2 * (half as int)) == (x_off as int) + half && k / (2 * (half as int))
                    == (y_off as int) + half) by (nonlinear_arith)
                    requires
                        k == ((y_off as int) + half) * (2 * (half as int)) + ((x_off as int)
                            + half) && 0 <= (x_off as int) + half < 2 * (half as int) && 0 <= (
                        y_off as int) + half && 0 < 2 * (half as int),
                ;
            }
            x_off = x_off + 1;
        }
        proof {
            assert((y_off + 1 + half) * (2 * half) == (y_off + half) * (2 * half) + 2 * half)
                by (nonlinear_arith);
        }
        y_off = y_off + 1;
    }
    proof {
        assert(((half as int) + half) * (2 * (half as int)) == 4 * (half as int) * half)
            by (nonlinear_arith);
        assert(out@ =~= square_order(size as int));
    }
    out
}


/// The three brush shapes the sandbox can draw with.
#[derive(Clone, Copy, Debug, PartialEq, Eq, Structural)]
pub enum Shape {
    CircleOutline,
    CircleFill,
    SquareCentered,
}

/// `v` lies between `a` and `b`, whichever order they come in.
pub open spec fn between(a: int, b: int, v: int) -> bool {
    a <= v <= b || b <= v <= a
}

/// Consecutive points touch: each axis moves at most one pixel, and the two
/// points differ.
pub open spec fn adjacent(p: (i64, i64), q: (i64, i64)) -> bool {
    -1 <= q.0 - p.0 <= 1 && -1 <= q.1 - p.1 <= 1 && !(q.0 == p.0 && q.1 == p.1)
}

/// The magnitude of an integer.
pub open spec fn iabs(a: int) -> int {
    if a < 0 {
        -a
    } else {
        a
    }
}

/// The Bresenham walk as a specification: starting from `(x, y)` with the
/// given decision variable, the exact point sequence the drawing loop
/// emits, cut off by `fuel` (which every caller supplies amply).
pub open spec fn bres_from(
    x: int,
    y: int,
    error: int,
    sx: int,
    sy: int,
    dx: int,
    dy: int,
    ex: int,
    ey: int,
    fuel: nat,
) -> Seq<(i64, i64)>
    decreases fuel,
{
    let here = seq![((x as i64), (y as i64))];
    if fuel == 0 || (x == ex && y == ey) {
        here
    } else {
        let e2 = 2 * error;
        let x2 = if e2 >= dy {
            x + sx
        } else {
            x
        };
        let e1 = if e2 >= dy {
            error + dy
        } else {
            error
        };
        let y2 = if e2 <= dx {
            y + sy
        } else {
            y
        };
        let e3 = if e2 <= dx {
            e1 + dx
        } else {
            e1
        };
        here + bres_from(x2, y2, e3, sx, sy, dx, dy, ex, ey, (fuel - 1) as nat)
    }
}

/// The unique point sequence Bresenham's walk emits from `(sxc, syc)` to
/// `(ex, ey)`.
pub open spec fn spec_line_points(sxc: int, syc: int, ex: int, ey: int) -> Seq<(i64, i64)> {
    let dx = iabs(ex - sxc);
    let ady = iabs(ey - syc);
    let sx: int = if sxc < ex {
        1int
    } else {
        -1int
    };
    let sy: int = if syc < ey {
        1int
    } else {
        -1int
    };
    bres_from(sxc, syc, dx - ady, sx, sy, dx, -ady, ex, ey, (dx + ady + 1) as nat)
}

/// An unbroken path from `start` to `end` inside their bounding box: each
/// step moves at most one pixel per axis, never against the end point's
/// direction, and the point count sits between the Chebyshev and the
/// taxicab length of the segment, so the path cannot wander.
pub open spec fn line_path(pts: Seq<(i64, i64)>, sx: int, sy: int, ex: int, ey: int) -> bool {
    &&& pts.len() >= 1
    &&& pts[0].0 == sx && pts[0].1 == sy
    &&& pts[pts.len() - 1].0 == ex && pts[pts.len() - 1].1 == ey
    &&& pts.len() == (if iabs(ex - sx) >= iabs(ey - sy) {
        iabs(ex - sx)
    } else {
        iabs(ey - sy)
    }) + 1
    &&& forall|i: int|
        0 <= i < pts.len() ==> between(sx, ex, #[trigger] pts[i].0 as int) && between(sy, ey, pts[i].1 as int)
    &&& forall|i: int| 0 <= i < pts.len() - 1 ==> adjacent(#[trigger] pts[i], pts[i + 1])
    &&& forall|i: int|
        0 <= i < pts.len() - 1 ==> (ex >= sx ==> (#[trigger] pts[i + 1]).0 - pts[i].0 >= 0) && (ex
            <= sx ==> pts[i + 1].0 - pts[i].0 <= 0) && (ey >= sy ==> pts[i + 1].1 - pts[i].1 >= 0)
            && (ey <= sy ==> pts[i + 1].1 - pts[i].1 <= 0)
}

impl Shape {
    /// The offsets this shape covers around an implicit centre point. The
    /// caller adds them to an origin and bounds-checks before writing.
    pub fn draw(self, size: i64) -> (out: Vec<(i64, i64)>)
        requires
            0 <= size <= RASTER_MAX,
        ensures
            offsets_within(out@, size as int),
            self == Shape::CircleOutline ==> sym8_closed(oset(out@)) && oset(out@).contains(
                (0, size as int),
            ),
            self == Shape::CircleFill ==> mirror_closed(oset(out@)) && rows_contiguous(
                oset(out@),
            ) && (size >= 1 ==> oset(out@).contains((0, 0))),
            self == Shape::SquareCentered ==> oset(out@) =~= Set::new(
                |q: (int, int)|
                    -((size as int) / 2) <= q.0 < (size as int) / 2 && -((size as int) / 2) <= q.1
                        < (size as int) / 2,
            ) && out@ == square_order(size as int),
    {
        match self {
            Shape::CircleOutline => circle_outline_offsets(size),
            Shape::CircleFill => circle_fill_offsets(size),
            Shape::SquareCentered => square_offsets(size),
        }
    }

    /// Bresenham's line: the returned points walk from `start` to `end`, one
    /// step at a time, never leaving the bounding box of the two endpoints.
    pub fn draw_line<T: CoordSpace>(start: Vec2<i64, T>, end: Vec2<i64, T>) -> (pts: Vec<
        (i64, i64),
    >)
        requires
            start.abs_le(RASTER_MAX as int),
            end.abs_le(RASTER_MAX as int),
        ensures
            line_path(pts@, start.x as int, start.y as int, end.x as int, end.y as int),
            pts@ == spec_line_points(start.x as int, start.y as int, end.x as int, end.y as int),
    {
        let dx: i64 = if end.x >= start.x {
            end.x - start.x
        } else {
            start.x - end.x
        };
        let sx: i64 = if start.x < end.x {
            1
        } else {
            -1
        };
        let ady: i64 = if end.y >= start.y {
            end.y - start.y
        } else {
            start.y - end.y
        };
        let sy: i64 = if start.y < end.y {
            1
        } else {
            -1
        };
        let dy: i64 = -ady;
        let mut error: i64 = dx + dy;
        let mut x: i64 = start.x;
        let mut y: i64 = start.y;
        let ghost mut gx: int = 0;
        let ghost mut gy: int = 0;
        let mut pts: Vec<(i64, i64)> = Vec::new();
        pts.push((x, y));
        let ghost full = spec_line_points(start.x as int, start.y as int, end.x as int,
            end.y as int);
        let ghost mut f: nat = (dx + ady + 1) as nat;
        while !(x == end.x && y == end.y)
            invariant
                dx >= 0,
                ady >= 0,
                dy == -ady,
                sx == 1 || sx == -1,
                sy == 1 || sy == -1,
                sx * dx == end.x - start.x,
                sy * ady == end.y - start.y,
                dx <= 2 * RASTER_MAX,
                ady <= 2 * RASTER_MAX,
                start.abs_le(RASTER_MAX as int),
                end.abs_le(RASTER_MAX as int),
                0 <= gx <= dx,
                0 <= gy <= ady,
                x == start.x + sx * gx,
                y == start.y + sy * gy,
                error == dx + dy + gy * dx + gx * dy,
                pts@.len() >= 1,
                pts@[0].0 == start.x && pts@[0].1 == start.y,
                pts@[pts@.len() - 1].0 == x && pts@[pts@.len() - 1].1 == y,
                dx >= ady ==> 2 * error >= dy && pts@.len() == 1 + gx,
                dx < ady ==> 2 * error <= dx && pts@.len() == 1 + gy,
                dx == iabs(end.x - start.x),
                ady == iabs(end.y - start.y),
                full == spec_line_points(start.x as int, start.y as int, end.x as int,
                    end.y as int,
                ),
                f >= 1 + (dx - gx) + (ady - gy),
                full == pts@.drop_last() + bres_from(x as int, y as int, error as int, sx as int,
                    sy as int, dx as int, dy as int, end.x as int, end.y as int, f),
                forall|i: int|
                    0 <= i < pts@.len() ==> between(start.x as int, end.x as int, #[trigger] pts@[i].0 as int)
                        && between(start.y as int, end.y as int, pts@[i].1 as int),
                forall|i: int| 0 <= i < pts@.len() - 1 ==> adjacent(#[trigger] pts@[i], pts@[i + 1]),
                forall|i: int|
                    0 <= i < pts@.len() - 1 ==> ((#[trigger] pts@[i + 1]).0 - pts@[i].0 == 0
                        || pts@[i + 1].0 - pts@[i].0 == sx && dx > 0) && (pts@[i + 1].1 - pts@[i].1
                        == 0 || pts@[i + 1].1 - pts@[i].1 == sy && ady > 0),
            decreases (dx - gx) + (ady - gy),
        {
            proof {
                lemma_line_progress(
                    dx as int,
                    ady as int,
                    gx,
                    gy,
                    error as int,
                    sx as int,
                    sy as int,
                    start.x as int,
                    start.y as int,
                    end.x as int,
                    end.y as int,
                    x as int,
                    y as int,
                );
            }
            let e2: i64 = 2 * error;
            let x_steps: bool = e2 >= dy;
            let y_steps: bool = e2 <= dx;
            if x_steps {
                error = error + dy;
                x = x + sx;
                proof {
                    gx = gx + 1;
                    assert((gx) * (dy as int) == (gx - 1) * (dy as int) + dy) by (nonlinear_arith);
                    assert((sx as int) * gx == (sx as int) * (gx - 1) + sx) by (nonlinear_arith);
                }
            }
            if y_steps {
                error = error + dx;
                y = y + sy;
                proof {
                    gy = gy + 1;
                    assert((gy) * (dx as int) == (gy - 1) * (dx as int) + dx) by (nonlinear_arith);
                    assert((sy as int) * gy == (sy as int) * (gy - 1) + sy) by (nonlinear_arith);
                }
            }
            pts.push((x, y));
            proof {
                lemma_line_box(dx as int, gx, sx as int, start.x as int, end.x as int, x as int);
                lemma_line_box(ady as int, gy, sy as int, start.y as int, end.y as int, y as int);
                f = (f - 1) as nat;
                assert(pts@.drop_last() =~= pts@.drop_last());
                assert(full == pts@.drop_last() + bres_from(x as int, y as int, error as int,
                    sx as int, sy as int, dx as int, dy as int, end.x as int, end.y as int, f,
                ));
            }
        }
        proof {
            assert(x - end.x == sx * (gx - dx)) by (nonlinear_arith)
                requires
                    x == start.x + (sx as int) * gx && (sx as int) * dx == end.x - start.x,
            ;
            assert((sx as int) * (gx - dx) == 0 ==> gx == dx) by (nonlinear_arith)
                requires
                    sx == 1i64 || sx == -1i64,
            ;
            assert(y - end.y == sy * (gy - ady)) by (nonlinear_arith)
                requires
                    y == start.y + (sy as int) * gy && (sy as int) * ady == end.y - start.y,
            ;
            assert((sy as int) * (gy - ady) == 0 ==> gy == ady) by (nonlinear_arith)
                requires
                    sy == 1i64 || sy == -1i64,
            ;
            assert(pts@.len() == (if dx >= ady {
                dx as int
            } else {
                ady as int
            }) + 1);
            assert(bres_from(x as int, y as int, error as int, sx as int, sy as int, dx as int,
                dy as int, end.x as int, end.y as int, f) =~= seq![(x, y)]);
            assert(pts@ =~= pts@.drop_last().push((x, y)));
            assert(pts@.drop_last() + seq![(x, y)] =~= pts@);
        }
        pts
    }

    /// Draws the arrow body: at present an arrow is its line.
    pub fn draw_arrow<T: CoordSpace>(start: Vec2<i64, T>, end: Vec2<i64, T>) -> (pts: Vec<
        (i64, i64),
    >)
        requires
            start.abs_le(RASTER_MAX as int),
            end.abs_le(RASTER_MAX as int),
        ensures
            line_path(pts@, start.x as int, start.y as int, end.x as int, end.y as int),
            pts@ == spec_line_points(start.x as int, start.y as int, end.x as int, end.y as int),
    {
        Shape::draw_line(start, end)
    }
}

/// A coordinate a whole number of unit steps along a line stays between the
/// endpoints.
proof fn lemma_line_box(d: int, g: int, s: int, a: int, b: int, v: int)
    requires
        d >= 0,
        0 <= g <= d,
        s == 1 || s == -1,
        s * d == b - a,
        v == a + s * g,
    ensures
        between(a, b, v),
{
    if s == 1 {
        assert(1 * d == d && 1 * g == g) by (nonlinear_arith);
    } else {
        assert(-1 * d == -d && -1 * g == -g) by (nonlinear_arith);
    }
}

/// At an interior state of the walk, at least one axis still has ground to
/// cover and the step conditions never push past the target: the decision
/// variable identity rules an overshoot out.
proof fn lemma_line_progress(
    dx: int,
    ady: int,
    gx: int,
    gy: int,
    error: int,
    sx: int,
    sy: int,
    startx: int,
    starty: int,
    endx: int,
    endy: int,
    x: int,
    y: int,
)
    requires
        dx >= 0,
        ady >= 0,
        0 <= gx <= dx,
        0 <= gy <= ady,
        error == dx + (-ady) + gy * dx + gx * (-ady),
        sx == 1 || sx == -1,
        sy == 1 || sy == -1,
        sx * dx == endx - startx,
        sy * ady == endy - starty,
        x == startx + sx * gx,
        y == starty + sy * gy,
        !(x == endx && y == endy),
        dx <= 0x20000000,
        ady <= 0x20000000,
    ensures
        2 * error >= -ady || 2 * error <= dx,
        2 * error >= -ady ==> gx < dx,
        2 * error <= dx ==> gy < ady,
        -(0x2000000000000000int) <= error <= 0x2000000000000000int,
{
    assert(0 <= gy * dx <= 0x20000000int * 0x20000000int && gx * (-ady) == -(gx * ady) && 0 <= gx
        * ady <= 0x20000000int * 0x20000000int) by (nonlinear_arith)
        requires
            0 <= gx <= dx <= 0x20000000int && 0 <= gy <= ady <= 0x20000000int,
    ;
    let dy = -ady;
    assert(x == endx <==> gx == dx) by {
        assert(x - endx == sx * (gx - dx)) by (nonlinear_arith)
            requires
                x == startx + sx * gx && sx * dx == endx - startx,
        ;
        assert(sx * (gx - dx) == 0 <==> gx == dx) by (nonlinear_arith)
            requires
                sx == 1 || sx == -1,
        ;
    }
    assert(y == endy <==> gy == ady) by {
        assert(y - endy == sy * (gy - ady)) by (nonlinear_arith)
            requires
                y == starty + sy * gy && sy * ady == endy - starty,
        ;
        assert(sy * (gy - ady) == 0 <==> gy == ady) by (nonlinear_arith)
            requires
                sy == 1 || sy == -1,
        ;
    }
    // At least one of the step conditions holds: otherwise
    // 2 * error < dy <= 0 and 2 * error > dx >= 0 at once.
    assert(2 * error >= dy || 2 * error <= dx);
    // The x step cannot run past the target column.
    if 2 * error >= dy && gx == dx {
        assert(gy < ady);
        assert(error == dx * (1 + gy + dy) + dy) by (nonlinear_arith)
            requires
                error == dx + dy + gy * dx + dx * dy,
        ;
        assert(dx * (1 + gy + dy) <= 0) by (nonlinear_arith)
            requires
                dx >= 0 && 1 + gy + dy <= 0,
        ;
        assert(false);
    }
    // The y step cannot run past the target row.
    if 2 * error <= dx && gy == ady {
        assert(gx < dx);
        assert(error == dx + dy * (1 - dx + gx)) by (nonlinear_arith)
            requires
                error == dx + dy + (-dy) * dx + gx * dy,
        ;
        assert(dy * (1 - dx + gx) >= 0) by (nonlinear_arith)
            requires
                dy <= 0 && 1 - dx + gx <= 0,
        ;
        assert(false);
    }
}

} // verus!

use toy_physics::colour::{Rgba, RGB, RGBA};
use toy_physics::intmath::{clamp_i64, div_i64, isqrt_u128};
use toy_physics::raster::{circle_fill_offsets, circle_outline_offsets, square_offsets, Shape};
use toy_physics::vec2::{vec2, TextureSpace, Vec2, WorldSpace};

#[test]
fn rgba_packs_exact_value() {
    let c = Rgba::from_rgba(0x12, 0x34, 0x56, 0x78);
    assert_eq!(c.as_u32(), 0x12345678);
}

#[test]
fn rgba_from_rgb_is_opaque() {
    let c = Rgba::from_rgb(1, 2, 3);
    assert_eq!(c.a, 255);
    assert_eq!(c.as_u32(), 0x010203FF);
}

#[test]
fn rgba_round_trips_through_u32() {
    let c = Rgba::from_rgba(9, 8, 7, 6);
    let back = Rgba::from_u32(c.as_u32());
    assert_eq!(back, c);
    assert_eq!(Rgba::from_u32(0xAABBCCDD).as_u32(), 0xAABBCCDD);
}

#[test]
fn rgb_packs_with_full_alpha() {
    let c = RGB::from_rgb(0x10, 0x20, 0x30);
    assert_eq!(c.as_u32(), 0x102030FF);
    let d = RGB::from_rgba(4, 5, 6, 7);
    assert_eq!((d.r, d.g, d.b), (4, 5, 6));
}

#[test]
fn rgba_legacy_type_matches() {
    let c = RGBA::from_rgba(1, 2, 3, 4);
    assert_eq!(c.as_u32(), 0x01020304);
    let e = RGBA::from_u32(0x01020304);
    assert_eq!((e.r, e.g, e.b, e.a), (1, 2, 3, 4));
}

#[test]
fn division_truncates_towards_zero() {
    assert_eq!(div_i64(7, 2), 3);
    assert_eq!(div_i64(-7, 2), -3);
    assert_eq!(div_i64(0, 5), 0);
    assert_eq!(clamp_i64(12, -3, 7), 7);
    assert_eq!(clamp_i64(-12, -3, 7), -3);
}

#[test]
fn integer_sqrt_is_exact_floor() {
    assert_eq!(isqrt_u128(0), 0);
    assert_eq!(isqrt_u128(1), 1);
    assert_eq!(isqrt_u128(24), 4);
    assert_eq!(isqrt_u128(25), 5);
    assert_eq!(isqrt_u128(u64::MAX as u128 * u64::MAX as u128), u64::MAX);
}

#[test]
fn circle_outline_offsets_have_eightfold_symmetry() {
    let r: i64 = 7;
    let pts = circle_outline_offsets(r);
    let set: std::collections::HashSet<(i64, i64)> = pts.iter().copied().collect();
    for &(a, b) in &set {
        assert!(set.contains(&(-a, b)));
        assert!(set.contains(&(a, -b)));
        assert!(set.contains(&(-a, -b)));
        assert!(set.contains(&(b, a)));
        assert!(set.contains(&(-b, a)));
        assert!(set.contains(&(b, -a)));
        assert!(set.contains(&(-b, -a)));
    }
    assert!(set.contains(&(0, r)));
    for &(a, b) in &set {
        assert!(a.abs() <= r && b.abs() <= r);
    }
}

#[test]
fn circle_fill_covers_the_centre() {
    let pts = circle_fill_offsets(4);
    assert!(pts.contains(&(0, 0)));
    for &(a, b) in &pts {
        assert!(a.abs() <= 4 && b.abs() <= 4);
    }
}

#[test]
fn square_offsets_cover_exactly_the_half_open_box() {
    let pts = square_offsets(4);
    let set: std::collections::HashSet<(i64, i64)> = pts.iter().copied().collect();
    assert_eq!(set.len(), 16);
    for a in -2i64..2 {
        for b in -2i64..2 {
            assert!(set.contains(&(a, b)));
        }
    }
    assert!(!set.contains(&(2, 0)));
    assert!(!set.contains(&(0, 2)));
}

#[test]
fn shape_draw_dispatches() {
    let outline = Shape::CircleOutline.draw(3);
    let fill = Shape::CircleFill.draw(3);
    let square = Shape::SquareCentered.draw(3);
    assert!(!outline.is_empty());
    assert!(fill.contains(&(0, 0)));
    // Size 3 has half extent 1: the four cells around the origin.
    assert_eq!(square.len(), 4);
    assert_eq!(square[0], (-1, -1));
}

#[test]
fn bresenham_line_walks_from_start_to_end() {
    let a: Vec2<i64, WorldSpace> = vec2(0, 0);
    let b: Vec2<i64, WorldSpace> = vec2(5, 3);
    let pts = Shape::draw_line(a, b);
    assert_eq!(pts[0], (0, 0));
    assert_eq!(*pts.last().unwrap(), (5, 3));
    for w in pts.windows(2) {
        let dx = (w[1].0 - w[0].0).abs();
        let dy = (w[1].1 - w[0].1).abs();
        assert!(dx <= 1 && dy <= 1 && dx + dy >= 1);
    }
    for &(x, y) in &pts {
        assert!((0..=5).contains(&x) && (0..=3).contains(&y));
    }
}

#[test]
fn bresenham_line_handles_single_point_and_steep() {
    let a: Vec2<i64, WorldSpace> = vec2(2, 2);
    let pts = Shape::draw_line(a, a);
    assert_eq!(pts, vec![(2, 2)]);
    let b: Vec2<i64, WorldSpace> = vec2(2, 2);
    let c: Vec2<i64, WorldSpace> = vec2(3, -6);
    let pts = Shape::draw_arrow(b, c);
    assert_eq!(pts[0], (2, 2));
    assert_eq!(*pts.last().unwrap(), (3, -6));
}

#[test]
fn vec2_arithmetic_and_length() {
    let a: Vec2<i64, WorldSpace> = vec2(3, 4);
    let b: Vec2<i64, WorldSpace> = vec2(1, -2);
    let s = a.add(b);
    assert_eq!((s.x, s.y), (4, 2));
    let d = a.sub(b);
    assert_eq!((d.x, d.y), (2, 6));
    let p = a.perpendicular();
    assert_eq!((p.x, p.y), (-4, 3));
    assert_eq!(a.dot_product(b), 3 - 8);
    assert_eq!(a.cross_product(b), -6 - 4);
    assert_eq!(a.length_squared(), 25);
    assert_eq!(a.length(), 5);
}

#[test]
fn normalise_of_zero_is_zero() {
    let z: Vec2<i64, WorldSpace> = vec2(0, 0);
    let n = z.normalise();
    assert_eq!((n.x, n.y), (0, 0));
    let a: Vec2<i64, WorldSpace> = vec2(3, 4);
    let n = a.normalise();
    // Unit length in fixed point: 3/5 and 4/5 of FP.
    assert_eq!((n.x, n.y), (3 * toy_physics::FP / 5, 4 * toy_physics::FP / 5));
}

#[test]
fn space_transforms_round_trip() {
    let cam: Vec2<i64, WorldSpace> = vec2(10, -3);
    let t: Vec2<i64, TextureSpace> = vec2(7, 9);
    let w = t.to_world_space(cam);
    assert_eq!((w.x, w.y), (17, 12));
    let back = w.to_texture_space(cam);
    assert_eq!((back.x, back.y), (7, 9));
}

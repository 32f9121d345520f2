use personality::collision::{collides, resolve, Direction};
use personality::geometry::{div_ceil, div_floor, div_trunc, isqrt, Rect};
use personality::mask::{Color, SolidMask};

const WHITE: Color = Color { r: 255, g: 255, b: 255, a: 255 };

/// 20 by 20 pixels, solid from row 10 down.
fn floor_mask() -> SolidMask {
    let mut pixels = vec![WHITE; 20 * 20];
    for y in 10..20 {
        for x in 0..20 {
            pixels[y * 20 + x] = Color::black();
        }
    }
    SolidMask::from_colors(20, 20, &pixels)
}

fn bounds() -> Rect {
    Rect::new(0, 0, 20_000, 20_000)
}

#[test]
fn integer_division_rounds_as_named() {
    assert_eq!(div_trunc(-7, 2), -3);
    assert_eq!(div_floor(-7, 2), -4);
    assert_eq!(div_ceil(-7, 2), -3);
    assert_eq!(div_ceil(7, 2), 4);
    assert_eq!(div_floor(7, 2), 3);
}

#[test]
fn integer_square_root() {
    assert_eq!(isqrt(0), 0);
    assert_eq!(isqrt(24), 4);
    assert_eq!(isqrt(25), 5);
    assert_eq!(isqrt(2_500_000_000), 50_000);
}

#[test]
fn boxes_overlap_only_with_shared_area() {
    let a = Rect::new(0, 0, 10, 10);
    assert!(a.check_collision(&Rect::new(5, 5, 10, 10)));
    assert!(!a.check_collision(&Rect::new(10, 0, 10, 10)));
}

#[test]
fn mask_marks_opaque_black_only() {
    let pixels = vec![
        Color::black(),
        Color { r: 0, g: 0, b: 0, a: 254 },
        Color { r: 1, g: 0, b: 0, a: 255 },
        WHITE,
    ];
    let m = SolidMask::from_colors(2, 2, &pixels);
    assert!(m.is_solid(0, 0));
    assert!(!m.is_solid(1, 0));
    assert!(!m.is_solid(0, 1));
    assert!(!m.is_solid(1, 1));
    assert!(!m.is_solid(-1, 0));
    assert!(!m.is_solid(2, 0));
    assert_eq!((m.width(), m.height()), (2, 2));
}

#[test]
fn footprint_covers_partial_pixels() {
    let m = floor_mask();
    // Bottom edge at 9.001 pixels reaches row 9 only when rounded up past it.
    assert!(!collides(&m, None, &Rect::new(0, 0, 5_000, 10_000)));
    assert!(collides(&m, None, &Rect::new(0, 1, 5_000, 10_000)));
}

#[test]
fn wall_counts_as_solid() {
    let m = floor_mask();
    let wall = Rect::new(8_000, 0, 2_000, 20_000);
    assert!(collides(&m, Some(wall), &Rect::new(5_000, 0, 4_000, 4_000)));
    assert!(!collides(&m, Some(wall), &Rect::new(0, 0, 4_000, 4_000)));
}

#[test]
fn resolve_pushes_out_by_whole_nudges() {
    let m = floor_mask();
    let mut r = Rect::new(0, 1_200, 5_000, 10_000);
    let d = resolve(&m, None, &bounds(), &mut r, Direction::Up, 500, false);
    assert_eq!(d, Some(1_500));
    assert_eq!(r.y, -300);
}

#[test]
fn resolve_with_undo_only_measures() {
    let m = floor_mask();
    let mut r = Rect::new(0, 1_200, 5_000, 10_000);
    let d = resolve(&m, None, &bounds(), &mut r, Direction::Up, 500, true);
    assert_eq!(d, Some(1_500));
    assert_eq!(r.y, 1_200);
}

#[test]
fn resolve_of_a_clear_box_is_zero() {
    let m = floor_mask();
    let mut r = Rect::new(0, 0, 5_000, 5_000);
    assert_eq!(resolve(&m, None, &bounds(), &mut r, Direction::Down, 500, false), Some(0));
    assert_eq!(r.y, 0);
}

#[test]
fn resolve_that_leaves_the_bounds_is_unbounded_and_restores() {
    let m = floor_mask();
    let mut r = Rect::new(0, 5_000, 5_000, 10_000);
    assert_eq!(resolve(&m, None, &bounds(), &mut r, Direction::Down, 500, false), None);
    assert_eq!(r, Rect::new(0, 5_000, 5_000, 10_000));
}

#[test]
fn resolve_of_a_box_outside_the_bounds_is_unbounded() {
    let m = floor_mask();
    for undo in [false, true] {
        let mut r = Rect::new(30_000, 5_000, 5_000, 5_000);
        assert_eq!(resolve(&m, None, &bounds(), &mut r, Direction::Up, 500, undo), None);
        assert_eq!(r, Rect::new(30_000, 5_000, 5_000, 5_000));
    }
}

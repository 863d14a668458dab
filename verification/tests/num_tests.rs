use boids::div_trunc;
use boids::isqrt;
use boids::isqrt_ceil;
use boids::V2;
use boids::Viewport;

#[test]
fn div_trunc_rounds_toward_zero() {
    assert_eq!(div_trunc(7, 2), 3);
    assert_eq!(div_trunc(-7, 2), -3);
    assert_eq!(div_trunc(50, 2), 25);
    assert_eq!(div_trunc(-50, 2), -25);
    assert_eq!(div_trunc(0, 1000), 0);
    assert_eq!(div_trunc(999, 1000), 0);
    assert_eq!(div_trunc(-999, 1000), 0);
}

#[test]
fn isqrt_exact_values() {
    assert_eq!(isqrt(0), 0);
    assert_eq!(isqrt(1), 1);
    assert_eq!(isqrt(24), 4);
    assert_eq!(isqrt(25), 5);
    assert_eq!(isqrt(26), 5);
    assert_eq!(isqrt_ceil(25), 5);
    assert_eq!(isqrt_ceil(26), 6);
    assert_eq!(isqrt_ceil(0), 0);
}

#[test]
fn clamp_len_exact_values() {
    let v = V2 { x: 600, y: 0 };
    let c = v.clamp_len(500);
    assert_eq!((c.x, c.y), (500, 0));

    let under = V2 { x: 300, y: 400 };
    let c2 = under.clamp_len(500);
    assert_eq!((c2.x, c2.y), (300, 400));

    let long = V2 { x: 600, y: 800 };
    let c3 = long.clamp_len(500);
    assert_eq!((c3.x, c3.y), (300, 400));
}

#[test]
fn viewport_from_size_centered() {
    let vp = Viewport::from_size(800, 600);
    assert_eq!(vp.min_x, -400);
    assert_eq!(vp.max_x, 400);
    assert_eq!(vp.min_y, -300);
    assert_eq!(vp.max_y, 300);
}

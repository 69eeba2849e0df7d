use shooting_core::geom::{clamp_i64, overlaps, Aabb, Vec2i};
use shooting_core::score::Score;
use shooting_core::timer::{Countdown, RepeatTimer};

fn boxed(cx: i64, cy: i64, hx: i64, hy: i64) -> Aabb {
    Aabb { center: Vec2i { x: cx, y: cy }, half: Vec2i { x: hx, y: hy } }
}

#[test]
fn repeat_timer_carries_remainder() {
    let mut t = RepeatTimer::new(400);
    assert_eq!(t.tick(399), 0);
    assert_eq!(t.elapsed_ms, 399);
    assert_eq!(t.tick(1), 1);
    assert_eq!(t.elapsed_ms, 0);
    // Two interval boundaries crossed in one update fire twice.
    assert_eq!(t.tick(1000), 2);
    assert_eq!(t.elapsed_ms, 200);
}

#[test]
fn countdown_finishes_exactly_once() {
    let mut c = Countdown::new(500);
    assert!(!c.tick(300));
    assert_eq!(c.elapsed_ms, 300);
    assert!(c.tick(200));
    assert!(!c.tick(100));
    assert_eq!(c.elapsed_ms, 500);
}

#[test]
fn countdown_overshoot_saturates() {
    let mut c = Countdown::new(100);
    assert!(c.tick(1000));
    assert_eq!(c.elapsed_ms, 100);
}

#[test]
fn clamp_pins_into_range() {
    assert_eq!(clamp_i64(5, 0, 3), 3);
    assert_eq!(clamp_i64(-5, 0, 3), 0);
    assert_eq!(clamp_i64(2, 0, 3), 2);
}

#[test]
fn overlap_is_symmetric() {
    let a = boxed(0, 0, 10, 10);
    let b = boxed(15, 5, 10, 10);
    let c = boxed(100, 100, 10, 10);
    assert_eq!(overlaps(&a, &b), overlaps(&b, &a));
    assert!(overlaps(&a, &b));
    assert_eq!(overlaps(&a, &c), overlaps(&c, &a));
    assert!(!overlaps(&a, &c));
}

#[test]
fn overlap_includes_touching_edges() {
    let a = boxed(0, 0, 10, 10);
    let touching = boxed(20, 0, 10, 10);
    let apart = boxed(21, 0, 10, 10);
    assert!(overlaps(&a, &touching));
    assert!(!overlaps(&a, &apart));
}

#[test]
fn score_multipliers_are_exact() {
    let mut s = Score::new();
    s.add_fighter_kills(3);
    s.add_torpedo_kills(2);
    assert_eq!(s.sum_fighter(), 30);
    assert_eq!(s.sum_torpedo(), 100);
    assert_eq!(s.sum(), 130);
    let r = Score::reset();
    assert_eq!(r.sum(), 0);
}

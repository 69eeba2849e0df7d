use shooting_core::entity::{Affiliation, ShipKind, Store};
use shooting_core::geom::Vec2i;
use shooting_core::input::{translate, FrameInput, Key};
use shooting_core::motion::{
    apply_motion, bounce_enemies, move_player, CAMERA_SCROLL, PLAYER_MARGIN, PLAYER_STEP,
    WINDOW_HALF_W,
};
use shooting_core::timer::RepeatTimer;

fn v(x: i64, y: i64) -> Vec2i {
    Vec2i { x, y }
}

fn add_ship(store: &mut Store, kind: ShipKind, pos: Vec2i, vel: Vec2i, hp: u32) -> u64 {
    store.create_ship(kind, pos, vel, v(960_000, 960_000), hp, RepeatTimer::new(500))
}

#[test]
fn identities_are_fresh_and_distinct() {
    let mut store = Store::new();
    let a = add_ship(&mut store, ShipKind::Fighter, v(0, 0), v(0, 0), 1);
    let b = add_ship(&mut store, ShipKind::Fighter, v(0, 0), v(0, 0), 1);
    assert_ne!(a, b);
    let c = store.create_bullet(Affiliation::Enemy, v(0, 0), v(0, 0), v(1000, 1000));
    assert_ne!(a, c);
    assert_ne!(b, c);
}

#[test]
fn remove_is_idempotent() {
    let mut store = Store::new();
    let a = add_ship(&mut store, ShipKind::Fighter, v(0, 0), v(0, 0), 1);
    let b = add_ship(&mut store, ShipKind::Torpedo, v(5, 5), v(0, 0), 3);
    assert_eq!(store.ships.len(), 2);
    store.remove_ship(a);
    assert_eq!(store.ships.len(), 1);
    let after_once = store.ships.clone();
    // Removing the same identity again is a no-op, not an error.
    store.remove_ship(a);
    assert_eq!(store.ships, after_once);
    assert_eq!(store.ships[0].id, b);
    // An identity that never existed is a no-op too.
    store.remove_ship(9999);
    assert_eq!(store.ships, after_once);
}

#[test]
fn remove_bullet_is_idempotent() {
    let mut store = Store::new();
    let a = store.create_bullet(Affiliation::Player, v(0, 0), v(0, 0), v(1000, 1000));
    let _b = store.create_bullet(Affiliation::Enemy, v(1, 1), v(0, 0), v(1000, 1000));
    store.remove_bullet(a);
    let after_once = store.bullets.clone();
    store.remove_bullet(a);
    assert_eq!(store.bullets, after_once);
    assert_eq!(store.bullets.len(), 1);
}

#[test]
fn count_and_player_lookup() {
    let mut store = Store::new();
    add_ship(&mut store, ShipKind::Fighter, v(0, 0), v(0, 0), 1);
    add_ship(&mut store, ShipKind::Fighter, v(1, 1), v(0, 0), 1);
    add_ship(&mut store, ShipKind::Torpedo, v(2, 2), v(0, 0), 3);
    assert_eq!(store.count_kind(ShipKind::Fighter), 2);
    assert_eq!(store.count_kind(ShipKind::Torpedo), 1);
    assert_eq!(store.count_kind(ShipKind::PlayerShip), 0);
    assert!(store.player().is_none());
    let p = add_ship(&mut store, ShipKind::PlayerShip, v(3, 3), v(0, 0), 8);
    let found = store.player().expect("player is alive");
    assert_eq!(found.id, p);
}

#[test]
fn typed_iteration_is_a_snapshot() {
    let mut store = Store::new();
    let f1 = add_ship(&mut store, ShipKind::Fighter, v(0, 0), v(0, 0), 1);
    add_ship(&mut store, ShipKind::Torpedo, v(1, 1), v(0, 0), 3);
    let f2 = add_ship(&mut store, ShipKind::Fighter, v(2, 2), v(0, 0), 1);
    let fighters = store.ships_of_kind(ShipKind::Fighter);
    assert_eq!(fighters.len(), 2);
    assert_eq!(fighters[0].id, f1);
    assert_eq!(fighters[1].id, f2);
    // Removing a ship afterwards does not disturb the snapshot in hand.
    store.remove_ship(f1);
    assert_eq!(fighters.len(), 2);
    assert_eq!(store.ships_of_kind(ShipKind::Fighter).len(), 1);
}

#[test]
fn zero_velocity_moves_only_by_camera_scroll() {
    let mut store = Store::new();
    add_ship(&mut store, ShipKind::Fighter, v(100, 200), v(0, 0), 1);
    store.create_bullet(Affiliation::Enemy, v(-50, 10), v(0, 0), v(1000, 1000));
    for _ in 0..5 {
        apply_motion(&mut store);
    }
    // x stays put, y gains exactly the scroll increment per tick.
    assert_eq!(store.ships[0].pos, v(100, 200 + 5 * CAMERA_SCROLL));
    assert_eq!(store.bullets[0].pos, v(-50, 10 + 5 * CAMERA_SCROLL));
}

#[test]
fn velocity_integration_is_exact() {
    let mut store = Store::new();
    add_ship(&mut store, ShipKind::Fighter, v(1000, 2000), v(256_000, -12_800), 1);
    apply_motion(&mut store);
    assert_eq!(store.ships[0].pos, v(1000 + 256_000, 2000 - 12_800 + CAMERA_SCROLL));
}

#[test]
fn player_is_clamped_to_the_viewport() {
    let mut store = Store::new();
    add_ship(&mut store, ShipKind::PlayerShip, v(17_000_000, 0), v(0, 0), 8);
    // A hard push to the right stops at the viewport margin.
    move_player(&mut store, 10, 0, v(0, 0));
    assert_eq!(store.ships[0].pos.x, WINDOW_HALF_W - PLAYER_MARGIN);
    // One unit left moves by exactly one step.
    let x = store.ships[0].pos.x;
    move_player(&mut store, -1, 0, v(0, 0));
    assert_eq!(store.ships[0].pos.x, x - PLAYER_STEP);
}

#[test]
fn enemies_bounce_on_viewport_bounds() {
    let mut store = Store::new();
    add_ship(&mut store, ShipKind::Fighter, v(19_000_000, 0), v(256_000, -12_800), 1);
    add_ship(&mut store, ShipKind::Fighter, v(0, 0), v(256_000, -12_800), 1);
    bounce_enemies(&mut store);
    assert_eq!(store.ships[0].vel.x, -256_000);
    assert_eq!(store.ships[1].vel.x, 256_000);
}

#[test]
fn direction_is_the_sum_of_held_keys() {
    let input = FrameInput {
        held: vec![Key::ArrowLeft, Key::KeyA, Key::ArrowUp, Key::Other],
        pressed: vec![],
        mouse_pressed: false,
    };
    let intent = translate(&input);
    // Two left keys stack: diagonal or doubled input is not normalized.
    assert_eq!(intent.move_x, -2);
    assert_eq!(intent.move_y, 1);
    assert!(!intent.fire);
    assert!(!intent.start);
}

#[test]
fn action_edges_come_from_just_pressed_keys() {
    let input = FrameInput {
        held: vec![],
        pressed: vec![Key::Space, Key::KeyR],
        mouse_pressed: false,
    };
    let intent = translate(&input);
    assert!(intent.fire);
    assert!(intent.retry);
    assert!(!intent.to_menu);
    assert!(intent.start);
    let mouse_only = FrameInput { held: vec![], pressed: vec![], mouse_pressed: true };
    assert!(translate(&mouse_only).start);
}

use shooting_core::entity::{Affiliation, ShipKind, Store};
use shooting_core::geom::Vec2i;
use shooting_core::spawn::{
    aim_velocity, enemy_fire, isqrt_u128, player_fire, spawn_fighter_with, try_spawn_fighter,
    try_spawn_torpedo, FIGHTER_COOLDOWN_MAX_MS, FIGHTER_COOLDOWN_MIN_MS, FIGHTER_SPAWN_Y_MAX,
    FIGHTER_SPAWN_Y_MIN, GRID, MUZZLE_OFFSET, PLAYER_BULLET_SPEED, SPAWN_X_RANGE,
};
use shooting_core::timer::RepeatTimer;

fn v(x: i64, y: i64) -> Vec2i {
    Vec2i { x, y }
}

fn add_ship(store: &mut Store, kind: ShipKind, pos: Vec2i, hp: u32, cooldown_ms: u64) -> u64 {
    store.create_ship(
        kind,
        pos,
        v(0, 0),
        v(960_000, 960_000),
        hp,
        RepeatTimer::new(cooldown_ms),
    )
}

#[test]
fn integer_square_roots_are_exact() {
    assert_eq!(isqrt_u128(0), 0);
    assert_eq!(isqrt_u128(1), 1);
    assert_eq!(isqrt_u128(3), 1);
    assert_eq!(isqrt_u128(4), 2);
    assert_eq!(isqrt_u128(999_999), 999);
    assert_eq!(isqrt_u128(1_000_000_000_000), 1_000_000);
}

#[test]
fn aimed_velocity_scales_the_displacement() {
    // A 3-4-5 triangle scales exactly.
    let vel = aim_velocity(v(0, 0), v(300, 400), 500);
    assert_eq!(vel, v(300, 400));
    let vel = aim_velocity(v(0, 0), v(-300, 400), 500);
    assert_eq!(vel, v(-300, 400));
    // Straight below: full speed down.
    let vel = aim_velocity(v(0, 0), v(0, -1000), 256_000);
    assert_eq!(vel, v(0, -256_000));
    // A target on the muzzle falls straight down.
    let vel = aim_velocity(v(7, 7), v(7, 7), 256_000);
    assert_eq!(vel, v(0, -256_000));
}

#[test]
fn fighter_spawner_honors_the_concurrency_cap() {
    let mut store = Store::new();
    let cam = v(0, 0);
    for i in 0..4 {
        let spawned = spawn_fighter_with(&mut store, cam, i * GRID, FIGHTER_SPAWN_Y_MIN, true, 500);
        assert!(spawned);
    }
    assert_eq!(store.count_kind(ShipKind::Fighter), 4);
    // The fifth attempt produces no new entity.
    let spawned = spawn_fighter_with(&mut store, cam, 0, FIGHTER_SPAWN_Y_MIN, true, 500);
    assert!(!spawned);
    assert_eq!(store.count_kind(ShipKind::Fighter), 4);
    // After one fighter dies, the next attempt spawns again.
    let victim = store.ships[0].id;
    store.remove_ship(victim);
    let spawned = spawn_fighter_with(&mut store, cam, 0, FIGHTER_SPAWN_Y_MIN, true, 500);
    assert!(spawned);
    assert_eq!(store.count_kind(ShipKind::Fighter), 4);
}

#[test]
fn random_fighter_spawn_stays_in_its_ranges() {
    for _ in 0..32 {
        let mut store = Store::new();
        let cam = v(4_000_000, -2_000_000);
        assert!(try_spawn_fighter(&mut store, cam));
        let s = store.ships[0];
        assert_eq!(s.kind, ShipKind::Fighter);
        assert!(-SPAWN_X_RANGE <= s.pos.x && s.pos.x <= SPAWN_X_RANGE);
        assert!(FIGHTER_SPAWN_Y_MIN <= s.pos.y - cam.y && s.pos.y - cam.y <= FIGHTER_SPAWN_Y_MAX);
        assert!(
            FIGHTER_COOLDOWN_MIN_MS <= s.cooldown.duration_ms
                && s.cooldown.duration_ms <= FIGHTER_COOLDOWN_MAX_MS
        );
        assert!(s.vel == v(256_000, -12_800) || s.vel == v(-256_000, 12_800));
    }
}

#[test]
fn torpedo_spawner_needs_wave_and_cap() {
    let cam = v(0, 0);
    // No fighter went down this tick: no spawn.
    let mut store = Store::new();
    assert!(!try_spawn_torpedo(&mut store, cam, 10, false));
    // Kill count off the wave threshold: no spawn.
    assert!(!try_spawn_torpedo(&mut store, cam, 7, true));
    // Zero kills is not a positive multiple.
    assert!(!try_spawn_torpedo(&mut store, cam, 0, true));
    // A full wave spawns one torpedo ship.
    assert!(try_spawn_torpedo(&mut store, cam, 10, true));
    assert_eq!(store.count_kind(ShipKind::Torpedo), 1);
    // The concurrency cap refuses a second one.
    assert!(!try_spawn_torpedo(&mut store, cam, 10, true));
}

#[test]
fn firing_with_empty_pool_changes_nothing() {
    let mut store = Store::new();
    add_ship(&mut store, ShipKind::PlayerShip, v(0, 0), 8, 500);
    let mut ammo: u32 = 0;
    let fired = player_fire(&mut store, &mut ammo, true);
    assert!(!fired);
    assert_eq!(ammo, 0);
    assert_eq!(store.bullets.len(), 0);
}

#[test]
fn player_shot_spends_one_round() {
    let mut store = Store::new();
    add_ship(&mut store, ShipKind::PlayerShip, v(100, 200), 8, 500);
    let mut ammo: u32 = 3;
    assert!(player_fire(&mut store, &mut ammo, true));
    assert_eq!(ammo, 2);
    assert_eq!(store.bullets.len(), 1);
    let b = store.bullets[0];
    assert_eq!(b.shooter, Affiliation::Player);
    assert_eq!(b.pos, v(100, 200 + MUZZLE_OFFSET));
    assert_eq!(b.vel, v(0, PLAYER_BULLET_SPEED));
    // Without a fire edge nothing happens.
    assert!(!player_fire(&mut store, &mut ammo, false));
    assert_eq!(ammo, 2);
    assert_eq!(store.bullets.len(), 1);
}

#[test]
fn enemy_cooldowns_gate_their_shots() {
    let mut store = Store::new();
    add_ship(&mut store, ShipKind::Fighter, v(1000, 5_000_000), 1, 400);
    // Short of the interval: no shot, but the elapsed time advances.
    assert_eq!(enemy_fire(&mut store, 399), 0);
    assert_eq!(store.bullets.len(), 0);
    assert_eq!(store.ships[0].cooldown.elapsed_ms, 399);
    // Crossing the interval fires once, straight down from the muzzle.
    assert_eq!(enemy_fire(&mut store, 1), 1);
    assert_eq!(store.bullets.len(), 1);
    let b = store.bullets[0];
    assert_eq!(b.shooter, Affiliation::Enemy);
    assert_eq!(b.pos, v(1000, 5_000_000 - MUZZLE_OFFSET));
    assert_eq!(b.vel, v(0, -256_000));
}

#[test]
fn torpedo_aims_at_the_player_when_firing() {
    let mut store = Store::new();
    add_ship(&mut store, ShipKind::Torpedo, v(0, 0), 3, 1500);
    // Without a player the torpedo holds its fire and its cooldown.
    assert_eq!(enemy_fire(&mut store, 2000), 0);
    assert_eq!(store.ships[0].cooldown.elapsed_ms, 0);
    // With a player right below the muzzle the shot goes straight down.
    add_ship(&mut store, ShipKind::PlayerShip, v(0, -MUZZLE_OFFSET - 5_000_000), 8, 500);
    assert_eq!(enemy_fire(&mut store, 1500), 1);
    let b = store.bullets[0];
    assert_eq!(b.shooter, Affiliation::Enemy);
    assert_eq!(b.vel, v(0, -256_000));
}

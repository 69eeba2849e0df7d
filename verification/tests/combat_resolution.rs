use shooting_core::combat::{
    apply_damage, consume_hit_bullets, cull_dead, cull_offscreen, detect_hits,
};
use shooting_core::entity::{Affiliation, ShipKind, Store};
use shooting_core::geom::Vec2i;
use shooting_core::motion::{WINDOW_HALF_H, WINDOW_HALF_W};
use shooting_core::score::Score;
use shooting_core::timer::RepeatTimer;

fn v(x: i64, y: i64) -> Vec2i {
    Vec2i { x, y }
}

fn add_ship(store: &mut Store, kind: ShipKind, pos: Vec2i, hp: u32) -> u64 {
    store.create_ship(
        kind,
        pos,
        v(0, 0),
        v(960_000, 960_000),
        hp,
        RepeatTimer::new(500),
    )
}

fn add_bullet(store: &mut Store, shooter: Affiliation, pos: Vec2i) -> u64 {
    store.create_bullet(shooter, pos, v(0, 0), v(240_000, 960_000))
}

#[test]
fn same_affiliation_overlap_is_no_hit() {
    let mut store = Store::new();
    add_ship(&mut store, ShipKind::Fighter, v(0, 0), 1);
    // An enemy bullet right on the enemy ship: no damage event.
    add_bullet(&mut store, Affiliation::Enemy, v(0, 0));
    let hits = detect_hits(&store);
    assert!(hits.is_empty());
    // A player bullet at the same spot does hit the enemy.
    add_bullet(&mut store, Affiliation::Player, v(0, 0));
    let hits = detect_hits(&store);
    assert_eq!(hits.len(), 1);
}

#[test]
fn first_overlapping_ship_wins_the_tie() {
    let mut store = Store::new();
    let first = add_ship(&mut store, ShipKind::Fighter, v(0, 0), 1);
    let _second = add_ship(&mut store, ShipKind::Fighter, v(100, 100), 1);
    let bullet = add_bullet(&mut store, Affiliation::Player, v(50, 50));
    let hits = detect_hits(&store);
    // One bullet yields one event, against the first ship in order.
    assert_eq!(hits.len(), 1);
    assert_eq!(hits[0].bullet, bullet);
    assert_eq!(hits[0].target, first);
}

#[test]
fn consumed_player_bullets_return_their_shot() {
    let mut store = Store::new();
    add_ship(&mut store, ShipKind::Fighter, v(0, 0), 1);
    add_bullet(&mut store, Affiliation::Player, v(0, 0));
    let far = add_bullet(&mut store, Affiliation::Player, v(10_000_000, 0));
    let mut ammo: u32 = 1;
    consume_hit_bullets(&mut store, &mut ammo);
    assert_eq!(ammo, 2);
    assert_eq!(store.bullets.len(), 1);
    assert_eq!(store.bullets[0].id, far);
}

#[test]
fn hp_drops_by_exactly_the_detected_hits() {
    let mut store = Store::new();
    let a = add_ship(&mut store, ShipKind::Torpedo, v(0, 0), 3);
    let b = add_ship(&mut store, ShipKind::Torpedo, v(10_000_000, 0), 3);
    add_bullet(&mut store, Affiliation::Player, v(0, 0));
    add_bullet(&mut store, Affiliation::Player, v(100, 0));
    let hits = detect_hits(&store);
    assert_eq!(hits.len(), 2);
    apply_damage(&mut store, &hits);
    let ship_a = store.ships.iter().find(|s| s.id == a).unwrap();
    let ship_b = store.ships.iter().find(|s| s.id == b).unwrap();
    // Exactly two hits were detected against the first ship, none against
    // the second.
    assert_eq!(ship_a.hp, 1);
    assert_eq!(ship_b.hp, 3);
}

#[test]
fn damage_saturates_at_zero() {
    let mut store = Store::new();
    add_ship(&mut store, ShipKind::Fighter, v(0, 0), 1);
    add_bullet(&mut store, Affiliation::Player, v(0, 0));
    add_bullet(&mut store, Affiliation::Player, v(50, 0));
    add_bullet(&mut store, Affiliation::Player, v(-50, 0));
    let hits = detect_hits(&store);
    assert_eq!(hits.len(), 3);
    apply_damage(&mut store, &hits);
    assert_eq!(store.ships[0].hp, 0);
}

#[test]
fn culling_emits_one_event_and_scores_once() {
    let mut store = Store::new();
    let dead_fighter = add_ship(&mut store, ShipKind::Fighter, v(123, 456), 0);
    add_ship(&mut store, ShipKind::Fighter, v(0, 0), 1);
    add_ship(&mut store, ShipKind::Torpedo, v(5, 5), 0);
    let mut score = Score::new();
    let out = cull_dead(&mut store, &mut score);
    assert_eq!(out.events.len(), 2);
    assert_eq!(out.events[0].id, dead_fighter);
    assert_eq!(out.events[0].kind, ShipKind::Fighter);
    assert_eq!(out.events[0].pos, v(123, 456));
    assert!(out.fighter_down);
    assert!(!out.player_down);
    assert_eq!(score.fighter, 1);
    assert_eq!(score.torpedo, 1);
    assert_eq!(score.sum(), 60);
    assert_eq!(store.ships.len(), 1);
    assert_eq!(store.ships[0].hp, 1);
}

#[test]
fn player_death_is_flagged_by_culling() {
    let mut store = Store::new();
    add_ship(&mut store, ShipKind::PlayerShip, v(0, 0), 0);
    let mut score = Score::new();
    let out = cull_dead(&mut store, &mut score);
    assert!(out.player_down);
    assert_eq!(out.events.len(), 1);
    assert_eq!(out.events[0].kind, ShipKind::PlayerShip);
    // A destroyed player scores nothing.
    assert_eq!(score.sum(), 0);
}

#[test]
fn offscreen_bullets_are_culled_and_return_ammo() {
    let mut store = Store::new();
    let cam = v(0, 0);
    // Touching the expanded lower edge counts as outside.
    let edge_y = -(WINDOW_HALF_H + 960_000);
    let gone = add_bullet(&mut store, Affiliation::Player, v(0, edge_y));
    let kept = add_bullet(&mut store, Affiliation::Player, v(0, edge_y + 1));
    let enemy_gone = add_bullet(&mut store, Affiliation::Enemy, v(WINDOW_HALF_W + 240_000, 0));
    let mut ammo: u32 = 1;
    let removed = cull_offscreen(&mut store, &mut ammo, cam);
    assert_eq!(removed, vec![gone, enemy_gone]);
    // Only the player bullet returns a shot.
    assert_eq!(ammo, 2);
    assert_eq!(store.bullets.len(), 1);
    assert_eq!(store.bullets[0].id, kept);
}

#[test]
fn a_bullet_leaves_by_hit_or_offscreen_never_both() {
    let mut store = Store::new();
    add_ship(&mut store, ShipKind::Fighter, v(0, 0), 1);
    // One bullet hits; another is far outside the screen.
    let hitter = add_bullet(&mut store, Affiliation::Player, v(0, 0));
    let drifter = add_bullet(&mut store, Affiliation::Player, v(0, -30_000_000));
    let hits = detect_hits(&store);
    let mut ammo: u32 = 0;
    consume_hit_bullets(&mut store, &mut ammo);
    let removed = cull_offscreen(&mut store, &mut ammo, v(0, 0));
    assert_eq!(hits.len(), 1);
    assert_eq!(hits[0].bullet, hitter);
    assert_eq!(removed, vec![drifter]);
    // Both shots returned, each exactly once.
    assert_eq!(ammo, 2);
    assert!(store.bullets.is_empty());
}

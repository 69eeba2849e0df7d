use shooting_core::entity::{Affiliation, ShipKind};
use shooting_core::geom::Vec2i;
use shooting_core::input::{FrameInput, Key};
use shooting_core::spawn::{PLAYER_AMMO_MAX, PLAYER_HP};
use shooting_core::state::{next_state, AppState};
use shooting_core::world::World;

fn v(x: i64, y: i64) -> Vec2i {
    Vec2i { x, y }
}

fn idle() -> FrameInput {
    FrameInput { held: vec![], pressed: vec![], mouse_pressed: false }
}

fn press(keys: Vec<Key>) -> FrameInput {
    FrameInput { held: vec![], pressed: keys, mouse_pressed: false }
}

fn click() -> FrameInput {
    FrameInput { held: vec![], pressed: vec![], mouse_pressed: true }
}

#[test]
fn menu_waits_until_a_press_starts_the_game() {
    let mut w = World::new();
    assert_eq!(w.state, AppState::Mainmenu);
    w.tick(&idle(), 16);
    assert_eq!(w.state, AppState::Mainmenu);
    assert!(w.store.ships.is_empty());
    w.tick(&click(), 16);
    assert_eq!(w.state, AppState::Ingame);
    let player = w.store.player().expect("the run starts with a player ship");
    assert_eq!(player.hp, PLAYER_HP);
    assert_eq!(w.ammo, PLAYER_AMMO_MAX);
}

#[test]
fn enemy_hits_wear_the_player_down_to_game_over() {
    let mut w = World::new();
    w.tick(&click(), 16);
    assert_eq!(w.state, AppState::Ingame);
    assert_eq!(w.store.player().unwrap().hp, 8);

    let mut despawn_events = 0;
    for expected_hp in (0..8).rev() {
        // Plant one enemy bullet right on the player, then run the tick.
        let player = w.store.player().expect("player is still alive");
        w.store.create_bullet(Affiliation::Enemy, player.pos, v(0, 0), v(240_000, 960_000));
        let out = w.tick(&idle(), 0);
        if expected_hp > 0 {
            // One detected hit: the hit points drop by exactly one and the
            // ship stays.
            assert_eq!(w.store.player().unwrap().hp, expected_hp);
            assert!(!out.player_died);
            assert_eq!(w.state, AppState::Ingame);
        } else {
            // The hit that reaches zero removes the ship in the same tick,
            // emits exactly one despawn event, and ends the run.
            assert!(out.player_died);
            assert_eq!(w.state, AppState::Gameover);
            assert!(w.store.ships.is_empty());
            assert!(w.store.bullets.is_empty());
            for e in &out.ship_despawns {
                if e.kind == ShipKind::PlayerShip {
                    despawn_events += 1;
                }
            }
        }
    }
    assert_eq!(despawn_events, 1);
}

#[test]
fn retry_resets_score_and_life() {
    let mut w = World::new();
    w.state = AppState::Gameover;
    w.score.fighter = 12;
    w.score.torpedo = 3;
    w.camera = v(0, 7_000_000);
    let out = w.tick(&press(vec![Key::KeyR]), 16);
    assert!(!out.player_died);
    assert_eq!(w.state, AppState::Ingame);
    assert_eq!(w.score.sum(), 0);
    assert_eq!(w.camera, v(0, 0));
    assert_eq!(w.store.player().unwrap().hp, PLAYER_HP);
    assert_eq!(w.ammo, PLAYER_AMMO_MAX);
}

#[test]
fn back_to_menu_also_resets_the_run() {
    let mut w = World::new();
    w.state = AppState::Gameover;
    w.score.fighter = 4;
    w.camera = v(0, 9_000_000);
    w.tick(&press(vec![Key::KeyB]), 16);
    assert_eq!(w.state, AppState::Mainmenu);
    assert_eq!(w.score.sum(), 0);
    assert_eq!(w.camera, v(0, 0));
    assert!(w.store.ships.is_empty());
}

#[test]
fn game_over_without_an_edge_stays_put() {
    let mut w = World::new();
    w.state = AppState::Gameover;
    w.score.fighter = 4;
    w.tick(&idle(), 16);
    assert_eq!(w.state, AppState::Gameover);
    assert_eq!(w.score.fighter, 4);
}

#[test]
fn retry_wins_over_back_to_menu() {
    let mut w = World::new();
    w.state = AppState::Gameover;
    w.tick(&press(vec![Key::KeyB, Key::KeyR]), 16);
    assert_eq!(w.state, AppState::Ingame);
}

#[test]
fn transition_rules_match_the_triggers() {
    assert_eq!(next_state(AppState::Mainmenu, true, false, false, false), AppState::Ingame);
    assert_eq!(next_state(AppState::Mainmenu, false, true, true, true), AppState::Mainmenu);
    assert_eq!(next_state(AppState::Ingame, true, true, true, false), AppState::Ingame);
    assert_eq!(next_state(AppState::Ingame, false, false, false, true), AppState::Gameover);
    assert_eq!(next_state(AppState::Gameover, true, false, true, false), AppState::Mainmenu);
    assert_eq!(next_state(AppState::Gameover, false, true, true, false), AppState::Ingame);
    assert_eq!(next_state(AppState::Gameover, true, false, false, false), AppState::Gameover);
}

#[test]
fn the_camera_scrolls_each_ingame_tick() {
    let mut w = World::new();
    w.tick(&click(), 16);
    let y0 = w.camera.y;
    w.tick(&idle(), 16);
    w.tick(&idle(), 16);
    assert_eq!(w.camera.y, y0 + 2 * shooting_core::motion::CAMERA_SCROLL);
}

#[test]
fn player_shots_conserve_the_ammo_pool() {
    let mut w = World::new();
    w.tick(&click(), 16);
    // Fire once: the shot is in flight, the pool is one short.
    let out = w.tick(&press(vec![Key::Space]), 0);
    assert!(out.shot_fired);
    let in_flight = w
        .store
        .bullets
        .iter()
        .filter(|b| b.shooter == Affiliation::Player)
        .count() as u32;
    assert_eq!(in_flight, 1);
    assert_eq!(w.ammo + in_flight, PLAYER_AMMO_MAX);
    // Without a new edge the next tick fires nothing.
    let out = w.tick(&idle(), 0);
    assert!(!out.shot_fired);
}

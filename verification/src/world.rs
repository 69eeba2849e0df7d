//! The world context: every shared resource of the simulation in one
//! struct, and the fixed-rate tick that drives the whole pipeline in its
//! load-bearing order: input, spawning, shooting, movement, collision
//! detection, damage application, lifecycle culling, state transition.

use vstd::prelude::*;

use crate::combat::{
    apply_damage, consume_hit_bullets, cull_dead, cull_offscreen, detect_hits, detect_hits_spec,
    lemma_bullet_removed_once, lemma_dead_records_kind, lemma_hit_count_zero,
    lemma_player_bullet_count_append_enemy, lemma_player_bullet_count_moved,
    lemma_player_bullet_count_nonneg, DespawnRecord, HitRecord,
};
use crate::entity::{player_bullet_count, Ship, ShipKind, Store};
use crate::geom::{clamp_i64, Vec2i, CAMERA_LIMIT};
use crate::input::{translate, FrameInput, Key, HELD_KEYS_LIMIT};
use crate::motion::{apply_motion, bounce_enemies, move_player, CAMERA_SCROLL};
use crate::score::Score;
use crate::spawn::{
    enemy_fire, lemma_emitted_all_enemy, player_fire, try_spawn_fighter, try_spawn_torpedo,
    PLAYER_AMMO_MAX, PLAYER_HALF, PLAYER_HP, PLAYER_SPAWN_Y,
};
use crate::state::{next_state_spec, AppState};
use crate::timer::{RepeatTimer, DELTA_LIMIT_MS};

verus! {

/// Interval of the player ship's timer field.  The player's weapon is
/// edge-triggered by input, so this timer gates nothing.
pub const PLAYER_COOLDOWN_MS: u64 = 1000;

/// The player ship a fresh run starts with, just below the camera center.
pub open spec fn fresh_player_ship(id: u64, cam: Vec2i) -> Ship {
    Ship {
        id,
        kind: ShipKind::PlayerShip,
        pos: Vec2i { x: cam.x, y: (cam.y + PLAYER_SPAWN_Y) as i64 },
        vel: Vec2i { x: 0, y: 0 },
        half: Vec2i { x: PLAYER_HALF, y: PLAYER_HALF },
        hp: PLAYER_HP,
        cooldown: RepeatTimer { duration_ms: PLAYER_COOLDOWN_MS, elapsed_ms: 0 },
    }
}

/// Everything one tick reports to the shell around the core: the detected
/// hits, the removed ships, the bullets that left the screen, and the two
/// sound/transition flags.
pub struct TickOutput {
    pub hits: Vec<HitRecord>,
    pub ship_despawns: Vec<DespawnRecord>,
    pub bullets_offscreen: Vec<u64>,
    pub shot_fired: bool,
    pub player_died: bool,
}

/// The world holds a fresh run: exactly the new player ship, no bullets, a
/// full ammo pool, and an empty despawn mailbox.
pub open spec fn run_started(w: World, id: u64, cam: Vec2i) -> bool {
    &&& w.store.ships@ == seq![fresh_player_ship(id, cam)]
    &&& w.store.bullets@.len() == 0
    &&& w.ammo == PLAYER_AMMO_MAX
    &&& !w.fighter_down
}

/// The whole mutable state of the simulation: the current application
/// state, the entity store, the scrolling camera, the score, the player's
/// ammo pool, and the one-tick mailbox that reports a destroyed fighter to
/// the torpedo spawner.
pub struct World {
    pub state: AppState,
    pub store: Store,
    pub camera: Vec2i,
    pub score: Score,
    pub ammo: u32,
    pub fighter_down: bool,
}

impl World {
    /// Well-formed: the store invariants hold, the camera stays inside its
    /// margin, and the ammo pool plus the live player bullets never exceed
    /// the pool size — every shot is either in the pool or in flight.
    pub open spec fn wf(self) -> bool {
        &&& self.store.wf()
        &&& -CAMERA_LIMIT <= self.camera.x <= CAMERA_LIMIT
        &&& -CAMERA_LIMIT <= self.camera.y <= CAMERA_LIMIT
        &&& self.ammo + player_bullet_count(self.store.bullets@) <= PLAYER_AMMO_MAX
    }

    /// A fresh world on the main menu.
    pub fn new() -> (w: World)
        ensures
            w.wf(),
            w.state == AppState::Mainmenu,
            w.store.ships@.len() == 0,
            w.store.bullets@.len() == 0,
            w.store.next_id == 0,
            w.camera == (Vec2i { x: 0, y: 0 }),
            w.score.fighter == 0,
            w.score.torpedo == 0,
            w.ammo == PLAYER_AMMO_MAX,
            !w.fighter_down,
    {
        World {
            state: AppState::Mainmenu,
            store: Store::new(),
            camera: Vec2i { x: 0, y: 0 },
            score: Score::new(),
            ammo: PLAYER_AMMO_MAX,
            fighter_down: false,
        }
    }

    /// Enter-hook of the running game: despawn whatever is left, reset the
    /// camera to the origin, spawn the player ship below the camera center,
    /// refill the ammo pool and clear the despawn mailbox.  The application
    /// state itself is set by the caller.
    pub fn enter_ingame(&mut self)
        requires
            old(self).wf(),
            old(self).store.next_id < u64::MAX,
        ensures
            final(self).wf(),
            final(self).state == old(self).state,
            final(self).camera == (Vec2i { x: 0, y: 0 }),
            final(self).score == old(self).score,
            final(self).store.ships@ == seq![
                fresh_player_ship(old(self).store.next_id, Vec2i { x: 0, y: 0 }),
            ],
            final(self).store.bullets@.len() == 0,
            final(self).store.next_id == old(self).store.next_id + 1,
            final(self).ammo == PLAYER_AMMO_MAX,
            !final(self).fighter_down,
    {
        self.store.clear();
        self.camera = Vec2i { x: 0, y: 0 };
        let pos = Vec2i { x: self.camera.x, y: self.camera.y + PLAYER_SPAWN_Y };
        let cooldown = RepeatTimer::new(PLAYER_COOLDOWN_MS);
        self.store.create_ship(
            ShipKind::PlayerShip,
            pos,
            Vec2i { x: 0, y: 0 },
            Vec2i { x: PLAYER_HALF, y: PLAYER_HALF },
            PLAYER_HP,
            cooldown,
        );
        self.ammo = PLAYER_AMMO_MAX;
        self.fighter_down = false;
        proof {
            assert(self.store.ships@ =~= seq![
                fresh_player_ship(old(self).store.next_id, Vec2i { x: 0, y: 0 }),
            ]);
        }
    }

    /// Exit-hook of the running game: despawn every ship and bullet,
    /// whatever the reason for leaving.
    pub fn exit_ingame(&mut self)
        requires
            old(self).wf(),
        ensures
            final(self).wf(),
            final(self).state == old(self).state,
            final(self).camera == old(self).camera,
            final(self).score == old(self).score,
            final(self).ammo == old(self).ammo,
            final(self).fighter_down == old(self).fighter_down,
            final(self).store.ships@.len() == 0,
            final(self).store.bullets@.len() == 0,
            final(self).store.next_id == old(self).store.next_id,
    {
        proof {
            lemma_player_bullet_count_nonneg(self.store.bullets@);
        }
        self.store.clear();
    }

    /// Exit-hook of the game-over screen: reset the score, the camera and
    /// the per-run mailboxes, and tear the old run down.
    pub fn exit_gameover(&mut self)
        requires
            old(self).wf(),
        ensures
            final(self).wf(),
            final(self).state == old(self).state,
            final(self).camera == (Vec2i { x: 0, y: 0 }),
            final(self).score.fighter == 0,
            final(self).score.torpedo == 0,
            final(self).ammo == old(self).ammo,
            !final(self).fighter_down,
            final(self).store.ships@.len() == 0,
            final(self).store.bullets@.len() == 0,
            final(self).store.next_id == old(self).store.next_id,
    {
        proof {
            lemma_player_bullet_count_nonneg(self.store.bullets@);
        }
        self.store.clear();
        self.score = Score::reset();
        self.camera = Vec2i { x: 0, y: 0 };
        self.fighter_down = false;
    }

    /// One in-game simulation step, the fixed pipeline in its load-bearing
    /// order: player shot, spawners, enemy weapons, camera scroll, velocity
    /// integration, player clamp, enemy bounce, hit detection, bullet
    /// consumption, damage application, lifecycle culling and offscreen
    /// culling; if the player was destroyed, the run is torn down and the
    /// state moves to the game-over screen.
    #[verifier::rlimit(100)]
    #[verifier::spinoff_prover]
    pub fn run_systems(&mut self, fire: bool, move_x: i64, move_y: i64, delta_ms: u64) -> (out:
        TickOutput)
        requires
            old(self).wf(),
            delta_ms <= DELTA_LIMIT_MS,
            -(HELD_KEYS_LIMIT as int) <= move_x <= HELD_KEYS_LIMIT as int,
            -(HELD_KEYS_LIMIT as int) <= move_y <= HELD_KEYS_LIMIT as int,
            old(self).store.next_id + 2 * old(self).store.ships@.len() + 8 <= u64::MAX,
            old(self).store.ships@.len() + 2 <= u32::MAX,
        ensures
            final(self).wf(),
            final(self).state == (if out.player_died {
                AppState::Gameover
            } else {
                old(self).state
            }),
            final(self).camera.x == old(self).camera.x,
            final(self).camera.y == crate::geom::clamp_spec(
                old(self).camera.y + CAMERA_SCROLL,
                -CAMERA_LIMIT as int,
                CAMERA_LIMIT as int,
            ),
            out.shot_fired == (fire && crate::entity::player_of(old(self).store.ships@) is Some
                && old(self).ammo > 0),
            out.player_died == (exists|j: int|
                0 <= j < out.ship_despawns@.len() && (#[trigger] out.ship_despawns@[j]).kind
                    == ShipKind::PlayerShip),
            forall|k: int, j: int|
                0 <= k < out.hits@.len() && 0 <= j < out.bullets_offscreen@.len() ==> (
                #[trigger] out.hits@[k]).bullet != (#[trigger] out.bullets_offscreen@[j]),
            final(self).score.fighter >= old(self).score.fighter,
            final(self).score.torpedo >= old(self).score.torpedo,
            out.player_died ==> final(self).store.ships@.len() == 0
                && final(self).store.bullets@.len() == 0,
            !out.player_died ==> final(self).ammo + player_bullet_count(
                final(self).store.bullets@,
            ) == old(self).ammo + player_bullet_count(old(self).store.bullets@),
    {
        let ghost bullets0 = self.store.bullets@;

        // Shots and spawns against the previous tick's positions.
        let shot_fired = player_fire(&mut self.store, &mut self.ammo, fire);
        proof {
            if shot_fired {
                assert(self.store.bullets@.drop_last() =~= bullets0);
                assert(player_bullet_count(self.store.bullets@) == player_bullet_count(bullets0)
                    + 1);
            }
            assert(self.ammo + player_bullet_count(self.store.bullets@) <= PLAYER_AMMO_MAX);
        }
        try_spawn_fighter(&mut self.store, self.camera);
        let fighter_down = self.fighter_down;
        self.fighter_down = false;
        try_spawn_torpedo(&mut self.store, self.camera, self.score.fighter, fighter_down);

        // Enemy weapons tick on real time and fire in ship order.
        let ghost bullets_pre_fire = self.store.bullets@;
        let ghost ships_pre_fire = self.store.ships@;
        let ghost base_pre_fire = self.store.next_id;
        enemy_fire(&mut self.store, delta_ms);
        proof {
            lemma_emitted_all_enemy(
                ships_pre_fire,
                delta_ms,
                crate::spawn::player_pos_of(ships_pre_fire),
                base_pre_fire,
            );
            lemma_player_bullet_count_append_enemy(
                bullets_pre_fire,
                crate::spawn::emitted_bullets(
                    ships_pre_fire,
                    delta_ms,
                    crate::spawn::player_pos_of(ships_pre_fire),
                    base_pre_fire,
                ),
            );
            assert(self.ammo + player_bullet_count(self.store.bullets@) <= PLAYER_AMMO_MAX);
        }

        // The camera scrolls, then everything moves with it.
        self.camera = Vec2i {
            x: self.camera.x,
            y: clamp_i64(self.camera.y + CAMERA_SCROLL, -CAMERA_LIMIT, CAMERA_LIMIT),
        };
        let ghost bullets_pre_move = self.store.bullets@;
        apply_motion(&mut self.store);
        proof {
            lemma_player_bullet_count_moved(bullets_pre_move);
        }
        move_player(&mut self.store, move_x, move_y, self.camera);
        bounce_enemies(&mut self.store);

        // Two-phase resolution: detect, consume, then apply.
        let ghost b_detect = self.store.bullets@;
        let ghost s_detect = self.store.ships@;
        let hits = detect_hits(&self.store);
        consume_hit_bullets(&mut self.store, &mut self.ammo);
        apply_damage(&mut self.store, &hits);
        let ghost ships_at_cull = self.store.ships@;
        let cull = cull_dead(&mut self.store, &mut self.score);
        self.fighter_down = cull.fighter_down;
        let offs = cull_offscreen(&mut self.store, &mut self.ammo, self.camera);

        proof {
            lemma_dead_records_kind(ships_at_cull, ShipKind::PlayerShip);
            lemma_dead_records_kind(ships_at_cull, ShipKind::Fighter);
            lemma_dead_records_kind(ships_at_cull, ShipKind::Torpedo);
            lemma_bullet_removed_once(b_detect, s_detect, self.camera);
            assert forall|k: int, j: int|
                0 <= k < hits@.len() && 0 <= j < offs@.len() implies (#[trigger] hits@[k]).bullet
                != (#[trigger] offs@[j]) by {
                assert(crate::combat::hit_count_for_bullet(
                    detect_hits_spec(b_detect, s_detect),
                    offs@[j],
                ) == 0);
                lemma_hit_count_zero(hits@, offs@[j]);
            }
        }

        // The state machine runs last, after the whole pipeline.
        if cull.player_down {
            self.exit_ingame();
            self.state = AppState::Gameover;
        }
        TickOutput {
            hits,
            ship_despawns: cull.events,
            bullets_offscreen: offs,
            shot_fired,
            player_died: cull.player_down,
        }
    }

    /// One fixed simulation tick.  In the menu and game-over states only
    /// the state machine and its enter and exit hooks run; in the running
    /// game the whole pipeline of `run_systems` runs first and the state
    /// machine evaluates its terminal condition last.
    pub fn tick(&mut self, input: &FrameInput, delta_ms: u64) -> (out: TickOutput)
        requires
            old(self).wf(),
            delta_ms <= DELTA_LIMIT_MS,
            input.held@.len() <= HELD_KEYS_LIMIT,
            old(self).store.next_id + 2 * old(self).store.ships@.len() + 8 <= u64::MAX,
            old(self).store.ships@.len() + 2 <= u32::MAX,
        ensures
            final(self).wf(),
            final(self).state == next_state_spec(
                old(self).state,
                input.mouse_pressed || input.pressed@.len() > 0,
                input.pressed@.contains(Key::KeyR),
                input.pressed@.contains(Key::KeyB),
                out.player_died,
            ),
            old(self).state != AppState::Ingame ==> out.hits@.len() == 0 && out.ship_despawns@.len()
                == 0 && out.bullets_offscreen@.len() == 0 && !out.player_died && !out.shot_fired,
            old(self).state == AppState::Mainmenu ==> final(self).score == old(self).score,
            old(self).state == AppState::Mainmenu && !(input.mouse_pressed || input.pressed@.len()
                > 0) ==> final(self).store.ships@ == old(self).store.ships@
                && final(self).store.bullets@ == old(self).store.bullets@ && final(self).camera
                == old(self).camera && final(self).ammo == old(self).ammo
                && final(self).fighter_down == old(self).fighter_down,
            old(self).state == AppState::Mainmenu && (input.mouse_pressed || input.pressed@.len()
                > 0) ==> run_started(*final(self), old(self).store.next_id, Vec2i { x: 0, y: 0 })
                && final(self).camera == (Vec2i { x: 0, y: 0 }),
            old(self).state == AppState::Gameover && input.pressed@.contains(Key::KeyR) ==> final(self).score.fighter == 0 && final(self).score.torpedo == 0 && final(self).camera == (Vec2i {
                x: 0,
                y: 0,
            }) && run_started(*final(self), old(self).store.next_id, Vec2i { x: 0, y: 0 }),
            old(self).state == AppState::Gameover && !input.pressed@.contains(Key::KeyR)
                && input.pressed@.contains(Key::KeyB) ==> final(self).score.fighter == 0 && final(self).score.torpedo == 0 && final(self).camera == (Vec2i { x: 0, y: 0 }) && final(self).store.ships@.len() == 0 && final(self).store.bullets@.len() == 0 && final(self).ammo
                == old(self).ammo && !final(self).fighter_down,
            old(self).state == AppState::Gameover && !input.pressed@.contains(Key::KeyR)
                && !input.pressed@.contains(Key::KeyB) ==> final(self).store.ships@ == old(
                self,
            ).store.ships@ && final(self).store.bullets@ == old(self).store.bullets@ && final(self).camera == old(self).camera && final(self).score == old(self).score && final(self).ammo
                == old(self).ammo && final(self).fighter_down == old(self).fighter_down,
            old(self).state == AppState::Ingame ==> out.shot_fired == (
            input.pressed@.contains(Key::Space) && crate::entity::player_of(
                old(self).store.ships@,
            ) is Some && old(self).ammo > 0),
            old(self).state == AppState::Ingame ==> final(self).camera.x == old(self).camera.x
                && final(self).camera.y == crate::geom::clamp_spec(
                old(self).camera.y + CAMERA_SCROLL,
                -CAMERA_LIMIT as int,
                CAMERA_LIMIT as int,
            ),
            old(self).state == AppState::Ingame ==> out.player_died == (exists|j: int|
                0 <= j < out.ship_despawns@.len() && (#[trigger] out.ship_despawns@[j]).kind
                    == ShipKind::PlayerShip),
            old(self).state == AppState::Ingame ==> forall|k: int, j: int|
                0 <= k < out.hits@.len() && 0 <= j < out.bullets_offscreen@.len() ==> (
                #[trigger] out.hits@[k]).bullet != (#[trigger] out.bullets_offscreen@[j]),
            old(self).state == AppState::Ingame ==> final(self).score.fighter >= old(
                self,
            ).score.fighter && final(self).score.torpedo >= old(self).score.torpedo,
            old(self).state == AppState::Ingame && out.player_died ==> final(self).store.ships@.len() == 0 && final(self).store.bullets@.len() == 0,
            old(self).state == AppState::Ingame && !out.player_died ==> final(self).ammo
                + player_bullet_count(final(self).store.bullets@) == old(self).ammo
                + player_bullet_count(old(self).store.bullets@),
    {
        let intent = translate(input);
        match self.state {
            AppState::Mainmenu => {
                if intent.start {
                    self.enter_ingame();
                    self.state = AppState::Ingame;
                }
                TickOutput {
                    hits: Vec::new(),
                    ship_despawns: Vec::new(),
                    bullets_offscreen: Vec::new(),
                    shot_fired: false,
                    player_died: false,
                }
            },
            AppState::Gameover => {
                if intent.retry {
                    self.exit_gameover();
                    self.enter_ingame();
                    self.state = AppState::Ingame;
                } else if intent.to_menu {
                    self.exit_gameover();
                    self.state = AppState::Mainmenu;
                }
                TickOutput {
                    hits: Vec::new(),
                    ship_despawns: Vec::new(),
                    bullets_offscreen: Vec::new(),
                    shot_fired: false,
                    player_died: false,
                }
            },
            AppState::Ingame => {
                self.run_systems(intent.fire, intent.move_x, intent.move_y, delta_ms)
            },
        }
    }
}

} // verus!

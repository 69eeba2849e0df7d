//! The movement integrator: velocity integration for every ship and bullet,
//! the camera's autonomous scroll, the viewport clamp on the player and the
//! horizontal bounce of enemy ships.

use vstd::prelude::*;

use crate::entity::{Bullet, Ship, ShipKind, Store};
use crate::geom::{
    clamp_i64, clamp_spec, coord_in_world, Vec2i, CAMERA_LIMIT, SPEED_LIMIT, SUBS_PER_PIXEL,
    WORLD_LIMIT,
};
use crate::input::HELD_KEYS_LIMIT;

verus! {

/// Sub-units the camera scrolls upward each tick (0.2 pixels per frame at
/// 60 frames per second).
pub const CAMERA_SCROLL: i64 = 12_000;

/// Half the visible window width, in sub-units (the window is 640 by 480
/// pixels).
pub const WINDOW_HALF_W: i64 = 320 * SUBS_PER_PIXEL;

/// Half the visible window height, in sub-units.
pub const WINDOW_HALF_H: i64 = 240 * SUBS_PER_PIXEL;

/// Sub-units the player advances per tick for each unit of held direction
/// (a speed of 256 pixels per second).
pub const PLAYER_STEP: i64 = 256_000;

/// Margin kept between the player and the viewport edge, one full ship
/// size.
pub const PLAYER_MARGIN: i64 = 32 * SUBS_PER_PIXEL;

/// One coordinate moved by a bounded step, saturating at the world edge.
pub fn move_coord(x: i64, d: i64) -> (r: i64)
    requires
        coord_in_world(x as int),
        -3 * SPEED_LIMIT <= d <= 3 * SPEED_LIMIT,
    ensures
        r as int == clamp_spec(x + d, -WORLD_LIMIT as int, WORLD_LIMIT as int),
{
    clamp_i64(x + d, -WORLD_LIMIT, WORLD_LIMIT)
}

/// Where one integration step puts a position: its own velocity plus the
/// camera-scroll increment on the vertical axis, saturating at the world
/// edge.
pub open spec fn moved_pos(p: Vec2i, v: Vec2i) -> Vec2i {
    Vec2i {
        x: clamp_spec(p.x + v.x, -WORLD_LIMIT as int, WORLD_LIMIT as int) as i64,
        y: clamp_spec(p.y + v.y + CAMERA_SCROLL, -WORLD_LIMIT as int, WORLD_LIMIT as int) as i64,
    }
}

/// A ship after one integration step; only the position changes.
pub open spec fn moved_ship(s: Ship) -> Ship {
    Ship { pos: moved_pos(s.pos, s.vel), ..s }
}

/// A bullet after one integration step; only the position changes.
pub open spec fn moved_bullet(b: Bullet) -> Bullet {
    Bullet { pos: moved_pos(b.pos, b.vel), ..b }
}

/// Advance every ship and bullet by its velocity and the camera-scroll
/// increment.
pub fn apply_motion(store: &mut Store)
    requires
        old(store).wf(),
    ensures
        final(store).wf(),
        final(store).ships@ == old(store).ships@.map_values(|s: Ship| moved_ship(s)),
        final(store).bullets@ == old(store).bullets@.map_values(|b: Bullet| moved_bullet(b)),
        final(store).next_id == old(store).next_id,
{
    let ghost old_ships = store.ships@;
    let ghost old_bullets = store.bullets@;
    let mut i: usize = 0;
    while i < store.ships.len()
        invariant
            i <= store.ships@.len(),
            store.ships@.len() == old_ships.len(),
            store.bullets@ == old_bullets,
            store.next_id == old(store).next_id,
            crate::entity::ships_wf(old_ships),
            forall|j: int| 0 <= j < i ==> store.ships@[j] == moved_ship(old_ships[j]),
            forall|j: int| i <= j < old_ships.len() ==> store.ships@[j] == old_ships[j],
        decreases store.ships@.len() - i,
    {
        let s = store.ships[i];
        let pos = Vec2i { x: move_coord(s.pos.x, s.vel.x), y: move_coord(s.pos.y, s.vel.y + CAMERA_SCROLL) };
        store.ships[i].pos = pos;
        i = i + 1;
    }
    let mut k: usize = 0;
    while k < store.bullets.len()
        invariant
            k <= store.bullets@.len(),
            store.bullets@.len() == old_bullets.len(),
            store.ships@.len() == old_ships.len(),
            forall|j: int| 0 <= j < old_ships.len() ==> store.ships@[j] == moved_ship(old_ships[j]),
            store.next_id == old(store).next_id,
            crate::entity::bullets_wf(old_bullets),
            forall|j: int| 0 <= j < k ==> store.bullets@[j] == moved_bullet(old_bullets[j]),
            forall|j: int| k <= j < old_bullets.len() ==> store.bullets@[j] == old_bullets[j],
        decreases store.bullets@.len() - k,
    {
        let b = store.bullets[k];
        let pos = Vec2i { x: move_coord(b.pos.x, b.vel.x), y: move_coord(b.pos.y, b.vel.y + CAMERA_SCROLL) };
        store.bullets[k].pos = pos;
        k = k + 1;
    }
    proof {
        assert(store.ships@ =~= old_ships.map_values(|s: Ship| moved_ship(s)));
        assert(store.bullets@ =~= old_bullets.map_values(|b: Bullet| moved_bullet(b)));
        assert forall|j: int| 0 <= j < store.ships@.len() implies #[trigger] store.ships@[j].wf()
            by {
            assert(store.ships@[j] == moved_ship(old_ships[j]));
        }
        assert forall|j: int|
            0 <= j < store.bullets@.len() implies #[trigger] store.bullets@[j].wf() by {
            assert(store.bullets@[j] == moved_bullet(old_bullets[j]));
        }
    }
}

/// Where the viewport clamp puts the player for one frame of held
/// direction.
pub open spec fn player_moved_pos(p: Vec2i, mx: int, my: int, cam: Vec2i) -> Vec2i {
    Vec2i {
        x: clamp_spec(
            p.x + mx * PLAYER_STEP,
            cam.x - WINDOW_HALF_W + PLAYER_MARGIN,
            cam.x + WINDOW_HALF_W - PLAYER_MARGIN,
        ) as i64,
        y: clamp_spec(
            p.y + my * PLAYER_STEP,
            cam.y - WINDOW_HALF_H + PLAYER_MARGIN,
            cam.y + WINDOW_HALF_H - PLAYER_MARGIN,
        ) as i64,
    }
}

/// Move the player ship by the held direction, then clamp it into the
/// camera-relative viewport so it cannot leave the screen.  Every other
/// record is untouched.
pub fn move_player(store: &mut Store, move_x: i64, move_y: i64, camera: Vec2i)
    requires
        old(store).wf(),
        -(HELD_KEYS_LIMIT as int) <= move_x <= HELD_KEYS_LIMIT as int,
        -(HELD_KEYS_LIMIT as int) <= move_y <= HELD_KEYS_LIMIT as int,
        -CAMERA_LIMIT <= camera.x <= CAMERA_LIMIT,
        -CAMERA_LIMIT <= camera.y <= CAMERA_LIMIT,
    ensures
        final(store).wf(),
        final(store).ships@.len() == old(store).ships@.len(),
        final(store).bullets@ == old(store).bullets@,
        final(store).next_id == old(store).next_id,
        forall|j: int|
            0 <= j < old(store).ships@.len() ==> final(store).ships@[j] == if old(
                store,
            ).ships@[j].kind == ShipKind::PlayerShip {
                Ship {
                    pos: player_moved_pos(
                        old(store).ships@[j].pos,
                        move_x as int,
                        move_y as int,
                        camera,
                    ),
                    ..old(store).ships@[j]
                }
            } else {
                old(store).ships@[j]
            },
{
    let ghost old_ships = store.ships@;
    let mut i: usize = 0;
    while i < store.ships.len()
        invariant
            i <= store.ships@.len(),
            store.ships@.len() == old_ships.len(),
            store.bullets@ == old(store).bullets@,
            store.next_id == old(store).next_id,
            crate::entity::ships_wf(old_ships),
            -(HELD_KEYS_LIMIT as int) <= move_x <= HELD_KEYS_LIMIT as int,
            -(HELD_KEYS_LIMIT as int) <= move_y <= HELD_KEYS_LIMIT as int,
            -CAMERA_LIMIT <= camera.x <= CAMERA_LIMIT,
            -CAMERA_LIMIT <= camera.y <= CAMERA_LIMIT,
            forall|j: int|
                0 <= j < i ==> store.ships@[j] == if old_ships[j].kind == ShipKind::PlayerShip {
                    Ship {
                        pos: player_moved_pos(old_ships[j].pos, move_x as int, move_y as int, camera),
                        ..old_ships[j]
                    }
                } else {
                    old_ships[j]
                },
            forall|j: int| i <= j < old_ships.len() ==> store.ships@[j] == old_ships[j],
        decreases store.ships@.len() - i,
    {
        let s = store.ships[i];
        if matches!(s.kind, ShipKind::PlayerShip) {
            let pos = Vec2i {
                x: clamp_i64(
                    s.pos.x + move_x * PLAYER_STEP,
                    camera.x - WINDOW_HALF_W + PLAYER_MARGIN,
                    camera.x + WINDOW_HALF_W - PLAYER_MARGIN,
                ),
                y: clamp_i64(
                    s.pos.y + move_y * PLAYER_STEP,
                    camera.y - WINDOW_HALF_H + PLAYER_MARGIN,
                    camera.y + WINDOW_HALF_H - PLAYER_MARGIN,
                ),
            };
            store.ships[i].pos = pos;
        }
        i = i + 1;
    }
    proof {
        assert forall|j: int| 0 <= j < store.ships@.len() implies #[trigger] store.ships@[j].wf()
            by {
            assert(old_ships[j].wf());
        }
        assert forall|j1: int, j2: int|
            0 <= j1 < j2 < store.ships@.len() implies store.ships@[j1].id != store.ships@[j2].id by {
            assert(store.ships@[j1].id == old_ships[j1].id);
            assert(store.ships@[j2].id == old_ships[j2].id);
        }
        assert forall|j1: int, j2: int|
            0 <= j1 < store.ships@.len() && 0 <= j2 < store.ships@.len() && store.ships@[j1].kind
                == ShipKind::PlayerShip && store.ships@[j2].kind
                == ShipKind::PlayerShip implies j1 == j2 by {
            assert(store.ships@[j1].kind == old_ships[j1].kind);
            assert(store.ships@[j2].kind == old_ships[j2].kind);
        }
        assert forall|j: int|
            0 <= j < store.ships@.len() implies #[trigger] store.ships@[j].id < store.next_id by {
            assert(store.ships@[j].id == old_ships[j].id);
        }
    }
}

/// An enemy ship with its velocity flipped when it presses on a horizontal
/// viewport bound.
pub open spec fn bounced_ship(s: Ship) -> Ship {
    if s.kind != ShipKind::PlayerShip && (WINDOW_HALF_W < s.pos.x + s.half.x / 2 || -WINDOW_HALF_W
        > s.pos.x - s.half.x / 2) {
        Ship { vel: Vec2i { x: (-s.vel.x) as i64, y: s.vel.y }, ..s }
    } else {
        s
    }
}

/// Flip the horizontal velocity of every enemy ship that reached a left or
/// right viewport bound.
pub fn bounce_enemies(store: &mut Store)
    requires
        old(store).wf(),
    ensures
        final(store).wf(),
        final(store).ships@ == old(store).ships@.map_values(|s: Ship| bounced_ship(s)),
        final(store).bullets@ == old(store).bullets@,
        final(store).next_id == old(store).next_id,
{
    let ghost old_ships = store.ships@;
    let mut i: usize = 0;
    while i < store.ships.len()
        invariant
            i <= store.ships@.len(),
            store.ships@.len() == old_ships.len(),
            store.bullets@ == old(store).bullets@,
            store.next_id == old(store).next_id,
            crate::entity::ships_wf(old_ships),
            forall|j: int| 0 <= j < i ==> store.ships@[j] == bounced_ship(old_ships[j]),
            forall|j: int| i <= j < old_ships.len() ==> store.ships@[j] == old_ships[j],
        decreases store.ships@.len() - i,
    {
        let s = store.ships[i];
        if !matches!(s.kind, ShipKind::PlayerShip) {
            let hits_right = WINDOW_HALF_W < s.pos.x + s.half.x / 2;
            let hits_left = -WINDOW_HALF_W > s.pos.x - s.half.x / 2;
            if hits_right || hits_left {
                store.ships[i].vel = Vec2i { x: -s.vel.x, y: s.vel.y };
            }
        }
        i = i + 1;
    }
    proof {
        assert(store.ships@ =~= old_ships.map_values(|s: Ship| bounced_ship(s)));
        assert forall|j: int| 0 <= j < store.ships@.len() implies #[trigger] store.ships@[j].wf()
            by {
            assert(store.ships@[j] == bounced_ship(old_ships[j]));
        }
        assert forall|j1: int, j2: int|
            0 <= j1 < j2 < store.ships@.len() implies store.ships@[j1].id != store.ships@[j2].id by {
            assert(store.ships@[j1].id == old_ships[j1].id);
            assert(store.ships@[j2].id == old_ships[j2].id);
        }
        assert forall|j1: int, j2: int|
            0 <= j1 < store.ships@.len() && 0 <= j2 < store.ships@.len() && store.ships@[j1].kind
                == ShipKind::PlayerShip && store.ships@[j2].kind
                == ShipKind::PlayerShip implies j1 == j2 by {
            assert(store.ships@[j1].kind == old_ships[j1].kind);
            assert(store.ships@[j2].kind == old_ships[j2].kind);
        }
        assert forall|j: int|
            0 <= j < store.ships@.len() implies #[trigger] store.ships@[j].id < store.next_id by {
            assert(store.ships@[j].id == old_ships[j].id);
        }
    }
}

/// A ship after `n` integration steps.
pub open spec fn iterate_motion_ship(s: Ship, n: nat) -> Ship
    decreases n,
{
    if n == 0 {
        s
    } else {
        moved_ship(iterate_motion_ship(s, (n - 1) as nat))
    }
}

/// A bullet after `n` integration steps.
pub open spec fn iterate_motion_bullet(b: Bullet, n: nat) -> Bullet
    decreases n,
{
    if n == 0 {
        b
    } else {
        moved_bullet(iterate_motion_bullet(b, (n - 1) as nat))
    }
}

/// Clamping commutes with a further non-negative step once the value is
/// above the lower bound.
proof fn lemma_clamp_step(v: int, b: int, lo: int, hi: int)
    requires
        lo <= hi,
        v >= lo,
        b >= 0,
    ensures
        clamp_spec(clamp_spec(v, lo, hi) + b, lo, hi) == clamp_spec(v + b, lo, hi),
{
}

/// Integrating a ship with zero velocity any number of times leaves its
/// position unchanged except for the accumulated camera-scroll increment on
/// the vertical axis; every other attribute is untouched.
pub proof fn lemma_zero_velocity_drift(s: Ship, n: nat)
    requires
        s.wf(),
        s.vel.x == 0,
        s.vel.y == 0,
    ensures
        iterate_motion_ship(s, n) == (Ship {
            pos: Vec2i {
                x: s.pos.x,
                y: clamp_spec(
                    s.pos.y + n * CAMERA_SCROLL,
                    -WORLD_LIMIT as int,
                    WORLD_LIMIT as int,
                ) as i64,
            },
            ..s
        }),
    decreases n,
{
    if n == 0 {
        assert(clamp_spec(s.pos.y + 0, -WORLD_LIMIT as int, WORLD_LIMIT as int) == s.pos.y);
        assert(iterate_motion_ship(s, 0) =~= Ship {
            pos: Vec2i { x: s.pos.x, y: s.pos.y },
            ..s
        });
    } else {
        lemma_zero_velocity_drift(s, (n - 1) as nat);
        let prev = iterate_motion_ship(s, (n - 1) as nat);
        assert(prev.pos.x == s.pos.x);
        lemma_clamp_step(
            s.pos.y + (n - 1) * CAMERA_SCROLL,
            CAMERA_SCROLL as int,
            -WORLD_LIMIT as int,
            WORLD_LIMIT as int,
        );
        assert(s.pos.y + (n - 1) * CAMERA_SCROLL + CAMERA_SCROLL == s.pos.y + n * CAMERA_SCROLL);
        assert(clamp_spec(s.pos.x + 0, -WORLD_LIMIT as int, WORLD_LIMIT as int) == s.pos.x);
    }
}

/// The bullet form of the zero-velocity drift law.
pub proof fn lemma_zero_velocity_drift_bullet(b: Bullet, n: nat)
    requires
        b.wf(),
        b.vel.x == 0,
        b.vel.y == 0,
    ensures
        iterate_motion_bullet(b, n) == (Bullet {
            pos: Vec2i {
                x: b.pos.x,
                y: clamp_spec(
                    b.pos.y + n * CAMERA_SCROLL,
                    -WORLD_LIMIT as int,
                    WORLD_LIMIT as int,
                ) as i64,
            },
            ..b
        }),
    decreases n,
{
    if n == 0 {
        assert(clamp_spec(b.pos.y + 0, -WORLD_LIMIT as int, WORLD_LIMIT as int) == b.pos.y);
        assert(iterate_motion_bullet(b, 0) =~= Bullet {
            pos: Vec2i { x: b.pos.x, y: b.pos.y },
            ..b
        });
    } else {
        lemma_zero_velocity_drift_bullet(b, (n - 1) as nat);
        let prev = iterate_motion_bullet(b, (n - 1) as nat);
        assert(prev.pos.x == b.pos.x);
        lemma_clamp_step(
            b.pos.y + (n - 1) * CAMERA_SCROLL,
            CAMERA_SCROLL as int,
            -WORLD_LIMIT as int,
            WORLD_LIMIT as int,
        );
        assert(b.pos.y + (n - 1) * CAMERA_SCROLL + CAMERA_SCROLL == b.pos.y + n * CAMERA_SCROLL);
        assert(clamp_spec(b.pos.x + 0, -WORLD_LIMIT as int, WORLD_LIMIT as int) == b.pos.x);
    }
}

} // verus!

//! Spawning: the enemy-ship spawners with their concurrency and wave gates,
//! the player's ammo-gated shot, and the enemy weapons with their real-time
//! cooldowns, including the torpedo's aim at the player.

use vstd::prelude::*;

use crate::entity::{
    kind_count, player_of, Affiliation, Bullet, Ship, ShipKind, Store,
};
use crate::geom::{clamp_spec, in_world, Vec2i, CAMERA_LIMIT, SPEED_LIMIT, SUBS_PER_PIXEL, WORLD_LIMIT};
use crate::motion::move_coord;
use crate::rng::{rand_coin, rand_range_i64};
use crate::timer::RepeatTimer;

verus! {

/// One grid cell, in sub-units (16 pixels).
pub const GRID: i64 = 16 * SUBS_PER_PIXEL;

/// Hit points of a fresh player ship.
pub const PLAYER_HP: u32 = 8;

/// Half extent of the player's collision box.
pub const PLAYER_HALF: i64 = 16 * SUBS_PER_PIXEL;

/// Where the player ship starts, in grid cells below the camera center.
pub const PLAYER_SPAWN_Y: i64 = -12 * GRID;

/// Size of the player's ammo pool; firing is refused at zero and every
/// removed player bullet returns its shot.
pub const PLAYER_AMMO_MAX: u32 = 3;

/// Player bullet speed, in sub-units per tick, straight up.
pub const PLAYER_BULLET_SPEED: i64 = 512_000;

/// Half extent of a player bullet.
pub const PLAYER_BULLET_HALF: i64 = 16 * SUBS_PER_PIXEL;

/// How far from a ship's center its bullets appear.
pub const MUZZLE_OFFSET: i64 = 2 * GRID;

/// Hit points of a fresh fighter.
pub const FIGHTER_HP: u32 = 1;

/// Concurrency cap of the fighter spawner.
pub const FIGHTER_CAP: usize = 4;

/// Half extent of a fighter's collision box.
pub const FIGHTER_HALF: i64 = 16 * SUBS_PER_PIXEL;

/// Fighter velocity, in sub-units per tick: fast sideways, drifting slowly
/// down the screen.
pub const FIGHTER_VEL_X: i64 = 256_000;

/// Vertical part of the fighter velocity.
pub const FIGHTER_VEL_Y: i64 = -12_800;

/// Spawn abscissas are drawn uniformly from the closed interval
/// `[-SPAWN_X_RANGE, SPAWN_X_RANGE]`.
pub const SPAWN_X_RANGE: i64 = 18 * GRID;

/// Fighters appear in a band just above the camera-relative visible top
/// edge, at these offsets above the camera center.
pub const FIGHTER_SPAWN_Y_MIN: i64 = 16 * GRID;

/// Upper end of the fighter spawn band.
pub const FIGHTER_SPAWN_Y_MAX: i64 = 18 * GRID;

/// Fighter fire cooldowns are drawn uniformly from a closed interval, in
/// milliseconds; this is its lower end.
pub const FIGHTER_COOLDOWN_MIN_MS: u64 = 400;

/// Upper end of the fighter cooldown interval.
pub const FIGHTER_COOLDOWN_MAX_MS: u64 = 600;

/// Fighter bullet half extents.
pub const FIGHTER_BULLET_HALF_X: i64 = 4 * SUBS_PER_PIXEL;

/// Vertical half extent of a fighter bullet.
pub const FIGHTER_BULLET_HALF_Y: i64 = 16 * SUBS_PER_PIXEL;

/// Fighter bullet speed, in sub-units per tick, straight down.
pub const FIGHTER_BULLET_SPEED: i64 = 256_000;

/// Hit points of a fresh torpedo ship.
pub const TORPEDO_HP: u32 = 3;

/// Concurrency cap of the torpedo spawner.
pub const TORPEDO_CAP: usize = 1;

/// Horizontal half extent of a torpedo ship.
pub const TORPEDO_HALF_X: i64 = 64 * SUBS_PER_PIXEL;

/// Vertical half extent of a torpedo ship.
pub const TORPEDO_HALF_Y: i64 = 16 * SUBS_PER_PIXEL;

/// Torpedo ship speed, in sub-units per tick, purely horizontal.
pub const TORPEDO_VEL_X: i64 = 128_000;

/// Torpedo ships appear this far above the camera center, just above the
/// visible top edge.
pub const TORPEDO_SPAWN_Y: i64 = 17 * GRID;

/// Torpedo fire cooldowns are drawn uniformly from a closed interval, in
/// milliseconds; this is its lower end.
pub const TORPEDO_COOLDOWN_MIN_MS: u64 = 1500;

/// Upper end of the torpedo cooldown interval.
pub const TORPEDO_COOLDOWN_MAX_MS: u64 = 2000;

/// A torpedo wave is released each time the fighter kill count reaches a
/// positive multiple of this threshold.
pub const TORPEDO_WAVE_KILLS: u32 = 10;

/// Torpedo bullet half extents.
pub const TORPEDO_BULLET_HALF_X: i64 = 495_000;

/// Vertical half extent of a torpedo bullet.
pub const TORPEDO_BULLET_HALF_Y: i64 = 24 * SUBS_PER_PIXEL;

/// Torpedo bullet speed, in sub-units per tick, aimed at the player.
pub const TORPEDO_BULLET_SPEED: i64 = 256_000;

/// `r` is the integer square root of `n`.
pub open spec fn is_int_sqrt(n: int, r: int) -> bool {
    0 <= r && r * r <= n && n < (r + 1) * (r + 1)
}

/// The integer square root of a non-negative `n`.
pub open spec fn sqrt_of(n: int) -> int {
    choose|r: int| is_int_sqrt(n, r)
}

/// The integer square root is unique.
pub proof fn lemma_int_sqrt_unique(n: int, r1: int, r2: int)
    requires
        is_int_sqrt(n, r1),
        is_int_sqrt(n, r2),
    ensures
        r1 == r2,
{
    if r1 < r2 {
        assert((r1 + 1) * (r1 + 1) <= r2 * r2) by (nonlinear_arith)
            requires
                0 <= r1,
                r1 + 1 <= r2,
        ;
    }
    if r2 < r1 {
        assert((r2 + 1) * (r2 + 1) <= r1 * r1) by (nonlinear_arith)
            requires
                0 <= r2,
                r2 + 1 <= r1,
        ;
    }
}

/// Binary-search integer square root.
pub fn isqrt_u128(n: u128) -> (r: u64)
    ensures
        is_int_sqrt(n as int, r as int),
        r as int == sqrt_of(n as int),
{
    let mut lo: u64 = 0;
    let mut hi: u64 = u64::MAX;
    while lo < hi
        invariant
            lo <= hi,
            (lo as int) * (lo as int) <= n as int,
            (n as int) < (hi as int + 1) * (hi as int + 1),
        decreases hi - lo,
    {
        let mid = lo + (hi - lo) / 2 + 1;
        proof {
            assert(lo < mid <= hi);
            assert((mid as int) * (mid as int) <= (u64::MAX as int) * (u64::MAX as int))
                by (nonlinear_arith)
                requires
                    0 <= mid as int <= u64::MAX as int,
            ;
        }
        let sq = (mid as u128) * (mid as u128);
        if sq <= n {
            lo = mid;
        } else {
            hi = mid - 1;
        }
    }
    proof {
        assert(is_int_sqrt(n as int, lo as int));
        lemma_int_sqrt_unique(n as int, lo as int, sqrt_of(n as int));
    }
    lo
}

/// `d * speed / len` with the division truncating toward zero, as the
/// machine division does.
pub open spec fn scaled_div(d: int, speed: int, len: int) -> int {
    if d >= 0 {
        d * speed / len
    } else {
        -((-d) * speed / len)
    }
}

/// The velocity of a shot of the given speed aimed from `from` at `to`:
/// the displacement scaled by `speed` over its integer length.  A shot at a
/// target right on the muzzle falls straight down.
pub open spec fn aim_vel(from: Vec2i, to: Vec2i, speed: int) -> Vec2i {
    let dx = to.x - from.x;
    let dy = to.y - from.y;
    let n = dx * dx + dy * dy;
    if n == 0 {
        Vec2i { x: 0, y: (-speed) as i64 }
    } else {
        Vec2i {
            x: scaled_div(dx, speed, sqrt_of(n)) as i64,
            y: scaled_div(dy, speed, sqrt_of(n)) as i64,
        }
    }
}

/// One signed component of the aimed velocity: `|d| * speed / len` with the
/// sign of `d` put back.
fn scale_component(d: i64, speed: i64, len: u64) -> (r: i64)
    requires
        -2 * WORLD_LIMIT <= d <= 2 * WORLD_LIMIT,
        0 < speed <= SPEED_LIMIT,
        0 < len,
        d <= len,
        -d <= len,
    ensures
        r as int == scaled_div(d as int, speed as int, len as int),
        -speed <= r <= speed,
{
    let a: i64 = if d >= 0 {
        d
    } else {
        -d
    };
    proof {
        assert((a as int) * (speed as int) <= (2 * WORLD_LIMIT) * (SPEED_LIMIT as int))
            by (nonlinear_arith)
            requires
                0 <= a as int <= 2 * WORLD_LIMIT,
                0 < speed as int <= SPEED_LIMIT as int,
        ;
    }
    let q128 = (a as u128) * (speed as u128) / (len as u128);
    proof {
        assert((a as int) * (speed as int) <= (len as int) * (speed as int)) by (nonlinear_arith)
            requires
                0 <= a as int <= len as int,
                0 < speed as int,
        ;
        vstd::arithmetic::div_mod::lemma_div_is_ordered(
            (a as int) * (speed as int),
            (len as int) * (speed as int),
            len as int,
        );
        vstd::arithmetic::div_mod::lemma_div_multiples_vanish(speed as int, len as int);
        assert((a as int) * (speed as int) / (len as int) <= speed as int);
        vstd::arithmetic::div_mod::lemma_div_pos_is_pos((a as int) * (speed as int), len as int);
    }
    let q = q128 as i64;
    if d >= 0 {
        q
    } else {
        -q
    }
}

/// The square of a bounded displacement component, as an unsigned wide
/// integer.
fn square_mag(d: i64) -> (s: u128)
    requires
        -2 * WORLD_LIMIT <= d <= 2 * WORLD_LIMIT,
    ensures
        s as int == (d as int) * (d as int),
        s <= 4_000_000_000_000_000_000_000_000_000_000u128,
{
    let a: i64 = if d >= 0 {
        d
    } else {
        -d
    };
    proof {
        assert(0 <= (a as int) * (a as int) <= 4_000_000_000_000_000_000_000_000_000_000int)
            by (nonlinear_arith)
            requires
                0 <= a as int <= 2_000_000_000_000_000int,
        ;
        assert((a as int) * (a as int) == (d as int) * (d as int)) by (nonlinear_arith)
            requires
                a as int == d as int || a as int == -(d as int),
        ;
    }
    (a as u128) * (a as u128)
}

/// The aimed velocity of `aim_vel`, computed with machine integers.
pub fn aim_velocity(from: Vec2i, to: Vec2i, speed: i64) -> (v: Vec2i)
    requires
        in_world(from),
        in_world(to),
        0 < speed <= SPEED_LIMIT,
    ensures
        v == aim_vel(from, to, speed as int),
        -speed <= v.x <= speed,
        -speed <= v.y <= speed,
{
    let dx = to.x - from.x;
    let dy = to.y - from.y;
    let sx = square_mag(dx);
    let sy = square_mag(dy);
    let n = sx + sy;
    if n == 0 {
        return Vec2i { x: 0, y: -speed };
    }
    let len = isqrt_u128(n);
    proof {
        assert(len > 0);
        assert(dx as int <= len as int && -(dx as int) <= len as int) by (nonlinear_arith)
            requires
                is_int_sqrt(n as int, len as int),
                (dx as int) * (dx as int) <= n as int,
        ;
        assert(dy as int <= len as int && -(dy as int) <= len as int) by (nonlinear_arith)
            requires
                is_int_sqrt(n as int, len as int),
                (dy as int) * (dy as int) <= n as int,
        ;
    }
    let vx = scale_component(dx, speed, len);
    let vy = scale_component(dy, speed, len);
    Vec2i { x: vx, y: vy }
}

/// Spawn a fighter from already-drawn randoms: abscissa, height offset
/// above the camera, initial heading, and fire-cooldown duration.  The
/// spawn is refused while the concurrency cap is filled.
pub fn spawn_fighter_with(
    store: &mut Store,
    camera: Vec2i,
    x: i64,
    y_off: i64,
    to_right: bool,
    cooldown_ms: u64,
) -> (spawned: bool)
    requires
        old(store).wf(),
        old(store).next_id < u64::MAX,
        -CAMERA_LIMIT <= camera.x <= CAMERA_LIMIT,
        -CAMERA_LIMIT <= camera.y <= CAMERA_LIMIT,
        -SPAWN_X_RANGE <= x <= SPAWN_X_RANGE,
        FIGHTER_SPAWN_Y_MIN <= y_off <= FIGHTER_SPAWN_Y_MAX,
        FIGHTER_COOLDOWN_MIN_MS <= cooldown_ms <= FIGHTER_COOLDOWN_MAX_MS,
    ensures
        final(store).wf(),
        spawned == (kind_count(old(store).ships@, ShipKind::Fighter) < FIGHTER_CAP),
        final(store).bullets@ == old(store).bullets@,
        spawned ==> final(store).ships@ == old(store).ships@.push(
            (Ship {
                id: old(store).next_id,
                kind: ShipKind::Fighter,
                pos: Vec2i { x, y: (camera.y + y_off) as i64 },
                vel: if to_right {
                    Vec2i { x: FIGHTER_VEL_X, y: FIGHTER_VEL_Y }
                } else {
                    Vec2i { x: (-FIGHTER_VEL_X) as i64, y: (-FIGHTER_VEL_Y) as i64 }
                },
                half: Vec2i { x: FIGHTER_HALF, y: FIGHTER_HALF },
                hp: FIGHTER_HP,
                cooldown: RepeatTimer { duration_ms: cooldown_ms, elapsed_ms: 0 },
            }),
        ) && final(store).next_id == old(store).next_id + 1,
        !spawned ==> final(store).ships@ == old(store).ships@ && final(store).next_id == old(
            store,
        ).next_id,
{
    if store.count_kind(ShipKind::Fighter) >= FIGHTER_CAP {
        return false;
    }
    let pos = Vec2i { x, y: camera.y + y_off };
    let vel = if to_right {
        Vec2i { x: FIGHTER_VEL_X, y: FIGHTER_VEL_Y }
    } else {
        Vec2i { x: -FIGHTER_VEL_X, y: -FIGHTER_VEL_Y }
    };
    let half = Vec2i { x: FIGHTER_HALF, y: FIGHTER_HALF };
    let cooldown = RepeatTimer::new(cooldown_ms);
    store.create_ship(ShipKind::Fighter, pos, vel, half, FIGHTER_HP, cooldown);
    true
}

/// Attempt an enemy-fighter spawn: under the concurrency cap, the position,
/// heading and cooldown are drawn at random inside their fixed ranges.
pub fn try_spawn_fighter(store: &mut Store, camera: Vec2i) -> (spawned: bool)
    requires
        old(store).wf(),
        old(store).next_id < u64::MAX,
        -CAMERA_LIMIT <= camera.x <= CAMERA_LIMIT,
        -CAMERA_LIMIT <= camera.y <= CAMERA_LIMIT,
    ensures
        final(store).wf(),
        spawned == (kind_count(old(store).ships@, ShipKind::Fighter) < FIGHTER_CAP),
        final(store).bullets@ == old(store).bullets@,
        spawned ==> {
            let s = final(store).ships@.last();
            &&& final(store).ships@ == old(store).ships@.push(s)
            &&& final(store).next_id == old(store).next_id + 1
            &&& s.id == old(store).next_id
            &&& s.kind == ShipKind::Fighter
            &&& s.hp == FIGHTER_HP
            &&& s.half == (Vec2i { x: FIGHTER_HALF, y: FIGHTER_HALF })
            &&& -SPAWN_X_RANGE <= s.pos.x <= SPAWN_X_RANGE
            &&& FIGHTER_SPAWN_Y_MIN <= s.pos.y - camera.y <= FIGHTER_SPAWN_Y_MAX
            &&& (s.vel == (Vec2i { x: FIGHTER_VEL_X, y: FIGHTER_VEL_Y }) || s.vel == (Vec2i {
                x: (-FIGHTER_VEL_X) as i64,
                y: (-FIGHTER_VEL_Y) as i64,
            }))
            &&& s.cooldown.elapsed_ms == 0
            &&& FIGHTER_COOLDOWN_MIN_MS <= s.cooldown.duration_ms <= FIGHTER_COOLDOWN_MAX_MS
        },
        !spawned ==> final(store).ships@ == old(store).ships@ && final(store).next_id == old(
            store,
        ).next_id,
{
    let x = rand_range_i64(-SPAWN_X_RANGE, SPAWN_X_RANGE);
    let y_off = rand_range_i64(FIGHTER_SPAWN_Y_MIN, FIGHTER_SPAWN_Y_MAX);
    let cooldown_ms = rand_range_i64(
        FIGHTER_COOLDOWN_MIN_MS as i64,
        FIGHTER_COOLDOWN_MAX_MS as i64,
    ) as u64;
    let to_right = rand_coin();
    spawn_fighter_with(store, camera, x, y_off, to_right, cooldown_ms)
}

/// Spawn a torpedo ship from already-drawn randoms.  The spawn is allowed
/// only on a tick that saw a fighter destroyed, while the fighter kill
/// count stands at a positive multiple of the wave threshold, and under the
/// torpedo concurrency cap.
pub fn spawn_torpedo_with(
    store: &mut Store,
    camera: Vec2i,
    fighter_kills: u32,
    fighter_down: bool,
    x: i64,
    to_right: bool,
    cooldown_ms: u64,
) -> (spawned: bool)
    requires
        old(store).wf(),
        old(store).next_id < u64::MAX,
        -CAMERA_LIMIT <= camera.x <= CAMERA_LIMIT,
        -CAMERA_LIMIT <= camera.y <= CAMERA_LIMIT,
        -SPAWN_X_RANGE <= x <= SPAWN_X_RANGE,
        TORPEDO_COOLDOWN_MIN_MS <= cooldown_ms <= TORPEDO_COOLDOWN_MAX_MS,
    ensures
        final(store).wf(),
        spawned == (fighter_down && fighter_kills > 0 && fighter_kills % TORPEDO_WAVE_KILLS == 0
            && kind_count(old(store).ships@, ShipKind::Torpedo) < TORPEDO_CAP),
        final(store).bullets@ == old(store).bullets@,
        spawned ==> final(store).ships@ == old(store).ships@.push(
            (Ship {
                id: old(store).next_id,
                kind: ShipKind::Torpedo,
                pos: Vec2i { x, y: (camera.y + TORPEDO_SPAWN_Y) as i64 },
                vel: if to_right {
                    Vec2i { x: TORPEDO_VEL_X, y: 0 }
                } else {
                    Vec2i { x: (-TORPEDO_VEL_X) as i64, y: 0 }
                },
                half: Vec2i { x: TORPEDO_HALF_X, y: TORPEDO_HALF_Y },
                hp: TORPEDO_HP,
                cooldown: RepeatTimer { duration_ms: cooldown_ms, elapsed_ms: 0 },
            }),
        ) && final(store).next_id == old(store).next_id + 1,
        !spawned ==> final(store).ships@ == old(store).ships@ && final(store).next_id == old(
            store,
        ).next_id,
{
    if !(fighter_down && fighter_kills > 0 && fighter_kills % TORPEDO_WAVE_KILLS == 0) {
        return false;
    }
    if store.count_kind(ShipKind::Torpedo) >= TORPEDO_CAP {
        return false;
    }
    let pos = Vec2i { x, y: camera.y + TORPEDO_SPAWN_Y };
    let vel = if to_right {
        Vec2i { x: TORPEDO_VEL_X, y: 0 }
    } else {
        Vec2i { x: -TORPEDO_VEL_X, y: 0 }
    };
    let half = Vec2i { x: TORPEDO_HALF_X, y: TORPEDO_HALF_Y };
    let cooldown = RepeatTimer::new(cooldown_ms);
    store.create_ship(ShipKind::Torpedo, pos, vel, half, TORPEDO_HP, cooldown);
    true
}

/// Attempt a torpedo spawn with randomized abscissa, heading and cooldown.
pub fn try_spawn_torpedo(
    store: &mut Store,
    camera: Vec2i,
    fighter_kills: u32,
    fighter_down: bool,
) -> (spawned: bool)
    requires
        old(store).wf(),
        old(store).next_id < u64::MAX,
        -CAMERA_LIMIT <= camera.x <= CAMERA_LIMIT,
        -CAMERA_LIMIT <= camera.y <= CAMERA_LIMIT,
    ensures
        final(store).wf(),
        spawned == (fighter_down && fighter_kills > 0 && fighter_kills % TORPEDO_WAVE_KILLS == 0
            && kind_count(old(store).ships@, ShipKind::Torpedo) < TORPEDO_CAP),
        final(store).bullets@ == old(store).bullets@,
        spawned ==> {
            let s = final(store).ships@.last();
            &&& final(store).ships@ == old(store).ships@.push(s)
            &&& final(store).next_id == old(store).next_id + 1
            &&& s.id == old(store).next_id
            &&& s.kind == ShipKind::Torpedo
            &&& s.hp == TORPEDO_HP
            &&& s.half == (Vec2i { x: TORPEDO_HALF_X, y: TORPEDO_HALF_Y })
            &&& -SPAWN_X_RANGE <= s.pos.x <= SPAWN_X_RANGE
            &&& s.pos.y - camera.y == TORPEDO_SPAWN_Y
            &&& (s.vel == (Vec2i { x: TORPEDO_VEL_X, y: 0 }) || s.vel == (Vec2i {
                x: (-TORPEDO_VEL_X) as i64,
                y: 0,
            }))
            &&& s.cooldown.elapsed_ms == 0
            &&& TORPEDO_COOLDOWN_MIN_MS <= s.cooldown.duration_ms <= TORPEDO_COOLDOWN_MAX_MS
        },
        !spawned ==> final(store).ships@ == old(store).ships@ && final(store).next_id == old(
            store,
        ).next_id,
{
    let x = rand_range_i64(-SPAWN_X_RANGE, SPAWN_X_RANGE);
    let cooldown_ms = rand_range_i64(
        TORPEDO_COOLDOWN_MIN_MS as i64,
        TORPEDO_COOLDOWN_MAX_MS as i64,
    ) as u64;
    let to_right = rand_coin();
    spawn_torpedo_with(store, camera, fighter_kills, fighter_down, x, to_right, cooldown_ms)
}

/// The bullet a firing player ship emits.
pub open spec fn player_bullet_for(p: Ship, id: u64) -> Bullet {
    Bullet {
        id,
        shooter: Affiliation::Player,
        pos: Vec2i {
            x: p.pos.x,
            y: clamp_spec(
                p.pos.y + MUZZLE_OFFSET,
                -WORLD_LIMIT as int,
                WORLD_LIMIT as int,
            ) as i64,
        },
        vel: Vec2i { x: 0, y: PLAYER_BULLET_SPEED },
        half: Vec2i { x: PLAYER_BULLET_HALF, y: PLAYER_BULLET_HALF },
    }
}

/// Fire the player's weapon on a fire edge.  The shot happens exactly when
/// fire was requested, a player ship is alive and the ammo pool is not
/// empty; firing with an empty pool creates no bullet and leaves the pool
/// unchanged.
pub fn player_fire(store: &mut Store, ammo: &mut u32, fire: bool) -> (fired: bool)
    requires
        old(store).wf(),
        old(store).next_id < u64::MAX,
    ensures
        final(store).wf(),
        fired == (fire && player_of(old(store).ships@) is Some && *old(ammo) > 0),
        final(store).ships@ == old(store).ships@,
        fired ==> {
            &&& *final(ammo) == *old(ammo) - 1
            &&& final(store).bullets@ == old(store).bullets@.push(
                player_bullet_for(player_of(old(store).ships@)->Some_0, old(store).next_id),
            )
            &&& final(store).next_id == old(store).next_id + 1
        },
        !fired ==> *final(ammo) == *old(ammo) && final(store).bullets@ == old(store).bullets@
            && final(store).next_id == old(store).next_id,
{
    if !fire {
        return false;
    }
    let player = store.player();
    match player {
        Option::None => false,
        Option::Some(p) => {
            if *ammo == 0 {
                return false;
            }
            proof {
                crate::entity::lemma_player_of_member(store.ships@);
                let i = choose|i: int|
                    0 <= i < store.ships@.len() && store.ships@[i] == player_of(store.ships@)->Some_0;
                assert(store.ships@[i].wf());
            }
            *ammo = *ammo - 1;
            let pos = Vec2i { x: p.pos.x, y: move_coord(p.pos.y, MUZZLE_OFFSET) };
            let vel = Vec2i { x: 0, y: PLAYER_BULLET_SPEED };
            let half = Vec2i { x: PLAYER_BULLET_HALF, y: PLAYER_BULLET_HALF };
            store.create_bullet(Affiliation::Player, pos, vel, half);
            true
        },
    }
}

/// The position the player ship holds, if one is alive.
pub open spec fn player_pos_of(ships: Seq<Ship>) -> Option<Vec2i> {
    match player_of(ships) {
        Option::Some(p) => Option::Some(p.pos),
        Option::None => Option::None,
    }
}

/// The cooldown of this ship crosses at least one interval boundary under
/// this update.
pub open spec fn cooldown_fires(s: Ship, delta_ms: u64) -> bool {
    (s.cooldown.elapsed_ms + delta_ms) / (s.cooldown.duration_ms as int) >= 1
}

/// Whether the ship fires this update: fighters whenever their cooldown
/// fires; torpedo ships only while a player is alive to aim at; the player
/// ship never fires on its own.
pub open spec fn ship_fires(s: Ship, delta_ms: u64, player_alive: bool) -> bool {
    match s.kind {
        ShipKind::PlayerShip => false,
        ShipKind::Fighter => cooldown_fires(s, delta_ms),
        ShipKind::Torpedo => player_alive && cooldown_fires(s, delta_ms),
    }
}

/// The ship with its cooldown advanced by this update.  A torpedo ship
/// holds its cooldown while no player is alive.
pub open spec fn ticked_ship(s: Ship, delta_ms: u64, player_alive: bool) -> Ship {
    if s.kind == ShipKind::Fighter || (s.kind == ShipKind::Torpedo && player_alive) {
        Ship {
            cooldown: RepeatTimer {
                duration_ms: s.cooldown.duration_ms,
                elapsed_ms: ((s.cooldown.elapsed_ms + delta_ms) % (
                s.cooldown.duration_ms as int)) as u64,
            },
            ..s
        }
    } else {
        s
    }
}

/// How many of the ships fire under this update.
pub open spec fn fire_count(ships: Seq<Ship>, delta_ms: u64, player_alive: bool) -> int
    decreases ships.len(),
{
    if ships.len() == 0 {
        0
    } else {
        fire_count(ships.drop_last(), delta_ms, player_alive) + if ship_fires(
            ships.last(),
            delta_ms,
            player_alive,
        ) {
            1int
        } else {
            0int
        }
    }
}

/// The muzzle of an enemy ship, two grid cells below its center.
pub open spec fn enemy_muzzle(s: Ship) -> Vec2i {
    Vec2i {
        x: s.pos.x,
        y: clamp_spec(s.pos.y - MUZZLE_OFFSET, -WORLD_LIMIT as int, WORLD_LIMIT as int) as i64,
    }
}

/// The bullet an enemy ship emits: fighters fire straight down, torpedo
/// ships aim at the player's position at the moment of firing and the shot
/// travels in a straight line thereafter.
pub open spec fn enemy_bullet_for(s: Ship, id: u64, target: Vec2i) -> Bullet {
    if s.kind == ShipKind::Torpedo {
        Bullet {
            id,
            shooter: Affiliation::Enemy,
            pos: enemy_muzzle(s),
            vel: aim_vel(enemy_muzzle(s), target, TORPEDO_BULLET_SPEED as int),
            half: Vec2i { x: TORPEDO_BULLET_HALF_X, y: TORPEDO_BULLET_HALF_Y },
        }
    } else {
        Bullet {
            id,
            shooter: Affiliation::Enemy,
            pos: enemy_muzzle(s),
            vel: Vec2i { x: 0, y: (-FIGHTER_BULLET_SPEED) as i64 },
            half: Vec2i { x: FIGHTER_BULLET_HALF_X, y: FIGHTER_BULLET_HALF_Y },
        }
    }
}

/// The bullets one enemy-weapon pass appends, in ship order, with fresh
/// identities drawn in order starting at `base`.
pub open spec fn emitted_bullets(
    ships: Seq<Ship>,
    delta_ms: u64,
    target: Option<Vec2i>,
    base: u64,
) -> Seq<Bullet>
    decreases ships.len(),
{
    if ships.len() == 0 {
        Seq::empty()
    } else {
        let front = emitted_bullets(ships.drop_last(), delta_ms, target, base);
        if ship_fires(ships.last(), delta_ms, target is Some) {
            front.push(
                enemy_bullet_for(
                    ships.last(),
                    (base + fire_count(ships.drop_last(), delta_ms, target is Some)) as u64,
                    if target is Some {
                        target->Some_0
                    } else {
                        Vec2i { x: 0, y: 0 }
                    },
                ),
            )
        } else {
            front
        }
    }
}

/// Every bullet an enemy-weapon pass emits is enemy-owned.
pub proof fn lemma_emitted_all_enemy(
    ships: Seq<Ship>,
    delta_ms: u64,
    target: Option<Vec2i>,
    base: u64,
)
    ensures
        forall|j: int|
            0 <= j < emitted_bullets(ships, delta_ms, target, base).len() ==> (
            #[trigger] emitted_bullets(ships, delta_ms, target, base)[j]).shooter
                == Affiliation::Enemy,
    decreases ships.len(),
{
    if ships.len() > 0 {
        lemma_emitted_all_enemy(ships.drop_last(), delta_ms, target, base);
        let whole = emitted_bullets(ships, delta_ms, target, base);
        let front = emitted_bullets(ships.drop_last(), delta_ms, target, base);
        assert forall|j: int| 0 <= j < whole.len() implies (#[trigger] whole[j]).shooter
            == Affiliation::Enemy by {
            if j < front.len() {
                assert(whole[j] == front[j]);
            }
        }
    }
}

/// Run every enemy weapon for one update: each fighter or torpedo cooldown
/// advances by the real delta, and every ship whose cooldown fires emits
/// one bullet, in ship order.  Torpedo ships hold their fire (and their
/// cooldown) while no player is alive.
pub fn enemy_fire(store: &mut Store, delta_ms: u64) -> (fired: usize)
    requires
        old(store).wf(),
        delta_ms <= crate::timer::DELTA_LIMIT_MS,
        old(store).next_id + old(store).ships@.len() <= u64::MAX,
    ensures
        final(store).wf(),
        final(store).ships@.len() == old(store).ships@.len(),
        forall|j: int|
            0 <= j < old(store).ships@.len() ==> final(store).ships@[j] == ticked_ship(
                old(store).ships@[j],
                delta_ms,
                player_of(old(store).ships@) is Some,
            ),
        final(store).bullets@ == old(store).bullets@ + emitted_bullets(
            old(store).ships@,
            delta_ms,
            player_pos_of(old(store).ships@),
            old(store).next_id,
        ),
        fired == fire_count(
            old(store).ships@,
            delta_ms,
            player_of(old(store).ships@) is Some,
        ),
        final(store).next_id == old(store).next_id + fired,
{
    let ghost old_ships = store.ships@;
    let ghost old_bullets = store.bullets@;
    let ghost base = store.next_id;
    let player_snapshot = store.player();
    let ghost alive = player_of(old_ships) is Some;
    let ghost ppos = player_pos_of(old_ships);

    // First pass: advance every cooldown and record who fires.
    let mut flags: Vec<bool> = Vec::new();
    let mut i: usize = 0;
    while i < store.ships.len()
        invariant
            i <= old_ships.len(),
            old(store).wf(),
            store.ships@.len() == old_ships.len(),
            store.bullets@ == old_bullets,
            store.next_id == old(store).next_id,
            old_ships == old(store).ships@,
            alive == (player_of(old_ships) is Some),
            player_snapshot == player_of(old_ships),
            delta_ms <= crate::timer::DELTA_LIMIT_MS,
            flags@.len() == i,
            forall|j: int| 0 <= j < i ==> flags@[j] == ship_fires(old_ships[j], delta_ms, alive),
            forall|j: int|
                0 <= j < i ==> store.ships@[j] == ticked_ship(old_ships[j], delta_ms, alive),
            forall|j: int| i <= j < old_ships.len() ==> store.ships@[j] == old_ships[j],
        decreases old_ships.len() - i,
    {
        let s = store.ships[i];
        proof {
            assert(s == old_ships[i as int]);
            assert(s.wf());
        }
        let fires: bool = match s.kind {
            ShipKind::PlayerShip => false,
            ShipKind::Fighter => {
                let mut cd = s.cooldown;
                let f = cd.tick(delta_ms);
                store.ships[i].cooldown = cd;
                f >= 1
            },
            ShipKind::Torpedo => {
                match player_snapshot {
                    Option::None => false,
                    Option::Some(_) => {
                        let mut cd = s.cooldown;
                        let f = cd.tick(delta_ms);
                        store.ships[i].cooldown = cd;
                        f >= 1
                    },
                }
            },
        };
        flags.push(fires);
        i = i + 1;
    }
    proof {
        assert forall|j: int| 0 <= j < store.ships@.len() implies #[trigger] store.ships@[j].wf()
            by {
            assert(store.ships@[j] == ticked_ship(old_ships[j], delta_ms, alive));
            assert(old_ships[j].wf());
        }
        assert forall|j1: int, j2: int|
            0 <= j1 < j2 < store.ships@.len() implies store.ships@[j1].id != store.ships@[j2].id by {
            assert(store.ships@[j1].id == old_ships[j1].id);
            assert(store.ships@[j2].id == old_ships[j2].id);
        }
        assert forall|j1: int, j2: int|
            0 <= j1 < store.ships@.len() && 0 <= j2 < store.ships@.len() && store.ships@[j1].kind
                == ShipKind::PlayerShip && store.ships@[j2].kind
                == ShipKind::PlayerShip implies j1 == j2 by {
            assert(store.ships@[j1].kind == old_ships[j1].kind);
            assert(store.ships@[j2].kind == old_ships[j2].kind);
        }
        assert forall|j: int|
            0 <= j < store.ships@.len() implies #[trigger] store.ships@[j].id < store.next_id by {
            assert(store.ships@[j].id == old_ships[j].id);
        }
        assert(store.wf());
    }

    // Second pass: emit one bullet per firing ship, identities in order.
    let ghost ticked = store.ships@;
    let mut fired: usize = 0;
    let mut k: usize = 0;
    while k < store.ships.len()
        invariant
            k <= old_ships.len(),
            old(store).wf(),
            store.wf(),
            store.ships@ == ticked,
            ticked.len() == old_ships.len(),
            old_ships == old(store).ships@,
            crate::entity::ships_wf(old_ships),
            alive == (player_of(old_ships) is Some),
            player_snapshot == player_of(old_ships),
            ppos == player_pos_of(old_ships),
            base == old(store).next_id,
            base + old_ships.len() <= u64::MAX,
            flags@.len() == old_ships.len(),
            forall|j: int| 0 <= j < flags@.len() ==> flags@[j] == ship_fires(old_ships[j], delta_ms, alive),
            forall|j: int|
                0 <= j < old_ships.len() ==> ticked[j] == ticked_ship(old_ships[j], delta_ms, alive),
            fired == fire_count(old_ships.take(k as int), delta_ms, alive),
            fired <= k,
            store.next_id == base + fired,
            store.bullets@ == old_bullets + emitted_bullets(
                old_ships.take(k as int),
                delta_ms,
                ppos,
                base,
            ),
        decreases old_ships.len() - k,
    {
        proof {
            assert(old_ships.take(k + 1).drop_last() =~= old_ships.take(k as int));
            assert(old_ships.take(k + 1).last() == old_ships[k as int]);
        }
        if flags[k] {
            let s = store.ships[k];
            proof {
                assert(s == ticked_ship(old_ships[k as int], delta_ms, alive));
                assert(s.pos == old_ships[k as int].pos);
                assert(s.kind == old_ships[k as int].kind);
                assert(old_ships[k as int].wf());
            }
            let muzzle = Vec2i { x: s.pos.x, y: move_coord(s.pos.y, -MUZZLE_OFFSET) };
            proof {
                assert(muzzle == enemy_muzzle(old_ships[k as int]));
            }
            if matches!(s.kind, ShipKind::Torpedo) {
                let target = match player_snapshot {
                    Option::Some(p) => p.pos,
                    Option::None => Vec2i { x: 0, y: 0 },
                };
                proof {
                    assert(alive);
                    crate::entity::lemma_player_of_member(old_ships);
                    let pi = choose|pi: int|
                        0 <= pi < old_ships.len() && old_ships[pi] == player_of(old_ships)->Some_0;
                    assert(old_ships[pi].wf());
                    assert(in_world(target));
                }
                let vel = aim_velocity(muzzle, target, TORPEDO_BULLET_SPEED);
                let half = Vec2i { x: TORPEDO_BULLET_HALF_X, y: TORPEDO_BULLET_HALF_Y };
                store.create_bullet(Affiliation::Enemy, muzzle, vel, half);
            } else {
                let vel = Vec2i { x: 0, y: -FIGHTER_BULLET_SPEED };
                let half = Vec2i { x: FIGHTER_BULLET_HALF_X, y: FIGHTER_BULLET_HALF_Y };
                store.create_bullet(Affiliation::Enemy, muzzle, vel, half);
            }
            fired = fired + 1;
        }
        k = k + 1;
    }
    proof {
        assert(old_ships.take(old_ships.len() as int) =~= old_ships);
    }
    fired
}

} // verus!

//! Collision detection and damage resolution.  Detection and application
//! are two separate phases: hits are first detected and flagged against the
//! current positions, then hit points change in a strictly later pass, so a
//! tick's damage reflects exactly the hits detected that tick.

use vstd::prelude::*;

use crate::entity::{
    at_most_one_player, bullet_ids_below, bullets_distinct, bullets_wf, kind_affiliation,
    player_bullet_count, ship_ids_below, ships_distinct, ships_wf, Bullet, Ship, ShipKind, Store,
};
use crate::geom::{overlaps, overlaps_spec, Vec2i};
use crate::spawn::PLAYER_AMMO_MAX;

verus! {

/// One detected hit: the bullet that struck and the ship it damaged.
#[derive(Clone, Copy, PartialEq, Eq, Structural, Debug)]
pub struct HitRecord {
    pub bullet: u64,
    pub target: u64,
}

/// One removed ship: its identity, subtype, and where it was destroyed.
#[derive(Clone, Copy, PartialEq, Eq, Structural, Debug)]
pub struct DespawnRecord {
    pub id: u64,
    pub kind: ShipKind,
    pub pos: Vec2i,
}

/// A bullet can damage a ship iff the ship's affiliation differs from the
/// bullet's shooter and their boxes overlap.
pub open spec fn can_hit(b: Bullet, s: Ship) -> bool {
    kind_affiliation(s.kind) != b.shooter && overlaps_spec(b.shape(), s.shape())
}

/// The index of the first ship at or after `i` that this bullet hits.
/// Iteration order is the tie-break: the first match wins.
pub open spec fn first_target_from(b: Bullet, ships: Seq<Ship>, i: int) -> Option<int>
    decreases ships.len() - i,
    when 0 <= i <= ships.len()
{
    if i >= ships.len() {
        Option::None
    } else if can_hit(b, ships[i]) {
        Option::Some(i)
    } else {
        first_target_from(b, ships, i + 1)
    }
}

/// The first ship this bullet hits, if any.
pub open spec fn first_target(b: Bullet, ships: Seq<Ship>) -> Option<int> {
    first_target_from(b, ships, 0)
}

/// What a first-target answer means: a hit index points at a ship the
/// bullet can hit and nothing before it can be hit; no answer means nothing
/// can be hit at all.
pub proof fn lemma_first_target_from_props(b: Bullet, ships: Seq<Ship>, i: int)
    requires
        0 <= i <= ships.len(),
    ensures
        match first_target_from(b, ships, i) {
            Option::Some(j) => i <= j < ships.len() && can_hit(b, ships[j]) && (forall|l: int|
                i <= l < j ==> !can_hit(b, ships[l])),
            Option::None => forall|l: int| i <= l < ships.len() ==> !can_hit(b, ships[l]),
        },
    decreases ships.len() - i,
{
    if i < ships.len() && !can_hit(b, ships[i]) {
        lemma_first_target_from_props(b, ships, i + 1);
    }
}

/// The hits one detection pass emits, in bullet order: each bullet
/// contributes at most one hit, against the first ship it can hit.
pub open spec fn detect_hits_spec(bullets: Seq<Bullet>, ships: Seq<Ship>) -> Seq<HitRecord>
    decreases bullets.len(),
{
    if bullets.len() == 0 {
        Seq::empty()
    } else {
        let front = detect_hits_spec(bullets.drop_last(), ships);
        match first_target(bullets.last(), ships) {
            Option::Some(j) => front.push(
                HitRecord { bullet: bullets.last().id, target: ships[j].id },
            ),
            Option::None => front,
        }
    }
}

/// The first ship a bullet hits, found by scanning in order.
fn find_first_target(b: &Bullet, ships: &Vec<Ship>) -> (r: Option<usize>)
    requires
        b.wf(),
        ships_wf(ships@),
    ensures
        match r {
            Option::Some(i) => i < ships@.len() && first_target(*b, ships@) == Option::Some(
                i as int,
            ),
            Option::None => first_target(*b, ships@) is None,
        },
{
    let mut i: usize = 0;
    while i < ships.len()
        invariant
            i <= ships@.len(),
            b.wf(),
            ships_wf(ships@),
            first_target(*b, ships@) == first_target_from(*b, ships@, i as int),
        decreases ships@.len() - i,
    {
        let s = ships[i];
        let hit = if matches!(b.shooter, crate::entity::Affiliation::Player) {
            !matches!(s.kind, ShipKind::PlayerShip)
        } else {
            matches!(s.kind, ShipKind::PlayerShip)
        };
        if hit {
            let b_box = crate::geom::Aabb { center: b.pos, half: b.half };
            let s_box = crate::geom::Aabb { center: s.pos, half: s.half };
            if overlaps(&b_box, &s_box) {
                return Option::Some(i);
            }
        }
        i = i + 1;
    }
    Option::None
}

/// Detect every hit of this tick, without changing any state.  Each live
/// bullet is tested in order against every live ship of the other
/// affiliation; the first overlap in ship order wins and yields exactly one
/// hit record.
pub fn detect_hits(store: &Store) -> (hits: Vec<HitRecord>)
    requires
        store.wf(),
    ensures
        hits@ == detect_hits_spec(store.bullets@, store.ships@),
{
    let mut hits: Vec<HitRecord> = Vec::new();
    let mut i: usize = 0;
    while i < store.bullets.len()
        invariant
            i <= store.bullets@.len(),
            store.wf(),
            hits@ == detect_hits_spec(store.bullets@.take(i as int), store.ships@),
        decreases store.bullets@.len() - i,
    {
        proof {
            assert(store.bullets@.take(i + 1).drop_last() =~= store.bullets@.take(i as int));
            assert(store.bullets@.take(i + 1).last() == store.bullets@[i as int]);
        }
        let b = store.bullets[i];
        match find_first_target(&b, &store.ships) {
            Option::Some(j) => {
                let target = store.ships[j].id;
                hits.push(HitRecord { bullet: b.id, target });
            },
            Option::None => {},
        }
        i = i + 1;
    }
    proof {
        assert(store.bullets@.take(store.bullets@.len() as int) =~= store.bullets@);
    }
    hits
}

/// A hit record is witnessed by a bullet and a ship whose affiliations
/// differ and whose boxes overlap.
pub open spec fn hit_witnessed(bullets: Seq<Bullet>, ships: Seq<Ship>, h: HitRecord) -> bool {
    exists|bi: int, si: int|
        0 <= bi < bullets.len() && 0 <= si < ships.len() && h.bullet == (
        #[trigger] bullets[bi]).id && h.target == (#[trigger] ships[si]).id && bullets[bi].shooter
            != kind_affiliation(ships[si].kind) && overlaps_spec(
            bullets[bi].shape(),
            ships[si].shape(),
        )
}

/// Every emitted hit comes from a bullet and a ship whose affiliations
/// differ and whose boxes overlap: a bullet over a ship of its own side
/// never generates a damage event.
pub proof fn lemma_no_friendly_fire(bullets: Seq<Bullet>, ships: Seq<Ship>)
    ensures
        forall|k: int|
            0 <= k < detect_hits_spec(bullets, ships).len() ==> hit_witnessed(
                bullets,
                ships,
                #[trigger] detect_hits_spec(bullets, ships)[k],
            ),
    decreases bullets.len(),
{
    if bullets.len() > 0 {
        lemma_no_friendly_fire(bullets.drop_last(), ships);
        let front = detect_hits_spec(bullets.drop_last(), ships);
        let whole = detect_hits_spec(bullets, ships);
        assert forall|k: int| 0 <= k < whole.len() implies hit_witnessed(
            bullets,
            ships,
            #[trigger] whole[k],
        ) by {
            if k < front.len() {
                assert(whole[k] == front[k]);
                assert(hit_witnessed(bullets.drop_last(), ships, front[k]));
                let (bi, si) = choose|bi: int, si: int|
                    0 <= bi < bullets.drop_last().len() && 0 <= si < ships.len() && front[k].bullet
                        == (#[trigger] bullets.drop_last()[bi]).id && front[k].target == (
                    #[trigger] ships[si]).id && bullets.drop_last()[bi].shooter != kind_affiliation(
                        ships[si].kind,
                    ) && overlaps_spec(bullets.drop_last()[bi].shape(), ships[si].shape());
                assert(bullets[bi] == bullets.drop_last()[bi]);
                assert(hit_witnessed(bullets, ships, whole[k]));
            } else {
                lemma_first_target_from_props(bullets.last(), ships, 0);
                let j = first_target(bullets.last(), ships)->Some_0;
                let bi = bullets.len() - 1;
                assert(bullets[bi] == bullets.last());
                assert(whole[k].bullet == bullets[bi].id && whole[k].target == ships[j].id
                    && bullets[bi].shooter != kind_affiliation(ships[j].kind) && overlaps_spec(
                    bullets[bi].shape(),
                    ships[j].shape(),
                ));
                assert(hit_witnessed(bullets, ships, whole[k]));
            }
        }
        assert(detect_hits_spec(bullets, ships) == whole);
    }
}

/// The bullets that survive detection: those that hit nothing.
pub open spec fn surviving_bullets_spec(bullets: Seq<Bullet>, ships: Seq<Ship>) -> Seq<Bullet>
    decreases bullets.len(),
{
    if bullets.len() == 0 {
        Seq::empty()
    } else {
        let front = surviving_bullets_spec(bullets.drop_last(), ships);
        if first_target(bullets.last(), ships) is Some {
            front
        } else {
            front.push(bullets.last())
        }
    }
}

/// How many consumed bullets belonged to the player; each returns one shot
/// to the ammo pool.
pub open spec fn consumed_player_count(bullets: Seq<Bullet>, ships: Seq<Ship>) -> int
    decreases bullets.len(),
{
    if bullets.len() == 0 {
        0
    } else {
        consumed_player_count(bullets.drop_last(), ships) + if first_target(bullets.last(), ships)
            is Some && bullets.last().shooter == crate::entity::Affiliation::Player {
            1int
        } else {
            0int
        }
    }
}

/// Consumed and surviving player bullets add up to all player bullets.
pub proof fn lemma_consumed_split(bullets: Seq<Bullet>, ships: Seq<Ship>)
    ensures
        0 <= consumed_player_count(bullets, ships),
        consumed_player_count(bullets, ships) + player_bullet_count(
            surviving_bullets_spec(bullets, ships),
        ) == player_bullet_count(bullets),
    decreases bullets.len(),
{
    if bullets.len() > 0 {
        lemma_consumed_split(bullets.drop_last(), ships);
        let front = surviving_bullets_spec(bullets.drop_last(), ships);
        if !(first_target(bullets.last(), ships) is Some) {
            let whole = surviving_bullets_spec(bullets, ships);
            assert(whole == front.push(bullets.last()));
            assert(whole.drop_last() =~= front);
            assert(whole.last() == bullets.last());
        }
    }
}

/// The player-bullet count of any sequence is between zero and its length.
pub proof fn lemma_player_bullet_count_nonneg(bullets: Seq<Bullet>)
    ensures
        0 <= player_bullet_count(bullets) <= bullets.len(),
    decreases bullets.len(),
{
    if bullets.len() > 0 {
        lemma_player_bullet_count_nonneg(bullets.drop_last());
    }
}

/// A prefix never holds more player bullets than the whole sequence.
pub proof fn lemma_player_bullet_count_take(bullets: Seq<Bullet>, i: int)
    requires
        0 <= i <= bullets.len(),
    ensures
        0 <= player_bullet_count(bullets.take(i)) <= player_bullet_count(bullets),
        player_bullet_count(bullets) <= bullets.len(),
    decreases bullets.len(),
{
    if bullets.len() == 0 {
        assert(bullets.take(i) =~= bullets);
    } else if i == bullets.len() {
        assert(bullets.take(i) =~= bullets);
        lemma_player_bullet_count_take(bullets.drop_last(), i - 1);
    } else {
        assert(bullets.take(i) =~= bullets.drop_last().take(i));
        lemma_player_bullet_count_take(bullets.drop_last(), i);
    }
}

/// Membership and identity facts about the surviving bullets.
pub proof fn lemma_surviving_props(bullets: Seq<Bullet>, ships: Seq<Ship>)
    ensures
        surviving_bullets_spec(bullets, ships).len() <= bullets.len(),
        forall|j: int|
            0 <= j < surviving_bullets_spec(bullets, ships).len() ==> bullets.contains(
                #[trigger] surviving_bullets_spec(bullets, ships)[j],
            ),
        forall|j: int|
            0 <= j < surviving_bullets_spec(bullets, ships).len() ==> first_target(
                #[trigger] surviving_bullets_spec(bullets, ships)[j],
                ships,
            ) is None,
    decreases bullets.len(),
{
    if bullets.len() > 0 {
        lemma_surviving_props(bullets.drop_last(), ships);
        let r = surviving_bullets_spec(bullets, ships);
        let rp = surviving_bullets_spec(bullets.drop_last(), ships);
        assert forall|j: int| 0 <= j < r.len() implies bullets.contains(#[trigger] r[j])
            && first_target(r[j], ships) is None by {
            if !(first_target(bullets.last(), ships) is Some) && j == r.len() - 1 {
                assert(r[j] == bullets.last());
                assert(bullets[bullets.len() - 1] == bullets.last());
            } else {
                assert(r[j] == rp[j]);
                assert(bullets.drop_last().contains(rp[j]));
                let l = choose|l: int|
                    0 <= l < bullets.drop_last().len() && bullets.drop_last()[l] == rp[j];
                assert(bullets[l] == rp[j]);
            }
        }
    }
}

/// Two surviving positions never hold the same record when the source
/// identities are distinct.
proof fn lemma_surviving_no_dup(bullets: Seq<Bullet>, ships: Seq<Ship>, j1: int, j2: int)
    requires
        bullets_distinct(bullets),
        0 <= j1 < j2 < surviving_bullets_spec(bullets, ships).len(),
    ensures
        surviving_bullets_spec(bullets, ships)[j1] != surviving_bullets_spec(bullets, ships)[j2],
    decreases bullets.len(),
{
    let r = surviving_bullets_spec(bullets, ships);
    let rp = surviving_bullets_spec(bullets.drop_last(), ships);
    lemma_surviving_props(bullets.drop_last(), ships);
    if bullets.len() > 0 {
        if first_target(bullets.last(), ships) is Some {
            lemma_surviving_no_dup(bullets.drop_last(), ships, j1, j2);
        } else {
            if j2 == r.len() - 1 {
                let i1 = choose|i: int|
                    0 <= i < bullets.drop_last().len() && bullets.drop_last()[i] == rp[j1];
                assert(bullets[i1] == bullets.drop_last()[i1]);
                assert(bullets[i1].id != bullets[bullets.len() - 1].id);
                assert(r[j1] == rp[j1]);
            } else {
                lemma_surviving_no_dup(bullets.drop_last(), ships, j1, j2);
                assert(r[j1] == rp[j1] && r[j2] == rp[j2]);
            }
        }
    }
}

/// The surviving bullets keep every store invariant.
pub proof fn lemma_surviving_wf(bullets: Seq<Bullet>, ships: Seq<Ship>, next: u64)
    requires
        bullets_distinct(bullets),
    ensures
        bullets_distinct(surviving_bullets_spec(bullets, ships)),
        bullets_wf(bullets) ==> bullets_wf(surviving_bullets_spec(bullets, ships)),
        bullet_ids_below(bullets, next) ==> bullet_ids_below(
            surviving_bullets_spec(bullets, ships),
            next,
        ),
{
    lemma_surviving_props(bullets, ships);
    let r = surviving_bullets_spec(bullets, ships);
    assert forall|j1: int, j2: int| 0 <= j1 < j2 < r.len() implies r[j1].id != r[j2].id by {
        let i1 = choose|i: int| 0 <= i < bullets.len() && bullets[i] == r[j1];
        let i2 = choose|i: int| 0 <= i < bullets.len() && bullets[i] == r[j2];
        if i1 == i2 {
            assert(r[j1] == r[j2]);
            lemma_surviving_no_dup(bullets, ships, j1, j2);
        }
    }
    assert forall|j: int| 0 <= j < r.len() implies (bullets_wf(bullets) ==> #[trigger] r[j].wf())
        && (bullet_ids_below(bullets, next) ==> r[j].id < next) by {
        let i = choose|i: int| 0 <= i < bullets.len() && bullets[i] == r[j];
    }
}

/// Remove every bullet that hit something, returning each consumed player
/// bullet's shot to the ammo pool.  Ship records are untouched: damage is
/// applied in a later pass.
pub fn consume_hit_bullets(store: &mut Store, ammo: &mut u32)
    requires
        old(store).wf(),
        *old(ammo) + player_bullet_count(old(store).bullets@) <= PLAYER_AMMO_MAX,
    ensures
        final(store).wf(),
        final(store).ships@ == old(store).ships@,
        final(store).next_id == old(store).next_id,
        final(store).bullets@ == surviving_bullets_spec(old(store).bullets@, old(store).ships@),
        *final(ammo) == *old(ammo) + consumed_player_count(
            old(store).bullets@,
            old(store).ships@,
        ),
        *final(ammo) + player_bullet_count(final(store).bullets@) == *old(ammo)
            + player_bullet_count(old(store).bullets@),
{
    let ghost old_bullets = store.bullets@;
    let ghost ships_view = store.ships@;
    let mut out: Vec<Bullet> = Vec::new();
    let mut i: usize = 0;
    while i < store.bullets.len()
        invariant
            i <= old_bullets.len(),
            store.wf(),
            store.bullets@ == old_bullets,
            store.ships@ == ships_view,
            out@ == surviving_bullets_spec(old_bullets.take(i as int), ships_view),
            *ammo == *old(ammo) + consumed_player_count(old_bullets.take(i as int), ships_view),
            *old(ammo) + player_bullet_count(old_bullets) <= PLAYER_AMMO_MAX,
        decreases old_bullets.len() - i,
    {
        proof {
            assert(old_bullets.take(i + 1).drop_last() =~= old_bullets.take(i as int));
            assert(old_bullets.take(i + 1).last() == old_bullets[i as int]);
            lemma_consumed_split(old_bullets.take(i + 1), ships_view);
            lemma_player_bullet_count_take(old_bullets, i + 1);
            lemma_consumed_split(old_bullets.take(i as int), ships_view);
            lemma_player_bullet_count_take(old_bullets, i as int);
            lemma_player_bullet_count_nonneg(
                surviving_bullets_spec(old_bullets.take(i + 1), ships_view),
            );
            assert(consumed_player_count(old_bullets.take(i + 1), ships_view)
                <= player_bullet_count(old_bullets));
        }
        let b = store.bullets[i];
        match find_first_target(&b, &store.ships) {
            Option::Some(_) => {
                if matches!(b.shooter, crate::entity::Affiliation::Player) {
                    *ammo = *ammo + 1;
                }
            },
            Option::None => {
                out.push(b);
            },
        }
        i = i + 1;
    }
    proof {
        assert(old_bullets.take(old_bullets.len() as int) =~= old_bullets);
    }
    store.bullets = out;
    proof {
        lemma_surviving_wf(old_bullets, ships_view, store.next_id);
        lemma_consumed_split(old_bullets, ships_view);
    }
}

/// The ships that survive lifecycle culling: those with hit points left.
pub open spec fn alive_ships(s: Seq<Ship>) -> Seq<Ship>
    decreases s.len(),
{
    if s.len() == 0 {
        Seq::empty()
    } else {
        let front = alive_ships(s.drop_last());
        if s.last().hp > 0 {
            front.push(s.last())
        } else {
            front
        }
    }
}

/// One despawn record per removed ship, in ship order.
pub open spec fn dead_records(s: Seq<Ship>) -> Seq<DespawnRecord>
    decreases s.len(),
{
    if s.len() == 0 {
        Seq::empty()
    } else {
        let front = dead_records(s.drop_last());
        if s.last().hp == 0 {
            front.push(DespawnRecord { id: s.last().id, kind: s.last().kind, pos: s.last().pos })
        } else {
            front
        }
    }
}

/// How many ships of this subtype are removed.
pub open spec fn dead_kind_count(s: Seq<Ship>, k: ShipKind) -> int
    decreases s.len(),
{
    if s.len() == 0 {
        0
    } else {
        dead_kind_count(s.drop_last(), k) + if s.last().hp == 0 && s.last().kind == k {
            1int
        } else {
            0int
        }
    }
}

/// Membership facts about the surviving ships.
pub proof fn lemma_alive_props(s: Seq<Ship>)
    ensures
        alive_ships(s).len() <= s.len(),
        forall|j: int| 0 <= j < alive_ships(s).len() ==> s.contains(#[trigger] alive_ships(s)[j]),
        forall|j: int| 0 <= j < alive_ships(s).len() ==> alive_ships(s)[j].hp > 0,
    decreases s.len(),
{
    if s.len() > 0 {
        lemma_alive_props(s.drop_last());
        let r = alive_ships(s);
        let rp = alive_ships(s.drop_last());
        assert forall|j: int| 0 <= j < r.len() implies s.contains(#[trigger] r[j]) && r[j].hp
            > 0 by {
            if s.last().hp > 0 && j == r.len() - 1 {
                assert(r[j] == s.last());
                assert(s[s.len() - 1] == s.last());
            } else {
                assert(r[j] == rp[j]);
                assert(s.drop_last().contains(rp[j]));
                let l = choose|l: int| 0 <= l < s.drop_last().len() && s.drop_last()[l] == rp[j];
                assert(s[l] == rp[j]);
            }
        }
    }
}

/// Two surviving positions never hold the same record when the source
/// identities are distinct.
proof fn lemma_alive_no_dup(s: Seq<Ship>, j1: int, j2: int)
    requires
        ships_distinct(s),
        0 <= j1 < j2 < alive_ships(s).len(),
    ensures
        alive_ships(s)[j1] != alive_ships(s)[j2],
    decreases s.len(),
{
    let r = alive_ships(s);
    let rp = alive_ships(s.drop_last());
    lemma_alive_props(s.drop_last());
    if s.len() > 0 {
        if s.last().hp == 0 {
            lemma_alive_no_dup(s.drop_last(), j1, j2);
        } else {
            if j2 == r.len() - 1 {
                let i1 = choose|i: int| 0 <= i < s.drop_last().len() && s.drop_last()[i] == rp[j1];
                assert(s[i1] == s.drop_last()[i1]);
                assert(s[i1].id != s[s.len() - 1].id);
                assert(r[j1] == rp[j1]);
            } else {
                lemma_alive_no_dup(s.drop_last(), j1, j2);
                assert(r[j1] == rp[j1] && r[j2] == rp[j2]);
            }
        }
    }
}

/// The surviving ships keep every store invariant.
pub proof fn lemma_alive_wf(s: Seq<Ship>, next: u64)
    requires
        ships_distinct(s),
    ensures
        ships_distinct(alive_ships(s)),
        ships_wf(s) ==> ships_wf(alive_ships(s)),
        ship_ids_below(s, next) ==> ship_ids_below(alive_ships(s), next),
        at_most_one_player(s) ==> at_most_one_player(alive_ships(s)),
{
    lemma_alive_props(s);
    let r = alive_ships(s);
    assert forall|j1: int, j2: int| 0 <= j1 < j2 < r.len() implies r[j1].id != r[j2].id by {
        let i1 = choose|i: int| 0 <= i < s.len() && s[i] == r[j1];
        let i2 = choose|i: int| 0 <= i < s.len() && s[i] == r[j2];
        if i1 == i2 {
            assert(r[j1] == r[j2]);
            lemma_alive_no_dup(s, j1, j2);
        }
    }
    if at_most_one_player(s) {
        assert forall|j1: int, j2: int|
            0 <= j1 < r.len() && 0 <= j2 < r.len() && r[j1].kind == ShipKind::PlayerShip
                && r[j2].kind == ShipKind::PlayerShip implies j1 == j2 by {
            if j1 != j2 {
                let i1 = choose|i: int| 0 <= i < s.len() && s[i] == r[j1];
                let i2 = choose|i: int| 0 <= i < s.len() && s[i] == r[j2];
                assert(i1 == i2);
                assert(r[j1] == r[j2]);
                if j1 < j2 {
                    lemma_alive_no_dup(s, j1, j2);
                } else {
                    lemma_alive_no_dup(s, j2, j1);
                }
            }
        }
    }
    assert forall|j: int| 0 <= j < r.len() implies (ships_wf(s) ==> #[trigger] r[j].wf()) && (
    ship_ids_below(s, next) ==> r[j].id < next) by {
        let i = choose|i: int| 0 <= i < s.len() && s[i] == r[j];
    }
}

/// What one lifecycle pass returns: the despawn events and the two
/// transition flags the state machine and the torpedo spawner read.
pub struct CullOutcome {
    pub events: Vec<DespawnRecord>,
    pub player_down: bool,
    pub fighter_down: bool,
}

/// Remove every ship whose hit points reached zero.  Each removal emits
/// exactly one despawn record and bumps the matching kill counter once;
/// the outcome flags whether the player or a fighter was among the
/// removed.
pub fn cull_dead(store: &mut Store, score: &mut crate::score::Score) -> (out: CullOutcome)
    requires
        old(store).wf(),
        old(store).ships@.len() <= u32::MAX,
    ensures
        final(store).wf(),
        final(store).bullets@ == old(store).bullets@,
        final(store).next_id == old(store).next_id,
        final(store).ships@ == alive_ships(old(store).ships@),
        out.events@ == dead_records(old(store).ships@),
        final(score).fighter == crate::score::sat_add_u32(
            old(score).fighter,
            dead_kind_count(old(store).ships@, ShipKind::Fighter),
        ),
        final(score).torpedo == crate::score::sat_add_u32(
            old(score).torpedo,
            dead_kind_count(old(store).ships@, ShipKind::Torpedo),
        ),
        out.player_down == (dead_kind_count(old(store).ships@, ShipKind::PlayerShip) > 0),
        out.fighter_down == (dead_kind_count(old(store).ships@, ShipKind::Fighter) > 0),
{
    let ghost old_ships = store.ships@;
    let mut kept: Vec<Ship> = Vec::new();
    let mut events: Vec<DespawnRecord> = Vec::new();
    let mut fighters_down: u32 = 0;
    let mut torpedoes_down: u32 = 0;
    let mut player_down = false;
    let mut i: usize = 0;
    while i < store.ships.len()
        invariant
            i <= old_ships.len(),
            old_ships.len() <= u32::MAX,
            store.ships@ == old_ships,
            kept@ == alive_ships(old_ships.take(i as int)),
            events@ == dead_records(old_ships.take(i as int)),
            fighters_down == dead_kind_count(old_ships.take(i as int), ShipKind::Fighter),
            torpedoes_down == dead_kind_count(old_ships.take(i as int), ShipKind::Torpedo),
            player_down ==> dead_kind_count(old_ships.take(i as int), ShipKind::PlayerShip) > 0,
            !player_down ==> dead_kind_count(old_ships.take(i as int), ShipKind::PlayerShip) == 0,
            fighters_down <= i,
            torpedoes_down <= i,
        decreases old_ships.len() - i,
    {
        proof {
            assert(old_ships.take(i + 1).drop_last() =~= old_ships.take(i as int));
            assert(old_ships.take(i + 1).last() == old_ships[i as int]);
        }
        let s = store.ships[i];
        if s.hp > 0 {
            kept.push(s);
        } else {
            events.push(DespawnRecord { id: s.id, kind: s.kind, pos: s.pos });
            match s.kind {
                ShipKind::Fighter => {
                    fighters_down = fighters_down + 1;
                },
                ShipKind::Torpedo => {
                    torpedoes_down = torpedoes_down + 1;
                },
                ShipKind::PlayerShip => {
                    player_down = true;
                },
            }
        }
        i = i + 1;
    }
    proof {
        assert(old_ships.take(old_ships.len() as int) =~= old_ships);
    }
    store.ships = kept;
    score.add_fighter_kills(fighters_down);
    score.add_torpedo_kills(torpedoes_down);
    proof {
        lemma_alive_wf(old_ships, store.next_id);
    }
    CullOutcome { events, player_down, fighter_down: fighters_down > 0 }
}

/// A bullet is outside the camera-relative visible rectangle, by either
/// axis independently; touching the expanded edge counts as outside.
pub open spec fn offscreen(b: Bullet, cam: Vec2i) -> bool {
    ||| b.pos.x <= cam.x - crate::motion::WINDOW_HALF_W - b.half.x
    ||| b.pos.x >= cam.x + crate::motion::WINDOW_HALF_W + b.half.x
    ||| b.pos.y <= cam.y - crate::motion::WINDOW_HALF_H - b.half.y
    ||| b.pos.y >= cam.y + crate::motion::WINDOW_HALF_H + b.half.y
}

/// The bullets still on screen.
pub open spec fn onscreen_bullets(s: Seq<Bullet>, cam: Vec2i) -> Seq<Bullet>
    decreases s.len(),
{
    if s.len() == 0 {
        Seq::empty()
    } else {
        let front = onscreen_bullets(s.drop_last(), cam);
        if offscreen(s.last(), cam) {
            front
        } else {
            front.push(s.last())
        }
    }
}

/// The identities of the bullets culled offscreen, in order.
pub open spec fn offscreen_ids(s: Seq<Bullet>, cam: Vec2i) -> Seq<u64>
    decreases s.len(),
{
    if s.len() == 0 {
        Seq::empty()
    } else {
        let front = offscreen_ids(s.drop_last(), cam);
        if offscreen(s.last(), cam) {
            front.push(s.last().id)
        } else {
            front
        }
    }
}

/// How many culled bullets belonged to the player.
pub open spec fn offscreen_player_count(s: Seq<Bullet>, cam: Vec2i) -> int
    decreases s.len(),
{
    if s.len() == 0 {
        0
    } else {
        offscreen_player_count(s.drop_last(), cam) + if offscreen(s.last(), cam) && s.last().shooter
            == crate::entity::Affiliation::Player {
            1int
        } else {
            0int
        }
    }
}

/// Culled and kept player bullets add up to all player bullets.
pub proof fn lemma_offscreen_split(s: Seq<Bullet>, cam: Vec2i)
    ensures
        0 <= offscreen_player_count(s, cam),
        offscreen_player_count(s, cam) + player_bullet_count(onscreen_bullets(s, cam))
            == player_bullet_count(s),
    decreases s.len(),
{
    if s.len() > 0 {
        lemma_offscreen_split(s.drop_last(), cam);
        let front = onscreen_bullets(s.drop_last(), cam);
        if !offscreen(s.last(), cam) {
            let whole = onscreen_bullets(s, cam);
            assert(whole == front.push(s.last()));
            assert(whole.drop_last() =~= front);
            assert(whole.last() == s.last());
        }
    }
}

/// Membership facts about the bullets kept on screen.
pub proof fn lemma_onscreen_props(s: Seq<Bullet>, cam: Vec2i)
    ensures
        onscreen_bullets(s, cam).len() <= s.len(),
        forall|j: int|
            0 <= j < onscreen_bullets(s, cam).len() ==> s.contains(
                #[trigger] onscreen_bullets(s, cam)[j],
            ),
        forall|j: int|
            0 <= j < onscreen_bullets(s, cam).len() ==> !offscreen(onscreen_bullets(s, cam)[j], cam),
    decreases s.len(),
{
    if s.len() > 0 {
        lemma_onscreen_props(s.drop_last(), cam);
        let r = onscreen_bullets(s, cam);
        let rp = onscreen_bullets(s.drop_last(), cam);
        assert forall|j: int| 0 <= j < r.len() implies s.contains(#[trigger] r[j]) && !offscreen(
            r[j],
            cam,
        ) by {
            if !offscreen(s.last(), cam) && j == r.len() - 1 {
                assert(r[j] == s.last());
                assert(s[s.len() - 1] == s.last());
            } else {
                assert(r[j] == rp[j]);
                assert(s.drop_last().contains(rp[j]));
                let l = choose|l: int| 0 <= l < s.drop_last().len() && s.drop_last()[l] == rp[j];
                assert(s[l] == rp[j]);
            }
        }
    }
}

/// Two kept positions never hold the same record when the source
/// identities are distinct.
proof fn lemma_onscreen_no_dup(s: Seq<Bullet>, cam: Vec2i, j1: int, j2: int)
    requires
        bullets_distinct(s),
        0 <= j1 < j2 < onscreen_bullets(s, cam).len(),
    ensures
        onscreen_bullets(s, cam)[j1] != onscreen_bullets(s, cam)[j2],
    decreases s.len(),
{
    let r = onscreen_bullets(s, cam);
    let rp = onscreen_bullets(s.drop_last(), cam);
    lemma_onscreen_props(s.drop_last(), cam);
    if s.len() > 0 {
        if offscreen(s.last(), cam) {
            lemma_onscreen_no_dup(s.drop_last(), cam, j1, j2);
        } else {
            if j2 == r.len() - 1 {
                let i1 = choose|i: int| 0 <= i < s.drop_last().len() && s.drop_last()[i] == rp[j1];
                assert(s[i1] == s.drop_last()[i1]);
                assert(s[i1].id != s[s.len() - 1].id);
                assert(r[j1] == rp[j1]);
            } else {
                lemma_onscreen_no_dup(s.drop_last(), cam, j1, j2);
                assert(r[j1] == rp[j1] && r[j2] == rp[j2]);
            }
        }
    }
}

/// The kept bullets keep every store invariant.
pub proof fn lemma_onscreen_wf(s: Seq<Bullet>, cam: Vec2i, next: u64)
    requires
        bullets_distinct(s),
    ensures
        bullets_distinct(onscreen_bullets(s, cam)),
        bullets_wf(s) ==> bullets_wf(onscreen_bullets(s, cam)),
        bullet_ids_below(s, next) ==> bullet_ids_below(onscreen_bullets(s, cam), next),
{
    lemma_onscreen_props(s, cam);
    let r = onscreen_bullets(s, cam);
    assert forall|j1: int, j2: int| 0 <= j1 < j2 < r.len() implies r[j1].id != r[j2].id by {
        let i1 = choose|i: int| 0 <= i < s.len() && s[i] == r[j1];
        let i2 = choose|i: int| 0 <= i < s.len() && s[i] == r[j2];
        if i1 == i2 {
            assert(r[j1] == r[j2]);
            lemma_onscreen_no_dup(s, cam, j1, j2);
        }
    }
    assert forall|j: int| 0 <= j < r.len() implies (bullets_wf(s) ==> #[trigger] r[j].wf()) && (
    bullet_ids_below(s, next) ==> r[j].id < next) by {
        let i = choose|i: int| 0 <= i < s.len() && s[i] == r[j];
    }
}

/// Remove every bullet outside the camera-relative visible rectangle,
/// returning each removed player bullet's shot to the ammo pool.  Ships
/// are never culled by position.
pub fn cull_offscreen(store: &mut Store, ammo: &mut u32, camera: Vec2i) -> (removed: Vec<u64>)
    requires
        old(store).wf(),
        -crate::geom::CAMERA_LIMIT <= camera.x <= crate::geom::CAMERA_LIMIT,
        -crate::geom::CAMERA_LIMIT <= camera.y <= crate::geom::CAMERA_LIMIT,
        *old(ammo) + player_bullet_count(old(store).bullets@) <= PLAYER_AMMO_MAX,
    ensures
        final(store).wf(),
        final(store).ships@ == old(store).ships@,
        final(store).next_id == old(store).next_id,
        final(store).bullets@ == onscreen_bullets(old(store).bullets@, camera),
        removed@ == offscreen_ids(old(store).bullets@, camera),
        *final(ammo) == *old(ammo) + offscreen_player_count(old(store).bullets@, camera),
        *final(ammo) + player_bullet_count(final(store).bullets@) == *old(ammo)
            + player_bullet_count(old(store).bullets@),
{
    let ghost old_bullets = store.bullets@;
    let mut kept: Vec<Bullet> = Vec::new();
    let mut removed: Vec<u64> = Vec::new();
    let mut i: usize = 0;
    while i < store.bullets.len()
        invariant
            i <= old_bullets.len(),
            store.wf(),
            store.bullets@ == old_bullets,
            -crate::geom::CAMERA_LIMIT <= camera.x <= crate::geom::CAMERA_LIMIT,
            -crate::geom::CAMERA_LIMIT <= camera.y <= crate::geom::CAMERA_LIMIT,
            kept@ == onscreen_bullets(old_bullets.take(i as int), camera),
            removed@ == offscreen_ids(old_bullets.take(i as int), camera),
            *ammo == *old(ammo) + offscreen_player_count(old_bullets.take(i as int), camera),
            *old(ammo) + player_bullet_count(old_bullets) <= PLAYER_AMMO_MAX,
        decreases old_bullets.len() - i,
    {
        proof {
            assert(old_bullets.take(i + 1).drop_last() =~= old_bullets.take(i as int));
            assert(old_bullets.take(i + 1).last() == old_bullets[i as int]);
            lemma_offscreen_split(old_bullets.take(i + 1), camera);
            lemma_player_bullet_count_take(old_bullets, i + 1);
            lemma_offscreen_split(old_bullets.take(i as int), camera);
            lemma_player_bullet_count_take(old_bullets, i as int);
            lemma_player_bullet_count_nonneg(
                onscreen_bullets(old_bullets.take(i + 1), camera),
            );
            assert(offscreen_player_count(old_bullets.take(i + 1), camera)
                <= player_bullet_count(old_bullets));
        }
        let b = store.bullets[i];
        let off = b.pos.x <= camera.x - crate::motion::WINDOW_HALF_W - b.half.x || b.pos.x
            >= camera.x + crate::motion::WINDOW_HALF_W + b.half.x || b.pos.y <= camera.y
            - crate::motion::WINDOW_HALF_H - b.half.y || b.pos.y >= camera.y
            + crate::motion::WINDOW_HALF_H + b.half.y;
        if off {
            removed.push(b.id);
            if matches!(b.shooter, crate::entity::Affiliation::Player) {
                *ammo = *ammo + 1;
            }
        } else {
            kept.push(b);
        }
        i = i + 1;
    }
    proof {
        assert(old_bullets.take(old_bullets.len() as int) =~= old_bullets);
    }
    store.bullets = kept;
    proof {
        lemma_onscreen_wf(old_bullets, camera, store.next_id);
        lemma_offscreen_split(old_bullets, camera);
    }
    removed
}

/// How many of these hits this bullet identity generated.
pub open spec fn hit_count_for_bullet(hits: Seq<HitRecord>, id: u64) -> int
    decreases hits.len(),
{
    if hits.len() == 0 {
        0
    } else {
        hit_count_for_bullet(hits.drop_last(), id) + if hits.last().bullet == id {
            1int
        } else {
            0int
        }
    }
}

/// Bullets whose identity occurs nowhere generate no hits.
proof fn lemma_hit_count_absent(bullets: Seq<Bullet>, ships: Seq<Ship>, id: u64)
    requires
        forall|bi: int| 0 <= bi < bullets.len() ==> bullets[bi].id != id,
    ensures
        hit_count_for_bullet(detect_hits_spec(bullets, ships), id) == 0,
    decreases bullets.len(),
{
    if bullets.len() > 0 {
        assert(forall|bi: int|
            0 <= bi < bullets.drop_last().len() ==> bullets.drop_last()[bi].id != id);
        lemma_hit_count_absent(bullets.drop_last(), ships, id);
        let whole = detect_hits_spec(bullets, ships);
        let front = detect_hits_spec(bullets.drop_last(), ships);
        assert(bullets[bullets.len() - 1] == bullets.last());
        if first_target(bullets.last(), ships) is Some {
            assert(whole.drop_last() =~= front);
            assert(whole.last().bullet == bullets.last().id);
        }
    }
}

/// Each bullet generates exactly one hit if it strikes and none otherwise.
pub proof fn lemma_hit_count_exact(bullets: Seq<Bullet>, ships: Seq<Ship>, bi: int)
    requires
        bullets_distinct(bullets),
        0 <= bi < bullets.len(),
    ensures
        hit_count_for_bullet(detect_hits_spec(bullets, ships), bullets[bi].id) == if first_target(
            bullets[bi],
            ships,
        ) is Some {
            1int
        } else {
            0int
        },
    decreases bullets.len(),
{
    let whole = detect_hits_spec(bullets, ships);
    let front = detect_hits_spec(bullets.drop_last(), ships);
    if bi == bullets.len() - 1 {
        assert(bullets[bi] == bullets.last());
        assert(forall|l: int|
            0 <= l < bullets.drop_last().len() ==> bullets.drop_last()[l].id != bullets[bi].id);
        lemma_hit_count_absent(bullets.drop_last(), ships, bullets[bi].id);
        if first_target(bullets.last(), ships) is Some {
            assert(whole.drop_last() =~= front);
            assert(whole.last().bullet == bullets[bi].id);
        }
    } else {
        assert(bullets.drop_last()[bi] == bullets[bi]);
        lemma_hit_count_exact(bullets.drop_last(), ships, bi);
        if first_target(bullets.last(), ships) is Some {
            assert(whole.drop_last() =~= front);
            assert(whole.last().bullet == bullets.last().id);
            assert(bullets[bullets.len() - 1] == bullets.last());
            assert(bullets.last().id != bullets[bi].id);
        }
    }
}

/// Every identity culled offscreen belongs to a bullet that survived
/// detection.
proof fn lemma_offscreen_ids_member(s: Seq<Bullet>, cam: Vec2i)
    ensures
        forall|j: int|
            0 <= j < offscreen_ids(s, cam).len() ==> exists|l: int|
                0 <= l < s.len() && (#[trigger] offscreen_ids(s, cam)[j]) == s[l].id,
    decreases s.len(),
{
    if s.len() > 0 {
        lemma_offscreen_ids_member(s.drop_last(), cam);
        let r = offscreen_ids(s, cam);
        let rp = offscreen_ids(s.drop_last(), cam);
        assert forall|j: int| 0 <= j < r.len() implies exists|l: int|
            0 <= l < s.len() && (#[trigger] r[j]) == s[l].id by {
            if offscreen(s.last(), cam) && j == r.len() - 1 {
                assert(r[j] == s.last().id);
                assert(s[s.len() - 1] == s.last());
            } else {
                assert(r[j] == rp[j]);
                let l = choose|l: int|
                    0 <= l < s.drop_last().len() && rp[j] == s.drop_last()[l].id;
                assert(s[l].id == rp[j]);
            }
        }
    }
}

/// After a tick with exactly `k` distinct hits against a ship and no heal,
/// its hit points drop by exactly `k`; the ship is removed exactly when the
/// result reaches zero, and each such removal yields exactly one despawn
/// record.
pub proof fn lemma_hits_drop_hp_and_cull(s: Ship, k: int)
    requires
        0 <= k,
    ensures
        damaged_ship(s, k).hp == if k >= s.hp {
            0int
        } else {
            s.hp - k
        },
        (damaged_ship(s, k).hp == 0) == (k >= s.hp),
        alive_ships(seq![damaged_ship(s, k)]).len() == (if k >= s.hp {
            0int
        } else {
            1int
        }),
        dead_records(seq![damaged_ship(s, k)]).len() == (if k >= s.hp {
            1int
        } else {
            0int
        }),
{
    reveal_with_fuel(alive_ships, 2);
    reveal_with_fuel(dead_records, 2);
    let d = damaged_ship(s, k);
    assert(seq![d].drop_last() =~= Seq::<Ship>::empty());
    assert(seq![d].last() == d);
}

/// A hit tally is never negative.
pub proof fn lemma_hit_count_for_bullet_nonneg(hits: Seq<HitRecord>, id: u64)
    ensures
        0 <= hit_count_for_bullet(hits, id),
    decreases hits.len(),
{
    if hits.len() > 0 {
        lemma_hit_count_for_bullet_nonneg(hits.drop_last(), id);
    }
}

/// An identity with a zero hit tally occurs in no hit record.
pub proof fn lemma_hit_count_zero(hits: Seq<HitRecord>, id: u64)
    requires
        hit_count_for_bullet(hits, id) == 0,
    ensures
        forall|k: int| 0 <= k < hits.len() ==> (#[trigger] hits[k]).bullet != id,
    decreases hits.len(),
{
    if hits.len() > 0 {
        lemma_hit_count_for_bullet_nonneg(hits.drop_last(), id);
        assert(hit_count_for_bullet(hits.drop_last(), id) == 0);
        lemma_hit_count_zero(hits.drop_last(), id);
        assert forall|k: int| 0 <= k < hits.len() implies (#[trigger] hits[k]).bullet != id by {
            if k == hits.len() - 1 {
                assert(hits[k] == hits.last());
            } else {
                assert(hits.drop_last()[k] == hits[k]);
            }
        }
    }
}

/// A subtype is among the removed exactly when one of the despawn records
/// names it.
pub proof fn lemma_dead_records_kind(s: Seq<Ship>, k: ShipKind)
    ensures
        0 <= dead_kind_count(s, k),
        (dead_kind_count(s, k) > 0) == (exists|j: int|
            0 <= j < dead_records(s).len() && (#[trigger] dead_records(s)[j]).kind == k),
    decreases s.len(),
{
    if s.len() > 0 {
        lemma_dead_records_kind(s.drop_last(), k);
        let whole = dead_records(s);
        let front = dead_records(s.drop_last());
        if s.last().hp == 0 {
            assert(whole == front.push(
                DespawnRecord { id: s.last().id, kind: s.last().kind, pos: s.last().pos },
            ));
            assert(forall|j: int| 0 <= j < front.len() ==> whole[j] == #[trigger] front[j]);
            if s.last().kind == k {
                assert(whole[whole.len() - 1].kind == k);
            } else {
                if exists|j: int| 0 <= j < whole.len() && (#[trigger] whole[j]).kind == k {
                    let j = choose|j: int| 0 <= j < whole.len() && (#[trigger] whole[j]).kind == k;
                    assert(j < front.len());
                }
            }
        } else {
            assert(whole == front);
        }
    }
}

/// Enemy-owned bullets never change the player-bullet tally.
pub proof fn lemma_player_bullet_count_append_enemy(b: Seq<Bullet>, e: Seq<Bullet>)
    requires
        forall|j: int|
            0 <= j < e.len() ==> (#[trigger] e[j]).shooter == crate::entity::Affiliation::Enemy,
    ensures
        player_bullet_count(b + e) == player_bullet_count(b),
    decreases e.len(),
{
    if e.len() == 0 {
        assert(b + e =~= b);
    } else {
        assert(forall|j: int|
            0 <= j < e.drop_last().len() ==> (#[trigger] e.drop_last()[j]).shooter
                == crate::entity::Affiliation::Enemy);
        lemma_player_bullet_count_append_enemy(b, e.drop_last());
        assert((b + e).drop_last() =~= b + e.drop_last());
        assert((b + e).last() == e.last());
        assert(e[e.len() - 1] == e.last());
    }
}

/// Motion never changes the player-bullet tally.
pub proof fn lemma_player_bullet_count_moved(b: Seq<Bullet>)
    ensures
        player_bullet_count(b.map_values(|x: Bullet| crate::motion::moved_bullet(x)))
            == player_bullet_count(b),
    decreases b.len(),
{
    if b.len() > 0 {
        lemma_player_bullet_count_moved(b.drop_last());
        let m = b.map_values(|x: Bullet| crate::motion::moved_bullet(x));
        assert(m.drop_last() =~= b.drop_last().map_values(
            |x: Bullet| crate::motion::moved_bullet(x),
        ));
        assert(m.last() == crate::motion::moved_bullet(b.last()));
    }
}

/// A bullet is removed at most once in its lifetime, by exactly one of a
/// hit or leaving the screen: each bullet generates one hit removal exactly
/// when it strikes a target, and no identity culled offscreen after
/// detection ever generated a hit.
pub proof fn lemma_bullet_removed_once(bullets: Seq<Bullet>, ships: Seq<Ship>, cam: Vec2i)
    requires
        bullets_distinct(bullets),
    ensures
        forall|bi: int|
            0 <= bi < bullets.len() ==> hit_count_for_bullet(
                detect_hits_spec(bullets, ships),
                (#[trigger] bullets[bi]).id,
            ) == if first_target(bullets[bi], ships) is Some {
                1int
            } else {
                0int
            },
        forall|j: int|
            0 <= j < offscreen_ids(surviving_bullets_spec(bullets, ships), cam).len()
                ==> hit_count_for_bullet(
                detect_hits_spec(bullets, ships),
                #[trigger] offscreen_ids(surviving_bullets_spec(bullets, ships), cam)[j],
            ) == 0,
{
    assert forall|bi: int| 0 <= bi < bullets.len() implies hit_count_for_bullet(
        detect_hits_spec(bullets, ships),
        (#[trigger] bullets[bi]).id,
    ) == if first_target(bullets[bi], ships) is Some {
        1int
    } else {
        0int
    } by {
        lemma_hit_count_exact(bullets, ships, bi);
    }
    let survivors = surviving_bullets_spec(bullets, ships);
    lemma_surviving_props(bullets, ships);
    lemma_offscreen_ids_member(survivors, cam);
    assert forall|j: int| 0 <= j < offscreen_ids(survivors, cam).len() implies hit_count_for_bullet(
        detect_hits_spec(bullets, ships),
        #[trigger] offscreen_ids(survivors, cam)[j],
    ) == 0 by {
        let l = choose|l: int|
            0 <= l < survivors.len() && offscreen_ids(survivors, cam)[j] == survivors[l].id;
        assert(bullets.contains(survivors[l]));
        let bi = choose|bi: int| 0 <= bi < bullets.len() && bullets[bi] == survivors[l];
        assert(first_target(bullets[bi], ships) is None);
        lemma_hit_count_exact(bullets, ships, bi);
    }
}

/// How many of these hits name this target.
pub open spec fn hits_on(hits: Seq<HitRecord>, id: u64) -> int
    decreases hits.len(),
{
    if hits.len() == 0 {
        0
    } else {
        hits_on(hits.drop_last(), id) + if hits.last().target == id {
            1int
        } else {
            0int
        }
    }
}

/// A ship after `k` hits: its hit points drop by exactly `k`, to no less
/// than zero.
pub open spec fn damaged_ship(s: Ship, k: int) -> Ship {
    Ship {
        hp: if k >= s.hp {
            0u32
        } else {
            (s.hp - k) as u32
        },
        ..s
    }
}

/// Apply the detected hits to ship hit points: each ship loses exactly one
/// hit point per hit that names it, saturating at zero.
pub fn apply_damage(store: &mut Store, hits: &Vec<HitRecord>)
    requires
        old(store).wf(),
    ensures
        final(store).wf(),
        final(store).bullets@ == old(store).bullets@,
        final(store).next_id == old(store).next_id,
        final(store).ships@.len() == old(store).ships@.len(),
        forall|j: int|
            0 <= j < old(store).ships@.len() ==> final(store).ships@[j] == damaged_ship(
                old(store).ships@[j],
                hits_on(hits@, old(store).ships@[j].id),
            ),
{
    let ghost old_ships = store.ships@;
    let mut i: usize = 0;
    while i < store.ships.len()
        invariant
            i <= old_ships.len(),
            store.ships@.len() == old_ships.len(),
            store.bullets@ == old(store).bullets@,
            store.next_id == old(store).next_id,
            crate::entity::ships_wf(old_ships),
            forall|j: int|
                0 <= j < i ==> store.ships@[j] == damaged_ship(
                    old_ships[j],
                    hits_on(hits@, old_ships[j].id),
                ),
            forall|j: int| i <= j < old_ships.len() ==> store.ships@[j] == old_ships[j],
        decreases old_ships.len() - i,
    {
        let s = store.ships[i];
        let mut count: usize = 0;
        let mut h: usize = 0;
        while h < hits.len()
            invariant
                h <= hits@.len(),
                count <= h,
                count == hits_on(hits@.take(h as int), s.id),
            decreases hits@.len() - h,
        {
            proof {
                assert(hits@.take(h + 1).drop_last() =~= hits@.take(h as int));
                assert(hits@.take(h + 1).last() == hits@[h as int]);
            }
            if hits[h].target == s.id {
                count = count + 1;
            }
            h = h + 1;
        }
        proof {
            assert(hits@.take(hits@.len() as int) =~= hits@);
        }
        let new_hp: u32 = if (count as u64) >= (s.hp as u64) {
            0
        } else {
            s.hp - (count as u32)
        };
        store.ships[i].hp = new_hp;
        i = i + 1;
    }
    proof {
        assert forall|j: int| 0 <= j < store.ships@.len() implies #[trigger] store.ships@[j].wf()
            by {
            assert(store.ships@[j] == damaged_ship(old_ships[j], hits_on(hits@, old_ships[j].id)));
            assert(old_ships[j].wf());
        }
        assert forall|j1: int, j2: int|
            0 <= j1 < j2 < store.ships@.len() implies store.ships@[j1].id != store.ships@[j2].id by {
            assert(store.ships@[j1].id == old_ships[j1].id);
            assert(store.ships@[j2].id == old_ships[j2].id);
        }
        assert forall|j1: int, j2: int|
            0 <= j1 < store.ships@.len() && 0 <= j2 < store.ships@.len() && store.ships@[j1].kind
                == ShipKind::PlayerShip && store.ships@[j2].kind
                == ShipKind::PlayerShip implies j1 == j2 by {
            assert(store.ships@[j1].kind == old_ships[j1].kind);
            assert(store.ships@[j2].kind == old_ships[j2].kind);
        }
        assert forall|j: int|
            0 <= j < store.ships@.len() implies #[trigger] store.ships@[j].id < store.next_id by {
            assert(store.ships@[j].id == old_ships[j].id);
        }
    }
}

} // verus!

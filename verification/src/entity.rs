//! The entity store: it owns every live ship and bullet record, hands out
//! opaque identities that are never reused, and supports creation, removal
//! by identity (idempotent) and snapshot iteration.

use vstd::prelude::*;

use crate::geom::{in_world, Aabb, Vec2i, HALF_EXTENT_LIMIT, SPEED_LIMIT};
use crate::timer::RepeatTimer;

verus! {

/// Who owns an entity, for the damage rules: player bullets only damage
/// enemies, enemy bullets only damage the player.
#[derive(Clone, Copy, PartialEq, Eq, Structural, Debug)]
pub enum Affiliation {
    Player,
    Enemy,
}

/// The ship subtypes.  Fighters are light and fast, torpedo ships are heavy
/// and slow and aim their shots at the player.
#[derive(Clone, Copy, PartialEq, Eq, Structural, Debug)]
pub enum ShipKind {
    PlayerShip,
    Fighter,
    Torpedo,
}

/// The affiliation of a ship subtype.
pub open spec fn kind_affiliation(k: ShipKind) -> Affiliation {
    match k {
        ShipKind::PlayerShip => Affiliation::Player,
        ShipKind::Fighter => Affiliation::Enemy,
        ShipKind::Torpedo => Affiliation::Enemy,
    }
}

/// Executable form of `kind_affiliation`.
pub fn affiliation_of(k: ShipKind) -> (r: Affiliation)
    ensures
        r == kind_affiliation(k),
{
    match k {
        ShipKind::PlayerShip => Affiliation::Player,
        ShipKind::Fighter => Affiliation::Enemy,
        ShipKind::Torpedo => Affiliation::Enemy,
    }
}

/// One live ship record.  Velocity is in sub-units per tick; the fire
/// cooldown ticks on real time.
#[derive(Clone, Copy, PartialEq, Eq, Structural, Debug)]
pub struct Ship {
    pub id: u64,
    pub kind: ShipKind,
    pub pos: Vec2i,
    pub vel: Vec2i,
    pub half: Vec2i,
    pub hp: u32,
    pub cooldown: RepeatTimer,
}

impl Ship {
    /// Well-formed: position inside the world, bounded velocity and half
    /// extents, well-formed cooldown timer.
    pub open spec fn wf(self) -> bool {
        &&& in_world(self.pos)
        &&& -SPEED_LIMIT <= self.vel.x <= SPEED_LIMIT
        &&& -SPEED_LIMIT <= self.vel.y <= SPEED_LIMIT
        &&& 0 <= self.half.x <= HALF_EXTENT_LIMIT
        &&& 0 <= self.half.y <= HALF_EXTENT_LIMIT
        &&& self.cooldown.wf()
    }

    /// The ship's collision box.
    pub open spec fn shape(self) -> Aabb {
        Aabb { center: self.pos, half: self.half }
    }
}

/// One live bullet record.  Velocity is in sub-units per tick.
#[derive(Clone, Copy, PartialEq, Eq, Structural, Debug)]
pub struct Bullet {
    pub id: u64,
    pub shooter: Affiliation,
    pub pos: Vec2i,
    pub vel: Vec2i,
    pub half: Vec2i,
}

impl Bullet {
    /// Well-formed: position inside the world, bounded velocity and half
    /// extents.
    pub open spec fn wf(self) -> bool {
        &&& in_world(self.pos)
        &&& -SPEED_LIMIT <= self.vel.x <= SPEED_LIMIT
        &&& -SPEED_LIMIT <= self.vel.y <= SPEED_LIMIT
        &&& 0 <= self.half.x <= HALF_EXTENT_LIMIT
        &&& 0 <= self.half.y <= HALF_EXTENT_LIMIT
    }

    /// The bullet's collision box.
    pub open spec fn shape(self) -> Aabb {
        Aabb { center: self.pos, half: self.half }
    }
}

/// Every ship in the sequence is well-formed.
pub open spec fn ships_wf(s: Seq<Ship>) -> bool {
    forall|i: int| 0 <= i < s.len() ==> s[i].wf()
}

/// Every bullet in the sequence is well-formed.
pub open spec fn bullets_wf(s: Seq<Bullet>) -> bool {
    forall|i: int| 0 <= i < s.len() ==> s[i].wf()
}

/// Every ship identity was drawn before `next`.
pub open spec fn ship_ids_below(s: Seq<Ship>, next: u64) -> bool {
    forall|i: int| 0 <= i < s.len() ==> s[i].id < next
}

/// Every bullet identity was drawn before `next`.
pub open spec fn bullet_ids_below(s: Seq<Bullet>, next: u64) -> bool {
    forall|i: int| 0 <= i < s.len() ==> s[i].id < next
}

/// No two ships share an identity.
pub open spec fn ships_distinct(s: Seq<Ship>) -> bool {
    forall|i: int, j: int| 0 <= i < j < s.len() ==> s[i].id != s[j].id
}

/// No two bullets share an identity.
pub open spec fn bullets_distinct(s: Seq<Bullet>) -> bool {
    forall|i: int, j: int| 0 <= i < j < s.len() ==> s[i].id != s[j].id
}

/// At most one player ship exists at any time.
pub open spec fn at_most_one_player(s: Seq<Ship>) -> bool {
    forall|i: int, j: int|
        0 <= i < s.len() && 0 <= j < s.len() && s[i].kind == ShipKind::PlayerShip && s[j].kind
            == ShipKind::PlayerShip ==> i == j
}

/// How many ships of the given subtype are alive.
pub open spec fn kind_count(s: Seq<Ship>, k: ShipKind) -> int
    decreases s.len(),
{
    if s.len() == 0 {
        0
    } else {
        kind_count(s.drop_last(), k) + if s.last().kind == k {
            1int
        } else {
            0int
        }
    }
}

/// How many bullets belong to the player.
pub open spec fn player_bullet_count(s: Seq<Bullet>) -> int
    decreases s.len(),
{
    if s.len() == 0 {
        0
    } else {
        player_bullet_count(s.drop_last()) + if s.last().shooter == Affiliation::Player {
            1int
        } else {
            0int
        }
    }
}

/// The ships of one subtype, in order.
pub open spec fn ships_of_kind_spec(s: Seq<Ship>, k: ShipKind) -> Seq<Ship>
    decreases s.len(),
{
    if s.len() == 0 {
        Seq::empty()
    } else {
        let front = ships_of_kind_spec(s.drop_last(), k);
        if s.last().kind == k {
            front.push(s.last())
        } else {
            front
        }
    }
}

/// The typed snapshot holds one entry per ship of the subtype.
pub proof fn lemma_ships_of_kind_len(s: Seq<Ship>, k: ShipKind)
    ensures
        ships_of_kind_spec(s, k).len() == kind_count(s, k),
    decreases s.len(),
{
    if s.len() > 0 {
        lemma_ships_of_kind_len(s.drop_last(), k);
    }
}

/// The first player ship of the sequence, if any.
pub open spec fn player_of(s: Seq<Ship>) -> Option<Ship>
    decreases s.len(),
{
    if s.len() == 0 {
        Option::None
    } else if player_of(s.drop_last()) is Some {
        player_of(s.drop_last())
    } else if s.last().kind == ShipKind::PlayerShip {
        Option::Some(s.last())
    } else {
        Option::None
    }
}

/// The ships with the given identity taken out, order otherwise kept.
pub open spec fn remove_ship_id(s: Seq<Ship>, id: u64) -> Seq<Ship>
    decreases s.len(),
{
    if s.len() == 0 {
        Seq::empty()
    } else if s.last().id == id {
        remove_ship_id(s.drop_last(), id)
    } else {
        remove_ship_id(s.drop_last(), id).push(s.last())
    }
}

/// The bullets with the given identity taken out, order otherwise kept.
pub open spec fn remove_bullet_id(s: Seq<Bullet>, id: u64) -> Seq<Bullet>
    decreases s.len(),
{
    if s.len() == 0 {
        Seq::empty()
    } else if s.last().id == id {
        remove_bullet_id(s.drop_last(), id)
    } else {
        remove_bullet_id(s.drop_last(), id).push(s.last())
    }
}

/// Removal keeps only elements of the original, never one carrying the
/// removed identity.
pub proof fn lemma_remove_ship_id_props(s: Seq<Ship>, id: u64)
    ensures
        remove_ship_id(s, id).len() <= s.len(),
        forall|j: int|
            0 <= j < remove_ship_id(s, id).len() ==> s.contains(
                #[trigger] remove_ship_id(s, id)[j],
            ),
        forall|j: int| 0 <= j < remove_ship_id(s, id).len() ==> remove_ship_id(s, id)[j].id != id,
    decreases s.len(),
{
    if s.len() > 0 {
        lemma_remove_ship_id_props(s.drop_last(), id);
        assert forall|j: int|
            0 <= j < remove_ship_id(s, id).len() implies s.contains(
            #[trigger] remove_ship_id(s, id)[j],
        ) by {
            let r = remove_ship_id(s, id);
            let rp = remove_ship_id(s.drop_last(), id);
            if s.last().id != id && j == r.len() - 1 {
                assert(r[j] == s.last());
                assert(s[s.len() - 1] == s.last());
            } else {
                assert(rp[j] == r[j]);
                assert(s.drop_last().contains(rp[j]));
                let i = choose|i: int| 0 <= i < s.drop_last().len() && s.drop_last()[i] == rp[j];
                assert(s[i] == rp[j]);
            }
        }
    }
}

/// Removal preserves distinct identities and every per-element bound.
pub proof fn lemma_remove_ship_id_wf(s: Seq<Ship>, id: u64, next: u64)
    requires
        ships_distinct(s),
    ensures
        ships_distinct(remove_ship_id(s, id)),
        ships_wf(s) ==> ships_wf(remove_ship_id(s, id)),
        ship_ids_below(s, next) ==> ship_ids_below(remove_ship_id(s, id), next),
        at_most_one_player(s) ==> at_most_one_player(remove_ship_id(s, id)),
    decreases s.len(),
{
    lemma_remove_ship_id_props(s, id);
    let r = remove_ship_id(s, id);
    assert forall|j1: int, j2: int| 0 <= j1 < j2 < r.len() implies r[j1].id != r[j2].id by {
        let i1 = choose|i: int| 0 <= i < s.len() && s[i] == r[j1];
        let i2 = choose|i: int| 0 <= i < s.len() && s[i] == r[j2];
        if i1 == i2 {
            assert(r[j1] == r[j2]);
            lemma_remove_ship_id_no_dup(s, id, j1, j2);
        }
    }
    if at_most_one_player(s) {
        assert forall|j1: int, j2: int|
            0 <= j1 < r.len() && 0 <= j2 < r.len() && r[j1].kind == ShipKind::PlayerShip
                && r[j2].kind == ShipKind::PlayerShip implies j1 == j2 by {
            if j1 != j2 {
                let i1 = choose|i: int| 0 <= i < s.len() && s[i] == r[j1];
                let i2 = choose|i: int| 0 <= i < s.len() && s[i] == r[j2];
                assert(i1 == i2);
                assert(r[j1] == r[j2]);
                if j1 < j2 {
                    lemma_remove_ship_id_no_dup(s, id, j1, j2);
                } else {
                    lemma_remove_ship_id_no_dup(s, id, j2, j1);
                }
            }
        }
    }
    assert forall|j: int| 0 <= j < r.len() implies (ships_wf(s) ==> #[trigger] r[j].wf()) && (
    ship_ids_below(s, next) ==> r[j].id < next) by {
        let i = choose|i: int| 0 <= i < s.len() && s[i] == r[j];
    }
}

/// Two distinct positions of the removal result never hold the same record
/// when the source identities are distinct.
proof fn lemma_remove_ship_id_no_dup(s: Seq<Ship>, id: u64, j1: int, j2: int)
    requires
        ships_distinct(s),
        0 <= j1 < j2 < remove_ship_id(s, id).len(),
    ensures
        remove_ship_id(s, id)[j1] != remove_ship_id(s, id)[j2],
    decreases s.len(),
{
    let r = remove_ship_id(s, id);
    let rp = remove_ship_id(s.drop_last(), id);
    lemma_remove_ship_id_props(s.drop_last(), id);
    if s.len() > 0 {
        if s.last().id == id {
            lemma_remove_ship_id_no_dup(s.drop_last(), id, j1, j2);
        } else {
            if j2 == r.len() - 1 {
                // r[j2] is s.last(); r[j1] comes from the front, whose ids
                // all differ from s.last().id.
                let i1 = choose|i: int| 0 <= i < s.drop_last().len() && s.drop_last()[i] == rp[j1];
                assert(s[i1] == s.drop_last()[i1]);
                assert(s[i1].id != s[s.len() - 1].id);
                assert(r[j1] == rp[j1]);
            } else {
                lemma_remove_ship_id_no_dup(s.drop_last(), id, j1, j2);
                assert(r[j1] == rp[j1] && r[j2] == rp[j2]);
            }
        }
    }
}

/// Removing an identity that no element carries changes nothing.
pub proof fn lemma_remove_ship_id_absent(s: Seq<Ship>, id: u64)
    requires
        forall|i: int| 0 <= i < s.len() ==> s[i].id != id,
    ensures
        remove_ship_id(s, id) == s,
    decreases s.len(),
{
    if s.len() > 0 {
        assert(forall|i: int| 0 <= i < s.drop_last().len() ==> s.drop_last()[i].id != id);
        lemma_remove_ship_id_absent(s.drop_last(), id);
        assert(s[s.len() - 1] == s.last());
        assert(remove_ship_id(s, id) =~= s);
    } else {
        assert(remove_ship_id(s, id) =~= s);
    }
}

/// Removing the same identity twice is the same as removing it once.
pub proof fn lemma_remove_ship_id_idempotent(s: Seq<Ship>, id: u64)
    ensures
        remove_ship_id(remove_ship_id(s, id), id) == remove_ship_id(s, id),
{
    lemma_remove_ship_id_props(s, id);
    lemma_remove_ship_id_absent(remove_ship_id(s, id), id);
}

/// Removing an identity that no element carries changes nothing.
pub proof fn lemma_remove_bullet_id_absent(s: Seq<Bullet>, id: u64)
    requires
        forall|i: int| 0 <= i < s.len() ==> s[i].id != id,
    ensures
        remove_bullet_id(s, id) == s,
    decreases s.len(),
{
    if s.len() > 0 {
        assert(forall|i: int| 0 <= i < s.drop_last().len() ==> s.drop_last()[i].id != id);
        lemma_remove_bullet_id_absent(s.drop_last(), id);
        assert(s[s.len() - 1] == s.last());
        assert(remove_bullet_id(s, id) =~= s);
    } else {
        assert(remove_bullet_id(s, id) =~= s);
    }
}

/// Removing the same identity twice is the same as removing it once.
pub proof fn lemma_remove_bullet_id_idempotent(s: Seq<Bullet>, id: u64)
    ensures
        remove_bullet_id(remove_bullet_id(s, id), id) == remove_bullet_id(s, id),
{
    lemma_remove_bullet_id_props(s, id);
    lemma_remove_bullet_id_absent(remove_bullet_id(s, id), id);
}

/// Removal keeps only elements of the original, never one carrying the
/// removed identity.
pub proof fn lemma_remove_bullet_id_props(s: Seq<Bullet>, id: u64)
    ensures
        remove_bullet_id(s, id).len() <= s.len(),
        forall|j: int|
            0 <= j < remove_bullet_id(s, id).len() ==> s.contains(
                #[trigger] remove_bullet_id(s, id)[j],
            ),
        forall|j: int|
            0 <= j < remove_bullet_id(s, id).len() ==> remove_bullet_id(s, id)[j].id != id,
    decreases s.len(),
{
    if s.len() > 0 {
        lemma_remove_bullet_id_props(s.drop_last(), id);
        assert forall|j: int|
            0 <= j < remove_bullet_id(s, id).len() implies s.contains(
            #[trigger] remove_bullet_id(s, id)[j],
        ) by {
            let r = remove_bullet_id(s, id);
            let rp = remove_bullet_id(s.drop_last(), id);
            if s.last().id != id && j == r.len() - 1 {
                assert(r[j] == s.last());
                assert(s[s.len() - 1] == s.last());
            } else {
                assert(rp[j] == r[j]);
                assert(s.drop_last().contains(rp[j]));
                let i = choose|i: int| 0 <= i < s.drop_last().len() && s.drop_last()[i] == rp[j];
                assert(s[i] == rp[j]);
            }
        }
    }
}

/// Two distinct positions of the removal result never hold the same record
/// when the source identities are distinct.
proof fn lemma_remove_bullet_id_no_dup(s: Seq<Bullet>, id: u64, j1: int, j2: int)
    requires
        bullets_distinct(s),
        0 <= j1 < j2 < remove_bullet_id(s, id).len(),
    ensures
        remove_bullet_id(s, id)[j1] != remove_bullet_id(s, id)[j2],
    decreases s.len(),
{
    let r = remove_bullet_id(s, id);
    let rp = remove_bullet_id(s.drop_last(), id);
    lemma_remove_bullet_id_props(s.drop_last(), id);
    if s.len() > 0 {
        if s.last().id == id {
            lemma_remove_bullet_id_no_dup(s.drop_last(), id, j1, j2);
        } else {
            if j2 == r.len() - 1 {
                let i1 = choose|i: int| 0 <= i < s.drop_last().len() && s.drop_last()[i] == rp[j1];
                assert(s[i1] == s.drop_last()[i1]);
                assert(s[i1].id != s[s.len() - 1].id);
                assert(r[j1] == rp[j1]);
            } else {
                lemma_remove_bullet_id_no_dup(s.drop_last(), id, j1, j2);
                assert(r[j1] == rp[j1] && r[j2] == rp[j2]);
            }
        }
    }
}

/// Removal preserves distinct identities and every per-element bound.
pub proof fn lemma_remove_bullet_id_wf(s: Seq<Bullet>, id: u64, next: u64)
    requires
        bullets_distinct(s),
    ensures
        bullets_distinct(remove_bullet_id(s, id)),
        bullets_wf(s) ==> bullets_wf(remove_bullet_id(s, id)),
        bullet_ids_below(s, next) ==> bullet_ids_below(remove_bullet_id(s, id), next),
        player_bullet_count(remove_bullet_id(s, id)) <= player_bullet_count(s),
    decreases s.len(),
{
    lemma_remove_bullet_id_props(s, id);
    let r = remove_bullet_id(s, id);
    assert forall|j1: int, j2: int| 0 <= j1 < j2 < r.len() implies r[j1].id != r[j2].id by {
        let i1 = choose|i: int| 0 <= i < s.len() && s[i] == r[j1];
        let i2 = choose|i: int| 0 <= i < s.len() && s[i] == r[j2];
        if i1 == i2 {
            assert(r[j1] == r[j2]);
            lemma_remove_bullet_id_no_dup(s, id, j1, j2);
        }
    }
    assert forall|j: int| 0 <= j < r.len() implies (bullets_wf(s) ==> #[trigger] r[j].wf()) && (
    bullet_ids_below(s, next) ==> r[j].id < next) by {
        let i = choose|i: int| 0 <= i < s.len() && s[i] == r[j];
    }
    if s.len() > 0 {
        assert(bullets_distinct(s.drop_last()));
        lemma_remove_bullet_id_wf(s.drop_last(), id, next);
        let rp = remove_bullet_id(s.drop_last(), id);
        if s.last().id != id {
            assert(r == rp.push(s.last()));
            assert(r.drop_last() =~= rp);
            assert(r.last() == s.last());
            assert(player_bullet_count(r) == player_bullet_count(rp) + if s.last().shooter
                == Affiliation::Player {
                1int
            } else {
                0int
            });
        }
    }
}

/// The entity store.  Identities are drawn from a counter that only grows,
/// so an identity is never reused.
pub struct Store {
    pub next_id: u64,
    pub ships: Vec<Ship>,
    pub bullets: Vec<Bullet>,
}

impl Store {
    /// Well-formed: every record is well-formed, every identity was drawn
    /// from the counter and is unique, and at most one player ship exists.
    pub open spec fn wf(self) -> bool {
        &&& ships_wf(self.ships@)
        &&& bullets_wf(self.bullets@)
        &&& ship_ids_below(self.ships@, self.next_id)
        &&& bullet_ids_below(self.bullets@, self.next_id)
        &&& ships_distinct(self.ships@)
        &&& bullets_distinct(self.bullets@)
        &&& at_most_one_player(self.ships@)
    }

    /// A ship of this subtype is alive.
    pub open spec fn has_player(self) -> bool {
        player_of(self.ships@) is Some
    }

    /// An empty store.
    pub fn new() -> (r: Store)
        ensures
            r.wf(),
            r.ships@.len() == 0,
            r.bullets@.len() == 0,
            r.next_id == 0,
    {
        Store { next_id: 0, ships: Vec::new(), bullets: Vec::new() }
    }

    /// Create a ship and return its fresh identity.
    pub fn create_ship(
        &mut self,
        kind: ShipKind,
        pos: Vec2i,
        vel: Vec2i,
        half: Vec2i,
        hp: u32,
        cooldown: RepeatTimer,
    ) -> (id: u64)
        requires
            old(self).wf(),
            old(self).next_id < u64::MAX,
            in_world(pos),
            -SPEED_LIMIT <= vel.x <= SPEED_LIMIT,
            -SPEED_LIMIT <= vel.y <= SPEED_LIMIT,
            0 <= half.x <= HALF_EXTENT_LIMIT,
            0 <= half.y <= HALF_EXTENT_LIMIT,
            cooldown.wf(),
            kind == ShipKind::PlayerShip ==> !old(self).has_player(),
        ensures
            final(self).wf(),
            id == old(self).next_id,
            final(self).next_id == old(self).next_id + 1,
            final(self).ships@ == old(self).ships@.push(
                Ship { id, kind, pos, vel, half, hp, cooldown },
            ),
            final(self).bullets@ == old(self).bullets@,
    {
        let id = self.next_id;
        self.next_id = self.next_id + 1;
        let ship = Ship { id, kind, pos, vel, half, hp, cooldown };
        self.ships.push(ship);
        proof {
            let s = self.ships@;
            let olds = old(self).ships@;
            assert(forall|i: int| 0 <= i < olds.len() ==> s[i] == olds[i]);
            if kind == ShipKind::PlayerShip {
                lemma_player_of_member(olds);
                assert forall|i: int|
                    0 <= i < olds.len() implies olds[i].kind != ShipKind::PlayerShip by {
                    if olds[i].kind == ShipKind::PlayerShip {
                        assert(exists|j: int|
                            0 <= j < olds.len() && olds[j].kind == ShipKind::PlayerShip);
                    }
                }
            }
        }
        id
    }

    /// Create a bullet and return its fresh identity.
    pub fn create_bullet(
        &mut self,
        shooter: Affiliation,
        pos: Vec2i,
        vel: Vec2i,
        half: Vec2i,
    ) -> (id: u64)
        requires
            old(self).wf(),
            old(self).next_id < u64::MAX,
            in_world(pos),
            -SPEED_LIMIT <= vel.x <= SPEED_LIMIT,
            -SPEED_LIMIT <= vel.y <= SPEED_LIMIT,
            0 <= half.x <= HALF_EXTENT_LIMIT,
            0 <= half.y <= HALF_EXTENT_LIMIT,
        ensures
            final(self).wf(),
            id == old(self).next_id,
            final(self).next_id == old(self).next_id + 1,
            final(self).bullets@ == old(self).bullets@.push(Bullet { id, shooter, pos, vel, half }),
            final(self).ships@ == old(self).ships@,
    {
        let id = self.next_id;
        self.next_id = self.next_id + 1;
        let bullet = Bullet { id, shooter, pos, vel, half };
        self.bullets.push(bullet);
        proof {
            let s = self.bullets@;
            let olds = old(self).bullets@;
            assert(forall|i: int| 0 <= i < olds.len() ==> s[i] == olds[i]);
        }
        id
    }

    /// Remove the ship with this identity.  Removal is idempotent: an
    /// identity that is not present is a no-op, not an error.
    pub fn remove_ship(&mut self, id: u64)
        requires
            old(self).wf(),
        ensures
            final(self).wf(),
            final(self).ships@ == remove_ship_id(old(self).ships@, id),
            final(self).bullets@ == old(self).bullets@,
            final(self).next_id == old(self).next_id,
    {
        let ghost olds = self.ships@;
        let mut out: Vec<Ship> = Vec::new();
        let mut i: usize = 0;
        while i < self.ships.len()
            invariant
                i <= self.ships@.len(),
                self.ships@ == olds,
                out@ == remove_ship_id(olds.take(i as int), id),
            decreases self.ships@.len() - i,
        {
            let s = self.ships[i];
            proof {
                assert(olds.take(i + 1).drop_last() =~= olds.take(i as int));
                assert(olds.take(i + 1).last() == olds[i as int]);
            }
            if s.id != id {
                out.push(s);
            }
            i = i + 1;
        }
        proof {
            assert(olds.take(olds.len() as int) =~= olds);
        }
        self.ships = out;
        proof {
            lemma_remove_ship_id_wf(olds, id, self.next_id);
        }
    }

    /// Remove the bullet with this identity; idempotent like `remove_ship`.
    pub fn remove_bullet(&mut self, id: u64)
        requires
            old(self).wf(),
        ensures
            final(self).wf(),
            final(self).bullets@ == remove_bullet_id(old(self).bullets@, id),
            final(self).ships@ == old(self).ships@,
            final(self).next_id == old(self).next_id,
    {
        let ghost olds = self.bullets@;
        let mut out: Vec<Bullet> = Vec::new();
        let mut i: usize = 0;
        while i < self.bullets.len()
            invariant
                i <= self.bullets@.len(),
                self.bullets@ == olds,
                out@ == remove_bullet_id(olds.take(i as int), id),
            decreases self.bullets@.len() - i,
        {
            let b = self.bullets[i];
            proof {
                assert(olds.take(i + 1).drop_last() =~= olds.take(i as int));
                assert(olds.take(i + 1).last() == olds[i as int]);
            }
            if b.id != id {
                out.push(b);
            }
            i = i + 1;
        }
        proof {
            assert(olds.take(olds.len() as int) =~= olds);
        }
        self.bullets = out;
        proof {
            lemma_remove_bullet_id_wf(olds, id, self.next_id);
        }
    }

    /// How many ships of this subtype are alive.
    pub fn count_kind(&self, k: ShipKind) -> (n: usize)
        ensures
            n == kind_count(self.ships@, k),
            n <= self.ships@.len(),
    {
        let mut n: usize = 0;
        let mut i: usize = 0;
        while i < self.ships.len()
            invariant
                i <= self.ships@.len(),
                n == kind_count(self.ships@.take(i as int), k),
                n <= i,
            decreases self.ships@.len() - i,
        {
            proof {
                assert(self.ships@.take(i + 1).drop_last() =~= self.ships@.take(i as int));
                assert(self.ships@.take(i + 1).last() == self.ships@[i as int]);
            }
            if self.ships[i].kind == k {
                n = n + 1;
            }
            i = i + 1;
        }
        proof {
            assert(self.ships@.take(self.ships@.len() as int) =~= self.ships@);
        }
        n
    }

    /// A snapshot of every ship of this subtype, in store order.  Removals
    /// scheduled while a caller walks the snapshot cannot disturb it.
    pub fn ships_of_kind(&self, k: ShipKind) -> (r: Vec<Ship>)
        ensures
            r@ == ships_of_kind_spec(self.ships@, k),
            r@.len() == kind_count(self.ships@, k),
    {
        let mut out: Vec<Ship> = Vec::new();
        let mut i: usize = 0;
        while i < self.ships.len()
            invariant
                i <= self.ships@.len(),
                out@ == ships_of_kind_spec(self.ships@.take(i as int), k),
                out@.len() <= i,
            decreases self.ships@.len() - i,
        {
            proof {
                assert(self.ships@.take(i + 1).drop_last() =~= self.ships@.take(i as int));
                assert(self.ships@.take(i + 1).last() == self.ships@[i as int]);
            }
            if self.ships[i].kind == k {
                out.push(self.ships[i]);
            }
            i = i + 1;
        }
        proof {
            assert(self.ships@.take(self.ships@.len() as int) =~= self.ships@);
            lemma_ships_of_kind_len(self.ships@, k);
        }
        out
    }

    /// A snapshot of the player ship, if one is alive.
    pub fn player(&self) -> (r: Option<Ship>)
        ensures
            r == player_of(self.ships@),
    {
        let mut i: usize = 0;
        while i < self.ships.len()
            invariant
                i <= self.ships@.len(),
                player_of(self.ships@.take(i as int)) is None,
            decreases self.ships@.len() - i,
        {
            proof {
                assert(self.ships@.take(i + 1).drop_last() =~= self.ships@.take(i as int));
                assert(self.ships@.take(i + 1).last() == self.ships@[i as int]);
            }
            if self.ships[i].kind == ShipKind::PlayerShip {
                proof {
                    lemma_player_of_extend(self.ships@, i as int);
                }
                return Option::Some(self.ships[i]);
            }
            i = i + 1;
        }
        proof {
            assert(self.ships@.take(self.ships@.len() as int) =~= self.ships@);
        }
        Option::None
    }

    /// Despawn every ship and bullet; identities already drawn stay
    /// retired.
    pub fn clear(&mut self)
        requires
            old(self).wf(),
        ensures
            final(self).wf(),
            final(self).ships@.len() == 0,
            final(self).bullets@.len() == 0,
            final(self).next_id == old(self).next_id,
    {
        self.ships = Vec::new();
        self.bullets = Vec::new();
    }
}

/// If no player stands before position `i` and the ship at `i` is the
/// player, it is the first player of the whole sequence.
pub proof fn lemma_player_of_extend(s: Seq<Ship>, i: int)
    requires
        0 <= i < s.len(),
        player_of(s.take(i)) is None,
        s[i].kind == ShipKind::PlayerShip,
    ensures
        player_of(s) == Option::Some(s[i]),
    decreases s.len(),
{
    if i == s.len() - 1 {
        assert(s.take(i) =~= s.drop_last());
        assert(s.last() == s[i]);
    } else {
        assert(s.take(i) =~= s.drop_last().take(i));
        assert(s.drop_last()[i] == s[i]);
        lemma_player_of_extend(s.drop_last(), i);
    }
}

/// The first player of a sequence is one of its elements; if any element is
/// the player, there is a first player.
pub proof fn lemma_player_of_member(s: Seq<Ship>)
    ensures
        player_of(s) is Some ==> s.contains(player_of(s)->Some_0),
        player_of(s) is Some ==> player_of(s)->Some_0.kind == ShipKind::PlayerShip,
        (exists|i: int| 0 <= i < s.len() && s[i].kind == ShipKind::PlayerShip) ==> player_of(s)
            is Some,
    decreases s.len(),
{
    if s.len() > 0 {
        lemma_player_of_member(s.drop_last());
        if player_of(s.drop_last()) is Some {
            let p = player_of(s.drop_last())->Some_0;
            let i = choose|i: int| 0 <= i < s.drop_last().len() && s.drop_last()[i] == p;
            assert(s[i] == p);
        } else if s.last().kind == ShipKind::PlayerShip {
            assert(s[s.len() - 1] == s.last());
        } else {
            if exists|i: int| 0 <= i < s.len() && s[i].kind == ShipKind::PlayerShip {
                let i = choose|i: int| 0 <= i < s.len() && s[i].kind == ShipKind::PlayerShip;
                assert(i < s.len() - 1);
                assert(s.drop_last()[i] == s[i]);
            }
        }
    }
}

} // verus!

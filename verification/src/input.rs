//! Input translation: from the raw sets of held and just-pressed keys to a
//! movement direction and the discrete action edges.

use vstd::prelude::*;

verus! {

/// Bound on the number of keys reported as held in one frame, so that the
/// direction sums fit the machine integers.
pub const HELD_KEYS_LIMIT: usize = 1_000_000;

/// The keys the core reacts to.  Everything else maps to `Other`.
#[derive(Clone, Copy, PartialEq, Eq, Structural, Debug)]
pub enum Key {
    ArrowLeft,
    ArrowRight,
    ArrowUp,
    ArrowDown,
    KeyA,
    KeyD,
    KeyW,
    KeyS,
    Space,
    KeyR,
    KeyB,
    Other,
}

/// The raw input of one frame: held keys, keys newly pressed this frame,
/// and whether a mouse button was newly pressed.
pub struct FrameInput {
    pub held: Vec<Key>,
    pub pressed: Vec<Key>,
    pub mouse_pressed: bool,
}

/// Contribution of one held key to the horizontal direction.
pub open spec fn key_dx(k: Key) -> int {
    match k {
        Key::ArrowLeft | Key::KeyA => -1,
        Key::ArrowRight | Key::KeyD => 1,
        _ => 0,
    }
}

/// Contribution of one held key to the vertical direction.
pub open spec fn key_dy(k: Key) -> int {
    match k {
        Key::ArrowUp | Key::KeyW => 1,
        Key::ArrowDown | Key::KeyS => -1,
        _ => 0,
    }
}

/// Sum of the horizontal contributions of a key sequence.  The direction is
/// a plain sum, not normalized: diagonal movement is faster on purpose.
pub open spec fn sum_dx(s: Seq<Key>) -> int
    decreases s.len(),
{
    if s.len() == 0 {
        0
    } else {
        sum_dx(s.drop_last()) + key_dx(s.last())
    }
}

/// Sum of the vertical contributions of a key sequence.
pub open spec fn sum_dy(s: Seq<Key>) -> int
    decreases s.len(),
{
    if s.len() == 0 {
        0
    } else {
        sum_dy(s.drop_last()) + key_dy(s.last())
    }
}

/// The normalized intent of one frame: a movement direction and the action
/// edges, each consumed at most once in the tick that sees it.
#[derive(Clone, Copy, PartialEq, Eq, Structural, Debug)]
pub struct Intent {
    pub move_x: i64,
    pub move_y: i64,
    pub fire: bool,
    pub retry: bool,
    pub to_menu: bool,
    pub start: bool,
}

/// Does the vector hold the key?
fn has_key(keys: &Vec<Key>, k: Key) -> (r: bool)
    ensures
        r == keys@.contains(k),
{
    let mut i: usize = 0;
    while i < keys.len()
        invariant
            i <= keys@.len(),
            forall|j: int| 0 <= j < i ==> keys@[j] != k,
        decreases keys@.len() - i,
    {
        if keys[i] == k {
            return true;
        }
        i = i + 1;
    }
    false
}

/// Translate one frame of raw input.  The movement direction is the sum of
/// the held keys' contributions; `fire`, `retry` and `to_menu` are edges of
/// the just-pressed set; `start` fires on any new key or mouse press.
pub fn translate(input: &FrameInput) -> (r: Intent)
    requires
        input.held@.len() <= HELD_KEYS_LIMIT,
    ensures
        r.move_x == sum_dx(input.held@),
        r.move_y == sum_dy(input.held@),
        -(input.held@.len() as int) <= r.move_x <= input.held@.len() as int,
        -(input.held@.len() as int) <= r.move_y <= input.held@.len() as int,
        r.fire == input.pressed@.contains(Key::Space),
        r.retry == input.pressed@.contains(Key::KeyR),
        r.to_menu == input.pressed@.contains(Key::KeyB),
        r.start == (input.mouse_pressed || input.pressed@.len() > 0),
{
    let mut move_x: i64 = 0;
    let mut move_y: i64 = 0;
    let mut i: usize = 0;
    while i < input.held.len()
        invariant
            i <= input.held@.len(),
            input.held@.len() <= HELD_KEYS_LIMIT,
            move_x == sum_dx(input.held@.take(i as int)),
            move_y == sum_dy(input.held@.take(i as int)),
            -(i as int) <= move_x <= i as int,
            -(i as int) <= move_y <= i as int,
        decreases input.held@.len() - i,
    {
        let k = input.held[i];
        proof {
            assert(input.held@.take(i + 1).drop_last() =~= input.held@.take(i as int));
            assert(input.held@.take(i + 1).last() == input.held@[i as int]);
        }
        match k {
            Key::ArrowLeft | Key::KeyA => {
                move_x = move_x - 1;
            },
            Key::ArrowRight | Key::KeyD => {
                move_x = move_x + 1;
            },
            Key::ArrowUp | Key::KeyW => {
                move_y = move_y + 1;
            },
            Key::ArrowDown | Key::KeyS => {
                move_y = move_y - 1;
            },
            _ => {},
        }
        i = i + 1;
    }
    proof {
        assert(input.held@.take(input.held@.len() as int) =~= input.held@);
    }
    Intent {
        move_x,
        move_y,
        fire: has_key(&input.pressed, Key::Space),
        retry: has_key(&input.pressed, Key::KeyR),
        to_menu: has_key(&input.pressed, Key::KeyB),
        start: input.mouse_pressed || input.pressed.len() > 0,
    }
}

} // verus!

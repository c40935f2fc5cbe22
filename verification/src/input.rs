//! Keyboard state of the third-person controls: which keys are held and the
//! movement they ask for.
use vstd::prelude::*;
use std::collections::HashSet;

verus! {

broadcast use vstd::std_specs::hash::group_hash_axioms;

/// Code of the `W` key (move forward).
pub const KEY_W: u32 = 87;

/// Code of the `A` key (strafe left).
pub const KEY_A: u32 = 65;

/// Code of the `S` key (move backward).
pub const KEY_S: u32 = 83;

/// Code of the `D` key (strafe right).
pub const KEY_D: u32 = 68;

/// Code of the `Escape` key (quit).
pub const KEY_ESCAPE: u32 = 27;

/// Whether a key event is a press or a release.
#[derive(Clone, Copy, Debug, PartialEq, Eq, Structural)]
pub enum KeyState {
    Pressed,
    Released,
}

/// The set of held keys after a key event: a press adds the key, a release
/// removes it.
pub open spec fn after_key(held: Set<u32>, key: u32, state: KeyState) -> Set<u32> {
    match state {
        KeyState::Pressed => held.insert(key),
        KeyState::Released => held.remove(key),
    }
}

/// 1 if `key` is held, else 0.
pub open spec fn held_count(held: Set<u32>, key: u32) -> int {
    if held.contains(key) {
        1
    } else {
        0
    }
}

/// The movement the held keys ask for, relative to the camera's horizontal
/// facing: `forward` is +1 (W), -1 (S) or 0 (neither or both); `strafe` is
/// +1 (D, to the right), -1 (A) or 0.
#[derive(Clone, Copy, Debug, PartialEq, Eq, Structural)]
pub struct MoveIntent {
    pub forward: i32,
    pub strafe: i32,
}

impl MoveIntent {
    /// Whether the intent moves the player at all.
    pub fn is_moving(&self) -> (r: bool)
        ensures
            r == (self.forward != 0 || self.strafe != 0),
    {
        self.forward != 0 || self.strafe != 0
    }
}

/// The movement intent of a set of held keys.
pub open spec fn intent_of(held: Set<u32>) -> MoveIntent {
    MoveIntent {
        forward: (held_count(held, KEY_W) - held_count(held, KEY_S)) as i32,
        strafe: (held_count(held, KEY_D) - held_count(held, KEY_A)) as i32,
    }
}

/// The keys currently held down (the `held_keys` of the camera).
pub struct HeldKeys {
    keys: HashSet<u32>,
}

impl View for HeldKeys {
    type V = Set<u32>;

    closed spec fn view(&self) -> Set<u32> {
        self.keys@
    }
}

impl HeldKeys {
    /// No key held.
    pub fn new() -> (r: Self)
        ensures
            r@ == Set::<u32>::empty(),
    {
        HeldKeys { keys: HashSet::new() }
    }

    /// Records a key event (`process_key` of the camera).
    pub fn process_key(&mut self, key: u32, state: KeyState)
        ensures
            final(self)@ == after_key(old(self)@, key, state),
    {
        match state {
            KeyState::Pressed => {
                self.keys.insert(key);
            },
            KeyState::Released => {
                self.keys.remove(&key);
            },
        }
    }

    /// Whether `key` is held.
    pub fn is_held(&self, key: u32) -> (r: bool)
        ensures
            r == self@.contains(key),
    {
        self.keys.contains(&key)
    }

    /// The movement the held keys ask for (the key tests of the camera's
    /// `update`).
    pub fn movement_intent(&self) -> (r: MoveIntent)
        ensures
            r == intent_of(self@),
    {
        let mut forward: i32 = 0;
        let mut strafe: i32 = 0;
        if self.is_held(KEY_W) {
            forward = forward + 1;
        }
        if self.is_held(KEY_S) {
            forward = forward - 1;
        }
        if self.is_held(KEY_A) {
            strafe = strafe - 1;
        }
        if self.is_held(KEY_D) {
            strafe = strafe + 1;
        }
        MoveIntent { forward, strafe }
    }
}

/// Releasing a key undoes pressing it: after a press and a release of the
/// same key, the held keys are what they were, less that key.
pub proof fn lemma_release_undoes_press(held: Set<u32>, key: u32)
    ensures
        after_key(after_key(held, key, KeyState::Pressed), key, KeyState::Released) == held.remove(
            key,
        ),
        !held.contains(key) ==> after_key(
            after_key(held, key, KeyState::Pressed),
            key,
            KeyState::Released,
        ) == held,
{
    assert(held.insert(key).remove(key) =~= held.remove(key));
    if !held.contains(key) {
        assert(held.remove(key) =~= held);
    }
}

/// Repeating a key event changes nothing: a held key stays held while its
/// key repeats, and a second release is harmless.
pub proof fn lemma_key_event_idempotent(held: Set<u32>, key: u32, state: KeyState)
    ensures
        after_key(after_key(held, key, state), key, state) == after_key(held, key, state),
{
    assert(after_key(after_key(held, key, state), key, state) =~= after_key(held, key, state));
}

/// A key event only changes whether that key is held.
pub proof fn lemma_key_event_local(held: Set<u32>, key: u32, state: KeyState, other: u32)
    requires
        other != key,
    ensures
        after_key(held, key, state).contains(other) == held.contains(other),
        after_key(held, key, state).contains(key) == (state == KeyState::Pressed),
{
}

/// Events on different keys commute: their order does not matter.
pub proof fn lemma_distinct_key_events_commute(
    held: Set<u32>,
    k1: u32,
    s1: KeyState,
    k2: u32,
    s2: KeyState,
)
    requires
        k1 != k2,
    ensures
        after_key(after_key(held, k1, s1), k2, s2) == after_key(after_key(held, k2, s2), k1, s1),
{
    assert(after_key(after_key(held, k1, s1), k2, s2) =~= after_key(after_key(held, k2, s2), k1, s1));
}

/// The movement intent key by key: forward is +1 for W held, -1 for S held,
/// and strafe is +1 for D held, -1 for A held; each component depends only
/// on its own pair of keys.
pub proof fn lemma_intent_components(held: Set<u32>)
    ensures
        intent_of(held).forward == (if held.contains(KEY_W) {
            1int
        } else {
            0int
        }) - (if held.contains(KEY_S) {
            1int
        } else {
            0int
        }),
        intent_of(held).strafe == (if held.contains(KEY_D) {
            1int
        } else {
            0int
        }) - (if held.contains(KEY_A) {
            1int
        } else {
            0int
        }),
{
}

/// Strafing depends only on A and D, and moving forward or back only on W
/// and S: two sets of held keys that agree on a pair agree on its component.
pub proof fn lemma_intent_components_independent(h1: Set<u32>, h2: Set<u32>)
    ensures
        h1.contains(KEY_A) == h2.contains(KEY_A) && h1.contains(KEY_D) == h2.contains(KEY_D)
            ==> intent_of(h1).strafe == intent_of(h2).strafe,
        h1.contains(KEY_W) == h2.contains(KEY_W) && h1.contains(KEY_S) == h2.contains(KEY_S)
            ==> intent_of(h1).forward == intent_of(h2).forward,
{
}

/// Opposite keys cancel: with W and S both held the player does not move
/// forward or back, and with A and D both held it does not strafe.
pub proof fn lemma_opposite_keys_cancel(held: Set<u32>)
    ensures
        held.contains(KEY_W) && held.contains(KEY_S) ==> intent_of(held).forward == 0,
        held.contains(KEY_A) && held.contains(KEY_D) ==> intent_of(held).strafe == 0,
{
}

} // verus!

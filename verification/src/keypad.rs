//! The sixteen-key pad.

use vstd::prelude::*;

verus! {

/// The number of keys.
pub const KEY_COUNT: usize = 16;

/// The state of one key.
#[derive(Clone, Copy, Debug, PartialEq, Eq, Structural)]
pub enum Keystate {
    /// The key is held down.
    Pressed,
    /// The key is up.
    Released,
}

/// The state of the keys 0 to F.
pub struct Keypad {
    keys: [Keystate; KEY_COUNT],
}

impl View for Keypad {
    type V = Seq<Keystate>;

    /// The sixteen key states, by key index.
    closed spec fn view(&self) -> Seq<Keystate> {
        self.keys@
    }
}

/// Sixteen keys, none of them pressed.
pub open spec fn all_released() -> Seq<Keystate> {
    Seq::new(KEY_COUNT as nat, |i: int| Keystate::Released)
}

impl Keypad {
    /// A pad on which no key is pressed.
    pub fn new() -> (pad: Keypad)
        ensures
            pad@ == all_released(),
    {
        let pad = Keypad { keys: [Keystate::Released; KEY_COUNT] };
        assert(pad@ =~= all_released());
        pad
    }

    /// The state of the key at `index`.
    pub fn get_key_state(&self, index: usize) -> (state: Keystate)
        requires
            index < KEY_COUNT,
        ensures
            state == self@[index as int],
    {
        self.keys[index]
    }

    /// Records `state` for the key at `index`; the other keys keep theirs.
    pub fn set_key_state(&mut self, index: usize, state: Keystate)
        requires
            index < KEY_COUNT,
        ensures
            final(self)@ == old(self)@.update(index as int, state),
    {
        self.keys[index] = state;
    }

    /// A pad always holds sixteen states.
    pub proof fn lemma_len(&self)
        ensures
            self@.len() == KEY_COUNT,
    {
    }
}

} // verus!

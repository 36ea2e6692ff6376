//! Small value types of the world model: character species and switches.

use vstd::prelude::*;

verus! {

/// Which species a character belongs to.
#[derive(Clone, Copy, Debug, Eq, PartialEq, Structural)]
pub enum CharacterType {
    Player,
    Monster,
}

/// An interactive tile with an on/off state.
#[derive(Clone, Copy, Debug, Eq, PartialEq, Structural)]
pub struct Switch {
    pub on: bool,
}

impl Switch {
    pub fn new(on: bool) -> (r: Self)
        ensures
            r == (Switch { on: on }),
    {
        Self { on }
    }

    /// Toggles the switch.
    pub fn switch(&mut self)
        ensures
            final(self).on == !old(self).on,
    {
        self.on = !self.on;
    }
}

} // verus!

use vstd::prelude::*;

verus! {

/// The movement and action intents of one character for one tick.
#[derive(Debug, Clone, Copy, PartialEq, Eq, Structural)]
pub struct GameInput {
    pub left: bool,
    pub right: bool,
    pub down: bool,
    pub jump: bool,
    pub glide: bool,
    pub pickup: bool,
    pub fire: bool,
    pub slide: bool,
}

/// A command with no intent set.
pub open spec fn no_input() -> GameInput {
    GameInput {
        left: false,
        right: false,
        down: false,
        jump: false,
        glide: false,
        pickup: false,
        fire: false,
        slide: false,
    }
}

impl GameInput {
    /// A fresh command record, every intent cleared.
    pub fn new() -> (r: GameInput)
        ensures
            r == no_input(),
    {
        GameInput {
            left: false,
            right: false,
            down: false,
            jump: false,
            glide: false,
            pickup: false,
            fire: false,
            slide: false,
        }
    }
}

} // verus!

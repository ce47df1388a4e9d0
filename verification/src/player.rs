//! The player, as far as this core reads it: a grid position.

use vstd::prelude::*;

use crate::space::GamePos;

verus! {

/// The player character. Tile interaction hooks receive it mutably so a
/// variant could move or affect the player; the variants in this crate leave
/// it untouched and say so in their contracts.
#[derive(Clone, Copy, Debug, PartialEq, Eq, Structural)]
pub struct Player {
    pub pos: GamePos,
}

impl Player {
    pub fn new(pos: GamePos) -> (r: Player)
        ensures
            r.pos == pos,
    {
        Player { pos }
    }

    pub fn get_pos(&self) -> (r: GamePos)
        ensures
            r == self.pos,
    {
        self.pos
    }
}

} // verus!

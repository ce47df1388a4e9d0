//! World/tile subsystem of a 2D top-down game: a grid of regions containing
//! tiles (edges, warps, pillars, boulders), each with a position, an animation
//! state machine, and player-interaction behaviour, plus the world-level tick
//! driver and a tagged codec for persisting heterogeneous tile lists.

pub mod animation;
pub mod clock;
pub mod codec;
pub mod player;
pub mod region;
pub mod space;
pub mod tile;
pub mod world;

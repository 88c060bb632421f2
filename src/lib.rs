//! Board and ship data model for a multiplayer grid-placement game.
//!
//! * [`region`]: one ship placement as a bounding region, its validation
//!   against the grid and the overlap test between two placements.
//! * [`board`]: one player's grid of cell markers and placed ships.
//! * [`game`]: the game-wide configuration and the boards of all players.
pub mod board;
pub mod game;
pub mod region;

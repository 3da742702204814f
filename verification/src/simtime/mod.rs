//! The Blam simulation: its clock, its objects and its players, reached through the simulation
//! thread's TLS block.
//!
//! Every operation takes the roots it starts from (the TLS block, the game-globals block, the
//! simulation module's base), 0 where one is not resolved. Operations are guarded: a fault ends
//! one with the fallback that its contract names, and writes made before the fault stay.

pub mod ai;
pub mod clock;
pub mod code;
pub mod globals;
pub mod lookup;
pub mod objects;
pub mod player;
pub mod unit;
pub mod weapon;

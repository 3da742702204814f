pub mod bytes;
pub mod campaign;
pub mod cmd;
pub mod console;
pub mod dump;
pub mod hooks;
pub mod ieee;
pub mod input;
pub mod log;
pub mod look;
pub mod mem;
pub mod memory;
pub mod offsets;
pub mod paths;
pub mod pawn;
pub mod perf;
pub mod possess;
pub mod script;
pub mod simtime;
pub mod simunit;
pub mod state;
pub mod stats;
pub mod text;
pub mod ue;

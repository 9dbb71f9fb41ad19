//! Tick-based multiplayer engine core: a dependency-ordered system
//! scheduler, a priority-based instruction reducer, a shared input
//! buffer with bulk hand-off, and the per-connection session logic.

pub mod components;
pub mod connection;
pub mod engine;
pub mod framing;
pub mod graph;
pub mod input;
pub mod instruction;
pub mod keyed;
pub mod scheduler;
pub mod server;
pub mod session;
pub mod world;

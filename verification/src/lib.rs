//! A real-time multiplayer lobby: a registry of players with unique colors,
//! a dispatcher that turns client events into roster broadcasts, a directory
//! of per-connection outbound queues, and a per-connection session state
//! machine that ties them together.

pub mod directory;
pub mod dispatcher;
pub mod errors;
pub mod events;
pub mod player;
pub mod registry;
pub mod session;

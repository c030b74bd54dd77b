//! Networked simulation core of a small multiplayer arena game: the wire
//! framing, the relay server's routing rules, the boss state machine, the
//! collision and damage pipeline and the client's reconciliation of relayed
//! events.
//!
//! All quantities are integers: positions in milli-pixels, time in
//! milliseconds, speeds in milli-pixels per millisecond (numerically pixels per
//! second) and directions as vectors whose unit length is `DIR_ONE`.

pub mod constants;
pub mod geometry;
pub mod frame;
pub mod message;
pub mod relay;
pub mod rng;
pub mod player;
pub mod bullet;
pub mod effects;
pub mod boss;
pub mod audio;
pub mod collision;
pub mod network;
pub mod game_state;
pub mod input;
pub mod leaderboard;

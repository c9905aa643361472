//! A wager-escrow game engine: games are created, joined, timed out, settled
//! and paid out under one set of rules, with an owner, a set of admins and a
//! maintenance switch guarding them.
//!
//! The engine is a state machine. Each operation takes the identity of its
//! caller, the payment attached to the call and the current time as plain
//! arguments, and either goes through as a whole or fails and changes
//! nothing. Transfers are not made here: an operation returns what is owed
//! to whom, and the host pays.
//!
//! - [`engine`]: the operations, on the configuration and the games together;
//! - [`lifecycle`]: the conditions of each operation on a game, in their order;
//! - [`config`]: the maintenance switch, the owner, the admins, the token and the fee;
//! - [`registry`] and [`index`]: the games on record by id, and by user;
//! - [`game`]: one game, its players and the wagers held for it;
//! - [`reward`]: how the wagers of a game are split among its winners;
//! - [`roster`], [`identity`], [`token`], [`error`]: the values that these work on;
//! - [`laws`]: what holds of every state that the operations can reach;
//! - [`state`]: the address of a deployed contract, as kept between runs.

pub mod config;
pub mod engine;
pub mod error;
pub mod game;
pub mod identity;
pub mod index;
pub mod laws;
pub mod lifecycle;
pub mod registry;
pub mod reward;
pub mod roster;
pub mod state;
pub mod token;

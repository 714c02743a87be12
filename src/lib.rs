//! A turn-based bluffing card game: roles, moves, participants, and the
//! turn-resolution engine, with their contracts proved by Verus.

pub mod character;
pub mod action;
pub mod phase;
pub mod player;
mod random;
pub mod game;
pub mod gameai;
pub mod moves;
pub mod turn;
pub mod laws;

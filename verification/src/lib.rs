//! Authoritative core of a turn-based multiplayer game played on a road map.
//!
//! The crate owns every game's state, checks each submitted player input
//! against an ordered set of rules, and either commits the resulting state
//! transition or rejects it without touching the stored state.
//!
//! Every executable function carries a contract over a mathematical model
//! of the data, and the contracts are machine-checked.

pub mod search;
pub mod sequences;
pub mod text;
pub mod types;
pub mod node_map;
pub mod gamestate;
pub mod violation;
pub mod rule_checker;
pub mod game_rule_checker;
pub mod actions;
pub mod invariants;
pub mod clock;
pub mod entropy;
pub mod game_controller;
pub mod laws;

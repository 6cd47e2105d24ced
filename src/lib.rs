//! Real-time session layer of a party game: identity negotiation, the game
//! action state machine, the fanout filter and the connection life cycle,
//! over an in-memory game store.

pub mod error;
pub mod lookup;
pub mod models;
pub mod ids;
pub mod repositories;
pub mod services;
pub mod handlers;
pub mod view;
pub mod extractors;

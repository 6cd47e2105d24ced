pub mod game;
pub mod session;
pub mod auth;

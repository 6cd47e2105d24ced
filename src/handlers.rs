pub mod auth;
pub mod games;
pub mod profile;
pub mod websocket;

pub mod games;
pub mod users;

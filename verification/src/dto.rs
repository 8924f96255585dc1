pub mod group;
pub mod user;

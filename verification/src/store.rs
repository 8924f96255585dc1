pub mod memory;
pub mod model;
pub mod statements;

pub mod crew;
pub mod errors;
pub mod galaxy;
pub mod game;
pub mod industry;
pub mod module;
pub mod player;
pub mod ship;
pub mod text;
pub mod shard;
pub mod json;

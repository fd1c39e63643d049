pub mod components;
pub mod entities;
pub mod game_context;
pub mod gameplay;
pub mod laws;
pub mod map;
pub mod rendering;
pub mod world;

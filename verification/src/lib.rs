pub mod game;
pub mod config;
pub mod control;
pub mod media;
pub mod platform;
pub mod render;
pub mod resources;
